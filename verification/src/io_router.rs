//! The I/O router's rules: the replay ring of each stream, who receives what
//! was read, and the requests that create, attach, detach and remove a job's
//! streams.
//!
//! The router holds no pipe, file or channel here. Whoever runs it reads the
//! pipes and hands the outcome in; the answer says where the bytes go.

use std::collections::VecDeque;
use vstd::prelude::*;
use crate::orchestrate::{ErrorView, OrchestratorError};
use crate::text_map::TextMap;

verus! {

/// Size of the buffer that one read of a pipe fills.
pub const IO_ROUTER_READ_BUF_LEN: usize = 1024;

/// Number of slices that a replay ring retains.
pub const RING_SLICES: usize = 10240;

/// Number of further reads that draining a stream allows after the first.
pub const DRAIN_TIMES: usize = 100;

/// Number of bytes of each stream that a snapshot hands out.
pub const SNAPSHOT_LEN: usize = 512;

/// The last `n` bytes, or all of them if there are fewer.
pub open spec fn tail(bytes: Seq<u8>, n: nat) -> Seq<u8> {
    if bytes.len() <= n {
        bytes
    } else {
        bytes.subrange(bytes.len() - n, bytes.len() as int)
    }
}

/// The last `n` bytes of a buffer, or all of them if there are fewer.
pub fn last_bytes(bytes: &Vec<u8>, n: usize) -> (end: &[u8])
    ensures
        end@ == tail(bytes@, n as nat),
{
    let len = bytes.len();
    let from = if len <= n {
        0
    } else {
        len - n
    };
    let end = vstd::slice::slice_subrange(bytes.as_slice(), from, len);
    assert(end@ =~= tail(bytes@, n as nat));
    end
}

/// The ring after `element` was pushed with room for `limit` slices: when the
/// ring is full its oldest slice goes first.
pub open spec fn ring_pushed(ring: Seq<Vec<u8>>, element: Vec<u8>, limit: nat) -> Seq<Vec<u8>> {
    if ring.len() >= limit && ring.len() > 0 {
        ring.drop_first().push(element)
    } else {
        ring.push(element)
    }
}

/// Pushes `element` into a ring with room for `limit` slices, evicting the
/// oldest slice when the ring is full.
pub fn ring_buf_push(buff: &mut VecDeque<Vec<u8>>, element: Vec<u8>, limit: usize)
    ensures
        final(buff)@ == ring_pushed(old(buff)@, element, limit as nat),
{
    if buff.len() >= limit {
        let _ = buff.pop_front();
        assert(buff@ =~= if old(buff)@.len() > 0 {
            old(buff)@.drop_first()
        } else {
            old(buff)@
        });
    }
    buff.push_back(element);
}

/// The flag word of a file descriptor with the bits of `new_flag` set.
pub fn set_fd_flag(flags: i32, new_flag: i32) -> (word: i32)
    ensures
        word == flags | new_flag,
{
    flags | new_flag
}

/// The flag word of a file descriptor with the bits of `new_flag` cleared.
pub fn clear_fd_flag(flags: i32, new_flag: i32) -> (word: i32)
    ensures
        word == flags & !new_flag,
{
    flags & !new_flag
}

/// The bytes of each slice of a ring.
pub open spec fn ring_view(ring: Seq<Vec<u8>>) -> Seq<Seq<u8>> {
    Seq::new(ring.len(), |i: int| ring[i]@)
}

/// The ring of byte slices after `bytes` was pushed with room for `limit`
/// slices: when the ring is full its oldest slice goes first.
pub open spec fn evicting_push(ring: Seq<Seq<u8>>, bytes: Seq<u8>, limit: nat) -> Seq<Seq<u8>> {
    if ring.len() >= limit && ring.len() > 0 {
        ring.drop_first().push(bytes)
    } else {
        ring.push(bytes)
    }
}

/// The bytes of all slices, oldest first.
pub open spec fn concat(slices: Seq<Seq<u8>>) -> Seq<u8>
    decreases slices.len(),
{
    if slices.len() == 0 {
        Seq::empty()
    } else {
        concat(slices.drop_last()) + slices.last()
    }
}

/// What one non-blocking read of a pipe gave.
#[derive(Debug)]
pub enum PipeRead {
    /// The read returned these bytes; none at all at the end of the stream.
    Data(Vec<u8>),
    /// Nothing was there to read.
    WouldBlock,
    /// The read failed.
    Failed,
}

/// The outcome of a read as plain mathematical values.
pub enum ReadView {
    Data(Seq<u8>),
    WouldBlock,
    Failed,
}

impl View for PipeRead {
    type V = ReadView;

    open spec fn view(&self) -> ReadView {
        match self {
            PipeRead::Data(bytes) => ReadView::Data(bytes@),
            PipeRead::WouldBlock => ReadView::WouldBlock,
            PipeRead::Failed => ReadView::Failed,
        }
    }
}

/// Where the bytes of one read go.
#[derive(Clone, Copy, Debug, PartialEq, Eq, Structural)]
pub enum Relay {
    /// Nothing was read: nowhere, and there is no point in reading again now.
    Idle,
    /// The bytes were stored in the ring. They go to the forwarding channel
    /// if `forward` is set and to the default sink if `sink` is set; another
    /// read may follow at once.
    Pass { forward: bool, sink: bool },
    /// The read failed.
    Failed,
}

/// One output stream of a job as plain mathematical values.
pub struct StreamView {
    /// The slices that the replay ring retains, oldest first.
    pub ring: Seq<Seq<u8>>,
    /// Whether a forwarder is attached.
    pub attached: bool,
    /// Whether a default sink is open.
    pub sink: bool,
}

/// A stream after it took in the outcome of one read, and where the bytes
/// go. Bytes that were read are stored in the ring, whoever else receives
/// them.
pub open spec fn relayed(stream: StreamView, read: ReadView) -> (StreamView, Relay) {
    match read {
        ReadView::Data(bytes) => if bytes.len() == 0 {
            (stream, Relay::Idle)
        } else {
            (
                StreamView { ring: evicting_push(stream.ring, bytes, RING_SLICES as nat), ..stream },
                Relay::Pass { forward: stream.attached, sink: stream.sink },
            )
        },
        ReadView::WouldBlock => (stream, Relay::Idle),
        ReadView::Failed => (stream, Relay::Failed),
    }
}

/// What a snapshot hands out of a stream: the end of all bytes that its
/// ring retains.
pub open spec fn retained(stream: StreamView) -> Seq<u8> {
    tail(concat(stream.ring), SNAPSHOT_LEN as nat)
}

/// The bytes of all reads that returned some, in order.
pub open spec fn bytes_read(reads: Seq<ReadView>) -> Seq<u8>
    decreases reads.len(),
{
    if reads.len() == 0 {
        Seq::empty()
    } else {
        match reads.last() {
            ReadView::Data(bytes) => bytes_read(reads.drop_last()) + bytes,
            _ => bytes_read(reads.drop_last()),
        }
    }
}

/// A stream after it took in the outcomes of a run of reads, and the bytes
/// that went to the forwarding channel meanwhile.
pub open spec fn relayed_run(stream: StreamView, reads: Seq<ReadView>) -> (StreamView, Seq<u8>)
    decreases reads.len(),
{
    if reads.len() == 0 {
        (stream, Seq::empty())
    } else {
        let (before, sent) = relayed_run(stream, reads.drop_last());
        let (after, relay) = relayed(before, reads.last());
        match (relay, reads.last()) {
            (Relay::Pass { forward: true, .. }, ReadView::Data(bytes)) => (after, sent + bytes),
            _ => (after, sent),
        }
    }
}

/// While a forwarder is attached it is sent exactly what is read, byte for
/// byte; while none is attached nothing is sent.
pub proof fn lemma_forwarded_is_what_was_read(stream: StreamView, reads: Seq<ReadView>)
    ensures
        relayed_run(stream, reads).0.attached == stream.attached,
        relayed_run(stream, reads).1 == (if stream.attached {
            bytes_read(reads)
        } else {
            Seq::empty()
        }),
    decreases reads.len(),
{
    if reads.len() > 0 {
        lemma_forwarded_is_what_was_read(stream, reads.drop_last());
        match reads.last() {
            ReadView::Data(bytes) => {
                if bytes.len() == 0 {
                    assert(bytes_read(reads.drop_last()) + bytes =~= bytes_read(
                        reads.drop_last(),
                    ));
                }
            },
            _ => {},
        }
    }
}

/// One output stream of a job: its replay ring, whether a forwarder is
/// attached, and whether a default sink is open.
pub struct Stream {
    buff: VecDeque<Vec<u8>>,
    attached: bool,
    sink: bool,
}

impl View for Stream {
    type V = StreamView;

    closed spec fn view(&self) -> StreamView {
        StreamView { ring: ring_view(self.buff@), attached: self.attached, sink: self.sink }
    }
}

impl Stream {
    #[verifier::type_invariant]
    spec fn ring_is_bounded(&self) -> bool {
        self.buff@.len() <= RING_SLICES
    }

    /// A stream with an empty ring and no forwarder.
    pub fn new(sink: bool) -> (stream: Stream)
        ensures
            stream@ == (StreamView { ring: Seq::empty(), attached: false, sink }),
    {
        let stream = Stream { buff: VecDeque::new(), attached: false, sink };
        assert(stream@.ring =~= Seq::empty());
        stream
    }

    /// Whether a forwarder is attached.
    pub fn is_attached(&self) -> (attached: bool)
        ensures
            attached == self@.attached,
            self@.ring.len() <= RING_SLICES,
    {
        proof {
            use_type_invariant(self);
        }
        self.attached
    }

    /// Attaches or detaches the forwarder.
    pub fn set_attached(&mut self, attached: bool)
        ensures
            final(self)@ == (StreamView { attached, ..old(self)@ }),
    {
        proof {
            use_type_invariant(&*self);
        }
        self.attached = attached;
    }

    /// Takes in the outcome of one read and says where the bytes go.
    pub fn forward(&mut self, read: PipeRead) -> (relay: Relay)
        ensures
            (final(self)@, relay) == relayed(old(self)@, read@),
            final(self)@.ring.len() <= RING_SLICES,
    {
        proof {
            use_type_invariant(&*self);
        }
        match read {
            PipeRead::Data(bytes) => {
                if bytes.len() == 0 {
                    return Relay::Idle;
                }
                let mut ring: VecDeque<Vec<u8>> = VecDeque::new();
                std::mem::swap(&mut self.buff, &mut ring);
                ring_buf_push(&mut ring, bytes, RING_SLICES);
                self.buff = ring;
                assert(final(self)@.ring =~= evicting_push(
                    old(self)@.ring,
                    bytes@,
                    RING_SLICES as nat,
                ));
                Relay::Pass { forward: self.attached, sink: self.sink }
            },
            PipeRead::WouldBlock => Relay::Idle,
            PipeRead::Failed => Relay::Failed,
        }
    }

    /// All bytes that the ring retains, oldest first.
    pub fn snapshot(&self) -> (bytes: Vec<u8>)
        ensures
            bytes@ == concat(self@.ring),
    {
        let mut bytes: Vec<u8> = Vec::new();
        let mut i: usize = 0;
        while i < self.buff.len()
            invariant
                i <= self.buff@.len(),
                bytes@ == concat(ring_view(self.buff@).take(i as int)),
            decreases self.buff@.len() - i,
        {
            let slice = &self.buff[i];
            let ghost before = bytes@;
            let mut j: usize = 0;
            while j < slice.len()
                invariant
                    j <= slice@.len(),
                    bytes@ == before + slice@.take(j as int),
                decreases slice@.len() - j,
            {
                bytes.push(slice[j]);
                assert(slice@.take(j + 1) =~= slice@.take(j as int).push(slice@[j as int]));
                assert(bytes@ =~= before + slice@.take(j + 1));
                j += 1;
            }
            proof {
                let ring = ring_view(self.buff@);
                assert(slice@.take(slice@.len() as int) =~= slice@);
                assert(ring.take(i + 1).drop_last() =~= ring.take(i as int));
                assert(ring.take(i + 1).last() == slice@);
            }
            i += 1;
        }
        proof {
            let ring = ring_view(self.buff@);
            assert(ring.take(ring.len() as int) =~= ring);
        }
        bytes
    }
}

/// The counter that bounds the draining of one stream.
pub struct Drain {
    left: usize,
}

impl Drain {
    /// Number of further reads still allowed.
    pub closed spec fn left(&self) -> nat {
        self.left as nat
    }

    /// A counter that allows `DRAIN_TIMES` further reads.
    pub fn new() -> (drain: Drain)
        ensures
            drain.left() == DRAIN_TIMES,
    {
        Drain { left: DRAIN_TIMES }
    }

    /// Whether draining goes on after a read with the answer `relay`: it
    /// does while bytes keep coming and the allowance lasts.
    pub fn again(&mut self, relay: Relay) -> (more: bool)
        ensures
            more == (relay is Pass && old(self).left() > 0),
            final(self).left() == (if more {
                (old(self).left() - 1) as nat
            } else {
                old(self).left()
            }),
    {
        match relay {
            Relay::Pass { .. } => {
                if self.left != 0 {
                    self.left -= 1;
                    true
                } else {
                    false
                }
            },
            _ => false,
        }
    }
}

/// The two output streams of a job.
pub struct Tee {
    pub stdout: Stream,
    pub stderr: Stream,
}

/// The streams of a job as plain mathematical values.
pub struct TeeView {
    pub stdout: StreamView,
    pub stderr: StreamView,
}

impl View for Tee {
    type V = TeeView;

    open spec fn view(&self) -> TeeView {
        TeeView { stdout: self.stdout@, stderr: self.stderr@ }
    }
}

/// The streams of a job that was just spawned.
pub open spec fn fresh_tee(stdout_sink: bool, stderr_sink: bool) -> TeeView {
    TeeView {
        stdout: StreamView { ring: Seq::empty(), attached: false, sink: stdout_sink },
        stderr: StreamView { ring: Seq::empty(), attached: false, sink: stderr_sink },
    }
}

/// The streams with the forwarder of both attached or detached.
pub open spec fn tee_attached(tee: TeeView, attached: bool) -> TeeView {
    TeeView {
        stdout: StreamView { attached, ..tee.stdout },
        stderr: StreamView { attached, ..tee.stderr },
    }
}

impl Tee {
    /// Streams with empty rings, no forwarder, and the given default sinks.
    pub fn new(stdout_sink: bool, stderr_sink: bool) -> (tee: Tee)
        ensures
            tee@ == fresh_tee(stdout_sink, stderr_sink),
    {
        Tee { stdout: Stream::new(stdout_sink), stderr: Stream::new(stderr_sink) }
    }
}

/// The path that a default sink is opened at, or `None` where the
/// definition says `null`: such output is discarded.
pub fn default_sink(path: &str) -> (sink: Option<&str>)
    ensures
        sink == (if path@ == "null"@ {
            None
        } else {
            Some(path)
        }),
{
    if crate::text::same_text(path, "null") {
        None
    } else {
        Some(path)
    }
}

/// The output stream of a job that a read came from.
#[derive(Clone, Copy, Debug, PartialEq, Eq, Structural)]
pub enum Source {
    Stdout,
    Stderr,
}

/// A request to the router.
#[derive(Debug)]
pub enum IoRouterRequest {
    /// Take charge of the streams of a job that was spawned; the flags say
    /// for which of the two a default sink was opened.
    Create(String, bool, bool),
    /// Drop the streams of a job.
    Remove(String),
    /// Hand out what the rings of a job retain.
    ReadBuff(String),
    /// Attach a forwarder to both streams of a job.
    StartForwarding(String),
    /// Detach the forwarder of a job.
    StopForwarding(String),
    /// Write bytes to the standard input of a job.
    Input(String, Vec<u8>),
}

/// The router's answer to a request.
#[derive(Debug)]
pub enum RouterReply {
    /// The request needs no answer.
    Done,
    /// The retained bytes of standard output and of standard error.
    Buffers(Vec<u8>, Vec<u8>),
    /// Whether the forwarder was attached.
    Forwarding(Result<(), OrchestratorError>),
    /// The bytes to write to the job's standard input, or `None` if the
    /// router is not in charge of the job.
    Input(Option<Vec<u8>>),
}

/// The streams of all live jobs.
pub struct Router {
    ios: TextMap<Tee>,
}

/// The streams of each alias as plain mathematical values.
pub open spec fn tees_view(tees: Map<Seq<char>, Tee>) -> Map<Seq<char>, TeeView> {
    Map::new(|k: Seq<char>| tees.contains_key(k), |k: Seq<char>| tees[k]@)
}

/// A forwarder is attached to both streams of a job or to neither.
pub open spec fn paired(tees: Map<Seq<char>, TeeView>) -> bool {
    forall|k: Seq<char>| #[trigger]
        tees.contains_key(k) ==> tees[k].stdout.attached == tees[k].stderr.attached
}

impl View for Router {
    type V = Map<Seq<char>, TeeView>;

    closed spec fn view(&self) -> Map<Seq<char>, TeeView> {
        tees_view(self.ios.map())
    }
}

/// Whether a forwarder is attached to the streams of `alias`.
pub open spec fn forwarding(tees: Map<Seq<char>, TeeView>, alias: Seq<char>) -> bool {
    tees.contains_key(alias) && tees[alias].stdout.attached
}

/// Why a forwarder cannot be attached to `alias`, if it cannot.
pub open spec fn attach_refusal(tees: Map<Seq<char>, TeeView>, alias: Seq<char>) -> Option<
    ErrorView,
> {
    if !tees.contains_key(alias) {
        Some(ErrorView::JobNotFound)
    } else if tees[alias].stdout.attached {
        Some(ErrorView::JobAlreadyAttached)
    } else {
        None
    }
}

/// The streams after the outcome of a read of `source` of `alias` was taken
/// in, and where the bytes go. A read for an unknown alias goes nowhere.
pub open spec fn routed(
    tees: Map<Seq<char>, TeeView>,
    alias: Seq<char>,
    source: Source,
    read: ReadView,
) -> (Map<Seq<char>, TeeView>, Relay) {
    if !tees.contains_key(alias) {
        (tees, Relay::Idle)
    } else {
        let tee = tees[alias];
        match source {
            Source::Stdout => (
                tees.insert(alias, TeeView { stdout: relayed(tee.stdout, read).0, ..tee }),
                relayed(tee.stdout, read).1,
            ),
            Source::Stderr => (
                tees.insert(alias, TeeView { stderr: relayed(tee.stderr, read).0, ..tee }),
                relayed(tee.stderr, read).1,
            ),
        }
    }
}

/// The streams after a request to detach the forwarder of `alias`.
pub open spec fn detached(tees: Map<Seq<char>, TeeView>, alias: Seq<char>) -> Map<
    Seq<char>,
    TeeView,
> {
    if forwarding(tees, alias) {
        tees.insert(alias, tee_attached(tees[alias], false))
    } else {
        tees
    }
}

/// While no forwarder is attached to a job, nothing that is read from it is
/// forwarded, and reading attaches none.
pub proof fn lemma_detached_is_silent(
    tees: Map<Seq<char>, TeeView>,
    alias: Seq<char>,
    source: Source,
    read: ReadView,
)
    requires
        paired(tees),
        !forwarding(tees, alias),
    ensures
        !(routed(tees, alias, source, read).1 matches Relay::Pass { forward, .. } && forward),
        !forwarding(routed(tees, alias, source, read).0, alias),
        paired(routed(tees, alias, source, read).0),
{
    if tees.contains_key(alias) {
        assert(tees[alias].stdout.attached == tees[alias].stderr.attached);
        let after = routed(tees, alias, source, read).0;
        assert forall|k: Seq<char>| #[trigger] after.contains_key(k) implies after[k].stdout.attached
            == after[k].stderr.attached by {
            if k != alias {
                assert(tees.contains_key(k));
            }
        }
    }
}

/// After the forwarder of a job was detached, nothing that is read from the
/// job is forwarded.
pub proof fn lemma_silent_after_stop(
    tees: Map<Seq<char>, TeeView>,
    alias: Seq<char>,
    source: Source,
    read: ReadView,
)
    requires
        paired(tees),
    ensures
        !(routed(detached(tees, alias), alias, source, read).1 matches Relay::Pass { forward, .. }
            && forward),
{
    let after = detached(tees, alias);
    assert forall|k: Seq<char>| #[trigger] after.contains_key(k) implies after[k].stdout.attached
        == after[k].stderr.attached by {
        if k != alias {
            assert(tees.contains_key(k));
        }
    }
    lemma_detached_is_silent(after, alias, source, read);
}

impl Router {
    #[verifier::type_invariant]
    spec fn forwarders_are_paired(&self) -> bool {
        paired(tees_view(self.ios.map()))
    }

    /// A router in charge of no stream.
    pub fn new() -> (router: Router)
        ensures
            router@ == Map::<Seq<char>, TeeView>::empty(),
    {
        let router = Router { ios: TextMap::new() };
        assert(router@ =~= Map::<Seq<char>, TeeView>::empty());
        router
    }

    /// Moves the streams out, leaving the router empty for the moment.
    fn take_ios(&mut self) -> (ios: TextMap<Tee>)
        ensures
            ios == old(self).ios,
            paired(tees_view(ios.map())),
    {
        proof {
            use_type_invariant(&*self);
        }
        let mut ios: TextMap<Tee> = TextMap::new();
        std::mem::swap(&mut self.ios, &mut ios);
        ios
    }

    /// Takes charge of the streams of `alias`, unless it already has them.
    pub fn create(&mut self, alias: &str, stdout_sink: bool, stderr_sink: bool)
        ensures
            final(self)@ == (if old(self)@.contains_key(alias@) {
                old(self)@
            } else {
                old(self)@.insert(alias@, fresh_tee(stdout_sink, stderr_sink))
            }),
            paired(final(self)@),
    {
        let mut ios = self.take_ios();
        if !ios.contains(alias) {
            ios.insert(alias.to_owned(), Tee::new(stdout_sink, stderr_sink));
            assert(tees_view(ios.map()) =~= old(self)@.insert(
                alias@,
                fresh_tee(stdout_sink, stderr_sink),
            ));
        }
        self.ios = ios;
    }

    /// Drops the streams of `alias`.
    pub fn remove(&mut self, alias: &str)
        ensures
            final(self)@ == old(self)@.remove(alias@),
            paired(final(self)@),
    {
        let mut ios = self.take_ios();
        ios.remove(alias);
        assert(tees_view(ios.map()) =~= old(self)@.remove(alias@));
        self.ios = ios;
    }

    /// The end of what the rings of `alias` retain: the last bytes of
    /// standard output, then those of standard error. Both are empty for an
    /// unknown alias.
    pub fn read_buff(&self, alias: &str) -> (buffers: (Vec<u8>, Vec<u8>))
        ensures
            buffers.0@ == (if self@.contains_key(alias@) {
                retained(self@[alias@].stdout)
            } else {
                Seq::empty()
            }),
            buffers.1@ == (if self@.contains_key(alias@) {
                retained(self@[alias@].stderr)
            } else {
                Seq::empty()
            }),
            paired(self@),
    {
        proof {
            use_type_invariant(self);
        }
        match self.ios.get(alias) {
            Some(tee) => {
                let out = tee.stdout.snapshot();
                let err = tee.stderr.snapshot();
                (
                    vstd::slice::slice_to_vec(last_bytes(&out, SNAPSHOT_LEN)),
                    vstd::slice::slice_to_vec(last_bytes(&err, SNAPSHOT_LEN)),
                )
            },
            None => (Vec::new(), Vec::new()),
        }
    }

    /// Whether the router is in charge of the streams of `alias`.
    pub fn is_in_charge(&self, alias: &str) -> (known: bool)
        ensures
            known == self@.contains_key(alias@),
            paired(self@),
    {
        proof {
            use_type_invariant(self);
        }
        self.ios.contains(alias)
    }

    /// Whether a forwarder is attached to the streams of `alias`.
    pub fn is_forwarding(&self, alias: &str) -> (attached: bool)
        ensures
            attached == forwarding(self@, alias@),
            paired(self@),
    {
        proof {
            use_type_invariant(self);
        }
        match self.ios.get(alias) {
            Some(tee) => tee.stdout.is_attached(),
            None => false,
        }
    }

    /// Attaches a forwarder to both streams of `alias`. Fails with
    /// `JobNotFound` for an unknown alias and with `JobAlreadyAttached`
    /// while a forwarder is attached.
    pub fn start_forwarding(&mut self, alias: &str) -> (done: Result<(), OrchestratorError>)
        ensures
            paired(final(self)@),
            match done {
                Ok(_) => attach_refusal(old(self)@, alias@) is None && final(self)@ == old(
                    self,
                )@.insert(alias@, tee_attached(old(self)@[alias@], true)),
                Err(e) => attach_refusal(old(self)@, alias@) == Some(e@) && final(self)@ == old(
                    self,
                )@,
            },
    {
        let mut ios = self.take_ios();
        let done = match ios.position(alias) {
            Some(i) => {
                if ios.value_at(i).stdout.is_attached() {
                    Err(OrchestratorError::JobAlreadyAttached)
                } else {
                    let mut tee = ios.set_at(i, Tee::new(false, false));
                    tee.stdout.set_attached(true);
                    tee.stderr.set_attached(true);
                    ios.set_at(i, tee);
                    assert(tees_view(ios.map()) =~= old(self)@.insert(
                        alias@,
                        tee_attached(old(self)@[alias@], true),
                    ));
                    Ok(())
                }
            },
            None => Err(OrchestratorError::JobNotFound),
        };
        self.ios = ios;
        done
    }

    /// Detaches the forwarder of `alias`, if one is attached. What the child
    /// wrote before is to be drained first, with `forward` and a `Drain`
    /// counter for each stream.
    pub fn stop_forwarding(&mut self, alias: &str)
        ensures
            final(self)@ == detached(old(self)@, alias@),
            !forwarding(final(self)@, alias@),
            paired(final(self)@),
    {
        let mut ios = self.take_ios();
        match ios.position(alias) {
            Some(i) => {
                if ios.value_at(i).stdout.is_attached() {
                    let mut tee = ios.set_at(i, Tee::new(false, false));
                    tee.stdout.set_attached(false);
                    tee.stderr.set_attached(false);
                    ios.set_at(i, tee);
                    assert(tees_view(ios.map()) =~= old(self)@.insert(
                        alias@,
                        tee_attached(old(self)@[alias@], false),
                    ));
                }
            },
            None => {},
        }
        self.ios = ios;
    }

    /// Takes in the outcome of one read of `source` of `alias` and says
    /// where the bytes go.
    pub fn forward(&mut self, alias: &str, source: Source, read: PipeRead) -> (relay: Relay)
        ensures
            (final(self)@, relay) == routed(old(self)@, alias@, source, read@),
            paired(final(self)@),
    {
        let mut ios = self.take_ios();
        let relay = match ios.position(alias) {
            Some(i) => {
                let mut tee = ios.set_at(i, Tee::new(false, false));
                let relay = match source {
                    Source::Stdout => tee.stdout.forward(read),
                    Source::Stderr => tee.stderr.forward(read),
                };
                ios.set_at(i, tee);
                assert(tees_view(ios.map()) =~= routed(old(self)@, alias@, source, read@).0);
                relay
            },
            None => Relay::Idle,
        };
        self.ios = ios;
        relay
    }
}

/// Serves one request from the router's inbox.
pub fn route(router: &mut Router, request: IoRouterRequest) -> (reply: RouterReply)
    ensures
        paired(final(router)@),
        match request {
            IoRouterRequest::Create(alias, stdout_sink, stderr_sink) => {
                &&& reply is Done
                &&& final(router)@ == (if old(router)@.contains_key(alias@) {
                    old(router)@
                } else {
                    old(router)@.insert(alias@, fresh_tee(stdout_sink, stderr_sink))
                })
            },
            IoRouterRequest::Remove(alias) => {
                &&& reply is Done
                &&& final(router)@ == old(router)@.remove(alias@)
            },
            IoRouterRequest::ReadBuff(alias) => {
                &&& final(router)@ == old(router)@
                &&& reply matches RouterReply::Buffers(out, err)
                &&& out@ == (if old(router)@.contains_key(alias@) {
                    retained(old(router)@[alias@].stdout)
                } else {
                    Seq::empty()
                })
                &&& err@ == (if old(router)@.contains_key(alias@) {
                    retained(old(router)@[alias@].stderr)
                } else {
                    Seq::empty()
                })
            },
            IoRouterRequest::StartForwarding(alias) => {
                &&& reply matches RouterReply::Forwarding(done)
                &&& match done {
                    Ok(_) => attach_refusal(old(router)@, alias@) is None && final(router)@ == old(
                        router,
                    )@.insert(alias@, tee_attached(old(router)@[alias@], true)),
                    Err(e) => attach_refusal(old(router)@, alias@) == Some(e@) && final(router)@
                        == old(router)@,
                }
            },
            IoRouterRequest::StopForwarding(alias) => {
                &&& reply is Done
                &&& !forwarding(final(router)@, alias@)
                &&& final(router)@ == detached(old(router)@, alias@)
            },
            IoRouterRequest::Input(alias, bytes) => {
                &&& final(router)@ == old(router)@
                &&& reply == RouterReply::Input(
                    if old(router)@.contains_key(alias@) {
                        Some(bytes)
                    } else {
                        None
                    },
                )
            },
        },
{
    match request {
        IoRouterRequest::Create(alias, stdout_sink, stderr_sink) => {
            router.create(alias.as_str(), stdout_sink, stderr_sink);
            RouterReply::Done
        },
        IoRouterRequest::Remove(alias) => {
            router.remove(alias.as_str());
            RouterReply::Done
        },
        IoRouterRequest::ReadBuff(alias) => {
            let (out, err) = router.read_buff(alias.as_str());
            RouterReply::Buffers(out, err)
        },
        IoRouterRequest::StartForwarding(alias) => {
            RouterReply::Forwarding(router.start_forwarding(alias.as_str()))
        },
        IoRouterRequest::StopForwarding(alias) => {
            router.stop_forwarding(alias.as_str());
            RouterReply::Done
        },
        IoRouterRequest::Input(alias, bytes) => {
            if router.is_in_charge(alias.as_str()) {
                RouterReply::Input(Some(bytes))
            } else {
                RouterReply::Input(None)
            }
        },
    }
}

} // verus!
