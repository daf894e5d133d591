//! Service definitions and the registry that holds them.

use vstd::prelude::*;
use vstd::string::StringExecFns;
use crate::orchestrate::{ErrorView, OrchestratorError};
use crate::text::{split_whitespace, split_words, texts_view};
use crate::text_map::{TextMap, distinct_aliases, entries_map, has_alias, lemma_entry_in_map};

verus! {

/// A request to the orchestrator: what to do, and to which alias.
#[derive(Debug)]
pub enum ServiceAction {
    Start(String),
    Restart(String),
    Stop(String),
    Status(String),
    Attach(String),
    Detach(String),
    Input(String, Vec<u8>),
    Reload,
    List,
    Help,
    StopServer,
}

/// A request as plain mathematical values.
pub enum ActionView {
    Start(Seq<char>),
    Restart(Seq<char>),
    Stop(Seq<char>),
    Status(Seq<char>),
    Attach(Seq<char>),
    Detach(Seq<char>),
    Input(Seq<char>, Seq<u8>),
    Reload,
    List,
    Help,
    StopServer,
}

impl View for ServiceAction {
    type V = ActionView;

    open spec fn view(&self) -> ActionView {
        match self {
            ServiceAction::Start(alias) => ActionView::Start(alias@),
            ServiceAction::Restart(alias) => ActionView::Restart(alias@),
            ServiceAction::Stop(alias) => ActionView::Stop(alias@),
            ServiceAction::Status(alias) => ActionView::Status(alias@),
            ServiceAction::Attach(alias) => ActionView::Attach(alias@),
            ServiceAction::Detach(alias) => ActionView::Detach(alias@),
            ServiceAction::Input(alias, bytes) => ActionView::Input(alias@, bytes@),
            ServiceAction::Reload => ActionView::Reload,
            ServiceAction::List => ActionView::List,
            ServiceAction::Help => ActionView::Help,
            ServiceAction::StopServer => ActionView::StopServer,
        }
    }
}

/// What to do when a job exits without having been asked to stop.
#[derive(Clone, Copy, Debug, PartialEq, Eq, Structural)]
pub enum RestartOptions {
    /// Leave it finished.
    Never,
    /// Start it again, up to the given number of attempts.
    Always(u8),
    /// Start it again after an unexpected exit code, up to the given number
    /// of attempts.
    OnError(u8),
}

impl Default for RestartOptions {
    fn default() -> (options: RestartOptions)
        ensures
            options == RestartOptions::Never,
    {
        RestartOptions::Never
    }
}

/// The description of a program to supervise.
#[derive(Debug)]
pub struct Service {
    /// Path of the file the definition was loaded from.
    pub file: String,
    /// Unique name of the service.
    pub alias: String,
    /// Command line: the program, then its arguments, separated by blanks.
    pub cmd: String,
    /// Number of processes asked for.
    pub numprocs: u16,
    /// Restart policy.
    pub restart: RestartOptions,
    /// Seconds after the spawn before the job counts as healthy.
    pub start_time: u64,
    /// Number of the signal that asks the job to stop.
    pub stop_signal: i32,
    /// Seconds granted after the stop signal before the job is killed.
    pub stop_wait: u64,
    /// Exit codes that count as expected.
    pub exit_codes: Vec<i32>,
    /// Path of the file that receives standard output, or `null`.
    pub stdout: String,
    /// Path of the file that feeds standard input, or `null`.
    pub stdin: String,
    /// Path of the file that receives standard error, or `null`.
    pub stderr: String,
    /// Environment variables given to the child: name and value.
    pub env: Vec<(String, String)>,
    /// Directory the child runs in.
    pub working_dir: String,
    /// File mode creation mask for the child.
    pub umask: u16,
}

/// A service definition as plain mathematical values.
pub struct ServiceView {
    pub file: Seq<char>,
    pub alias: Seq<char>,
    pub cmd: Seq<char>,
    pub numprocs: u16,
    pub restart: RestartOptions,
    pub start_time: u64,
    pub stop_signal: i32,
    pub stop_wait: u64,
    pub exit_codes: Seq<i32>,
    pub stdout: Seq<char>,
    pub stdin: Seq<char>,
    pub stderr: Seq<char>,
    pub env: Seq<(Seq<char>, Seq<char>)>,
    pub working_dir: Seq<char>,
    pub umask: u16,
}

/// The text of each name and value of an environment list.
pub open spec fn env_view(env: Seq<(String, String)>) -> Seq<(Seq<char>, Seq<char>)> {
    Seq::new(env.len(), |i: int| (env[i].0@, env[i].1@))
}

impl View for Service {
    type V = ServiceView;

    open spec fn view(&self) -> ServiceView {
        ServiceView {
            file: self.file@,
            alias: self.alias@,
            cmd: self.cmd@,
            numprocs: self.numprocs,
            restart: self.restart,
            start_time: self.start_time,
            stop_signal: self.stop_signal,
            stop_wait: self.stop_wait,
            exit_codes: self.exit_codes@,
            stdout: self.stdout@,
            stdin: self.stdin@,
            stderr: self.stderr@,
            env: env_view(self.env@),
            working_dir: self.working_dir@,
            umask: self.umask,
        }
    }
}

/// Whether two lists of exit codes are equal.
fn same_codes(a: &Vec<i32>, b: &Vec<i32>) -> (same: bool)
    ensures
        same == (a@ == b@),
{
    if a.len() != b.len() {
        return false;
    }
    let mut i: usize = 0;
    while i < a.len()
        invariant
            i <= a.len(),
            a.len() == b.len(),
            forall|j: int| 0 <= j < i ==> a@[j] == b@[j],
        decreases a.len() - i,
    {
        if a[i] != b[i] {
            return false;
        }
        i += 1;
    }
    assert(a@ =~= b@);
    true
}

/// Whether two environment lists hold the same names and values in the same
/// order.
fn same_env(a: &Vec<(String, String)>, b: &Vec<(String, String)>) -> (same: bool)
    ensures
        same == (env_view(a@) == env_view(b@)),
{
    if a.len() != b.len() {
        assert(env_view(a@).len() != env_view(b@).len());
        return false;
    }
    let mut i: usize = 0;
    while i < a.len()
        invariant
            i <= a.len(),
            a.len() == b.len(),
            forall|j: int| 0 <= j < i ==> env_view(a@)[j] == env_view(b@)[j],
        decreases a.len() - i,
    {
        if !(a[i].0 == b[i].0 && a[i].1 == b[i].1) {
            assert(env_view(a@)[i as int] != env_view(b@)[i as int]);
            return false;
        }
        i += 1;
    }
    assert(env_view(a@) =~= env_view(b@));
    true
}

/// A copy of a list of exit codes.
fn copy_codes(codes: &Vec<i32>) -> (copy: Vec<i32>)
    ensures
        copy@ == codes@,
{
    let mut copy: Vec<i32> = Vec::new();
    let mut i: usize = 0;
    while i < codes.len()
        invariant
            i <= codes.len(),
            copy@ == codes@.take(i as int),
        decreases codes.len() - i,
    {
        copy.push(codes[i]);
        assert(codes@.take(i + 1) =~= codes@.take(i as int).push(codes@[i as int]));
        i += 1;
    }
    assert(codes@.take(codes.len() as int) =~= codes@);
    copy
}

/// A copy of an environment list.
fn copy_env(env: &Vec<(String, String)>) -> (copy: Vec<(String, String)>)
    ensures
        copy@ == env@,
{
    let mut copy: Vec<(String, String)> = Vec::new();
    let mut i: usize = 0;
    while i < env.len()
        invariant
            i <= env.len(),
            copy@ == env@.take(i as int),
        decreases env.len() - i,
    {
        copy.push((env[i].0.clone(), env[i].1.clone()));
        assert(env@.take(i + 1) =~= env@.take(i as int).push(env@[i as int]));
        i += 1;
    }
    assert(env@.take(env.len() as int) =~= env@);
    copy
}

/// The program and the arguments that a command line names.
#[derive(Debug)]
pub struct Launch {
    pub program: String,
    pub args: Vec<String>,
}

impl Service {
    /// Splits the command line at ASCII white space: the first word is the
    /// program, the others are its arguments. Fails with a `JobIoError` if
    /// the command line holds no word.
    pub fn start(&self) -> (launch: Result<Launch, OrchestratorError>)
        ensures
            match launch {
                Ok(l) => {
                    &&& split_words(self.cmd@, true).len() > 0
                    &&& l.program@ == split_words(self.cmd@, true)[0]
                    &&& texts_view(l.args@) == split_words(self.cmd@, true).skip(1)
                },
                Err(e) => {
                    &&& split_words(self.cmd@, true).len() == 0
                    &&& e@ == ErrorView::JobIoError("No command provided!"@)
                },
            },
    {
        let mut words = split_whitespace(self.cmd.as_str(), true);
        if words.len() == 0 {
            return Err(OrchestratorError::JobIoError(String::from_str("No command provided!")));
        }
        let ghost all = words@;
        let program = words.remove(0);
        assert(texts_view(words@) =~= texts_view(all).skip(1));
        assert(program@ == texts_view(all)[0]);
        Ok(Launch { program, args: words })
    }

    /// Whether `exit_code` is one of the expected exit codes.
    pub fn validate_exit_code(&self, exit_code: i32) -> (expected: bool)
        ensures
            expected == self.exit_codes@.contains(exit_code),
    {
        let mut i: usize = 0;
        while i < self.exit_codes.len()
            invariant
                i <= self.exit_codes.len(),
                forall|j: int| 0 <= j < i ==> self.exit_codes@[j] != exit_code,
            decreases self.exit_codes.len() - i,
        {
            if self.exit_codes[i] == exit_code {
                return true;
            }
            i += 1;
        }
        false
    }

    /// Whether the two definitions agree in every field.
    pub fn same_as(&self, other: &Service) -> (same: bool)
        ensures
            same == (self@ == other@),
    {
        self.file == other.file && self.alias == other.alias && self.cmd == other.cmd
            && self.numprocs == other.numprocs && self.restart == other.restart
            && self.start_time == other.start_time && self.stop_signal == other.stop_signal
            && self.stop_wait == other.stop_wait && same_codes(&self.exit_codes, &other.exit_codes)
            && self.stdout == other.stdout && self.stdin == other.stdin && self.stderr
            == other.stderr && same_env(&self.env, &other.env) && self.working_dir
            == other.working_dir && self.umask == other.umask
    }

    /// A copy of the definition.
    pub fn duplicate(&self) -> (copy: Service)
        ensures
            copy@ == self@,
    {
        let copy = Service {
            file: self.file.clone(),
            alias: self.alias.clone(),
            cmd: self.cmd.clone(),
            numprocs: self.numprocs,
            restart: self.restart,
            start_time: self.start_time,
            stop_signal: self.stop_signal,
            stop_wait: self.stop_wait,
            exit_codes: copy_codes(&self.exit_codes),
            stdout: self.stdout.clone(),
            stdin: self.stdin.clone(),
            stderr: self.stderr.clone(),
            env: copy_env(&self.env),
            working_dir: self.working_dir.clone(),
            umask: self.umask,
        };
        copy
    }
}

/// Why a set of definitions cannot become a registry.
#[derive(Debug)]
pub enum LoadError {
    /// Two definitions carry the same alias. The files are given in the
    /// order in which the definitions were read.
    AliasRedefined { alias: String, first: String, second: String },
}

/// The definition at position `j` repeats the alias of the one at `i`, and no
/// definition before `j` repeats an earlier alias.
pub open spec fn first_redefinition(loaded: Seq<Service>, i: int, j: int) -> bool {
    &&& 0 <= i < j < loaded.len()
    &&& loaded[i].alias@ == loaded[j].alias@
    &&& forall|a: int, b: int| 0 <= a < b < j ==> loaded[a].alias@ != loaded[b].alias@
}

/// No two definitions carry the same alias.
pub open spec fn no_redefinition(loaded: Seq<Service>) -> bool {
    forall|a: int, b: int| 0 <= a < b < loaded.len() ==> loaded[a].alias@ != loaded[b].alias@
}

/// The definitions in order, each with its own alias as key.
pub open spec fn definitions(loaded: Seq<Service>) -> Seq<(String, Service)> {
    Seq::new(loaded.len(), |i: int| (loaded[i].alias, loaded[i]))
}

/// Files each definition under its alias. Fails at the first definition that
/// repeats an alias, naming the alias and both files.
pub fn load_services(loaded: Vec<Service>) -> (registry: Result<TextMap<Service>, LoadError>)
    ensures
        match registry {
            Ok(table) => no_redefinition(loaded@) && table.entries() == definitions(loaded@)
                && table.distinct(),
            Err(LoadError::AliasRedefined { alias, first, second }) => exists|i: int, j: int|
                #![trigger loaded@[i], loaded@[j]]
                first_redefinition(loaded@, i, j) && alias@ == loaded@[j].alias@ && first@
                    == loaded@[i].file@ && second@ == loaded@[j].file@,
        },
{
    let mut table: TextMap<Service> = TextMap::new();
    for service in it: loaded.into_iter()
        invariant
            it.seq() == loaded@,
            table.distinct(),
            table.entries() == definitions(loaded@.take(it.index() as int)),
            no_redefinition(loaded@.take(it.index() as int)),
    {
        let ghost k = it.index() as int;
        let ghost t = loaded@.take(k);
        assert(service == loaded@[k]);
        match table.position(service.alias.as_str()) {
            Some(i) => {
                let first = table.value_at(i).file.clone();
                proof {
                    assert(t[i as int] == loaded@[i as int]);
                    assert forall|a: int, b: int| 0 <= a < b < k implies loaded@[a].alias@
                        != loaded@[b].alias@ by {
                        assert(t[a] == loaded@[a]);
                        assert(t[b] == loaded@[b]);
                    }
                    assert(first_redefinition(loaded@, i as int, k));
                }
                return Err(
                    LoadError::AliasRedefined {
                        alias: service.alias.clone(),
                        first,
                        second: service.file.clone(),
                    },
                );
            },
            None => {
                let ghost before = table.entries();
                let alias = service.alias.clone();
                table.insert(alias, service);
                proof {
                    let t2 = loaded@.take(k + 1);
                    assert(t2 =~= t.push(loaded@[k]));
                    assert forall|a: int, b: int| 0 <= a < b < t2.len() implies t2[a].alias@
                        != t2[b].alias@ by {
                        if b == k {
                            assert(before[a].0@ == t[a].alias@);
                            lemma_entry_in_map(before, a);
                        } else {
                            assert(t[a].alias@ != t[b].alias@);
                        }
                    }
                    assert(table.entries() =~= definitions(t2));
                    assert(distinct_aliases(table.entries())) by {
                        assert forall|a: int, b: int|
                            0 <= a < b < table.entries().len() implies table.entries()[a].0@
                            != table.entries()[b].0@ by {
                            assert(t2[a].alias@ != t2[b].alias@);
                        }
                    }
                }
            },
        }
    }
    proof {
        assert(loaded@.take(loaded@.len() as int) =~= loaded@);
    }
    Ok(table)
}

/// The restart requests of a reload: one for each entry of `new`, in order,
/// whose alias `old` holds with a different definition.
pub open spec fn restarts(new: Seq<(String, Service)>, old: Map<Seq<char>, Service>) -> Seq<
    ActionView,
>
    decreases new.len(),
{
    if new.len() == 0 {
        Seq::empty()
    } else {
        let rest = restarts(new.drop_last(), old);
        let e = new.last();
        if old.contains_key(e.0@) && old[e.0@]@ != e.1@ {
            rest.push(ActionView::Restart(e.0@))
        } else {
            rest
        }
    }
}

/// The entries of `old`, in order, whose alias `new` does not hold.
pub open spec fn leftovers(old: Seq<(String, Service)>, new: Map<Seq<char>, Service>) -> Seq<
    (String, Service),
>
    decreases old.len(),
{
    if old.len() == 0 {
        Seq::empty()
    } else {
        let rest = leftovers(old.drop_last(), new);
        if new.contains_key(old.last().0@) {
            rest
        } else {
            rest.push(old.last())
        }
    }
}

/// The stop requests of a reload: one for each entry of `old`, in order,
/// whose alias `new` does not hold.
pub open spec fn stops(old: Seq<(String, Service)>, new: Map<Seq<char>, Service>) -> Seq<
    ActionView,
> {
    Seq::new(leftovers(old, new).len(), |i: int| ActionView::Stop(leftovers(old, new)[i].0@))
}

/// The requests that a reload raises, restarts first.
pub open spec fn reload_actions(
    old: Seq<(String, Service)>,
    new: Seq<(String, Service)>,
) -> Seq<ActionView> {
    restarts(new, entries_map(old)) + stops(old, entries_map(new))
}

/// The view of each request of a list.
pub open spec fn actions_view(actions: Seq<ServiceAction>) -> Seq<ActionView> {
    Seq::new(actions.len(), |i: int| actions[i]@)
}

/// Each leftover is an entry of `old` whose alias `new` does not hold.
pub proof fn lemma_leftovers_from_old(
    old: Seq<(String, Service)>,
    new: Map<Seq<char>, Service>,
    k: int,
)
    requires
        0 <= k < leftovers(old, new).len(),
    ensures
        exists|j: int| 0 <= j < old.len() && #[trigger] old[j] == leftovers(old, new)[k],
        !new.contains_key(leftovers(old, new)[k].0@),
    decreases old.len(),
{
    let rest = leftovers(old.drop_last(), new);
    if k < rest.len() {
        lemma_leftovers_from_old(old.drop_last(), new, k);
        let j = choose|j: int| 0 <= j < old.drop_last().len() && #[trigger] old.drop_last()[j] == rest[k];
        assert(old[j] == leftovers(old, new)[k]);
    } else {
        assert(old[old.len() - 1] == leftovers(old, new)[k]);
    }
}

/// The registry: the known service definitions, each under its alias, and
/// the directories they are loaded from.
pub struct Services {
    paths: Vec<String>,
    services: TextMap<Service>,
}

impl Services {
    /// The definitions in registry order, each with its alias.
    pub closed spec fn entries(&self) -> Seq<(String, Service)> {
        self.services.entries()
    }

    /// The registry as a map from alias to definition.
    pub open spec fn map(&self) -> Map<Seq<char>, Service> {
        entries_map(self.entries())
    }

    /// The directories that definitions are loaded from.
    pub closed spec fn include_paths(&self) -> Seq<String> {
        self.paths@
    }

    /// A registry of the definitions `loaded` from the directories `paths`.
    /// Fails if two definitions carry the same alias.
    pub fn new(paths: Vec<String>, loaded: Vec<Service>) -> (registry: Result<Services, LoadError>)
        ensures
            match registry {
                Ok(services) => no_redefinition(loaded@) && services.entries() == definitions(
                    loaded@,
                ) && services.include_paths() == paths@,
                Err(LoadError::AliasRedefined { alias, first, second }) => exists|i: int, j: int|
                    #![trigger loaded@[i], loaded@[j]]
                    first_redefinition(loaded@, i, j) && alias@ == loaded@[j].alias@ && first@
                        == loaded@[i].file@ && second@ == loaded@[j].file@,
            },
    {
        match load_services(loaded) {
            Ok(services) => Ok(Services { paths, services }),
            Err(e) => Err(e),
        }
    }

    /// The directories that definitions are loaded from.
    pub fn get_paths(&self) -> (paths: &Vec<String>)
        ensures
            paths@ == self.include_paths(),
    {
        &self.paths
    }

    /// Replaces the registry by the definitions `loaded` and returns what
    /// the change asks of the running jobs: a restart for each alias whose
    /// definition changed, a stop for each alias that disappeared. A
    /// definition that disappeared stays in the registry, behind the new
    /// ones, until its job has finished. A new alias raises no request.
    /// On a load error the registry is left as it was.
    pub fn update(&mut self, loaded: Vec<Service>) -> (actions: Result<
        Vec<ServiceAction>,
        LoadError,
    >)
        ensures
            final(self).include_paths() == old(self).include_paths(),
            match actions {
                Ok(up) => {
                    &&& no_redefinition(loaded@)
                    &&& actions_view(up@) == reload_actions(
                        old(self).entries(),
                        definitions(loaded@),
                    )
                    &&& final(self).entries() == definitions(loaded@) + leftovers(
                        old(self).entries(),
                        entries_map(definitions(loaded@)),
                    )
                },
                Err(LoadError::AliasRedefined { alias, first, second }) => {
                    &&& final(self).entries() == old(self).entries()
                    &&& exists|i: int, j: int|
                        #![trigger loaded@[i], loaded@[j]]
                        first_redefinition(loaded@, i, j) && alias@ == loaded@[j].alias@ && first@
                            == loaded@[i].file@ && second@ == loaded@[j].file@
                },
            },
    {
        let mut merged = match load_services(loaded) {
            Ok(table) => table,
            Err(e) => {
                return Err(e);
            },
        };
        let ghost new = merged.entries();
        let ghost old_entries = self.services.entries();
        let mut up: Vec<ServiceAction> = Vec::new();
        let mut i: usize = 0;
        while i < merged.len()
            invariant
                i <= merged.entries().len(),
                merged.entries() == new,
                self.services.entries() == old_entries,
                actions_view(up@) == restarts(new.take(i as int), entries_map(old_entries)),
            decreases merged.entries().len() - i,
        {
            let alias = merged.alias_at(i);
            let service = merged.value_at(i);
            let ghost before = actions_view(up@);
            proof {
                assert(new.take(i + 1).drop_last() =~= new.take(i as int));
                assert(new.take(i + 1).last() == new[i as int]);
            }
            match self.services.get(alias.as_str()) {
                Some(known) => {
                    if !known.same_as(service) {
                        up.push(ServiceAction::Restart(alias.clone()));
                        assert(actions_view(up@) =~= before.push(ActionView::Restart(alias@)));
                    }
                },
                None => {},
            }
            i += 1;
        }
        proof {
            assert(new.take(new.len() as int) =~= new);
        }
        let ghost restart_part = actions_view(up@);
        let mut previous: TextMap<Service> = TextMap::new();
        std::mem::swap(&mut self.services, &mut previous);
        let old_list = previous.into_entries();
        for entry in it: old_list.into_iter()
            invariant
                it.seq() == old_entries,
                distinct_aliases(old_entries),
                distinct_aliases(new),
                merged.entries() == new + leftovers(
                    old_entries.take(it.index() as int),
                    entries_map(new),
                ),
                actions_view(up@) == restart_part + stops(
                    old_entries.take(it.index() as int),
                    entries_map(new),
                ),
        {
            let ghost j = it.index() as int;
            let ghost left = leftovers(old_entries.take(j), entries_map(new));
            assert(entry == old_entries[j]);
            proof {
                assert(old_entries.take(j + 1).drop_last() =~= old_entries.take(j));
                assert(old_entries.take(j + 1).last() == old_entries[j]);
                // The alias is held by `merged` exactly if it is held by `new`.
                if has_alias(merged.entries(), entry.0@) && !has_alias(new, entry.0@) {
                    let p = choose|p: int|
                        0 <= p < merged.entries().len() && #[trigger] merged.entries()[p].0@
                            == entry.0@;
                    assert(p >= new.len()) by {
                        if p < new.len() {
                            assert(new[p].0@ == entry.0@);
                        }
                    }
                    lemma_leftovers_from_old(old_entries.take(j), entries_map(new), p - new.len());
                    let q = choose|q: int|
                        0 <= q < old_entries.take(j).len() && #[trigger] old_entries.take(j)[q]
                            == left[p - new.len()];
                    assert(old_entries[q].0@ == old_entries[j].0@);
                    assert(false);
                }
                if has_alias(new, entry.0@) {
                    let p = choose|p: int| 0 <= p < new.len() && #[trigger] new[p].0@ == entry.0@;
                    assert(merged.entries()[p].0@ == entry.0@);
                }
            }
            let ghost before = actions_view(up@);
            if !merged.contains(entry.0.as_str()) {
                up.push(ServiceAction::Stop(entry.0.clone()));
                merged.insert(entry.0, entry.1);
                proof {
                    let left2 = leftovers(old_entries.take(j + 1), entries_map(new));
                    assert(left2 == left.push(entry));
                    assert(merged.entries() =~= new + left2);
                    assert(actions_view(up@) =~= before.push(ActionView::Stop(entry.0@)));
                    assert(stops(old_entries.take(j + 1), entries_map(new)) =~= stops(
                        old_entries.take(j),
                        entries_map(new),
                    ).push(ActionView::Stop(entry.0@)));
                    assert(actions_view(up@) =~= restart_part + stops(
                        old_entries.take(j + 1),
                        entries_map(new),
                    ));
                }
            } else {
                proof {
                    assert(actions_view(up@) =~= restart_part + stops(
                        old_entries.take(j + 1),
                        entries_map(new),
                    ));
                }
            }
        }
        proof {
            assert(old_entries.take(old_entries.len() as int) =~= old_entries);
        }
        self.services = merged;
        Ok(up)
    }

    /// The aliases of the registry, in registry order.
    pub fn aliases(&self) -> (aliases: Vec<String>)
        ensures
            aliases@.len() == self.entries().len(),
            forall|i: int|
                0 <= i < aliases@.len() ==> (#[trigger] aliases@[i])@ == self.entries()[i].0@,
    {
        self.services.keys()
    }

    /// The definition filed under `alias`, if there is one.
    pub fn get(&self, alias: &str) -> (service: Option<&Service>)
        ensures
            match service {
                Some(s) => self.map().contains_key(alias@) && *s == self.map()[alias@],
                None => !self.map().contains_key(alias@),
            },
    {
        self.services.get(alias)
    }

    /// Takes the definition filed under `alias` out of the registry.
    pub fn remove(&mut self, alias: &str) -> (service: Option<Service>)
        ensures
            final(self).map() == old(self).map().remove(alias@),
            final(self).include_paths() == old(self).include_paths(),
            match service {
                Some(s) => old(self).map().contains_key(alias@) && s == old(self).map()[alias@],
                None => !old(self).map().contains_key(alias@),
            },
    {
        self.services.remove(alias)
    }
}

} // verus!
