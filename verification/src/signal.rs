//! Signal names and their numbers on the platform the library is built for.

use vstd::prelude::*;
use crate::text::{char_is_blank, chars_of, is_space};

verus! {

/// The signals that a service definition can name.
#[derive(Clone, Copy, Debug, PartialEq, Eq, Structural)]
pub enum Signal {
    Hup,
    Int,
    Quit,
    Ill,
    Trap,
    Abrt,
    Bus,
    Fpe,
    Kill,
    Usr1,
    Segv,
    Usr2,
    Pipe,
    Alrm,
    Term,
    Chld,
    Cont,
    Stop,
    Tstp,
    Ttin,
    Ttou,
}

impl Signal {
    /// The place of the signal in the table of numbers.
    pub open spec fn index(self) -> int {
        match self {
            Signal::Hup => 0,
            Signal::Int => 1,
            Signal::Quit => 2,
            Signal::Ill => 3,
            Signal::Trap => 4,
            Signal::Abrt => 5,
            Signal::Bus => 6,
            Signal::Fpe => 7,
            Signal::Kill => 8,
            Signal::Usr1 => 9,
            Signal::Segv => 10,
            Signal::Usr2 => 11,
            Signal::Pipe => 12,
            Signal::Alrm => 13,
            Signal::Term => 14,
            Signal::Chld => 15,
            Signal::Cont => 16,
            Signal::Stop => 17,
            Signal::Tstp => 18,
            Signal::Ttin => 19,
            Signal::Ttou => 20,
        }
    }

    /// The number of the signal where it is the same on every platform.
    pub open spec fn fixed_number(self) -> Option<i32> {
        match self {
            Signal::Hup => Some(1i32),
            Signal::Int => Some(2i32),
            Signal::Quit => Some(3i32),
            Signal::Ill => Some(4i32),
            Signal::Fpe => Some(8i32),
            Signal::Kill => Some(9i32),
            Signal::Segv => Some(11i32),
            Signal::Alrm => Some(14i32),
            Signal::Term => Some(15i32),
            _ => None,
        }
    }

    /// The number of the signal on this platform. Where the number is the
    /// same on every platform, it is that number.
    pub fn number(self) -> (n: i32)
        ensures
            self.fixed_number() matches Some(k) ==> n == k,
    {
        let table = signal_numbers();
        match self {
            Signal::Hup => table[0],
            Signal::Int => table[1],
            Signal::Quit => table[2],
            Signal::Ill => table[3],
            Signal::Trap => table[4],
            Signal::Abrt => table[5],
            Signal::Bus => table[6],
            Signal::Fpe => table[7],
            Signal::Kill => table[8],
            Signal::Usr1 => table[9],
            Signal::Segv => table[10],
            Signal::Usr2 => table[11],
            Signal::Pipe => table[12],
            Signal::Alrm => table[13],
            Signal::Term => table[14],
            Signal::Chld => table[15],
            Signal::Cont => table[16],
            Signal::Stop => table[17],
            Signal::Tstp => table[18],
            Signal::Ttin => table[19],
            Signal::Ttou => table[20],
        }
    }
}

/// The number of the signal that cannot be caught or ignored.
pub open spec fn kill_signal() -> i32 {
    9
}

/// The number of `SIGKILL`.
pub fn sigkill() -> (n: i32)
    ensures
        n == kill_signal(),
{
    Signal::Kill.number()
}

/// The number of white-space characters that the text begins with.
pub open spec fn leading_spaces(text: Seq<char>) -> nat
    decreases text.len(),
{
    if text.len() == 0 || !is_space(text[0]) {
        0
    } else {
        1 + leading_spaces(text.drop_first())
    }
}

/// The number of white-space characters that the text ends with.
pub open spec fn trailing_spaces(text: Seq<char>) -> nat
    decreases text.len(),
{
    if text.len() == 0 || !is_space(text.last()) {
        0
    } else {
        1 + trailing_spaces(text.drop_last())
    }
}

/// The text without the white space at its ends.
pub open spec fn trimmed(text: Seq<char>) -> Seq<char> {
    if leading_spaces(text) >= text.len() {
        Seq::empty()
    } else {
        text.subrange(leading_spaces(text) as int, text.len() - trailing_spaces(text))
    }
}

/// The upper-case form of an ASCII letter; any other character as it is.
pub open spec fn upper(c: char) -> char {
    if 'a' <= c <= 'z' {
        ((c as u8) - 32) as char
    } else {
        c
    }
}

/// The text with its ASCII letters in upper case.
pub open spec fn upper_text(text: Seq<char>) -> Seq<char> {
    Seq::new(text.len(), |i: int| upper(text[i]))
}

/// The text without the prefix `SIG`, if it has it.
pub open spec fn without_sig(text: Seq<char>) -> Seq<char> {
    if text.len() >= 3 && text[0] == 'S' && text[1] == 'I' && text[2] == 'G' {
        text.skip(3)
    } else {
        text
    }
}

/// The signal with the given short name in upper case.
pub open spec fn signal_named(name: Seq<char>) -> Option<Signal> {
    if name == seq!['H', 'U', 'P'] {
        Some(Signal::Hup)
    } else if name == seq!['I', 'N', 'T'] {
        Some(Signal::Int)
    } else if name == seq!['Q', 'U', 'I', 'T'] {
        Some(Signal::Quit)
    } else if name == seq!['I', 'L', 'L'] {
        Some(Signal::Ill)
    } else if name == seq!['T', 'R', 'A', 'P'] {
        Some(Signal::Trap)
    } else if name == seq!['A', 'B', 'R', 'T'] {
        Some(Signal::Abrt)
    } else if name == seq!['B', 'U', 'S'] {
        Some(Signal::Bus)
    } else if name == seq!['F', 'P', 'E'] {
        Some(Signal::Fpe)
    } else if name == seq!['K', 'I', 'L', 'L'] {
        Some(Signal::Kill)
    } else if name == seq!['U', 'S', 'R', '1'] {
        Some(Signal::Usr1)
    } else if name == seq!['S', 'E', 'G', 'V'] {
        Some(Signal::Segv)
    } else if name == seq!['U', 'S', 'R', '2'] {
        Some(Signal::Usr2)
    } else if name == seq!['P', 'I', 'P', 'E'] {
        Some(Signal::Pipe)
    } else if name == seq!['A', 'L', 'R', 'M'] {
        Some(Signal::Alrm)
    } else if name == seq!['T', 'E', 'R', 'M'] {
        Some(Signal::Term)
    } else if name == seq!['C', 'H', 'L', 'D'] {
        Some(Signal::Chld)
    } else if name == seq!['C', 'O', 'N', 'T'] {
        Some(Signal::Cont)
    } else if name == seq!['S', 'T', 'O', 'P'] {
        Some(Signal::Stop)
    } else if name == seq!['T', 'S', 'T', 'P'] {
        Some(Signal::Tstp)
    } else if name == seq!['T', 'T', 'I', 'N'] {
        Some(Signal::Ttin)
    } else if name == seq!['T', 'T', 'O', 'U'] {
        Some(Signal::Ttou)
    } else {
        None
    }
}

/// The signal that a definition names: white space at the ends and the
/// case of letters do not count, and the prefix `SIG` may be left out.
pub open spec fn parsed_signal(text: Seq<char>) -> Option<Signal> {
    signal_named(without_sig(upper_text(trimmed(text))))
}

/// A text whose first `k` characters are white space has `k` leading
/// spaces and those of the rest.
proof fn lemma_leading_step(text: Seq<char>, k: int)
    requires
        0 <= k < text.len(),
        forall|i: int| 0 <= i < k ==> is_space(#[trigger] text[i]),
    ensures
        leading_spaces(text) == k + leading_spaces(text.skip(k)),
    decreases k,
{
    if k > 0 {
        assert(is_space(text[0]));
        let rest = text.drop_first();
        assert forall|i: int| 0 <= i < k - 1 implies is_space(#[trigger] rest[i]) by {
            assert(rest[i] == text[i + 1]);
        }
        lemma_leading_step(rest, k - 1);
        assert(rest.skip(k - 1) =~= text.skip(k));
    } else {
        assert(text.skip(0) =~= text);
    }
}

/// A text of white space alone has as many leading spaces as characters.
proof fn lemma_all_leading(text: Seq<char>)
    requires
        forall|i: int| 0 <= i < text.len() ==> is_space(#[trigger] text[i]),
    ensures
        leading_spaces(text) == text.len(),
    decreases text.len(),
{
    if text.len() > 0 {
        let rest = text.drop_first();
        assert forall|i: int| 0 <= i < rest.len() implies is_space(#[trigger] rest[i]) by {
            assert(rest[i] == text[i + 1]);
        }
        lemma_all_leading(rest);
    }
}

/// A text whose characters from position `k` on are white space has that
/// many trailing spaces and those of what stands before.
proof fn lemma_trailing_step(text: Seq<char>, k: int)
    requires
        0 < k <= text.len(),
        forall|i: int| k <= i < text.len() ==> is_space(#[trigger] text[i]),
    ensures
        trailing_spaces(text) == (text.len() - k) + trailing_spaces(text.take(k)),
    decreases text.len() - k,
{
    if k < text.len() {
        assert(is_space(text.last()));
        let rest = text.drop_last();
        assert forall|i: int| k <= i < rest.len() implies is_space(#[trigger] rest[i]) by {
            assert(rest[i] == text[i]);
        }
        lemma_trailing_step(rest, k);
        assert(rest.take(k) =~= text.take(k));
    } else {
        assert(text.take(k) =~= text);
    }
}

/// The upper-case form of an ASCII letter; any other character as it is.
fn to_upper(c: char) -> (u: char)
    ensures
        u == upper(c),
{
    if 'a' <= c && c <= 'z' {
        ((c as u8) - 32) as char
    } else {
        c
    }
}

/// Whether the name is the three letters given.
fn is_three(name: &Vec<char>, a: char, b: char, c: char) -> (same: bool)
    ensures
        same == (name@ == seq![a, b, c]),
{
    if name.len() == 3 && name[0] == a && name[1] == b && name[2] == c {
        assert(name@ =~= seq![a, b, c]);
        true
    } else {
        if name.len() == 3 {
            assert(seq![a, b, c][0] == a && seq![a, b, c][1] == b && seq![a, b, c][2] == c);
        }
        false
    }
}

/// Whether the name is the four letters given.
fn is_four(name: &Vec<char>, a: char, b: char, c: char, d: char) -> (same: bool)
    ensures
        same == (name@ == seq![a, b, c, d]),
{
    if name.len() == 4 && name[0] == a && name[1] == b && name[2] == c && name[3] == d {
        assert(name@ =~= seq![a, b, c, d]);
        true
    } else {
        if name.len() == 4 {
            assert(seq![a, b, c, d][0] == a && seq![a, b, c, d][1] == b && seq![a, b, c, d][2]
                == c && seq![a, b, c, d][3] == d);
        }
        false
    }
}

/// The signal with the given short name in upper case.
fn lookup_signal(name: &Vec<char>) -> (signal: Option<Signal>)
    ensures
        signal == signal_named(name@),
{
    if is_three(name, 'H', 'U', 'P') {
        Some(Signal::Hup)
    } else if is_three(name, 'I', 'N', 'T') {
        Some(Signal::Int)
    } else if is_four(name, 'Q', 'U', 'I', 'T') {
        Some(Signal::Quit)
    } else if is_three(name, 'I', 'L', 'L') {
        Some(Signal::Ill)
    } else if is_four(name, 'T', 'R', 'A', 'P') {
        Some(Signal::Trap)
    } else if is_four(name, 'A', 'B', 'R', 'T') {
        Some(Signal::Abrt)
    } else if is_three(name, 'B', 'U', 'S') {
        Some(Signal::Bus)
    } else if is_three(name, 'F', 'P', 'E') {
        Some(Signal::Fpe)
    } else if is_four(name, 'K', 'I', 'L', 'L') {
        Some(Signal::Kill)
    } else if is_four(name, 'U', 'S', 'R', '1') {
        Some(Signal::Usr1)
    } else if is_four(name, 'S', 'E', 'G', 'V') {
        Some(Signal::Segv)
    } else if is_four(name, 'U', 'S', 'R', '2') {
        Some(Signal::Usr2)
    } else if is_four(name, 'P', 'I', 'P', 'E') {
        Some(Signal::Pipe)
    } else if is_four(name, 'A', 'L', 'R', 'M') {
        Some(Signal::Alrm)
    } else if is_four(name, 'T', 'E', 'R', 'M') {
        Some(Signal::Term)
    } else if is_four(name, 'C', 'H', 'L', 'D') {
        Some(Signal::Chld)
    } else if is_four(name, 'C', 'O', 'N', 'T') {
        Some(Signal::Cont)
    } else if is_four(name, 'S', 'T', 'O', 'P') {
        Some(Signal::Stop)
    } else if is_four(name, 'T', 'S', 'T', 'P') {
        Some(Signal::Tstp)
    } else if is_four(name, 'T', 'T', 'I', 'N') {
        Some(Signal::Ttin)
    } else if is_four(name, 'T', 'T', 'O', 'U') {
        Some(Signal::Ttou)
    } else {
        None
    }
}

/// Reads the name of a signal as a service definition writes it.
pub fn parse_signal(text: &str) -> (signal: Option<Signal>)
    ensures
        signal == parsed_signal(text@),
{
    let chars = chars_of(text);
    let mut lo: usize = 0;
    while lo < chars.len() && char_is_blank(chars[lo], false)
        invariant
            lo <= chars.len(),
            forall|i: int| 0 <= i < lo ==> is_space(#[trigger] chars@[i]),
        decreases chars.len() - lo,
    {
        lo += 1;
    }
    let mut hi: usize = chars.len();
    proof {
        if lo < chars.len() {
            lemma_leading_step(chars@, lo as int);
            assert(chars@.skip(lo as int)[0] == chars@[lo as int]);
        } else {
            lemma_all_leading(chars@);
        }
    }
    while hi > lo && char_is_blank(chars[hi - 1], false)
        invariant
            lo <= hi <= chars.len(),
            lo < chars.len() ==> !is_space(chars@[lo as int]),
            forall|i: int| hi <= i < chars.len() ==> is_space(#[trigger] chars@[i]),
        decreases hi,
    {
        hi -= 1;
    }
    proof {
        if lo < chars.len() {
            assert(hi > lo);
            lemma_trailing_step(chars@, hi as int);
            assert(chars@.take(hi as int).last() == chars@[hi - 1]);
        }
    }
    let ghost trim = trimmed(text@);
    assert(trim =~= chars@.subrange(lo as int, hi as int));
    let from: usize = if hi - lo >= 3 && to_upper(chars[lo]) == 'S' && to_upper(chars[lo + 1])
        == 'I' && to_upper(chars[lo + 2]) == 'G' {
        lo + 3
    } else {
        lo
    };
    let mut name: Vec<char> = Vec::new();
    let mut i: usize = from;
    while i < hi
        invariant
            lo <= from <= i <= hi <= chars.len(),
            name@ == upper_text(chars@.subrange(lo as int, hi as int)).subrange(
                from - lo,
                i - lo,
            ),
        decreases hi - i,
    {
        name.push(to_upper(chars[i]));
        assert(name@ =~= upper_text(chars@.subrange(lo as int, hi as int)).subrange(
            from - lo,
            i + 1 - lo,
        ));
        i += 1;
    }
    proof {
        let up = upper_text(trim);
        if from == lo + 3 {
            assert(up[0] == 'S' && up[1] == 'I' && up[2] == 'G');
            assert(name@ =~= up.skip(3));
        } else {
            assert(name@ =~= up);
        }
    }
    lookup_signal(&name)
}

/// Reads the name of a signal as a service definition writes it and gives
/// its number on this platform, or `None` for a name that is no signal's.
pub fn signal_from_str(signal_string: &str) -> (number: Option<i32>)
    ensures
        number is Some <==> parsed_signal(signal_string@) is Some,
        number matches Some(n) ==> (parsed_signal(signal_string@)->0.fixed_number() matches Some(k)
            ==> n == k),
{
    match parse_signal(signal_string) {
        Some(signal) => Some(signal.number()),
        None => None,
    }
}

/// The signal numbers that `libc` defines for the target platform, in the
/// order of `Signal`. Stated are only the nine numbers that `libc` gives the
/// same value on each of its targets: `SIGHUP`, `SIGINT`, `SIGQUIT`,
/// `SIGILL`, `SIGFPE`, `SIGKILL`, `SIGSEGV`, `SIGALRM` and `SIGTERM`. Of the
/// others, which differ between platforms, nothing is claimed.
#[verifier::external_body]
fn signal_numbers() -> (table: [i32; 21])
    ensures
        table@[0] == 1,
        table@[1] == 2,
        table@[2] == 3,
        table@[3] == 4,
        table@[7] == 8,
        table@[8] == 9,
        table@[10] == 11,
        table@[13] == 14,
        table@[14] == 15,
{
    [
        libc::SIGHUP, libc::SIGINT, libc::SIGQUIT, libc::SIGILL, libc::SIGTRAP, libc::SIGABRT,
        libc::SIGBUS, libc::SIGFPE, libc::SIGKILL, libc::SIGUSR1, libc::SIGSEGV, libc::SIGUSR2,
        libc::SIGPIPE, libc::SIGALRM, libc::SIGTERM, libc::SIGCHLD, libc::SIGCONT, libc::SIGSTOP,
        libc::SIGTSTP, libc::SIGTTIN, libc::SIGTTOU,
    ]
}

} // verus!
