//! The arguments of the build commands that depend on the machine, the width that progress
//! lines are cut to, and how the relay of a Zig build's output reacts to each read.
use vstd::prelude::*;
use crate::text::push_char;

verus! {

/// The decimal digit character for `d`.
pub open spec fn digit_char(d: nat) -> char {
    ((48 + d) as u8) as char
}

/// The decimal representation of `n`, without leading zeros (`usize::to_string`).
pub open spec fn decimal_spec(n: nat) -> Seq<char>
    decreases n,
{
    if n < 10 {
        seq![digit_char(n)]
    } else {
        decimal_spec(n / 10).push(digit_char(n % 10))
    }
}

/// The decimal representation of `n`.
pub fn decimal(n: u64) -> (r: String)
    ensures
        r@ == decimal_spec(n as nat),
    decreases n,
{
    let d = (n % 10) as u8;
    let c = (48u8 + d) as char;
    if n < 10 {
        let mut r = String::new();
        push_char(&mut r, c);
        assert(r@ =~= seq![digit_char(n as nat)]);
        r
    } else {
        let mut r = decimal(n / 10);
        push_char(&mut r, c);
        r
    }
}

/// The arguments of `cmake` that build with `cores` parallel jobs.
pub fn cmake_build_args(cores: usize) -> (r: Vec<String>)
    ensures
        r.deep_view() == seq!["--build"@, "."@, "-j"@, decimal_spec(cores as nat)],
{
    let mut r: Vec<String> = Vec::new();
    r.push(String::from_str("--build"));
    r.push(String::from_str("."));
    r.push(String::from_str("-j"));
    r.push(decimal(cores as u64));
    assert(r.deep_view() =~= seq!["--build"@, "."@, "-j"@, decimal_spec(cores as nat)]);
    r
}

/// The arguments of `make` that build with `cores` parallel jobs.
pub fn make_job_args(cores: usize) -> (r: Vec<String>)
    ensures
        r.deep_view() == seq!["-j"@, decimal_spec(cores as nat)],
{
    let mut r: Vec<String> = Vec::new();
    r.push(String::from_str("-j"));
    r.push(decimal(cores as u64));
    assert(r.deep_view() =~= seq!["-j"@, decimal_spec(cores as nat)]);
    r
}

/// The width that progress lines are cut to: ten columns less than the terminal's, or 80
/// when there is no terminal. A terminal narrower than ten columns is not accepted.
pub fn progress_width(terminal_width: Option<u16>) -> (r: usize)
    requires
        terminal_width matches Some(w) ==> w >= 10,
    ensures
        r == (match terminal_width {
            Some(w) => w - 10,
            None => 80,
        }),
{
    match terminal_width {
        Some(w) => w as usize - 10,
        None => 80,
    }
}

/// What one read from a build tool's output gave.
pub enum ReadOutcome {
    /// `n` bytes were read; zero means the output ended.
    Data(usize),
    /// The read was interrupted by a signal.
    Interrupted,
    /// The read failed otherwise.
    Failed,
}

/// What the relay does next.
#[derive(Clone, Copy, Debug, PartialEq, Eq, Structural)]
pub enum RelayAction {
    /// Pass the `n` bytes on and read again.
    Forward(usize),
    /// Read again.
    Retry,
    /// Stop relaying.
    Stop,
}

/// The relay's reaction to a read: data is passed on, the end of the output or a failure
/// stops it, and an interrupted read is tried again.
pub fn relay_action(outcome: &ReadOutcome) -> (r: RelayAction)
    ensures
        r == (match *outcome {
            ReadOutcome::Data(n) => if n == 0 {
                RelayAction::Stop
            } else {
                RelayAction::Forward(n)
            },
            ReadOutcome::Interrupted => RelayAction::Retry,
            ReadOutcome::Failed => RelayAction::Stop,
        }),
{
    match outcome {
        ReadOutcome::Data(n) => if *n == 0 {
            RelayAction::Stop
        } else {
            RelayAction::Forward(*n)
        },
        ReadOutcome::Interrupted => RelayAction::Retry,
        ReadOutcome::Failed => RelayAction::Stop,
    }
}

/// The number that a string of decimal digits stands for.
pub open spec fn digits_value(s: Seq<char>) -> int
    decreases s.len(),
{
    if s.len() == 0 {
        0
    } else {
        digits_value(s.drop_last()) * 10 + (s.last() as int - 48)
    }
}

/// The decimal form of `n` is made of the digits `0` to `9`, starts with `0` only for zero
/// itself, and reads back as `n`.
pub proof fn lemma_decimal_reads_back(n: nat)
    ensures
        decimal_spec(n).len() > 0,
        forall|k: int| 0 <= k < decimal_spec(n).len() ==> '0' <= #[trigger] decimal_spec(n)[k] <= '9',
        decimal_spec(n)[0] == '0' ==> n == 0,
        digits_value(decimal_spec(n)) == n,
    decreases n,
{
    if n >= 10 {
        lemma_decimal_reads_back(n / 10);
        let d = decimal_spec(n / 10);
        assert(decimal_spec(n) == d.push(digit_char(n % 10)));
        assert(decimal_spec(n).drop_last() =~= d);
        assert(decimal_spec(n)[0] == d[0]);
        assert((n / 10) * 10 + n % 10 == n);
        assert(digit_char(n % 10) as int == 48 + n % 10);
        assert(digits_value(decimal_spec(n)) == digits_value(d) * 10 + (digit_char(n % 10) as int - 48));
        assert(digits_value(d) == n / 10);
        assert(digits_value(decimal_spec(n)) == n);
    } else {
        assert(digit_char(n) as int == 48 + n);
        assert(decimal_spec(n).drop_last() =~= Seq::<char>::empty());
        assert(digits_value(Seq::<char>::empty()) == 0);
        assert(digits_value(decimal_spec(n)) == n);
    }
}

} // verus!
