//! Flagging of processes with abnormal CPU consumption.
//!
//! Sampling the process table is the caller's part; the analyzer decides,
//! from a process's CPU-time delta over a one-second window and its name,
//! whether the process is flagged.  Known heavy processes are exempted by
//! name, compared without regard to ASCII case.

use vstd::prelude::*;

verus! {

/// The percentage of one CPU above which a process is flagged.
pub const CPU_ALERT_PERCENT: u64 = 20;

/// The code point of a character after ASCII lowercasing.
pub open spec fn lower_code(c: char) -> int {
    if 65 <= c as u32 <= 90 {
        (c as u32) as int + 32
    } else {
        (c as u32) as int
    }
}

/// Equality of two texts up to ASCII case.
pub open spec fn eq_ignore_ascii(a: Seq<char>, b: Seq<char>) -> bool {
    a.len() == b.len() && forall|i: int| 0 <= i < a.len() ==> lower_code(a[i]) == lower_code(b[i])
}

fn lower_code_exec(c: char) -> (r: u32)
    ensures
        r as int == lower_code(c),
{
    let x = c as u32;
    if 65 <= x && x <= 90 {
        x + 32
    } else {
        x
    }
}

/// Compares two names without regard to ASCII case.
pub fn eq_ignore_ascii_case_str(a: &str, b: &str) -> (r: bool)
    ensures
        r == eq_ignore_ascii(a@, b@),
{
    let n = a.unicode_len();
    if n != b.unicode_len() {
        return false;
    }
    let mut i: usize = 0;
    while i < n
        invariant
            n == a@.len(),
            n == b@.len(),
            0 <= i <= n,
            forall|j: int| 0 <= j < i ==> lower_code(a@[j]) == lower_code(b@[j]),
        decreases n - i,
    {
        if lower_code_exec(a.get_char(i)) != lower_code_exec(b.get_char(i)) {
            return false;
        }
        i += 1;
    }
    true
}

/// A process runs hot when its CPU time over the one-second window is at
/// least the alert share of one CPU: ticks / ticks-per-second at or above
/// the alert percentage.
pub open spec fn high_cpu(delta_ticks: u64, clock_ticks_per_sec: u64) -> bool {
    clock_ticks_per_sec > 0 && 100 * delta_ticks >= CPU_ALERT_PERCENT * clock_ticks_per_sec
}

/// Decides whether a CPU-time delta over a one-second window amounts to
/// abnormal consumption.
pub fn high_cpu_usage(delta_ticks: u64, clock_ticks_per_sec: u64) -> (r: bool)
    ensures
        r == high_cpu(delta_ticks, clock_ticks_per_sec),
{
    proof {
        assert(CPU_ALERT_PERCENT == 20);
    }
    clock_ticks_per_sec > 0 && 100 as u128 * (delta_ticks as u128) >= 20 as u128 * (
    clock_ticks_per_sec as u128)
}

/// Decides which sampled processes consume abnormally.
pub struct ProcessBehaviorsAnalyzer {
    exceptions: Vec<String>,
}

impl ProcessBehaviorsAnalyzer {
    /// The names exempt from flagging.
    pub closed spec fn exceptions_model(&self) -> Seq<Seq<char>> {
        self.exceptions@.map_values(|s: String| s@)
    }

    /// An analyzer with the built-in exception list.
    pub fn new() -> (r: ProcessBehaviorsAnalyzer)
        ensures
            r.exceptions_model() == seq!["electron"@],
    {
        let mut exceptions: Vec<String> = Vec::new();
        exceptions.push(String::from_str("electron"));
        let r = ProcessBehaviorsAnalyzer { exceptions };
        proof {
            assert(r.exceptions_model() =~= seq!["electron"@]);
        }
        r
    }

    /// Whether a process name is exempt, compared without regard to ASCII
    /// case.
    pub fn is_exception(&self, name: &str) -> (r: bool)
        ensures
            r == exists|i: int|
                0 <= i < self.exceptions_model().len() && eq_ignore_ascii(
                    #[trigger] self.exceptions_model()[i],
                    name@,
                ),
    {
        let mut i: usize = 0;
        while i < self.exceptions.len()
            invariant
                0 <= i <= self.exceptions@.len(),
                forall|j: int|
                    0 <= j < i ==> !eq_ignore_ascii(
                        #[trigger] self.exceptions_model()[j],
                        name@,
                    ),
            decreases self.exceptions@.len() - i,
        {
            if eq_ignore_ascii_case_str(self.exceptions[i].as_str(), name) {
                proof {
                    assert(eq_ignore_ascii(self.exceptions_model()[i as int], name@));
                }
                return true;
            }
            i += 1;
        }
        false
    }

    /// The analyzer's verdict for one sampled process: flagged exactly
    /// when it runs hot and its name is not exempt.
    pub fn should_flag(&self, name: &str, delta_ticks: u64, clock_ticks_per_sec: u64) -> (r: bool)
        ensures
            r == (high_cpu(delta_ticks, clock_ticks_per_sec) && !exists|i: int|
                0 <= i < self.exceptions_model().len() && eq_ignore_ascii(
                    #[trigger] self.exceptions_model()[i],
                    name@,
                )),
    {
        if high_cpu_usage(delta_ticks, clock_ticks_per_sec) {
            !self.is_exception(name)
        } else {
            false
        }
    }
}

} // verus!
