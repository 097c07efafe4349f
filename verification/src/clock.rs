//! Trusted boundary to the system clock.

use vstd::prelude::*;

verus! {

/// Holds of every stamp the clock can hand out: non-empty and free of path
/// separators, so a stamp can safely end a file name inside the isolation
/// directory.
pub open spec fn valid_stamp(stamp: Seq<char>) -> bool {
    stamp.len() >= 1 && forall|i: int| 0 <= i < stamp.len() ==> stamp[i] != '/'
}

/// Relies on chrono's `Local::now` formatted with `%Y%m%d%H%M%S`: the result
/// is a non-empty run of digits (with at most a leading sign), so it never
/// contains a path separator.  Nothing more is claimed: the value depends on
/// the clock.
#[verifier::external_body]
pub(crate) fn now_stamp() -> (r: String)
    ensures
        valid_stamp(r@),
{
    chrono::Local::now().format("%Y%m%d%H%M%S").to_string()
}

/// Relies on chrono's `DateTime::to_rfc3339` on `Local::now`: an RFC 3339
/// timestamp is never empty.  Nothing more is claimed: the value depends on
/// the clock.
#[verifier::external_body]
pub(crate) fn now_iso() -> (r: String)
    ensures
        r@.len() >= 1,
{
    chrono::Local::now().to_rfc3339()
}

} // verus!
