use vstd::prelude::*;
use crate::text::{decimal, push_decimal, push_text};

verus! {

/// Moving between the matches of a search.
pub struct SearchController;

/// What the match counter shows: "0 / 0" without matches, else "current / total", 1-based.
pub open spec fn summary_text(current: usize, total: usize) -> Seq<char> {
    if total == 0 {
        "0 / 0"@
    } else {
        decimal((current + 1) as nat) + " / "@ + decimal(total as nat)
    }
}

/// The match after `current` among `total`, wrapping to the first (0 without matches).
pub open spec fn next_index(current: int, total: int) -> int {
    if total == 0 {
        0
    } else {
        (current + 1) % total
    }
}

/// The match before `current` among `total`, wrapping to the last (0 without matches).
pub open spec fn prev_index(current: int, total: int) -> int {
    if total == 0 {
        0
    } else if current == 0 {
        total - 1
    } else {
        current - 1
    }
}

/// Stepping forward and back (or back and forward) returns to the same match, and both
/// steps stay among the matches.
pub proof fn lemma_steps_undo_each_other(current: int, total: int)
    requires
        0 <= current < total,
    ensures
        0 <= next_index(current, total) < total,
        0 <= prev_index(current, total) < total,
        prev_index(next_index(current, total), total) == current,
        next_index(prev_index(current, total), total) == current,
{
    if current + 1 < total {
        assert((current + 1) % total == current + 1) by (nonlinear_arith)
            requires
                0 <= current + 1 < total,
        ;
    } else {
        vstd::arithmetic::div_mod::lemma_mod_self_0(total);
    }
    if current == 0 {
        vstd::arithmetic::div_mod::lemma_mod_self_0(total);
    } else {
        assert((current - 1 + 1) % total == current) by (nonlinear_arith)
            requires
                0 < current < total,
        ;
    }
}

impl SearchController {
    /// The match after `current`, wrapping to the first.
    pub fn next_match(current: usize, total: usize) -> (r: usize)
        requires
            total > 0 ==> current < usize::MAX,
        ensures
            r == next_index(current as int, total as int),
    {
        if total == 0 {
            0
        } else {
            (current + 1) % total
        }
    }

    /// The match before `current`, wrapping to the last.
    pub fn prev_match(current: usize, total: usize) -> (r: usize)
        ensures
            r == prev_index(current as int, total as int),
    {
        if total == 0 {
            0
        } else if current == 0 {
            total - 1
        } else {
            current - 1
        }
    }

    /// The counter text for match `current` of `total`.
    pub fn match_summary(current: usize, total: usize) -> (r: String)
        requires
            total > 0 ==> current < usize::MAX,
        ensures
            r@ == summary_text(current, total),
    {
        if total == 0 {
            "0 / 0".to_owned()
        } else {
            let mut s = String::new();
            push_decimal(&mut s, current as u128 + 1);
            push_text(&mut s, " / ");
            push_decimal(&mut s, total as u128);
            s
        }
    }
}

} // verus!
