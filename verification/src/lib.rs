//! Core of a Signum peer-to-peer node: peer registry with blacklist
//! bookkeeping, worker decision logic for peer discovery and refresh, and the
//! consensus-driven block download scheduler.

use vstd::prelude::*;

pub mod configuration;
pub mod flux_capacitor;
pub mod historical_moments;
pub mod models;
pub mod peers;
pub mod sampling;
pub mod srs_api;
pub mod wire;
pub mod workers;

verus! {

/// Number of times `v` occurs in `s`.
pub open spec fn occurrences(s: Seq<u64>, v: u64) -> nat
    decreases s.len(),
{
    if s.len() == 0 {
        0
    } else {
        (if s.last() == v {
            1nat
        } else {
            0nat
        }) + occurrences(s.drop_last(), v)
    }
}

/// `v` is the statistical mode of `s`: it occurs in `s` strictly more often
/// than every other value.
pub open spec fn is_unique_mode(s: Seq<u64>, v: u64) -> bool {
    s.contains(v) && forall|w: u64| w != v ==> occurrences(s, w) < occurrences(s, v)
}

proof fn lemma_occurrences_pos_iff_contains(s: Seq<u64>, v: u64)
    ensures
        occurrences(s, v) > 0 <==> s.contains(v),
    decreases s.len(),
{
    if s.len() > 0 {
        lemma_occurrences_pos_iff_contains(s.drop_last(), v);
        if s.last() == v {
            assert(s[s.len() - 1] == v);
        } else {
            if s.contains(v) {
                let i = choose|i: int| 0 <= i < s.len() && s[i] == v;
                assert(s.drop_last()[i] == v);
            }
            if s.drop_last().contains(v) {
                let i = choose|i: int| 0 <= i < s.drop_last().len() && s.drop_last()[i] == v;
                assert(s[i] == v);
            }
        }
    }
}

fn count_matches(s: &Vec<u64>, v: u64) -> (c: usize)
    ensures
        c == occurrences(s@, v),
{
    let mut c: usize = 0;
    let n: usize = s.len();
    for i in 0..n
        invariant
            n == s@.len(),
            c == occurrences(s@.subrange(0, i as int), v),
            c <= i,
    {
        proof {
            assert(s@.subrange(0, i + 1).drop_last() =~= s@.subrange(0, i as int));
            assert(s@.subrange(0, i + 1).last() == s@[i as int]);
        }
        if s[i] == v {
            c = c + 1;
        }
    }
    proof {
        assert(s@.subrange(0, n as int) =~= s@);
    }
    c
}

/// Returns the strictly most frequent value of `input`, or `None` when the
/// input is empty or two distinct values tie for the highest frequency.
pub fn statistics_mode(input: &Vec<u64>) -> (r: Option<u64>)
    ensures
        match r {
            Some(v) => is_unique_mode(input@, v),
            None => forall|v: u64| !is_unique_mode(input@, v),
        },
{
    let n: usize = input.len();
    if n == 0 {
        return None;
    }
    let mut best_v: u64 = input[0];
    let mut best_c: usize = count_matches(input, best_v);
    for i in 1..n
        invariant
            n == input@.len(),
            n >= 1,
            input@.contains(best_v),
            best_c == occurrences(input@, best_v),
            forall|j: int| 0 <= j < i ==> occurrences(input@, #[trigger] input@[j]) <= best_c,
    {
        let c = count_matches(input, input[i]);
        if c > best_c {
            best_v = input[i];
            best_c = c;
        }
    }
    proof {
        assert forall|w: u64| occurrences(input@, w) <= best_c by {
            lemma_occurrences_pos_iff_contains(input@, w);
            if occurrences(input@, w) > 0 {
                let j = choose|j: int| 0 <= j < input@.len() && input@[j] == w;
                assert(occurrences(input@, input@[j]) <= best_c);
            }
        }
    }
    let mut tie = false;
    for i in 0..n
        invariant
            n == input@.len(),
            input@.contains(best_v),
            best_c == occurrences(input@, best_v),
            forall|w: u64| #[trigger] occurrences(input@, w) <= best_c,
            tie <==> exists|j: int|
                0 <= j < i && input@[j] != best_v && occurrences(input@, #[trigger] input@[j])
                    == best_c,
    {
        if input[i] != best_v {
            let c = count_matches(input, input[i]);
            if c == best_c {
                tie = true;
            }
        }
    }
    if tie {
        proof {
            let j = choose|j: int|
                0 <= j < input@.len() && input@[j] != best_v && occurrences(
                    input@,
                    #[trigger] input@[j],
                ) == best_c;
            assert forall|v: u64| !is_unique_mode(input@, v) by {
                if is_unique_mode(input@, v) {
                    if v == best_v {
                        assert(occurrences(input@, input@[j]) < occurrences(input@, v));
                    } else {
                        assert(occurrences(input@, best_v) < occurrences(input@, v));
                        assert(occurrences(input@, v) <= best_c);
                    }
                }
            }
        }
        None
    } else {
        proof {
            lemma_occurrences_pos_iff_contains(input@, best_v);
            assert forall|w: u64| w != best_v implies occurrences(input@, w) < occurrences(
                input@,
                best_v,
            ) by {
                lemma_occurrences_pos_iff_contains(input@, w);
                if occurrences(input@, w) == best_c {
                    let j = choose|j: int| 0 <= j < input@.len() && input@[j] == w;
                    assert(input@[j] != best_v && occurrences(input@, input@[j]) == best_c);
                }
            }
        }
        Some(best_v)
    }
}

} // verus!
