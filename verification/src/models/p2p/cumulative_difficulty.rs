//! Cumulative difficulty values, as reported by peers.
//!
//! A cumulative difficulty is an unbounded non-negative integer. The
//! consensus phase only ever compares such values for equality, so the
//! node holds one as its canonical decimal digit string.

use vstd::prelude::*;

use crate::models::p2p::peer_address::all_digits;
use crate::models::p2p::peer_address::ascii_bytes;
use crate::models::p2p::peer_address::dec_val;
use crate::models::p2p::peer_address::is_digit_byte;
use vstd::utf8::is_ascii_chars;

verus! {

/// The reported value was not a decimal number.
#[derive(Clone, Copy, Debug, PartialEq, Eq, Structural)]
pub struct CumulativeDifficultyParseError;

/// An unbounded non-negative integer held as canonical decimal digits:
/// non-empty, and without leading zeros.
#[derive(Debug)]
pub struct CumulativeDifficulty {
    pub digits: Vec<u8>,
}

impl CumulativeDifficulty {
    /// Canonical form: at least one digit, only digits, no leading zero
    /// unless the value is zero itself.
    pub open spec fn wf(&self) -> bool {
        &&& self.digits@.len() > 0
        &&& all_digits(self.digits@)
        &&& (self.digits@[0] == 48 ==> self.digits@.len() == 1)
    }

    /// The numeric value.
    pub open spec fn value(&self) -> int {
        dec_val(self.digits@)
    }

    /// Parses a decimal string; leading zeros are dropped. Fails exactly
    /// when the input is empty, not ASCII, or holds a non-digit.
    pub fn parse_decimal(s: &str) -> (r: Result<CumulativeDifficulty, CumulativeDifficultyParseError>)
        ensures
            match r {
                Ok(cd) => {
                    &&& is_ascii_chars(s@)
                    &&& s@.len() > 0
                    &&& all_digits(ascii_bytes(s@))
                    &&& cd.wf()
                    &&& cd.value() == dec_val(ascii_bytes(s@))
                },
                Err(_) => !is_ascii_chars(s@) || s@.len() == 0 || !all_digits(ascii_bytes(s@)),
            },
    {
        if !s.is_ascii() {
            return Err(CumulativeDifficultyParseError);
        }
        let bytes: Vec<u8> = vstd::string::StrSliceExecFns::as_bytes_vec(s);
        proof {
            broadcast use vstd::string::is_ascii_spec_bytes;

            assert(bytes@ =~= ascii_bytes(s@));
        }
        let n: usize = bytes.len();
        if n == 0 {
            return Err(CumulativeDifficultyParseError);
        }
        let mut i: usize = 0;
        while i < n
            invariant
                n == bytes@.len(),
                i <= n,
                bytes@ == ascii_bytes(s@),
                forall|j: int| 0 <= j < i ==> is_digit_byte(#[trigger] bytes@[j]),
            decreases n - i,
        {
            let b = bytes[i];
            if b < 48 || b > 57 {
                proof {
                    assert(!is_digit_byte(bytes@[i as int]));
                }
                return Err(CumulativeDifficultyParseError);
            }
            i = i + 1;
        }
        // Drop leading zeros, keeping at least one digit.
        let mut start: usize = 0;
        while start + 1 < n && bytes[start] == 48
            invariant
                n == bytes@.len(),
                start < n,
                all_digits(bytes@),
                forall|j: int| 0 <= j < start ==> bytes@[j] == 48,
            decreases n - start,
        {
            start = start + 1;
        }
        let mut digits: Vec<u8> = Vec::new();
        let mut k: usize = start;
        while k < n
            invariant
                start <= k <= n,
                n == bytes@.len(),
                digits@.len() == k - start,
                forall|j: int| 0 <= j < k - start ==> #[trigger] digits@[j] == bytes@[start + j],
            decreases n - k,
        {
            digits.push(bytes[k]);
            k = k + 1;
        }
        proof {
            assert(digits@ =~= bytes@.subrange(start as int, n as int));
            lemma_dec_val_drop_leading_zeros(bytes@, start as int);
        }
        Ok(CumulativeDifficulty { digits })
    }
}

/// Leading zeros do not change the decimal value.
proof fn lemma_dec_val_drop_leading_zeros(d: Seq<u8>, start: int)
    requires
        0 <= start < d.len(),
        forall|j: int| 0 <= j < start ==> d[j] == 48,
    ensures
        dec_val(d.subrange(start, d.len() as int)) == dec_val(d),
    decreases d.len(),
{
    if start == 0 {
        assert(d.subrange(0, d.len() as int) =~= d);
    } else if d.len() == 1 {
    } else {
        let e = d.drop_last();
        assert(forall|j: int| 0 <= j < start && j < e.len() ==> e[j] == 48);
        if start < e.len() {
            lemma_dec_val_drop_leading_zeros(e, start);
            assert(d.subrange(start, d.len() as int).drop_last() =~= e.subrange(
                start,
                e.len() as int,
            ));
            assert(d.subrange(start, d.len() as int).last() == d.last());
        } else {
            // start == d.len() - 1: everything before the last digit is zero.
            lemma_dec_val_all_zeros(e);
            assert(d.subrange(start, d.len() as int) =~= seq![d.last()]);
            assert(seq![d.last()].drop_last() =~= Seq::<u8>::empty());
            assert(dec_val(seq![d.last()]) == dec_val(Seq::<u8>::empty()) * 10 + (d.last() - 48));
        }
    }
}

proof fn lemma_dec_val_all_zeros(d: Seq<u8>)
    requires
        forall|j: int| 0 <= j < d.len() ==> d[j] == 48,
    ensures
        dec_val(d) == 0,
    decreases d.len(),
{
    if d.len() > 0 {
        lemma_dec_val_all_zeros(d.drop_last());
    }
}

impl Clone for CumulativeDifficulty {
    /// Clones keep the digits unchanged.
    fn clone(&self) -> (r: Self)
        ensures
            r.digits@ == self.digits@,
    {
        let mut digits: Vec<u8> = Vec::new();
        let n: usize = self.digits.len();
        let mut i: usize = 0;
        while i < n
            invariant
                n == self.digits@.len(),
                i <= n,
                digits@.len() == i,
                forall|j: int| 0 <= j < i ==> #[trigger] digits@[j] == self.digits@[j],
            decreases n - i,
        {
            digits.push(self.digits[i]);
            i = i + 1;
        }
        proof {
            assert(digits@ =~= self.digits@);
        }
        CumulativeDifficulty { digits }
    }
}

impl PartialEq for CumulativeDifficulty {
    fn eq(&self, other: &Self) -> (r: bool) {
        let n: usize = self.digits.len();
        if n != other.digits.len() {
            return false;
        }
        let mut i: usize = 0;
        while i < n
            invariant
                n == self.digits@.len(),
                n == other.digits@.len(),
                i <= n,
                forall|j: int| 0 <= j < i ==> self.digits@[j] == other.digits@[j],
            decreases n - i,
        {
            if self.digits[i] != other.digits[i] {
                return false;
            }
            i = i + 1;
        }
        proof {
            assert(self.digits@ =~= other.digits@);
        }
        true
    }
}

impl vstd::std_specs::cmp::PartialEqSpecImpl for CumulativeDifficulty {
    open spec fn obeys_eq_spec() -> bool {
        true
    }

    open spec fn eq_spec(&self, other: &Self) -> bool {
        self.digits@ == other.digits@
    }
}

} // verus!
