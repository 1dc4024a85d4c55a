//! The JSON-shaped values of the B1 wire protocol, held as plain data.
//!
//! A request or answer body is a list of named fields. The transport edge
//! turns these field lists into JSON text and back; everything the node
//! decides about a body is decided here, over the plain values.

use vstd::prelude::*;

verus! {

/// One JSON-shaped value of the B1 protocol.
#[derive(Debug)]
pub enum WireValue {
    Text(String),
    Flag(bool),
    Number(u64),
    List(Vec<String>),
}

/// First value under `name`, if any.
pub open spec fn spec_lookup(fields: Seq<(String, WireValue)>, name: Seq<char>) -> Option<
    WireValue,
>
    decreases fields.len(),
{
    if fields.len() == 0 {
        Option::None
    } else if fields[0].0@ == name {
        Option::Some(fields[0].1)
    } else {
        spec_lookup(fields.drop_first(), name)
    }
}

/// The field `f` binds `name` to the text `val`.
pub open spec fn field_is_text(f: (String, WireValue), name: Seq<char>, val: Seq<char>) -> bool {
    f.0@ == name && (f.1 matches WireValue::Text(s) && s@ == val)
}

/// The field `f` binds `name` to the boolean `val`.
pub open spec fn field_is_flag(f: (String, WireValue), name: Seq<char>, val: bool) -> bool {
    f.0@ == name && f.1 == WireValue::Flag(val)
}

/// The field `f` binds `name` to the number `val`.
pub open spec fn field_is_number(f: (String, WireValue), name: Seq<char>, val: u64) -> bool {
    f.0@ == name && f.1 == WireValue::Number(val)
}

/// Character-for-character string equality.
pub fn str_eq(a: &str, b: &str) -> (r: bool)
    ensures
        r == (a@ == b@),
{
    let la: usize = vstd::string::StrSliceExecFns::unicode_len(a);
    let lb: usize = vstd::string::StrSliceExecFns::unicode_len(b);
    if la != lb {
        proof {
            assert(a@.len() != b@.len());
        }
        return false;
    }
    let mut i: usize = 0;
    while i < la
        invariant
            la == a@.len(),
            la == b@.len(),
            i <= la,
            forall|j: int| 0 <= j < i ==> a@[j] == b@[j],
        decreases la - i,
    {
        let ca = vstd::string::StrSliceExecFns::get_char(a, i);
        let cb = vstd::string::StrSliceExecFns::get_char(b, i);
        if ca != cb {
            proof {
                assert(a@[i as int] != b@[i as int]);
            }
            return false;
        }
        i = i + 1;
    }
    proof {
        assert(a@ =~= b@);
    }
    true
}

/// First value under `name` among `fields`, by reference.
pub fn lookup_field<'a>(fields: &'a Vec<(String, WireValue)>, name: &str) -> (r: Option<
    &'a WireValue,
>)
    ensures
        match r {
            Some(v) => spec_lookup(fields@, name@) == Option::Some(*v),
            None => spec_lookup(fields@, name@) is None,
        },
{
    let n: usize = fields.len();
    let mut i: usize = 0;
    proof {
        assert(fields@.subrange(0, n as int) =~= fields@);
    }
    while i < n
        invariant
            n == fields@.len(),
            i <= n,
            forall|j: int| 0 <= j < i ==> (#[trigger] fields@[j]).0@ != name@,
            spec_lookup(fields@, name@) == spec_lookup(
                fields@.subrange(i as int, n as int),
                name@,
            ),
        decreases n - i,
    {
        proof {
            assert(fields@.subrange(i as int, n as int)[0] == fields@[i as int]);
            assert(fields@.subrange(i as int, n as int).drop_first() =~= fields@.subrange(
                i + 1,
                n as int,
            ));
        }
        if str_eq(fields[i].0.as_str(), name) {
            return Some(&fields[i].1);
        }
        i = i + 1;
    }
    proof {
        assert(fields@.subrange(n as int, n as int) =~= Seq::<(String, WireValue)>::empty());
    }
    None
}

} // verus!
