//! Canonical peer addresses.
//!
//! A peer address is the pair of a host (an IPv4 address, a bracketed IPv6
//! address, or a DNS name) and a TCP port. Parsing accepts URL-ish inputs:
//! any `scheme://` prefix is stripped, anything from the first `/`, `?` or
//! `#` on is ignored, the host is lowercased, and a missing port defaults to
//! 8123. The canonical form is `host:port`, and parsing a canonical form
//! gives the same address back.

use vstd::prelude::*;
use vstd::utf8::is_ascii_chars;

verus! {

/// Default Signum peer-to-peer port, used when the input names none.
pub const DEFAULT_PEER_PORT: u16 = 8123;

/// The bytes of an ASCII string, one byte per character.
pub open spec fn ascii_bytes(s: Seq<char>) -> Seq<u8> {
    Seq::new(s.len(), |i: int| s[i] as u8)
}

pub open spec fn is_digit_byte(b: u8) -> bool {
    48 <= b <= 57
}

pub open spec fn is_lower_letter_byte(b: u8) -> bool {
    97 <= b <= 122
}

pub open spec fn is_upper_letter_byte(b: u8) -> bool {
    65 <= b <= 90
}

/// Lowercase an ASCII byte; other bytes are unchanged.
pub open spec fn to_lower_byte(b: u8) -> u8 {
    if is_upper_letter_byte(b) {
        (b + 32) as u8
    } else {
        b
    }
}

pub open spec fn lower_bytes(s: Seq<u8>) -> Seq<u8> {
    Seq::new(s.len(), |i: int| to_lower_byte(s[i]))
}

/// A byte allowed in a canonical (lowercased) registered host name:
/// lowercase letters, digits, `-`, `.` and `_`.
pub open spec fn is_name_byte(b: u8) -> bool {
    is_digit_byte(b) || is_lower_letter_byte(b) || b == 45 || b == 46 || b == 95
}

/// A byte allowed inside a canonical bracketed IPv6 host: lowercase
/// hexadecimal digits and `:`.
pub open spec fn is_lower_hex_byte(b: u8) -> bool {
    is_digit_byte(b) || (97 <= b <= 102)
}

pub open spec fn is_v6_byte(b: u8) -> bool {
    is_lower_hex_byte(b) || b == 58
}

/// `g` has a double colon starting at index `i`.
pub open spec fn double_colon_at(g: Seq<u8>, i: int) -> bool {
    0 <= i && i + 2 <= g.len() && g[i] == 58 && g[i + 1] == 58
}

pub open spec fn has_double_colon(g: Seq<u8>) -> bool {
    exists|i: int| double_colon_at(g, i)
}

pub open spec fn count_colons(g: Seq<u8>) -> nat
    decreases g.len(),
{
    if g.len() == 0 {
        0
    } else {
        (if g.last() == 58 {
            1nat
        } else {
            0nat
        }) + count_colons(g.drop_last())
    }
}

/// Five consecutive hexadecimal digits start at index `i` of `g`.
pub open spec fn hex_run_of_five_at(g: Seq<u8>, i: int) -> bool {
    0 <= i && i + 5 <= g.len() && forall|j: int|
        i <= j < i + 5 ==> is_lower_hex_byte(#[trigger] g[j])
}

/// The largest colon count a compressed form may carry: seven separators
/// for up to seven non-empty groups, plus one for a leading and one for a
/// trailing `::`.
pub open spec fn colon_bound(g: Seq<u8>) -> int {
    7 + (if g[0] == 58 {
        1int
    } else {
        0int
    }) + (if g[g.len() - 1] == 58 {
        1int
    } else {
        0int
    })
}

/// Validity of the inside of a bracketed IPv6 host, over canonical
/// (lowercased) bytes: hexadecimal groups of at most four digits separated
/// by colons, at most one `::` run, no lone leading or trailing colon, and
/// a group count that matches the compressed or uncompressed form — an
/// uncompressed address has exactly eight groups, a compressed one at
/// most seven non-empty groups.
pub open spec fn valid_ipv6_inner(g: Seq<u8>) -> bool {
    &&& g.len() > 0
    &&& forall|i: int| 0 <= i < g.len() ==> is_v6_byte(#[trigger] g[i])
    &&& forall|i: int, j: int| double_colon_at(g, i) && double_colon_at(g, j) ==> i == j
    &&& (g[0] == 58 ==> double_colon_at(g, 0))
    &&& (g[g.len() - 1] == 58 ==> double_colon_at(g, g.len() - 2))
    &&& forall|i: int| !hex_run_of_five_at(g, i)
    &&& (if has_double_colon(g) {
        count_colons(g) <= colon_bound(g)
    } else {
        count_colons(g) == 7
    })
}

/// A canonical host: either a bracketed IPv6 address or a registered name.
pub open spec fn valid_host(h: Seq<u8>) -> bool {
    if h.len() >= 2 && h[0] == 91 && h[h.len() - 1] == 93 {
        valid_ipv6_inner(h.subrange(1, h.len() - 1))
    } else {
        h.len() > 0 && forall|i: int| 0 <= i < h.len() ==> is_name_byte(#[trigger] h[i])
    }
}

/// First index `k >= i` at which `s` holds `://`, if any.
pub open spec fn find_scheme_sep_from(s: Seq<u8>, i: int) -> Option<int>
    decreases s.len() - i,
{
    if i < 0 || i + 3 > s.len() {
        None
    } else if s[i] == 58 && s[i + 1] == 47 && s[i + 2] == 47 {
        Some(i)
    } else {
        find_scheme_sep_from(s, i + 1)
    }
}

/// A byte that ends the authority part of a URL-ish input.
pub open spec fn is_delim_byte(b: u8) -> bool {
    b == 47 || b == 63 || b == 35
}

/// First index `k >= i` at which `s` holds `/`, `?` or `#`, if any.
pub open spec fn find_delim_from(s: Seq<u8>, i: int) -> Option<int>
    decreases s.len() - i,
{
    if i < 0 || i >= s.len() {
        None
    } else if is_delim_byte(s[i]) {
        Some(i)
    } else {
        find_delim_from(s, i + 1)
    }
}

/// First index `k >= i` at which `s` holds the byte `b`, if any.
pub open spec fn find_byte_from(s: Seq<u8>, b: u8, i: int) -> Option<int>
    decreases s.len() - i,
{
    if i < 0 || i >= s.len() {
        None
    } else if s[i] == b {
        Some(i)
    } else {
        find_byte_from(s, b, i + 1)
    }
}

/// Decimal value of a digit string.
pub open spec fn dec_val(d: Seq<u8>) -> int
    decreases d.len(),
{
    if d.len() == 0 {
        0
    } else {
        dec_val(d.drop_last()) * 10 + (d.last() - 48)
    }
}

pub open spec fn all_digits(d: Seq<u8>) -> bool {
    forall|i: int| 0 <= i < d.len() ==> is_digit_byte(#[trigger] d[i])
}

/// Port rule: an absent or empty port part means the default port; a digit
/// string must fit a `u16`.
pub open spec fn spec_parse_port(pp: Option<Seq<u8>>) -> Option<u16> {
    match pp {
        Option::None => Option::Some(DEFAULT_PEER_PORT),
        Option::Some(d) => {
            if d.len() == 0 {
                Option::Some(DEFAULT_PEER_PORT)
            } else if all_digits(d) && dec_val(d) <= 65535 {
                Option::Some(dec_val(d) as u16)
            } else {
                Option::None
            }
        },
    }
}

/// Split an authority into its raw host part and optional port part.
pub open spec fn spec_split_authority(a: Seq<u8>) -> Option<(Seq<u8>, Option<Seq<u8>>)> {
    if a.len() == 0 {
        Option::None
    } else if a[0] == 91 {
        match find_byte_from(a, 93, 0) {
            Option::None => Option::None,
            Option::Some(j) => {
                if j + 1 == a.len() {
                    Option::Some((a.subrange(0, j + 1), Option::None))
                } else if a[j + 1] == 58 {
                    Option::Some((a.subrange(0, j + 1), Option::Some(a.subrange(j + 2, a.len() as int))))
                } else {
                    Option::None
                }
            },
        }
    } else {
        match find_byte_from(a, 58, 0) {
            Option::None => Option::Some((a, Option::None)),
            Option::Some(j) => Option::Some(
                (a.subrange(0, j), Option::Some(a.subrange(j + 1, a.len() as int))),
            ),
        }
    }
}

/// The authority part of the input: what stands after any `scheme://`
/// prefix and before the first `/`, `?` or `#`.
pub open spec fn spec_authority(s: Seq<u8>) -> Seq<u8> {
    let start = match find_scheme_sep_from(s, 0) {
        Option::Some(i) => i + 3,
        Option::None => 0,
    };
    let end = match find_delim_from(s, start) {
        Option::Some(j) => j,
        Option::None => s.len() as int,
    };
    s.subrange(start, end)
}

/// The whole parse: the canonical (lowercased) host and the port, or
/// nothing when the input is not a well-formed address.
pub open spec fn spec_parse_addr(s: Seq<u8>) -> Option<(Seq<u8>, u16)> {
    match spec_split_authority(spec_authority(s)) {
        Option::None => Option::None,
        Option::Some((hr, pp)) => {
            let h = lower_bytes(hr);
            if valid_host(h) {
                match spec_parse_port(pp) {
                    Option::Some(p) => Option::Some((h, p)),
                    Option::None => Option::None,
                }
            } else {
                Option::None
            }
        },
    }
}

/// Decimal digits of `n`, most significant first, without leading zeros.
pub open spec fn dec_bytes(n: int) -> Seq<u8>
    decreases n,
{
    if n < 0 {
        Seq::empty()
    } else if n < 10 {
        seq![(48 + n) as u8]
    } else {
        dec_bytes(n / 10).push((48 + n % 10) as u8)
    }
}

/// The canonical form `host:port` as bytes.
pub open spec fn canonical_addr_bytes(h: Seq<u8>, p: u16) -> Seq<u8> {
    h + seq![58u8] + dec_bytes(p as int)
}

pub proof fn lemma_find_byte_hit(s: Seq<u8>, b: u8, i: int, k: int)
    requires
        0 <= i <= k < s.len(),
        s[k] == b,
        forall|j: int| i <= j < k ==> s[j] != b,
    ensures
        find_byte_from(s, b, i) == Option::Some(k),
    decreases k - i,
{
    if i < k {
        lemma_find_byte_hit(s, b, i + 1, k);
    }
}

pub proof fn lemma_find_byte_miss(s: Seq<u8>, b: u8, i: int)
    requires
        0 <= i,
        forall|j: int| i <= j < s.len() ==> s[j] != b,
    ensures
        find_byte_from(s, b, i) is None,
    decreases s.len() - i,
{
    if i < s.len() {
        lemma_find_byte_miss(s, b, i + 1);
    }
}

pub proof fn lemma_find_scheme_sep_miss(s: Seq<u8>, i: int)
    requires
        0 <= i,
        forall|j: int| i <= j < s.len() ==> s[j] != 47,
    ensures
        find_scheme_sep_from(s, i) is None,
    decreases s.len() - i,
{
    if i + 3 <= s.len() {
        lemma_find_scheme_sep_miss(s, i + 1);
    }
}

pub proof fn lemma_find_delim_miss(s: Seq<u8>, i: int)
    requires
        0 <= i,
        forall|j: int| i <= j < s.len() ==> !is_delim_byte(#[trigger] s[j]),
    ensures
        find_delim_from(s, i) is None,
    decreases s.len() - i,
{
    if i < s.len() {
        lemma_find_delim_miss(s, i + 1);
    }
}

pub proof fn lemma_dec_val_nonneg(d: Seq<u8>)
    requires
        all_digits(d),
    ensures
        dec_val(d) >= 0,
    decreases d.len(),
{
    if d.len() > 0 {
        assert(all_digits(d.drop_last())) by {
            assert(forall|i: int|
                0 <= i < d.len() - 1 ==> d.drop_last()[i] == #[trigger] d[i]);
        }
        lemma_dec_val_nonneg(d.drop_last());
        assert(is_digit_byte(d.last()));
    }
}

pub proof fn lemma_dec_bytes_digits(n: int)
    requires
        n >= 0,
    ensures
        dec_bytes(n).len() >= 1,
        all_digits(dec_bytes(n)),
    decreases n,
{
    if n >= 10 {
        lemma_dec_bytes_digits(n / 10);
        assert(0 <= n % 10 < 10);
        assert forall|i: int| 0 <= i < dec_bytes(n).len() implies is_digit_byte(
            #[trigger] dec_bytes(n)[i],
        ) by {
            if i < dec_bytes(n / 10).len() {
                assert(dec_bytes(n)[i] == dec_bytes(n / 10)[i]);
            }
        }
    }
}

pub proof fn lemma_dec_val_roundtrip(n: int)
    requires
        n >= 0,
    ensures
        dec_val(dec_bytes(n)) == n,
    decreases n,
{
    if n < 10 {
        let d = (48 + n) as u8;
        assert(dec_val(Seq::<u8>::empty()) == 0);
        assert(seq![d].drop_last() =~= Seq::<u8>::empty());
        assert(seq![d].last() == d);
        assert(dec_val(seq![d]) == dec_val(seq![d].drop_last()) * 10 + (seq![d].last() - 48));
    } else {
        lemma_dec_val_roundtrip(n / 10);
        let pre = dec_bytes(n / 10);
        let d = (48 + n % 10) as u8;
        assert(pre.push(d).drop_last() =~= pre);
        assert(pre.push(d).last() == d);
        assert(dec_val(dec_bytes(n)) == dec_val(pre) * 10 + (d - 48));
        assert(n / 10 * 10 + n % 10 == n) by {
            vstd::arithmetic::div_mod::lemma_fundamental_div_mod(n, 10);
        }
    }
}

/// Parsing the canonical form of a valid host and port gives exactly that
/// host and port back.
pub proof fn lemma_canonical_roundtrip(h: Seq<u8>, p: u16)
    requires
        valid_host(h),
    ensures
        spec_parse_addr(canonical_addr_bytes(h, p)) == Option::Some((h, p)),
{
    let d = dec_bytes(p as int);
    lemma_dec_bytes_digits(p as int);
    lemma_dec_val_roundtrip(p as int);
    let c = canonical_addr_bytes(h, p);
    let hl = h.len() as int;
    let bracketed = h.len() >= 2 && h[0] == 91 && h[hl - 1] == 93;
    assert(c.len() == hl + 1 + d.len());
    assert(forall|i: int| 0 <= i < hl ==> c[i] == h[i]);
    assert(c[hl] == 58);
    assert(forall|k: int| 0 <= k < d.len() ==> c[hl + 1 + k] == d[k]);
    if bracketed {
        let g = h.subrange(1, hl - 1);
        assert(forall|i: int| 1 <= i < hl - 1 ==> h[i] == g[i - 1]);
        assert(forall|i: int| 1 <= i < hl - 1 ==> is_v6_byte(#[trigger] h[i]));
    }
    // None of the canonical bytes is a scheme or path delimiter.
    assert forall|j: int| 0 <= j < c.len() implies c[j] != 47 && !is_delim_byte(c[j]) by {
        if j < hl {
            assert(c[j] == h[j]);
        } else if j > hl {
            assert(c[j] == d[j - hl - 1]);
            assert(is_digit_byte(d[j - hl - 1]));
        }
    }
    lemma_find_scheme_sep_miss(c, 0);
    lemma_find_delim_miss(c, 0);
    assert(spec_authority(c) =~= c);
    if bracketed {
        assert(c[0] == 91);
        assert forall|j: int| 0 <= j < hl - 1 implies c[j] != 93 by {
            assert(c[j] == h[j]);
            if j == 0 {
                assert(h[0] == 91);
            } else {
                assert(is_v6_byte(h[j]));
            }
        }
        lemma_find_byte_hit(c, 93, 0, hl - 1);
        assert(spec_split_authority(c) == Option::Some(
            (c.subrange(0, hl), Option::Some(c.subrange(hl + 1, c.len() as int))),
        ));
    } else {
        assert(forall|i: int| 0 <= i < hl ==> is_name_byte(#[trigger] h[i]));
        assert(c[0] != 91) by {
            assert(is_name_byte(h[0]));
        }
        assert forall|j: int| 0 <= j < hl implies c[j] != 58 by {
            assert(c[j] == h[j]);
            assert(is_name_byte(h[j]));
        }
        lemma_find_byte_hit(c, 58, 0, hl);
        assert(spec_split_authority(c) == Option::Some(
            (c.subrange(0, hl), Option::Some(c.subrange(hl + 1, c.len() as int))),
        ));
    }
    assert(c.subrange(0, hl) =~= h);
    assert(c.subrange(hl + 1, c.len() as int) =~= d);
    // The canonical host is already lowercase.
    assert(lower_bytes(h) =~= h) by {
        assert forall|i: int| 0 <= i < hl implies to_lower_byte(h[i]) == h[i] by {
            if bracketed {
                if 1 <= i < hl - 1 {
                    assert(is_v6_byte(h[i]));
                }
            } else {
                assert(is_name_byte(h[i]));
            }
        }
    }
    assert(spec_parse_port(Option::Some(d)) == Option::Some(p));
}

/// Parsing is idempotent through the canonical formatter: re-parsing the
/// canonical form of any accepted input gives the same parse.
pub proof fn lemma_parse_format_idempotent(s: Seq<u8>)
    requires
        spec_parse_addr(s) is Some,
    ensures
        spec_parse_addr(
            canonical_addr_bytes(spec_parse_addr(s)->Some_0.0, spec_parse_addr(s)->Some_0.1),
        ) == spec_parse_addr(s),
{
    let h = spec_parse_addr(s)->Some_0.0;
    let p = spec_parse_addr(s)->Some_0.1;
    assert(valid_host(h));
    lemma_canonical_roundtrip(h, p);
}

/// Adding digits at the end of a digit string never shrinks its value.
pub proof fn lemma_dec_val_prefix_le(d: Seq<u8>, i: int)
    requires
        all_digits(d),
        0 <= i <= d.len(),
    ensures
        dec_val(d.subrange(0, i)) <= dec_val(d),
    decreases d.len() - i,
{
    if i < d.len() {
        lemma_dec_val_prefix_le(d, i + 1);
        let a = d.subrange(0, i);
        let b = d.subrange(0, i + 1);
        assert(b.drop_last() =~= a);
        assert(b.last() == d[i]);
        assert(all_digits(a)) by {
            assert(forall|j: int| 0 <= j < i ==> a[j] == #[trigger] d[j]);
        }
        lemma_dec_val_nonneg(a);
        assert(is_digit_byte(d[i]));
        assert(dec_val(b) == dec_val(a) * 10 + (d[i] - 48));
        assert(dec_val(a) <= dec_val(a) * 10);
    } else {
        assert(d.subrange(0, d.len() as int) =~= d);
    }
}

pub open spec fn scheme_sep_at(s: Seq<u8>, j: int) -> bool {
    0 <= j && j + 3 <= s.len() && s[j] == 58 && s[j + 1] == 47 && s[j + 2] == 47
}

proof fn lemma_find_scheme_sep_hit(s: Seq<u8>, i: int, k: int)
    requires
        0 <= i <= k,
        scheme_sep_at(s, k),
        forall|j: int| i <= j < k ==> !scheme_sep_at(s, j),
    ensures
        find_scheme_sep_from(s, i) == Option::Some(k),
    decreases k - i,
{
    assert(k + 3 <= s.len());
    if i < k {
        assert(!scheme_sep_at(s, i));
        lemma_find_scheme_sep_hit(s, i + 1, k);
    }
}

proof fn lemma_find_scheme_sep_none(s: Seq<u8>, i: int)
    requires
        0 <= i,
        forall|j: int| i <= j ==> !scheme_sep_at(s, j),
    ensures
        find_scheme_sep_from(s, i) is None,
    decreases s.len() - i,
{
    if i + 3 <= s.len() {
        assert(!scheme_sep_at(s, i));
        lemma_find_scheme_sep_none(s, i + 1);
    }
}

proof fn lemma_find_delim_hit(s: Seq<u8>, i: int, k: int)
    requires
        0 <= i <= k < s.len(),
        is_delim_byte(s[k]),
        forall|j: int| i <= j < k ==> !is_delim_byte(#[trigger] s[j]),
    ensures
        find_delim_from(s, i) == Option::Some(k),
    decreases k - i,
{
    if i < k {
        lemma_find_delim_hit(s, i + 1, k);
    }
}

fn exec_find_scheme_sep(v: &Vec<u8>) -> (r: Option<usize>)
    ensures
        match r {
            Some(k) => k + 3 <= v@.len() && find_scheme_sep_from(v@, 0) == Option::Some(k as int),
            None => find_scheme_sep_from(v@, 0) is None,
        },
{
    let n: usize = v.len();
    let mut i: usize = 0;
    if n >= 3 {
        while i <= n - 3
            invariant
                n == v@.len(),
                3 <= n,
                i <= n - 2,
                forall|j: int| 0 <= j < i ==> !scheme_sep_at(v@, j),
            decreases n - i,
        {
            if v[i] == 58 && v[i + 1] == 47 && v[i + 2] == 47 {
                proof {
                    lemma_find_scheme_sep_hit(v@, 0, i as int);
                }
                return Some(i);
            }
            i = i + 1;
        }
    }
    proof {
        assert forall|j: int| 0 <= j implies !scheme_sep_at(v@, j) by {
            if 0 <= j < i {
            } else {
                assert(j + 3 > v@.len());
            }
        }
        lemma_find_scheme_sep_none(v@, 0);
    }
    None
}

fn exec_find_delim(v: &Vec<u8>, from: usize) -> (r: Option<usize>)
    requires
        from <= v@.len(),
    ensures
        match r {
            Some(k) => from <= k < v@.len() && find_delim_from(v@, from as int) == Option::Some(
                k as int,
            ),
            None => find_delim_from(v@, from as int) is None,
        },
{
    let n: usize = v.len();
    let mut i: usize = from;
    while i < n
        invariant
            n == v@.len(),
            from <= i,
            forall|j: int| from <= j < i ==> !is_delim_byte(#[trigger] v@[j]),
        decreases n - i,
    {
        let b = v[i];
        if b == 47 || b == 63 || b == 35 {
            proof {
                lemma_find_delim_hit(v@, from as int, i as int);
            }
            return Some(i);
        }
        i = i + 1;
    }
    proof {
        lemma_find_delim_miss(v@, from as int);
    }
    None
}

fn exec_find_byte(v: &Vec<u8>, b: u8, from: usize, to: usize) -> (r: Option<usize>)
    requires
        from <= to <= v@.len(),
    ensures
        match r {
            Some(k) => from <= k < to && v@[k as int] == b && forall|j: int|
                from <= j < k ==> v@[j] != b,
            None => forall|j: int| from <= j < to ==> v@[j] != b,
        },
{
    let mut i: usize = from;
    while i < to
        invariant
            from <= i <= to <= v@.len(),
            forall|j: int| from <= j < i ==> v@[j] != b,
        decreases to - i,
    {
        if v[i] == b {
            return Some(i);
        }
        i = i + 1;
    }
    None
}

fn exec_lower_copy(v: &Vec<u8>, from: usize, to: usize) -> (r: Vec<u8>)
    requires
        from <= to <= v@.len(),
    ensures
        r@ == lower_bytes(v@.subrange(from as int, to as int)),
{
    let mut out: Vec<u8> = Vec::new();
    let mut i: usize = from;
    while i < to
        invariant
            from <= i <= to <= v@.len(),
            out@.len() == i - from,
            forall|k: int| 0 <= k < i - from ==> #[trigger] out@[k] == to_lower_byte(v@[from + k]),
        decreases to - i,
    {
        let b = v[i];
        if b >= 65 && b <= 90 {
            out.push(b + 32);
        } else {
            out.push(b);
        }
        i = i + 1;
    }
    proof {
        assert(out@ =~= lower_bytes(v@.subrange(from as int, to as int)));
    }
    out
}

fn exec_parse_port(v: &Vec<u8>, from: usize, to: usize) -> (r: Option<u16>)
    requires
        from <= to <= v@.len(),
    ensures
        r == spec_parse_port(Option::Some(v@.subrange(from as int, to as int))),
{
    let ghost d = v@.subrange(from as int, to as int);
    if from == to {
        return Some(DEFAULT_PEER_PORT);
    }
    let mut acc: u32 = 0;
    let mut i: usize = from;
    while i < to
        invariant
            from <= i <= to <= v@.len(),
            d == v@.subrange(from as int, to as int),
            acc <= 65535,
            acc == dec_val(d.subrange(0, i - from)),
            all_digits(d.subrange(0, i - from)),
        decreases to - i,
    {
        let b = v[i];
        proof {
            assert(d.subrange(0, i - from + 1).drop_last() =~= d.subrange(0, i - from));
            assert(d.subrange(0, i - from + 1).last() == v@[i as int]);
        }
        if b < 48 || b > 57 {
            proof {
                assert(d[i - from] == v@[i as int]);
                assert(!all_digits(d));
            }
            return None;
        }
        acc = acc * 10 + ((b - 48) as u32);
        if acc > 65535 {
            proof {
                assert(all_digits(d.subrange(0, i - from + 1)));
                if all_digits(d) && dec_val(d) <= 65535 {
                    lemma_dec_val_prefix_le(d, i - from + 1);
                }
            }
            return None;
        }
        i = i + 1;
    }
    proof {
        assert(d.subrange(0, to - from) =~= d);
    }
    Some(acc as u16)
}

fn exec_is_v6_byte(b: u8) -> (r: bool)
    ensures
        r == is_v6_byte(b),
{
    (b >= 48 && b <= 57) || (b >= 97 && b <= 102) || b == 58
}

fn exec_check_ipv6_inner(g: &Vec<u8>) -> (r: bool)
    ensures
        r == valid_ipv6_inner(g@),
{
    let n: usize = g.len();
    if n == 0 {
        return false;
    }
    let mut i: usize = 0;
    while i < n
        invariant
            n == g@.len(),
            i <= n,
            forall|j: int| 0 <= j < i ==> is_v6_byte(#[trigger] g@[j]),
        decreases n - i,
    {
        if !exec_is_v6_byte(g[i]) {
            proof {
                assert(!valid_ipv6_inner(g@)) by {
                    if valid_ipv6_inner(g@) {
                        assert(is_v6_byte(g@[i as int]));
                    }
                }
            }
            return false;
        }
        i = i + 1;
    }
    let mut cc: usize = 0;
    let mut dbl: Option<usize> = None;
    let mut run: usize = 0;
    let mut k: usize = 0;
    while k < n
        invariant
            n == g@.len(),
            k <= n,
            forall|j: int| 0 <= j < n ==> is_v6_byte(#[trigger] g@[j]),
            cc <= k,
            cc == count_colons(g@.subrange(0, k as int)),
            match dbl {
                Some(d) => d + 1 < k && g@[d as int] == 58 && g@[d + 1] == 58 && forall|j: int|
                    0 <= j && j + 1 < k && j != d ==> !(g@[j] == 58 && #[trigger] g@[j + 1] == 58),
                None => forall|j: int|
                    0 <= j && j + 1 < k ==> !(g@[j] == 58 && #[trigger] g@[j + 1] == 58),
            },
            run <= 4,
            run <= k,
            forall|j: int| k - run <= j < k ==> is_lower_hex_byte(#[trigger] g@[j]),
            run == k || !is_lower_hex_byte(g@[k - run - 1]),
            forall|j: int| 0 <= j && j + 5 <= k ==> !hex_run_of_five_at(g@, j),
        decreases n - k,
    {
        let b = g[k];
        proof {
            assert(g@.subrange(0, k + 1).drop_last() =~= g@.subrange(0, k as int));
            assert(g@.subrange(0, k + 1).last() == g@[k as int]);
        }
        if b == 58 {
            cc = cc + 1;
            run = 0;
            if k > 0 && g[k - 1] == 58 {
                match dbl {
                    None => {
                        dbl = Some(k - 1);
                    },
                    Some(d) => {
                        if d != k - 1 {
                            proof {
                                assert(!valid_ipv6_inner(g@)) by {
                                    if valid_ipv6_inner(g@) {
                                        assert(double_colon_at(g@, d as int));
                                        assert(double_colon_at(g@, k - 1));
                                    }
                                }
                            }
                            return false;
                        }
                    },
                }
            }
        } else {
            if run == 4 {
                proof {
                    assert(hex_run_of_five_at(g@, k - 4)) by {
                        assert(is_v6_byte(g@[k as int]));
                        assert(forall|j: int| k - 4 <= j < k ==> is_lower_hex_byte(#[trigger] g@[j]));
                    }
                    assert(!valid_ipv6_inner(g@));
                }
                return false;
            }
            run = run + 1;
        }
        k = k + 1;
    }
    proof {
        assert(g@.subrange(0, n as int) =~= g@);
    }
    if g[0] == 58 {
        if n < 2 || g[1] != 58 {
            proof {
                assert(!double_colon_at(g@, 0));
                assert(!valid_ipv6_inner(g@));
            }
            return false;
        }
    }
    if g[n - 1] == 58 {
        if n < 2 || g[n - 2] != 58 {
            proof {
                assert(!double_colon_at(g@, n - 2));
                assert(!valid_ipv6_inner(g@));
            }
            return false;
        }
    }
    let has_dbl = dbl.is_some();
    proof {
        if has_dbl {
            let d = dbl->0;
            assert(double_colon_at(g@, d as int));
            assert(has_double_colon(g@));
        } else {
            assert(!has_double_colon(g@)) by {
                if has_double_colon(g@) {
                    let j = choose|j: int| double_colon_at(g@, j);
                    assert(g@[j] == 58 && g@[j + 1] == 58);
                }
            }
        }
    }
    if has_dbl {
        let mut bound: usize = 7;
        if g[0] == 58 {
            bound = bound + 1;
        }
        if g[n - 1] == 58 {
            bound = bound + 1;
        }
        proof {
            assert(bound == colon_bound(g@));
        }
        if cc > bound {
            proof {
                assert(!valid_ipv6_inner(g@));
            }
            return false;
        }
    } else {
        if cc != 7 {
            proof {
                assert(!valid_ipv6_inner(g@));
            }
            return false;
        }
    }
    proof {
        assert(valid_ipv6_inner(g@)) by {
            assert forall|x: int, y: int|
                double_colon_at(g@, x) && double_colon_at(g@, y) implies x == y by {
                match dbl {
                    Some(d) => {
                        assert(g@[x] == 58 && g@[x + 1] == 58);
                        assert(g@[y] == 58 && g@[y + 1] == 58);
                    },
                    None => {
                        assert(g@[x] == 58 && g@[x + 1] == 58);
                    },
                }
            }
            assert forall|x: int| !hex_run_of_five_at(g@, x) by {
                if 0 <= x && x + 5 <= n {
                    assert(!hex_run_of_five_at(g@, x));
                }
            }
        }
    }
    true
}

fn exec_check_host(h: &Vec<u8>) -> (r: bool)
    ensures
        r == valid_host(h@),
{
    let n: usize = h.len();
    if n >= 2 && h[0] == 91 && h[n - 1] == 93 {
        let mut inner: Vec<u8> = Vec::new();
        let mut i: usize = 1;
        while i < n - 1
            invariant
                n == h@.len(),
                2 <= n,
                1 <= i <= n - 1,
                inner@.len() == i - 1,
                forall|k: int| 0 <= k < i - 1 ==> #[trigger] inner@[k] == h@[1 + k],
            decreases n - i,
        {
            inner.push(h[i]);
            i = i + 1;
        }
        proof {
            assert(inner@ =~= h@.subrange(1, n - 1));
        }
        exec_check_ipv6_inner(&inner)
    } else {
        if n == 0 {
            return false;
        }
        let mut i: usize = 0;
        while i < n
            invariant
                n == h@.len(),
                1 <= n,
                i <= n,
                n < 2 || h@[0] != 91 || h@[n - 1] != 93,
                forall|j: int| 0 <= j < i ==> is_name_byte(#[trigger] h@[j]),
            decreases n - i,
        {
            let b = h[i];
            let ok = (b >= 48 && b <= 57) || (b >= 97 && b <= 122) || b == 45 || b == 46 || b
                == 95;
            if !ok {
                proof {
                    assert(!is_name_byte(h@[i as int]));
                }
                return false;
            }
            i = i + 1;
        }
        true
    }
}

/// A byte that may stand in a canonical host: a registered-name byte, an
/// IPv6 byte, or a bracket.
pub open spec fn is_canonical_host_byte(b: u8) -> bool {
    is_name_byte(b) || is_v6_byte(b) || b == 91 || b == 93
}

pub proof fn lemma_valid_host_charset(h: Seq<u8>)
    requires
        valid_host(h),
    ensures
        forall|i: int| 0 <= i < h.len() ==> is_canonical_host_byte(#[trigger] h[i]),
{
    if h.len() >= 2 && h[0] == 91 && h[h.len() - 1] == 93 {
        let g = h.subrange(1, h.len() - 1);
        assert forall|i: int| 0 <= i < h.len() implies is_canonical_host_byte(h[i]) by {
            if 1 <= i < h.len() - 1 {
                assert(h[i] == g[i - 1]);
                assert(is_v6_byte(g[i - 1]));
            }
        }
    }
}

fn canonical_byte_str(b: u8) -> (r: &'static str)
    requires
        is_canonical_host_byte(b),
    ensures
        r@.len() == 1,
        r@[0] as u8 == b,
        is_ascii_chars(r@),
{
    match b {
        45 => {
            proof {
                reveal_strlit("-");
            }
            "-"
        },
        46 => {
            proof {
                reveal_strlit(".");
            }
            "."
        },
        48 => {
            proof {
                reveal_strlit("0");
            }
            "0"
        },
        49 => {
            proof {
                reveal_strlit("1");
            }
            "1"
        },
        50 => {
            proof {
                reveal_strlit("2");
            }
            "2"
        },
        51 => {
            proof {
                reveal_strlit("3");
            }
            "3"
        },
        52 => {
            proof {
                reveal_strlit("4");
            }
            "4"
        },
        53 => {
            proof {
                reveal_strlit("5");
            }
            "5"
        },
        54 => {
            proof {
                reveal_strlit("6");
            }
            "6"
        },
        55 => {
            proof {
                reveal_strlit("7");
            }
            "7"
        },
        56 => {
            proof {
                reveal_strlit("8");
            }
            "8"
        },
        57 => {
            proof {
                reveal_strlit("9");
            }
            "9"
        },
        58 => {
            proof {
                reveal_strlit(":");
            }
            ":"
        },
        91 => {
            proof {
                reveal_strlit("[");
            }
            "["
        },
        93 => {
            proof {
                reveal_strlit("]");
            }
            "]"
        },
        95 => {
            proof {
                reveal_strlit("_");
            }
            "_"
        },
        97 => {
            proof {
                reveal_strlit("a");
            }
            "a"
        },
        98 => {
            proof {
                reveal_strlit("b");
            }
            "b"
        },
        99 => {
            proof {
                reveal_strlit("c");
            }
            "c"
        },
        100 => {
            proof {
                reveal_strlit("d");
            }
            "d"
        },
        101 => {
            proof {
                reveal_strlit("e");
            }
            "e"
        },
        102 => {
            proof {
                reveal_strlit("f");
            }
            "f"
        },
        103 => {
            proof {
                reveal_strlit("g");
            }
            "g"
        },
        104 => {
            proof {
                reveal_strlit("h");
            }
            "h"
        },
        105 => {
            proof {
                reveal_strlit("i");
            }
            "i"
        },
        106 => {
            proof {
                reveal_strlit("j");
            }
            "j"
        },
        107 => {
            proof {
                reveal_strlit("k");
            }
            "k"
        },
        108 => {
            proof {
                reveal_strlit("l");
            }
            "l"
        },
        109 => {
            proof {
                reveal_strlit("m");
            }
            "m"
        },
        110 => {
            proof {
                reveal_strlit("n");
            }
            "n"
        },
        111 => {
            proof {
                reveal_strlit("o");
            }
            "o"
        },
        112 => {
            proof {
                reveal_strlit("p");
            }
            "p"
        },
        113 => {
            proof {
                reveal_strlit("q");
            }
            "q"
        },
        114 => {
            proof {
                reveal_strlit("r");
            }
            "r"
        },
        115 => {
            proof {
                reveal_strlit("s");
            }
            "s"
        },
        116 => {
            proof {
                reveal_strlit("t");
            }
            "t"
        },
        117 => {
            proof {
                reveal_strlit("u");
            }
            "u"
        },
        118 => {
            proof {
                reveal_strlit("v");
            }
            "v"
        },
        119 => {
            proof {
                reveal_strlit("w");
            }
            "w"
        },
        120 => {
            proof {
                reveal_strlit("x");
            }
            "x"
        },
        121 => {
            proof {
                reveal_strlit("y");
            }
            "y"
        },
        122 => {
            proof {
                reveal_strlit("z");
            }
            "z"
        },
        _ => {
            proof {
                reveal_strlit("-");
            }
            "-"
        },
    }
}

proof fn lemma_ascii_bytes_concat(a: Seq<char>, b: Seq<char>)
    ensures
        ascii_bytes(a + b) =~= ascii_bytes(a) + ascii_bytes(b),
{
}

fn host_bytes_to_string(v: &Vec<u8>) -> (r: String)
    requires
        forall|i: int| 0 <= i < v@.len() ==> is_canonical_host_byte(#[trigger] v@[i]),
    ensures
        is_ascii_chars(r@),
        ascii_bytes(r@) == v@,
        r@.len() == v@.len(),
{
    let mut out = String::new();
    let n: usize = v.len();
    let mut i: usize = 0;
    while i < n
        invariant
            n == v@.len(),
            i <= n,
            forall|j: int| 0 <= j < v@.len() ==> is_canonical_host_byte(#[trigger] v@[j]),
            out@.len() == i,
            is_ascii_chars(out@),
            forall|k: int| 0 <= k < i ==> #[trigger] out@[k] as u8 == v@[k],
        decreases n - i,
    {
        let piece = canonical_byte_str(v[i]);
        vstd::string::StringExecFns::append(&mut out, piece);
        i = i + 1;
    }
    proof {
        assert(ascii_bytes(out@) =~= v@);
    }
    out
}

/// Appends the decimal digits of `n`, most significant first.
fn append_dec(n: u16, out: &mut String)
    ensures
        final(out)@.len() > old(out)@.len(),
        is_ascii_chars(old(out)@) ==> is_ascii_chars(final(out)@),
        ascii_bytes(final(out)@) == ascii_bytes(old(out)@) + dec_bytes(n as int),
    decreases n,
{
    proof {
        lemma_dec_bytes_digits(n as int);
    }
    if n >= 10 {
        append_dec(n / 10, out);
    }
    let d: u8 = 48 + (n % 10) as u8;
    let piece = canonical_byte_str(d);
    let ghost before = out@;
    vstd::string::StringExecFns::append(out, piece);
    proof {
        lemma_ascii_bytes_concat(before, piece@);
        assert(ascii_bytes(piece@) =~= seq![d]);
        if n >= 10 {
            assert(dec_bytes(n as int) == dec_bytes(n as int / 10).push(d));
            assert(ascii_bytes(final(out)@) =~= ascii_bytes(old(out)@) + dec_bytes(n as int));
        } else {
            assert(dec_bytes(n as int) =~= seq![d]);
            assert(ascii_bytes(final(out)@) =~= ascii_bytes(old(out)@) + dec_bytes(n as int));
        }
    }
}

fn exec_copy_range(v: &Vec<u8>, from: usize, to: usize) -> (r: Vec<u8>)
    requires
        from <= to <= v@.len(),
    ensures
        r@ == v@.subrange(from as int, to as int),
{
    let mut out: Vec<u8> = Vec::new();
    let mut i: usize = from;
    while i < to
        invariant
            from <= i <= to <= v@.len(),
            out@.len() == i - from,
            forall|k: int| 0 <= k < i - from ==> #[trigger] out@[k] == v@[from + k],
        decreases to - i,
    {
        out.push(v[i]);
        i = i + 1;
    }
    proof {
        assert(out@ =~= v@.subrange(from as int, to as int));
    }
    out
}

/// The input was not a well-formed peer address.
#[derive(Clone, Copy, Debug, PartialEq, Eq, Structural)]
pub struct PeerAddressParseError;

/// A canonical peer address: a lowercased host and a port, compared and
/// formatted as `host:port`.
#[derive(Debug)]
pub struct PeerAddress {
    pub host: String,
    pub port: u16,
}

impl PeerAddress {
    /// The canonical host as bytes.
    pub open spec fn host_bytes(&self) -> Seq<u8> {
        ascii_bytes(self.host@)
    }

    /// The comparison key: two addresses are the same peer exactly when
    /// their canonical hosts and ports agree.
    pub open spec fn key(&self) -> (Seq<char>, u16) {
        (self.host@, self.port)
    }

    /// Well-formed: the host is ASCII and a valid canonical host.
    pub open spec fn wf(&self) -> bool {
        is_ascii_chars(self.host@) && valid_host(self.host_bytes())
    }

    /// The canonical `host:port` form as bytes.
    pub open spec fn canonical_bytes(&self) -> Seq<u8> {
        canonical_addr_bytes(self.host_bytes(), self.port)
    }

    /// Parses a URL-ish string into a canonical peer address: any scheme is
    /// stripped, the host is lowercased, and a missing port defaults to
    /// 8123. Fails exactly when `spec_parse_addr` rejects the input.
    pub fn parse(s: &str) -> (r: Result<PeerAddress, PeerAddressParseError>)
        ensures
            match r {
                Ok(pa) => {
                    &&& is_ascii_chars(s@)
                    &&& spec_parse_addr(ascii_bytes(s@)) == Option::Some(
                        (pa.host_bytes(), pa.port),
                    )
                    &&& pa.wf()
                },
                Err(_) => !is_ascii_chars(s@) || spec_parse_addr(ascii_bytes(s@)) is None,
            },
    {
        if !s.is_ascii() {
            return Err(PeerAddressParseError);
        }
        let bytes: Vec<u8> = vstd::string::StrSliceExecFns::as_bytes_vec(s);
        proof {
            broadcast use vstd::string::is_ascii_spec_bytes;

            assert(bytes@ =~= ascii_bytes(s@));
        }
        let ghost sb = ascii_bytes(s@);
        let n: usize = bytes.len();
        let start: usize = match exec_find_scheme_sep(&bytes) {
            Some(i) => i + 3,
            None => 0,
        };
        let end: usize = match exec_find_delim(&bytes, start) {
            Some(j) => j,
            None => n,
        };
        let a = exec_copy_range(&bytes, start, end);
        proof {
            assert(a@ == spec_authority(sb));
        }
        if end == start {
            proof {
                assert(a@.len() == 0);
            }
            return Err(PeerAddressParseError);
        }
        let alen: usize = a.len();
        let mut h_to: usize = 0;
        let mut has_port: bool = false;
        let mut p_from: usize = 0;
        if a[0] == 91 {
            match exec_find_byte(&a, 93, 0, alen) {
                None => {
                    proof {
                        lemma_find_byte_miss(a@, 93, 0);
                    }
                    return Err(PeerAddressParseError);
                },
                Some(j) => {
                    proof {
                        lemma_find_byte_hit(a@, 93, 0, j as int);
                    }
                    h_to = j + 1;
                    if j + 1 == alen {
                        has_port = false;
                    } else if a[j + 1] == 58 {
                        has_port = true;
                        p_from = j + 2;
                    } else {
                        return Err(PeerAddressParseError);
                    }
                },
            }
        } else {
            match exec_find_byte(&a, 58, 0, alen) {
                None => {
                    proof {
                        lemma_find_byte_miss(a@, 58, 0);
                    }
                    h_to = alen;
                    has_port = false;
                },
                Some(j) => {
                    proof {
                        lemma_find_byte_hit(a@, 58, 0, j as int);
                    }
                    h_to = j;
                    has_port = true;
                    p_from = j + 1;
                },
            }
        }
        let ghost pp: Option<Seq<u8>> = if has_port {
            Option::Some(a@.subrange(p_from as int, alen as int))
        } else {
            Option::None
        };
        proof {
            assert(spec_split_authority(a@) == Option::Some(
                (a@.subrange(0, h_to as int), pp),
            ));
        }
        let hv = exec_lower_copy(&a, 0, h_to);
        if !exec_check_host(&hv) {
            return Err(PeerAddressParseError);
        }
        let port: u16 = if has_port {
            match exec_parse_port(&a, p_from, alen) {
                Some(p) => p,
                None => {
                    return Err(PeerAddressParseError);
                },
            }
        } else {
            DEFAULT_PEER_PORT
        };
        proof {
            assert(spec_parse_port(pp) == Option::Some(port));
            lemma_valid_host_charset(hv@);
        }
        let host = host_bytes_to_string(&hv);
        let pa = PeerAddress { host, port };
        proof {
            assert(pa.host_bytes() == hv@);
            assert(spec_parse_addr(sb) == Option::Some((pa.host_bytes(), pa.port)));
        }
        Ok(pa)
    }

    /// The canonical `host:port` string.
    pub fn to_address_string(&self) -> (r: String)
        requires
            self.wf(),
        ensures
            is_ascii_chars(r@),
            ascii_bytes(r@) == self.canonical_bytes(),
    {
        let mut out = self.host.clone();
        proof {
            reveal_strlit(":");
        }
        let ghost before_colon = out@;
        vstd::string::StringExecFns::append(&mut out, ":");
        proof {
            lemma_ascii_bytes_concat(before_colon, ":"@);
            assert(ascii_bytes(":"@) =~= seq![58u8]);
            assert(is_ascii_chars(out@)) by {
                assert(forall|i: int|
                    0 <= i < self.host@.len() ==> out@[i] == self.host@[i]);
                assert(out@[self.host@.len() as int] == ':');
            }
        }
        append_dec(self.port, &mut out);
        proof {
            assert(ascii_bytes(out@) =~= canonical_addr_bytes(self.host_bytes(), self.port));
        }
        out
    }

    /// The outbound request URL: the canonical address behind `http://`.
    pub fn to_request_url(&self) -> (r: String)
        requires
            self.wf(),
        ensures
            is_ascii_chars(r@),
            ascii_bytes(r@) == seq![104u8, 116u8, 116u8, 112u8, 58u8, 47u8, 47u8]
                + self.canonical_bytes(),
    {
        proof {
            reveal_strlit("http://");
        }
        let mut out = "http://".to_owned();
        let addr = self.to_address_string();
        let ghost before = out@;
        vstd::string::StringExecFns::append(&mut out, addr.as_str());
        proof {
            lemma_ascii_bytes_concat(before, addr@);
            assert(ascii_bytes("http://"@) =~= seq![104u8, 116u8, 116u8, 112u8, 58u8, 47u8, 47u8]);
            assert(ascii_bytes(out@) =~= seq![104u8, 116u8, 116u8, 112u8, 58u8, 47u8, 47u8]
                + self.canonical_bytes());
            assert(is_ascii_chars(out@)) by {
                assert(forall|i: int| 0 <= i < before.len() ==> out@[i] == before[i]);
                assert(forall|i: int|
                    0 <= i < addr@.len() ==> out@[before.len() + i] == addr@[i]);
            }
        }
        out
    }
}

impl Clone for PeerAddress {
    /// Clones keep the host and port unchanged.
    fn clone(&self) -> (r: Self)
        ensures
            r == *self,
    {
        PeerAddress { host: self.host.clone(), port: self.port }
    }
}

impl PartialEq for PeerAddress {
    fn eq(&self, other: &Self) -> (r: bool) {
        self.host == other.host && self.port == other.port
    }
}

impl vstd::std_specs::cmp::PartialEqSpecImpl for PeerAddress {
    open spec fn obeys_eq_spec() -> bool {
        true
    }

    open spec fn eq_spec(&self, other: &Self) -> bool {
        self.host@ == other.host@ && self.port == other.port
    }
}

impl core::str::FromStr for PeerAddress {
    type Err = PeerAddressParseError;

    fn from_str(s: &str) -> Result<PeerAddress, PeerAddressParseError> {
        PeerAddress::parse(s)
    }
}

} // verus!
