use vstd::prelude::*;
use vstd::string::StrSliceExecFns;

verus! {

/// An IP address as a structural value: a 32-bit v4 address or a
/// 128-bit v6 address. Equality is byte-level; a v4 address embedded
/// in a v6 literal yields a distinct key from its bare v4 counterpart.
#[derive(Clone, Copy, PartialEq, Eq, Hash, Debug, Structural)]
pub enum IpAddress {
    V4(u32),
    V6(u128),
}

pub open spec fn is_dec_digit(c: char) -> bool {
    48 <= c as u32 <= 57
}

pub open spec fn dec_val(c: char) -> nat {
    (c as u32 - 48) as nat
}

pub open spec fn is_hex_digit(c: char) -> bool {
    is_dec_digit(c) || 97 <= c as u32 <= 102 || 65 <= c as u32 <= 70
}

pub open spec fn hex_val(c: char) -> nat {
    if is_dec_digit(c) {
        dec_val(c)
    } else if 97 <= c as u32 <= 102 {
        (c as u32 - 87) as nat
    } else {
        (c as u32 - 55) as nat
    }
}

pub open spec fn all_dec_digits(s: Seq<char>) -> bool {
    forall|i: int| 0 <= i < s.len() ==> is_dec_digit(#[trigger] s[i])
}

pub open spec fn all_hex_digits(s: Seq<char>) -> bool {
    forall|i: int| 0 <= i < s.len() ==> is_hex_digit(#[trigger] s[i])
}

/// The value of a decimal digit string, most significant digit first.
pub open spec fn dec_string_val(s: Seq<char>) -> nat
    decreases s.len(),
{
    if s.len() == 0 {
        0
    } else {
        dec_string_val(s.drop_last()) * 10 + dec_val(s.last())
    }
}

/// The value of a hexadecimal digit string, most significant digit first.
pub open spec fn hex_string_val(s: Seq<char>) -> nat
    decreases s.len(),
{
    if s.len() == 0 {
        0
    } else {
        hex_string_val(s.drop_last()) * 16 + hex_val(s.last())
    }
}

/// A v4 octet: one to three decimal digits, no leading zero, value at
/// most 255.
pub open spec fn is_ipv4_octet(s: Seq<char>) -> bool {
    &&& 1 <= s.len() <= 3
    &&& all_dec_digits(s)
    &&& (s.len() > 1 ==> s[0] != '0')
    &&& dec_string_val(s) <= 255
}

/// A v6 group: one to four hexadecimal digits; leading zeros allowed.
pub open spec fn is_hex_group(s: Seq<char>) -> bool {
    1 <= s.len() <= 4 && all_hex_digits(s)
}

/// Splits a character sequence on a separator; n separators yield n + 1
/// chunks, so the result is never empty.
pub open spec fn split_on(s: Seq<char>, sep: char) -> Seq<Seq<char>>
    decreases s.len(),
{
    if s.len() == 0 {
        seq![Seq::<char>::empty()]
    } else if s[0] == sep {
        seq![Seq::<char>::empty()] + split_on(s.drop_first(), sep)
    } else {
        let rest = split_on(s.drop_first(), sep);
        rest.update(0, seq![s[0]] + rest[0])
    }
}

pub proof fn lemma_split_on_len(s: Seq<char>, sep: char)
    ensures
        split_on(s, sep).len() >= 1,
    decreases s.len(),
{
    if s.len() == 0 {
    } else {
        lemma_split_on_len(s.drop_first(), sep);
    }
}

/// A sequence without the separator splits into itself alone.
pub proof fn lemma_split_on_no_sep(s: Seq<char>, sep: char)
    requires
        !s.contains(sep),
    ensures
        split_on(s, sep) == seq![s],
    decreases s.len(),
{
    if s.len() == 0 {
        assert(split_on(s, sep) =~~= seq![s]);
    } else {
        assert(s[0] != sep);
        assert(!s.drop_first().contains(sep)) by {
            if s.drop_first().contains(sep) {
                let i = choose|i: int|
                    0 <= i < s.drop_first().len() && s.drop_first()[i] == sep;
                assert(s[i + 1] == sep);
            }
        }
        lemma_split_on_no_sep(s.drop_first(), sep);
        lemma_split_on_len(s.drop_first(), sep);
        assert(seq![s[0]] + s.drop_first() =~= s);
        assert(split_on(s, sep) =~~= seq![s]);
    }
}

/// Splitting at the first separator peels off the chunk before it.
pub proof fn lemma_split_on_sep(a: Seq<char>, sep: char, b: Seq<char>)
    requires
        !a.contains(sep),
    ensures
        split_on(a + seq![sep] + b, sep) == seq![a] + split_on(b, sep),
    decreases a.len(),
{
    let s = a + seq![sep] + b;
    if a.len() == 0 {
        assert(s =~= seq![sep] + b);
        assert(s[0] == sep);
        assert(s.drop_first() =~= b);
        assert(split_on(s, sep) =~~= seq![a] + split_on(b, sep));
    } else {
        assert(s[0] == a[0]);
        assert(a[0] != sep);
        assert(!a.drop_first().contains(sep)) by {
            if a.drop_first().contains(sep) {
                let i = choose|i: int|
                    0 <= i < a.drop_first().len() && a.drop_first()[i] == sep;
                assert(a[i + 1] == sep);
            }
        }
        assert(s.drop_first() =~= a.drop_first() + seq![sep] + b);
        lemma_split_on_sep(a.drop_first(), sep, b);
        lemma_split_on_len(b, sep);
        let rest = split_on(s.drop_first(), sep);
        assert(rest == seq![a.drop_first()] + split_on(b, sep));
        assert(rest[0] == a.drop_first());
        assert(seq![s[0]] + a.drop_first() =~= a);
        assert(split_on(s, sep) =~~= seq![a] + split_on(b, sep));
    }
}

/// The 32-bit value of four octet chunks.
pub open spec fn ipv4_value(parts: Seq<Seq<char>>) -> nat
    recommends
        parts.len() == 4,
{
    dec_string_val(parts[0]) * 0x1000000 + dec_string_val(parts[1]) * 0x10000 + dec_string_val(
        parts[2],
    ) * 0x100 + dec_string_val(parts[3])
}

/// A v4 literal: exactly four octets separated by dots.
pub open spec fn spec_parse_ipv4(s: Seq<char>) -> Option<u32> {
    let parts = split_on(s, '.');
    if parts.len() == 4 && (forall|i: int| 0 <= i < 4 ==> is_ipv4_octet(#[trigger] parts[i])) {
        Some(ipv4_value(parts) as u32)
    } else {
        None
    }
}

pub open spec fn all_hex_groups(parts: Seq<Seq<char>>) -> bool {
    forall|i: int| 0 <= i < parts.len() ==> is_hex_group(#[trigger] parts[i])
}

pub open spec fn hex_group_vals(parts: Seq<Seq<char>>) -> Seq<nat> {
    parts.map_values(|p: Seq<char>| hex_string_val(p))
}

/// The group values a run of colon-separated chunks denotes: hex groups
/// throughout, or, where a trailing embedded v4 literal is allowed, hex
/// groups followed by one v4 literal that contributes two groups.
pub open spec fn spec_group_seq(parts: Seq<Seq<char>>, allow_v4: bool) -> Option<Seq<nat>> {
    if all_hex_groups(parts) {
        Some(hex_group_vals(parts))
    } else if allow_v4 && parts.len() >= 1 && all_hex_groups(parts.drop_last())
        && spec_parse_ipv4(parts.last()) is Some {
        let v = spec_parse_ipv4(parts.last()).unwrap() as nat;
        Some(hex_group_vals(parts.drop_last()) + seq![v / 0x10000, v % 0x10000])
    } else {
        None
    }
}

/// The position of the first `"::"`, if any.
pub open spec fn find_double_colon(s: Seq<char>) -> Option<int>
    decreases s.len(),
{
    if s.len() < 2 {
        None
    } else if s[0] == ':' && s[1] == ':' {
        Some(0)
    } else {
        match find_double_colon(s.drop_first()) {
            Some(i) => Some(i + 1),
            None => None,
        }
    }
}

/// `find_double_colon` yields the first adjacent pair of colons, and
/// `None` exactly when there is none.
pub proof fn lemma_find_double_colon_props(s: Seq<char>)
    ensures
        match find_double_colon(s) {
            Some(i) => 0 <= i && i + 1 < s.len() && s[i] == ':' && s[i + 1] == ':' && forall|
                j: int,
            |
                0 <= j < i ==> !(#[trigger] s[j] == ':' && s[j + 1] == ':'),
            None => forall|j: int|
                0 <= j && j + 1 < s.len() ==> !(#[trigger] s[j] == ':' && s[j + 1] == ':'),
        },
    decreases s.len(),
{
    if s.len() < 2 {
    } else if s[0] == ':' && s[1] == ':' {
    } else {
        lemma_find_double_colon_props(s.drop_first());
        match find_double_colon(s.drop_first()) {
            Some(i) => {
                assert(s[i + 1] == s.drop_first()[i]);
                assert(s[i + 2] == s.drop_first()[i + 1]);
                assert forall|j: int| 0 <= j < i + 1 implies !(#[trigger] s[j] == ':' && s[j + 1]
                    == ':') by {
                    if j > 0 {
                        assert(s[j] == s.drop_first()[j - 1]);
                        assert(s[j + 1] == s.drop_first()[j]);
                    }
                }
            },
            None => {
                assert forall|j: int| 0 <= j && j + 1 < s.len() implies !(#[trigger] s[j] == ':'
                    && s[j + 1] == ':') by {
                    if j > 0 {
                        assert(s[j] == s.drop_first()[j - 1]);
                        assert(s[j + 1] == s.drop_first()[j]);
                    }
                }
            },
        }
    }
}

/// The 128-bit value of eight 16-bit groups.
pub open spec fn v6_value(gs: Seq<nat>) -> nat
    recommends
        gs.len() == 8,
{
    gs[0] * 0x10000000000000000000000000000 + gs[1] * 0x1000000000000000000000000 + gs[2]
        * 0x100000000000000000000 + gs[3] * 0x10000000000000000 + gs[4] * 0x1000000000000 + gs[5]
        * 0x100000000 + gs[6] * 0x10000 + gs[7]
}

pub open spec fn zero_groups(n: nat) -> Seq<nat> {
    Seq::new(n, |i: int| 0nat)
}

/// A v6 literal: without `"::"`, colon-separated chunks denoting exactly
/// eight groups; with one `"::"`, a head of hex groups and a tail of
/// groups (possibly ending in an embedded v4 literal) denoting at most
/// seven groups in all, zeros standing in between.
pub open spec fn spec_parse_ipv6(s: Seq<char>) -> Option<u128> {
    match find_double_colon(s) {
        None => match spec_group_seq(split_on(s, ':'), true) {
            Some(gs) => if gs.len() == 8 {
                Some(v6_value(gs) as u128)
            } else {
                None
            },
            None => None,
        },
        Some(i) => {
            let head = s.subrange(0, i);
            let tail = s.subrange(i + 2, s.len() as int);
            let hg = if head.len() == 0 {
                Some(Seq::<nat>::empty())
            } else {
                spec_group_seq(split_on(head, ':'), false)
            };
            let tg = if tail.len() == 0 {
                Some(Seq::<nat>::empty())
            } else {
                spec_group_seq(split_on(tail, ':'), true)
            };
            match (hg, tg) {
                (Some(h), Some(t)) => if h.len() + t.len() <= 7 {
                    Some(v6_value(h + zero_groups((8 - h.len() - t.len()) as nat) + t) as u128)
                } else {
                    None
                },
                _ => None,
            }
        },
    }
}

pub proof fn lemma_dec_string_val_bound(s: Seq<char>)
    requires
        all_dec_digits(s),
    ensures
        s.len() <= 1 ==> dec_string_val(s) <= 9,
        s.len() <= 2 ==> dec_string_val(s) <= 99,
        s.len() <= 3 ==> dec_string_val(s) <= 999,
    decreases s.len(),
{
    if s.len() > 0 {
        assert(forall|i: int|
            0 <= i < s.drop_last().len() ==> is_dec_digit(#[trigger] s.drop_last()[i]));
        lemma_dec_string_val_bound(s.drop_last());
        assert(is_dec_digit(s.last()));
    }
}

pub proof fn lemma_hex_string_val_bound(s: Seq<char>)
    requires
        all_hex_digits(s),
    ensures
        s.len() <= 1 ==> hex_string_val(s) <= 0xf,
        s.len() <= 2 ==> hex_string_val(s) <= 0xff,
        s.len() <= 3 ==> hex_string_val(s) <= 0xfff,
        s.len() <= 4 ==> hex_string_val(s) <= 0xffff,
    decreases s.len(),
{
    if s.len() > 0 {
        assert(forall|i: int|
            0 <= i < s.drop_last().len() ==> is_hex_digit(#[trigger] s.drop_last()[i]));
        lemma_hex_string_val_bound(s.drop_last());
        assert(is_hex_digit(s.last()));
        assert(hex_val(s.last()) <= 15);
    }
}

proof fn lemma_dec_take_step(s: Seq<char>, i: int)
    requires
        0 <= i < s.len(),
    ensures
        dec_string_val(s.take(i + 1)) == dec_string_val(s.take(i)) * 10 + dec_val(s[i]),
{
    assert(s.take(i + 1).drop_last() =~= s.take(i));
    assert(s.take(i + 1).last() == s[i]);
}

proof fn lemma_hex_take_step(s: Seq<char>, i: int)
    requires
        0 <= i < s.len(),
    ensures
        hex_string_val(s.take(i + 1)) == hex_string_val(s.take(i)) * 16 + hex_val(s[i]),
{
    assert(s.take(i + 1).drop_last() =~= s.take(i));
    assert(s.take(i + 1).last() == s[i]);
}

/// Parses one v4 octet chunk.
fn parse_octet(p: &str) -> (r: Option<u8>)
    ensures
        match r {
            Some(v) => is_ipv4_octet(p@) && v as nat == dec_string_val(p@),
            None => !is_ipv4_octet(p@),
        },
{
    let n = p.unicode_len();
    if n < 1 || n > 3 {
        return None;
    }
    if n > 1 && p.get_char(0) == '0' {
        return None;
    }
    let mut val: u32 = 0;
    let mut i: usize = 0;
    while i < n
        invariant
            i <= n,
            n == p@.len(),
            1 <= n <= 3,
            forall|k: int| 0 <= k < i ==> is_dec_digit(#[trigger] p@[k]),
            val as nat == dec_string_val(p@.take(i as int)),
        decreases n - i,
    {
        let c = p.get_char(i);
        let u = c as u32;
        if u < 48 || u > 57 {
            proof {
                assert(!is_dec_digit(p@[i as int]));
            }
            return None;
        }
        proof {
            assert(is_dec_digit(p@[i as int]));
            assert(forall|k: int|
                0 <= k < p@.take(i as int).len() ==> is_dec_digit(#[trigger] p@.take(i as int)[k]));
            lemma_dec_string_val_bound(p@.take(i as int));
            lemma_dec_take_step(p@, i as int);
        }
        val = val * 10 + (u - 48);
        i += 1;
    }
    proof {
        assert(p@.take(n as int) =~= p@);
        assert(all_dec_digits(p@));
    }
    if val > 255 {
        None
    } else {
        Some(val as u8)
    }
}

/// Parses one v6 hex group chunk.
fn parse_hex_group(p: &str) -> (r: Option<u16>)
    ensures
        match r {
            Some(v) => is_hex_group(p@) && v as nat == hex_string_val(p@),
            None => !is_hex_group(p@),
        },
{
    let n = p.unicode_len();
    if n < 1 || n > 4 {
        return None;
    }
    let mut val: u32 = 0;
    let mut i: usize = 0;
    while i < n
        invariant
            i <= n,
            n == p@.len(),
            1 <= n <= 4,
            forall|k: int| 0 <= k < i ==> is_hex_digit(#[trigger] p@[k]),
            val as nat == hex_string_val(p@.take(i as int)),
        decreases n - i,
    {
        let c = p.get_char(i);
        let u = c as u32;
        let d: u32 = if 48 <= u && u <= 57 {
            u - 48
        } else if 97 <= u && u <= 102 {
            u - 87
        } else if 65 <= u && u <= 70 {
            u - 55
        } else {
            proof {
                assert(!is_hex_digit(p@[i as int]));
            }
            return None;
        };
        proof {
            assert(is_hex_digit(p@[i as int]));
            assert(d == hex_val(p@[i as int]));
            assert(forall|k: int|
                0 <= k < p@.take(i as int).len() ==> is_hex_digit(#[trigger] p@.take(i as int)[k]));
            lemma_hex_string_val_bound(p@.take(i as int));
            lemma_hex_take_step(p@, i as int);
        }
        val = val * 16 + d;
        i += 1;
    }
    proof {
        assert(p@.take(n as int) =~= p@);
        assert(all_hex_digits(p@));
        lemma_hex_string_val_bound(p@);
    }
    Some(val as u16)
}

/// The views of a vector of string slices.
pub open spec fn views_of(parts: Seq<&str>) -> Seq<Seq<char>> {
    parts.map_values(|p: &str| p@)
}

/// Splits a string slice on a separator character, matching `split_on`.
fn split_str<'a>(s: &'a str, sep: char) -> (parts: Vec<&'a str>)
    ensures
        views_of(parts@) == split_on(s@, sep),
{
    let n = s.unicode_len();
    let mut parts: Vec<&'a str> = Vec::new();
    proof {
        assert(s@.skip(0) =~= s@);
        assert(views_of(parts@) + split_on(s@, sep) =~~= split_on(s@, sep));
    }
    let mut start: usize = 0;
    let mut i: usize = 0;
    while i < n
        invariant
            start <= i <= n,
            n == s@.len(),
            forall|k: int| start <= k < i ==> s@[k] != sep,
            split_on(s@, sep) == views_of(parts@) + split_on(s@.skip(start as int), sep),
        decreases n - i,
    {
        let c = s.get_char(i);
        if c == sep {
            let piece = s.substring_char(start, i);
            proof {
                let a = s@.subrange(start as int, i as int);
                assert(!a.contains(sep)) by {
                    if a.contains(sep) {
                        let k = choose|k: int| 0 <= k < a.len() && a[k] == sep;
                        assert(s@[start + k] == sep);
                    }
                }
                assert(s@.skip(start as int) =~= a + seq![sep] + s@.skip(i + 1 as int));
                lemma_split_on_sep(a, sep, s@.skip(i + 1 as int));
                assert(views_of(parts@.push(piece)) =~~= views_of(parts@) + seq![a]);
                assert((views_of(parts@) + seq![a]) + split_on(s@.skip(i + 1 as int), sep)
                    =~~= views_of(parts@) + (seq![a] + split_on(s@.skip(i + 1 as int), sep)));
            }
            parts.push(piece);
            start = i + 1;
        }
        i += 1;
    }
    let piece = s.substring_char(start, n);
    proof {
        let a = s@.subrange(start as int, n as int);
        assert(a =~= s@.skip(start as int));
        assert(!a.contains(sep)) by {
            if a.contains(sep) {
                let k = choose|k: int| 0 <= k < a.len() && a[k] == sep;
                assert(s@[start + k] == sep);
            }
        }
        lemma_split_on_no_sep(a, sep);
        assert(views_of(parts@.push(piece)) =~~= views_of(parts@) + seq![a]);
    }
    parts.push(piece);
    parts
}

/// Parses a v4 literal.
pub fn parse_ipv4(s: &str) -> (r: Option<u32>)
    ensures
        r == spec_parse_ipv4(s@),
{
    let parts = split_str(s, '.');
    let ghost sp = split_on(s@, '.');
    proof {
        assert(views_of(parts@).len() == parts@.len());
        assert(forall|i: int| 0 <= i < parts@.len() ==> views_of(parts@)[i] == parts@[i]@);
    }
    if parts.len() != 4 {
        return None;
    }
    let o0 = match parse_octet(parts[0]) {
        Some(v) => v,
        None => {
            proof {
                assert(!is_ipv4_octet(sp[0]));
            }
            return None;
        },
    };
    let o1 = match parse_octet(parts[1]) {
        Some(v) => v,
        None => {
            proof {
                assert(!is_ipv4_octet(sp[1]));
            }
            return None;
        },
    };
    let o2 = match parse_octet(parts[2]) {
        Some(v) => v,
        None => {
            proof {
                assert(!is_ipv4_octet(sp[2]));
            }
            return None;
        },
    };
    let o3 = match parse_octet(parts[3]) {
        Some(v) => v,
        None => {
            proof {
                assert(!is_ipv4_octet(sp[3]));
            }
            return None;
        },
    };
    let v: u32 = (o0 as u32) * 0x1000000 + (o1 as u32) * 0x10000 + (o2 as u32) * 0x100 + (
    o3 as u32);
    proof {
        assert(forall|i: int| 0 <= i < 4 ==> is_ipv4_octet(#[trigger] sp[i])) by {
            assert(is_ipv4_octet(sp[0]));
            assert(is_ipv4_octet(sp[1]));
            assert(is_ipv4_octet(sp[2]));
            assert(is_ipv4_octet(sp[3]));
        }
        assert(v as nat == ipv4_value(sp));
    }
    Some(v)
}

/// Parses a run of colon-separated chunks into group values; where
/// `allow_v4` holds, the last chunk may be an embedded v4 literal.
fn parse_group_seq(parts: &Vec<&str>, allow_v4: bool) -> (r: Option<Vec<u16>>)
    ensures
        match r {
            Some(gs) => spec_group_seq(views_of(parts@), allow_v4) == Some(
                gs@.map_values(|g: u16| g as nat),
            ),
            None => spec_group_seq(views_of(parts@), allow_v4) is None,
        },
{
    let ghost vs = views_of(parts@);
    proof {
        assert(vs.len() == parts@.len());
        assert(forall|i: int| 0 <= i < parts@.len() ==> vs[i] == parts@[i]@);
    }
    let n = parts.len();
    let mut gs: Vec<u16> = Vec::new();
    if n == 0 {
        proof {
            assert(all_hex_groups(vs));
            assert(gs@.map_values(|g: u16| g as nat) =~= hex_group_vals(vs));
        }
        return Some(gs);
    }
    let mut i: usize = 0;
    while i + 1 < n
        invariant
            i < n,
            n == parts@.len(),
            vs == views_of(parts@),
            vs.len() == n,
            forall|k: int| 0 <= k < parts@.len() ==> vs[k] == parts@[k]@,
            forall|k: int| 0 <= k < i ==> is_hex_group(#[trigger] vs[k]),
            gs@.len() == i,
            forall|k: int| 0 <= k < i ==> gs@[k] as nat == hex_string_val(#[trigger] vs[k]),
        decreases n - i,
    {
        match parse_hex_group(parts[i]) {
            Some(g) => {
                let ghost prev = gs@;
                gs.push(g);
                proof {
                    assert(gs@ =~= prev.push(g));
                }
            },
            None => {
                proof {
                    assert(!is_hex_group(vs[i as int]));
                    assert(!all_hex_groups(vs));
                    assert(!all_hex_groups(vs.drop_last())) by {
                        assert(vs.drop_last()[i as int] == vs[i as int]);
                    }
                }
                return None;
            },
        }
        i += 1;
    }
    proof {
        assert(i == n - 1);
        assert(vs.drop_last() =~= vs.take(i as int));
    }
    match parse_hex_group(parts[n - 1]) {
        Some(g) => {
            let ghost prev = gs@;
            gs.push(g);
            proof {
                assert(gs@ =~= prev.push(g));
                assert(is_hex_group(vs[n - 1]));
                assert(all_hex_groups(vs));
                let f = |g: u16| g as nat;
                assert(gs@.map_values(f).len() == n);
                assert(hex_group_vals(vs).len() == n);
                assert forall|q: int| 0 <= q < vs.len() implies gs@.map_values(f)[q]
                    == hex_group_vals(vs)[q] by {
                    assert(gs@.map_values(f)[q] == f(gs@[q]));
                    assert(hex_group_vals(vs)[q] == hex_string_val(vs[q]));
                    assert(gs@[q] as nat == hex_string_val(vs[q]));
                }
                assert(gs@.map_values(f) =~= hex_group_vals(vs));
            }
            Some(gs)
        },
        None => {
            proof {
                assert(!is_hex_group(vs[n - 1]));
                assert(!all_hex_groups(vs));
            }
            if !allow_v4 {
                return None;
            }
            match parse_ipv4(parts[n - 1]) {
                Some(v) => {
                    let ghost prev = gs@;
                    proof {
                        assert((v >> 16) < 0x10000 && (v & 0xffff) < 0x10000 && (v >> 16) as nat
                            == v as nat / 0x10000 && (v & 0xffff) as nat == v as nat % 0x10000)
                            by (bit_vector);
                    }
                    let hi: u16 = (v >> 16) as u16;
                    let lo: u16 = (v & 0xffff) as u16;
                    gs.push(hi);
                    gs.push(lo);
                    proof {
                        assert(vs.last() == vs[n - 1]);
                        assert(spec_parse_ipv4(vs.last()) == Some(v));
                        let w = spec_parse_ipv4(vs.last()).unwrap() as nat;
                        assert(gs@ =~= prev.push(hi).push(lo));
                        let f = |g: u16| g as nat;
                        let target = hex_group_vals(vs.drop_last()) + seq![w / 0x10000, w % 0x10000];
                        assert(target.len() == n + 1);
                        assert(gs@.len() == n + 1);
                        assert forall|q: int| 0 <= q < gs@.len() implies gs@.map_values(f)[q]
                            == target[q] by {
                            assert(gs@.map_values(f)[q] == f(gs@[q]));
                            if q < n - 1 {
                                assert(gs@[q] == prev[q]);
                                assert(hex_group_vals(vs.drop_last())[q] == hex_string_val(
                                    vs.drop_last()[q]));
                                assert(vs.drop_last()[q] == vs[q]);
                                assert(gs@[q] as nat == hex_string_val(vs[q]));
                            } else if q == n - 1 {
                                assert(gs@[q] == hi);
                                assert(target[q] == w / 0x10000);
                            } else {
                                assert(gs@[q] == lo);
                                assert(target[q] == w % 0x10000);
                            }
                        }
                        assert(gs@.map_values(f) =~= target);
                    }
                    Some(gs)
                },
                None => {
                    proof {
                        assert(spec_parse_ipv4(vs.last()) is None);
                    }
                    None
                },
            }
        },
    }
}

/// Finds the first `"::"`.
fn find_dc(s: &str) -> (r: Option<usize>)
    ensures
        match r {
            Some(i) => find_double_colon(s@) == Some(i as int),
            None => find_double_colon(s@) is None,
        },
{
    let n = s.unicode_len();
    let mut i: usize = 0;
    while i + 1 < n
        invariant
            i == 0 || i < n,
            n == s@.len(),
            forall|j: int| 0 <= j < i ==> !(#[trigger] s@[j] == ':' && s@[j + 1] == ':'),
        decreases n - i,
    {
        if s.get_char(i) == ':' && s.get_char(i + 1) == ':' {
            proof {
                lemma_find_double_colon_props(s@);
                match find_double_colon(s@) {
                    Some(k) => {
                        if k < i {
                            assert(!(s@[k] == ':' && s@[k + 1] == ':'));
                            assert(false);
                        }
                        if k > i {
                            assert(!(s@[i as int] == ':' && s@[i + 1] == ':'));
                            assert(false);
                        }
                    },
                    None => {
                        assert(!(s@[i as int] == ':' && s@[i + 1] == ':'));
                        assert(false);
                    },
                }
            }
            return Some(i);
        }
        i += 1;
    }
    proof {
        lemma_find_double_colon_props(s@);
        if let Some(k) = find_double_colon(s@) {
            assert(0 <= k && k + 1 < n);
            assert(k < i);
            assert(!(s@[k] == ':' && s@[k + 1] == ':'));
            assert(false);
        }
    }
    None
}

/// Assembles eight 16-bit groups into the 128-bit value.
fn v6_from_groups(gs: &Vec<u16>) -> (v: u128)
    requires
        gs@.len() == 8,
    ensures
        v as nat == v6_value(gs@.map_values(|g: u16| g as nat)),
{
    let v: u128 = (gs[0] as u128) * 0x10000000000000000000000000000 + (gs[1] as u128)
        * 0x1000000000000000000000000 + (gs[2] as u128) * 0x100000000000000000000 + (gs[3] as u128)
        * 0x10000000000000000 + (gs[4] as u128) * 0x1000000000000 + (gs[5] as u128) * 0x100000000 + (
    gs[6] as u128) * 0x10000 + (gs[7] as u128);
    proof {
        let m = gs@.map_values(|g: u16| g as nat);
        assert(m[0] == gs@[0] as nat && m[1] == gs@[1] as nat && m[2] == gs@[2] as nat && m[3]
            == gs@[3] as nat && m[4] == gs@[4] as nat && m[5] == gs@[5] as nat && m[6]
            == gs@[6] as nat && m[7] == gs@[7] as nat);
    }
    v
}

/// Parses a v6 literal.
#[verifier::rlimit(100)]
pub fn parse_ipv6(s: &str) -> (r: Option<u128>)
    ensures
        r == spec_parse_ipv6(s@),
{
    let n = s.unicode_len();
    match find_dc(s) {
        None => {
            let parts = split_str(s, ':');
            match parse_group_seq(&parts, true) {
                Some(gs) => {
                    if gs.len() == 8 {
                        let v = v6_from_groups(&gs);
                        proof {
                            let m = gs@.map_values(|g: u16| g as nat);
                            assert(forall|k: int| 0 <= k < 8 ==> #[trigger] m[k] <= 0xffff);
                            assert(v6_value(m) as u128 == v);
                        }
                        Some(v)
                    } else {
                        None
                    }
                },
                None => None,
            }
        },
        Some(i) => {
            proof {
                lemma_find_double_colon_props(s@);
            }
            let head = s.substring_char(0, i);
            let tail = s.substring_char(i + 2, n);
            let h: Vec<u16> = if head.unicode_len() == 0 {
                Vec::new()
            } else {
                let hp = split_str(head, ':');
                match parse_group_seq(&hp, false) {
                    Some(h) => h,
                    None => {
                        return None;
                    },
                }
            };
            let t: Vec<u16> = if tail.unicode_len() == 0 {
                Vec::new()
            } else {
                let tp = split_str(tail, ':');
                match parse_group_seq(&tp, true) {
                    Some(t) => t,
                    None => {
                        return None;
                    },
                }
            };
            let ghost hm = h@.map_values(|g: u16| g as nat);
            let ghost tm = t@.map_values(|g: u16| g as nat);
            if h.len() >= 8 || t.len() >= 8 || h.len() + t.len() > 7 {
                return None;
            }
            let k: usize = 8 - h.len() - t.len();
            let mut gs: Vec<u16> = Vec::new();
            let mut j: usize = 0;
            while j < h.len()
        invariant
            j <= h@.len(),
            gs@ =~= h@.take(j as int),
        decreases h@.len() - j,
            {
                gs.push(h[j]);
                proof {
                    assert(gs@ =~= h@.take((j + 1) as int));
                }
                j += 1;
            }
            proof {
                assert(gs@ =~= h@);
            }
            let mut j: usize = 0;
            while j < k
        invariant
            j <= k,
            gs@.len() == h@.len() + j,
            gs@ =~= h@ + Seq::new(j as nat, |q: int| 0u16),
        decreases k - j,
            {
                gs.push(0);
                proof {
                    assert(gs@ =~= h@ + Seq::new((j + 1) as nat, |q: int| 0u16));
                }
                j += 1;
            }
            let mut j: usize = 0;
            while j < t.len()
        invariant
            j <= t@.len(),
            gs@.len() == h@.len() + k + j,
            gs@ =~= h@ + Seq::new(k as nat, |q: int| 0u16) + t@.take(j as int),
        decreases t@.len() - j,
            {
                gs.push(t[j]);
                proof {
                    assert(gs@ =~= h@ + Seq::new(k as nat, |q: int| 0u16) + t@.take((j + 1) as int));
                }
                j += 1;
            }
            proof {
                assert(gs@ =~= h@ + Seq::new(k as nat, |q: int| 0u16) + t@);
                let f = |g: u16| g as nat;
                let target = hm + zero_groups(k as nat) + tm;
                assert(gs@.len() == 8);
                assert(target.len() == 8);
                assert forall|q: int| 0 <= q < 8 implies gs@.map_values(f)[q] == target[q] by {
                    assert(gs@.map_values(f)[q] == f(gs@[q]));
                    if q < h@.len() {
                        assert(gs@[q] == h@[q]);
                        assert(target[q] == hm[q]);
                        assert(hm[q] == f(h@[q]));
                    } else if q < h@.len() + k {
                        assert(gs@[q] == 0u16);
                        assert(target[q] == zero_groups(k as nat)[q - h@.len()]);
                    } else {
                        assert(gs@[q] == t@[q - h@.len() - k]);
                        assert(target[q] == tm[q - h@.len() - k]);
                        assert(tm[q - h@.len() - k] == f(t@[q - h@.len() - k]));
                    }
                }
                assert(gs@.map_values(f) =~= target);
            }
            let v = v6_from_groups(&gs);
            proof {
                let m = gs@.map_values(|g: u16| g as nat);
                assert(forall|q: int| 0 <= q < 8 ==> #[trigger] m[q] <= 0xffff) by {
                    assert(forall|q: int| 0 <= q < 8 ==> m[q] == gs@[q] as nat);
                }
                assert(v6_value(m) as u128 == v);
            }
            Some(v)
        },
    }
}

/// An IP literal: a v4 literal, else a v6 literal.
pub open spec fn spec_parse_ip(s: Seq<char>) -> Option<IpAddress> {
    if spec_parse_ipv4(s) is Some {
        Some(IpAddress::V4(spec_parse_ipv4(s).unwrap()))
    } else if spec_parse_ipv6(s) is Some {
        Some(IpAddress::V6(spec_parse_ipv6(s).unwrap()))
    } else {
        None
    }
}

/// Parses an IP literal: a v4 literal, else a v6 literal.
pub fn parse_ip(s: &str) -> (r: Option<IpAddress>)
    ensures
        r == spec_parse_ip(s@),
{
    match parse_ipv4(s) {
        Some(v) => Some(IpAddress::V4(v)),
        None => match parse_ipv6(s) {
            Some(v) => Some(IpAddress::V6(v)),
            None => None,
        },
    }
}

} // verus!
