//! Provider-safe tool names.
//!
//! Every provider accepts a slightly different tool-name grammar; the strictest
//! (Bedrock) is `^[a-zA-Z][a-zA-Z0-9_]*$` with a length cap. Names composed
//! here always satisfy that grammar.
use vstd::prelude::*;

use crate::text::{chars_of, string_of};

verus! {

/// Longest tool name any supported provider accepts.
pub const MAX_TOOL_NAME_LEN: usize = 64;

/// Hex digits of the hash suffix appended to truncated names.
pub const TOOL_NAME_HASH_HEX_LEN: usize = 8;

pub open spec fn is_ascii_alpha(c: char) -> bool {
    ('a' <= c && c <= 'z') || ('A' <= c && c <= 'Z')
}

pub open spec fn is_ascii_alnum(c: char) -> bool {
    is_ascii_alpha(c) || ('0' <= c && c <= '9')
}

/// The strictest tool-name grammar: a leading ASCII letter, then ASCII letters,
/// digits and underscores, at most [`MAX_TOOL_NAME_LEN`] characters.
pub open spec fn is_provider_safe(name: Seq<char>) -> bool {
    &&& 0 < name.len() <= MAX_TOOL_NAME_LEN
    &&& is_ascii_alpha(name[0])
    &&& forall|i: int| 0 <= i < name.len() ==> is_ascii_alnum(#[trigger] name[i]) || name[i] == '_'
}

/// Every character outside `[A-Za-z0-9]` becomes `_`; an empty component
/// becomes a single `_`.
pub open spec fn sanitize_spec(s: Seq<char>) -> Seq<char> {
    if s.len() == 0 {
        seq!['_']
    } else {
        s.map_values(|c: char| if is_ascii_alnum(c) { c } else { '_' })
    }
}

/// FNV-1a (32 bit) over the code points of `s`.
pub open spec fn fnv1a_spec(s: Seq<char>) -> u32
    decreases s.len(),
{
    if s.len() == 0 {
        2166136261u32
    } else {
        let h = fnv1a_spec(s.drop_last());
        (((h ^ (s.last() as u32)) as int * 16777619int) % 4294967296int) as u32
    }
}

pub open spec fn hex_digit(n: u32) -> char {
    if n < 10 {
        (('0' as u32) + n) as char
    } else {
        (('a' as u32) + n - 10) as char
    }
}

/// The eight lowercase hex digits of `h`, most significant first.
pub open spec fn hex8_spec(h: u32) -> Seq<char> {
    Seq::new(8, |i: int| hex_digit(((h as int / pow16(7 - i)) % 16) as u32))
}

pub open spec fn pow16(e: int) -> int
    decreases e,
{
    if e <= 0 {
        1
    } else {
        16 * pow16(e - 1)
    }
}

/// Join (prefix and) name, make the result start with a letter, and shorten it
/// to the length cap, keeping its head and appending a hash of the whole.
pub open spec fn compose_spec(prefix: Option<Seq<char>>, name: Seq<char>) -> Seq<char> {
    let joined = match prefix {
        Some(p) => sanitize_spec(p) + seq!['_'] + sanitize_spec(name),
        None => sanitize_spec(name),
    };
    let lettered = if is_ascii_alpha(joined[0]) {
        joined
    } else {
        seq!['t', '_'] + joined
    };
    if lettered.len() <= MAX_TOOL_NAME_LEN {
        lettered
    } else {
        lettered.take((MAX_TOOL_NAME_LEN - TOOL_NAME_HASH_HEX_LEN - 1) as int) + seq!['_']
            + hex8_spec(fnv1a_spec(lettered))
    }
}

fn is_alpha(c: char) -> (r: bool)
    ensures
        r == is_ascii_alpha(c),
{
    ('a' <= c && c <= 'z') || ('A' <= c && c <= 'Z')
}

fn is_alnum(c: char) -> (r: bool)
    ensures
        r == is_ascii_alnum(c),
{
    is_alpha(c) || ('0' <= c && c <= '9')
}

/// Sanitize one name component.
pub fn sanitize_component(s: &str) -> (r: Vec<char>)
    ensures
        r@ == sanitize_spec(s@),
{
    let cs = chars_of(s);
    let mut out: Vec<char> = Vec::new();
    if cs.len() == 0 {
        out.push('_');
        assert(out@ =~= seq!['_']);
        return out;
    }
    let mut i: usize = 0;
    while i < cs.len()
        invariant
            i <= cs@.len(),
            cs@ == s@,
            out@.len() == i,
            forall|j: int|
                0 <= j < i ==> #[trigger] out@[j] == (if is_ascii_alnum(cs@[j]) {
                    cs@[j]
                } else {
                    '_'
                }),
        decreases cs@.len() - i,
    {
        let c = cs[i];
        if is_alnum(c) {
            out.push(c);
        } else {
            out.push('_');
        }
        i = i + 1;
    }
    assert(out@ =~= sanitize_spec(s@));
    out
}

/// FNV-1a (32 bit) over the code points of `s`.
pub fn fnv1a(s: &Vec<char>) -> (r: u32)
    ensures
        r == fnv1a_spec(s@),
{
    let mut h: u32 = 2166136261;
    let mut i: usize = 0;
    while i < s.len()
        invariant
            i <= s@.len(),
            h == fnv1a_spec(s@.take(i as int)),
        decreases s@.len() - i,
    {
        assert(s@.take(i + 1).drop_last() =~= s@.take(i as int));
        let x: u32 = h ^ (s[i] as u32);
        assert((x as int) * 16777619int < 18446744073709551616int) by (nonlinear_arith)
            requires
                x < 4294967296int,
        ;
        let m: u64 = (x as u64) * 16777619u64;
        h = (m % 4294967296u64) as u32;
        i = i + 1;
    }
    assert(s@.take(s@.len() as int) =~= s@);
    h
}

fn hex_char(n: u32) -> (r: char)
    requires
        n < 16,
    ensures
        r == hex_digit(n),
{
    if n < 10 {
        ((48u32 + n) as u8) as char
    } else {
        ((97u32 + n - 10) as u8) as char
    }
}

/// The eight lowercase hex digits of `h`.
pub fn hex8(h: u32) -> (r: Vec<char>)
    ensures
        r@ == hex8_spec(h),
{
    let mut digits: Vec<char> = Vec::new();
    let mut k: u32 = 0;
    let mut div: u32 = 268435456;
    proof {
        reveal_with_fuel(pow16, 8);
    }
    while k < 8
        invariant
            k <= 8,
            digits@.len() == k,
            div as int == pow16(7 - k),
            forall|j: int| 0 <= j < k ==> #[trigger] digits@[j] == hex8_spec(h)[j],
        decreases 8 - k,
    {
        proof {
            assert(pow16(7 - k) >= 1) by {
                lemma_pow16_pos(7 - k);
            }
        }
        let d = (h / div) % 16;
        digits.push(hex_char(d));
        if k < 7 {
            proof {
                assert(pow16(7 - k) == 16 * pow16(6 - k));
            }
            div = div / 16;
        }
        k = k + 1;
    }
    assert(digits@ =~= hex8_spec(h));
    digits
}

proof fn lemma_pow16_pos(e: int)
    ensures
        pow16(e) >= 1,
    decreases e,
{
    if e > 0 {
        lemma_pow16_pos(e - 1);
    }
}

/// Compose a tool name safe across every provider from an optional prefix
/// (such as a plugin name) and a tool name.
pub fn compose_provider_safe_tool_name(prefix: Option<&str>, name: &str) -> (r: String)
    ensures
        r@ == compose_spec(
            match prefix {
                Some(p) => Some(p@),
                None => None,
            },
            name@,
        ),
        is_provider_safe(r@),
{
    let mut joined: Vec<char> = Vec::new();
    match prefix {
        Some(p) => {
            let mut a = sanitize_component(p);
            joined.append(&mut a);
            joined.push('_');
        },
        None => {},
    }
    let mut b = sanitize_component(name);
    joined.append(&mut b);
    let ghost sp = match prefix {
        Some(p) => Some(p@),
        None => None::<Seq<char>>,
    };
    let ghost joined_spec = match sp {
        Some(p) => sanitize_spec(p) + seq!['_'] + sanitize_spec(name@),
        None => sanitize_spec(name@),
    };
    assert(joined@ =~= joined_spec);
    let mut lettered: Vec<char> = Vec::new();
    if !is_alpha(joined[0]) {
        lettered.push('t');
        lettered.push('_');
    }
    lettered.append(&mut joined);
    assert(lettered@ =~= (if is_ascii_alpha(joined_spec[0]) {
        joined_spec
    } else {
        seq!['t', '_'] + joined_spec
    }));
    proof {
        lemma_sanitized_chars(sp, name@);
    }
    if lettered.len() <= MAX_TOOL_NAME_LEN {
        return string_of(&lettered);
    }
    let hash = fnv1a(&lettered);
    let mut out: Vec<char> = Vec::new();
    let keep = MAX_TOOL_NAME_LEN - TOOL_NAME_HASH_HEX_LEN - 1;
    let mut i: usize = 0;
    while i < keep
        invariant
            keep == MAX_TOOL_NAME_LEN - TOOL_NAME_HASH_HEX_LEN - 1,
            keep < lettered@.len(),
            i <= keep,
            out@ == lettered@.take(i as int),
        decreases keep - i,
    {
        out.push(lettered[i]);
        assert(out@ =~= lettered@.take(i + 1));
        i = i + 1;
    }
    out.push('_');
    let mut hx = hex8(hash);
    out.append(&mut hx);
    proof {
        lemma_hex8_alnum(hash);
    }
    string_of(&out)
}

proof fn lemma_hex8_alnum(h: u32)
    ensures
        forall|i: int| 0 <= i < 8 ==> is_ascii_alnum(#[trigger] hex8_spec(h)[i]),
{
    assert forall|i: int| 0 <= i < 8 implies is_ascii_alnum(#[trigger] hex8_spec(h)[i]) by {
        lemma_pow16_pos(7 - i);
        let n = ((h as int / pow16(7 - i)) % 16) as u32;
        assert(n < 16);
    }
}

/// Every character of a joined, sanitized name is a letter, digit or `_`.
proof fn lemma_sanitized_chars(prefix: Option<Seq<char>>, name: Seq<char>)
    ensures
        ({
            let joined = match prefix {
                Some(p) => sanitize_spec(p) + seq!['_'] + sanitize_spec(name),
                None => sanitize_spec(name),
            };
            &&& joined.len() > 0
            &&& forall|i: int|
                0 <= i < joined.len() ==> is_ascii_alnum(#[trigger] joined[i]) || joined[i] == '_'
        }),
{
    assert forall|s: Seq<char>, i: int| 0 <= i < sanitize_spec(s).len() implies is_ascii_alnum(
        #[trigger] sanitize_spec(s)[i],
    ) || sanitize_spec(s)[i] == '_' by {}
}

/// A name that is already provider-safe comes out of composition (with no
/// prefix) unchanged; in particular composing a composed name again changes
/// nothing.
pub proof fn lemma_safe_names_unchanged(name: Seq<char>)
    requires
        is_provider_safe(name),
    ensures
        compose_spec(None, name) == name,
{
    assert(sanitize_spec(name) =~= name);
}

} // verus!
