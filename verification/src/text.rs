//! Splitting text at a character and taking a fixed beginning or end off it.

use vstd::prelude::*;
use vstd::string::*;
use vstd::utf8::*;

verus! {

broadcast use vstd::slice::axiom_spec_len;

/// Where `c` first stands in `s`; the length of `s` where it stands nowhere.
pub open spec fn position(s: Seq<char>, c: char) -> int
    decreases s.len(),
{
    if s.len() == 0 || s[0] == c {
        0
    } else {
        1 + position(s.drop_first(), c)
    }
}

/// The parts of `s` before and after the first `c`, where there is one.
pub open spec fn split_once(s: Seq<char>, c: char) -> Option<(Seq<char>, Seq<char>)> {
    let at = position(s, c);
    if at < s.len() {
        Some((s.subrange(0, at), s.subrange(at + 1, s.len() as int)))
    } else {
        None
    }
}

/// What is left of `s` behind `prefix`, where `s` begins with it.
pub open spec fn strip_prefix(s: Seq<char>, prefix: Seq<char>) -> Option<Seq<char>> {
    if prefix.is_prefix_of(s) {
        Some(s.subrange(prefix.len() as int, s.len() as int))
    } else {
        None
    }
}

/// What is left of `s` before `suffix`, where `s` ends with it.
pub open spec fn strip_suffix(s: Seq<char>, suffix: Seq<char>) -> Option<Seq<char>> {
    if suffix.is_suffix_of(s) {
        Some(s.subrange(0, s.len() - suffix.len()))
    } else {
        None
    }
}

/// `position` lies within `s` or at its end, no earlier character is `c`, and within
/// `s` the character there is `c`.
pub proof fn lemma_position(s: Seq<char>, c: char)
    ensures
        0 <= position(s, c) <= s.len(),
        forall|j: int| 0 <= j < position(s, c) ==> s[j] != c,
        position(s, c) < s.len() ==> s[position(s, c)] == c,
    decreases s.len(),
{
    if s.len() != 0 && s[0] != c {
        let rest = s.drop_first();
        lemma_position(rest, c);
        assert forall|j: int| 0 <= j < position(s, c) implies s[j] != c by {
            if j > 0 {
                assert(s[j] == rest[j - 1]);
            }
        }
    }
}

/// The first place at or behind which `c` stands, with none before it, is `position`.
pub proof fn lemma_position_is(s: Seq<char>, c: char, at: int)
    requires
        0 <= at <= s.len(),
        forall|j: int| 0 <= j < at ==> s[j] != c,
        at < s.len() ==> s[at] == c,
    ensures
        position(s, c) == at,
    decreases s.len(),
{
    if at > 0 {
        let rest = s.drop_first();
        assert forall|j: int| 0 <= j < at - 1 implies rest[j] != c by {
            assert(rest[j] == s[j + 1]);
        }
        lemma_position_is(rest, c, at - 1);
    }
}

/// A text joined from a part without `c`, then `c`, then a rest is split into that
/// part and that rest.
pub proof fn lemma_split_once_joined(head: Seq<char>, c: char, tail: Seq<char>)
    requires
        !head.contains(c),
    ensures
        split_once(head + seq![c] + tail, c) == Some((head, tail)),
{
    let s = head + seq![c] + tail;
    let at = head.len() as int;
    assert forall|j: int| 0 <= j < at implies s[j] != c by {
        assert(s[j] == head[j]);
    }
    lemma_position_is(s, c, at);
    assert(s.subrange(0, at) =~= head);
    assert(s.subrange(at + 1, s.len() as int) =~= tail);
}

/// Each part of a split text that was split off before a `c` is without `c`.
pub proof fn lemma_split_once_head(s: Seq<char>, c: char)
    requires
        split_once(s, c) is Some,
    ensures
        split_once(s, c) matches Some(parts) && !parts.0.contains(c) && s == parts.0 + seq![c]
            + parts.1,
{
    lemma_position(s, c);
    let parts = split_once(s, c).unwrap();
    assert(s =~= parts.0 + seq![c] + parts.1);
}

/// A prefix comes off what it was put before.
pub proof fn lemma_strip_prefix_joined(prefix: Seq<char>, rest: Seq<char>)
    ensures
        strip_prefix(prefix + rest, prefix) == Some(rest),
{
    let s = prefix + rest;
    assert(s.subrange(0, prefix.len() as int) =~= prefix);
    assert(s.subrange(prefix.len() as int, s.len() as int) =~= rest);
}

/// A suffix comes off what it was put behind.
pub proof fn lemma_strip_suffix_joined(rest: Seq<char>, suffix: Seq<char>)
    ensures
        strip_suffix(rest + suffix, suffix) == Some(rest),
{
    let s = rest + suffix;
    assert(s.subrange(s.len() - suffix.len(), s.len() as int) =~= suffix);
    assert(s.subrange(0, s.len() - suffix.len()) =~= rest);
}

/// The index of the first `c` in `s`, counted in characters.
pub fn find_char(s: &str, c: char) -> (r: Option<usize>)
    ensures
        r matches Some(at) ==> at == position(s@, c) && at < s@.len(),
        r is None ==> position(s@, c) == s@.len(),
{
    let n: usize = s.unicode_len();
    let mut i: usize = 0;
    while i < n
        invariant
            n == s@.len(),
            i <= n,
            forall|j: int| 0 <= j < i ==> s@[j] != c,
        decreases n - i,
    {
        if s.get_char(i) == c {
            proof {
                lemma_position_is(s@, c, i as int);
            }
            return Some(i);
        }
        i += 1;
    }
    proof {
        lemma_position_is(s@, c, n as int);
    }
    None
}

/// Where an ASCII character stands in a text, its byte stands in the bytes of the
/// text.
pub proof fn lemma_ascii_in_bytes(s: Seq<char>, c: char)
    requires
        c as u32 <= 0x7f,
        s.contains(c),
    ensures
        encode_utf8(s).contains(c as u8),
    decreases s.len(),
{
    let bytes = encode_utf8(s);
    let first = encode_scalar(s[0] as u32);
    let rest = encode_utf8(s.drop_first());
    if s[0] == c {
        assert(is_ascii_chars(seq![c]));
        is_ascii_chars_encode_utf8(seq![c]);
        assert(seq![c].drop_first() =~= Seq::<char>::empty());
        assert(encode_utf8(seq![c]) =~= first);
        assert(bytes[0] == c as u8);
    } else {
        let at = choose|at: int| 0 <= at < s.len() && s[at] == c;
        assert(s.drop_first()[at - 1] == c);
        lemma_ascii_in_bytes(s.drop_first(), c);
        let k = choose|k: int| 0 <= k < rest.len() && rest[k] == c as u8;
        assert(bytes[first.len() + k] == c as u8);
    }
}

/// Splits `s` at the first `c` by looking through its bytes.
fn split_at_ascii<'a>(s: &'a str, c: char) -> (r: Option<(&'a str, &'a str)>)
    requires
        c as u32 <= 0x7f,
    ensures
        r is Some <==> split_once(s@, c) is Some,
        r matches Some(parts) ==> split_once(s@, c) == Some((parts.0@, parts.1@)),
{
    let bytes = s.as_bytes();
    let target: u8 = c as u8;
    let n: usize = bytes.len();
    let mut i: usize = 0;
    while i < n
        invariant
            n == bytes@.len(),
            bytes@ == s.spec_bytes(),
            target == c as u8,
            c as u32 <= 0x7f,
            i <= n,
            forall|j: int| 0 <= j < i ==> bytes@[j] != target,
        decreases n - i,
    {
        if bytes[i] == target {
            proof {
                encode_utf8_valid_utf8(s@);
                is_char_boundary_iff_not_is_continuation_byte(bytes@, i as int);
            }
            let (head, rest) = s.split_at(i);
            proof {
                encode_utf8_valid_utf8(rest@);
                assert(rest.spec_bytes()[0] == target);
                reveal_with_fuel(is_char_boundary, 2);
            }
            let (one, tail) = rest.split_at(1);
            proof {
                lemma_cut(s@, head@, rest@, i as int);
                lemma_cut(rest@, one@, tail@, 1);
                assert(is_ascii_chars(seq![c]));
                is_ascii_chars_encode_utf8(seq![c]);
                assert(encode_utf8(seq![c]) =~= one.spec_bytes());
                encode_utf8_decode_utf8(seq![c]);
                encode_utf8_decode_utf8(one@);
                if head@.contains(c) {
                    lemma_ascii_in_bytes(head@, c);
                    let k = choose|k: int| 0 <= k < head.spec_bytes().len() && head.spec_bytes()[k]
                        == target;
                    assert(bytes@[k] == target);
                }
                assert(s@ =~= head@ + seq![c] + tail@);
                lemma_split_once_joined(head@, c, tail@);
            }
            return Some((head, tail));
        }
        i += 1;
    }
    proof {
        if s@.contains(c) {
            lemma_ascii_in_bytes(s@, c);
        }
        lemma_position_is(s@, c, s@.len() as int);
    }
    None
}

/// A text whose bytes are cut where a character ends is its two parts put together.
proof fn lemma_cut(s: Seq<char>, head: Seq<char>, tail: Seq<char>, at: int)
    requires
        is_char_boundary(encode_utf8(s), at),
        encode_utf8(head) == encode_utf8(s).subrange(0, at),
        encode_utf8(tail) == encode_utf8(s).subrange(at, encode_utf8(s).len() as int),
    ensures
        s == head + tail,
{
    encode_utf8_valid_utf8(s);
    decode_utf8_split(encode_utf8(s), at);
    encode_utf8_decode_utf8(s);
    encode_utf8_decode_utf8(head);
    encode_utf8_decode_utf8(tail);
}

/// Splits `s` at the first `c`, which goes to neither part.
pub fn split_once_at(s: &str, c: char) -> (r: Option<(&str, &str)>)
    ensures
        r is Some <==> split_once(s@, c) is Some,
        r matches Some(parts) ==> split_once(s@, c) == Some((parts.0@, parts.1@)),
{
    if c as u32 <= 0x7f {
        return split_at_ascii(s, c);
    }
    match find_char(s, c) {
        Some(at) => {
            let n: usize = s.unicode_len();
            Some((s.substring_char(0, at), s.substring_char(at + 1, n)))
        },
        None => None,
    }
}

/// Whether the `len` characters of `s` from `from` on are those of `part`.
fn matches_at(s: &str, from: usize, part: &str, len: usize) -> (r: bool)
    requires
        len == part@.len(),
        from + len <= s@.len(),
        from + len <= usize::MAX,
    ensures
        r == (s@.subrange(from as int, from + len) == part@),
{
    let mut i: usize = 0;
    while i < len
        invariant
            len == part@.len(),
            from + len <= s@.len(),
            from + len <= usize::MAX,
            i <= len,
            forall|j: int| 0 <= j < i ==> s@[from + j] == part@[j],
        decreases len - i,
    {
        if s.get_char(from + i) != part.get_char(i) {
            assert(s@.subrange(from as int, from + len)[i as int] != part@[i as int]);
            return false;
        }
        i += 1;
    }
    assert(s@.subrange(from as int, from + len) =~= part@);
    true
}

/// Takes `prefix` off the beginning of `s`.
pub fn without_prefix<'a>(s: &'a str, prefix: &str) -> (r: Option<&'a str>)
    ensures
        r is Some <==> strip_prefix(s@, prefix@) is Some,
        r matches Some(rest) ==> strip_prefix(s@, prefix@) == Some(rest@),
{
    let n: usize = s.unicode_len();
    let m: usize = prefix.unicode_len();
    if m <= n && matches_at(s, 0, prefix, m) {
        Some(s.substring_char(m, n))
    } else {
        None
    }
}

/// Takes `suffix` off the end of `s`.
pub fn without_suffix<'a>(s: &'a str, suffix: &str) -> (r: Option<&'a str>)
    ensures
        r is Some <==> strip_suffix(s@, suffix@) is Some,
        r matches Some(rest) ==> strip_suffix(s@, suffix@) == Some(rest@),
{
    let n: usize = s.unicode_len();
    let m: usize = suffix.unicode_len();
    if m <= n && matches_at(s, n - m, suffix, m) {
        Some(s.substring_char(0, n - m))
    } else {
        None
    }
}

} // verus!
