//! The places in a text at which it can be cut, counted in bytes.
use vstd::prelude::*;
use vstd::utf8::*;

verus! {

/// The number of bytes of a character's UTF-8 encoding.
pub open spec fn width(c: char) -> int {
    encode_scalar(c as u32).len() as int
}

/// The number of bytes of a text's UTF-8 encoding.
pub open spec fn byte_len(s: Seq<char>) -> int {
    encode_utf8(s).len() as int
}

/// Whether a character of `s` begins at byte `at`, or `s` ends there.
pub open spec fn on_boundary(s: Seq<char>, at: int) -> bool
    decreases s.len(),
{
    at == 0 || (s.len() > 0 && at >= width(s.first()) && on_boundary(
        s.drop_first(),
        at - width(s.first()),
    ))
}

/// The number of characters of `s` that begin before byte `at`.
pub open spec fn chars_before(s: Seq<char>, at: int) -> int
    decreases s.len(),
{
    if at <= 0 || s.len() == 0 {
        0
    } else {
        1 + chars_before(s.drop_first(), at - width(s.first()))
    }
}

/// A character takes one to four bytes.
pub proof fn width_range(c: char)
    ensures
        1 <= width(c) <= 4,
{
}

/// A boundary stands between the characters before it and the others.
pub proof fn boundary_splits(s: Seq<char>, at: int)
    requires
        on_boundary(s, at),
    ensures
        0 <= at <= byte_len(s),
        0 <= chars_before(s, at) <= s.len(),
        at < byte_len(s) <==> chars_before(s, at) < s.len(),
        encode_utf8(s.take(chars_before(s, at))) == encode_utf8(s).take(at),
        encode_utf8(s.skip(chars_before(s, at))) == encode_utf8(s).skip(at),
    decreases s.len(),
{
    let k = chars_before(s, at);
    if at == 0 {
        assert(s.take(0) =~= seq![]);
        assert(s.skip(0) =~= s);
        assert(encode_utf8(s).take(0) =~= seq![]);
        assert(encode_utf8(s).skip(0) =~= encode_utf8(s));
        if s.len() > 0 {
            width_range(s.first());
        }
    } else {
        let rest = s.drop_first();
        let w = width(s.first());
        width_range(s.first());
        boundary_splits(rest, at - w);
        assert(s.take(k).drop_first() =~= rest.take(k - 1));
        assert(s.take(k).first() == s.first());
        assert(s.skip(k) =~= rest.skip(k - 1));
        assert(encode_utf8(s) == encode_scalar(s.first() as u32) + encode_utf8(rest));
        assert(encode_utf8(s).take(at) =~= encode_scalar(s.first() as u32) + encode_utf8(rest).take(
            at - w,
        ));
        assert(encode_utf8(s).skip(at) =~= encode_utf8(rest).skip(at - w));
    }
}

/// The boundaries are those of the UTF-8 encoding.
pub proof fn boundary_of_bytes(s: Seq<char>, at: int)
    ensures
        on_boundary(s, at) <==> is_char_boundary(encode_utf8(s), at),
    decreases s.len(),
{
    encode_utf8_valid_utf8(s);
    if s.len() == 0 {
        if at > 0 {
            assert(encode_utf8(s).len() == 0);
        }
    } else {
        let rest = s.drop_first();
        let w = width(s.first());
        width_range(s.first());
        encode_utf8_first_scalar(s);
        assert(encode_utf8(s) == encode_scalar(s.first() as u32) + encode_utf8(rest));
        assert(pop_first_scalar(encode_utf8(s)) =~= encode_utf8(rest));
        boundary_of_bytes(rest, at - w);
        if on_boundary(s, at) {
            boundary_splits(s, at);
        }
        if 0 < at <= encode_utf8(s).len() {
            encode_utf8_valid_utf8(rest);
            if at < w {
                assert(!is_char_boundary(encode_utf8(rest), at - w));
            }
        }
    }
}

/// Every character of a text begins at a boundary.
pub proof fn prefix_boundary(s: Seq<char>, k: int)
    requires
        0 <= k <= s.len(),
    ensures
        on_boundary(s, byte_len(s.take(k))),
        chars_before(s, byte_len(s.take(k))) == k,
    decreases k,
{
    if k == 0 {
        assert(s.take(0) =~= seq![]);
    } else {
        let rest = s.drop_first();
        width_range(s.first());
        prefix_boundary(rest, k - 1);
        assert(s.take(k).drop_first() =~= rest.take(k - 1));
        assert(s.take(k).first() == s.first());
    }
}

/// The number of bytes of a text's UTF-8 encoding.
pub fn text_len(s: &str) -> (res: usize)
    ensures
        res == byte_len(s@),
{
    s.as_bytes().len()
}

/// Whether a character begins, or the text ends, at byte `at`.
pub fn at_boundary(s: &str, at: usize) -> (res: bool)
    ensures
        res == on_boundary(s@, at as int),
{
    proof {
        boundary_of_bytes(s@, at as int);
    }
    s.is_char_boundary(at)
}

/// The text before byte `at`, and the rest.
pub fn split_at_byte<'a>(s: &'a str, at: usize) -> (res: (&'a str, &'a str))
    requires
        on_boundary(s@, at as int),
    ensures
        res.0@ == s@.take(chars_before(s@, at as int)),
        res.1@ == s@.skip(chars_before(s@, at as int)),
{
    proof {
        boundary_of_bytes(s@, at as int);
        boundary_splits(s@, at as int);
    }
    let (front, back) = s.split_at(at);
    proof {
        let k = chars_before(s@, at as int);
        assert(encode_utf8(s@).take(at as int) =~= encode_utf8(s@).subrange(0, at as int));
        encode_utf8_decode_utf8(front@);
        encode_utf8_decode_utf8(back@);
        encode_utf8_decode_utf8(s@.take(k));
        encode_utf8_decode_utf8(s@.skip(k));
        assert(encode_utf8(s@).skip(at as int) =~= encode_utf8(s@).subrange(
            at as int,
            encode_utf8(s@).len() as int,
        ));
    }
    (front, back)
}

} // verus!
