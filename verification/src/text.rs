//! Text as the protocol and the screen use it: trimming, splitting, joining,
//! padding, decimal numbers and the order of names.
use vstd::prelude::*;
use vstd::utf8::*;

use crate::boundary::{at_boundary, boundary_splits, prefix_boundary, split_at_byte, text_len};

verus! {

/// `String::push` appends the given character to the end of the string.
pub assume_specification[ String::push ](s: &mut String, c: char)
    ensures
        final(s)@ == old(s)@.push(c),
;

/// The characters with the Unicode property White_Space.
pub open spec fn is_space(c: char) -> bool {
    ||| '\u{9}' <= c <= '\u{d}'
    ||| c == ' '
    ||| c == '\u{85}'
    ||| c == '\u{a0}'
    ||| c == '\u{1680}'
    ||| '\u{2000}' <= c <= '\u{200a}'
    ||| c == '\u{2028}'
    ||| c == '\u{2029}'
    ||| c == '\u{202f}'
    ||| c == '\u{205f}'
    ||| c == '\u{3000}'
}

/// `s` without its leading white space.
pub open spec fn trim_front(s: Seq<char>) -> Seq<char>
    decreases s.len(),
{
    if s.len() > 0 && is_space(s.first()) {
        trim_front(s.drop_first())
    } else {
        s
    }
}

/// `s` without its trailing white space.
pub open spec fn trim_back(s: Seq<char>) -> Seq<char>
    decreases s.len(),
{
    if s.len() > 0 && is_space(s.last()) {
        trim_back(s.drop_last())
    } else {
        s
    }
}

/// `s` without its leading and trailing white space.
pub open spec fn trimmed(s: Seq<char>) -> Seq<char> {
    trim_back(trim_front(s))
}

/// `str::trim` removes leading and trailing characters of the Unicode property
/// White_Space and keeps everything between them.
pub assume_specification[ str::trim ](s: &str) -> (res: &str)
    ensures
        res@ == trimmed(s@),
;

/// What `String::from_utf8_lossy` makes of a byte sequence.
pub uninterp spec fn utf8_lossy(bytes: Seq<u8>) -> Seq<char>;

/// `String::from_utf8_lossy` decodes well-formed UTF-8 exactly. What stands in
/// place of malformed bytes is only given a name.
#[verifier::external_body]
fn decode_lossy(bytes: &[u8]) -> (res: String)
    ensures
        res@ == utf8_lossy(bytes@),
        valid_utf8(bytes@) ==> res@ == decode_utf8(bytes@),
{
    String::from_utf8_lossy(bytes).into_owned()
}

/// The text that some bytes stand for: exact where they are well-formed UTF-8.
pub open spec fn text_of(bytes: Seq<u8>) -> Seq<char> {
    if valid_utf8(bytes) {
        decode_utf8(bytes)
    } else {
        utf8_lossy(bytes)
    }
}

/// The text that some bytes stand for.
pub fn read_text(bytes: &[u8]) -> (res: String)
    ensures
        res@ == text_of(bytes@),
{
    decode_lossy(bytes)
}

/// The bytes of a text stand for that text.
pub proof fn text_of_its_bytes(text: Seq<char>)
    ensures
        text_of(encode_utf8(text)) == text,
{
    encode_utf8_valid_utf8(text);
    encode_utf8_decode_utf8(text);
}

/// What `str::to_lowercase` makes of a text.
pub uninterp spec fn lowercase(s: Seq<char>) -> Seq<char>;

/// The lower-case form of an ASCII character.
pub open spec fn ascii_lower(c: char) -> char {
    if 'A' <= c <= 'Z' {
        (c as u32 + 32) as char
    } else {
        c
    }
}

/// `str::to_lowercase` maps the letters A to Z of an ASCII text to a to z and
/// keeps its other characters. Its result on other text is only given a name.
#[verifier::external_body]
fn to_lower(s: &str) -> (res: String)
    ensures
        res@ == lowercase(s@),
        is_ascii_chars(s@) ==> res@ == s@.map_values(|c: char| ascii_lower(c)),
{
    s.to_lowercase()
}

/// A text in lower case: letter by letter where it is ASCII.
pub open spec fn lowered(s: Seq<char>) -> Seq<char> {
    if is_ascii_chars(s) {
        s.map_values(|c: char| ascii_lower(c))
    } else {
        lowercase(s)
    }
}

/// A text in lower case.
pub fn lower(s: &str) -> (res: String)
    ensures
        res@ == lowered(s@),
{
    to_lower(s)
}

/// The contents of a list of strings.
pub open spec fn views(names: Seq<String>) -> Seq<Seq<char>> {
    names.map_values(|s: String| s@)
}

/// Lexicographic order by code point.
pub open spec fn lex_le(a: Seq<char>, b: Seq<char>) -> bool
    decreases a.len(),
{
    if a.len() == 0 {
        true
    } else if b.len() == 0 {
        false
    } else if a.first() != b.first() {
        a.first() < b.first()
    } else {
        lex_le(a.drop_first(), b.drop_first())
    }
}

/// Every name stands no later than a name that follows it.
pub open spec fn in_order(names: Seq<Seq<char>>) -> bool {
    forall|i: int, j: int|
        0 <= i <= j < names.len() ==> lex_le(#[trigger] names[i], #[trigger] names[j])
}

/// Lexicographic order is total, and only equal names stand level.
pub proof fn lex_total(a: Seq<char>, b: Seq<char>)
    ensures
        lex_le(a, a),
        lex_le(a, b) || lex_le(b, a),
        lex_le(a, b) && lex_le(b, a) ==> a == b,
    decreases a.len(),
{
    if a.len() > 0 {
        lex_total(a.drop_first(), b.drop_first());
        if b.len() > 0 {
            assert(a =~= seq![a.first()] + a.drop_first());
            assert(b =~= seq![b.first()] + b.drop_first());
        }
    } else {
        assert(b.len() == 0 ==> a =~= b);
    }
}

/// Lexicographic order is transitive.
pub proof fn lex_transitive(a: Seq<char>, b: Seq<char>, c: Seq<char>)
    requires
        lex_le(a, b),
        lex_le(b, c),
    ensures
        lex_le(a, c),
    decreases a.len(),
{
    if a.len() > 0 && a.first() == b.first() && b.first() == c.first() {
        lex_transitive(a.drop_first(), b.drop_first(), c.drop_first());
    }
}

/// Names have one order only: two lists in order that hold the same names, each
/// as often, are equal.
pub proof fn order_is_unique(a: Seq<Seq<char>>, b: Seq<Seq<char>>)
    requires
        in_order(a),
        in_order(b),
        a.to_multiset() == b.to_multiset(),
    ensures
        a == b,
{
    let le = |x: Seq<char>, y: Seq<char>| lex_le(x, y);
    assert forall|x: Seq<char>| #[trigger] le(x, x) by {
        lex_total(x, x);
    }
    assert forall|x: Seq<char>, y: Seq<char>| #[trigger] le(x, y) && #[trigger] le(
        y,
        x,
    ) implies x == y by {
        lex_total(x, y);
    }
    assert forall|x: Seq<char>, y: Seq<char>, z: Seq<char>|
        #[trigger] le(x, y) && #[trigger] le(y, z) implies le(
        x,
        z,
    ) by {
        lex_transitive(x, y, z);
    }
    assert forall|x: Seq<char>, y: Seq<char>| #[trigger] le(x, y) || #[trigger] le(y, x) by {
        lex_total(x, y);
    }
    vstd::seq_lib::lemma_sorted_unique(a, b, le);
}

/// `slice::sort_unstable` on strings rearranges them into ascending order, and
/// strings are ordered lexicographically by code point.
#[verifier::external_body]
pub(crate) fn sort_names(names: &mut Vec<String>)
    ensures
        in_order(views(final(names)@)),
        views(final(names)@).to_multiset() == views(old(names)@).to_multiset(),
{
    names.sort_unstable();
}

/// Whether two texts are equal.
pub fn same_text(a: &str, b: &str) -> (res: bool)
    ensures
        res == (a@ == b@),
{
    let x = a.as_bytes();
    let y = b.as_bytes();
    proof {
        encode_utf8_decode_utf8(a@);
        encode_utf8_decode_utf8(b@);
    }
    if x.len() != y.len() {
        return false;
    }
    let n: usize = x.len();
    for i in 0..n
        invariant
            n == x@.len(),
            n == y@.len(),
            x@ == encode_utf8(a@),
            y@ == encode_utf8(b@),
            forall|j: int| 0 <= j < i ==> x@[j] == y@[j],
    {
        if x[i] != y[i] {
            return false;
        }
    }
    assert(x@ =~= y@);
    true
}

/// `s` with every `from` replaced by `to`.
pub open spec fn replaced(s: Seq<char>, from: char, to: char) -> Seq<char> {
    s.map_values(|c: char| if c == from { to } else { c })
}

/// Replaces every `from` by `to`.
pub fn replace_char(s: &str, from: char, to: char) -> (res: String)
    ensures
        res@ == replaced(s@, from, to),
{
    let mut res = String::new();
    for c in it: s.chars()
        invariant
            it.seq() == s@,
            res@ == replaced(s@.take(it.index()), from, to),
    {
        assert(s@.take(it.index() + 1) == s@.take(it.index()).push(c));
        if c == from {
            res.push(to);
        } else {
            res.push(c);
        }
    }
    assert(s@.take(s@.len() as int) == s@);
    res
}

/// The rest of `s` after `prefix`, where `s` begins with it.
pub open spec fn after_prefix(s: Seq<char>, prefix: Seq<char>) -> Option<Seq<char>> {
    if prefix.is_prefix_of(s) {
        Some(s.skip(prefix.len() as int))
    } else {
        None
    }
}

/// Takes `prefix` off the front of `s`.
pub fn strip_prefix<'a>(s: &'a str, prefix: &str) -> (res: Option<&'a str>)
    ensures
        match res {
            Some(rest) => after_prefix(s@, prefix@) == Some(rest@),
            None => after_prefix(s@, prefix@) is None,
        },
{
    let len: usize = text_len(prefix);
    proof {
        let k = prefix@.len() as int;
        if prefix@.is_prefix_of(s@) {
            assert(s@.take(k) =~= prefix@);
            prefix_boundary(s@, k);
        }
    }
    if !at_boundary(s, len) {
        return None;
    }
    let (head, rest) = split_at_byte(s, len);
    proof {
        boundary_splits(s@, len as int);
        assert(s@ =~= head@ + rest@);
    }
    if same_text(head, prefix) {
        assert(s@.skip(prefix@.len() as int) =~= rest@);
        Some(rest)
    } else {
        None
    }
}

/// `s` with `prefix` taken off its front as often as it stands there.
pub open spec fn without_prefixes(s: Seq<char>, prefix: Seq<char>) -> Seq<char>
    decreases s.len(),
{
    if prefix.len() > 0 && prefix.is_prefix_of(s) {
        without_prefixes(s.skip(prefix.len() as int), prefix)
    } else {
        s
    }
}

/// Takes `prefix` off the front of `s` as often as it stands there.
pub fn strip_prefixes<'a>(s: &'a str, prefix: &str) -> (res: &'a str)
    requires
        prefix@.len() > 0,
    ensures
        res@ == without_prefixes(s@, prefix@),
{
    let mut rest: &'a str = s;
    loop
        invariant
            prefix@.len() > 0,
            without_prefixes(rest@, prefix@) == without_prefixes(s@, prefix@),
        ensures
            rest@ == without_prefixes(s@, prefix@),
        decreases rest@.len(),
    {
        match strip_prefix(rest, prefix) {
            Some(shorter) => {
                rest = shorter;
            },
            None => {
                break;
            },
        }
    }
    rest
}

/// The position of the first `sep`, or the length where there is none.
pub open spec fn find(s: Seq<char>, sep: char) -> nat
    decreases s.len(),
{
    if s.len() == 0 || s.first() == sep {
        0
    } else {
        1 + find(s.drop_first(), sep)
    }
}

/// The pieces of `s` between the occurrences of `sep`.
pub open spec fn split(s: Seq<char>, sep: char) -> Seq<Seq<char>>
    decreases s.len(),
{
    let i = find(s, sep) as int;
    if i >= s.len() {
        seq![s]
    } else {
        seq![s.take(i)] + split(s.skip(i + 1), sep)
    }
}

/// The pieces of a text, with `sep` between each two of them.
pub open spec fn join(parts: Seq<Seq<char>>, sep: char) -> Seq<char>
    decreases parts.len(),
{
    if parts.len() == 0 {
        seq![]
    } else if parts.len() == 1 {
        parts[0]
    } else {
        parts[0].push(sep) + join(parts.drop_first(), sep)
    }
}

/// `find` stops at `sep` and nowhere before it.
pub proof fn find_first(s: Seq<char>, sep: char)
    ensures
        find(s, sep) <= s.len(),
        find(s, sep) < s.len() ==> s[find(s, sep) as int] == sep,
        forall|j: int| 0 <= j < find(s, sep) ==> s[j] != sep,
        find(s, sep) < s.len() <==> s.contains(sep),
    decreases s.len(),
{
    if s.len() > 0 && s.first() != sep {
        find_first(s.drop_first(), sep);
        assert forall|j: int| 0 <= j < find(s, sep) implies s[j] != sep by {
            if j > 0 {
                assert(s[j] == s.drop_first()[j - 1]);
            }
        }
    }
    if s.len() > 0 && s.first() == sep {
        assert(s[0] == sep);
    }
    if s.contains(sep) {
        let k = choose|k: int| 0 <= k < s.len() && s[k] == sep;
        assert(find(s, sep) <= k);
    }
}

/// The first `sep` of `head`, `sep` and any further text stands right behind
/// `head`, where `head` holds none.
pub proof fn find_behind(head: Seq<char>, tail: Seq<char>, sep: char)
    requires
        !head.contains(sep),
    ensures
        find(head.push(sep) + tail, sep) == head.len(),
        find(head, sep) == head.len(),
{
    let s = head.push(sep) + tail;
    find_first(s, sep);
    find_first(head, sep);
    let i = find(s, sep) as int;
    assert(s[head.len() as int] == sep);
    if i < head.len() {
        assert(head[i] == sep);
    }
}

/// Splits a text at every `sep`.
pub fn split_text(s: &str, sep: char) -> (res: Vec<String>)
    ensures
        views(res@) == split(s@, sep),
{
    let mut res: Vec<String> = Vec::new();
    let mut piece = String::new();
    assert(views(res@) + split(piece@ + s@, sep) =~= split(s@, sep)) by {
        assert(piece@ + s@ =~= s@);
    }
    assert(s@.skip(0) =~= s@);
    for c in it: s.chars()
        invariant
            it.seq() == s@,
            !piece@.contains(sep),
            views(res@) + split(piece@ + s@.skip(it.index()), sep) == split(s@, sep),
    {
        let ghost rest = s@.skip(it.index() + 1);
        let ghost before = views(res@);
        assert(s@.skip(it.index()) =~= seq![c] + rest);
        if c == sep {
            proof {
                let whole = piece@ + s@.skip(it.index());
                assert(whole =~= piece@.push(sep) + rest);
                find_behind(piece@, rest, sep);
                assert(whole.take(piece@.len() as int) =~= piece@);
                assert(whole.skip(piece@.len() as int + 1) =~= rest);
            }
            res.push(piece);
            piece = String::new();
            assert(views(res@) =~= before.push(split(s@, sep)[before.len() as int]));
            assert(piece@ + rest =~= rest);
            assert(views(res@) + split(rest, sep) =~= split(s@, sep));
        } else {
            let ghost old_piece = piece@;
            piece.push(c);
            assert(piece@ + rest =~= old_piece + s@.skip(it.index()));
            assert(!piece@.contains(sep)) by {
                assert forall|k: int| 0 <= k < piece@.len() implies piece@[k] != sep by {
                    if k < old_piece.len() {
                        assert(piece@[k] == old_piece[k]);
                        assert(old_piece.contains(old_piece[k]));
                    }
                }
            }
        }
    }
    let ghost before = views(res@);
    proof {
        assert(piece@ + s@.skip(s@.len() as int) =~= piece@);
        find_first(piece@, sep);
    }
    res.push(piece);
    assert(views(res@) =~= before + seq![piece@]);
    res
}

/// Joins texts with `sep` between each two of them.
pub fn join_text(parts: &Vec<String>, sep: char) -> (res: String)
    ensures
        res@ == join(views(parts@), sep),
{
    let mut res = String::new();
    let n: usize = parts.len();
    let ghost all = views(parts@);
    assert(all.take(0) =~= seq![]);
    for i in 0..n
        invariant
            n == parts@.len(),
            all == views(parts@),
            res@ == join(all.take(i as int), sep),
    {
        proof {
            join_push(all.take(i as int), all[i as int], sep);
            assert(all.take(i + 1) =~= all.take(i as int).push(all[i as int]));
        }
        if i > 0 {
            res.push(sep);
        }
        res.append(parts[i].as_str());
        assert(res@ =~= join(all.take(i + 1), sep));
    }
    assert(all.take(n as int) =~= all);
    res
}

/// Joining one more piece adds `sep` and the piece.
pub proof fn join_push(parts: Seq<Seq<char>>, last: Seq<char>, sep: char)
    ensures
        parts.len() == 0 ==> join(parts.push(last), sep) == last,
        parts.len() > 0 ==> join(parts.push(last), sep) == join(parts, sep).push(sep) + last,
    decreases parts.len(),
{
    if parts.len() > 1 {
        join_push(parts.drop_first(), last, sep);
        assert(parts.push(last).drop_first() =~= parts.drop_first().push(last));
        assert(join(parts.push(last), sep) =~= join(parts, sep).push(sep) + last);
    } else if parts.len() == 1 {
        assert(parts.push(last).drop_first() =~= seq![last]);
        assert(join(seq![last], sep) == last);
        assert(join(parts.push(last), sep) =~= join(parts, sep).push(sep) + last);
    }
}

/// Splitting undoes joining, where there is a piece and no piece holds `sep`.
pub proof fn split_join(parts: Seq<Seq<char>>, sep: char)
    requires
        parts.len() > 0,
        forall|i: int| 0 <= i < parts.len() ==> !(#[trigger] parts[i]).contains(sep),
    ensures
        split(join(parts, sep), sep) == parts,
    decreases parts.len(),
{
    let s = join(parts, sep);
    if parts.len() == 1 {
        assert(!parts[0].contains(sep));
        find_first(s, sep);
        assert(split(s, sep) =~= parts);
    } else {
        let rest = parts.drop_first();
        assert forall|i: int| 0 <= i < rest.len() implies !(#[trigger] rest[i]).contains(sep) by {
            assert(rest[i] == parts[i + 1]);
        }
        split_join(rest, sep);
        assert(!parts[0].contains(sep));
        find_behind(parts[0], join(rest, sep), sep);
        assert(s.take(parts[0].len() as int) =~= parts[0]);
        assert(s.skip(parts[0].len() as int + 1) =~= join(rest, sep));
        assert(split(s, sep) =~= parts);
    }
}

/// The decimal digit of a value below ten.
pub open spec fn digit(d: nat) -> char {
    ('0' as u32 + d) as char
}

/// The decimal notation of a number.
pub open spec fn digits(n: nat) -> Seq<char>
    decreases n,
{
    if n < 10 {
        seq![digit(n)]
    } else {
        digits(n / 10).push(digit(n % 10))
    }
}

/// Writes a number in decimal notation.
pub fn decimal(n: usize) -> (res: String)
    ensures
        res@ == digits(n as nat),
    decreases n,
{
    let mut res = if n < 10 {
        String::new()
    } else {
        decimal(n / 10)
    };
    let d: u8 = (n % 10) as u8;
    res.push((48 + d) as char);
    assert(res@ =~= digits(n as nat));
    res
}

/// `s` filled up with spaces on the right to at least `width` characters.
pub open spec fn padded(s: Seq<char>, width: nat) -> Seq<char> {
    if s.len() < width {
        s + Seq::new((width - s.len()) as nat, |i: int| ' ')
    } else {
        s
    }
}

/// Fills a text up with spaces on the right to at least `width` characters.
pub fn pad_right(s: &str, width: usize) -> (res: String)
    ensures
        res@ == padded(s@, width as nat),
{
    let mut res = s.to_owned();
    let mut len: usize = s.unicode_len();
    while len < width
        invariant
            len == res@.len(),
            len <= width || res@ == s@,
            padded(res@, width as nat) == padded(s@, width as nat),
        decreases width - len,
    {
        let ghost before = res@;
        res.push(' ');
        len = len + 1;
        assert(padded(res@, width as nat) =~= padded(before, width as nat));
    }
    res
}

/// Whether a list of names holds `name`.
pub fn holds_name(names: &Vec<String>, name: &str) -> (res: bool)
    ensures
        res == views(names@).contains(name@),
{
    let n: usize = names.len();
    for i in 0..n
        invariant
            n == names@.len(),
            forall|j: int| 0 <= j < i ==> (#[trigger] views(names@)[j]) != name@,
    {
        if same_text(names[i].as_str(), name) {
            assert(views(names@)[i as int] == name@);
            return true;
        }
    }
    false
}

// ---------------------------------------------------------------------------
// Laws
// ---------------------------------------------------------------------------

/// Trimming at the front takes off white space up to the first other character.
proof fn trim_front_cuts(s: Seq<char>) -> (a: int)
    ensures
        0 <= a <= s.len(),
        trim_front(s) == s.skip(a),
        forall|i: int| 0 <= i < a ==> is_space(#[trigger] s[i]),
        a < s.len() ==> !is_space(s[a]),
    decreases s.len(),
{
    if s.len() > 0 && is_space(s.first()) {
        let a = trim_front_cuts(s.drop_first());
        assert(s.drop_first().skip(a) =~= s.skip(a + 1));
        assert forall|i: int| 0 <= i < a + 1 implies is_space(#[trigger] s[i]) by {
            if i > 0 {
                assert(s[i] == s.drop_first()[i - 1]);
            }
        }
        a + 1
    } else {
        assert(s.skip(0) =~= s);
        0
    }
}

/// Trimming at the back takes off white space down to the last other character.
proof fn trim_back_cuts(s: Seq<char>) -> (b: int)
    ensures
        0 <= b <= s.len(),
        trim_back(s) == s.take(b),
        forall|i: int| b <= i < s.len() ==> is_space(#[trigger] s[i]),
        0 < b ==> !is_space(s[b - 1]),
    decreases s.len(),
{
    if s.len() > 0 && is_space(s.last()) {
        let b = trim_back_cuts(s.drop_last());
        assert(s.drop_last().take(b) =~= s.take(b));
        assert forall|i: int| b <= i < s.len() implies is_space(#[trigger] s[i]) by {
            if i < s.len() - 1 {
                assert(s[i] == s.drop_last()[i]);
            }
        }
        b
    } else {
        assert(s.take(s.len() as int) =~= s);
        s.len() as int
    }
}

/// Trimming keeps one stretch of a text. What it leaves out is white space, and
/// what it keeps neither begins nor ends with any.
pub proof fn trimming_keeps_the_middle(s: Seq<char>)
    ensures
        exists|a: int, b: int|
            #![trigger s.subrange(a, b)]
            {
                &&& 0 <= a <= b <= s.len()
                &&& trimmed(s) == s.subrange(a, b)
                &&& forall|i: int| 0 <= i < a ==> is_space(#[trigger] s[i])
                &&& forall|i: int| b <= i < s.len() ==> is_space(#[trigger] s[i])
            },
        trimmed(s).len() > 0 ==> !is_space(trimmed(s).first()) && !is_space(trimmed(s).last()),
{
    let a = trim_front_cuts(s);
    let t = s.skip(a);
    let b = trim_back_cuts(t);
    assert(t.take(b) =~= s.subrange(a, a + b));
    assert forall|i: int| a + b <= i < s.len() implies is_space(#[trigger] s[i]) by {
        assert(s[i] == t[i - a]);
    }
}

/// A text without white space at its ends is left as it is, and white space
/// around it makes no difference.
pub proof fn trimming_ignores_white_space_around(left: Seq<char>, s: Seq<char>, right: Seq<char>)
    requires
        s.len() > 0,
        !is_space(s.first()),
        !is_space(s.last()),
        forall|i: int| 0 <= i < left.len() ==> is_space(#[trigger] left[i]),
        forall|i: int| 0 <= i < right.len() ==> is_space(#[trigger] right[i]),
    ensures
        trimmed(left + s + right) == s,
{
    let whole = left + s + right;
    let a = trim_front_cuts(whole);
    assert(whole[left.len() as int] == s.first());
    if a < left.len() {
        assert(is_space(left[a]));
    }
    assert(a == left.len());
    let t = whole.skip(a);
    let b = trim_back_cuts(t);
    assert(t[s.len() - 1] == s.last());
    if b > s.len() {
        assert(t[b - 1] == right[b - 1 - s.len()]);
        assert(is_space(right[b - 1 - s.len()]));
    }
    assert(t.take(b) =~= s);
}

/// Bytes that are no UTF-8 are read as `String::from_utf8_lossy` reads them, all
/// others as what they encode.
pub proof fn text_of_any_bytes(bytes: Seq<u8>, text: Seq<char>)
    ensures
        !valid_utf8(bytes) ==> text_of(bytes) == utf8_lossy(bytes),
        bytes == encode_utf8(text) ==> text_of(bytes) == text,
{
    text_of_its_bytes(text);
}

/// Lower case keeps an ASCII text's length and changes its letters A to Z only,
/// each by the distance between the cases.
pub proof fn lower_case_letter_by_letter(s: Seq<char>, i: int)
    requires
        is_ascii_chars(s),
    ensures
        lowered(s).len() == s.len(),
        0 <= i < s.len() && 'A' <= s[i] <= 'Z' ==> lowered(s)[i] as u32 == s[i] as u32 + 32,
        0 <= i < s.len() && !('A' <= s[i] <= 'Z') ==> lowered(s)[i] == s[i],
{
}

/// Names are ordered by the first character in which they differ, and a name
/// stands before its continuations.
pub proof fn order_of_names(front: Seq<char>, a: char, b: char, x: Seq<char>, y: Seq<char>)
    ensures
        a < b ==> lex_le(front.push(a) + x, front.push(b) + y),
        a < b ==> !lex_le(front.push(b) + y, front.push(a) + x),
        lex_le(front, front + x),
        x.len() > 0 ==> !lex_le(front + x, front),
    decreases front.len(),
{
    if front.len() == 0 {
        assert((front.push(a) + x).first() == a);
        assert((front.push(b) + y).first() == b);
        assert(front + x =~= x);
    } else {
        let rest = front.drop_first();
        order_of_names(rest, a, b, x, y);
        assert((front.push(a) + x).drop_first() =~= rest.push(a) + x);
        assert((front.push(b) + y).drop_first() =~= rest.push(b) + y);
        assert((front + x).drop_first() =~= rest + x);
        assert((front.push(a) + x).first() == front.first());
        assert((front.push(b) + y).first() == front.first());
        assert((front + x).first() == front.first());
    }
}

/// Every name in an ordered list stands before those behind it.
pub proof fn ordered_names(names: Seq<Seq<char>>, i: int, j: int)
    requires
        0 <= i < j < names.len(),
    ensures
        in_order(names) ==> lex_le(names[i], names[j]),
        in_order(names) && lex_le(names[j], names[i]) ==> names[i] == names[j],
{
    lex_total(names[i], names[j]);
}

/// A list of strings is seen with every string in its place.
pub proof fn views_in_place(names: Seq<String>, i: int)
    ensures
        views(names).len() == names.len(),
        0 <= i < names.len() ==> views(names)[i] == names[i]@,
{
}

/// Replacing a character leaves the length and every other character as they
/// are.
pub proof fn replacing_one_character(s: Seq<char>, from: char, to: char, i: int)
    ensures
        replaced(s, from, to).len() == s.len(),
        0 <= i < s.len() && s[i] == from ==> replaced(s, from, to)[i] == to,
        0 <= i < s.len() && s[i] != from ==> replaced(s, from, to)[i] == s[i],
{
}

/// What stands behind a prefix is the text without it, and a text that does not
/// begin with the prefix has nothing behind it.
pub proof fn prefix_and_rest(s: Seq<char>, prefix: Seq<char>, rest: Seq<char>)
    ensures
        after_prefix(s, prefix) == Some(rest) <==> s == prefix + rest,
        after_prefix(s, prefix) is None <==> !prefix.is_prefix_of(s),
{
    assert((prefix + rest).skip(prefix.len() as int) =~= rest);
    assert(prefix.is_prefix_of(prefix + rest));
    if prefix.is_prefix_of(s) {
        assert(s =~= prefix + s.skip(prefix.len() as int));
    }
}

/// Prefixes are taken off one after the other: one more in front makes no
/// difference, and a text that does not begin with it is left as it is.
pub proof fn prefixes_come_off(s: Seq<char>, prefix: Seq<char>)
    requires
        prefix.len() > 0,
    ensures
        without_prefixes(prefix + s, prefix) == without_prefixes(s, prefix),
        !prefix.is_prefix_of(s) ==> without_prefixes(s, prefix) == s,
        !prefix.is_prefix_of(without_prefixes(s, prefix)),
    decreases s.len(),
{
    assert((prefix + s).skip(prefix.len() as int) =~= s);
    assert(prefix.is_prefix_of(prefix + s));
    if prefix.is_prefix_of(s) {
        prefixes_come_off(s.skip(prefix.len() as int), prefix);
    }
}

/// The pieces of a text hold no separator and, joined again, give the text.
pub proof fn join_split(s: Seq<char>, sep: char)
    ensures
        split(s, sep).len() > 0,
        forall|i: int|
            0 <= i < split(s, sep).len() ==> !(#[trigger] split(s, sep)[i]).contains(sep),
        join(split(s, sep), sep) == s,
    decreases s.len(),
{
    find_first(s, sep);
    let i = find(s, sep) as int;
    let pieces = split(s, sep);
    if i < s.len() {
        let head = s.take(i);
        let rest = s.skip(i + 1);
        join_split(rest, sep);
        assert(pieces.drop_first() =~= split(rest, sep));
        assert(pieces[0] == head);
        assert(s =~= head.push(sep) + rest);
        assert forall|k: int| 0 <= k < pieces.len() implies !(#[trigger] pieces[k]).contains(
            sep,
        ) by {
            if k > 0 {
                assert(pieces[k] == split(rest, sep)[k - 1]);
            } else if head.contains(sep) {
                let j = choose|j: int| 0 <= j < head.len() && head[j] == sep;
                assert(s[j] == sep);
            }
        }
    }
}

/// Joining puts a separator between two pieces and nowhere else.
pub proof fn join_step_by_step(parts: Seq<Seq<char>>, last: Seq<char>, sep: char)
    ensures
        join(seq![], sep) == Seq::<char>::empty(),
        join(seq![last], sep) == last,
        parts.len() > 0 ==> join(parts.push(last), sep) == join(parts, sep) + seq![sep] + last,
{
    if parts.len() > 0 {
        join_push(parts, last, sep);
        assert(join(parts, sep).push(sep) =~= join(parts, sep) + seq![sep]);
    }
}

/// The number that a row of decimal digits stands for.
pub open spec fn value_of(s: Seq<char>) -> int
    decreases s.len(),
{
    if s.len() == 0 {
        0
    } else {
        value_of(s.drop_last()) * 10 + (s.last() as int - '0' as int)
    }
}

/// The decimal notation of a number holds digits only, stands for that number,
/// and does not begin with a zero that could be left out.
pub proof fn digits_stand_for_the_number(n: nat)
    ensures
        digits(n).len() > 0,
        forall|i: int| 0 <= i < digits(n).len() ==> '0' <= #[trigger] digits(n)[i] <= '9',
        value_of(digits(n)) == n,
        n > 0 ==> digits(n)[0] != '0',
    decreases n,
{
    if n < 10 {
        assert(digits(n).drop_last() =~= Seq::<char>::empty());
        assert(value_of(Seq::<char>::empty()) == 0);
        assert(digits(n).last() as int == '0' as int + n);
    } else {
        digits_stand_for_the_number(n / 10);
        assert(digits(n).drop_last() =~= digits(n / 10));
        assert(digits(n)[0] == digits(n / 10)[0]);
        assert forall|i: int| 0 <= i < digits(n).len() implies '0' <= #[trigger] digits(n)[i]
            <= '9' by {
            if i < digits(n / 10).len() {
                assert(digits(n)[i] == digits(n / 10)[i]);
            }
        }
    }
}

/// Padding keeps the text and puts spaces behind it until the width is reached,
/// and no more.
pub proof fn padding_keeps_the_text(s: Seq<char>, width: nat)
    ensures
        padded(s, width).len() == if s.len() < width {
            width
        } else {
            s.len()
        },
        padded(s, width).take(s.len() as int) == s,
        forall|i: int|
            s.len() <= i < padded(s, width).len() ==> #[trigger] padded(s, width)[i] == ' ',
{
    assert(padded(s, width).take(s.len() as int) =~= s);
}

/// A text that is not ASCII is put in lower case as `str::to_lowercase` does.
pub proof fn lower_case_beyond_ascii(s: Seq<char>)
    ensures
        !is_ascii_chars(s) ==> lowered(s) == lowercase(s),
{
}

} // verus!
