//! Character-level helpers shared by the rest of the crate.
//!
//! Text is modelled as `Seq<char>` (the view of `str` and `String`); ordering
//! of texts is the lexicographic order of their UTF-8 bytes, which is the order
//! in which `String` values compare.

use vstd::prelude::*;
use vstd::string::StringExecFns;
use vstd::string::StringSliceAdditionalSpecFns;

verus! {

/// `String::push` appends one character.
pub assume_specification[ String::push ](s: &mut String, c: char)
    ensures
        final(s)@ == old(s)@.push(c),
;

/// The characters of `s`, in order.
pub fn chars_of(s: &str) -> (r: Vec<char>)
    ensures
        r@ == s@,
{
    let mut out: Vec<char> = Vec::new();
    for c in it: s.chars()
        invariant
            it.seq() == s@,
            out@ == it.seq().take(it.index()),
    {
        out.push(c);
    }
    out
}

/// The text made of the characters `v[from..to]`.
pub(crate) fn string_of_range(v: &Vec<char>, from: usize, to: usize) -> (r: String)
    requires
        from <= to <= v.len(),
    ensures
        r@ == v@.subrange(from as int, to as int),
{
    let mut out = String::new();
    let mut i: usize = from;
    while i < to
        invariant
            from <= i <= to <= v.len(),
            out@ == v@.subrange(from as int, i as int),
        decreases to - i,
    {
        out.push(v[i]);
        i = i + 1;
    }
    out
}

/// The text made of the characters of `v`.
pub fn string_of(v: &Vec<char>) -> (r: String)
    ensures
        r@ == v@,
{
    let r = string_of_range(v, 0, v.len());
    assert(v@.subrange(0, v@.len() as int) == v@);
    r
}

/// Two texts with the same UTF-8 encoding are the same text.
pub proof fn lemma_bytes_determine_text(a: Seq<char>, b: Seq<char>)
    requires
        vstd::utf8::encode_utf8(a) == vstd::utf8::encode_utf8(b),
    ensures
        a == b,
{
    vstd::utf8::encode_utf8_decode_utf8(a);
    vstd::utf8::encode_utf8_decode_utf8(b);
}

/// Whether two texts are equal.
pub fn str_eq(a: &str, b: &str) -> (r: bool)
    ensures
        r == (a@ == b@),
{
    let x = a.as_bytes();
    let y = b.as_bytes();
    if x.len() != y.len() {
        return false;
    }
    let mut i: usize = 0;
    while i < x.len()
        invariant
            x@ == a.spec_bytes(),
            y@ == b.spec_bytes(),
            x.len() == y.len(),
            i <= x.len(),
            x@.take(i as int) == y@.take(i as int),
        decreases x.len() - i,
    {
        if x[i] != y[i] {
            return false;
        }
        assert(x@.take(i + 1) == x@.take(i as int).push(x@[i as int]));
        assert(y@.take(i + 1) == y@.take(i as int).push(y@[i as int]));
        i = i + 1;
    }
    proof {
        assert(x@.take(i as int) == x@);
        assert(y@.take(i as int) == y@);
        lemma_bytes_determine_text(a@, b@);
    }
    true
}

/// Strict lexicographic order on byte strings.
pub open spec fn lex_lt(a: Seq<u8>, b: Seq<u8>) -> bool
    decreases a.len(),
{
    if b.len() == 0 {
        false
    } else if a.len() == 0 {
        true
    } else if a[0] != b[0] {
        a[0] < b[0]
    } else {
        lex_lt(a.drop_first(), b.drop_first())
    }
}

/// Strict order on texts: the lexicographic order of their UTF-8 bytes.
pub open spec fn text_lt(a: Seq<char>, b: Seq<char>) -> bool {
    lex_lt(vstd::utf8::encode_utf8(a), vstd::utf8::encode_utf8(b))
}

/// No byte string sorts before itself.
pub proof fn lemma_lex_lt_irreflexive(a: Seq<u8>)
    ensures
        !lex_lt(a, a),
    decreases a.len(),
{
    if a.len() > 0 {
        lemma_lex_lt_irreflexive(a.drop_first());
    }
}

/// The order on byte strings is transitive.
pub proof fn lemma_lex_lt_transitive(a: Seq<u8>, b: Seq<u8>, c: Seq<u8>)
    requires
        lex_lt(a, b),
        lex_lt(b, c),
    ensures
        lex_lt(a, c),
    decreases a.len(),
{
    if a.len() > 0 && b.len() > 0 && c.len() > 0 && a[0] == b[0] && b[0] == c[0] {
        lemma_lex_lt_transitive(a.drop_first(), b.drop_first(), c.drop_first());
    }
}

/// Of two different byte strings one sorts before the other.
pub proof fn lemma_lex_lt_total(a: Seq<u8>, b: Seq<u8>)
    ensures
        lex_lt(a, b) || lex_lt(b, a) || a == b,
    decreases a.len(),
{
    if a.len() > 0 && b.len() > 0 && a[0] == b[0] {
        lemma_lex_lt_total(a.drop_first(), b.drop_first());
        if a.drop_first() == b.drop_first() {
            assert(a =~= seq![a[0]] + a.drop_first());
            assert(b =~= seq![b[0]] + b.drop_first());
        }
    } else if a.len() == 0 && b.len() == 0 {
        assert(a =~= b);
    }
}

/// Skipping a common prefix does not change the order.
pub proof fn lemma_lex_lt_skip(a: Seq<u8>, b: Seq<u8>, k: int)
    requires
        0 <= k <= a.len(),
        k <= b.len(),
        a.take(k) == b.take(k),
    ensures
        lex_lt(a, b) == lex_lt(a.skip(k), b.skip(k)),
    decreases k,
{
    if k > 0 {
        assert(a[0] == a.take(k)[0]);
        assert(b[0] == b.take(k)[0]);
        assert(a.drop_first().take(k - 1) =~= a.take(k).drop_first());
        assert(b.drop_first().take(k - 1) =~= b.take(k).drop_first());
        lemma_lex_lt_skip(a.drop_first(), b.drop_first(), k - 1);
        assert(a.drop_first().skip(k - 1) =~= a.skip(k));
        assert(b.drop_first().skip(k - 1) =~= b.skip(k));
    } else {
        assert(a.skip(0) =~= a);
        assert(b.skip(0) =~= b);
    }
}

/// `text_lt` is a strict total order on texts.
pub proof fn lemma_text_lt_order(a: Seq<char>, b: Seq<char>, c: Seq<char>)
    ensures
        !text_lt(a, a),
        text_lt(a, b) && text_lt(b, c) ==> text_lt(a, c),
        text_lt(a, b) || text_lt(b, a) || a == b,
{
    let x = vstd::utf8::encode_utf8(a);
    let y = vstd::utf8::encode_utf8(b);
    let z = vstd::utf8::encode_utf8(c);
    lemma_lex_lt_irreflexive(x);
    if lex_lt(x, y) && lex_lt(y, z) {
        lemma_lex_lt_transitive(x, y, z);
    }
    lemma_lex_lt_total(x, y);
    if x == y {
        lemma_bytes_determine_text(a, b);
    }
}

/// Whether `a` sorts strictly before `b`.
pub fn str_lt(a: &str, b: &str) -> (r: bool)
    ensures
        r == text_lt(a@, b@),
{
    let x = a.as_bytes();
    let y = b.as_bytes();
    let mut i: usize = 0;
    while i < x.len() && i < y.len()
        invariant
            x@ == a.spec_bytes(),
            y@ == b.spec_bytes(),
            i <= x.len(),
            i <= y.len(),
            x@.take(i as int) == y@.take(i as int),
        decreases x.len() - i,
    {
        if x[i] != y[i] {
            proof {
                lemma_lex_lt_skip(x@, y@, i as int);
                assert(x@.skip(i as int)[0] == x@[i as int]);
                assert(y@.skip(i as int)[0] == y@[i as int]);
            }
            return x[i] < y[i];
        }
        assert(x@.take(i + 1) == x@.take(i as int).push(x@[i as int]));
        assert(y@.take(i + 1) == y@.take(i as int).push(y@[i as int]));
        i = i + 1;
    }
    proof {
        lemma_lex_lt_skip(x@, y@, i as int);
    }
    i < y.len()
}

/// The map that `str::to_lowercase` applies to a text.
pub uninterp spec fn lowercase(s: Seq<char>) -> Seq<char>;

/// `str::to_lowercase`: the lowercase form of `s` under Unicode's rules, as a
/// new `String`. The result is a function of the text alone.
#[verifier::external_body]
pub(crate) fn to_lowercase(s: &str) -> (r: String)
    ensures
        r@ == lowercase(s@),
{
    s.to_lowercase()
}

/// Whether `char::is_whitespace` holds of a character (Unicode `White_Space`).
pub uninterp spec fn unicode_whitespace(c: char) -> bool;

/// `char::is_whitespace`: whether `c` has the Unicode `White_Space` property.
#[verifier::external_body]
pub(crate) fn is_whitespace(c: char) -> (r: bool)
    ensures
        r == unicode_whitespace(c),
{
    c.is_whitespace()
}

/// `s` with every occurrence of `from` replaced by `to`.
pub open spec fn replaced(s: Seq<char>, from: char, to: char) -> Seq<char> {
    Seq::new(s.len(), |i: int| if s[i] == from { to } else { s[i] })
}

/// Replaces every occurrence of the character `from` by `to`.
pub fn replace_char(s: &str, from: char, to: char) -> (r: String)
    ensures
        r@ == replaced(s@, from, to),
{
    let mut out = String::new();
    for c in it: s.chars()
        invariant
            it.seq() == s@,
            out@ == replaced(s@, from, to).take(it.index()),
    {
        if c == from {
            out.push(to);
        } else {
            out.push(c);
        }
        assert(out@ == replaced(s@, from, to).take(it.index() + 1));
    }
    out
}

/// The last index at which `s` holds `a` or `b`; `-1` when it holds neither.
pub open spec fn last_index_of(s: Seq<char>, a: char, b: char) -> int
    decreases s.len(),
{
    if s.len() == 0 {
        -1
    } else if s.last() == a || s.last() == b {
        s.len() - 1
    } else {
        last_index_of(s.drop_last(), a, b)
    }
}

/// `last_index_of` is an index of `a` or `b`, and none follows it.
pub proof fn lemma_last_index_of(s: Seq<char>, a: char, b: char)
    ensures
        -1 <= last_index_of(s, a, b) < s.len(),
        last_index_of(s, a, b) >= 0 ==> s[last_index_of(s, a, b)] == a || s[last_index_of(s, a, b)]
            == b,
        forall|i: int| last_index_of(s, a, b) < i < s.len() ==> s[i] != a && s[i] != b,
    decreases s.len(),
{
    if s.len() > 0 && !(s.last() == a || s.last() == b) {
        lemma_last_index_of(s.drop_last(), a, b);
        assert forall|i: int| last_index_of(s, a, b) < i < s.len() implies s[i] != a && s[i]
            != b by {
            if i < s.len() - 1 {
                assert(s.drop_last()[i] == s[i]);
            }
        }
    }
}

/// Finds the last occurrence of `a` or `b` in `v`.
pub fn find_last(v: &Vec<char>, a: char, b: char) -> (r: Option<usize>)
    ensures
        match r {
            Some(i) => i as int == last_index_of(v@, a, b),
            None => last_index_of(v@, a, b) == -1,
        },
{
    let mut k: usize = v.len();
    assert(v@.take(k as int) =~= v@);
    while k > 0
        invariant
            k <= v.len(),
            last_index_of(v@, a, b) == last_index_of(v@.take(k as int), a, b),
        decreases k,
    {
        assert(v@.take(k as int).last() == v@[k - 1]);
        assert(v@.take(k as int).drop_last() =~= v@.take(k - 1));
        if v[k - 1] == a || v[k - 1] == b {
            return Some(k - 1);
        }
        k = k - 1;
    }
    None
}

/// Whether `c` is one of the digits `0` to `9`.
pub open spec fn is_ascii_digit(c: char) -> bool {
    '0' <= c <= '9'
}

/// The value of the decimal digit `c`.
pub open spec fn digit_value(c: char) -> nat {
    (c as u32 - '0' as u32) as nat
}

/// Whether `s` consists of decimal digits only.
pub open spec fn all_digits(s: Seq<char>) -> bool {
    forall|i: int| 0 <= i < s.len() ==> is_ascii_digit(#[trigger] s[i])
}

/// The number that the decimal digits `s` write.
pub open spec fn decimal_value(s: Seq<char>) -> nat
    decreases s.len(),
{
    if s.len() == 0 {
        0
    } else {
        decimal_value(s.drop_last()) * 10 + digit_value(s.last())
    }
}

/// The number that `s` writes as an unsigned decimal of 32 bits: an optional
/// `+`, then at least one digit of `0` to `9` and nothing else, the value
/// within range.
pub open spec fn parsed_u32(s: Seq<char>) -> Option<u32> {
    let body = if s.len() > 0 && s[0] == '+' {
        s.skip(1)
    } else {
        s
    };
    if body.len() > 0 && all_digits(body) && decimal_value(body) <= u32::MAX {
        Some(decimal_value(body) as u32)
    } else {
        None
    }
}

/// Longer digit strings do not write smaller numbers.
pub proof fn lemma_decimal_value_grows(s: Seq<char>, k: int)
    requires
        0 <= k <= s.len(),
    ensures
        decimal_value(s.take(k)) <= decimal_value(s),
    decreases s.len() - k,
{
    if k < s.len() {
        lemma_decimal_value_grows(s, k + 1);
        assert(s.take(k + 1).drop_last() =~= s.take(k));
    } else {
        assert(s.take(k) =~= s);
    }
}

/// Reads an unsigned decimal number from the characters `v[from..]`.
pub(crate) fn parse_u32_from(v: &Vec<char>, from: usize) -> (r: Option<u32>)
    requires
        from <= v.len(),
    ensures
        r == parsed_u32(v@.skip(from as int)),
{
    let ghost s = v@.skip(from as int);
    let ghost target = parsed_u32(s);
    let mut i: usize = from;
    if i < v.len() && v[i] == '+' {
        i = i + 1;
    }
    let start = i;
    let ghost body = v@.skip(start as int);
    assert(body =~= if s.len() > 0 && s[0] == '+' {
        s.skip(1)
    } else {
        s
    });
    if start == v.len() {
        return None;
    }
    let mut value: u64 = 0;
    assert(body.take(0) =~= Seq::empty());
    while i < v.len()
        invariant
            start <= i <= v.len(),
            body == v@.skip(start as int),
            target == parsed_u32(v@.skip(from as int)),
            target == if body.len() > 0 && all_digits(body) && decimal_value(body) <= u32::MAX {
                Some(decimal_value(body) as u32)
            } else {
                None
            },
            all_digits(body.take(i - start)),
            value == decimal_value(body.take(i - start)),
            value <= u32::MAX,
        decreases v.len() - i,
    {
        let c = v[i];
        assert(body[i - start] == c);
        if !(c >= '0' && c <= '9') {
            assert(!is_ascii_digit(body[i - start]));
            return None;
        }
        let d: u64 = (c as u32 - '0' as u32) as u64;
        assert(body.take(i - start + 1).drop_last() =~= body.take(i - start));
        assert(body.take(i - start + 1).last() == c);
        value = value * 10 + d;
        if value > 0xffff_ffff {
            proof {
                lemma_decimal_value_grows(body, i - start + 1);
            }
            return None;
        }
        i = i + 1;
    }
    assert(body.take(i - start) =~= body);
    Some(value as u32)
}

/// Reads an unsigned decimal number.
pub fn parse_u32(s: &str) -> (r: Option<u32>)
    ensures
        r == parsed_u32(s@),
{
    let v = chars_of(s);
    assert(v@.skip(0) =~= v@);
    parse_u32_from(&v, 0)
}

/// The part of `text` before the byte offset `end` of its UTF-8 encoding, when
/// `end` lies on a character boundary.
pub open spec fn text_before(text: Seq<char>, end: int) -> Option<Seq<char>> {
    let bytes = vstd::utf8::encode_utf8(text);
    if vstd::utf8::is_char_boundary(bytes, end) {
        Some(vstd::utf8::decode_utf8(bytes.subrange(0, end)))
    } else {
        None
    }
}

/// The part of `text` between the byte offsets `start` and `end` of its UTF-8
/// encoding, when both lie on character boundaries and `start` is not behind
/// `end`.
pub open spec fn text_between(text: Seq<char>, start: int, end: int) -> Option<Seq<char>> {
    let bytes = vstd::utf8::encode_utf8(text);
    if vstd::utf8::is_char_boundary(bytes, end) && vstd::utf8::is_char_boundary(
        bytes.subrange(0, end),
        start,
    ) {
        Some(vstd::utf8::decode_utf8(bytes.subrange(start, end)))
    } else {
        None
    }
}

/// A character boundary lies within the text.
pub proof fn lemma_boundary_in_range(bytes: Seq<u8>, index: int)
    requires
        vstd::utf8::valid_utf8(bytes),
        vstd::utf8::is_char_boundary(bytes, index),
    ensures
        0 <= index <= bytes.len(),
{
}

/// The part of `text` before the byte offset `end`.
pub fn str_before<'a>(text: &'a str, end: usize) -> (r: Option<&'a str>)
    ensures
        r.deep_view() == text_before(text@, end as int),
        r matches Some(t) ==> t.spec_bytes() == text.spec_bytes().subrange(0, end as int),
{
    if text.is_char_boundary(end) {
        let (head, _) = text.split_at(end);
        proof {
            vstd::utf8::encode_utf8_decode_utf8(head@);
        }
        Some(head)
    } else {
        None
    }
}

/// The part of `text` between the byte offsets `start` and `end`.
pub fn str_between<'a>(text: &'a str, start: usize, end: usize) -> (r: Option<&'a str>)
    ensures
        r.deep_view() == text_between(text@, start as int, end as int),
{
    match str_before(text, end) {
        None => None,
        Some(head) => {
            if head.is_char_boundary(start) {
                let (_, tail) = head.split_at(start);
                proof {
                    vstd::utf8::encode_utf8_decode_utf8(tail@);
                    let bytes = text.spec_bytes();
                    vstd::utf8::encode_utf8_valid_utf8(text@);
                    vstd::utf8::encode_utf8_valid_utf8(head@);
                    lemma_boundary_in_range(bytes, end as int);
                    lemma_boundary_in_range(head.spec_bytes(), start as int);
                    assert(bytes.subrange(0, end as int).subrange(
                        start as int,
                        bytes.subrange(0, end as int).len() as int,
                    ) =~= bytes.subrange(start as int, end as int));
                }
                Some(tail)
            } else {
                None
            }
        },
    }
}

/// The character that writes the digit `d`.
pub open spec fn digit_char(d: nat) -> char {
    ((d + 48) as u8) as char
}

/// The decimal digits of `n`, without leading zeros.
pub open spec fn decimal_text(n: nat) -> Seq<char>
    decreases n,
{
    if n < 10 {
        seq![digit_char(n)]
    } else {
        decimal_text(n / 10).push(digit_char(n % 10))
    }
}

fn push_decimal(out: &mut String, n: u64)
    ensures
        final(out)@ == old(out)@ + decimal_text(n as nat),
    decreases n,
{
    if n >= 10 {
        push_decimal(out, n / 10);
    }
    let d: u8 = (n % 10) as u8;
    out.push((d + 48) as char);
    proof {
        if n < 10 {
            assert(old(out)@.push(digit_char(n as nat)) =~= old(out)@ + decimal_text(n as nat));
        } else {
            assert((old(out)@ + decimal_text((n / 10) as nat)).push(digit_char((n % 10) as nat))
                =~= old(out)@ + decimal_text(n as nat));
        }
    }
}

/// Writes `n` in decimal.
pub fn decimal_of(n: u64) -> (r: String)
    ensures
        r@ == decimal_text(n as nat),
{
    let mut out = String::new();
    push_decimal(&mut out, n);
    assert(Seq::<char>::empty() + decimal_text(n as nat) =~= decimal_text(n as nat));
    out
}

/// Appends the decimal digits of `n` to `out`.
pub fn append_decimal(out: &mut String, n: u64)
    ensures
        final(out)@ == old(out)@ + decimal_text(n as nat),
{
    push_decimal(out, n);
}

/// Appends `s` to `out`.
pub fn append_str(out: &mut String, s: &str)
    ensures
        final(out)@ == old(out)@ + s@,
{
    out.append(s);
}

/// Whether `pat` stands in `s` at index `i`.
pub open spec fn occurs_at(s: Seq<char>, pat: Seq<char>, i: int) -> bool {
    0 <= i && i + pat.len() <= s.len() && s.subrange(i, i + pat.len()) == pat
}

/// Whether `pat` stands in `v` at index `i`.
pub fn matches_at(v: &Vec<char>, pat: &Vec<char>, i: usize) -> (r: bool)
    ensures
        r == occurs_at(v@, pat@, i as int),
{
    if pat.len() > v.len() || i > v.len() - pat.len() {
        return false;
    }
    let mut k: usize = 0;
    while k < pat.len()
        invariant
            k <= pat.len(),
            i + pat.len() <= v.len(),
            forall|j: int| 0 <= j < k ==> v@[i + j] == pat@[j],
        decreases pat.len() - k,
    {
        if v[i + k] != pat[k] {
            assert(v@.subrange(i as int, i + pat.len())[k as int] != pat@[k as int]);
            return false;
        }
        k = k + 1;
    }
    assert(v@.subrange(i as int, i + pat.len()) =~= pat@);
    true
}

/// The pieces of `s` from `start` on that the separator `sep` parts, when the
/// search for the next separator stands at `i`. Separators are found from
/// left to right and do not overlap.
pub open spec fn pieces_from(s: Seq<char>, sep: Seq<char>, start: int, i: int) -> Seq<Seq<char>>
    decreases s.len() - i,
{
    if sep.len() == 0 || i < start || start < 0 || i + sep.len() > s.len() {
        seq![s.subrange(start, s.len() as int)]
    } else if occurs_at(s, sep, i) {
        seq![s.subrange(start, i)] + pieces_from(s, sep, i + sep.len(), i + sep.len())
    } else {
        pieces_from(s, sep, start, i + 1)
    }
}

/// The pieces of `s` between the occurrences of `sep`; a text without the
/// separator is one piece.
pub open spec fn split_text(s: Seq<char>, sep: Seq<char>) -> Seq<Seq<char>> {
    pieces_from(s, sep, 0, 0)
}

/// Splits `s` at each occurrence of `sep`.
pub fn split(s: &str, sep: &str) -> (r: Vec<String>)
    ensures
        r.deep_view() == split_text(s@, sep@),
{
    let v = chars_of(s);
    let p = chars_of(sep);
    let mut out: Vec<String> = Vec::new();
    let mut start: usize = 0;
    let mut i: usize = 0;
    assert(out.deep_view() =~= Seq::empty());
    assert(Seq::<Seq<char>>::empty() + pieces_from(v@, p@, 0, 0) =~= pieces_from(v@, p@, 0, 0));
    while p.len() > 0 && p.len() <= v.len() && i <= v.len() - p.len()
        invariant
            start <= i <= v.len(),
            split_text(v@, p@) == out.deep_view() + pieces_from(v@, p@, start as int, i as int),
        decreases v.len() - i,
    {
        let ghost before = out.deep_view();
        if matches_at(&v, &p, i) {
            out.push(string_of_range(&v, start, i));
            assert(out.deep_view() =~= before.push(v@.subrange(start as int, i as int)));
            i = i + p.len();
            start = i;
            assert(split_text(v@, p@) =~= out.deep_view() + pieces_from(
                v@,
                p@,
                start as int,
                i as int,
            ));
        } else {
            i = i + 1;
        }
    }
    let ghost before = out.deep_view();
    out.push(string_of_range(&v, start, v.len()));
    assert(out.deep_view() =~= before.push(v@.subrange(start as int, v@.len() as int)));
    assert(out.deep_view() =~= before + pieces_from(v@, p@, start as int, i as int));
    out
}

/// `s` from index `i` on, without the occurrences of `pat`, which are found
/// from left to right and do not overlap.
pub open spec fn without_from(s: Seq<char>, pat: Seq<char>, i: int) -> Seq<char>
    decreases s.len() - i,
{
    if i < 0 || i >= s.len() {
        Seq::empty()
    } else if pat.len() > 0 && occurs_at(s, pat, i) {
        without_from(s, pat, i + pat.len())
    } else {
        seq![s[i]] + without_from(s, pat, i + 1)
    }
}

/// `s` without the occurrences of `pat`.
pub open spec fn without_text(s: Seq<char>, pat: Seq<char>) -> Seq<char> {
    without_from(s, pat, 0)
}

/// Removes every occurrence of `pat` from `s`.
pub fn remove_all(s: &str, pat: &str) -> (r: String)
    ensures
        r@ == without_text(s@, pat@),
{
    let v = chars_of(s);
    let p = chars_of(pat);
    let mut out = String::new();
    let mut i: usize = 0;
    assert(Seq::<char>::empty() + without_from(v@, p@, 0) =~= without_from(v@, p@, 0));
    while i < v.len()
        invariant
            i <= v.len(),
            without_text(v@, p@) == out@ + without_from(v@, p@, i as int),
        decreases v.len() - i,
    {
        let ghost before = out@;
        if p.len() > 0 && matches_at(&v, &p, i) {
            i = i + p.len();
        } else {
            out.push(v[i]);
            assert(before + (seq![v@[i as int]] + without_from(v@, p@, i + 1)) =~= out@
                + without_from(v@, p@, i + 1));
            i = i + 1;
        }
    }
    assert(out@ + Seq::<char>::empty() =~= out@);
    out
}

/// How many characters at the start of `s` are white space.
pub open spec fn leading_whitespace(s: Seq<char>) -> int
    decreases s.len(),
{
    if s.len() > 0 && unicode_whitespace(s[0]) {
        1 + leading_whitespace(s.drop_first())
    } else {
        0
    }
}

/// How many characters at the end of `s` are white space.
pub open spec fn trailing_whitespace(s: Seq<char>) -> int
    decreases s.len(),
{
    if s.len() > 0 && unicode_whitespace(s.last()) {
        1 + trailing_whitespace(s.drop_last())
    } else {
        0
    }
}

/// `s` without the white space at its start and at its end.
pub open spec fn trimmed(s: Seq<char>) -> Seq<char> {
    let from = leading_whitespace(s);
    if from >= s.len() {
        Seq::empty()
    } else {
        s.subrange(from, s.len() - trailing_whitespace(s))
    }
}

proof fn lemma_leading_whitespace(s: Seq<char>, k: int)
    requires
        0 <= k <= s.len(),
        forall|j: int| 0 <= j < k ==> unicode_whitespace(#[trigger] s[j]),
        k < s.len() ==> !unicode_whitespace(s[k]),
    ensures
        leading_whitespace(s) == k,
    decreases k,
{
    if k > 0 {
        let rest = s.drop_first();
        assert(unicode_whitespace(s[0]));
        assert forall|j: int| 0 <= j < k - 1 implies unicode_whitespace(#[trigger] rest[j]) by {
            assert(rest[j] == s[j + 1]);
        }
        lemma_leading_whitespace(rest, k - 1);
    }
}

proof fn lemma_trailing_whitespace(s: Seq<char>, k: int)
    requires
        0 <= k <= s.len(),
        forall|j: int| s.len() - k <= j < s.len() ==> unicode_whitespace(#[trigger] s[j]),
        k < s.len() ==> !unicode_whitespace(s[s.len() - k - 1]),
    ensures
        trailing_whitespace(s) == k,
    decreases k,
{
    if k > 0 {
        let rest = s.drop_last();
        assert(unicode_whitespace(s[s.len() - 1]));
        assert forall|j: int| rest.len() - (k - 1) <= j < rest.len() implies unicode_whitespace(
            #[trigger] rest[j],
        ) by {
            assert(rest[j] == s[j]);
        }
        lemma_trailing_whitespace(rest, k - 1);
    }
}

/// Removes the white space at both ends of `s`.
pub fn trim(s: &str) -> (r: String)
    ensures
        r@ == trimmed(s@),
{
    let v = chars_of(s);
    let mut from: usize = 0;
    while from < v.len() && is_whitespace(v[from])
        invariant
            from <= v.len(),
            forall|j: int| 0 <= j < from ==> unicode_whitespace(#[trigger] v@[j]),
        decreases v.len() - from,
    {
        from = from + 1;
    }
    proof {
        lemma_leading_whitespace(v@, from as int);
    }
    if from == v.len() {
        return String::new();
    }
    let mut to: usize = v.len();
    while to > from + 1 && is_whitespace(v[to - 1])
        invariant
            from < to <= v.len(),
            !unicode_whitespace(v@[from as int]),
            forall|j: int| to <= j < v.len() ==> unicode_whitespace(#[trigger] v@[j]),
        decreases to,
    {
        to = to - 1;
    }
    proof {
        lemma_trailing_whitespace(v@, v.len() - to);
    }
    string_of_range(&v, from, to)
}

/// What stands in `s` before the first `sep`; all of `s` when it holds none.
pub open spec fn first_segment(s: Seq<char>, sep: char) -> Seq<char>
    decreases s.len(),
{
    if s.len() == 0 {
        s
    } else if s[0] == sep {
        Seq::empty()
    } else {
        seq![s[0]] + first_segment(s.drop_first(), sep)
    }
}

proof fn lemma_first_segment(s: Seq<char>, sep: char, k: int)
    requires
        0 <= k <= s.len(),
        forall|j: int| 0 <= j < k ==> s[j] != sep,
        k < s.len() ==> s[k] == sep,
    ensures
        first_segment(s, sep) == s.take(k),
    decreases k,
{
    if k > 0 {
        let rest = s.drop_first();
        assert(s[0] != sep);
        assert forall|j: int| 0 <= j < k - 1 implies rest[j] != sep by {
            assert(rest[j] == s[j + 1]);
        }
        lemma_first_segment(rest, sep, k - 1);
        assert(seq![s[0]] + rest.take(k - 1) =~= s.take(k));
    } else {
        assert(s.take(0) =~= Seq::<char>::empty());
    }
}

/// The number that stands in `s` before the first `sep`.
pub fn leading_number(s: &str, sep: char) -> (r: Option<u32>)
    ensures
        r == parsed_u32(first_segment(s@, sep)),
{
    let v = chars_of(s);
    let mut k: usize = 0;
    while k < v.len() && v[k] != sep
        invariant
            k <= v.len(),
            forall|j: int| 0 <= j < k ==> v@[j] != sep,
        decreases v.len() - k,
    {
        k = k + 1;
    }
    proof {
        lemma_first_segment(v@, sep, k as int);
    }
    let mut head: Vec<char> = Vec::new();
    let mut i: usize = 0;
    while i < k
        invariant
            i <= k <= v.len(),
            head@ == v@.take(i as int),
        decreases k - i,
    {
        head.push(v[i]);
        assert(v@.take(i + 1) =~= v@.take(i as int).push(v@[i as int]));
        i = i + 1;
    }
    assert(head@.skip(0) =~= head@);
    parse_u32_from(&head, 0)
}

} // verus!
