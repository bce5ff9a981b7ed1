//! Comparing and searching strings.
//!
//! Strings are ordered as their UTF-8 encodings are, byte by byte.

use vstd::prelude::*;
use vstd::string::*;
use vstd::utf8::{encode_utf8, encode_utf8_decode_utf8};

verus! {

/// The lexicographic order on byte strings; a proper prefix comes first.
pub open spec fn bytes_before(a: Seq<u8>, b: Seq<u8>) -> bool
    decreases a.len(),
{
    &&& b.len() > 0
    &&& a.len() == 0 || a[0] < b[0] || (a[0] == b[0] && bytes_before(
        a.drop_first(),
        b.drop_first(),
    ))
}

/// The order on strings.
pub open spec fn text_before(a: Seq<char>, b: Seq<char>) -> bool {
    bytes_before(encode_utf8(a), encode_utf8(b))
}

/// The characters of an optional string.
pub open spec fn opt_text(text: Option<String>) -> Option<Seq<char>> {
    match text {
        Some(text) => Some(text@),
        None => None,
    }
}

/// The order on optional strings: an absent one comes before every other.
pub open spec fn opt_text_before(a: Option<Seq<char>>, b: Option<Seq<char>>) -> bool {
    match (a, b) {
        (_, None) => false,
        (None, Some(_)) => true,
        (Some(a), Some(b)) => text_before(a, b),
    }
}

/// Whether `part` occurs in `whole`, starting at position `at`.
pub open spec fn occurs_at(whole: Seq<char>, part: Seq<char>, at: int) -> bool {
    &&& 0 <= at
    &&& at + part.len() <= whole.len()
    &&& whole.subrange(at, at + part.len()) == part
}

/// A source is a URL when it contains `://`.
pub open spec fn is_url(source: Seq<char>) -> bool {
    exists|at: int| occurs_at(source, seq![':', '/', '/'], at)
}

proof fn lemma_bytes_order(a: Seq<u8>, b: Seq<u8>, c: Seq<u8>)
    ensures
        !bytes_before(a, a),
        bytes_before(a, b) && bytes_before(b, c) ==> bytes_before(a, c),
        bytes_before(a, b) || bytes_before(b, a) || a == b,
    decreases a.len() + b.len() + c.len(),
{
    if a.len() > 0 {
        if b.len() > 0 {
            if c.len() > 0 {
                lemma_bytes_order(a.drop_first(), b.drop_first(), c.drop_first());
            } else {
                lemma_bytes_order(a.drop_first(), b.drop_first(), c);
            }
            if a[0] == b[0] && a.drop_first() == b.drop_first() {
                assert(a =~= seq![a[0]] + a.drop_first());
                assert(b =~= seq![b[0]] + b.drop_first());
            }
        } else {
            lemma_bytes_order(a.drop_first(), b, c);
        }
    } else if b.len() == 0 {
        assert(a =~= b);
    }
}

/// Strings with the same encoding are the same string.
pub proof fn lemma_encoding_injective(a: Seq<char>, b: Seq<char>)
    ensures
        encode_utf8(a) == encode_utf8(b) ==> a == b,
{
    encode_utf8_decode_utf8(a);
    encode_utf8_decode_utf8(b);
}

/// The order on strings is a strict total order.
pub proof fn lemma_text_order(a: Seq<char>, b: Seq<char>, c: Seq<char>)
    ensures
        !text_before(a, a),
        text_before(a, b) && text_before(b, c) ==> text_before(a, c),
        text_before(a, b) || text_before(b, a) || a == b,
{
    lemma_bytes_order(encode_utf8(a), encode_utf8(b), encode_utf8(c));
    lemma_encoding_injective(a, b);
}

/// The order on optional strings is a strict total order.
pub proof fn lemma_opt_text_order(
    a: Option<Seq<char>>,
    b: Option<Seq<char>>,
    c: Option<Seq<char>>,
)
    ensures
        !opt_text_before(a, a),
        opt_text_before(a, b) && opt_text_before(b, c) ==> opt_text_before(a, c),
        opt_text_before(a, b) || opt_text_before(b, a) || a == b,
{
    let e = Seq::<char>::empty();
    let x = if a is Some { a->0 } else { e };
    let y = if b is Some { b->0 } else { e };
    let z = if c is Some { c->0 } else { e };
    lemma_text_order(x, y, z);
}

fn bytes_precede(a: &[u8], b: &[u8]) -> (r: bool)
    ensures
        r == bytes_before(a@, b@),
{
    let mut i: usize = 0;
    assert(a@.skip(0) =~= a@);
    assert(b@.skip(0) =~= b@);
    while i < a.len() && i < b.len()
        invariant
            i <= a@.len(),
            i <= b@.len(),
            bytes_before(a@, b@) == bytes_before(a@.skip(i as int), b@.skip(i as int)),
        decreases a@.len() - i,
    {
        let x: u8 = a[i];
        let y: u8 = b[i];
        if x < y {
            return true;
        }
        if y < x {
            return false;
        }
        assert(a@.skip(i as int).drop_first() =~= a@.skip(i + 1));
        assert(b@.skip(i as int).drop_first() =~= b@.skip(i + 1));
        i = i + 1;
    }
    i < b.len()
}

/// Whether `a` comes before `b`.
pub fn text_precedes(a: &str, b: &str) -> (r: bool)
    ensures
        r == text_before(a@, b@),
{
    bytes_precede(a.as_bytes(), b.as_bytes())
}

/// Whether the optional string `a` comes before `b`.
pub fn opt_text_precedes(a: &Option<String>, b: &Option<String>) -> (r: bool)
    ensures
        r == opt_text_before(opt_text(*a), opt_text(*b)),
{
    match (a, b) {
        (_, None) => false,
        (None, Some(_)) => true,
        (Some(a), Some(b)) => text_precedes(a.as_str(), b.as_str()),
    }
}

/// Whether two strings hold the same characters.
pub fn same_text(a: &str, b: &str) -> (r: bool)
    ensures
        r == (a@ == b@),
{
    let x = a.as_bytes();
    let y = b.as_bytes();
    proof {
        lemma_encoding_injective(a@, b@);
    }
    if x.len() != y.len() {
        return false;
    }
    let mut i: usize = 0;
    while i < x.len()
        invariant
            i <= x@.len(),
            x@.len() == y@.len(),
            x@ == encode_utf8(a@),
            y@ == encode_utf8(b@),
            forall|j: int| 0 <= j < i ==> x@[j] == y@[j],
        decreases x@.len() - i,
    {
        if x[i] != y[i] {
            return false;
        }
        i = i + 1;
    }
    assert(x@ =~= y@);
    true
}

/// Whether the optional string is there and holds the characters of `text`.
pub fn opt_text_is(opt: &Option<String>, text: &str) -> (r: bool)
    ensures
        r == (opt_text(*opt) == Some(text@)),
{
    match opt {
        Some(s) => same_text(s.as_str(), text),
        None => false,
    }
}

/// A copy of an optional string.
pub fn copy_opt_text(opt: &Option<String>) -> (r: Option<String>)
    ensures
        r == *opt,
{
    match opt {
        Some(s) => Some(s.clone()),
        None => None,
    }
}

/// Whether the source names something to download rather than a local file.
pub fn source_is_url(source: &str) -> (r: bool)
    ensures
        r == is_url(source@),
{
    let n = source.unicode_len();
    if n < 3 {
        return false;
    }
    let mut at: usize = 0;
    while at <= n - 3
        invariant
            n == source@.len(),
            3 <= n,
            at <= n - 2,
            forall|j: int| 0 <= j < at ==> !occurs_at(source@, seq![':', '/', '/'], j),
        decreases n - at,
    {
        if source.get_char(at) == ':' && source.get_char(at + 1) == '/' && source.get_char(at + 2)
            == '/' {
            assert(source@.subrange(at as int, at + 3) =~= seq![':', '/', '/']);
            assert(occurs_at(source@, seq![':', '/', '/'], at as int));
            return true;
        }
        assert(!occurs_at(source@, seq![':', '/', '/'], at as int)) by {
            if occurs_at(source@, seq![':', '/', '/'], at as int) {
                let s = source@.subrange(at as int, at + 3);
                assert(s[0] == ':' && s[1] == '/' && s[2] == '/');
            }
        }
        at = at + 1;
    }
    false
}

/// The decimal digit for a number below 10.
pub open spec fn decimal_digit(n: int) -> char {
    (n + 48) as char
}

/// The decimal digits of a number that is not negative, without leading zeros.
pub open spec fn decimal_digits(n: int) -> Seq<char>
    decreases n,
{
    if n < 10 {
        seq![decimal_digit(n)]
    } else {
        decimal_digits(n / 10).push(decimal_digit(n % 10))
    }
}

/// A number in decimal.
pub open spec fn decimal(n: int) -> Seq<char> {
    if n < 0 {
        seq!['-'] + decimal_digits(-n)
    } else {
        decimal_digits(n)
    }
}

/// `i32::to_string` of the standard library: the number in decimal.
#[verifier::external_body]
pub(crate) fn i32_text(n: i32) -> (r: String)
    ensures
        r@ == decimal(n as int),
{
    n.to_string()
}

/// A text between two others.
pub fn enclosed(before: &str, text: &str, after: &str) -> (r: String)
    ensures
        r@ == before@ + text@ + after@,
{
    let mut r = before.to_owned();
    r.append(text);
    r.append(after);
    r
}

/// The characters of several strings.
pub open spec fn texts(list: Seq<String>) -> Seq<Seq<char>> {
    list.map_values(|text: String| text@)
}

/// Adds a string to others.
pub fn push_text(list: &mut Vec<String>, text: String)
    ensures
        texts(final(list)@) == texts(old(list)@).push(text@),
{
    list.push(text);
    assert(texts(list@) =~= texts(old(list)@).push(text@));
}

/// No strings.
pub fn no_texts() -> (r: Vec<String>)
    ensures
        texts(r@) == Seq::<Seq<char>>::empty(),
{
    let r: Vec<String> = Vec::new();
    assert(texts(r@) =~= Seq::<Seq<char>>::empty());
    r
}

/// A text that is there is its own characters; one that is absent has none.
pub proof fn law_optional_texts(text: Option<String>, chars: Seq<char>)
    ensures
        opt_text(text) == Some(chars) <==> text is Some && text->0@ == chars,
        opt_text(text) is None <==> text is None,
{
}

/// One byte string comes before another just when, after what they have in common, the first
/// ends or goes on with the smaller byte.
pub proof fn law_byte_order_is_lexicographic(common: Seq<u8>, a: Seq<u8>, b: Seq<u8>)
    requires
        a.len() == 0 || b.len() == 0 || a[0] != b[0],
    ensures
        bytes_before(common + a, common + b) <==> b.len() > 0 && (a.len() == 0 || a[0] < b[0]),
    decreases common.len(),
{
    if common.len() > 0 {
        let rest = common.drop_first();
        assert((common + a).drop_first() =~= rest + a);
        assert((common + b).drop_first() =~= rest + b);
        law_byte_order_is_lexicographic(rest, a, b);
    } else {
        assert(common + a =~= a);
        assert(common + b =~= b);
    }
}

/// Texts are ordered as their UTF-8 encodings are; an absent text comes before every other.
pub proof fn law_text_order_is_that_of_the_encodings(a: Option<Seq<char>>, b: Option<Seq<char>>)
    ensures
        a is Some && b is Some ==> (opt_text_before(a, b) <==> bytes_before(
            encode_utf8(a->0),
            encode_utf8(b->0),
        )),
        b is None ==> !opt_text_before(a, b),
        a is None && b is Some ==> opt_text_before(a, b),
{
}

/// A source is a URL just when it is made of some text, a colon with two slashes, and some
/// text.
pub proof fn law_urls_hold_a_colon_and_two_slashes(source: Seq<char>)
    ensures
        is_url(source) <==> exists|before: Seq<char>, after: Seq<char>|
            source == #[trigger] (before + "://"@ + after),
{
    reveal_strlit("://");
    let mark = seq![':', '/', '/'];
    assert("://"@ =~= mark);
    if is_url(source) {
        let at = choose|at: int| occurs_at(source, mark, at);
        let before = source.take(at);
        let after = source.skip(at + 3);
        assert forall|k: int| 0 <= k < 3 implies source[at + k] == mark[k] by {
            assert(source.subrange(at, at + 3)[k] == mark[k]);
        }
        assert(source =~= before + "://"@ + after);
    }
    if exists|before: Seq<char>, after: Seq<char>| source == #[trigger] (before + "://"@ + after) {
        let (before, after) = choose|before: Seq<char>, after: Seq<char>|
            source == #[trigger] (before + "://"@ + after);
        assert(source.subrange(before.len() as int, before.len() as int + 3) =~= mark);
        assert(occurs_at(source, mark, before.len() as int));
    }
}

/// Whether two texts differ only in that one holds `a` where the other holds `b`.
pub open spec fn same_frame(
    text_a: Seq<char>,
    a: Seq<char>,
    text_b: Seq<char>,
    b: Seq<char>,
) -> bool {
    exists|before: Seq<char>, after: Seq<char>|
        text_a == before + a + after && text_b == #[trigger] (before + b + after)
}

/// Texts around which the same is put differ only in what was put there.
pub(crate) proof fn lemma_same_frame(
    before: Seq<char>,
    a: Seq<char>,
    b: Seq<char>,
    after: Seq<char>,
)
    ensures
        same_frame(before + a + after, a, before + b + after, b),
{
    assert(before + b + after == before + b + after);
}

/// Texts that start in the same way differ only in how they go on.
pub(crate) proof fn lemma_same_start(before: Seq<char>, a: Seq<char>, b: Seq<char>)
    ensures
        same_frame(before + a, a, before + b, b),
{
    let none = Seq::<char>::empty();
    assert(before + a =~= before + a + none);
    assert(before + b =~= before + b + none);
    lemma_same_frame(before, a, b, none);
}

/// A text differs from another only in itself.
pub(crate) proof fn lemma_same_whole(a: Seq<char>, b: Seq<char>)
    ensures
        same_frame(a, a, b, b),
{
    let none = Seq::<char>::empty();
    assert(a =~= none + a);
    assert(b =~= none + b);
    lemma_same_start(none, a, b);
}

/// The number that decimal digits stand for.
pub open spec fn digits_value(digits: Seq<char>) -> int
    decreases digits.len(),
{
    if digits.len() == 0 {
        0
    } else {
        10 * digits_value(digits.drop_last()) + (digits.last() as int - '0' as int)
    }
}

/// The decimal digits of a number stand for it, and do not start with a zero unless it is zero.
proof fn lemma_decimal_digits(n: int)
    requires
        n >= 0,
    ensures
        digits_value(decimal_digits(n)) == n,
        decimal_digits(n).len() > 0,
        n > 0 ==> decimal_digits(n)[0] != '0',
        decimal_digits(n)[0] != '-',
    decreases n,
{
    let digits = decimal_digits(n);
    if n < 10 {
        assert(digits.drop_last() =~= Seq::<char>::empty());
        assert(digits_value(digits.drop_last()) == 0);
    } else {
        lemma_decimal_digits(n / 10);
        assert(digits.drop_last() =~= decimal_digits(n / 10));
    }
}

/// A number in decimal reads back as that number: the digits stand for its size, and a minus
/// sign comes first just when it is negative.
pub proof fn law_decimal_reads_back(n: int)
    ensures
        n < 0 <==> decimal(n)[0] == '-',
        n >= 0 ==> digits_value(decimal(n)) == n,
        n < 0 ==> digits_value(decimal(n).drop_first()) == -n,
{
    if n < 0 {
        lemma_decimal_digits(-n);
        assert(decimal(n).drop_first() =~= decimal_digits(-n));
    } else {
        lemma_decimal_digits(n);
    }
}

} // verus!
