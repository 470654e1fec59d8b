//! Text: the few string operations every page is built from.

use vstd::prelude::*;

verus! {

/// `String::push` appends one character.
pub assume_specification[ String::push ](s: &mut String, ch: char)
    ensures
        final(s)@ == old(s)@.push(ch),
;

/// A character with the Unicode `White_Space` property.
pub open spec fn is_white(c: char) -> bool {
    ||| '\u{9}' <= c <= '\u{d}'
    ||| c == ' '
    ||| c == '\u{85}'
    ||| c == '\u{a0}'
    ||| c == '\u{1680}'
    ||| '\u{2000}' <= c <= '\u{200a}'
    ||| c == '\u{2028}'
    ||| c == '\u{2029}'
    ||| c == '\u{202f}'
    ||| c == '\u{205f}'
    ||| c == '\u{3000}'
}

/// `char::is_whitespace` answers whether a character has the Unicode
/// `White_Space` property, whose members [`is_white`] lists.
pub assume_specification[ char::is_whitespace ](c: char) -> (r: bool)
    ensures
        r == is_white(c),
;

/// The text a byte string is shown as: UTF-8 with every ill-formed stretch
/// replaced.
pub uninterp spec fn lossy_text(bytes: Seq<u8>) -> Seq<char>;

/// `String::from_utf8_lossy`: a function of the bytes alone, named
/// [`lossy_text`]; well-formed UTF-8 is decoded unchanged, and as every
/// ill-formed stretch leaves a replacement character, only no bytes at all
/// give no text at all.
#[verifier::external_body]
pub(crate) fn lossy(bytes: &[u8]) -> (r: String)
    ensures
        r@ == lossy_text(bytes@),
        vstd::utf8::valid_utf8(bytes@) ==> r@ == vstd::utf8::decode_utf8(bytes@),
        bytes@.len() > 0 ==> r@.len() > 0,
{
    String::from_utf8_lossy(bytes).into_owned()
}

/// The view of an optional text.
pub open spec fn opt_text(text: Option<String>) -> Option<Seq<char>> {
    match text {
        Some(text) => Some(text@),
        None => None,
    }
}

/// Two texts are the same.
pub fn same(a: &str, b: &str) -> (r: bool)
    ensures
        r == (a@ == b@),
{
    let x = a.as_bytes();
    let y = b.as_bytes();
    proof {
        vstd::utf8::encode_utf8_decode_utf8(a@);
        vstd::utf8::encode_utf8_decode_utf8(b@);
    }
    if x.len() != y.len() {
        return false;
    }
    let mut at: usize = 0;
    while at < x.len()
        invariant
            at <= x@.len(),
            x@.len() == y@.len(),
            x@ == vstd::utf8::encode_utf8(a@),
            y@ == vstd::utf8::encode_utf8(b@),
            forall|i: int| 0 <= i < at ==> x@[i] == y@[i],
        decreases x@.len() - at,
    {
        if x[at] != y[at] {
            return false;
        }
        at = at + 1;
    }
    assert(x@ =~= y@);
    true
}

/// The characters of a text, indexable.
pub fn chars_of(text: &str) -> (r: Vec<char>)
    ensures
        r@ == text@,
{
    let mut out: Vec<char> = Vec::new();
    for c in it: text.chars()
        invariant
            it.seq() == text@,
            out@ == text@.take(it.index()),
    {
        proof {
            assert(text@.take(it.index() + 1) =~= text@.take(it.index()).push(c));
        }
        out.push(c);
    }
    assert(text@.take(text@.len() as int) =~= text@);
    out
}

/// The text of `chars[from..to]`.
pub fn text_between(chars: &Vec<char>, from: usize, to: usize) -> (r: String)
    requires
        from <= to <= chars@.len(),
    ensures
        r@ == chars@.subrange(from as int, to as int),
{
    let mut out = String::new();
    let mut at: usize = from;
    assert(chars@.subrange(from as int, from as int) =~= Seq::<char>::empty());
    while at < to
        invariant
            from <= at <= to <= chars@.len(),
            out@ == chars@.subrange(from as int, at as int),
        decreases to - at,
    {
        assert(chars@.subrange(from as int, at + 1) =~= chars@.subrange(from as int, at as int).push(
            chars@[at as int],
        ));
        out.push(chars[at]);
        at = at + 1;
    }
    out
}

/// The decimal digit `d`.
pub open spec fn digit(d: nat) -> char {
    (48 + d) as char
}

/// A number in decimal, without leading zeros.
pub open spec fn decimal(n: nat) -> Seq<char>
    decreases n,
{
    if n < 10 {
        seq![digit(n)]
    } else {
        decimal(n / 10).push(digit(n % 10))
    }
}

/// A number in decimal.
pub fn decimal_text(n: u64) -> (r: String)
    ensures
        r@ == decimal(n as nat),
    decreases n,
{
    let last: u8 = (n % 10) as u8;
    let c = (48 + last) as char;
    if n < 10 {
        let mut out = String::new();
        out.push(c);
        assert(out@ =~= seq![digit(n as nat)]);
        out
    } else {
        let mut out = decimal_text(n / 10);
        out.push(c);
        out
    }
}

/// An index in decimal.
pub fn index_text(n: usize) -> (r: String)
    ensures
        r@ == decimal(n as nat),
{
    decimal_text(n as u64)
}

/// Nothing but white space.
pub open spec fn blank(text: Seq<char>) -> bool {
    forall|i: int| 0 <= i < text.len() ==> is_white(#[trigger] text[i])
}

/// Whether trimming leaves nothing.
pub fn is_blank(text: &str) -> (r: bool)
    ensures
        r == blank(text@),
{
    for c in it: text.chars()
        invariant
            it.seq() == text@,
            forall|i: int| 0 <= i < it.index() ==> is_white(#[trigger] text@[i]),
    {
        if !c.is_whitespace() {
            assert(!is_white(text@[it.index() as int]));
            return false;
        }
    }
    true
}

/// Whether a text has no characters.
pub fn is_empty(text: &str) -> (r: bool)
    ensures
        r == (text@.len() == 0),
{
    chars_of(text).len() == 0
}

/// Where a character first is, from `at` on.
pub open spec fn found(text: Seq<char>, wanted: char, at: int) -> Option<int>
    decreases text.len() - at,
{
    if at >= text.len() {
        None
    } else if text[at] == wanted {
        Some(at)
    } else {
        found(text, wanted, at + 1)
    }
}

/// Where a character first is.
pub fn find(chars: &Vec<char>, wanted: char) -> (r: Option<usize>)
    ensures
        found(chars@, wanted, 0) == match r {
            Some(at) => Some(at as int),
            None => None,
        },
        r matches Some(at) ==> at < chars@.len() && chars@[at as int] == wanted,
{
    let mut at: usize = 0;
    while at < chars.len()
        invariant
            at <= chars@.len(),
            found(chars@, wanted, 0) == found(chars@, wanted, at as int),
        decreases chars@.len() - at,
    {
        if chars[at] == wanted {
            return Some(at);
        }
        at = at + 1;
    }
    None
}

/// The pieces of a text between separators.
pub open spec fn pieces(text: Seq<char>, separator: char) -> Seq<Seq<char>>
    decreases text.len(),
{
    if text.len() == 0 {
        seq![Seq::empty()]
    } else {
        let before = pieces(text.drop_last(), separator);
        if text.last() == separator {
            before.push(Seq::empty())
        } else {
            before.drop_last().push(before.last().push(text.last()))
        }
    }
}

/// The views of texts.
pub open spec fn texts(list: Seq<String>) -> Seq<Seq<char>> {
    list.map_values(|text: String| text@)
}

/// The pieces of a text between separators.
pub fn split(text: &str, separator: char) -> (r: Vec<String>)
    ensures
        texts(r@) == pieces(text@, separator),
{
    let mut whole: Vec<String> = Vec::new();
    let mut piece = String::new();
    proof {
        assert(text@.take(0) =~= Seq::<char>::empty());
        assert(texts(whole@).push(piece@) =~= seq![Seq::<char>::empty()]);
    }
    for c in it: text.chars()
        invariant
            it.seq() == text@,
            texts(whole@).push(piece@) == pieces(text@.take(it.index()), separator),
    {
        let ghost before = texts(whole@).push(piece@);
        let ghost kept = texts(whole@);
        proof {
            let grown = text@.take(it.index() + 1);
            assert(grown.drop_last() =~= text@.take(it.index()));
            assert(grown.last() == c);
            assert(before.drop_last() =~= kept);
            assert(before.last() == piece@);
        }
        if c == separator {
            let ghost ended = piece@;
            whole.push(piece);
            piece = String::new();
            assert(texts(whole@) =~= kept.push(ended));
            assert(piece@ =~= Seq::<char>::empty());
        } else {
            piece.push(c);
        }
    }
    proof {
        assert(text@.take(text@.len() as int) =~= text@);
    }
    let ghost kept = texts(whole@);
    let ghost ended = piece@;
    whole.push(piece);
    assert(texts(whole@) =~= kept.push(ended));
    whole
}

/// A text begins with `head`.
pub open spec fn begins(text: Seq<char>, head: Seq<char>) -> bool {
    head.len() <= text.len() && text.take(head.len() as int) == head
}

/// What follows `head` at the beginning of a text.
pub fn after(text: &str, head: &str) -> (r: Option<String>)
    ensures
        match r {
            Some(rest) => begins(text@, head@) && rest@ == text@.skip(head@.len() as int),
            None => !begins(text@, head@),
        },
{
    let chars = chars_of(text);
    let lead = chars_of(head);
    if chars.len() < lead.len() {
        return None;
    }
    let mut at: usize = 0;
    while at < lead.len()
        invariant
            at <= lead@.len() <= chars@.len(),
            chars@ == text@,
            lead@ == head@,
            forall|i: int| 0 <= i < at ==> chars@[i] == lead@[i],
        decreases lead@.len() - at,
    {
        if chars[at] != lead[at] {
            assert(text@.take(head@.len() as int)[at as int] != head@[at as int]);
            return None;
        }
        at = at + 1;
    }
    assert(text@.take(head@.len() as int) =~= head@);
    let rest = text_between(&chars, lead.len(), chars.len());
    assert(rest@ =~= text@.skip(head@.len() as int));
    Some(rest)
}

/// A character with its ASCII capitals made small.
pub open spec fn small(c: char) -> char {
    if 'A' <= c && c <= 'Z' {
        ((c as u8) + 32) as u8 as char
    } else {
        c
    }
}

/// Two texts are the same but for ASCII capitals.
pub open spec fn alike(a: Seq<char>, b: Seq<char>) -> bool {
    a.len() == b.len() && forall|i: int| 0 <= i < a.len() ==> small(#[trigger] a[i]) == small(b[i])
}

fn lower(c: char) -> (r: char)
    ensures
        r == small(c),
{
    if 'A' <= c && c <= 'Z' {
        (c as u8 + 32) as char
    } else {
        c
    }
}

/// Whether two texts are the same but for ASCII capitals.
pub fn same_folded(a: &str, b: &str) -> (r: bool)
    ensures
        r == alike(a@, b@),
{
    let x = chars_of(a);
    let y = chars_of(b);
    if x.len() != y.len() {
        return false;
    }
    let mut at: usize = 0;
    while at < x.len()
        invariant
            at <= x@.len(),
            x@.len() == y@.len(),
            x@ == a@,
            y@ == b@,
            forall|i: int| 0 <= i < at ==> small(#[trigger] x@[i]) == small(y@[i]),
        decreases x@.len() - at,
    {
        if lower(x[at]) != lower(y[at]) {
            return false;
        }
        at = at + 1;
    }
    true
}

/// A text has `part` in it.
pub open spec fn has(text: Seq<char>, part: Seq<char>) -> bool {
    exists|at: int|
        0 <= at <= text.len() - part.len() && #[trigger] text.subrange(at, at + part.len()) == part
}

/// Whether a text has `part` in it.
pub fn contains(text: &str, part: &str) -> (r: bool)
    ensures
        r == has(text@, part@),
{
    let chars = chars_of(text);
    let wanted = chars_of(part);
    if chars.len() < wanted.len() {
        return false;
    }
    let total: usize = chars.len();
    let last: usize = total - wanted.len();
    let mut at: usize = 0;
    loop
        invariant
            chars@ == text@,
            wanted@ == part@,
            total == chars@.len(),
            last == chars@.len() - wanted@.len(),
            at <= last,
            forall|i: int|
                0 <= i < at ==> #[trigger] text@.subrange(i, i + part@.len()) != part@,
        decreases last + 1 - at,
    {
        let mut k: usize = 0;
        while k < wanted.len() && chars[at + k] == wanted[k]
            invariant
                chars@ == text@,
                wanted@ == part@,
                total == chars@.len(),
                at <= last,
                last == chars@.len() - wanted@.len(),
                k <= wanted@.len(),
                forall|i: int| 0 <= i < k ==> chars@[at + i] == wanted@[i],
            decreases wanted@.len() - k,
        {
            k = k + 1;
        }
        if k == wanted.len() {
            assert(text@.subrange(at as int, at + part@.len()) =~= part@);
            return true;
        }
        assert(text@.subrange(at as int, at + part@.len())[k as int] != part@[k as int]);
        if at == last {
            return false;
        }
        at = at + 1;
    }
}

} // verus!
