//! Paths on the wire: percent-encoded bytes.

use crate::paths::OsPath;
use vstd::prelude::*;

verus! {

/// `%`
pub const PERCENT: u8 = 0x25;

/// The value of a hexadecimal digit, upper or lower case.
pub open spec fn hex_value(digit: u8) -> Option<u8> {
    if 0x30 <= digit <= 0x39 {
        Some((digit - 0x30) as u8)
    } else if 0x41 <= digit <= 0x46 {
        Some((digit - 0x41 + 10) as u8)
    } else if 0x61 <= digit <= 0x66 {
        Some((digit - 0x61 + 10) as u8)
    } else {
        None
    }
}

/// What the bytes `wire[at..]` decode to: `%` and two digits are one byte,
/// any other byte is itself. Nothing when a `%` is not followed by two
/// digits.
pub open spec fn decode_from(wire: Seq<u8>, at: int) -> Option<Seq<u8>>
    decreases wire.len() - at,
{
    if at >= wire.len() {
        Some(Seq::empty())
    } else if wire[at] != PERCENT {
        match decode_from(wire, at + 1) {
            Some(rest) => Some(seq![wire[at]] + rest),
            None => None,
        }
    } else if at + 2 >= wire.len() {
        None
    } else {
        match (hex_value(wire[at + 1]), hex_value(wire[at + 2]), decode_from(wire, at + 3)) {
            (Some(high), Some(low), Some(rest)) => Some(seq![(high * 16 + low) as u8] + rest),
            _ => None,
        }
    }
}

/// The path a text on the wire stands for.
pub open spec fn decoded(text: Seq<char>) -> Option<Seq<u8>> {
    decode_from(vstd::utf8::encode_utf8(text), 0)
}

fn hex(digit: u8) -> (r: Option<u8>)
    ensures
        r == hex_value(digit),
        r matches Some(value) ==> value < 16,
{
    if 0x30 <= digit && digit <= 0x39 {
        Some(digit - 0x30)
    } else if 0x41 <= digit && digit <= 0x46 {
        Some(digit - 0x41 + 10)
    } else if 0x61 <= digit && digit <= 0x66 {
        Some(digit - 0x61 + 10)
    } else {
        None
    }
}

/// A path back out of a `data-ev` attribute: percent-decoded bytes, the
/// inverse of [`path_attr`]. `None` for malformed input; the event is then
/// dropped, never guessed at.
pub fn decode_path(text: &str) -> (r: Option<OsPath>)
    ensures
        crate::paths::opt_path(r) == decoded(text@),
{
    let wire = text.as_bytes();
    let mut out: Vec<u8> = Vec::new();
    let mut at: usize = 0;
    proof {
        match decode_from(wire@, 0) {
            Some(rest) => {
                assert(out@ + rest =~= rest);
            },
            None => {},
        }
    }
    while at < wire.len()
        invariant
            wire@ == vstd::utf8::encode_utf8(text@),
            at <= wire@.len(),
            match decode_from(wire@, at as int) {
                Some(rest) => decode_from(wire@, 0) == Some(out@ + rest),
                None => decode_from(wire@, 0) is None,
            },
        decreases wire@.len() - at,
    {
        let ghost before = out@;
        if wire[at] != PERCENT {
            out.push(wire[at]);
            proof {
                match decode_from(wire@, at + 1) {
                    Some(rest) => {
                        assert(before + (seq![wire@[at as int]] + rest) =~= out@ + rest);
                    },
                    None => {},
                }
            }
            at = at + 1;
        } else {
            if wire.len() - at < 3 {
                return None;
            }
            match (hex(wire[at + 1]), hex(wire[at + 2])) {
                (Some(high), Some(low)) => {
                    let byte = high * 16 + low;
                    out.push(byte);
                    proof {
                        match decode_from(wire@, at + 3) {
                            Some(rest) => {
                                assert(before + (seq![byte] + rest) =~= out@ + rest);
                            },
                            None => {},
                        }
                    }
                },
                _ => {
                    return None;
                },
            }
            at = at + 3;
        }
    }
    assert(out@ + Seq::<u8>::empty() =~= out@);
    Some(OsPath::from_bytes(out))
}

/// A byte a path keeps as it is on the wire.
pub open spec fn kept(byte: u8) -> bool {
    ||| 0x30 <= byte <= 0x39
    ||| 0x41 <= byte <= 0x5a
    ||| 0x61 <= byte <= 0x7a
    ||| byte == 0x2d
    ||| byte == 0x2e
    ||| byte == 0x5f
    ||| byte == 0x7e
    ||| byte == 0x2f
}

/// The upper-case hexadecimal digit of a value below 16.
pub open spec fn hex_digit(value: u8) -> u8 {
    if value < 10 {
        (0x30 + value) as u8
    } else {
        (0x41 + value - 10) as u8
    }
}

/// A byte on the wire.
pub open spec fn wired(byte: u8) -> Seq<char> {
    if kept(byte) {
        seq![byte as char]
    } else {
        seq!['%', hex_digit(byte / 16) as char, hex_digit(byte % 16) as char]
    }
}

/// The bytes `path[at..]` on the wire.
pub open spec fn encode_from(path: Seq<u8>, at: int) -> Seq<char>
    decreases path.len() - at,
{
    if at >= path.len() {
        Seq::empty()
    } else {
        wired(path[at]) + encode_from(path, at + 1)
    }
}

/// A path on the wire.
pub open spec fn encoded(path: Seq<u8>) -> Seq<char> {
    encode_from(path, 0)
}

fn hex_of(value: u8) -> (r: char)
    requires
        value < 16,
    ensures
        r == hex_digit(value) as char,
{
    if value < 10 {
        (0x30 + value) as char
    } else {
        (0x41 + (value - 10)) as char
    }
}

/// A path for a `data-ev` attribute: its bytes, percent-encoded. Names are
/// not necessarily UTF-8, and the event they travel in is.
pub fn path_attr(path: &OsPath) -> (r: String)
    ensures
        r@ == encoded(path@),
{
    let mut out = String::new();
    let mut at: usize = 0;
    assert(out@ + encode_from(path@, 0) =~= encoded(path@));
    while at < path.bytes.len()
        invariant
            at <= path@.len(),
            out@ + encode_from(path@, at as int) == encoded(path@),
        decreases path@.len() - at,
    {
        let byte: u8 = path.bytes[at];
        let ghost before = out@;
        let plain = (0x30 <= byte && byte <= 0x39) || (0x41 <= byte && byte <= 0x5a) || (0x61
            <= byte && byte <= 0x7a) || byte == 0x2d || byte == 0x2e || byte == 0x5f || byte
            == 0x7e || byte == 0x2f;
        if plain {
            out.push(byte as char);
        } else {
            out.push('%');
            out.push(hex_of(byte / 16));
            out.push(hex_of(byte % 16));
        }
        proof {
            assert(out@ =~= before + wired(byte));
            assert(before + (wired(byte) + encode_from(path@, at + 1)) =~= out@ + encode_from(
                path@,
                at + 1,
            ));
        }
        at = at + 1;
    }
    assert(out@ + Seq::<char>::empty() =~= out@);
    out
}

/// What is before `wire[at..]` does not change what it decodes to.
proof fn lemma_decode_suffix(head: Seq<u8>, wire: Seq<u8>, at: int)
    requires
        0 <= at <= wire.len(),
    ensures
        decode_from(head + wire, head.len() + at) == decode_from(wire, at),
    decreases wire.len() - at,
{
    let whole = head + wire;
    let k = head.len() + at;
    if at < wire.len() {
        assert(whole[k] == wire[at]);
        lemma_decode_suffix(head, wire, at + 1);
        if at + 2 < wire.len() {
            assert(whole[k + 1] == wire[at + 1]);
            assert(whole[k + 2] == wire[at + 2]);
            lemma_decode_suffix(head, wire, at + 3);
        }
    }
}

/// The bytes of an encoded path.
proof fn lemma_encoded_bytes(path: Seq<u8>, at: int)
    requires
        0 <= at <= path.len(),
    ensures
        vstd::utf8::is_ascii_chars(encode_from(path, at)),
    decreases path.len() - at,
{
    if at < path.len() {
        lemma_encoded_bytes(path, at + 1);
        let head = wired(path[at]);
        let rest = encode_from(path, at + 1);
        assert forall|i: int| 0 <= i < (head + rest).len() implies '\0' <= #[trigger] (head
            + rest)[i] <= '\u{7f}' by {
            if i < head.len() {
                assert((head + rest)[i] == head[i]);
            } else {
                assert((head + rest)[i] == rest[i - head.len()]);
            }
        }
    }
}

/// The bytes of an encoded byte and a rest.
proof fn lemma_encode_split(head: Seq<char>, rest: Seq<char>)
    requires
        vstd::utf8::is_ascii_chars(head),
        vstd::utf8::is_ascii_chars(rest),
    ensures
        vstd::utf8::encode_utf8(head + rest) == vstd::utf8::encode_utf8(head)
            + vstd::utf8::encode_utf8(rest),
{
    let whole = head + rest;
    assert forall|i: int| 0 <= i < whole.len() implies '\0' <= #[trigger] whole[i] <= '\u{7f}' by {
        if i < head.len() {
            assert(whole[i] == head[i]);
        } else {
            assert(whole[i] == rest[i - head.len()]);
        }
    }
    vstd::utf8::is_ascii_chars_encode_utf8(head);
    vstd::utf8::is_ascii_chars_encode_utf8(rest);
    vstd::utf8::is_ascii_chars_encode_utf8(whole);
    let a = vstd::utf8::encode_utf8(whole);
    let b = vstd::utf8::encode_utf8(head) + vstd::utf8::encode_utf8(rest);
    assert(a.len() == b.len());
    assert forall|i: int| 0 <= i < a.len() implies a[i] == b[i] by {
        assert(whole[i] as u8 == a[i]);
        if i < head.len() {
            assert(head[i] as u8 == b[i]);
        } else {
            assert(rest[i - head.len()] as u8 == vstd::utf8::encode_utf8(rest)[i - head.len()]);
        }
    }
    assert(a =~= b);
}

proof fn lemma_decode_encoded(path: Seq<u8>, at: int)
    requires
        0 <= at <= path.len(),
    ensures
        decode_from(vstd::utf8::encode_utf8(encode_from(path, at)), 0) == Some(
            path.subrange(at, path.len() as int),
        ),
    decreases path.len() - at,
{
    if at == path.len() {
        lemma_encoded_bytes(path, at);
        vstd::utf8::is_ascii_chars_encode_utf8(encode_from(path, at));
        assert(path.subrange(at, at) =~= Seq::<u8>::empty());
    } else {
        let byte = path[at];
        let head = wired(byte);
        let rest = encode_from(path, at + 1);
        lemma_encoded_bytes(path, at + 1);
        lemma_decode_encoded(path, at + 1);
        assert(vstd::utf8::is_ascii_chars(head));
        lemma_encode_split(head, rest);
        vstd::utf8::is_ascii_chars_encode_utf8(head);
        let a = vstd::utf8::encode_utf8(head);
        let b = vstd::utf8::encode_utf8(rest);
        lemma_decode_suffix(a, b, 0);
        let wire = a + b;
        assert(path.subrange(at, path.len() as int) =~= seq![byte] + path.subrange(
            at + 1,
            path.len() as int,
        ));
        if kept(byte) {
            assert(head[0] as u8 == a[0]);
            assert(byte as char as u8 == byte);
            assert(wire[0] == byte);
        } else {
            assert(head[0] as u8 == a[0]);
            assert(head[1] as u8 == a[1]);
            assert(head[2] as u8 == a[2]);
            assert(wire[0] == a[0] && wire[1] == a[1] && wire[2] == a[2]);
            assert(wire[0] == PERCENT);
            let high = hex_digit(byte / 16);
            let low = hex_digit(byte % 16);
            assert(high as char as u8 == high && low as char as u8 == low);
            assert(hex_value(high) == Some((byte / 16) as u8));
            assert(hex_value(low) == Some((byte % 16) as u8));
            assert((byte / 16) * 16 + byte % 16 == byte);
        }
    }
}

/// A path comes back off the wire byte for byte, whatever its bytes.
pub proof fn a_path_survives_the_wire(path: Seq<u8>)
    ensures
        decoded(encoded(path)) == Some(path),
{
    lemma_decode_encoded(path, 0);
    assert(path.subrange(0, path.len() as int) =~= path);
}

/// Two paths are never the same text on the wire.
pub proof fn paths_stay_apart_on_the_wire(a: Seq<u8>, b: Seq<u8>)
    requires
        encoded(a) == encoded(b),
    ensures
        a == b,
{
    a_path_survives_the_wire(a);
    a_path_survives_the_wire(b);
}

} // verus!
