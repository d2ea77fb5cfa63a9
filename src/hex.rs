//! Lower-case hexadecimal text, in which conformance vectors carry bytes.
use vstd::prelude::*;

verus! {

/// The value of an ASCII hexadecimal digit of either case.
pub open spec fn digit_value(c: u8) -> Option<u8> {
    if 0x30 <= c <= 0x39 {
        Some((c - 0x30) as u8)
    } else if 0x61 <= c <= 0x66 {
        Some((c - 0x61 + 10) as u8)
    } else if 0x41 <= c <= 0x46 {
        Some((c - 0x41 + 10) as u8)
    } else {
        None
    }
}

/// The lower-case ASCII digit of a value below sixteen.
pub open spec fn digit_of(n: u8) -> u8 {
    if n < 10 {
        (0x30 + n) as u8
    } else {
        (0x61 + n - 10) as u8
    }
}

/// The bytes that a text of hexadecimal digits spells, two digits a byte;
/// `None` for a text of odd length or with a character that is no digit.
pub open spec fn hex_decoded(s: Seq<u8>) -> Option<Seq<u8>> {
    if s.len() % 2 == 0 && forall|i: int| 0 <= i < s.len() ==> (#[trigger] digit_value(s[i])) is Some {
        Some(
            Seq::new(
                s.len() / 2,
                |i: int| (16 * digit_value(s[2 * i])->Some_0 + digit_value(s[2 * i + 1])->Some_0) as u8,
            ),
        )
    } else {
        None
    }
}

/// The lower-case hexadecimal text of some bytes, high digit first.
pub open spec fn hex_encoded(b: Seq<u8>) -> Seq<u8> {
    Seq::new(
        2 * b.len(),
        |i: int| if i % 2 == 0 {
            digit_of(b[i / 2] / 16)
        } else {
            digit_of(b[i / 2] % 16)
        },
    )
}

fn value_of_digit(c: u8) -> (r: Option<u8>)
    ensures
        r == digit_value(c),
        r is Some ==> r->Some_0 < 16,
{
    if 0x30 <= c && c <= 0x39 {
        Some(c - 0x30)
    } else if 0x61 <= c && c <= 0x66 {
        Some(c - 0x61 + 10)
    } else if 0x41 <= c && c <= 0x46 {
        Some(c - 0x41 + 10)
    } else {
        None
    }
}

fn digit_for(n: u8) -> (r: u8)
    requires
        n < 16,
    ensures
        r == digit_of(n),
{
    if n < 10 {
        0x30 + n
    } else {
        0x61 + n - 10
    }
}

/// Reads hexadecimal text into bytes.
pub fn hex_to_bytes(s: &[u8]) -> (r: Option<Vec<u8>>)
    ensures
        r is Some <==> hex_decoded(s@) is Some,
        r is Some ==> r->Some_0@ == hex_decoded(s@)->Some_0,
{
    if s.len() % 2 != 0 {
        return None;
    }
    let mut out: Vec<u8> = Vec::new();
    let mut i: usize = 0;
    while i < s.len() / 2
        invariant
            s@.len() % 2 == 0,
            i <= s@.len() / 2,
            out@.len() == i,
            forall|j: int| 0 <= j < 2 * i ==> (#[trigger] digit_value(s@[j])) is Some,
            forall|j: int|
                0 <= j < i ==> #[trigger] out@[j] == (16 * digit_value(s@[2 * j])->Some_0 + digit_value(
                    s@[2 * j + 1],
                )->Some_0) as u8,
        decreases s@.len() / 2 - i,
    {
        let hi = match value_of_digit(s[2 * i]) {
            Some(v) => v,
            None => {
                assert(digit_value(s@[2 * i as int]) is None);
                return None;
            },
        };
        let lo = match value_of_digit(s[2 * i + 1]) {
            Some(v) => v,
            None => {
                assert(digit_value(s@[2 * i + 1]) is None);
                return None;
            },
        };
        out.push(16 * hi + lo);
        i = i + 1;
    }
    assert(out@ =~= hex_decoded(s@)->Some_0);
    Some(out)
}

/// Writes bytes as lower-case hexadecimal text.
pub fn bytes_to_hex(b: &[u8]) -> (r: Vec<u8>)
    requires
        b@.len() < 0x4000_0000,
    ensures
        r@ == hex_encoded(b@),
{
    let mut out: Vec<u8> = Vec::new();
    let mut i: usize = 0;
    while i < b.len()
        invariant
            b@.len() < 0x4000_0000,
            i <= b@.len(),
            out@ =~= hex_encoded(b@.subrange(0, i as int)),
        decreases b@.len() - i,
    {
        let ghost before = out@;
        out.push(digit_for(b[i] / 16));
        out.push(digit_for(b[i] % 16));
        i = i + 1;
        assert(out@ =~= hex_encoded(b@.subrange(0, i as int)));
    }
    assert(b@.subrange(0, b@.len() as int) == b@);
    out
}

/// Reading back the text that `bytes_to_hex` writes gives the bytes again.
pub proof fn lemma_hex_round_trip(b: Seq<u8>)
    ensures
        hex_decoded(hex_encoded(b)) == Some(b),
{
    let s = hex_encoded(b);
    assert forall|i: int| 0 <= i < s.len() implies (#[trigger] digit_value(s[i])) is Some by {
        let n = if i % 2 == 0 { b[i / 2] / 16 } else { b[i / 2] % 16 };
        assert(digit_value(digit_of(n)) == Some(n));
    }
    assert forall|i: int| 0 <= i < b.len() implies (16 * digit_value(s[2 * i])->Some_0 + digit_value(
        s[2 * i + 1],
    )->Some_0) as u8 == #[trigger] b[i] by {
        assert((2 * i) / 2 == i);
        assert((2 * i + 1) / 2 == i);
        assert(digit_value(digit_of(b[i] / 16)) == Some(b[i] / 16));
        assert(digit_value(digit_of(b[i] % 16)) == Some(b[i] % 16));
    }
    assert(hex_decoded(s)->Some_0 =~= b);
}

} // verus!
