//! Debug logging of raw byte streams: the rendering of bytes and of the
//! log lines. Whether logging is on, and the writing, are the caller's.

use vstd::prelude::*;
use crate::text::{push_char, push_str, char_from_ascii};

verus! {

/// The lowercase hexadecimal digit of `d` (0..16).
pub open spec fn hex_digit(d: nat) -> char {
    if d < 10 {
        ((d + 48) as u32) as char
    } else {
        ((d + 87) as u32) as char
    }
}

/// One byte rendered readably: printable ASCII as itself, anything else as
/// `\xNN` with two lowercase hex digits.
pub open spec fn fmt_byte(b: u8) -> Seq<char> {
    if 0x20 <= b < 0x7f {
        seq![(b as u32) as char]
    } else {
        seq!['\\', 'x', hex_digit((b / 16) as nat), hex_digit((b % 16) as nat)]
    }
}

/// Bytes rendered readably, one after the other.
pub open spec fn fmt_bytes_spec(bytes: Seq<u8>) -> Seq<char>
    decreases bytes.len(),
{
    if bytes.len() == 0 {
        Seq::empty()
    } else {
        fmt_bytes_spec(bytes.drop_last()) + fmt_byte(bytes.last())
    }
}

fn hex_char(d: u8) -> (c: char)
    requires
        d < 16,
    ensures
        c == hex_digit(d as nat),
{
    if d < 10 {
        char_from_ascii(d + 48)
    } else {
        char_from_ascii(d + 87)
    }
}

/// Renders raw bytes readably: printable ASCII as-is, everything else as
/// `\xNN` (e.g. `\x1b[<35;12;4M` for an SGR mouse report).
pub fn fmt_bytes(bytes: &[u8]) -> (r: String)
    ensures
        r@ == fmt_bytes_spec(bytes@),
{
    let mut out = String::new();
    let mut i: usize = 0;
    while i < bytes.len()
        invariant
            i <= bytes.len(),
            out@ == fmt_bytes_spec(bytes@.take(i as int)),
        decreases bytes.len() - i,
    {
        let b = bytes[i];
        if 0x20 <= b && b < 0x7f {
            push_char(&mut out, char_from_ascii(b));
        } else {
            push_char(&mut out, '\\');
            push_char(&mut out, 'x');
            push_char(&mut out, hex_char(b / 16));
            push_char(&mut out, hex_char(b % 16));
        }
        proof {
            assert(bytes@.take(i + 1).drop_last() =~= bytes@.take(i as int));
            assert(bytes@.take(i + 1).last() == b);
            assert(out@ =~= fmt_bytes_spec(bytes@.take(i + 1)));
        }
        i = i + 1;
    }
    assert(bytes@.take(bytes.len() as int) =~= bytes@);
    out
}

/// The log line for a chunk of a byte stream, `<tag> <bytes rendered>`,
/// when logging is `enabled`; nothing otherwise.
pub fn log_bytes(enabled: bool, tag: &str, bytes: &[u8]) -> (r: Option<String>)
    ensures
        enabled ==> (r matches Some(l) && l@ == tag@ + seq![' '] + fmt_bytes_spec(bytes@)),
        !enabled ==> r is None,
{
    if enabled {
        let mut l = String::new();
        push_str(&mut l, tag);
        push_char(&mut l, ' ');
        let f = fmt_bytes(bytes);
        push_str(&mut l, f.as_str());
        Some(l)
    } else {
        None
    }
}

/// How many of the bytes are not printable ASCII.
pub open spec fn unprintable_count(bytes: Seq<u8>) -> nat
    decreases bytes.len(),
{
    if bytes.len() == 0 {
        0
    } else {
        unprintable_count(bytes.drop_last()) + if 0x20 <= bytes.last() < 0x7f {
            0nat
        } else {
            1nat
        }
    }
}

/// Whether a character is printable ASCII.
pub open spec fn printable(c: char) -> bool {
    0x20 <= (c as u32) < 0x7f
}

proof fn lemma_fmt_byte_printable(b: u8)
    ensures
        forall|i: int| 0 <= i < fmt_byte(b).len() ==> printable(#[trigger] fmt_byte(b)[i]),
        fmt_byte(b).len() == if 0x20 <= b < 0x7f {
            1nat
        } else {
            4nat
        },
{
    if !(0x20 <= b < 0x7f) {
        assert((b / 16) < 16) by (nonlinear_arith);
        assert((b % 16) < 16) by (nonlinear_arith);
    }
}

/// Rendering bytes is rendering each byte in turn: the rendering of two
/// runs of bytes one after the other is their renderings one after the
/// other; the result is printable ASCII only, and each unprintable byte
/// takes four characters (`\xNN`), each printable one a single character.
pub proof fn law_fmt_bytes(a: Seq<u8>, c: Seq<u8>)
    ensures
        fmt_bytes_spec(a + c) == fmt_bytes_spec(a) + fmt_bytes_spec(c),
        forall|i: int|
            0 <= i < fmt_bytes_spec(a).len() ==> printable(#[trigger] fmt_bytes_spec(a)[i]),
        fmt_bytes_spec(a).len() == a.len() + 3 * unprintable_count(a),
    decreases a.len() + c.len(),
{
    if c.len() == 0 {
        assert(a + c =~= a);
        assert(fmt_bytes_spec(c) =~= Seq::<char>::empty());
        assert(fmt_bytes_spec(a) + fmt_bytes_spec(c) =~= fmt_bytes_spec(a));
    } else {
        law_fmt_bytes(a, c.drop_last());
        assert((a + c).drop_last() =~= a + c.drop_last());
        assert((a + c).last() == c.last());
        assert(fmt_bytes_spec(a) + fmt_bytes_spec(c.drop_last()) + fmt_byte(c.last())
            =~= fmt_bytes_spec(a) + (fmt_bytes_spec(c.drop_last()) + fmt_byte(c.last())));
    }
    if a.len() > 0 {
        let a2 = a.drop_last();
        law_fmt_bytes(a2, Seq::empty());
        lemma_fmt_byte_printable(a.last());
        let f2 = fmt_bytes_spec(a2);
        let fb = fmt_byte(a.last());
        assert(fmt_bytes_spec(a) == f2 + fb);
        assert forall|i: int| 0 <= i < fmt_bytes_spec(a).len() implies printable(
            #[trigger] fmt_bytes_spec(a)[i],
        ) by {
            if i < f2.len() {
                assert(fmt_bytes_spec(a)[i] == f2[i]);
            } else {
                assert(fmt_bytes_spec(a)[i] == fb[i - f2.len()]);
            }
        }
    }
}

} // verus!
