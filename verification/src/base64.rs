//! Standard (RFC 4648) base64 encoding with `=` padding.

use vstd::prelude::*;
use crate::text::push_char;

verus! {

/// The base64 alphabet: `A-Z`, `a-z`, `0-9`, `+`, `/` for the values 0..63.
pub open spec fn b64_char(v: int) -> char {
    if v < 26 {
        (65 + v) as char
    } else if v < 52 {
        (97 + v - 26) as char
    } else if v < 62 {
        (48 + v - 52) as char
    } else if v == 62 {
        '+'
    } else {
        '/'
    }
}

/// Base64 of a byte sequence: each group of three bytes becomes four
/// characters; a final group of one or two bytes is padded with `=`.
pub open spec fn base64_spec(b: Seq<u8>) -> Seq<char>
    decreases b.len(),
{
    if b.len() == 0 {
        Seq::empty()
    } else if b.len() == 1 {
        seq![b64_char((b[0] as int) / 4), b64_char(((b[0] as int) % 4) * 16), '=', '=']
    } else if b.len() == 2 {
        seq![
            b64_char((b[0] as int) / 4),
            b64_char(((b[0] as int) % 4) * 16 + (b[1] as int) / 16),
            b64_char(((b[1] as int) % 16) * 4),
            '=',
        ]
    } else {
        seq![
            b64_char((b[0] as int) / 4),
            b64_char(((b[0] as int) % 4) * 16 + (b[1] as int) / 16),
            b64_char(((b[1] as int) % 16) * 4 + (b[2] as int) / 64),
            b64_char((b[2] as int) % 64),
        ] + base64_spec(b.skip(3))
    }
}

fn b64_exec(v: u32) -> (c: char)
    requires
        v < 64,
    ensures
        c == b64_char(v as int),
{
    if v < 26 {
        ((65 + v) as u8) as char
    } else if v < 52 {
        ((97 + v - 26) as u8) as char
    } else if v < 62 {
        ((48 + v - 52) as u8) as char
    } else if v == 62 {
        '+'
    } else {
        '/'
    }
}

proof fn lemma_triple_fields(b0: u32, b1: u32, b2: u32)
    requires
        b0 < 256,
        b1 < 256,
        b2 < 256,
    ensures
        (((b0 << 16u32) | (b1 << 8u32) | b2) >> 18u32) & 0x3Fu32 == b0 / 4,
        (((b0 << 16u32) | (b1 << 8u32) | b2) >> 12u32) & 0x3Fu32 == (b0 % 4) * 16 + b1 / 16,
        (((b0 << 16u32) | (b1 << 8u32) | b2) >> 6u32) & 0x3Fu32 == (b1 % 16) * 4 + b2 / 64,
        ((b0 << 16u32) | (b1 << 8u32) | b2) & 0x3Fu32 == b2 % 64,
{
    assert((((b0 << 16u32) | (b1 << 8u32) | b2) >> 18u32) & 0x3Fu32 == b0 / 4) by (bit_vector)
        requires b0 < 256, b1 < 256, b2 < 256;
    assert((((b0 << 16u32) | (b1 << 8u32) | b2) >> 12u32) & 0x3Fu32 == (b0 % 4) * 16 + b1 / 16)
        by (bit_vector)
        requires b0 < 256, b1 < 256, b2 < 256;
    assert((((b0 << 16u32) | (b1 << 8u32) | b2) >> 6u32) & 0x3Fu32 == (b1 % 16) * 4 + b2 / 64)
        by (bit_vector)
        requires b0 < 256, b1 < 256, b2 < 256;
    assert(((b0 << 16u32) | (b1 << 8u32) | b2) & 0x3Fu32 == b2 % 64) by (bit_vector)
        requires b0 < 256, b1 < 256, b2 < 256;
}

/// Base64-encodes `input` (standard alphabet, `=` padding).
pub fn base64_encode(input: &[u8]) -> (out: String)
    ensures
        out@ == base64_spec(input@),
{
    let mut out = String::new();
    let mut i: usize = 0;
    assert(input@.skip(0) == input@);
    while i < input.len()
        invariant
            i <= input@.len(),
            out@ + base64_spec(input@.skip(i as int)) == base64_spec(input@),
        decreases input@.len() - i,
    {
        let rest = Ghost(input@.skip(i as int));
        let n = input.len() - i;
        let b0 = input[i] as u32;
        let b1: u32 = if n > 1 { input[i + 1] as u32 } else { 0 };
        let b2: u32 = if n > 2 { input[i + 2] as u32 } else { 0 };
        let triple = (b0 << 16u32) | (b1 << 8u32) | b2;
        proof {
            lemma_triple_fields(b0, b1, b2);
        }
        let ghost old_out = out@;
        push_char(&mut out, b64_exec(triple >> 18u32 & 0x3F));
        push_char(&mut out, b64_exec(triple >> 12u32 & 0x3F));
        if n > 1 {
            push_char(&mut out, b64_exec(triple >> 6u32 & 0x3F));
        } else {
            push_char(&mut out, '=');
        }
        if n > 2 {
            push_char(&mut out, b64_exec(triple & 0x3F));
        } else {
            push_char(&mut out, '=');
        }
        proof {
            let r = rest@;
            assert(r[0] == b0);
            if n > 1 { assert(r[1] == b1); }
            if n > 2 { assert(r[2] == b2); }
            if n <= 3 {
                assert(input@.skip((i + n) as int) =~= Seq::<u8>::empty());
            } else {
                assert(r.skip(3) =~= input@.skip(i + 3));
            }
            assert(out@ =~= old_out + base64_spec(r).take(4));
        }
        i = if n > 3 { i + 3 } else { input.len() };
        proof {
            let r = rest@;
            if n > 3 {
                assert(base64_spec(r) =~= base64_spec(r).take(4) + base64_spec(input@.skip(i as int)));
            } else {
                if n == 3 {
                    assert(r.skip(3) =~= Seq::<u8>::empty());
                }
                assert(base64_spec(r) =~= base64_spec(r).take(4));
                assert(input@.skip(i as int) =~= Seq::<u8>::empty());
            }
        }
    }
    assert(input@.skip(i as int) =~= Seq::<u8>::empty());
    out
}

/// Length law: base64 turns `n` bytes into `4 * ceil(n / 3)` characters.
pub proof fn lemma_base64_len(b: Seq<u8>)
    ensures
        base64_spec(b).len() == 4 * ((b.len() + 2) / 3),
    decreases b.len(),
{
    if b.len() >= 3 {
        lemma_base64_len(b.skip(3));
    }
}

/// Concatenation law: encoding a sequence whose first part is a whole
/// number of three-byte groups is encoding the parts one after the other.
pub proof fn lemma_base64_concat(a: Seq<u8>, b: Seq<u8>)
    requires
        a.len() % 3 == 0,
    ensures
        base64_spec(a + b) == base64_spec(a) + base64_spec(b),
    decreases a.len(),
{
    if a.len() == 0 {
        assert(a + b =~= b);
        assert(base64_spec(a) =~= Seq::<char>::empty());
        assert(base64_spec(a) + base64_spec(b) =~= base64_spec(b));
    } else {
        lemma_base64_concat(a.skip(3), b);
        assert((a + b).skip(3) =~= a.skip(3) + b);
        assert((a + b)[0] == a[0] && (a + b)[1] == a[1] && (a + b)[2] == a[2]);
        if a.len() == 3 {
            assert(a.skip(3) =~= Seq::<u8>::empty());
        }
        assert(base64_spec(a + b) =~= base64_spec(a) + base64_spec(b));
    }
}

/// The value of a base64 character: `A-Z`, `a-z`, `0-9`, `+`, `/` stand for
/// 0..63; any other character has none (-1).
pub open spec fn b64_value(c: char) -> int {
    let u = c as u32;
    if 65 <= u <= 90 {
        u - 65
    } else if 97 <= u <= 122 {
        u - 71
    } else if 48 <= u <= 57 {
        u + 4
    } else if c == '+' {
        62
    } else if c == '/' {
        63
    } else {
        -1
    }
}

/// Standard padded base64 decoding: each group of four characters gives
/// three bytes, two when it ends in one `=`, one when it ends in two.
pub open spec fn base64_decode_spec(s: Seq<char>) -> Seq<u8>
    decreases s.len(),
{
    if s.len() < 4 {
        Seq::empty()
    } else {
        let v0 = b64_value(s[0]);
        let v1 = b64_value(s[1]);
        let v2 = b64_value(s[2]);
        let v3 = b64_value(s[3]);
        let x0 = (v0 * 4 + v1 / 16) as u8;
        let x1 = ((v1 % 16) * 16 + v2 / 4) as u8;
        let x2 = ((v2 % 4) * 64 + v3) as u8;
        if s[2] == '=' {
            seq![x0]
        } else if s[3] == '=' {
            seq![x0, x1]
        } else {
            seq![x0, x1, x2] + base64_decode_spec(s.skip(4))
        }
    }
}

/// The number of `=` that pad the base64 of `n` bytes.
pub open spec fn b64_padding(n: nat) -> int {
    (3 - (n % 3) as int) % 3
}

proof fn lemma_b64_char_value(v: int)
    requires
        0 <= v < 64,
    ensures
        b64_value(b64_char(v)) == v,
        b64_char(v) != '=',
{
}

proof fn lemma_group_bytes(b0: int, b1: int, b2: int)
    requires
        0 <= b0 < 256,
        0 <= b1 < 256,
        0 <= b2 < 256,
    ensures
        (b0 / 4) * 4 + ((b0 % 4) * 16 + b1 / 16) / 16 == b0,
        (((b0 % 4) * 16 + b1 / 16) % 16) * 16 + ((b1 % 16) * 4 + b2 / 64) / 4 == b1,
        (((b1 % 16) * 4 + b2 / 64) % 4) * 64 + b2 % 64 == b2,
        ((b1 % 16) * 4) / 4 == b1 % 16,
        0 <= b0 / 4 < 64,
        0 <= (b0 % 4) * 16 + b1 / 16 < 64,
        0 <= (b1 % 16) * 4 + b2 / 64 < 64,
        0 <= b2 % 64 < 64,
        0 <= ((b0 % 4) * 16) < 64,
        0 <= (b1 % 16) * 4 < 64,
{
}

/// The base64 law: the base64 of `b` has `4 * ceil(n / 3)` characters, all
/// from the alphabet `A-Z a-z 0-9 + /` except for its last
/// `(3 - n % 3) % 3` characters, which are `=`; and standard padded base64
/// decoding gives `b` back.
pub proof fn law_base64(b: Seq<u8>)
    ensures
        base64_spec(b).len() == 4 * ((b.len() + 2) / 3),
        forall|i: int| 0 <= i < base64_spec(b).len() - b64_padding(b.len())
            ==> b64_value(#[trigger] base64_spec(b)[i]) >= 0,
        forall|i: int| base64_spec(b).len() - b64_padding(b.len()) <= i < base64_spec(b).len()
            ==> #[trigger] base64_spec(b)[i] == '=',
        base64_decode_spec(base64_spec(b)) == b,
    decreases b.len(),
{
    lemma_base64_len(b);
    let s = base64_spec(b);
    if b.len() == 0 {
        assert(base64_decode_spec(s) =~= b);
    } else if b.len() == 1 {
        let b0 = b[0] as int;
        lemma_group_bytes(b0, 0, 0);
        lemma_b64_char_value(b0 / 4);
        lemma_b64_char_value((b0 % 4) * 16);
        assert(base64_decode_spec(s) =~= b);
    } else if b.len() == 2 {
        let b0 = b[0] as int;
        let b1 = b[1] as int;
        lemma_group_bytes(b0, b1, 0);
        lemma_b64_char_value(b0 / 4);
        lemma_b64_char_value((b0 % 4) * 16 + b1 / 16);
        lemma_b64_char_value((b1 % 16) * 4);
        assert(base64_decode_spec(s) =~= b);
    } else {
        let b0 = b[0] as int;
        let b1 = b[1] as int;
        let b2 = b[2] as int;
        lemma_group_bytes(b0, b1, b2);
        lemma_b64_char_value(b0 / 4);
        lemma_b64_char_value((b0 % 4) * 16 + b1 / 16);
        lemma_b64_char_value((b1 % 16) * 4 + b2 / 64);
        lemma_b64_char_value(b2 % 64);
        let rest = b.skip(3);
        law_base64(rest);
        assert(s.skip(4) =~= base64_spec(rest));
        assert(b =~= seq![b[0], b[1], b[2]] + rest);
        assert(base64_decode_spec(s) =~= b);
        assert(b64_padding(b.len()) == b64_padding(rest.len()));
        assert forall|i: int| 0 <= i < s.len() - b64_padding(b.len()) implies b64_value(#[trigger] s[i]) >= 0 by {
            if i >= 4 {
                assert(s[i] == base64_spec(rest)[i - 4]);
            }
        }
        assert forall|i: int| s.len() - b64_padding(b.len()) <= i < s.len() implies #[trigger] s[i] == '=' by {
            assert(s[i] == base64_spec(rest)[i - 4]);
        }
    }
}

} // verus!
