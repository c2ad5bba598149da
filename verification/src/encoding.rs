//! Textual encodings used by the library: URL-safe base64 without padding
//! for address strings, and lowercase hex for private keys.

use vstd::prelude::*;

verus! {

/// The URL-safe base64 alphabet, by 6-bit value.
pub open spec fn b64url_char(v: u8) -> char
    recommends
        v < 64,
{
    if v < 26 {
        ((65 + v) as u8) as char
    } else if v < 52 {
        ((71 + v) as u8) as char
    } else if v < 62 {
        ((v - 4) as u8) as char
    } else if v == 62 {
        '-'
    } else {
        '_'
    }
}

/// URL-safe base64, no padding: three input bytes become four characters,
/// a final byte becomes two and a final pair of bytes three.
pub open spec fn base64url_of(s: Seq<u8>) -> Seq<char>
    decreases s.len(),
{
    if s.len() == 0 {
        Seq::empty()
    } else if s.len() == 1 {
        seq![b64url_char(s[0] >> 2u8), b64url_char((s[0] & 3) << 4u8)]
    } else if s.len() == 2 {
        seq![
            b64url_char(s[0] >> 2u8),
            b64url_char(((s[0] & 3) << 4u8) | (s[1] >> 4u8)),
            b64url_char((s[1] & 15) << 2u8),
        ]
    } else {
        seq![
            b64url_char(s[0] >> 2u8),
            b64url_char(((s[0] & 3) << 4u8) | (s[1] >> 4u8)),
            b64url_char(((s[1] & 15) << 2u8) | (s[2] >> 6u8)),
            b64url_char(s[2] & 63),
        ] + base64url_of(s.skip(3))
    }
}

/// Whether a character can appear in a URL-safe base64 encoding.
pub open spec fn is_b64url_char(c: char) -> bool {
    exists|v: u8| v < 64 && c == b64url_char(v)
}

/// Every character of a URL-safe base64 encoding comes from its alphabet.
pub proof fn lemma_base64url_chars(s: Seq<u8>)
    ensures
        forall|k: int| 0 <= k < base64url_of(s).len() ==> is_b64url_char(#[trigger] base64url_of(s)[k]),
    decreases s.len(),
{
    if s.len() == 0 {
    } else if s.len() == 1 {
        let b0 = s[0];
        assert(b0 >> 2u8 < 64 && (b0 & 3) << 4u8 < 64) by (bit_vector);
    } else if s.len() == 2 {
        let b0 = s[0];
        let b1 = s[1];
        assert(b0 >> 2u8 < 64 && ((b0 & 3) << 4u8) | (b1 >> 4u8) < 64 && (b1 & 15) << 2u8
            < 64) by (bit_vector);
    } else {
        let b0 = s[0];
        let b1 = s[1];
        let b2 = s[2];
        assert(b0 >> 2u8 < 64 && ((b0 & 3) << 4u8) | (b1 >> 4u8) < 64 && ((b1 & 15) << 2u8) | (b2
            >> 6u8) < 64 && b2 & 63 < 64) by (bit_vector);
        lemma_base64url_chars(s.skip(3));
        assert forall|k: int| 0 <= k < base64url_of(s).len() implies is_b64url_char(
            #[trigger] base64url_of(s)[k],
        ) by {
            if k >= 4 {
                assert(base64url_of(s)[k] == base64url_of(s.skip(3))[k - 4]);
            }
        }
    }
}

/// A string holding a character from outside the URL-safe base64 alphabet
/// is never a prefix of a URL-safe base64 encoding.
pub proof fn lemma_foreign_char_no_prefix(pattern: Seq<char>, j: int, s: Seq<u8>)
    requires
        0 <= j < pattern.len(),
        !is_b64url_char(pattern[j]),
    ensures
        !pattern.is_prefix_of(base64url_of(s)),
{
    lemma_base64url_chars(s);
    if pattern.is_prefix_of(base64url_of(s)) {
        assert(pattern[j] == base64url_of(s).subrange(0, pattern.len() as int)[j]);
    }
}

/// Lowercase hex digit of a 4-bit value.
pub open spec fn hex_digit(v: u8) -> char
    recommends
        v < 16,
{
    if v < 10 {
        ((48 + v) as u8) as char
    } else {
        ((87 + v) as u8) as char
    }
}

/// Lowercase hex: each byte becomes two digits, high nibble first.
pub open spec fn hex_of(s: Seq<u8>) -> Seq<char>
    decreases s.len(),
{
    if s.len() == 0 {
        Seq::empty()
    } else {
        seq![hex_digit(s[0] >> 4u8), hex_digit(s[0] & 15)] + hex_of(s.drop_first())
    }
}

/// Relies on std's String::push: appends exactly the given character.
#[verifier::external_body]
fn push_char(s: &mut String, c: char)
    ensures
        final(s)@ == old(s)@.push(c),
{
    s.push(c);
}

fn b64url_char_exec(v: u8) -> (c: char)
    requires
        v < 64,
    ensures
        c == b64url_char(v),
{
    if v < 26 {
        (65 + v) as char
    } else if v < 52 {
        (71 + v) as char
    } else if v < 62 {
        (v - 4) as char
    } else if v == 62 {
        '-'
    } else {
        '_'
    }
}

/// Encode `data` as URL-safe base64 without padding.
pub fn base64url(data: &Vec<u8>) -> (r: String)
    ensures
        r@ == base64url_of(data@),
{
    let mut out = String::new();
    let mut i: usize = 0;
    proof {
        assert(data@.skip(0) =~= data@);
    }
    while data.len() - i >= 3
        invariant
            i <= data.len(),
            out@ + base64url_of(data@.skip(i as int)) == base64url_of(data@),
        decreases data.len() - i,
    {
        let b0 = data[i];
        let b1 = data[i + 1];
        let b2 = data[i + 2];
        proof {
            assert(b0 >> 2u8 < 64 && ((b0 & 3) << 4u8) | (b1 >> 4u8) < 64 && ((b1 & 15)
                << 2u8) | (b2 >> 6u8) < 64 && b2 & 63 < 64) by (bit_vector);
        }
        let c0 = b64url_char_exec(b0 >> 2u8);
        let c1 = b64url_char_exec(((b0 & 3) << 4u8) | (b1 >> 4u8));
        let c2 = b64url_char_exec(((b1 & 15) << 2u8) | (b2 >> 6u8));
        let c3 = b64url_char_exec(b2 & 63);
        let ghost rest = data@.skip(i as int);
        push_char(&mut out, c0);
        push_char(&mut out, c1);
        push_char(&mut out, c2);
        push_char(&mut out, c3);
        proof {
            assert(rest.skip(3) =~= data@.skip(i as int + 3));
            assert(base64url_of(rest) == seq![c0, c1, c2, c3] + base64url_of(
                data@.skip(i as int + 3),
            ));
            assert(out@ + base64url_of(data@.skip(i as int + 3)) =~= base64url_of(data@));
        }
        i = i + 3;
    }
    if i < data.len() {
        let b0 = data[i];
        proof {
            assert(b0 >> 2u8 < 64 && (b0 & 3) << 4u8 < 64) by (bit_vector);
        }
        let c0 = b64url_char_exec(b0 >> 2u8);
        let ghost rest = data@.skip(i as int);
        if i + 1 < data.len() {
            let b1 = data[i + 1];
            proof {
                assert(((b0 & 3) << 4u8) | (b1 >> 4u8) < 64 && (b1 & 15) << 2u8
                    < 64) by (bit_vector);
            }
            let c1 = b64url_char_exec(((b0 & 3) << 4u8) | (b1 >> 4u8));
            let c2 = b64url_char_exec((b1 & 15) << 2u8);
            push_char(&mut out, c0);
            push_char(&mut out, c1);
            push_char(&mut out, c2);
            proof {
                assert(rest.len() == 2);
                assert(out@ =~= base64url_of(data@));
            }
        } else {
            let c1 = b64url_char_exec((b0 & 3) << 4u8);
            push_char(&mut out, c0);
            push_char(&mut out, c1);
            proof {
                assert(rest.len() == 1);
                assert(out@ =~= base64url_of(data@));
            }
        }
    } else {
        proof {
            assert(data@.skip(i as int) =~= Seq::<u8>::empty());
            assert(out@ =~= base64url_of(data@));
        }
    }
    out
}

fn hex_digit_exec(v: u8) -> (c: char)
    requires
        v < 16,
    ensures
        c == hex_digit(v),
{
    if v < 10 {
        (48 + v) as char
    } else {
        (87 + v) as char
    }
}

/// Encode `data` as lowercase hex.
pub fn hex_encode(data: &Vec<u8>) -> (r: String)
    ensures
        r@ == hex_of(data@),
{
    let mut out = String::new();
    let mut i: usize = 0;
    proof {
        assert(data@.skip(0) =~= data@);
    }
    while i < data.len()
        invariant
            i <= data.len(),
            out@ + hex_of(data@.skip(i as int)) == hex_of(data@),
        decreases data.len() - i,
    {
        let b0 = data[i];
        proof {
            assert(b0 >> 4u8 < 16 && b0 & 15 < 16) by (bit_vector);
        }
        let c0 = hex_digit_exec(b0 >> 4u8);
        let c1 = hex_digit_exec(b0 & 15);
        let ghost rest = data@.skip(i as int);
        push_char(&mut out, c0);
        push_char(&mut out, c1);
        proof {
            assert(rest.drop_first() =~= data@.skip(i as int + 1));
            assert(out@ + hex_of(data@.skip(i as int + 1)) =~= hex_of(data@));
        }
        i = i + 1;
    }
    proof {
        assert(data@.skip(i as int) =~= Seq::<u8>::empty());
        assert(out@ =~= hex_of(data@));
    }
    out
}

/// The hex digits of two 4-bit values coincide only when the values do.
proof fn lemma_hex_digit_injective(v1: u8, v2: u8)
    requires
        v1 < 16,
        v2 < 16,
        hex_digit(v1) == hex_digit(v2),
    ensures
        v1 == v2,
{
    assert(hex_digit(v1) as u8 == hex_digit(v2) as u8);
}

/// Hex encoding is injective: equal encodings come from equal byte strings.
pub proof fn lemma_hex_of_injective(a: Seq<u8>, b: Seq<u8>)
    requires
        hex_of(a) == hex_of(b),
    ensures
        a =~= b,
    decreases a.len(),
{
    lemma_hex_of_len(a);
    lemma_hex_of_len(b);
    if a.len() == 0 {
    } else {
        assert(hex_of(a)[0] == hex_digit(a[0] >> 4u8));
        assert(hex_of(b)[0] == hex_digit(b[0] >> 4u8));
        assert(hex_of(a)[1] == hex_digit(a[0] & 15));
        assert(hex_of(b)[1] == hex_digit(b[0] & 15));
        let a0 = a[0];
        let b0 = b[0];
        assert(a0 >> 4u8 < 16 && a0 & 15 < 16 && b0 >> 4u8 < 16 && b0 & 15
            < 16) by (bit_vector);
        lemma_hex_digit_injective(a0 >> 4u8, b0 >> 4u8);
        lemma_hex_digit_injective(a0 & 15, b0 & 15);
        assert(a0 >> 4u8 == b0 >> 4u8 && (a0 & 15) == (b0 & 15) ==> a0 == b0) by (bit_vector);
        assert(hex_of(a).skip(2) =~= hex_of(a.drop_first()));
        assert(hex_of(b).skip(2) =~= hex_of(b.drop_first()));
        lemma_hex_of_injective(a.drop_first(), b.drop_first());
        assert(a =~= seq![a[0]] + a.drop_first());
        assert(b =~= seq![b[0]] + b.drop_first());
    }
}

/// A hex encoding is twice as long as its input.
pub proof fn lemma_hex_of_len(s: Seq<u8>)
    ensures
        hex_of(s).len() == 2 * s.len(),
    decreases s.len(),
{
    if s.len() > 0 {
        lemma_hex_of_len(s.drop_first());
    }
}

} // verus!
