use vstd::prelude::*;

verus! {

/// Relies on `String::push`: appends the given character to the end of the
/// string.
pub assume_specification[ String::push ](s: &mut String, c: char)
    ensures
        final(s)@ == old(s)@.push(c),
;

/// The lowercase hexadecimal digit for a nibble value.
pub open spec fn hex_digit(n: u8) -> char
    recommends
        n < 16,
{
    if n < 10 {
        ((n + 48) as u8) as char
    } else {
        ((n + 87) as u8) as char
    }
}

/// The lowercase hexadecimal encoding of a byte sequence: two digits per
/// byte, high nibble first, no separators and no padding.
pub open spec fn hex_of(bytes: Seq<u8>) -> Seq<char> {
    Seq::new(
        bytes.len() * 2,
        |i: int|
            if i % 2 == 0 {
                hex_digit(bytes[i / 2] / 16)
            } else {
                hex_digit(bytes[i / 2] % 16)
            },
    )
}

/// The nibble value of a lowercase hexadecimal digit, if it is one.
pub open spec fn hex_val(c: char) -> Option<u8> {
    let u = c as u32;
    if 48 <= u && u <= 57 {
        Some((u - 48) as u8)
    } else if 97 <= u && u <= 102 {
        Some((u - 87) as u8)
    } else {
        None
    }
}

/// What a standard hexadecimal decoder reproduces from a character
/// sequence: the byte sequence it encodes, or nothing if the sequence is
/// not a lowercase hexadecimal encoding.
pub open spec fn hex_decode(s: Seq<char>) -> Option<Seq<u8>>
    decreases s.len(),
{
    if s.len() % 2 != 0 {
        None
    } else if s.len() == 0 {
        Some(Seq::empty())
    } else {
        match (hex_val(s[0]), hex_val(s[1])) {
            (Some(hi), Some(lo)) => match hex_decode(s.subrange(2, s.len() as int)) {
                Some(rest) => Some(seq![(hi * 16 + lo) as u8] + rest),
                None => None,
            },
            _ => None,
        }
    }
}

/// The exec counterpart of `hex_digit`.
fn hex_digit_char(n: u8) -> (c: char)
    requires
        n < 16,
    ensures
        c == hex_digit(n),
{
    if n < 10 {
        (n + 48) as char
    } else {
        (n + 87) as char
    }
}

/// Encodes bytes as lowercase hexadecimal.  This is the whole compute step
/// of loading a credential: the file's raw bytes become the transport-safe
/// string attached to every request.
pub fn encode_hex(bytes: &Vec<u8>) -> (r: String)
    ensures
        r@ == hex_of(bytes@),
{
    let mut out = String::new();
    let mut i: usize = 0;
    while i < bytes.len()
        invariant
            i <= bytes.len(),
            out@ == hex_of(bytes@.subrange(0, i as int)),
        decreases bytes.len() - i,
    {
        let b = bytes[i];
        let hi = hex_digit_char(b / 16);
        let lo = hex_digit_char(b % 16);
        out.push(hi);
        out.push(lo);
        proof {
            assert(out@ =~= hex_of(bytes@.subrange(0, (i + 1) as int)));
        }
        i += 1;
    }
    proof {
        assert(bytes@.subrange(0, bytes@.len() as int) =~= bytes@);
    }
    out
}

/// A lowercase hexadecimal digit decodes back to the nibble it encodes.
proof fn lemma_hex_digit_round_trip(n: u8)
    requires
        n < 16,
    ensures
        hex_val(hex_digit(n)) == Some(n),
{
}

/// Decoding the encoding reproduces the input, byte for byte: the
/// encoding is reversible, so no information about the credential is lost
/// in transport form.
pub proof fn lemma_hex_round_trip(bytes: Seq<u8>)
    ensures
        hex_decode(hex_of(bytes)) == Some(bytes),
    decreases bytes.len(),
{
    let s = hex_of(bytes);
    if bytes.len() == 0 {
        assert(s =~= Seq::<char>::empty());
        assert(hex_decode(s) == Some(Seq::<u8>::empty()));
        assert(bytes =~= Seq::<u8>::empty());
    } else {
        let rest = bytes.subrange(1, bytes.len() as int);
        lemma_hex_round_trip(rest);
        assert(s.subrange(2, s.len() as int) =~= hex_of(rest)) by {
            assert forall|i: int| 0 <= i < s.len() - 2 implies s.subrange(2, s.len() as int)[i]
                == hex_of(rest)[i] by {
                assert((i + 2) / 2 == i / 2 + 1);
                assert((i + 2) % 2 == i % 2);
            }
        }
        let b = bytes[0];
        lemma_hex_digit_round_trip(b / 16);
        lemma_hex_digit_round_trip(b % 16);
        assert(s[0] == hex_digit(b / 16));
        assert(s[1] == hex_digit(b % 16));
        assert(hex_val(s[0]) == Some(b / 16));
        assert(hex_val(s[1]) == Some(b % 16));
        assert((b / 16) * 16 + (b % 16) == b);
        assert(seq![b] + rest =~= bytes);
    }
}

} // verus!
