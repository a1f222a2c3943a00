//! The `%XX` escape scheme used for option values.
use vstd::prelude::*;

use crate::text::{chars_of, push_char};
use crate::EncodingError;

verus! {

/// Bytes that may appear in an encoded value without escaping.
pub open spec fn is_unescaped_byte(b: u8) -> bool {
    (97 <= b <= 122) || (65 <= b <= 90) || (48 <= b <= 57) || b == 45 || b == 95 || b == 47
        || b == 46 || b == 92 || b == 42
}

/// Characters that may appear in an encoded value without escaping.
pub open spec fn is_unescaped_char(c: char) -> bool {
    (c as u32) < 128 && is_unescaped_byte(c as u32 as u8)
}

/// The value of a hexadecimal digit, either case.
pub open spec fn hex_value(c: char) -> Option<u8> {
    let n = c as u32;
    if 48 <= n <= 57 {
        Some((n - 48) as u8)
    } else if 97 <= n <= 102 {
        Some((n - 87) as u8)
    } else if 65 <= n <= 70 {
        Some((n - 55) as u8)
    } else {
        None
    }
}

/// The upper-case hexadecimal digit for `n < 16`.
pub open spec fn hex_digit(n: u8) -> char {
    if n < 10 {
        (n + 48) as u8 as char
    } else {
        (n + 55) as u8 as char
    }
}

/// How one byte is written in an encoded value.
pub open spec fn encode_byte(b: u8) -> Seq<char> {
    if is_unescaped_byte(b) {
        seq![b as char]
    } else {
        seq!['%', hex_digit(b / 16), hex_digit(b % 16)]
    }
}

/// The canonical encoding of a byte sequence.
pub open spec fn encode_spec(b: Seq<u8>) -> Seq<char>
    decreases b.len(),
{
    if b.len() == 0 {
        Seq::empty()
    } else {
        encode_byte(b[0]) + encode_spec(b.drop_first())
    }
}

/// Puts `p` in front of a successful decoding; passes an error on.
pub open spec fn prefixed(p: Seq<u8>, r: Result<Seq<u8>, EncodingError>) -> Result<
    Seq<u8>,
    EncodingError,
> {
    match r {
        Ok(t) => Ok(p + t),
        Err(e) => Err(e),
    }
}

/// The decoding of an encoded value, or the first fault met from the left.
pub open spec fn decode_spec(s: Seq<char>) -> Result<Seq<u8>, EncodingError>
    decreases s.len(),
{
    if s.len() == 0 {
        Ok(Seq::empty())
    } else if s[0] == '%' {
        if s.len() < 3 {
            Err(EncodingError::IncompleteSequence)
        } else if hex_value(s[1]) is None || hex_value(s[2]) is None {
            Err(EncodingError::InvalidHex)
        } else {
            let b = (hex_value(s[1])->0 * 16 + hex_value(s[2])->0) as u8;
            prefixed(seq![b], decode_spec(s.subrange(3, s.len() as int)))
        }
    } else if is_unescaped_char(s[0]) {
        prefixed(seq![s[0] as u32 as u8], decode_spec(s.drop_first()))
    } else {
        Err(EncodingError::InvalidRawCharacter)
    }
}

proof fn lemma_prefixed_prefixed(p: Seq<u8>, q: Seq<u8>, r: Result<Seq<u8>, EncodingError>)
    ensures
        prefixed(p, prefixed(q, r)) == prefixed(p + q, r),
{
    if let Ok(t) = r {
        assert(p + (q + t) =~= (p + q) + t);
    }
}

fn hex_value_exec(c: char) -> (r: Option<u8>)
    ensures
        r == hex_value(c),
{
    let n = c as u32;
    if 48 <= n && n <= 57 {
        Some((n - 48) as u8)
    } else if 97 <= n && n <= 102 {
        Some((n - 87) as u8)
    } else if 65 <= n && n <= 70 {
        Some((n - 55) as u8)
    } else {
        None
    }
}

fn hex_digit_exec(n: u8) -> (c: char)
    requires
        n < 16,
    ensures
        c == hex_digit(n),
{
    if n < 10 {
        (n + 48) as char
    } else {
        (n + 55) as char
    }
}

/// Whether a byte may stand unescaped in an encoded value.
pub fn is_unescaped(b: u8) -> (r: bool)
    ensures
        r == is_unescaped_byte(b),
{
    (97 <= b && b <= 122) || (65 <= b && b <= 90) || (48 <= b && b <= 57) || b == 45 || b == 95
        || b == 47 || b == 46 || b == 92 || b == 42
}

/// Decodes an encoded value into the bytes it stands for.
pub fn decode_percents(s: &Vec<char>) -> (r: Result<Vec<u8>, EncodingError>)
    ensures
        match r {
            Ok(v) => decode_spec(s@) == Ok::<Seq<u8>, EncodingError>(v@),
            Err(e) => decode_spec(s@) == Err::<Seq<u8>, EncodingError>(e),
        },
{
    let n = s.len();
    let mut out: Vec<u8> = Vec::new();
    let mut i: usize = 0;
    assert(s@.subrange(0, n as int) =~= s@);
    assert(out@ + Seq::<u8>::empty() =~= Seq::<u8>::empty());
    while i < n
        invariant
            n == s.len(),
            i <= n,
            decode_spec(s@) == prefixed(out@, decode_spec(s@.subrange(i as int, n as int))),
        decreases n - i,
    {
        let ghost rest = s@.subrange(i as int, n as int);
        let c = s[i];
        if c == '%' {
            if n - i < 3 {
                return Err(EncodingError::IncompleteSequence);
            }
            let hi = hex_value_exec(s[i + 1]);
            let lo = hex_value_exec(s[i + 2]);
            match (hi, lo) {
                (Some(h), Some(l)) => {
                    let b: u8 = h * 16 + l;
                    assert(decode_spec(rest) == prefixed(
                        seq![b],
                        decode_spec(rest.subrange(3, rest.len() as int)),
                    ));
                    assert(rest.subrange(3, rest.len() as int) =~= s@.subrange(
                        i + 3,
                        n as int,
                    ));
                    proof {
                        lemma_prefixed_prefixed(
                            out@,
                            seq![b],
                            decode_spec(s@.subrange(i + 3, n as int)),
                        );
                    }
                    let ghost before = out@;
                    out.push(b);
                    assert(out@ =~= before + seq![b]);
                    i = i + 3;
                },
                _ => {
                    return Err(EncodingError::InvalidHex);
                },
            }
        } else if (c as u32) < 128 && is_unescaped(#[verifier::truncate] (c as u32 as u8)) {
            assert(rest.drop_first() =~= s@.subrange(i + 1, n as int));
            assert(decode_spec(rest) == prefixed(
                seq![c as u32 as u8],
                decode_spec(rest.drop_first()),
            ));
            proof {
                lemma_prefixed_prefixed(
                    out@,
                    seq![c as u32 as u8],
                    decode_spec(s@.subrange(i + 1, n as int)),
                );
            }
            let ghost before = out@;
            out.push(c as u32 as u8);
            assert(out@ =~= before + seq![c as u32 as u8]);
            i = i + 1;
        } else {
            return Err(EncodingError::InvalidRawCharacter);
        }
    }
    assert(out@ + Seq::<u8>::empty() =~= out@);
    Ok(out)
}

/// Decodes an encoded value, given as text, into the bytes it stands for.
pub fn decode(s: &str) -> (r: Result<Vec<u8>, EncodingError>)
    ensures
        match r {
            Ok(v) => decode_spec(s@) == Ok::<Seq<u8>, EncodingError>(v@),
            Err(e) => decode_spec(s@) == Err::<Seq<u8>, EncodingError>(e),
        },
{
    decode_percents(&chars_of(s))
}

/// Appends the canonical encoding of `b` to `out`.
pub fn encode_percents(out: &mut String, b: &[u8])
    ensures
        final(out)@ == old(out)@ + encode_spec(b@),
{
    let n = b.len();
    let ghost start = out@;
    assert(b@.subrange(0, n as int) =~= b@);
    assert(start + encode_spec(b@.subrange(0, n as int)) =~= start + encode_spec(b@));
    let mut i: usize = 0;
    while i < n
        invariant
            n == b.len(),
            i <= n,
            start + encode_spec(b@) == out@ + encode_spec(b@.subrange(i as int, n as int)),
        decreases n - i,
    {
        let x = b[i];
        let ghost rest = b@.subrange(i as int, n as int);
        assert(rest.drop_first() =~= b@.subrange(i + 1, n as int));
        let ghost before = out@;
        if is_unescaped(x) {
            push_char(out, x as char);
        } else {
            push_char(out, '%');
            push_char(out, hex_digit_exec(x / 16));
            push_char(out, hex_digit_exec(x % 16));
        }
        assert(out@ =~= before + encode_byte(x));
        assert(before + encode_spec(rest) =~= out@ + encode_spec(b@.subrange(i + 1, n as int)));
        i = i + 1;
    }
    assert(out@ + encode_spec(b@.subrange(n as int, n as int)) =~= out@);
}

/// The canonical encoding of `b`.
pub fn encode(b: &[u8]) -> (r: String)
    ensures
        r@ == encode_spec(b@),
{
    let mut s = String::new();
    encode_percents(&mut s, b);
    assert(Seq::<char>::empty() + encode_spec(b@) =~= encode_spec(b@));
    s
}

proof fn lemma_decode_byte(b: u8, rest: Seq<char>)
    ensures
        decode_spec(encode_byte(b) + rest) == prefixed(seq![b], decode_spec(rest)),
{
    let s = encode_byte(b) + rest;
    if is_unescaped_byte(b) {
        assert(s.drop_first() =~= rest);
        assert((b as char) as u32 == b as u32);
    } else {
        assert(s.subrange(3, s.len() as int) =~= rest);
        assert(hex_value(hex_digit(b / 16)) == Some(b / 16));
        assert(hex_value(hex_digit(b % 16)) == Some(b % 16));
    }
}

/// Decoding the canonical encoding of any byte sequence gives that sequence back.
pub proof fn lemma_decode_encode(b: Seq<u8>)
    ensures
        decode_spec(encode_spec(b)) == Ok::<Seq<u8>, EncodingError>(b),
    decreases b.len(),
{
    if b.len() == 0 {
        assert(b =~= Seq::<u8>::empty());
    } else {
        lemma_decode_encode(b.drop_first());
        lemma_decode_byte(b[0], encode_spec(b.drop_first()));
        assert(seq![b[0]] + b.drop_first() =~= b);
        assert(encode_spec(b) == encode_byte(b[0]) + encode_spec(b.drop_first()));
    }
}

} // verus!
