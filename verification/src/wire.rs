//! Primitives of the binary wire format: variable-length integers
//! (little-endian, base 128, with a continuation bit) and the rule for
//! skipping an unrecognised field, given its wire type.

use vstd::prelude::*;
use vstd::arithmetic::div_mod::lemma_fundamental_div_mod;

verus! {

/// One more than the largest value a variable-length integer may decode to.
pub open spec fn vint_limit() -> nat {
    0x1_0000_0000_0000_0000
}

/// The encoding of `n` as a variable-length integer: base-128 digits, least
/// significant first, every byte but the last carrying a continuation bit.
pub open spec fn varint_enc(n: nat) -> Seq<u8>
    decreases n,
{
    if n < 128 {
        seq![n as u8]
    } else {
        seq![(128 + n % 128) as u8] + varint_enc(n / 128)
    }
}

/// Structural parse of a variable-length integer at the front of `s`:
/// the value and the number of bytes consumed, or `None` if `s` ends
/// before a byte without the continuation bit.
pub open spec fn parse_varint(s: Seq<u8>) -> Option<(nat, nat)>
    decreases s.len(),
{
    if s.len() == 0 {
        None
    } else if s[0] < 128 {
        Some((s[0] as nat, 1nat))
    } else {
        match parse_varint(s.skip(1)) {
            None => None,
            Some((v, l)) => Some((((s[0] - 128) as nat + 128 * v) as nat, (l + 1) as nat)),
        }
    }
}

/// A parsed varint is consumed from within `s` and its value fits the
/// integer width of the wire format.
pub open spec fn vparse(s: Seq<u8>) -> Option<(nat, nat)> {
    match parse_varint(s) {
        None => None,
        Some((v, l)) => if v < vint_limit() && 1 <= l && l <= s.len() {
            Some((v, l))
        } else {
            None
        },
    }
}

/// A successful structural parse consumes at least one byte and no more
/// than the input.
pub proof fn lemma_parse_varint_bounds(s: Seq<u8>)
    ensures
        parse_varint(s) matches Some(vl) ==> 1 <= vl.1 <= s.len(),
    decreases s.len(),
{
    if s.len() > 0 && s[0] >= 128 {
        lemma_parse_varint_bounds(s.skip(1));
    }
}

/// Decoding an encoded varint followed by anything yields the encoded value,
/// consumes exactly the encoding, and leaves the rest.
pub proof fn lemma_varint_round_trip(n: nat, rest: Seq<u8>)
    requires
        n < vint_limit(),
    ensures
        vparse(varint_enc(n) + rest) == Some((n, varint_enc(n).len())),
        (varint_enc(n) + rest).skip(varint_enc(n).len() as int) == rest,
        1 <= varint_enc(n).len(),
    decreases n,
{
    let e = varint_enc(n);
    let s = e + rest;
    if n < 128 {
        assert(s[0] == n as u8);
        assert(s.skip(1) =~= rest);
    } else {
        let b: u8 = (128 + n % 128) as u8;
        let e2 = varint_enc(n / 128);
        assert(s[0] == b);
        lemma_varint_round_trip(n / 128, rest);
        assert(s.skip(1) =~= e2 + rest);
        lemma_fundamental_div_mod(n as int, 128);
        assert((b - 128) as nat + 128 * (n / 128) == n);
        assert(s.skip(1 + e2.len() as int) =~= (e2 + rest).skip(e2.len() as int));
        assert(s.skip(e.len() as int) =~= rest);
        lemma_parse_varint_bounds(s);
    }
}

/// The encoding of any value the wire format admits takes at most ten bytes.
pub proof fn lemma_varint_enc_len(n: nat)
    requires
        n < vint_limit(),
    ensures
        varint_enc(n).len() <= 10,
{
    reveal_with_fuel(varint_enc, 11);
    let n1 = n / 128;
    let n2 = n1 / 128;
    let n3 = n2 / 128;
    let n4 = n3 / 128;
    let n5 = n4 / 128;
    let n6 = n5 / 128;
    let n7 = n6 / 128;
    let n8 = n7 / 128;
    let n9 = n8 / 128;
    lemma_fundamental_div_mod(n as int, 128);
    lemma_fundamental_div_mod(n1 as int, 128);
    lemma_fundamental_div_mod(n2 as int, 128);
    lemma_fundamental_div_mod(n3 as int, 128);
    lemma_fundamental_div_mod(n4 as int, 128);
    lemma_fundamental_div_mod(n5 as int, 128);
    lemma_fundamental_div_mod(n6 as int, 128);
    lemma_fundamental_div_mod(n7 as int, 128);
    lemma_fundamental_div_mod(n8 as int, 128);
    assert(n9 < 128);
    assert(varint_enc(n9).len() <= 1);
    assert(varint_enc(n8).len() <= 2);
    assert(varint_enc(n7).len() <= 3);
    assert(varint_enc(n6).len() <= 4);
    assert(varint_enc(n5).len() <= 5);
    assert(varint_enc(n4).len() <= 6);
    assert(varint_enc(n3).len() <= 7);
    assert(varint_enc(n2).len() <= 8);
    assert(varint_enc(n1).len() <= 9);
}

/// How many bytes an unrecognised field's payload occupies, by wire type:
/// 0 is a varint, 1 a fixed eight bytes, 2 a length-prefixed blob, 5 a
/// fixed four bytes; anything else is malformed.
pub open spec fn skip_payload(s: Seq<u8>, wt: nat) -> Option<nat> {
    if wt == 0 {
        match vparse(s) {
            None => None,
            Some((v, l)) => Some(l),
        }
    } else if wt == 1 {
        if s.len() >= 8 { Some(8nat) } else { None }
    } else if wt == 2 {
        match vparse(s) {
            None => None,
            Some((n, l)) => if l + n <= s.len() { Some((l + n) as nat) } else { None },
        }
    } else if wt == 5 {
        if s.len() >= 4 { Some(4nat) } else { None }
    } else {
        None
    }
}

/// Decodes a variable-length integer from `s` within `pos .. end`.
/// Mirrors `vparse` on that window exactly.
pub fn decode_varint(s: &[u8], pos: usize, end: usize) -> (r: Option<(u64, usize)>)
    requires
        pos <= end <= s@.len(),
    ensures
        match r {
            Some(vl) => {
                &&& vparse(s@.subrange(pos as int, end as int))
                    == Some((vl.0 as nat, vl.1 as nat))
                &&& 1 <= vl.1
                &&& pos + vl.1 <= end
            },
            None => vparse(s@.subrange(pos as int, end as int)) is None,
        },
    decreases end - pos,
{
    let ghost w = s@.subrange(pos as int, end as int);
    if pos == end {
        return None;
    }
    let b = s[pos];
    assert(w[0] == b);
    if b < 128 {
        Some((b as u64, 1))
    } else {
        let inner = decode_varint(s, pos + 1, end);
        assert(s@.subrange(pos + 1, end as int) =~= w.skip(1));
        proof {
            lemma_parse_varint_bounds(w.skip(1));
        }
        match inner {
            None => None,
            Some((v, l)) => {
                if v >= 0x0200_0000_0000_0000 {
                    // The combined value would no longer fit the wire
                    // format's integer width.
                    None
                } else {
                    Some(((b - 128) as u64 + 128 * v, l + 1))
                }
            },
        }
    }
}

/// Skips an unrecognised field's payload of wire type `wt`, starting at
/// `pos` within `pos .. end`. Mirrors `skip_payload` on that window.
pub fn skip_payload_bytes(s: &[u8], pos: usize, end: usize, wt: u64) -> (r: Option<usize>)
    requires
        pos <= end <= s@.len(),
    ensures
        match r {
            Some(c) => {
                &&& skip_payload(s@.subrange(pos as int, end as int), wt as nat)
                    == Some(c as nat)
                &&& 1 <= c
                &&& pos + c <= end
            },
            None => skip_payload(s@.subrange(pos as int, end as int), wt as nat) is None,
        },
{
    let ghost w = s@.subrange(pos as int, end as int);
    if wt == 0 {
        match decode_varint(s, pos, end) {
            None => None,
            Some((_v, l)) => Some(l),
        }
    } else if wt == 1 {
        if end - pos >= 8 { Some(8) } else { None }
    } else if wt == 2 {
        match decode_varint(s, pos, end) {
            None => None,
            Some((n, l)) => {
                let rem = end - pos - l;
                if n <= rem as u64 {
                    Some(l + n as usize)
                } else {
                    None
                }
            },
        }
    } else if wt == 5 {
        if end - pos >= 4 { Some(4) } else { None }
    } else {
        None
    }
}

/// Appends the encoding of `n` to `out`.
pub fn encode_varint(n: u64, out: &mut Vec<u8>)
    ensures
        final(out)@ == old(out)@ + varint_enc(n as nat),
    decreases n,
{
    if n < 128 {
        out.push(n as u8);
        assert(out@ =~= old(out)@ + varint_enc(n as nat));
    } else {
        let b = (128 + n % 128) as u8;
        out.push(b);
        encode_varint(n / 128, out);
        assert(out@ =~= old(out)@ + varint_enc(n as nat));
    }
}

} // verus!
