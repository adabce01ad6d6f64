//! Executable envelope codec: encoders that produce exactly the canonical
//! encoding of an envelope, and decoders that compute exactly what the
//! schema's parser denotes, rejecting every malformed input.

use vstd::prelude::*;
use crate::wire::{varint_enc, encode_varint, decode_varint, skip_payload_bytes};
use crate::envelope::{
    PagingControls, BlockListRequest, Block, BlockListResponse, BlockHeader, BlockModel,
    BlockListResponseModel, enc_paging, enc_request, enc_header, enc_block, enc_blocks,
    enc_response, parse_paging_fields, parse_paging, parse_request_fields, parse_request,
    parse_header_fields, parse_header, parse_block_fields, parse_block, parse_response_fields,
    parse_response,
};

verus! {

/// Appends a copy of `src[from .. to]` to `out`.
fn push_bytes(out: &mut Vec<u8>, src: &[u8], from: usize, to: usize)
    requires
        from <= to <= src@.len(),
    ensures
        final(out)@ == old(out)@ + src@.subrange(from as int, to as int),
{
    let mut i = from;
    while i < to
        invariant
            from <= i <= to <= src@.len(),
            out@ == old(out)@ + src@.subrange(from as int, i as int),
        decreases to - i,
    {
        out.push(src[i]);
        assert(out@ =~= old(out)@ + src@.subrange(from as int, i + 1));
        i = i + 1;
    }
    assert(out@ =~= old(out)@ + src@.subrange(from as int, to as int));
}

/// Encodes a paging directive.
pub fn encode_paging(p: &PagingControls) -> (out: Vec<u8>)
    ensures
        out@ == enc_paging(*p),
{
    let mut out: Vec<u8> = Vec::new();
    if p.count != 0 {
        encode_varint(16, &mut out);
        encode_varint(p.count as u64, &mut out);
        assert(out@ =~= Seq::<u8>::empty() + varint_enc(16) + varint_enc(p.count as nat));
        assert(out@ =~= varint_enc(16) + varint_enc(p.count as nat));
    }
    out
}

/// Encodes a request envelope.
pub fn encode_request(r: &BlockListRequest) -> (out: Vec<u8>)
    ensures
        out@ == enc_request(*r),
{
    let mut out: Vec<u8> = Vec::new();
    match r.paging {
        None => {},
        Some(p) => {
            let mut ep = encode_paging(&p);
            encode_varint(26, &mut out);
            encode_varint(ep.len() as u64, &mut out);
            out.append(&mut ep);
            assert(out@ =~= varint_enc(26) + varint_enc(enc_paging(p).len() as nat)
                + enc_paging(p));
        },
    }
    out
}

/// Encodes a header blob.
pub fn encode_header(h: &BlockHeader) -> (out: Vec<u8>)
    ensures
        out@ == enc_header(*h),
{
    let mut out: Vec<u8> = Vec::new();
    if h.block_num != 0 {
        encode_varint(8, &mut out);
        encode_varint(h.block_num, &mut out);
        assert(out@ =~= varint_enc(8) + varint_enc(h.block_num as nat));
    }
    out
}

/// Encodes one block record.
pub fn encode_block(b: &Block) -> (out: Vec<u8>)
    ensures
        out@ == enc_block(b@),
{
    let mut out: Vec<u8> = Vec::new();
    if b.header.len() != 0 {
        encode_varint(10, &mut out);
        encode_varint(b.header.len() as u64, &mut out);
        push_bytes(&mut out, b.header.as_slice(), 0, b.header.len());
        assert(b.header@.subrange(0, b.header@.len() as int) =~= b.header@);
        assert(out@ =~= varint_enc(10) + varint_enc(b.header@.len() as nat) + b.header@);
    }
    out
}

/// One record's occurrence of the repeated field, as emitted by the encoder.
pub open spec fn enc_block_field(b: BlockModel) -> Seq<u8> {
    varint_enc(18) + varint_enc(enc_block(b).len() as nat) + enc_block(b)
}

/// Appending a record to a reply appends exactly its field bytes to the
/// reply's encoding.
proof fn lemma_enc_blocks_snoc(bs: Seq<BlockModel>, b: BlockModel)
    ensures
        enc_blocks(bs.push(b)) == enc_blocks(bs) + enc_block_field(b),
    decreases bs.len(),
{
    reveal_with_fuel(enc_blocks, 3);
    if bs.len() == 0 {
        assert(bs.push(b)[0] == b);
        assert(bs.push(b).skip(1) =~= Seq::<BlockModel>::empty());
        assert(enc_blocks(bs.push(b)) =~= enc_blocks(bs) + enc_block_field(b));
    } else {
        assert(bs.push(b)[0] == bs[0]);
        assert(bs.push(b).skip(1) =~= bs.skip(1).push(b));
        lemma_enc_blocks_snoc(bs.skip(1), b);
        assert(enc_blocks(bs.push(b)) =~= enc_blocks(bs) + enc_block_field(b));
    }
}

/// Encodes a reply envelope.
pub fn encode_response(r: &BlockListResponse) -> (out: Vec<u8>)
    ensures
        out@ == enc_response(r@),
{
    let mut out: Vec<u8> = Vec::new();
    let ghost bs = r@.blocks;
    let mut i: usize = 0;
    while i < r.blocks.len()
        invariant
            i <= r.blocks@.len(),
            bs == r@.blocks,
            bs.len() == r.blocks@.len(),
            out@ == enc_blocks(bs.take(i as int)),
        decreases r.blocks@.len() - i,
    {
        let mut eb = encode_block(&r.blocks[i]);
        assert(eb@ == enc_block(bs[i as int]));
        encode_varint(18, &mut out);
        encode_varint(eb.len() as u64, &mut out);
        out.append(&mut eb);
        proof {
            lemma_enc_blocks_snoc(bs.take(i as int), bs[i as int]);
            assert(bs.take(i as int).push(bs[i as int]) =~= bs.take(i + 1));
            assert(out@ =~= enc_blocks(bs.take(i as int)) + enc_block_field(bs[i as int]));
        }
        i = i + 1;
    }
    assert(bs.take(bs.len() as int) =~= bs);
    out
}

/// Decodes the fields of a paging directive within `pos .. end`.
fn decode_paging_rec(s: &[u8], pos: usize, end: usize, acc: PagingControls) -> (r: Option<
    PagingControls,
>)
    requires
        pos <= end <= s@.len(),
    ensures
        r == parse_paging_fields(s@.subrange(pos as int, end as int), acc),
    decreases end - pos,
{
    let ghost w = s@.subrange(pos as int, end as int);
    if pos == end {
        return Some(acc);
    }
    match decode_varint(s, pos, end) {
        None => None,
        Some((k, kl)) => {
            let p2 = pos + kl;
            assert(s@.subrange(p2 as int, end as int) =~= w.skip(kl as int));
            if k == 16 {
                match decode_varint(s, p2, end) {
                    None => None,
                    Some((v, vl)) => {
                        if v < 0x8000_0000 {
                            let p3 = p2 + vl;
                            assert(s@.subrange(p3 as int, end as int)
                                =~= w.skip(kl as int).skip(vl as int));
                            decode_paging_rec(s, p3, end, PagingControls { count: v as u32 })
                        } else {
                            None
                        }
                    },
                }
            } else {
                match skip_payload_bytes(s, p2, end, k % 8) {
                    None => None,
                    Some(c) => {
                        let p3 = p2 + c;
                        assert(s@.subrange(p3 as int, end as int)
                            =~= w.skip(kl as int).skip(c as int));
                        decode_paging_rec(s, p3, end, acc)
                    },
                }
            }
        },
    }
}

/// Decodes a paging directive. Returns exactly what the schema's parser
/// denotes on `s`: `None` on every malformed input.
pub fn decode_paging(s: &[u8]) -> (r: Option<PagingControls>)
    ensures
        r == parse_paging(s@),
{
    let r = decode_paging_rec(s, 0, s.len(), PagingControls { count: 0 });
    assert(s@.subrange(0, s@.len() as int) =~= s@);
    r
}

/// Decodes the fields of a request envelope within `pos .. end`.
#[verifier::rlimit(80)]
fn decode_request_rec(s: &[u8], pos: usize, end: usize, acc: BlockListRequest) -> (r: Option<
    BlockListRequest,
>)
    requires
        pos <= end <= s@.len(),
    ensures
        r == parse_request_fields(s@.subrange(pos as int, end as int), acc),
    decreases end - pos,
{
    let ghost w = s@.subrange(pos as int, end as int);
    if pos == end {
        return Some(acc);
    }
    match decode_varint(s, pos, end) {
        None => None,
        Some((k, kl)) => {
            let p2 = pos + kl;
            assert(s@.subrange(p2 as int, end as int) =~= w.skip(kl as int));
            if k == 26 {
                match decode_varint(s, p2, end) {
                    None => None,
                    Some((n, nl)) => {
                        let rem = end - p2 - nl;
                        if n <= rem as u64 {
                            let p3 = p2 + nl;
                            let p4 = p3 + n as usize;
                            assert(s@.subrange(p3 as int, p4 as int)
                                =~= w.skip(kl as int).skip(nl as int).take(n as int));
                            let inner = decode_paging_rec(
                                s,
                                p3,
                                p4,
                                PagingControls { count: 0 },
                            );
                            match inner {
                                None => None,
                                Some(p) => {
                                    assert(s@.subrange(p4 as int, end as int)
                                        =~= w.skip(kl as int).skip((nl + n) as int));
                                    decode_request_rec(
                                        s,
                                        p4,
                                        end,
                                        BlockListRequest { paging: Some(p) },
                                    )
                                },
                            }
                        } else {
                            None
                        }
                    },
                }
            } else {
                match skip_payload_bytes(s, p2, end, k % 8) {
                    None => None,
                    Some(c) => {
                        let p3 = p2 + c;
                        assert(s@.subrange(p3 as int, end as int)
                            =~= w.skip(kl as int).skip(c as int));
                        decode_request_rec(s, p3, end, acc)
                    },
                }
            }
        },
    }
}

/// Decodes a request envelope.
pub fn decode_request(s: &[u8]) -> (r: Option<BlockListRequest>)
    ensures
        r == parse_request(s@),
{
    let r = decode_request_rec(s, 0, s.len(), BlockListRequest { paging: None });
    assert(s@.subrange(0, s@.len() as int) =~= s@);
    r
}

/// Decodes the fields of a header blob within `pos .. end`.
fn decode_header_rec(s: &[u8], pos: usize, end: usize, acc: BlockHeader) -> (r: Option<
    BlockHeader,
>)
    requires
        pos <= end <= s@.len(),
    ensures
        r == parse_header_fields(s@.subrange(pos as int, end as int), acc),
    decreases end - pos,
{
    let ghost w = s@.subrange(pos as int, end as int);
    if pos == end {
        return Some(acc);
    }
    match decode_varint(s, pos, end) {
        None => None,
        Some((k, kl)) => {
            let p2 = pos + kl;
            assert(s@.subrange(p2 as int, end as int) =~= w.skip(kl as int));
            if k == 8 {
                match decode_varint(s, p2, end) {
                    None => None,
                    Some((v, vl)) => {
                        let p3 = p2 + vl;
                        assert(s@.subrange(p3 as int, end as int)
                            =~= w.skip(kl as int).skip(vl as int));
                        decode_header_rec(s, p3, end, BlockHeader { block_num: v })
                    },
                }
            } else {
                match skip_payload_bytes(s, p2, end, k % 8) {
                    None => None,
                    Some(c) => {
                        let p3 = p2 + c;
                        assert(s@.subrange(p3 as int, end as int)
                            =~= w.skip(kl as int).skip(c as int));
                        decode_header_rec(s, p3, end, acc)
                    },
                }
            }
        },
    }
}

/// Decodes a nested header blob.
pub fn decode_header(s: &[u8]) -> (r: Option<BlockHeader>)
    ensures
        r == parse_header(s@),
{
    let r = decode_header_rec(s, 0, s.len(), BlockHeader { block_num: 0 });
    assert(s@.subrange(0, s@.len() as int) =~= s@);
    r
}

/// Decodes the fields of a block record within `pos .. end`.
fn decode_block_rec(s: &[u8], pos: usize, end: usize, acc: Block) -> (r: Option<Block>)
    requires
        pos <= end <= s@.len(),
    ensures
        match r {
            Some(b) => parse_block_fields(s@.subrange(pos as int, end as int), acc@) == Some(b@),
            None => parse_block_fields(s@.subrange(pos as int, end as int), acc@) is None,
        },
    decreases end - pos,
{
    let ghost w = s@.subrange(pos as int, end as int);
    if pos == end {
        return Some(acc);
    }
    match decode_varint(s, pos, end) {
        None => None,
        Some((k, kl)) => {
            let p2 = pos + kl;
            assert(s@.subrange(p2 as int, end as int) =~= w.skip(kl as int));
            if k == 10 {
                match decode_varint(s, p2, end) {
                    None => None,
                    Some((n, nl)) => {
                        let rem = end - p2 - nl;
                        if n <= rem as u64 {
                            let p3 = p2 + nl;
                            let p4 = p3 + n as usize;
                            let mut header: Vec<u8> = Vec::new();
                            push_bytes(&mut header, s, p3, p4);
                            assert(header@ =~= w.skip(kl as int).skip(nl as int).take(n as int));
                            assert(s@.subrange(p4 as int, end as int)
                                =~= w.skip(kl as int).skip((nl + n) as int));
                            decode_block_rec(s, p4, end, Block { header })
                        } else {
                            None
                        }
                    },
                }
            } else {
                match skip_payload_bytes(s, p2, end, k % 8) {
                    None => None,
                    Some(c) => {
                        let p3 = p2 + c;
                        assert(s@.subrange(p3 as int, end as int)
                            =~= w.skip(kl as int).skip(c as int));
                        decode_block_rec(s, p3, end, acc)
                    },
                }
            }
        },
    }
}

/// Decodes the fields of a reply envelope within `pos .. end`.
#[verifier::rlimit(80)]
fn decode_response_rec(s: &[u8], pos: usize, end: usize, acc: BlockListResponse) -> (r: Option<
    BlockListResponse,
>)
    requires
        pos <= end <= s@.len(),
    ensures
        match r {
            Some(resp) => parse_response_fields(s@.subrange(pos as int, end as int), acc@)
                == Some(resp@),
            None => parse_response_fields(s@.subrange(pos as int, end as int), acc@) is None,
        },
    decreases end - pos,
{
    let ghost w = s@.subrange(pos as int, end as int);
    if pos == end {
        return Some(acc);
    }
    match decode_varint(s, pos, end) {
        None => None,
        Some((k, kl)) => {
            let p2 = pos + kl;
            assert(s@.subrange(p2 as int, end as int) =~= w.skip(kl as int));
            if k == 18 {
                match decode_varint(s, p2, end) {
                    None => None,
                    Some((n, nl)) => {
                        let rem = end - p2 - nl;
                        if n <= rem as u64 {
                            let p3 = p2 + nl;
                            let p4 = p3 + n as usize;
                            assert(s@.subrange(p3 as int, p4 as int)
                                =~= w.skip(kl as int).skip(nl as int).take(n as int));
                            let inner = decode_block_rec(
                                s,
                                p3,
                                p4,
                                Block { header: Vec::new() },
                            );
                            match inner {
                                None => {
                                    assert(parse_block(
                                        w.skip(kl as int).skip(nl as int).take(n as int),
                                    ) is None);
                                    None
                                },
                                Some(b) => {
                                    assert(s@.subrange(p4 as int, end as int)
                                        =~= w.skip(kl as int).skip((nl + n) as int));
                                    let mut acc2 = acc;
                                    acc2.blocks.push(b);
                                    assert(acc2@.blocks =~= acc@.blocks.push(b@));
                                    decode_response_rec(s, p4, end, acc2)
                                },
                            }
                        } else {
                            None
                        }
                    },
                }
            } else {
                match skip_payload_bytes(s, p2, end, k % 8) {
                    None => None,
                    Some(c) => {
                        let p3 = p2 + c;
                        assert(s@.subrange(p3 as int, end as int)
                            =~= w.skip(kl as int).skip(c as int));
                        decode_response_rec(s, p3, end, acc)
                    },
                }
            }
        },
    }
}

/// Decodes a reply envelope.
pub fn decode_response(s: &[u8]) -> (r: Option<BlockListResponse>)
    ensures
        match r {
            Some(resp) => parse_response(s@) == Some(resp@),
            None => parse_response(s@) is None,
        },
{
    let r = decode_response_rec(s, 0, s.len(), BlockListResponse { blocks: Vec::new() });
    assert(s@.subrange(0, s@.len() as int) =~= s@);
    proof {
        assert(Seq::<Block>::empty().map_values(|b: Block| b@) =~= Seq::<BlockModel>::empty());
    }
    r
}

} // verus!
