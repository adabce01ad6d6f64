//! Typed request and reply envelopes and their binary schema.
//!
//! The schema is the peer's versioned wire contract: each message is a
//! sequence of fields, a field being a varint key (field number shifted
//! left by three, plus the wire type) followed by its payload. Only the
//! fields this bridge reads are modelled; a decoder skips any other
//! well-formed field and rejects anything structurally malformed.

use vstd::prelude::*;
use crate::wire::{varint_enc, vparse, skip_payload, vint_limit, lemma_varint_round_trip,
    lemma_varint_enc_len};

verus! {

/// A paging directive on a listing query: return only the most recent
/// `count` items. On the wire: field 2, a varint, holding a 31-bit count.
#[derive(Debug, Clone, Copy, PartialEq, Eq, Structural)]
pub struct PagingControls {
    pub count: u32,
}

/// The request envelope of a block-listing query. Only the paging
/// directive is modelled; on the wire it is field 3, a nested message.
#[derive(Debug, Clone, Copy, PartialEq, Eq, Structural)]
pub struct BlockListRequest {
    pub paging: Option<PagingControls>,
}

/// A domain record of a listing reply: a block summary whose `header`
/// holds a further-nested encoded header blob (field 1, bytes).
#[derive(Debug, Clone, PartialEq, Eq)]
pub struct Block {
    pub header: Vec<u8>,
}

/// The reply envelope of a block-listing query: zero or more block
/// records (field 2, repeated nested messages).
#[derive(Debug, Clone, PartialEq, Eq)]
pub struct BlockListResponse {
    pub blocks: Vec<Block>,
}

/// The nested header blob's decoded form. Only the chain position is
/// modelled; on the wire it is field 1, a varint.
#[derive(Debug, Clone, Copy, PartialEq, Eq, Structural)]
pub struct BlockHeader {
    pub block_num: u64,
}

/// Mathematical model of a `Block`.
#[verifier::ext_equal]
pub ghost struct BlockModel {
    pub header: Seq<u8>,
}

/// Mathematical model of a `BlockListResponse`.
#[verifier::ext_equal]
pub ghost struct BlockListResponseModel {
    pub blocks: Seq<BlockModel>,
}

impl View for Block {
    type V = BlockModel;

    open spec fn view(&self) -> BlockModel {
        BlockModel { header: self.header@ }
    }
}

impl View for BlockListResponse {
    type V = BlockListResponseModel;

    open spec fn view(&self) -> BlockListResponseModel {
        BlockListResponseModel { blocks: self.blocks@.map_values(|b: Block| b@) }
    }
}

/// The paging count is a 31-bit value, as the wire schema's signed
/// 32-bit field requires of a non-negative count.
pub open spec fn paging_wf(p: PagingControls) -> bool {
    p.count < 0x8000_0000
}

pub open spec fn request_wf(r: BlockListRequest) -> bool {
    r.paging matches Some(p) ==> paging_wf(p)
}

/// A block's nested header blob, together with its field key and length
/// prefix, fits the wire format's length prefix.
pub open spec fn block_wf(b: BlockModel) -> bool {
    b.header.len() + 16 < vint_limit()
}

pub open spec fn response_wf(r: BlockListResponseModel) -> bool {
    forall|i: int| 0 <= i < r.blocks.len() ==> block_wf(#[trigger] r.blocks[i])
}

// ---------------------------------------------------------------------
// Encoders: canonical encodings, fields in ascending order, default
// values omitted.
// ---------------------------------------------------------------------

pub open spec fn enc_paging(p: PagingControls) -> Seq<u8> {
    if p.count == 0 {
        Seq::empty()
    } else {
        varint_enc(16) + varint_enc(p.count as nat)
    }
}

pub open spec fn enc_request(r: BlockListRequest) -> Seq<u8> {
    match r.paging {
        None => Seq::empty(),
        Some(p) => varint_enc(26) + varint_enc(enc_paging(p).len() as nat) + enc_paging(p),
    }
}

pub open spec fn enc_header(h: BlockHeader) -> Seq<u8> {
    if h.block_num == 0 {
        Seq::empty()
    } else {
        varint_enc(8) + varint_enc(h.block_num as nat)
    }
}

pub open spec fn enc_block(b: BlockModel) -> Seq<u8> {
    if b.header.len() == 0 {
        Seq::empty()
    } else {
        varint_enc(10) + varint_enc(b.header.len() as nat) + b.header
    }
}

/// Each record of a listing reply is emitted as one occurrence of the
/// repeated field, in order.
pub open spec fn enc_blocks(bs: Seq<BlockModel>) -> Seq<u8>
    decreases bs.len(),
{
    if bs.len() == 0 {
        Seq::empty()
    } else {
        varint_enc(18) + varint_enc(enc_block(bs[0]).len() as nat) + enc_block(bs[0])
            + enc_blocks(bs.skip(1))
    }
}

pub open spec fn enc_response(r: BlockListResponseModel) -> Seq<u8> {
    enc_blocks(r.blocks)
}

// ---------------------------------------------------------------------
// Parsers: a fold over the fields of the message, later occurrences of a
// field overriding earlier ones, repeated fields accumulating, unknown
// fields skipped by wire type.
// ---------------------------------------------------------------------

pub open spec fn parse_paging_fields(s: Seq<u8>, acc: PagingControls) -> Option<PagingControls>
    decreases s.len(),
{
    if s.len() == 0 {
        Some(acc)
    } else {
        match vparse(s) {
            None => None,
            Some((k, kl)) => {
                let rest = s.skip(kl as int);
                if k == 16 {
                    match vparse(rest) {
                        None => None,
                        Some((v, vl)) => if v < 0x8000_0000 {
                            parse_paging_fields(
                                rest.skip(vl as int),
                                PagingControls { count: v as u32 },
                            )
                        } else {
                            None
                        },
                    }
                } else {
                    match skip_payload(rest, k % 8) {
                        None => None,
                        Some(c) => parse_paging_fields(rest.skip(c as int), acc),
                    }
                }
            },
        }
    }
}

pub open spec fn parse_paging(s: Seq<u8>) -> Option<PagingControls> {
    parse_paging_fields(s, PagingControls { count: 0 })
}

pub open spec fn parse_request_fields(s: Seq<u8>, acc: BlockListRequest) -> Option<
    BlockListRequest,
>
    decreases s.len(),
{
    if s.len() == 0 {
        Some(acc)
    } else {
        match vparse(s) {
            None => None,
            Some((k, kl)) => {
                let rest = s.skip(kl as int);
                if k == 26 {
                    match vparse(rest) {
                        None => None,
                        Some((n, nl)) => if nl + n <= rest.len() {
                            match parse_paging(rest.skip(nl as int).take(n as int)) {
                                None => None,
                                Some(p) => parse_request_fields(
                                    rest.skip((nl + n) as int),
                                    BlockListRequest { paging: Some(p) },
                                ),
                            }
                        } else {
                            None
                        },
                    }
                } else {
                    match skip_payload(rest, k % 8) {
                        None => None,
                        Some(c) => parse_request_fields(rest.skip(c as int), acc),
                    }
                }
            },
        }
    }
}

pub open spec fn parse_request(s: Seq<u8>) -> Option<BlockListRequest> {
    parse_request_fields(s, BlockListRequest { paging: None })
}

pub open spec fn parse_header_fields(s: Seq<u8>, acc: BlockHeader) -> Option<BlockHeader>
    decreases s.len(),
{
    if s.len() == 0 {
        Some(acc)
    } else {
        match vparse(s) {
            None => None,
            Some((k, kl)) => {
                let rest = s.skip(kl as int);
                if k == 8 {
                    match vparse(rest) {
                        None => None,
                        Some((v, vl)) => parse_header_fields(
                            rest.skip(vl as int),
                            BlockHeader { block_num: v as u64 },
                        ),
                    }
                } else {
                    match skip_payload(rest, k % 8) {
                        None => None,
                        Some(c) => parse_header_fields(rest.skip(c as int), acc),
                    }
                }
            },
        }
    }
}

pub open spec fn parse_header(s: Seq<u8>) -> Option<BlockHeader> {
    parse_header_fields(s, BlockHeader { block_num: 0 })
}

pub open spec fn parse_block_fields(s: Seq<u8>, acc: BlockModel) -> Option<BlockModel>
    decreases s.len(),
{
    if s.len() == 0 {
        Some(acc)
    } else {
        match vparse(s) {
            None => None,
            Some((k, kl)) => {
                let rest = s.skip(kl as int);
                if k == 10 {
                    match vparse(rest) {
                        None => None,
                        Some((n, nl)) => if nl + n <= rest.len() {
                            parse_block_fields(
                                rest.skip((nl + n) as int),
                                BlockModel { header: rest.skip(nl as int).take(n as int) },
                            )
                        } else {
                            None
                        },
                    }
                } else {
                    match skip_payload(rest, k % 8) {
                        None => None,
                        Some(c) => parse_block_fields(rest.skip(c as int), acc),
                    }
                }
            },
        }
    }
}

pub open spec fn parse_block(s: Seq<u8>) -> Option<BlockModel> {
    parse_block_fields(s, BlockModel { header: Seq::empty() })
}

pub open spec fn parse_response_fields(s: Seq<u8>, acc: BlockListResponseModel) -> Option<
    BlockListResponseModel,
>
    decreases s.len(),
{
    if s.len() == 0 {
        Some(acc)
    } else {
        match vparse(s) {
            None => None,
            Some((k, kl)) => {
                let rest = s.skip(kl as int);
                if k == 18 {
                    match vparse(rest) {
                        None => None,
                        Some((n, nl)) => if nl + n <= rest.len() {
                            match parse_block(rest.skip(nl as int).take(n as int)) {
                                None => None,
                                Some(b) => parse_response_fields(
                                    rest.skip((nl + n) as int),
                                    BlockListResponseModel { blocks: acc.blocks.push(b) },
                                ),
                            }
                        } else {
                            None
                        },
                    }
                } else {
                    match skip_payload(rest, k % 8) {
                        None => None,
                        Some(c) => parse_response_fields(rest.skip(c as int), acc),
                    }
                }
            },
        }
    }
}

pub open spec fn parse_response(s: Seq<u8>) -> Option<BlockListResponseModel> {
    parse_response_fields(s, BlockListResponseModel { blocks: Seq::empty() })
}

// ---------------------------------------------------------------------
// Round-trip laws: decoding an encoded envelope yields the envelope
// back, for every well-formed envelope.
// ---------------------------------------------------------------------

/// Decoding an encoded paging directive yields it back.
pub proof fn lemma_paging_round_trip(p: PagingControls)
    requires
        paging_wf(p),
    ensures
        parse_paging(enc_paging(p)) == Some(p),
{
    reveal_with_fuel(parse_paging_fields, 3);
    if p.count != 0 {
        let ec = varint_enc(p.count as nat);
        let s = enc_paging(p);
        lemma_varint_round_trip(16, ec);
        lemma_varint_round_trip(p.count as nat, Seq::empty());
        assert(ec + Seq::<u8>::empty() =~= ec);
        assert(s.skip(varint_enc(16).len() as int) == ec);
        assert(ec.skip(ec.len() as int) =~= Seq::<u8>::empty());
    }
}

/// Decoding an encoded header blob yields it back.
pub proof fn lemma_header_round_trip(h: BlockHeader)
    ensures
        parse_header(enc_header(h)) == Some(h),
{
    reveal_with_fuel(parse_header_fields, 3);
    if h.block_num != 0 {
        let ev = varint_enc(h.block_num as nat);
        let s = enc_header(h);
        lemma_varint_round_trip(8, ev);
        lemma_varint_round_trip(h.block_num as nat, Seq::empty());
        assert(ev + Seq::<u8>::empty() =~= ev);
        assert(s.skip(varint_enc(8).len() as int) == ev);
        assert(ev.skip(ev.len() as int) =~= Seq::<u8>::empty());
    }
}

/// Decoding an encoded block record yields it back.
pub proof fn lemma_block_round_trip(b: BlockModel)
    requires
        block_wf(b),
    ensures
        parse_block(enc_block(b)) == Some(b),
{
    reveal_with_fuel(parse_block_fields, 3);
    if b.header.len() != 0 {
        let hlen = b.header.len() as nat;
        let el = varint_enc(hlen);
        let s = enc_block(b);
        assert(s =~= varint_enc(10) + (el + b.header));
        lemma_varint_round_trip(10, el + b.header);
        let rest = s.skip(varint_enc(10).len() as int);
        assert(rest == el + b.header);
        lemma_varint_round_trip(hlen, b.header);
        let nl = el.len();
        assert(rest.skip(nl as int) == b.header);
        assert(rest.skip(nl as int).take(hlen as int) =~= b.header);
        assert(rest.skip((nl + hlen) as int) =~= b.header.skip(hlen as int));
        assert(b.header.skip(hlen as int) =~= Seq::<u8>::empty());
        assert(BlockModel { header: rest.skip(nl as int).take(hlen as int) } =~= b);
    }
}

/// Folding the parser over an encoded run of block records appends
/// exactly those records to the accumulator.
#[verifier::rlimit(60)]
proof fn lemma_blocks_fields_round_trip(bs: Seq<BlockModel>, acc: BlockListResponseModel)
    requires
        forall|i: int| 0 <= i < bs.len() ==> block_wf(#[trigger] bs[i]),
    ensures
        parse_response_fields(enc_blocks(bs), acc)
            == Some(BlockListResponseModel { blocks: acc.blocks + bs }),
    decreases bs.len(),
{
    if bs.len() == 0 {
        assert(BlockListResponseModel { blocks: acc.blocks + bs } =~= acc);
    } else {
        let b0 = bs[0];
        let eb = enc_block(b0);
        let el = varint_enc(eb.len() as nat);
        let tail = enc_blocks(bs.skip(1));
        let s = enc_blocks(bs);
        assert(block_wf(b0));
        lemma_varint_enc_len(b0.header.len() as nat);
        assert(eb.len() < vint_limit());
        assert(s =~= varint_enc(18) + (el + eb + tail));
        lemma_varint_round_trip(18, el + eb + tail);
        let rest = s.skip(varint_enc(18).len() as int);
        assert(rest == el + eb + tail);
        assert(rest =~= varint_enc(eb.len() as nat) + (eb + tail));
        lemma_varint_round_trip(eb.len() as nat, eb + tail);
        let nl = el.len();
        assert(rest.skip(nl as int) == eb + tail);
        assert(rest.skip(nl as int).take(eb.len() as int) =~= eb);
        lemma_block_round_trip(b0);
        assert(rest.skip((nl + eb.len()) as int) =~= tail);
        let acc2 = BlockListResponseModel { blocks: acc.blocks.push(b0) };
        assert(forall|i: int|
            0 <= i < bs.skip(1).len() ==> block_wf(#[trigger] bs.skip(1)[i]));
        lemma_blocks_fields_round_trip(bs.skip(1), acc2);
        assert(acc2.blocks + bs.skip(1) =~= acc.blocks + bs);
    }
}

/// Decoding an encoded reply envelope yields it back.
pub proof fn lemma_response_round_trip(r: BlockListResponseModel)
    requires
        response_wf(r),
    ensures
        parse_response(enc_response(r)) == Some(r),
{
    let acc = BlockListResponseModel { blocks: Seq::empty() };
    lemma_blocks_fields_round_trip(r.blocks, acc);
    assert(BlockListResponseModel { blocks: acc.blocks + r.blocks } =~= r);
}

/// Decoding an encoded request envelope yields it back.
pub proof fn lemma_request_round_trip(r: BlockListRequest)
    requires
        request_wf(r),
    ensures
        parse_request(enc_request(r)) == Some(r),
{
    reveal_with_fuel(parse_request_fields, 3);
    if r.paging is Some {
        let p = r.paging->Some_0;
        let ep = enc_paging(p);
        lemma_varint_enc_len(p.count as nat);
        assert(ep.len() < vint_limit());
        let el = varint_enc(ep.len() as nat);
        let s = enc_request(r);
        assert(s =~= varint_enc(26) + (el + ep));
        lemma_varint_round_trip(26, el + ep);
        let rest = s.skip(varint_enc(26).len() as int);
        assert(rest == el + ep);
        assert(rest =~= varint_enc(ep.len() as nat) + (ep + Seq::<u8>::empty()));
        assert(ep + Seq::<u8>::empty() =~= ep);
        lemma_varint_round_trip(ep.len() as nat, ep);
        let nl = el.len();
        assert(rest.skip(nl as int) == ep);
        assert(rest.skip(nl as int).take(ep.len() as int) =~= ep);
        lemma_paging_round_trip(p);
        assert(rest.skip((nl + ep.len()) as int) =~= ep.skip(ep.len() as int));
        assert(ep.skip(ep.len() as int) =~= Seq::<u8>::empty());
    }
}

} // verus!
