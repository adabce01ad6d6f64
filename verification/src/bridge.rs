//! The synchronous query bridge: one operation per supported query kind.
//! Each operation builds a request envelope, encodes it, tags it with a
//! fresh correlation token, sends it, blocks on the pending reply, decodes
//! the reply and translates it for the caller — or fails with the error
//! owed to the step that failed, in a single pass, without retries.

use vstd::prelude::*;
use crate::codec::{encode_request, decode_response, decode_header};
use crate::envelope::{PagingControls, BlockListRequest, BlockListResponseModel, BlockHeader,
    enc_request, enc_response, enc_header, parse_response, parse_header, response_wf,
    lemma_response_round_trip, lemma_header_round_trip};
use crate::error::{BridgeError, TransportStage, DecodeStage};
use crate::hex::{to_hex_string, hex_str};
use crate::token::fresh_correlation_token;
use crate::transport::{MessageSender, PendingReply, MessageKind, RawReply};

verus! {

/// The request envelope of the chain-head query: a listing limited to the
/// single most recent block.
pub open spec fn head_block_request() -> BlockListRequest {
    BlockListRequest { paging: Some(PagingControls { count: 1 }) }
}

/// Builds and encodes the chain-head request envelope.
pub fn build_block_number_request() -> (out: Vec<u8>)
    ensures
        out@ == enc_request(head_block_request()),
{
    let paging = PagingControls { count: 1 };
    let request = BlockListRequest { paging: Some(paging) };
    encode_request(&request)
}

/// What a resolved reply means for the chain-head query: the rendered
/// block number of the first record, or the one error owed to the reply —
/// a decode error where the declared kind mismatches or an envelope is
/// malformed, an empty-result error where the record list is empty.
pub open spec fn reply_outcome(kind_code: u32, bytes: Seq<u8>) -> Result<Seq<char>, BridgeError> {
    if kind_code != MessageKind::BlockListResponse.code_spec() {
        Err(BridgeError::Decode(DecodeStage::ReplyKind))
    } else {
        reply_payload_outcome(bytes)
    }
}

/// What a reply's raw payload bytes mean, once its declared kind matched.
pub open spec fn reply_payload_outcome(bytes: Seq<u8>) -> Result<Seq<char>, BridgeError> {
    match parse_response(bytes) {
        None => Err(BridgeError::Decode(DecodeStage::Reply)),
        Some(resp) => if resp.blocks.len() == 0 {
            Err(BridgeError::EmptyResult)
        } else {
            match parse_header(resp.blocks[0].header) {
                None => Err(BridgeError::Decode(DecodeStage::NestedHeader)),
                Some(h) => Ok(hex_str(h.block_num as nat)),
            }
        },
    }
}

/// Checks a resolved reply's declared kind, decodes the reply envelope,
/// takes its first block record, decodes the record's nested header blob,
/// and renders the block number. Returns for every input exactly what
/// `reply_outcome` owes it: never a default value in place of an error.
pub fn interpret_reply(kind_code: u32, bytes: &[u8]) -> (r: Result<String, BridgeError>)
    ensures
        match r {
            Ok(v) => reply_outcome(kind_code, bytes@) == Ok::<Seq<char>, BridgeError>(v@),
            Err(e) => reply_outcome(kind_code, bytes@) == Err::<Seq<char>, BridgeError>(e),
        },
{
    if kind_code != MessageKind::BlockListResponse.code() {
        return Err(BridgeError::Decode(DecodeStage::ReplyKind));
    }
    match decode_response(bytes) {
        None => Err(BridgeError::Decode(DecodeStage::Reply)),
        Some(resp) => {
            if resp.blocks.len() == 0 {
                Err(BridgeError::EmptyResult)
            } else {
                let block = &resp.blocks[0];
                assert(block@ == resp@.blocks[0]);
                match decode_header(block.header.as_slice()) {
                    None => Err(BridgeError::Decode(DecodeStage::NestedHeader)),
                    Some(h) => Ok(to_hex_string(h.block_num)),
                }
            }
        },
    }
}

/// A well-formed reply carrying records, delivered under the expected
/// kind, means the rendering of its first record's encoded header: what
/// the codec encodes, the bridge's interpretation decodes, end to end.
pub proof fn lemma_outcome_of_encoded_reply(resp: BlockListResponseModel, h: BlockHeader)
    requires
        response_wf(resp),
        resp.blocks.len() > 0,
        resp.blocks[0].header == enc_header(h),
    ensures
        reply_outcome(MessageKind::BlockListResponse.code_spec(), enc_response(resp))
            == Ok::<Seq<char>, BridgeError>(hex_str(h.block_num as nat)),
{
    lemma_response_round_trip(resp);
    lemma_header_round_trip(h);
}

/// A well-formed reply with an empty record list, delivered under the
/// expected kind, means the empty-result error — never a default value.
pub proof fn lemma_outcome_of_empty_reply(resp: BlockListResponseModel)
    requires
        response_wf(resp),
        resp.blocks.len() == 0,
    ensures
        reply_outcome(MessageKind::BlockListResponse.code_spec(), enc_response(resp))
            == Err::<Seq<char>, BridgeError>(BridgeError::EmptyResult),
{
    lemma_response_round_trip(resp);
}

/// The chain-head query: returns the block number of the current chain
/// head, rendered in lowercase hexadecimal behind a `0x` prefix.
///
/// A success is the faithful rendering of some reply the transport
/// delivered; a failure is either a transport fault, naming the step that
/// failed, or exactly the error `reply_outcome` owes the delivered bytes.
/// This operation never reports `Serialization` (the encoder is total) and
/// never `NotImplemented`.
pub fn block_number<T: MessageSender>(sender: &mut T) -> (r: Result<String, BridgeError>)
    ensures
        match r {
            Ok(v) => exists|kind: u32, bytes: Seq<u8>|
                reply_outcome(kind, bytes) == Ok::<Seq<char>, BridgeError>(v@),
            Err(e) => e matches BridgeError::Transport(_, _) || exists|kind: u32, bytes: Seq<u8>|
                reply_outcome(kind, bytes) == Err::<Seq<char>, BridgeError>(e),
        },
        !(r matches Err(BridgeError::NotImplemented)),
        !(r matches Err(BridgeError::Serialization)),
{
    let request_bytes = build_block_number_request();
    let correlation_id = fresh_correlation_token();
    let pending = match sender.send(
        MessageKind::BlockListRequest,
        correlation_id.as_str(),
        request_bytes.as_slice(),
    ) {
        Ok(p) => p,
        Err(fault) => {
            return Err(BridgeError::Transport(TransportStage::Send, fault));
        },
    };
    let reply: RawReply = match pending.resolve() {
        Ok(raw) => raw,
        Err(fault) => {
            return Err(BridgeError::Transport(TransportStage::Resolve, fault));
        },
    };
    let r = interpret_reply(reply.kind_code, reply.payload.as_slice());
    proof {
        if r is Ok {
            assert(reply_outcome(reply.kind_code, reply.payload@)
                == Ok::<Seq<char>, BridgeError>(r->Ok_0@));
        } else {
            assert(reply_outcome(reply.kind_code, reply.payload@)
                == Err::<Seq<char>, BridgeError>(r->Err_0));
        }
    }
    r
}

/// Fetching a block by its hash: a recognised query kind not yet backed by
/// a bridge operation. Always reports exactly that, and never contacts the
/// transport: the sender is left untouched.
pub fn get_block_by_hash<T: MessageSender>(_sender: &mut T) -> (r: Result<String, BridgeError>)
    ensures
        r == Err::<String, BridgeError>(BridgeError::NotImplemented),
        *final(_sender) == *old(_sender),
{
    Err(BridgeError::NotImplemented)
}

/// Fetching a block by its number: a recognised query kind not yet backed
/// by a bridge operation. Always reports exactly that, and never contacts
/// the transport: the sender is left untouched.
pub fn get_block_by_number<T: MessageSender>(_sender: &mut T) -> (r: Result<String, BridgeError>)
    ensures
        r == Err::<String, BridgeError>(BridgeError::NotImplemented),
        *final(_sender) == *old(_sender),
{
    Err(BridgeError::NotImplemented)
}

} // verus!
