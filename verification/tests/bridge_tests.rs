//! Scenario tests of the bridge against transport mocks: success, each
//! failure mode, correlation-token hygiene, and the unimplemented kinds.

use seth_rpc::bridge::{
    block_number, build_block_number_request, get_block_by_hash, get_block_by_number,
    interpret_reply,
};
use seth_rpc::codec::{decode_request, encode_header, encode_response};
use seth_rpc::envelope::{Block, BlockHeader, BlockListResponse, PagingControls};
use seth_rpc::error::{BridgeError, DecodeStage, ErrorClass, TransportFault, TransportStage};
use seth_rpc::token::fresh_correlation_token;
use seth_rpc::transport::{MessageKind, MessageSender, PendingReply, RawReply};

/// A reply handle holding its outcome from the moment of the send.
struct MockReply {
    outcome: Result<RawReply, TransportFault>,
}

impl PendingReply for MockReply {
    fn resolve(self) -> Result<RawReply, TransportFault> {
        self.outcome
    }
}

fn raw(payload: Vec<u8>) -> RawReply {
    RawReply { kind_code: MessageKind::BlockListResponse.code(), payload }
}

/// A transport mock: records every send, optionally fails it, and hands
/// out queued replies in order.
struct MockSender {
    sent: Vec<(MessageKind, String, Vec<u8>)>,
    replies: Vec<Result<RawReply, TransportFault>>,
    fail_send: Option<TransportFault>,
}

impl MockSender {
    fn with_replies(replies: Vec<Result<RawReply, TransportFault>>) -> Self {
        MockSender { sent: Vec::new(), replies, fail_send: None }
    }
}

impl MessageSender for MockSender {
    type Reply = MockReply;

    fn send(
        &mut self,
        kind: MessageKind,
        correlation_id: &str,
        payload: &[u8],
    ) -> Result<MockReply, TransportFault> {
        self.sent.push((kind, correlation_id.to_string(), payload.to_vec()));
        if let Some(fault) = self.fail_send {
            return Err(fault);
        }
        if self.replies.is_empty() {
            return Err(TransportFault::Other);
        }
        Ok(MockReply { outcome: self.replies.remove(0) })
    }
}

fn reply_with_heights(heights: &[u64]) -> Vec<u8> {
    let blocks = heights
        .iter()
        .map(|h| Block { header: encode_header(&BlockHeader { block_num: *h }) })
        .collect();
    encode_response(&BlockListResponse { blocks })
}

#[test]
fn chain_head_renders_height_forty_two_as_hex() {
    let mut sender = MockSender::with_replies(vec![Ok(raw(reply_with_heights(&[42])))]);
    let result = block_number(&mut sender);
    assert_eq!(result, Ok("0x2a".to_string()));
    // exactly one request went out, of the right kind, with paging count 1
    assert_eq!(sender.sent.len(), 1);
    let (kind, token, payload) = &sender.sent[0];
    assert_eq!(*kind, MessageKind::BlockListRequest);
    assert_eq!(token.len(), 36);
    let request = decode_request(payload).expect("the sent request must decode");
    assert_eq!(request.paging, Some(PagingControls { count: 1 }));
}

#[test]
fn first_record_wins_when_several_are_listed() {
    let mut sender = MockSender::with_replies(vec![Ok(raw(reply_with_heights(&[7, 9])))]);
    assert_eq!(block_number(&mut sender), Ok("0x7".to_string()));
}

#[test]
fn empty_record_list_is_an_error_not_a_default() {
    let mut sender = MockSender::with_replies(vec![Ok(raw(reply_with_heights(&[])))]);
    let result = block_number(&mut sender);
    assert_eq!(result, Err(BridgeError::EmptyResult));
    assert_eq!(result.unwrap_err().class(), ErrorClass::Internal);
}

#[test]
fn send_failure_short_circuits_before_any_decode() {
    // a malformed reply sits queued: were any later step attempted, the
    // result would be a decode error and the queue would be consumed
    let mut sender = MockSender::with_replies(vec![Ok(raw(vec![0xff]))]);
    sender.fail_send = Some(TransportFault::Disconnected);
    let result = block_number(&mut sender);
    assert_eq!(
        result,
        Err(BridgeError::Transport(TransportStage::Send, TransportFault::Disconnected))
    );
    assert_eq!(sender.replies.len(), 1);
}

#[test]
fn resolve_failure_is_a_transport_error() {
    let mut sender = MockSender::with_replies(vec![Err(TransportFault::TimedOut)]);
    assert_eq!(
        block_number(&mut sender),
        Err(BridgeError::Transport(TransportStage::Resolve, TransportFault::TimedOut))
    );
}

#[test]
fn malformed_reply_is_a_decode_error() {
    let mut sender = MockSender::with_replies(vec![Ok(raw(vec![0xff]))]);
    assert_eq!(block_number(&mut sender), Err(BridgeError::Decode(DecodeStage::Reply)));
}

#[test]
fn malformed_nested_header_is_a_decode_error() {
    let reply = encode_response(&BlockListResponse {
        blocks: vec![Block { header: vec![0x08] }],
    });
    let mut sender = MockSender::with_replies(vec![Ok(raw(reply))]);
    assert_eq!(block_number(&mut sender), Err(BridgeError::Decode(DecodeStage::NestedHeader)));
}

#[test]
fn mismatched_reply_kind_is_a_decode_error() {
    // a well-formed reply declared under the wrong kind must be refused,
    // never silently coerced
    let reply = RawReply {
        kind_code: MessageKind::BlockListRequest.code(),
        payload: reply_with_heights(&[42]),
    };
    let mut sender = MockSender::with_replies(vec![Ok(reply)]);
    assert_eq!(block_number(&mut sender), Err(BridgeError::Decode(DecodeStage::ReplyKind)));
}

#[test]
fn unimplemented_kinds_never_contact_the_transport() {
    let mut sender = MockSender::with_replies(vec![Ok(raw(reply_with_heights(&[42])))]);
    let by_hash = get_block_by_hash(&mut sender);
    assert_eq!(by_hash, Err(BridgeError::NotImplemented));
    assert_eq!(by_hash.unwrap_err().class(), ErrorClass::Unimplemented);
    assert_eq!(get_block_by_number(&mut sender), Err(BridgeError::NotImplemented));
    assert!(sender.sent.is_empty());
    assert_eq!(sender.replies.len(), 1);
}

#[test]
fn sequential_calls_use_distinct_tokens() {
    let mut sender = MockSender::with_replies(vec![
        Ok(raw(reply_with_heights(&[42]))),
        Ok(raw(reply_with_heights(&[43]))),
    ]);
    assert_eq!(block_number(&mut sender), Ok("0x2a".to_string()));
    assert_eq!(block_number(&mut sender), Ok("0x2b".to_string()));
    assert_eq!(sender.sent.len(), 2);
    assert_ne!(sender.sent[0].1, sender.sent[1].1);
}

/// A transport mock that matches replies to correlation tokens, as the
/// real transport must.
struct KeyedSender {
    entries: Vec<(String, Vec<u8>)>,
}

impl MessageSender for KeyedSender {
    type Reply = MockReply;

    fn send(
        &mut self,
        _kind: MessageKind,
        correlation_id: &str,
        _payload: &[u8],
    ) -> Result<MockReply, TransportFault> {
        match self.entries.iter().find(|(token, _)| token == correlation_id) {
            Some((_, reply)) => Ok(MockReply { outcome: Ok(raw(reply.clone())) }),
            None => Err(TransportFault::Other),
        }
    }
}

#[test]
fn concurrent_pending_replies_do_not_cross_talk() {
    // two outstanding calls: both replies enqueued, keyed by token, before
    // either handle is resolved; each call gets only its own reply
    let token_a = fresh_correlation_token();
    let token_b = fresh_correlation_token();
    assert_ne!(token_a, token_b);
    assert_eq!(token_a.len(), 36);
    let mut sender = KeyedSender {
        entries: vec![
            (token_a.clone(), reply_with_heights(&[42])),
            (token_b.clone(), reply_with_heights(&[43])),
        ],
    };
    let request = build_block_number_request();
    let handle_a = sender.send(MessageKind::BlockListRequest, &token_a, &request).unwrap();
    let handle_b = sender.send(MessageKind::BlockListRequest, &token_b, &request).unwrap();
    // resolve in the opposite order of the sends
    let reply_b = handle_b.resolve().unwrap();
    let reply_a = handle_a.resolve().unwrap();
    assert_eq!(interpret_reply(reply_b.kind_code, &reply_b.payload), Ok("0x2b".to_string()));
    assert_eq!(interpret_reply(reply_a.kind_code, &reply_a.payload), Ok("0x2a".to_string()));
}
