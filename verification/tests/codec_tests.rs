//! Fixture tests of the envelope codec and the hex rendering, across the
//! codec boundary only: no transport involved.

use seth_rpc::bridge::build_block_number_request;
use seth_rpc::codec::{
    decode_header, decode_paging, decode_request, decode_response, encode_block, encode_header,
    encode_paging, encode_request, encode_response,
};
use seth_rpc::envelope::{
    Block, BlockHeader, BlockListRequest, BlockListResponse, PagingControls,
};
use seth_rpc::error::{BridgeError, DecodeStage, ErrorClass, TransportFault, TransportStage};
use seth_rpc::hex::to_hex_string;
use seth_rpc::transport::MessageKind;

#[test]
fn request_with_most_recent_one_encodes_count_one() {
    let bytes = build_block_number_request();
    // field 3 (nested message), length 2; inside: field 2 (varint), value 1
    assert_eq!(bytes, vec![0x1a, 0x02, 0x10, 0x01]);
    let decoded = decode_request(&bytes).expect("canonical request must decode");
    assert_eq!(decoded.paging, Some(PagingControls { count: 1 }));
}

#[test]
fn request_round_trip() {
    let request = BlockListRequest { paging: Some(PagingControls { count: 500 }) };
    let bytes = encode_request(&request);
    assert_eq!(decode_request(&bytes), Some(request));
    let bare = BlockListRequest { paging: None };
    assert_eq!(decode_request(&encode_request(&bare)), Some(bare));
}

#[test]
fn paging_round_trip() {
    let paging = PagingControls { count: 0x7fff_ffff };
    assert_eq!(decode_paging(&encode_paging(&paging)), Some(paging));
}

#[test]
fn header_round_trip_height_forty_two() {
    let header = BlockHeader { block_num: 42 };
    let bytes = encode_header(&header);
    // field 1 (varint), value 42
    assert_eq!(bytes, vec![0x08, 0x2a]);
    assert_eq!(decode_header(&bytes), Some(header));
}

#[test]
fn header_round_trip_large_height() {
    let header = BlockHeader { block_num: u64::MAX };
    assert_eq!(decode_header(&encode_header(&header)), Some(header));
}

#[test]
fn reply_round_trip_yields_records() {
    let response = BlockListResponse {
        blocks: vec![
            Block { header: encode_header(&BlockHeader { block_num: 7 }) },
            Block { header: encode_header(&BlockHeader { block_num: 9 }) },
        ],
    };
    let bytes = encode_response(&response);
    let decoded = decode_response(&bytes).expect("encoded reply must decode");
    assert_eq!(decoded, response);
    assert_eq!(decode_header(&decoded.blocks[0].header), Some(BlockHeader { block_num: 7 }));
    assert_eq!(decode_header(&decoded.blocks[1].header), Some(BlockHeader { block_num: 9 }));
}

#[test]
fn empty_reply_decodes_to_zero_records() {
    let response = BlockListResponse { blocks: vec![] };
    let bytes = encode_response(&response);
    assert_eq!(bytes, Vec::<u8>::new());
    let decoded = decode_response(&bytes).expect("the empty reply is well-formed");
    assert_eq!(decoded.blocks.len(), 0);
}

#[test]
fn decoders_skip_unknown_fields() {
    // field 1 (varint 1, the reply's status), then field 2 with one block
    let block = encode_block(&Block { header: encode_header(&BlockHeader { block_num: 42 }) });
    let mut bytes = vec![0x08, 0x01, 0x12, block.len() as u8];
    bytes.extend(block);
    let decoded = decode_response(&bytes).expect("unknown fields are skipped");
    assert_eq!(decoded.blocks.len(), 1);
    // a header with extra fields: field 1 = 42, field 2 (bytes, length 1)
    let header_bytes = vec![0x08, 0x2a, 0x12, 0x01, 0xaa];
    assert_eq!(decode_header(&header_bytes), Some(BlockHeader { block_num: 42 }));
}

#[test]
fn truncated_inputs_are_rejected() {
    assert_eq!(decode_header(&[0x08]), None);
    assert_eq!(decode_response(&[0x12]), None);
    assert_eq!(decode_response(&[0x12, 0x05, 0x0a]), None);
    assert_eq!(decode_request(&[0x1a, 0x02, 0x10]), None);
}

#[test]
fn malformed_wire_types_are_rejected() {
    // wire type 3 (a group) is not part of the schema
    assert_eq!(decode_header(&[0x0b]), None);
    assert_eq!(decode_response(&[0x0b]), None);
}

#[test]
fn nested_block_must_itself_decode() {
    // one occurrence of field 2 whose payload is malformed
    assert_eq!(decode_response(&[0x12, 0x01, 0x0b]), None);
}

#[test]
fn oversized_paging_count_is_rejected() {
    // field 2, varint 0x8000_0000: no longer a 31-bit count
    let bytes = vec![0x10, 0x80, 0x80, 0x80, 0x80, 0x08];
    assert_eq!(decode_paging(&bytes), None);
}

#[test]
fn hex_rendering() {
    assert_eq!(to_hex_string(0), "0x0");
    assert_eq!(to_hex_string(42), "0x2a");
    assert_eq!(to_hex_string(255), "0xff");
    assert_eq!(to_hex_string(0xdead_beef), "0xdeadbeef");
    assert_eq!(to_hex_string(u64::MAX), "0xffffffffffffffff");
}

#[test]
fn message_kind_codes() {
    assert_eq!(MessageKind::BlockListRequest.code(), 102);
    assert_eq!(MessageKind::BlockListResponse.code(), 103);
}

#[test]
fn error_classes_and_descriptions() {
    assert_eq!(BridgeError::NotImplemented.class(), ErrorClass::Unimplemented);
    assert_eq!(BridgeError::EmptyResult.class(), ErrorClass::Internal);
    assert_eq!(BridgeError::Serialization.class(), ErrorClass::Internal);
    assert_eq!(
        BridgeError::Transport(TransportStage::Send, TransportFault::Disconnected).class(),
        ErrorClass::Internal
    );
    assert_eq!(BridgeError::Decode(DecodeStage::Reply).class(), ErrorClass::Internal);
    assert_eq!(
        BridgeError::Transport(TransportStage::Send, TransportFault::Other).describe(),
        "transport send failed"
    );
    assert_eq!(
        BridgeError::Transport(TransportStage::Resolve, TransportFault::TimedOut).describe(),
        "transport resolve failed"
    );
    assert_eq!(BridgeError::Decode(DecodeStage::Reply).describe(), "response parse failed");
    assert_eq!(
        BridgeError::Decode(DecodeStage::NestedHeader).describe(),
        "block header parse failed"
    );
    assert_eq!(BridgeError::EmptyResult.describe(), "expected at least one result");
    assert_eq!(BridgeError::NotImplemented.describe(), "not implemented");
    assert_eq!(BridgeError::Serialization.describe(), "serialization failed");
}
