use tower_http_req_id::{
    FixedGenerator, GenerateRequestId, GenerateRequestIdLayer, InnerPoll, ResponseFut, StepAction,
    HEADER_NAME,
};
use tower_http_req_id::uuid::{Uuid, UuidGenerator};
use tower_http_req_id::IdType;
use tower_http_req_id::text::decode_header_value;

#[test]
fn header_name_is_reserved() {
    assert_eq!(HEADER_NAME, "x-request-id");
}

#[test]
fn accepted_header_is_used_verbatim() {
    let gen = FixedGenerator::new("whatever".to_string());
    let layer = GenerateRequestIdLayer::<_, String>::new(gen);
    let mut svc = layer.layer(0u8);
    let header = b"id".to_vec();
    let (ctx, resp) = svc.resolve_pair(Some(&header));
    assert_eq!(ctx, "id", "required-id is not inserted");
    assert_eq!(resp, "id");
}

#[test]
fn absent_header_uses_generator() {
    let gen = FixedGenerator::new("whatever".to_string());
    let mut svc = GenerateRequestId::<u8, _, String>::new(0u8, gen);
    let (ctx, resp) = svc.resolve_pair(None);
    assert_eq!(ctx, "whatever", "required-id is not inserted");
    assert_eq!(resp, "whatever");
}

#[test]
fn non_text_header_uses_generator() {
    let gen = FixedGenerator::new("whatever".to_string());
    let mut svc = GenerateRequestId::<u8, _, String>::new(0u8, gen);
    let header = vec![b'i', 0x07u8, b'd'];
    let (ctx, resp) = svc.resolve_pair(Some(&header));
    assert_eq!(ctx, "whatever");
    assert_eq!(resp, "whatever");
}

#[test]
fn unparseable_header_uses_generator() {
    let gen = UuidGenerator::new_v4();
    let mut svc = GenerateRequestId::<u8, _, Uuid>::new(0u8, gen);
    let header = b"not-a-uuid".to_vec();
    let (ctx, resp) = svc.resolve_pair(Some(&header));
    assert_eq!(ctx, resp);
    // a generated identifier carries the version-4 marker
    assert_eq!((ctx.bits >> 76) & 0xF, 4);
}

#[test]
fn response_step_echoes_identifier() {
    let fut = ResponseFut::new(0u8, "id".to_string());
    match fut.step::<u32, String>(InnerPoll::Ready(Ok(7))) {
        StepAction::Respond(resp, text) => {
            assert_eq!(resp, 7);
            assert_eq!(text, "id", "to have request-id header");
        }
        _ => panic!("expected a response"),
    }
}

#[test]
fn response_step_passes_pending_through() {
    let fut = ResponseFut::new(0u8, "id".to_string());
    assert!(matches!(
        fut.step::<u32, String>(InnerPoll::Pending),
        StepAction::Pending
    ));
}

#[test]
fn response_step_passes_failure_through() {
    let fut = ResponseFut::new(0u8, "id".to_string());
    match fut.step::<u32, String>(InnerPoll::Ready(Err("boom".to_string()))) {
        StepAction::Fail(e) => assert_eq!(e, "boom"),
        _ => panic!("expected the failure to pass through"),
    }
}

#[test]
fn uuid_header_is_echoed_exactly() {
    let id = Uuid { bits: 0xa1a2a3a4b1b2c1c2d1d2d3d4d5d6d7d8 };
    let gen = UuidGenerator::new();
    let layer = GenerateRequestIdLayer::<_, Uuid>::new(gen);
    let mut svc = layer.layer(0u8);
    let header = b"a1a2a3a4-b1b2-c1c2-d1d2-d3d4d5d6d7d8".to_vec();
    let (ctx, resp) = svc.resolve_pair(Some(&header));
    assert_eq!(ctx, id, "required-id is not inserted");
    let fut = ResponseFut::new(0u8, resp);
    match fut.step::<u32, String>(InnerPoll::Ready(Ok(1))) {
        StepAction::Respond(_, text) => {
            assert_eq!(text, "a1a2a3a4-b1b2-c1c2-d1d2-d3d4d5d6d7d8", "to have request-id header");
        }
        _ => panic!("expected a response"),
    }
}

#[test]
fn generated_id_reaches_context_and_response() {
    let gen = FixedGenerator::new("whatever".to_string());
    let mut svc = GenerateRequestId::<u8, _, String>::new(0u8, gen);
    let (ctx, resp) = svc.resolve_pair(None);
    let fut = ResponseFut::new(0u8, resp);
    match fut.step::<u32, String>(InnerPoll::Ready(Ok(1))) {
        StepAction::Respond(_, text) => {
            assert_eq!(text, "whatever", "to have request-id header");
            assert_eq!(ctx, "whatever");
        }
        _ => panic!("expected a response"),
    }
}

#[test]
fn string_format_parse_round_trip() {
    let id = "some opaque token".to_string();
    let text = id.format();
    let back = <String as IdType>::parse(&text).unwrap();
    assert_eq!(back, id);
}

#[test]
fn header_bytes_decode_as_visible_ascii_or_tab() {
    assert_eq!(decode_header_value(&b"id".to_vec()).unwrap(), "id");
    assert_eq!(decode_header_value(&b"a\tb".to_vec()).unwrap(), "a\tb");
    assert_eq!(decode_header_value(&Vec::new()).unwrap(), "");
    assert!(decode_header_value(&vec![0x07u8]).is_none());
    assert!(decode_header_value(&vec![b'a', 0x7Fu8]).is_none());
    assert!(decode_header_value(&vec![b'a', 0xC3u8, 0xA9u8]).is_none());
}
