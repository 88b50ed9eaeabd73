use issuer_claim::connection::Connections;
use issuer_claim::errors::ErrorCode;
use issuer_claim::machine::{
    send_claim_assemble, send_claim_complete, send_claim_prepare, send_offer_complete,
    send_offer_prepare, set_claim_request, update_state_complete, update_state_prepare,
    PostOutcome, UpdateAction,
};
use issuer_claim::record::ClaimRequest;
use issuer_claim::registry::Registry;
use issuer_claim::state::{state_code, state_from_code, ClaimState};
use issuer_claim::validate::valid_attrs;

const ISSUER_DID: &str = "8XFh8yBzrpJQmNyZzgoTqB";
const ATTRS: &str = "{\"attr\":\"value\"}";
const AGENCY_ACK: &str = "{\"uid\":\"6a9u7Jt\",\"typ\":\"claimOffer\",\"statusCode\":\"MS-101\"}";
const SERIALIZED_ISSUER_CLAIM: &str = "{\"source_id\":\"x\",\"handle\":261385873,\"claim_attributes\":\"{\\\"attr\\\":\\\"value\\\"}\",\"msg_uid\":\"\",\"schema_seq_no\":32,\"issuer_did\":\"8XFh8yBzrpJQmNyZzgoTqB\",\"issued_did\":\"\",\"state\":1,\"claim_request\":null}";

fn sample_request() -> ClaimRequest {
    ClaimRequest {
        prover_did: "HolderDid111".to_string(),
        issuer_did: ISSUER_DID.to_string(),
        schema_seq_no: 32,
        blinded_ms: "blinded-material".to_string(),
    }
}

#[test]
fn test_create_then_handle_is_valid_and_initialized() {
    let mut reg = Registry::new();
    let h = reg
        .create(None, 32, ISSUER_DID.to_string(), ATTRS.to_string())
        .unwrap();
    assert!(h > 0);
    assert!(reg.is_valid_handle(h));
    assert_eq!(reg.get_state(h), 1);
}

#[test]
fn test_create_fails_on_malformed_attributes() {
    let mut reg = Registry::new();
    let r = reg.create(None, 32, ISSUER_DID.to_string(), "not json".to_string());
    assert_eq!(r, Err(ErrorCode::InvalidOption));
    let r = reg.create(None, 32, ISSUER_DID.to_string(), "{\"attr\":}".to_string());
    assert_eq!(r, Err(ErrorCode::InvalidOption));
}

#[test]
fn test_create_accepts_attributes_with_whitespace() {
    let mut reg = Registry::new();
    let h = reg
        .create(
            None,
            32,
            ISSUER_DID.to_string(),
            "{\"attr\": \"value\"}".to_string(),
        )
        .unwrap();
    assert!(reg.is_valid_handle(h));
    assert_eq!(reg.get_state(h), 1);
}

#[test]
fn test_deserialize_then_serialize_reproduces_fields() {
    let mut reg = Registry::new();
    let h = reg.from_string(SERIALIZED_ISSUER_CLAIM).unwrap();
    assert!(h > 0);
    let out = reg.to_string(h).unwrap();
    let expected = SERIALIZED_ISSUER_CLAIM.replace("261385873", &format!("{}", h));
    assert_eq!(out, expected);
}

#[test]
fn test_round_trip_with_request_and_escapes() {
    let original = "{\"source_id\":\"s\",\"handle\":7,\"claim_attributes\":\"{\\\"a\\\":\\\"b\\\\\\\"c\\\"}\",\"msg_uid\":\"m\",\"schema_seq_no\":4294967295,\"issuer_did\":\"i\",\"issued_did\":\"HolderDid111\",\"state\":3,\"claim_request\":{\"prover_did\":\"HolderDid111\",\"issuer_did\":\"i\",\"schema_seq_no\":7,\"blinded_ms\":\"bm\"}}";
    let mut reg = Registry::new();
    let h = reg.from_string(original).unwrap();
    let out = reg.to_string(h).unwrap();
    let expected = original.replace("\"handle\":7", &format!("\"handle\":{}", h));
    assert_eq!(out, expected);
}

#[test]
fn test_deserialize_accepts_record_without_request_field() {
    let original = "{\"source_id\":\"test_cxs_issuer_send_claim_offer\",\"handle\":456,\"claim_attributes\":\"{\\\"attr\\\":\\\"value\\\"}\",\"msg_uid\":\"\",\"schema_seq_no\":32,\"issuer_did\":\"8XFh8yBzrpJQmNyZzgoTqB\",\"issued_did\":\"\",\"state\":1}";
    let mut reg = Registry::new();
    let h = reg.from_string(original).unwrap();
    assert_eq!(reg.get_state(h), 1);
}

#[test]
fn test_deserialize_rejects_garbage_and_unknown_state() {
    let mut reg = Registry::new();
    assert_eq!(reg.from_string("no"), Err(ErrorCode::InvalidOption));
    let unknown_state = SERIALIZED_ISSUER_CLAIM.replace("\"state\":1", "\"state\":9");
    assert_eq!(reg.from_string(&unknown_state), Err(ErrorCode::InvalidOption));
    let early_request = "{\"source_id\":\"s\",\"handle\":7,\"claim_attributes\":\"{}\",\"msg_uid\":\"\",\"schema_seq_no\":1,\"issuer_did\":\"i\",\"issued_did\":\"\",\"state\":1,\"claim_request\":{\"prover_did\":\"p\",\"issuer_did\":\"i\",\"schema_seq_no\":1,\"blinded_ms\":\"b\"}}";
    assert_eq!(reg.from_string(early_request), Err(ErrorCode::InvalidOption));
}

#[test]
fn test_send_claim_offer_success_advances_state() {
    let mut reg = Registry::new();
    let mut conns = Connections::new();
    let h = reg
        .create(
            Some("test_send_claim_offer".to_string()),
            32,
            ISSUER_DID.to_string(),
            ATTRS.to_string(),
        )
        .unwrap();
    let ch = conns
        .create_connection("test_send_claim_offer".to_string())
        .unwrap();
    assert_eq!(conns.set_pw_did(ch, ISSUER_DID), ErrorCode::Success);
    assert_eq!(
        conns.set_endpoint(ch, "http://agency.example"),
        ErrorCode::Success
    );
    let (msg, url) = send_offer_prepare(&reg, h, &conns, ch).unwrap();
    assert_eq!(
        msg,
        "{\"msg_type\":\"claimOffer\",\"to_did\":\"8XFh8yBzrpJQmNyZzgoTqB\",\"issuer_did\":\"8XFh8yBzrpJQmNyZzgoTqB\",\"schema_seq_no\":32,\"claim_attributes\":\"{\\\"attr\\\":\\\"value\\\"}\"}"
    );
    assert_eq!(url, "http://agency.example/agency/route");
    // The mock endpoint answers HTTP 200 with the acknowledgement body.
    let outcome = PostOutcome::Body(200, AGENCY_ACK.to_string());
    assert_eq!(send_offer_complete(&mut reg, h, &outcome), ErrorCode::Success);
    assert_eq!(reg.get_state(h), 2);
    let ser = reg.to_string(h).unwrap();
    assert!(ser.contains("\"msg_uid\":\"6a9u7Jt\""));
}

#[test]
fn test_send_offer_against_unreachable_endpoint() {
    let mut reg = Registry::new();
    let mut conns = Connections::new();
    let h = reg
        .create(None, 32, ISSUER_DID.to_string(), ATTRS.to_string())
        .unwrap();
    let ch = conns.create_connection("c".to_string()).unwrap();
    conns.set_pw_did(ch, ISSUER_DID);
    conns.set_endpoint(ch, "http://127.0.0.1:3333");
    let (_msg, _url) = send_offer_prepare(&reg, h, &conns, ch).unwrap();
    // Nothing listens there: the transport reports a connection failure.
    let outcome = PostOutcome::NoConnection;
    assert_eq!(
        send_offer_complete(&mut reg, h, &outcome),
        ErrorCode::PostMsgFailure
    );
    assert_eq!(reg.get_state(h), 1);
}

#[test]
fn test_send_offer_with_unknown_connection_handle() {
    let mut reg = Registry::new();
    let conns = Connections::new();
    let h = reg
        .create(None, 32, ISSUER_DID.to_string(), ATTRS.to_string())
        .unwrap();
    assert_eq!(
        send_offer_prepare(&reg, h, &conns, 42),
        Err(ErrorCode::InvalidConnectionHandle)
    );
    assert!(matches!(
        send_claim_prepare(&reg, h, &conns, 42),
        Err(ErrorCode::InvalidConnectionHandle)
    ));
}

#[test]
fn test_send_claim_from_initialized_is_a_precondition_failure() {
    let mut reg = Registry::new();
    let mut conns = Connections::new();
    let h = reg
        .create(None, 32, ISSUER_DID.to_string(), ATTRS.to_string())
        .unwrap();
    let ch = conns.create_connection("c".to_string()).unwrap();
    assert!(matches!(
        send_claim_prepare(&reg, h, &conns, ch),
        Err(ErrorCode::NotReady)
    ));
    assert_eq!(reg.get_state(h), 1);
}

#[test]
fn test_update_state_with_no_pending_request_changes_nothing() {
    let mut reg = Registry::new();
    let h = reg
        .create(None, 32, ISSUER_DID.to_string(), ATTRS.to_string())
        .unwrap();
    match update_state_prepare(&reg, h, "http://e").unwrap() {
        UpdateAction::NoPoll => {}
        UpdateAction::Poll(_, _) => panic!("nothing is in flight"),
    }
    let (err, state) = update_state_complete(&mut reg, h, None);
    assert_eq!(err, ErrorCode::Success);
    assert_eq!(state, 1);
    let ser = reg.to_string(h).unwrap();
    assert!(ser.contains("\"claim_request\":null"));
}

#[test]
fn test_update_state_attaches_pending_request() {
    let mut reg = Registry::new();
    let mut conns = Connections::new();
    let h = reg
        .create(None, 32, ISSUER_DID.to_string(), ATTRS.to_string())
        .unwrap();
    let ch = conns.create_connection("c".to_string()).unwrap();
    conns.set_pw_did(ch, ISSUER_DID);
    conns.set_endpoint(ch, "http://e");
    let offer_ack = PostOutcome::Body(200, "{\"uid\":\"6a9u7Jt\"}".to_string());
    let (_msg, _url) = send_offer_prepare(&reg, h, &conns, ch).unwrap();
    assert_eq!(send_offer_complete(&mut reg, h, &offer_ack), ErrorCode::Success);
    match update_state_prepare(&reg, h, "http://e").unwrap() {
        UpdateAction::Poll(msg, url) => {
            assert_eq!(msg, "{\"msg_type\":\"getClaimRequest\",\"msg_uid\":\"6a9u7Jt\"}");
            assert_eq!(url, "http://e/agency/route");
        }
        UpdateAction::NoPoll => panic!("an offer is in flight"),
    }
    let poll = PostOutcome::Body(
        200,
        "{\"prover_did\":\"HolderDid111\",\"issuer_did\":\"8XFh8yBzrpJQmNyZzgoTqB\",\"schema_seq_no\":32,\"blinded_ms\":\"bm\"}".to_string(),
    );
    let (err, state) = update_state_complete(&mut reg, h, Some(&poll));
    assert_eq!(err, ErrorCode::Success);
    assert_eq!(state, 3);
    assert_eq!(reg.get_state(h), 3);
    let ser = reg.to_string(h).unwrap();
    assert!(ser.contains("\"issued_did\":\"HolderDid111\""));
    assert!(ser.contains("\"claim_request\":{\"prover_did\":\"HolderDid111\""));
}

#[test]
fn test_send_a_claim_end_to_end() {
    let original = "{\"source_id\":\"test_send_claim\",\"handle\":123,\"claim_attributes\":\"{\\\"attr\\\":\\\"value\\\"}\",\"msg_uid\":\"\",\"schema_seq_no\":32,\"issuer_did\":\"8XFh8yBzrpJQmNyZzgoTqB\",\"issued_did\":\"\",\"state\":3,\"claim_request\":null}";
    let mut reg = Registry::new();
    let mut conns = Connections::new();
    let h = reg.from_string(original).unwrap();
    assert_eq!(reg.get_state(h), 3);
    let req = sample_request();
    assert_eq!(set_claim_request(&mut reg, h, &req), ErrorCode::Success);
    assert_eq!(reg.get_state(h), 3);
    let ch = conns.create_connection("test_send_claim".to_string()).unwrap();
    conns.set_pw_did(ch, ISSUER_DID);
    conns.set_endpoint(ch, "http://agency.example");
    let (attrs, signing_req) = send_claim_prepare(&reg, h, &conns, ch).unwrap();
    assert_eq!(attrs, ATTRS);
    assert_eq!(signing_req.prover_did, "HolderDid111");
    let signed = format!("signed({})", attrs);
    let (msg, url) = send_claim_assemble(&reg, h, &conns, ch, &signed).unwrap();
    assert_eq!(
        msg,
        "{\"msg_type\":\"claim\",\"to_did\":\"8XFh8yBzrpJQmNyZzgoTqB\",\"claim\":\"signed({\\\"attr\\\":\\\"value\\\"})\"}"
    );
    assert_eq!(url, "http://agency.example/agency/route");
    let outcome = PostOutcome::Body(200, AGENCY_ACK.to_string());
    assert_eq!(send_claim_complete(&mut reg, h, &outcome), ErrorCode::Success);
    assert_eq!(reg.get_state(h), 4);
}

#[test]
fn test_release_is_idempotent_in_effect() {
    let mut reg = Registry::new();
    let h1 = reg
        .create(None, 32, ISSUER_DID.to_string(), ATTRS.to_string())
        .unwrap();
    let h2 = reg
        .create(None, 33, ISSUER_DID.to_string(), ATTRS.to_string())
        .unwrap();
    assert_eq!(reg.release(h1), ErrorCode::Success);
    assert_eq!(reg.release(h1), ErrorCode::InvalidIssuerClaimHandle);
    assert!(!reg.is_valid_handle(h1));
    assert!(reg.is_valid_handle(h2));
    assert_eq!(reg.get_state(h2), 1);
}

#[test]
fn test_handles_are_not_reused_after_release() {
    let mut reg = Registry::new();
    let h1 = reg
        .create(None, 1, ISSUER_DID.to_string(), ATTRS.to_string())
        .unwrap();
    reg.release(h1);
    let h2 = reg
        .create(None, 2, ISSUER_DID.to_string(), ATTRS.to_string())
        .unwrap();
    assert_ne!(h1, h2);
}

#[test]
fn test_state_codes_round_trip() {
    for (s, n) in [
        (ClaimState::Initialized, 1),
        (ClaimState::OfferSent, 2),
        (ClaimState::RequestReceived, 3),
        (ClaimState::ClaimSent, 4),
    ] {
        assert_eq!(state_code(s), n);
        assert_eq!(state_from_code(n), Some(s));
    }
    assert_eq!(state_from_code(0), None);
    assert_eq!(state_from_code(5), None);
}

#[test]
fn test_error_code_numbers() {
    assert_eq!(ErrorCode::Success.code_num(), 0);
    assert_eq!(ErrorCode::UnknownError.code_num(), 1001);
    assert_eq!(ErrorCode::InvalidConnectionHandle.code_num(), 1003);
    assert_eq!(ErrorCode::NotReady.code_num(), 1005);
    assert_eq!(ErrorCode::InvalidOption.code_num(), 1007);
    assert_eq!(ErrorCode::PostMsgFailure.code_num(), 1010);
    assert_eq!(ErrorCode::InvalidIssuerClaimHandle.code_num(), 1015);
}

#[test]
fn test_valid_attrs_grammar() {
    assert!(valid_attrs("{}"));
    assert!(valid_attrs("{\"attr\":\"value\"}"));
    assert!(valid_attrs("{\"n\":-12.5e+3,\"b\":true,\"c\":false}"));
    assert!(valid_attrs("{\"outer\":{\"inner\":1}}"));
    assert!(valid_attrs("{\"attr\": \"value\"}"));
    assert!(valid_attrs("{ \"a\" : 1 ,\n\t\"b\" : { \"c\" : true } }"));
    assert!(valid_attrs("{ }"));
    assert!(!valid_attrs(""));
    assert!(!valid_attrs("{"));
    assert!(!valid_attrs("[]"));
    assert!(!valid_attrs("{\"attr\":}"));
    assert!(!valid_attrs("{\"attr\":\"v\"} "));
    assert!(!valid_attrs("{\"attr\":\"v\"}{}"));
}

#[test]
fn test_offer_transport_rejection_leaves_state() {
    let mut reg = Registry::new();
    let h = reg
        .create(None, 32, ISSUER_DID.to_string(), ATTRS.to_string())
        .unwrap();
    let rejected = PostOutcome::Body(500, "oops".to_string());
    assert_eq!(
        send_offer_complete(&mut reg, h, &rejected),
        ErrorCode::PostMsgFailure
    );
    assert_eq!(reg.get_state(h), 1);
    let unreadable = PostOutcome::Body(200, "no uid here".to_string());
    assert_eq!(
        send_offer_complete(&mut reg, h, &unreadable),
        ErrorCode::UnknownError
    );
    assert_eq!(reg.get_state(h), 1);
}
