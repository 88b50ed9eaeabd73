//! The claim issuance state machine: protocol messages, interpretation of
//! transport outcomes and agency responses, and the lifecycle transitions.
//!
//! Every operation with a network round trip is split in two.  The prepare
//! step validates handles and state on the caller's side and yields the
//! message and destination; the caller performs the post outside the engine
//! and hands the outcome back to the complete step, which is verified for
//! every outcome the transport can produce.

use vstd::prelude::*;

use crate::codec::{
    chars_to_string, dec_digits, parse_quoted, push_quoted, push_str_chars, push_u32, quoted,
    spec_eat_lit, spec_parse_quoted, str_to_chars, eat_lit,
};
use crate::connection::Connections;
use crate::errors::ErrorCode;
use crate::record::{parse_request, spec_parse_request, ClaimRecord, ClaimRecordView, ClaimRequest};
use crate::registry::Registry;
use crate::state::{reachable_step, spec_state_code, state_code, ClaimState};
use vstd::string::StringExecFns;

verus! {

// ---------------------------------------------------------------------------
// Transport outcomes.
// ---------------------------------------------------------------------------

/// Everything the blocking post can come back with: the endpoint was never
/// reached, the response status arrived but its body could not be read, or
/// a status with a body.
pub enum PostOutcome {
    NoConnection,
    ReadFailed(u16),
    Body(u16, String),
}

/// The response body, when the endpoint was reached with a success status
/// and the body was read.
pub open spec fn spec_post_body(o: PostOutcome) -> Option<Seq<char>> {
    match o {
        PostOutcome::Body(status, body) => if 200 <= status < 300 {
            Some(body@)
        } else {
            None
        },
        _ => None,
    }
}

/// Classifies a transport outcome exactly as the protocol client reports
/// it: a connection failure, a rejection by the endpoint, a read failure,
/// or the response body.
pub fn post_result(outcome: &PostOutcome) -> (r: Result<String, String>)
    ensures
        match *outcome {
            PostOutcome::NoConnection => r matches Err(e) && e@ == "could not connect"@,
            PostOutcome::ReadFailed(status) => if 200 <= status < 300 {
                r matches Err(e) && e@ == "could not read response"@
            } else {
                r matches Err(e) && e@ == "POST failed"@
            },
            PostOutcome::Body(status, _) => if 200 <= status < 300 {
                r matches Ok(b) && Some(b@) == spec_post_body(*outcome)
            } else {
                r matches Err(e) && e@ == "POST failed"@
            },
        },
{
    match outcome {
        PostOutcome::NoConnection => Err(String::from_str("could not connect")),
        PostOutcome::ReadFailed(status) => {
            if 200 <= *status && *status < 300 {
                Err(String::from_str("could not read response"))
            } else {
                Err(String::from_str("POST failed"))
            }
        },
        PostOutcome::Body(status, body) => {
            if 200 <= *status && *status < 300 {
                Ok(body.clone())
            } else {
                Err(String::from_str("POST failed"))
            }
        },
    }
}

// ---------------------------------------------------------------------------
// Protocol messages.
// ---------------------------------------------------------------------------

/// The offer message: type tag, addressee, issuer, schema and attributes.
pub open spec fn spec_offer_msg(pw_did: Seq<char>, v: ClaimRecordView) -> Seq<char> {
    "{\"msg_type\":\"claimOffer\",\"to_did\":"@ + (quoted(pw_did) + (",\"issuer_did\":"@ + (quoted(
        v.issuer_did,
    ) + (",\"schema_seq_no\":"@ + (dec_digits(v.schema_seq_no as int) + (",\"claim_attributes\":"@
        + (quoted(v.claim_attributes) + "}"@)))))))
}

/// The claim delivery message: type tag, addressee, and the signed material.
pub open spec fn spec_claim_msg(pw_did: Seq<char>, signed: Seq<char>) -> Seq<char> {
    "{\"msg_type\":\"claim\",\"to_did\":"@ + (quoted(pw_did) + (",\"claim\":"@ + (quoted(signed)
        + "}"@)))
}

/// The poll message asking the agency for a pending credential request.
pub open spec fn spec_poll_msg(msg_uid: Seq<char>) -> Seq<char> {
    "{\"msg_type\":\"getClaimRequest\",\"msg_uid\":"@ + (quoted(msg_uid) + "}"@)
}

/// The route every claim-related message is posted to, at a given endpoint.
pub open spec fn spec_route_url(endpoint: Seq<char>) -> Seq<char> {
    endpoint + "/agency/route"@
}

fn build_offer_msg(pw_did: &str, rec: &ClaimRecord) -> (out: String)
    ensures
        out@ == spec_offer_msg(pw_did@, rec@),
{
    let mut out: Vec<char> = Vec::new();
    push_str_chars(&mut out, "{\"msg_type\":\"claimOffer\",\"to_did\":");
    let pw = str_to_chars(pw_did);
    push_quoted(&mut out, &pw);
    push_str_chars(&mut out, ",\"issuer_did\":");
    let did = str_to_chars(rec.issuer_did.as_str());
    push_quoted(&mut out, &did);
    push_str_chars(&mut out, ",\"schema_seq_no\":");
    push_u32(&mut out, rec.schema_seq_no);
    push_str_chars(&mut out, ",\"claim_attributes\":");
    let attrs = str_to_chars(rec.claim_attributes.as_str());
    push_quoted(&mut out, &attrs);
    push_str_chars(&mut out, "}");
    proof {
        assert(out@ =~= spec_offer_msg(pw_did@, rec@));
    }
    chars_to_string(&out)
}

fn build_claim_msg(pw_did: &str, signed: &str) -> (out: String)
    ensures
        out@ == spec_claim_msg(pw_did@, signed@),
{
    let mut out: Vec<char> = Vec::new();
    push_str_chars(&mut out, "{\"msg_type\":\"claim\",\"to_did\":");
    let pw = str_to_chars(pw_did);
    push_quoted(&mut out, &pw);
    push_str_chars(&mut out, ",\"claim\":");
    let sg = str_to_chars(signed);
    push_quoted(&mut out, &sg);
    push_str_chars(&mut out, "}");
    proof {
        assert(out@ =~= spec_claim_msg(pw_did@, signed@));
    }
    chars_to_string(&out)
}

fn build_poll_msg(msg_uid: &str) -> (out: String)
    ensures
        out@ == spec_poll_msg(msg_uid@),
{
    let mut out: Vec<char> = Vec::new();
    push_str_chars(&mut out, "{\"msg_type\":\"getClaimRequest\",\"msg_uid\":");
    let uid = str_to_chars(msg_uid);
    push_quoted(&mut out, &uid);
    push_str_chars(&mut out, "}");
    proof {
        assert(out@ =~= spec_poll_msg(msg_uid@));
    }
    chars_to_string(&out)
}

fn build_route_url(endpoint: &str) -> (out: String)
    ensures
        out@ == spec_route_url(endpoint@),
{
    let mut out: Vec<char> = Vec::new();
    push_str_chars(&mut out, endpoint);
    push_str_chars(&mut out, "/agency/route");
    chars_to_string(&out)
}

// ---------------------------------------------------------------------------
// Agency responses.
// ---------------------------------------------------------------------------

/// The correlation id of an acknowledged message: the response must open
/// with a `uid` field, whose value is taken; the rest of the response is
/// not interpreted.
pub open spec fn spec_response_uid(s: Seq<char>) -> Option<Seq<char>> {
    match spec_eat_lit(s, 0, "{\"uid\":"@) {
        Some(j) => match spec_parse_quoted(s, j) {
            Some((uid, _end)) => Some(uid),
            None => None,
        },
        None => None,
    }
}

/// Executable twin of [`spec_response_uid`].
pub fn parse_response_uid(text: &str) -> (r: Option<String>)
    ensures
        match r {
            Some(uid) => spec_response_uid(text@) == Some(uid@),
            None => spec_response_uid(text@) is None,
        },
{
    let s = str_to_chars(text);
    match eat_lit(&s, 0, "{\"uid\":") {
        Some(j) => match parse_quoted(&s, j) {
            Some((uid, _end)) => Some(chars_to_string(&uid)),
            None => None,
        },
        None => None,
    }
}

/// A pending credential request carried by a poll outcome: the endpoint was
/// reached with a success status and the whole body is one request object.
pub open spec fn spec_poll_request(outcome: Option<PostOutcome>) -> Option<
    crate::record::ClaimRequestView,
> {
    match outcome {
        Some(o) => match spec_post_body(o) {
            Some(body) => match spec_parse_request(body, 0) {
                Some((req, end)) => if end == body.len() {
                    Some(req)
                } else {
                    None
                },
                None => None,
            },
            None => None,
        },
        None => None,
    }
}

fn poll_request_of(outcome: &PostOutcome) -> (r: Option<ClaimRequest>)
    ensures
        match r {
            Some(req) => spec_poll_request(Some(*outcome)) == Some(req@),
            None => spec_poll_request(Some(*outcome)) is None,
        },
{
    let body = match outcome {
        PostOutcome::Body(status, body) => {
            if 200 <= *status && *status < 300 {
                body
            } else {
                return None;
            }
        },
        _ => {
            return None;
        },
    };
    let s = str_to_chars(body.as_str());
    match parse_request(&s, 0) {
        Some((req, end)) => {
            if end == s.len() {
                Some(req)
            } else {
                None
            }
        },
        None => None,
    }
}

// ---------------------------------------------------------------------------
// Lifecycle transitions.
// ---------------------------------------------------------------------------

/// What an update-state call should do next: nothing is in flight, or a
/// poll message is to be posted to the given destination.
pub enum UpdateAction {
    NoPoll,
    Poll(String, String),
}

fn clone_opt_string(s: &Option<String>) -> (r: Option<String>)
    ensures
        match *s {
            Some(x) => r matches Some(y) && y@ == x@,
            None => r is None,
        },
{
    match s {
        Some(x) => Some(x.clone()),
        None => None,
    }
}

impl ClaimRequest {
    /// A field-for-field copy.
    pub fn duplicate(&self) -> (r: ClaimRequest)
        ensures
            r@ == self@,
    {
        ClaimRequest {
            prover_did: self.prover_did.clone(),
            issuer_did: self.issuer_did.clone(),
            schema_seq_no: self.schema_seq_no,
            blinded_ms: self.blinded_ms.clone(),
        }
    }
}

impl ClaimRecord {
    /// A field-for-field copy.
    fn duplicate(&self) -> (r: ClaimRecord)
        ensures
            r@ == self@,
    {
        let r = ClaimRecord {
            source_id: clone_opt_string(&self.source_id),
            handle: self.handle,
            claim_attributes: self.claim_attributes.clone(),
            msg_uid: self.msg_uid.clone(),
            schema_seq_no: self.schema_seq_no,
            issuer_did: self.issuer_did.clone(),
            issued_did: self.issued_did.clone(),
            state: self.state,
            claim_request: match &self.claim_request {
                Some(req) => Some(req.duplicate()),
                None => None,
            },
        };
        proof {
            assert(r@ =~= self@);
        }
        r
    }
}

/// Validates a send-offer command and yields the message and destination.
/// The claim handle is checked first, then the connection handle, then the
/// record must still be in `Initialized`; nothing is mutated.
pub fn send_offer_prepare(
    reg: &Registry,
    claim_handle: u32,
    conns: &Connections,
    connection_handle: u32,
) -> (r: Result<(String, String), ErrorCode>)
    ensures
        match reg.spec_lookup(claim_handle) {
            None => r == Err::<(String, String), ErrorCode>(ErrorCode::InvalidIssuerClaimHandle),
            Some(v) => match conns.spec_lookup(connection_handle) {
                None => r == Err::<(String, String), ErrorCode>(ErrorCode::InvalidConnectionHandle),
                Some(c) => if v.state == ClaimState::Initialized {
                    r matches Ok(p) && p.0@ == spec_offer_msg(c.pw_did, v) && p.1@ == spec_route_url(
                        c.endpoint,
                    )
                } else {
                    r == Err::<(String, String), ErrorCode>(ErrorCode::NotReady)
                },
            },
        },
{
    let rec = match reg.get(claim_handle) {
        Some(rec) => rec,
        None => {
            return Err(ErrorCode::InvalidIssuerClaimHandle);
        },
    };
    let conn = match conns.get(connection_handle) {
        Some(c) => c,
        None => {
            return Err(ErrorCode::InvalidConnectionHandle);
        },
    };
    if !matches!(rec.state, ClaimState::Initialized) {
        return Err(ErrorCode::NotReady);
    }
    let msg = build_offer_msg(conn.pw_did.as_str(), rec);
    let url = build_route_url(conn.endpoint.as_str());
    Ok((msg, url))
}

/// Applies the outcome of posting an offer.  Only a success status whose
/// body carries a correlation id advances the record, from `Initialized` to
/// `OfferSent` with the id stored; every failure leaves the record exactly
/// as it was.
pub fn send_offer_complete(reg: &mut Registry, claim_handle: u32, outcome: &PostOutcome) -> (r:
    ErrorCode)
    requires
        old(reg).wf(),
    ensures
        final(reg).wf(),
        forall|h2: u32|
            h2 != claim_handle ==> final(reg).spec_lookup(h2) == old(reg).spec_lookup(h2),
        match old(reg).spec_lookup(claim_handle) {
            None => r == ErrorCode::InvalidIssuerClaimHandle && *final(reg) == *old(reg),
            Some(v) => match spec_post_body(*outcome) {
                None => r == ErrorCode::PostMsgFailure && *final(reg) == *old(reg),
                Some(body) => match spec_response_uid(body) {
                    None => r == ErrorCode::UnknownError && *final(reg) == *old(reg),
                    Some(uid) => if v.state == ClaimState::Initialized {
                        r == ErrorCode::Success && final(reg).spec_lookup(claim_handle) == Some(
                            ClaimRecordView { msg_uid: uid, state: ClaimState::OfferSent, ..v },
                        )
                    } else {
                        r == ErrorCode::NotReady && *final(reg) == *old(reg)
                    },
                },
            },
        },
        old(reg).spec_lookup(claim_handle) matches Some(a) ==> (final(reg).spec_lookup(
            claim_handle,
        ) matches Some(b) ==> reachable_step(a.state, b.state)),
{
    let rec = match reg.get(claim_handle) {
        Some(rec) => rec.duplicate(),
        None => {
            return ErrorCode::InvalidIssuerClaimHandle;
        },
    };
    let body = match outcome {
        PostOutcome::Body(status, body) => {
            if 200 <= *status && *status < 300 {
                body
            } else {
                return ErrorCode::PostMsgFailure;
            }
        },
        _ => {
            return ErrorCode::PostMsgFailure;
        },
    };
    let uid = match parse_response_uid(body.as_str()) {
        Some(uid) => uid,
        None => {
            return ErrorCode::UnknownError;
        },
    };
    if !matches!(rec.state, ClaimState::Initialized) {
        return ErrorCode::NotReady;
    }
    let mut rec = rec;
    rec.msg_uid = uid;
    rec.state = ClaimState::OfferSent;
    reg.update_record(claim_handle, rec);
    ErrorCode::Success
}

/// Decides what an update-state command must do: nothing when the record is
/// not waiting on an offer acknowledgement, or a poll of the agency for a
/// pending request, using the stored correlation id; nothing is mutated.
pub fn update_state_prepare(reg: &Registry, claim_handle: u32, endpoint: &str) -> (r: Result<
    UpdateAction,
    ErrorCode,
>)
    ensures
        match reg.spec_lookup(claim_handle) {
            None => r == Err::<UpdateAction, ErrorCode>(ErrorCode::InvalidIssuerClaimHandle),
            Some(v) => if v.state == ClaimState::OfferSent && v.msg_uid.len() > 0 {
                r matches Ok(a) && a matches UpdateAction::Poll(msg, url) && msg@ == spec_poll_msg(
                    v.msg_uid,
                ) && url@ == spec_route_url(endpoint@)
            } else {
                r matches Ok(a) && a is NoPoll
            },
        },
{
    let rec = match reg.get(claim_handle) {
        Some(rec) => rec,
        None => {
            return Err(ErrorCode::InvalidIssuerClaimHandle);
        },
    };
    if matches!(rec.state, ClaimState::OfferSent) && rec.msg_uid.as_str().unicode_len() > 0 {
        let msg = build_poll_msg(rec.msg_uid.as_str());
        let url = build_route_url(endpoint);
        Ok(UpdateAction::Poll(msg, url))
    } else {
        Ok(UpdateAction::NoPoll)
    }
}

/// Applies the outcome of an update-state poll, and reports the resulting
/// state code.  Only a well-formed request in the response of a record
/// still in `OfferSent` changes anything: the request is attached, the
/// holder's identifier is taken from it, and the state advances to
/// `RequestReceived`.  A missing or malformed response, or any transport
/// failure, leaves the record unchanged and is not an error.
pub fn update_state_complete(
    reg: &mut Registry,
    claim_handle: u32,
    outcome: Option<&PostOutcome>,
) -> (r: (ErrorCode, u32))
    requires
        old(reg).wf(),
    ensures
        final(reg).wf(),
        forall|h2: u32|
            h2 != claim_handle ==> final(reg).spec_lookup(h2) == old(reg).spec_lookup(h2),
        match old(reg).spec_lookup(claim_handle) {
            None => r == (ErrorCode::InvalidIssuerClaimHandle, 0u32) && *final(reg) == *old(reg),
            Some(v) => {
                let polled = spec_poll_request(
                    match outcome {
                        Some(o) => Some(*o),
                        None => None,
                    },
                );
                if v.state == ClaimState::OfferSent && polled is Some {
                    r == (ErrorCode::Success, 3u32) && final(reg).spec_lookup(claim_handle)
                        == Some(
                        ClaimRecordView {
                            issued_did: polled->Some_0.prover_did,
                            state: ClaimState::RequestReceived,
                            claim_request: Some(polled->Some_0),
                            ..v
                        },
                    )
                } else {
                    r == (ErrorCode::Success, spec_state_code(v.state)) && *final(reg) == *old(reg)
                }
            },
        },
        old(reg).spec_lookup(claim_handle) matches Some(a) ==> (final(reg).spec_lookup(
            claim_handle,
        ) matches Some(b) ==> reachable_step(a.state, b.state)),
{
    let rec = match reg.get(claim_handle) {
        Some(rec) => rec.duplicate(),
        None => {
            return (ErrorCode::InvalidIssuerClaimHandle, 0);
        },
    };
    let current = state_code(rec.state);
    let req = match outcome {
        Some(o) => poll_request_of(o),
        None => None,
    };
    let req = match req {
        Some(req) => req,
        None => {
            return (ErrorCode::Success, current);
        },
    };
    if !matches!(rec.state, ClaimState::OfferSent) {
        return (ErrorCode::Success, current);
    }
    let mut rec = rec;
    rec.issued_did = req.prover_did.clone();
    rec.claim_request = Some(req);
    rec.state = ClaimState::RequestReceived;
    reg.update_record(claim_handle, rec);
    (ErrorCode::Success, 3)
}

/// Attaches a holder's credential request by hand, as a caller that
/// received it out of band does: the request is stored, the holder's
/// identifier is taken from it, and the state advances to
/// `RequestReceived` unless it is already past it.
pub fn set_claim_request(reg: &mut Registry, claim_handle: u32, req: &ClaimRequest) -> (r:
    ErrorCode)
    requires
        old(reg).wf(),
    ensures
        final(reg).wf(),
        forall|h2: u32|
            h2 != claim_handle ==> final(reg).spec_lookup(h2) == old(reg).spec_lookup(h2),
        match old(reg).spec_lookup(claim_handle) {
            None => r == ErrorCode::InvalidIssuerClaimHandle && *final(reg) == *old(reg),
            Some(v) => r == ErrorCode::Success && final(reg).spec_lookup(claim_handle) == Some(
                ClaimRecordView {
                    issued_did: req.prover_did@,
                    state: if spec_state_code(v.state) < 3 {
                        ClaimState::RequestReceived
                    } else {
                        v.state
                    },
                    claim_request: Some(req@),
                    ..v
                },
            ),
        },
        old(reg).spec_lookup(claim_handle) matches Some(a) ==> (final(reg).spec_lookup(
            claim_handle,
        ) matches Some(b) ==> reachable_step(a.state, b.state)),
{
    let rec = match reg.get(claim_handle) {
        Some(rec) => rec.duplicate(),
        None => {
            return ErrorCode::InvalidIssuerClaimHandle;
        },
    };
    let mut rec = rec;
    if state_code(rec.state) < 3 {
        rec.state = ClaimState::RequestReceived;
    }
    rec.issued_did = req.prover_did.clone();
    rec.claim_request = Some(req.duplicate());
    reg.update_record(claim_handle, rec);
    ErrorCode::Success
}

/// Validates a send-claim command and yields the signing inputs: the
/// attribute payload and the holder's request.  The claim handle is checked
/// first, then the connection handle, then the record must hold a request
/// in `RequestReceived`; nothing is mutated.
pub fn send_claim_prepare(
    reg: &Registry,
    claim_handle: u32,
    conns: &Connections,
    connection_handle: u32,
) -> (r: Result<(String, ClaimRequest), ErrorCode>)
    ensures
        match reg.spec_lookup(claim_handle) {
            None => r == Err::<(String, ClaimRequest), ErrorCode>(
                ErrorCode::InvalidIssuerClaimHandle,
            ),
            Some(v) => match conns.spec_lookup(connection_handle) {
                None => r == Err::<(String, ClaimRequest), ErrorCode>(
                    ErrorCode::InvalidConnectionHandle,
                ),
                Some(c) => if v.state == ClaimState::RequestReceived && v.claim_request is Some {
                    r matches Ok(p) && p.0@ == v.claim_attributes && Some(p.1@) == v.claim_request
                } else {
                    r == Err::<(String, ClaimRequest), ErrorCode>(ErrorCode::NotReady)
                },
            },
        },
{
    let rec = match reg.get(claim_handle) {
        Some(rec) => rec,
        None => {
            return Err(ErrorCode::InvalidIssuerClaimHandle);
        },
    };
    if conns.get(connection_handle).is_none() {
        return Err(ErrorCode::InvalidConnectionHandle);
    }
    if !matches!(rec.state, ClaimState::RequestReceived) {
        return Err(ErrorCode::NotReady);
    }
    match &rec.claim_request {
        Some(req) => Ok((rec.claim_attributes.clone(), req.duplicate())),
        None => Err(ErrorCode::NotReady),
    }
}

/// Builds the claim delivery message around externally signed credential
/// material, under the same preconditions as the prepare step.
pub fn send_claim_assemble(
    reg: &Registry,
    claim_handle: u32,
    conns: &Connections,
    connection_handle: u32,
    signed: &str,
) -> (r: Result<(String, String), ErrorCode>)
    ensures
        match reg.spec_lookup(claim_handle) {
            None => r == Err::<(String, String), ErrorCode>(ErrorCode::InvalidIssuerClaimHandle),
            Some(v) => match conns.spec_lookup(connection_handle) {
                None => r == Err::<(String, String), ErrorCode>(ErrorCode::InvalidConnectionHandle),
                Some(c) => if v.state == ClaimState::RequestReceived && v.claim_request is Some {
                    r matches Ok(p) && p.0@ == spec_claim_msg(c.pw_did, signed@) && p.1@
                        == spec_route_url(c.endpoint)
                } else {
                    r == Err::<(String, String), ErrorCode>(ErrorCode::NotReady)
                },
            },
        },
{
    let rec = match reg.get(claim_handle) {
        Some(rec) => rec,
        None => {
            return Err(ErrorCode::InvalidIssuerClaimHandle);
        },
    };
    let conn = match conns.get(connection_handle) {
        Some(c) => c,
        None => {
            return Err(ErrorCode::InvalidConnectionHandle);
        },
    };
    if !matches!(rec.state, ClaimState::RequestReceived) {
        return Err(ErrorCode::NotReady);
    }
    if rec.claim_request.is_none() {
        return Err(ErrorCode::NotReady);
    }
    let msg = build_claim_msg(conn.pw_did.as_str(), signed);
    let url = build_route_url(conn.endpoint.as_str());
    Ok((msg, url))
}

/// Applies the outcome of posting a claim.  Only a success status whose
/// body carries a correlation id advances the record, from
/// `RequestReceived` to the terminal `ClaimSent`; signing and transport
/// failures surface as the unknown-error condition and leave the record
/// exactly as it was.
pub fn send_claim_complete(reg: &mut Registry, claim_handle: u32, outcome: &PostOutcome) -> (r:
    ErrorCode)
    requires
        old(reg).wf(),
    ensures
        final(reg).wf(),
        forall|h2: u32|
            h2 != claim_handle ==> final(reg).spec_lookup(h2) == old(reg).spec_lookup(h2),
        match old(reg).spec_lookup(claim_handle) {
            None => r == ErrorCode::InvalidIssuerClaimHandle && *final(reg) == *old(reg),
            Some(v) => match spec_post_body(*outcome) {
                None => r == ErrorCode::UnknownError && *final(reg) == *old(reg),
                Some(body) => match spec_response_uid(body) {
                    None => r == ErrorCode::UnknownError && *final(reg) == *old(reg),
                    Some(uid) => if v.state == ClaimState::RequestReceived {
                        r == ErrorCode::Success && final(reg).spec_lookup(claim_handle) == Some(
                            ClaimRecordView { msg_uid: uid, state: ClaimState::ClaimSent, ..v },
                        )
                    } else {
                        r == ErrorCode::NotReady && *final(reg) == *old(reg)
                    },
                },
            },
        },
        old(reg).spec_lookup(claim_handle) matches Some(a) ==> (final(reg).spec_lookup(
            claim_handle,
        ) matches Some(b) ==> reachable_step(a.state, b.state)),
{
    let rec = match reg.get(claim_handle) {
        Some(rec) => rec.duplicate(),
        None => {
            return ErrorCode::InvalidIssuerClaimHandle;
        },
    };
    let body = match outcome {
        PostOutcome::Body(status, body) => {
            if 200 <= *status && *status < 300 {
                body
            } else {
                return ErrorCode::UnknownError;
            }
        },
        _ => {
            return ErrorCode::UnknownError;
        },
    };
    let uid = match parse_response_uid(body.as_str()) {
        Some(uid) => uid,
        None => {
            return ErrorCode::UnknownError;
        },
    };
    if !matches!(rec.state, ClaimState::RequestReceived) {
        return ErrorCode::NotReady;
    }
    let mut rec = rec;
    rec.msg_uid = uid;
    rec.state = ClaimState::ClaimSent;
    reg.update_record(claim_handle, rec);
    ErrorCode::Success
}

} // verus!
