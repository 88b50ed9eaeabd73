//! Claim records, the holder's credential request, and the serialized
//! record format, with the proof that deserializing inverts serializing.

use vstd::prelude::*;

use crate::codec::{
    chars_to_string, dec_digits, eat_lit, lemma_parse_dec_digits, lemma_parse_quoted_exact,
    lemma_subrange_concat, parse_quoted, parse_u32, push_quoted, push_str_chars, push_u32, quoted,
    spec_digit_val, spec_eat_lit, spec_parse_quoted, spec_parse_u32, str_to_chars,
};
use crate::state::{
    lemma_state_code_round_trip, spec_state_code, spec_state_from_code, state_code,
    state_from_code, ClaimState,
};
use vstd::seq_lib::lemma_concat_associative;

verus! {

// ---------------------------------------------------------------------------
// Data model.
// ---------------------------------------------------------------------------

/// The holder's credential request, attached to a record once it arrives:
/// who asks, for which schema, and the blinded-secret material that ties the
/// credential to the holder's wallet.
pub struct ClaimRequest {
    pub prover_did: String,
    pub issuer_did: String,
    pub schema_seq_no: u32,
    pub blinded_ms: String,
}

/// Mathematical image of a [`ClaimRequest`].
#[verifier::ext_equal]
pub struct ClaimRequestView {
    pub prover_did: Seq<char>,
    pub issuer_did: Seq<char>,
    pub schema_seq_no: u32,
    pub blinded_ms: Seq<char>,
}

impl View for ClaimRequest {
    type V = ClaimRequestView;

    open spec fn view(&self) -> ClaimRequestView {
        ClaimRequestView {
            prover_did: self.prover_did@,
            issuer_did: self.issuer_did@,
            schema_seq_no: self.schema_seq_no,
            blinded_ms: self.blinded_ms@,
        }
    }
}

/// One claim under issuance, owned by the registry and looked up by handle.
pub struct ClaimRecord {
    /// Caller-supplied correlation label; not interpreted.
    pub source_id: Option<String>,
    /// The registry key under which the record is live.
    pub handle: u32,
    /// The offered attributes, kept as the JSON object text the caller gave.
    pub claim_attributes: String,
    /// Correlation id of the protocol message in flight; empty until a
    /// message has been posted.
    pub msg_uid: String,
    /// The credential schema this claim instantiates.
    pub schema_seq_no: u32,
    /// The issuing party.
    pub issuer_did: String,
    /// The holder, once the request is received; empty until then.
    pub issued_did: String,
    /// Lifecycle position.
    pub state: ClaimState,
    /// The holder's request, present only once it has been received.
    pub claim_request: Option<ClaimRequest>,
}

/// Mathematical image of a [`ClaimRecord`].
#[verifier::ext_equal]
pub struct ClaimRecordView {
    pub source_id: Option<Seq<char>>,
    pub handle: u32,
    pub claim_attributes: Seq<char>,
    pub msg_uid: Seq<char>,
    pub schema_seq_no: u32,
    pub issuer_did: Seq<char>,
    pub issued_did: Seq<char>,
    pub state: ClaimState,
    pub claim_request: Option<ClaimRequestView>,
}

impl View for ClaimRecord {
    type V = ClaimRecordView;

    open spec fn view(&self) -> ClaimRecordView {
        ClaimRecordView {
            source_id: match self.source_id {
                Some(s) => Some(s@),
                None => None,
            },
            handle: self.handle,
            claim_attributes: self.claim_attributes@,
            msg_uid: self.msg_uid@,
            schema_seq_no: self.schema_seq_no,
            issuer_did: self.issuer_did@,
            issued_did: self.issued_did@,
            state: self.state,
            claim_request: match self.claim_request {
                Some(r) => Some(r@),
                None => None,
            },
        }
    }
}

/// A record is well formed when the holder's request appears no earlier
/// than the state that receives it.
pub open spec fn record_wf(v: ClaimRecordView) -> bool {
    v.claim_request is Some ==> spec_state_code(v.state) >= 3
}

// ---------------------------------------------------------------------------
// Serialization.
// ---------------------------------------------------------------------------

/// An optional string on the wire: `null`, or the quoted string.
pub open spec fn spec_ser_opt_str(s: Option<Seq<char>>) -> Seq<char> {
    match s {
        Some(x) => quoted(x),
        None => "null"@,
    }
}

/// The wire form of a credential request.
pub open spec fn spec_ser_request(r: ClaimRequestView) -> Seq<char> {
    "{\"prover_did\":"@ + (quoted(r.prover_did) + (",\"issuer_did\":"@ + (quoted(r.issuer_did)
        + (",\"schema_seq_no\":"@ + (dec_digits(r.schema_seq_no as int) + (",\"blinded_ms\":"@
        + (quoted(r.blinded_ms) + "}"@)))))))
}

/// An optional credential request on the wire: `null`, or the object.
pub open spec fn spec_ser_opt_request(r: Option<ClaimRequestView>) -> Seq<char> {
    match r {
        Some(x) => spec_ser_request(x),
        None => "null"@,
    }
}

/// The wire form of a whole record: a flat object whose fields stand in a
/// fixed order, with the attribute object kept as a doubly-encoded string
/// and the state written as its numeric code.
pub open spec fn spec_ser_record(v: ClaimRecordView) -> Seq<char> {
    "{\"source_id\":"@ + (spec_ser_opt_str(v.source_id) + (",\"handle\":"@ + (dec_digits(
        v.handle as int,
    ) + (",\"claim_attributes\":"@ + (quoted(v.claim_attributes) + (",\"msg_uid\":"@ + (quoted(
        v.msg_uid,
    ) + spec_ser_record_tail_form(v))))))))
}

/// The wire form of a record from the `schema_seq_no` field on.
pub open spec fn spec_ser_record_tail_form(v: ClaimRecordView) -> Seq<char> {
    ",\"schema_seq_no\":"@ + (dec_digits(v.schema_seq_no as int) + (",\"issuer_did\":"@ + (quoted(
        v.issuer_did,
    ) + (",\"issued_did\":"@ + (quoted(v.issued_did) + (",\"state\":"@ + (dec_digits(
        spec_state_code(v.state) as int,
    ) + spec_ser_record_end_form(v))))))))
}

/// The wire form of the `claim_request` field and the closing brace.
pub open spec fn spec_ser_record_end_form(v: ClaimRecordView) -> Seq<char> {
    ",\"claim_request\":"@ + (spec_ser_opt_request(v.claim_request) + "}"@)
}

/// Serializes a record to its wire form.
pub fn ser_record(r: &ClaimRecord) -> (out: String)
    ensures
        out@ == spec_ser_record(r@),
{
    let mut out: Vec<char> = Vec::new();
    push_str_chars(&mut out, "{\"source_id\":");
    match &r.source_id {
        Some(s) => {
            let sv = str_to_chars(s.as_str());
            push_quoted(&mut out, &sv);
        },
        None => {
            push_str_chars(&mut out, "null");
        },
    }
    push_str_chars(&mut out, ",\"handle\":");
    push_u32(&mut out, r.handle);
    push_str_chars(&mut out, ",\"claim_attributes\":");
    let attrs = str_to_chars(r.claim_attributes.as_str());
    push_quoted(&mut out, &attrs);
    push_str_chars(&mut out, ",\"msg_uid\":");
    let uid = str_to_chars(r.msg_uid.as_str());
    push_quoted(&mut out, &uid);
    push_record_tail(&mut out, r);
    proof {
        assert(out@ =~= spec_ser_record(r@));
    }
    chars_to_string(&out)
}

fn push_record_tail(out: &mut Vec<char>, r: &ClaimRecord)
    ensures
        final(out)@ == old(out)@ + spec_ser_record_tail_form(r@),
{
    push_str_chars(out, ",\"schema_seq_no\":");
    push_u32(out, r.schema_seq_no);
    push_str_chars(out, ",\"issuer_did\":");
    let idid = str_to_chars(r.issuer_did.as_str());
    push_quoted(out, &idid);
    push_str_chars(out, ",\"issued_did\":");
    let hdid = str_to_chars(r.issued_did.as_str());
    push_quoted(out, &hdid);
    push_str_chars(out, ",\"state\":");
    push_u32(out, state_code(r.state));
    push_record_end(out, r);
    proof {
        assert(out@ =~= old(out)@ + spec_ser_record_tail_form(r@));
    }
}

fn push_record_end(out: &mut Vec<char>, r: &ClaimRecord)
    ensures
        final(out)@ == old(out)@ + spec_ser_record_end_form(r@),
{
    push_str_chars(out, ",\"claim_request\":");
    match &r.claim_request {
        Some(req) => {
            push_request(out, req);
        },
        None => {
            push_str_chars(out, "null");
        },
    }
    push_str_chars(out, "}");
    proof {
        assert(out@ =~= old(out)@ + spec_ser_record_end_form(r@));
    }
}

fn push_request(out: &mut Vec<char>, r: &ClaimRequest)
    ensures
        final(out)@ == old(out)@ + spec_ser_request(r@),
{
    push_str_chars(out, "{\"prover_did\":");
    let pd = str_to_chars(r.prover_did.as_str());
    push_quoted(out, &pd);
    push_str_chars(out, ",\"issuer_did\":");
    let id = str_to_chars(r.issuer_did.as_str());
    push_quoted(out, &id);
    push_str_chars(out, ",\"schema_seq_no\":");
    push_u32(out, r.schema_seq_no);
    push_str_chars(out, ",\"blinded_ms\":");
    let bm = str_to_chars(r.blinded_ms.as_str());
    push_quoted(out, &bm);
    push_str_chars(out, "}");
    proof {
        assert(out@ =~= old(out)@ + spec_ser_request(r@));
    }
}

// ---------------------------------------------------------------------------
// Parsing.
// ---------------------------------------------------------------------------

/// Parses an optional string at `i`: `null`, or a quoted string.
pub open spec fn spec_parse_opt_str(s: Seq<char>, i: int) -> Option<(Option<Seq<char>>, int)> {
    match spec_eat_lit(s, i, "null"@) {
        Some(j) => Some((None, j)),
        None => match spec_parse_quoted(s, i) {
            Some((x, j)) => Some((Some(x), j)),
            None => None,
        },
    }
}

/// Parses a credential request object at `i`.
pub open spec fn spec_parse_request(s: Seq<char>, i: int) -> Option<(ClaimRequestView, int)> {
    match spec_eat_lit(s, i, "{\"prover_did\":"@) {
        Some(j1) => match spec_parse_quoted(s, j1) {
            Some((pd, j2)) => match spec_eat_lit(s, j2, ",\"issuer_did\":"@) {
                Some(j3) => match spec_parse_quoted(s, j3) {
                    Some((id, j4)) => match spec_eat_lit(s, j4, ",\"schema_seq_no\":"@) {
                        Some(j5) => match spec_parse_u32(s, j5) {
                            Some((seq_no, j6)) => match spec_eat_lit(s, j6, ",\"blinded_ms\":"@) {
                                Some(j7) => match spec_parse_quoted(s, j7) {
                                    Some((bm, j8)) => match spec_eat_lit(s, j8, "}"@) {
                                        Some(j9) => Some(
                                            (
                                                ClaimRequestView {
                                                    prover_did: pd,
                                                    issuer_did: id,
                                                    schema_seq_no: seq_no,
                                                    blinded_ms: bm,
                                                },
                                                j9,
                                            ),
                                        ),
                                        None => None,
                                    },
                                    None => None,
                                },
                                None => None,
                            },
                            None => None,
                        },
                        None => None,
                    },
                    None => None,
                },
                None => None,
            },
            None => None,
        },
        None => None,
    }
}

/// Parses an optional credential request at `i`: `null`, or the object.
pub open spec fn spec_parse_opt_request(s: Seq<char>, i: int) -> Option<
    (Option<ClaimRequestView>, int),
> {
    match spec_eat_lit(s, i, "null"@) {
        Some(j) => Some((None, j)),
        None => match spec_parse_request(s, i) {
            Some((x, j)) => Some((Some(x), j)),
            None => None,
        },
    }
}

/// Parses a whole serialized record.  The fields must stand in their fixed
/// order; the `claim_request` field may be absent, which reads as no
/// request; the state code must be a known one; the whole input must be
/// consumed.
pub open spec fn spec_parse_record(s: Seq<char>) -> Option<ClaimRecordView> {
    match spec_eat_lit(s, 0, "{\"source_id\":"@) {
        Some(j1) => match spec_parse_opt_str(s, j1) {
            Some((source_id, j2)) => match spec_eat_lit(s, j2, ",\"handle\":"@) {
                Some(j3) => match spec_parse_u32(s, j3) {
                    Some((handle, j4)) => match spec_eat_lit(s, j4, ",\"claim_attributes\":"@) {
                        Some(j5) => match spec_parse_quoted(s, j5) {
                            Some((attrs, j6)) => match spec_eat_lit(s, j6, ",\"msg_uid\":"@) {
                                Some(j7) => match spec_parse_quoted(s, j7) {
                                    Some((uid, j8)) => spec_parse_record_tail(
                                        s,
                                        j8,
                                        source_id,
                                        handle,
                                        attrs,
                                        uid,
                                    ),
                                    None => None,
                                },
                                None => None,
                            },
                            None => None,
                        },
                        None => None,
                    },
                    None => None,
                },
                None => None,
            },
            None => None,
        },
        None => None,
    }
}

/// Continues [`spec_parse_record`] from the `schema_seq_no` field on.
pub open spec fn spec_parse_record_tail(
    s: Seq<char>,
    i: int,
    source_id: Option<Seq<char>>,
    handle: u32,
    attrs: Seq<char>,
    uid: Seq<char>,
) -> Option<ClaimRecordView> {
    match spec_eat_lit(s, i, ",\"schema_seq_no\":"@) {
        Some(j1) => match spec_parse_u32(s, j1) {
            Some((seq_no, j2)) => match spec_eat_lit(s, j2, ",\"issuer_did\":"@) {
                Some(j3) => match spec_parse_quoted(s, j3) {
                    Some((issuer, j4)) => match spec_eat_lit(s, j4, ",\"issued_did\":"@) {
                        Some(j5) => match spec_parse_quoted(s, j5) {
                            Some((issued, j6)) => match spec_eat_lit(s, j6, ",\"state\":"@) {
                                Some(j7) => match spec_parse_u32(s, j7) {
                                    Some((code, j8)) => match spec_state_from_code(code) {
                                        Some(state) => spec_parse_record_end(
                                            s,
                                            j8,
                                            ClaimRecordView {
                                                source_id,
                                                handle,
                                                claim_attributes: attrs,
                                                msg_uid: uid,
                                                schema_seq_no: seq_no,
                                                issuer_did: issuer,
                                                issued_did: issued,
                                                state,
                                                claim_request: None,
                                            },
                                        ),
                                        None => None,
                                    },
                                    None => None,
                                },
                                None => None,
                            },
                            None => None,
                        },
                        None => None,
                    },
                    None => None,
                },
                None => None,
            },
            None => None,
        },
        None => None,
    }
}

/// Finishes a record parse after the state code: either the object closes
/// at once, reading as no request, or the `claim_request` field follows.
pub open spec fn spec_parse_record_end(s: Seq<char>, i: int, base: ClaimRecordView) -> Option<
    ClaimRecordView,
> {
    match spec_eat_lit(s, i, "}"@) {
        Some(end) => if end == s.len() {
            Some(base)
        } else {
            None
        },
        None => match spec_eat_lit(s, i, ",\"claim_request\":"@) {
            Some(j1) => match spec_parse_opt_request(s, j1) {
                Some((req, j2)) => match spec_eat_lit(s, j2, "}"@) {
                    Some(end) => if end == s.len() {
                        Some(ClaimRecordView { claim_request: req, ..base })
                    } else {
                        None
                    },
                    None => None,
                },
                None => None,
            },
            None => None,
        },
    }
}

/// Executable twin of [`spec_parse_record`].
pub fn parse_record(text: &str) -> (r: Option<ClaimRecord>)
    ensures
        match r {
            Some(rec) => spec_parse_record(text@) == Some(rec@),
            None => spec_parse_record(text@) is None,
        },
{
    let s = str_to_chars(text);
    let i = match eat_lit(&s, 0, "{\"source_id\":") {
        Some(j) => j,
        None => {
            return None;
        },
    };
    let (source_id, i) = match parse_opt_str(&s, i) {
        Some(p) => p,
        None => {
            return None;
        },
    };
    let i = match eat_lit(&s, i, ",\"handle\":") {
        Some(j) => j,
        None => {
            return None;
        },
    };
    let (handle, i) = match parse_u32(&s, i) {
        Some(p) => p,
        None => {
            return None;
        },
    };
    let i = match eat_lit(&s, i, ",\"claim_attributes\":") {
        Some(j) => j,
        None => {
            return None;
        },
    };
    let (attrs, i) = match parse_quoted(&s, i) {
        Some(p) => p,
        None => {
            return None;
        },
    };
    let i = match eat_lit(&s, i, ",\"msg_uid\":") {
        Some(j) => j,
        None => {
            return None;
        },
    };
    let (uid, i) = match parse_quoted(&s, i) {
        Some(p) => p,
        None => {
            return None;
        },
    };
    let i = match eat_lit(&s, i, ",\"schema_seq_no\":") {
        Some(j) => j,
        None => {
            return None;
        },
    };
    let (seq_no, i) = match parse_u32(&s, i) {
        Some(p) => p,
        None => {
            return None;
        },
    };
    let i = match eat_lit(&s, i, ",\"issuer_did\":") {
        Some(j) => j,
        None => {
            return None;
        },
    };
    let (issuer, i) = match parse_quoted(&s, i) {
        Some(p) => p,
        None => {
            return None;
        },
    };
    let i = match eat_lit(&s, i, ",\"issued_did\":") {
        Some(j) => j,
        None => {
            return None;
        },
    };
    let (issued, i) = match parse_quoted(&s, i) {
        Some(p) => p,
        None => {
            return None;
        },
    };
    let i = match eat_lit(&s, i, ",\"state\":") {
        Some(j) => j,
        None => {
            return None;
        },
    };
    let (code, i) = match parse_u32(&s, i) {
        Some(p) => p,
        None => {
            return None;
        },
    };
    let state = match state_from_code(code) {
        Some(st) => st,
        None => {
            return None;
        },
    };
    let (claim_request, i) = match eat_lit(&s, i, "}") {
        Some(end) => {
            if end == s.len() {
                let rec = ClaimRecord {
                    source_id: source_id.map_str(),
                    handle,
                    claim_attributes: chars_to_string(&attrs),
                    msg_uid: chars_to_string(&uid),
                    schema_seq_no: seq_no,
                    issuer_did: chars_to_string(&issuer),
                    issued_did: chars_to_string(&issued),
                    state,
                    claim_request: None,
                };
                return Some(rec);
            } else {
                return None;
            }
        },
        None => {
            let i = match eat_lit(&s, i, ",\"claim_request\":") {
                Some(j) => j,
                None => {
                    return None;
                },
            };
            match parse_opt_request(&s, i) {
                Some(p) => p,
                None => {
                    return None;
                },
            }
        },
    };
    let i = match eat_lit(&s, i, "}") {
        Some(end) => end,
        None => {
            return None;
        },
    };
    if i != s.len() {
        return None;
    }
    Some(
        ClaimRecord {
            source_id: source_id.map_str(),
            handle,
            claim_attributes: chars_to_string(&attrs),
            msg_uid: chars_to_string(&uid),
            schema_seq_no: seq_no,
            issuer_did: chars_to_string(&issuer),
            issued_did: chars_to_string(&issued),
            state,
            claim_request,
        },
    )
}

fn parse_opt_str(s: &Vec<char>, i: usize) -> (r: Option<(OptChars, usize)>)
    requires
        i <= s@.len(),
    ensures
        match r {
            Some(p) => spec_parse_opt_str(s@, i as int) == Some((p.0.view_opt(), p.1 as int))
                && p.1 <= s@.len(),
            None => spec_parse_opt_str(s@, i as int) is None,
        },
{
    match eat_lit(s, i, "null") {
        Some(j) => Some((OptChars { inner: None }, j)),
        None => match parse_quoted(s, i) {
            Some((x, j)) => Some((OptChars { inner: Some(x) }, j)),
            None => None,
        },
    }
}

/// An optional character vector, with its optional-sequence image.
pub struct OptChars {
    pub inner: Option<Vec<char>>,
}

impl OptChars {
    /// The optional sequence this value stands for.
    pub open spec fn view_opt(&self) -> Option<Seq<char>> {
        match self.inner {
            Some(v) => Some(v@),
            None => None,
        }
    }

    /// Converts to an optional string with the same characters.
    pub fn map_str(&self) -> (r: Option<String>)
        ensures
            match r {
                Some(x) => self.view_opt() == Some(x@),
                None => self.view_opt() is None,
            },
    {
        match &self.inner {
            Some(v) => Some(chars_to_string(v)),
            None => None,
        }
    }
}

pub fn parse_request(s: &Vec<char>, i: usize) -> (r: Option<(ClaimRequest, usize)>)
    requires
        i <= s@.len(),
    ensures
        match r {
            Some(p) => spec_parse_request(s@, i as int) == Some((p.0@, p.1 as int)) && p.1
                <= s@.len(),
            None => spec_parse_request(s@, i as int) is None,
        },
{
    let i = match eat_lit(s, i, "{\"prover_did\":") {
        Some(j) => j,
        None => {
            return None;
        },
    };
    let (pd, i) = match parse_quoted(s, i) {
        Some(p) => p,
        None => {
            return None;
        },
    };
    let i = match eat_lit(s, i, ",\"issuer_did\":") {
        Some(j) => j,
        None => {
            return None;
        },
    };
    let (id, i) = match parse_quoted(s, i) {
        Some(p) => p,
        None => {
            return None;
        },
    };
    let i = match eat_lit(s, i, ",\"schema_seq_no\":") {
        Some(j) => j,
        None => {
            return None;
        },
    };
    let (seq_no, i) = match parse_u32(s, i) {
        Some(p) => p,
        None => {
            return None;
        },
    };
    let i = match eat_lit(s, i, ",\"blinded_ms\":") {
        Some(j) => j,
        None => {
            return None;
        },
    };
    let (bm, i) = match parse_quoted(s, i) {
        Some(p) => p,
        None => {
            return None;
        },
    };
    let i = match eat_lit(s, i, "}") {
        Some(j) => j,
        None => {
            return None;
        },
    };
    Some(
        (
            ClaimRequest {
                prover_did: chars_to_string(&pd),
                issuer_did: chars_to_string(&id),
                schema_seq_no: seq_no,
                blinded_ms: chars_to_string(&bm),
            },
            i,
        ),
    )
}

fn parse_opt_request(s: &Vec<char>, i: usize) -> (r: Option<(Option<ClaimRequest>, usize)>)
    requires
        i <= s@.len(),
    ensures
        match r {
            Some(p) => spec_parse_opt_request(s@, i as int) == Some(
                (
                    match p.0 {
                        Some(q) => Some(q@),
                        None => None,
                    },
                    p.1 as int,
                ),
            ) && p.1 <= s@.len(),
            None => spec_parse_opt_request(s@, i as int) is None,
        },
{
    match eat_lit(s, i, "null") {
        Some(j) => Some((None, j)),
        None => match parse_request(s, i) {
            Some((x, j)) => Some((Some(x), j)),
            None => None,
        },
    }
}

// ---------------------------------------------------------------------------
// Parsing inverts serialization.
// ---------------------------------------------------------------------------

proof fn lemma_eat_lit_at(s: Seq<char>, pre: Seq<char>, lit: Seq<char>, post: Seq<char>)
    requires
        s == pre + lit + post,
    ensures
        spec_eat_lit(s, pre.len() as int, lit) == Some((pre.len() + lit.len()) as int),
{
    lemma_subrange_concat(pre, lit, post);
}

proof fn lemma_parse_quoted_at(s: Seq<char>, pre: Seq<char>, x: Seq<char>, post: Seq<char>)
    requires
        s == pre + quoted(x) + post,
    ensures
        spec_parse_quoted(s, pre.len() as int) == Some(
            (x, (pre.len() + quoted(x).len()) as int),
        ),
{
    lemma_subrange_concat(pre, quoted(x), post);
    lemma_parse_quoted_exact(s, pre.len() as int, x);
}

proof fn lemma_parse_u32_at(s: Seq<char>, pre: Seq<char>, n: u32, post: Seq<char>)
    requires
        s == pre + dec_digits(n as int) + post,
        post.len() > 0,
        spec_digit_val(post[0]) is None,
    ensures
        spec_parse_u32(s, pre.len() as int) == Some(
            (n, (pre.len() + dec_digits(n as int).len()) as int),
        ),
{
    lemma_subrange_concat(pre, dec_digits(n as int), post);
    assert(s[(pre.len() + dec_digits(n as int).len()) as int] == post[0]);
    lemma_parse_dec_digits(s, pre.len() as int, n);
}

proof fn lemma_parse_opt_str_at(
    s: Seq<char>,
    pre: Seq<char>,
    x: Option<Seq<char>>,
    post: Seq<char>,
)
    requires
        s == pre + spec_ser_opt_str(x) + post,
    ensures
        spec_parse_opt_str(s, pre.len() as int) == Some(
            (x, (pre.len() + spec_ser_opt_str(x).len()) as int),
        ),
{
    let i = pre.len() as int;
    match x {
        None => {
            lemma_eat_lit_at(s, pre, "null"@, post);
        },
        Some(y) => {
            assert(s[i] == quoted(y)[0]);
            assert(quoted(y)[0] == '"');
            assert(spec_eat_lit(s, i, "null"@) is None) by {
                reveal_strlit("null");
                if i + "null"@.len() <= s.len() && s.subrange(i, i + "null"@.len()) == "null"@ {
                    assert(s.subrange(i, i + "null"@.len())[0] == s[i]);
                    assert("null"@[0] == 'n');
                    assert(false);
                }
            }
            lemma_parse_quoted_at(s, pre, y, post);
        },
    }
}

#[verifier::rlimit(100)]
proof fn lemma_parse_request_at(
    s: Seq<char>,
    pre: Seq<char>,
    r: ClaimRequestView,
    post: Seq<char>,
)
    requires
        s == pre + spec_ser_request(r) + post,
    ensures
        spec_parse_request(s, pre.len() as int) == Some(
            (r, (pre.len() + spec_ser_request(r).len()) as int),
        ),
{
    let l1 = "{\"prover_did\":"@;
    let q1 = quoted(r.prover_did);
    let l2 = ",\"issuer_did\":"@;
    let q2 = quoted(r.issuer_did);
    let l3 = ",\"schema_seq_no\":"@;
    let d = dec_digits(r.schema_seq_no as int);
    let l4 = ",\"blinded_ms\":"@;
    let q3 = quoted(r.blinded_ms);
    let l5 = "}"@;
    reveal_strlit(",\"blinded_ms\":");
    // Fold the trailing input into right-nested remainders.
    let u9 = l5 + post;
    let u8 = q3 + u9;
    let u7 = l4 + u8;
    let u6 = d + u7;
    let u5 = l3 + u6;
    let u4 = q2 + u5;
    let u3 = l2 + u4;
    let u2 = q1 + u3;
    let u1 = l1 + u2;
    lemma_concat_associative(q3, l5, post);
    lemma_concat_associative(l4, q3 + l5, post);
    lemma_concat_associative(d, l4 + (q3 + l5), post);
    lemma_concat_associative(l3, d + (l4 + (q3 + l5)), post);
    lemma_concat_associative(q2, l3 + (d + (l4 + (q3 + l5))), post);
    lemma_concat_associative(l2, q2 + (l3 + (d + (l4 + (q3 + l5)))), post);
    lemma_concat_associative(q1, l2 + (q2 + (l3 + (d + (l4 + (q3 + l5))))), post);
    lemma_concat_associative(l1, q1 + (l2 + (q2 + (l3 + (d + (l4 + (q3 + l5)))))), post);
    lemma_concat_associative(pre, spec_ser_request(r), post);
    assert(s == pre + u1);
    let p1 = pre + l1;
    let p2 = p1 + q1;
    let p3 = p2 + l2;
    let p4 = p3 + q2;
    let p5 = p4 + l3;
    let p6 = p5 + d;
    let p7 = p6 + l4;
    let p8 = p7 + q3;
    lemma_concat_associative(pre, l1, u2);
    lemma_eat_lit_at(s, pre, l1, u2);
    lemma_concat_associative(p1, q1, u3);
    lemma_parse_quoted_at(s, p1, r.prover_did, u3);
    lemma_concat_associative(p2, l2, u4);
    lemma_eat_lit_at(s, p2, l2, u4);
    lemma_concat_associative(p3, q2, u5);
    lemma_parse_quoted_at(s, p3, r.issuer_did, u5);
    lemma_concat_associative(p4, l3, u6);
    lemma_eat_lit_at(s, p4, l3, u6);
    lemma_concat_associative(p5, d, u7);
    assert(u7[0] == ',');
    lemma_parse_u32_at(s, p5, r.schema_seq_no, u7);
    lemma_concat_associative(p6, l4, u8);
    lemma_eat_lit_at(s, p6, l4, u8);
    lemma_concat_associative(p7, q3, u9);
    lemma_parse_quoted_at(s, p7, r.blinded_ms, u9);
    lemma_concat_associative(p8, l5, post);
    lemma_eat_lit_at(s, p8, l5, post);
    assert(spec_parse_request(s, pre.len() as int) matches Some(p) && p.0 =~= r);
    assert(p8.len() + l5.len() == pre.len() + spec_ser_request(r).len());
}

proof fn lemma_parse_opt_request_at(
    s: Seq<char>,
    pre: Seq<char>,
    x: Option<ClaimRequestView>,
    post: Seq<char>,
)
    requires
        s == pre + spec_ser_opt_request(x) + post,
    ensures
        spec_parse_opt_request(s, pre.len() as int) == Some(
            (x, (pre.len() + spec_ser_opt_request(x).len()) as int),
        ),
{
    let i = pre.len() as int;
    match x {
        None => {
            lemma_eat_lit_at(s, pre, "null"@, post);
        },
        Some(r) => {
            reveal_strlit("{\"prover_did\":");
            assert(s[i] == spec_ser_request(r)[0]);
            assert(spec_ser_request(r)[0] == '{');
            assert(spec_eat_lit(s, i, "null"@) is None) by {
                reveal_strlit("null");
                if i + "null"@.len() <= s.len() && s.subrange(i, i + "null"@.len()) == "null"@ {
                    assert(s.subrange(i, i + "null"@.len())[0] == s[i]);
                    assert("null"@[0] == 'n');
                    assert(false);
                }
            }
            lemma_parse_request_at(s, pre, r, post);
        },
    }
}

/// Round-trip law: parsing the serialized form of any record view yields
/// exactly that view.
#[verifier::rlimit(100)]
proof fn lemma_round_trip_end(s: Seq<char>, pre: Seq<char>, v: ClaimRecordView)
    requires
        s == pre + spec_ser_record_end_form(v),
    ensures
        spec_parse_record_end(
            s,
            pre.len() as int,
            ClaimRecordView { claim_request: None, ..v },
        ) == Some(v),
{
    let a9 = ",\"claim_request\":"@;
    let b9 = spec_ser_opt_request(v.claim_request);
    let a10 = "}"@;
    reveal_strlit(",\"claim_request\":");
    reveal_strlit("}");
    let i = pre.len() as int;
    assert(s[i] == a9[0]);
    assert(a9[0] == ',');
    assert(spec_eat_lit(s, i, "}"@) is None) by {
        if i + "}"@.len() <= s.len() && s.subrange(i, i + "}"@.len()) == "}"@ {
            assert(s.subrange(i, i + "}"@.len())[0] == s[i]);
            assert("}"@[0] == '}');
            assert(false);
        }
    }
    let p1 = pre + a9;
    let p2 = p1 + b9;
    lemma_concat_associative(pre, a9, b9 + a10);
    lemma_eat_lit_at(s, pre, a9, b9 + a10);
    lemma_concat_associative(p1, b9, a10);
    lemma_parse_opt_request_at(s, p1, v.claim_request, a10);
    assert(s =~= p2 + a10 + Seq::<char>::empty());
    lemma_eat_lit_at(s, p2, a10, Seq::<char>::empty());
    assert(p2.len() + a10.len() == s.len());
    let base = ClaimRecordView { claim_request: None, ..v };
    assert(spec_parse_record_end(s, i, base) matches Some(w) && w =~= v);
}

#[verifier::rlimit(100)]
proof fn lemma_round_trip_tail(s: Seq<char>, pre: Seq<char>, v: ClaimRecordView)
    requires
        s == pre + spec_ser_record_tail_form(v),
    ensures
        spec_parse_record_tail(
            s,
            pre.len() as int,
            v.source_id,
            v.handle,
            v.claim_attributes,
            v.msg_uid,
        ) == Some(v),
{
    let a5 = ",\"schema_seq_no\":"@;
    let b5 = dec_digits(v.schema_seq_no as int);
    let a6 = ",\"issuer_did\":"@;
    let b6 = quoted(v.issuer_did);
    let a7 = ",\"issued_did\":"@;
    let b7 = quoted(v.issued_did);
    let a8 = ",\"state\":"@;
    let b8 = dec_digits(spec_state_code(v.state) as int);
    let rest = spec_ser_record_end_form(v);
    reveal_strlit(",\"issuer_did\":");
    reveal_strlit(",\"claim_request\":");
    let u8 = b8 + rest;
    let u7 = a8 + u8;
    let u6 = b7 + u7;
    let u5 = a7 + u6;
    let u4 = b6 + u5;
    let u3 = a6 + u4;
    let u2 = b5 + u3;
    let u1 = a5 + u2;
    assert(s == pre + u1);
    let p1 = pre + a5;
    let p2 = p1 + b5;
    let p3 = p2 + a6;
    let p4 = p3 + b6;
    let p5 = p4 + a7;
    let p6 = p5 + b7;
    let p7 = p6 + a8;
    let p8 = p7 + b8;
    lemma_concat_associative(pre, a5, u2);
    lemma_eat_lit_at(s, pre, a5, u2);
    lemma_concat_associative(p1, b5, u3);
    assert(u3[0] == ',');
    lemma_parse_u32_at(s, p1, v.schema_seq_no, u3);
    lemma_concat_associative(p2, a6, u4);
    lemma_eat_lit_at(s, p2, a6, u4);
    lemma_concat_associative(p3, b6, u5);
    lemma_parse_quoted_at(s, p3, v.issuer_did, u5);
    lemma_concat_associative(p4, a7, u6);
    lemma_eat_lit_at(s, p4, a7, u6);
    lemma_concat_associative(p5, b7, u7);
    lemma_parse_quoted_at(s, p5, v.issued_did, u7);
    lemma_concat_associative(p6, a8, u8);
    lemma_eat_lit_at(s, p6, a8, u8);
    lemma_concat_associative(p7, b8, rest);
    assert(rest[0] == ',');
    lemma_parse_u32_at(s, p7, spec_state_code(v.state), rest);
    lemma_state_code_round_trip(v.state);
    lemma_round_trip_end(s, p8, v);
    let base = ClaimRecordView {
        source_id: v.source_id,
        handle: v.handle,
        claim_attributes: v.claim_attributes,
        msg_uid: v.msg_uid,
        schema_seq_no: v.schema_seq_no,
        issuer_did: v.issuer_did,
        issued_did: v.issued_did,
        state: v.state,
        claim_request: None,
    };
    assert(base =~= ClaimRecordView { claim_request: None, ..v });
}

/// Round-trip law: parsing the serialized form of any record view yields
/// exactly that view.
#[verifier::rlimit(100)]
pub proof fn lemma_record_round_trip(v: ClaimRecordView)
    ensures
        spec_parse_record(spec_ser_record(v)) == Some(v),
{
    let s = spec_ser_record(v);
    let a1 = "{\"source_id\":"@;
    let b1 = spec_ser_opt_str(v.source_id);
    let a2 = ",\"handle\":"@;
    let b2 = dec_digits(v.handle as int);
    let a3 = ",\"claim_attributes\":"@;
    let b3 = quoted(v.claim_attributes);
    let a4 = ",\"msg_uid\":"@;
    let b4 = quoted(v.msg_uid);
    let tail = spec_ser_record_tail_form(v);
    reveal_strlit(",\"claim_attributes\":");
    reveal_strlit(",\"schema_seq_no\":");
    let u8 = b4 + tail;
    let u7 = a4 + u8;
    let u6 = b3 + u7;
    let u5 = a3 + u6;
    let u4 = b2 + u5;
    let u3 = a2 + u4;
    let u2 = b1 + u3;
    let u1 = a1 + u2;
    assert(s == u1);
    let p0 = Seq::<char>::empty();
    assert(p0 + u1 =~= u1);
    let p1 = p0 + a1;
    let p2 = p1 + b1;
    let p3 = p2 + a2;
    let p4 = p3 + b2;
    let p5 = p4 + a3;
    let p6 = p5 + b3;
    let p7 = p6 + a4;
    let p8 = p7 + b4;
    lemma_concat_associative(p0, a1, u2);
    lemma_eat_lit_at(s, p0, a1, u2);
    lemma_concat_associative(p1, b1, u3);
    lemma_parse_opt_str_at(s, p1, v.source_id, u3);
    lemma_concat_associative(p2, a2, u4);
    lemma_eat_lit_at(s, p2, a2, u4);
    lemma_concat_associative(p3, b2, u5);
    assert(u5[0] == ',');
    lemma_parse_u32_at(s, p3, v.handle, u5);
    lemma_concat_associative(p4, a3, u6);
    lemma_eat_lit_at(s, p4, a3, u6);
    lemma_concat_associative(p5, b3, u7);
    lemma_parse_quoted_at(s, p5, v.claim_attributes, u7);
    lemma_concat_associative(p6, a4, u8);
    lemma_eat_lit_at(s, p6, a4, u8);
    lemma_concat_associative(p7, b4, tail);
    lemma_parse_quoted_at(s, p7, v.msg_uid, tail);
    lemma_round_trip_tail(s, p8, v);
}

} // verus!
