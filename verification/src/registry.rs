//! The handle registry: the one owner of live claim records, looked up by
//! non-zero 32-bit handles that are never reused while the registry lives.

use vstd::prelude::*;

use crate::errors::ErrorCode;
use crate::record::{
    parse_record, record_wf, ser_record, spec_parse_record, spec_ser_record, ClaimRecord,
    ClaimRecordView,
};
use crate::state::{spec_state_code, state_code, ClaimState};
use crate::validate::{spec_valid_attrs, valid_attrs};

verus! {

/// Looks a handle up among records, front first.
pub open spec fn spec_find(rs: Seq<ClaimRecord>, h: u32) -> Option<ClaimRecordView>
    decreases rs.len(),
{
    if rs.len() == 0 {
        None
    } else if rs[0].handle == h {
        Some(rs[0]@)
    } else {
        spec_find(rs.drop_first(), h)
    }
}

/// No two live records share a handle.
pub open spec fn handles_unique(rs: Seq<ClaimRecord>) -> bool {
    forall|j1: int, j2: int|
        0 <= j1 < j2 < rs.len() ==> rs[j1].handle != rs[j2].handle
}

/// The registry owning all live claim records.
pub struct Registry {
    records: Vec<ClaimRecord>,
    next_handle: u32,
}

impl Registry {
    /// Every live record is keyed by its own non-zero handle, handles are
    /// unique and lie below the allocation cursor, and every record is well
    /// formed.
    pub closed spec fn wf(&self) -> bool {
        &&& self.next_handle >= 1
        &&& handles_unique(self.records@)
        &&& forall|k: int|
            0 <= k < self.records@.len() ==> (#[trigger] self.records@[k]).handle != 0
                && self.records@[k].handle < self.next_handle && record_wf(self.records@[k]@)
    }

    /// The record a handle denotes, if it is live.
    pub closed spec fn spec_lookup(&self, h: u32) -> Option<ClaimRecordView> {
        spec_find(self.records@, h)
    }

    /// Handles that may still be allocated.
    pub closed spec fn spec_can_allocate(&self) -> bool {
        self.next_handle < 0xFFFF_FFFFu32
    }

    /// The handle the next successful allocation returns.
    pub closed spec fn spec_next_handle(&self) -> u32 {
        self.next_handle
    }

    /// A fresh, empty registry.
    pub fn new() -> (r: Registry)
        ensures
            r.wf(),
            r.spec_can_allocate(),
            forall|h: u32| r.spec_lookup(h) is None,
    {
        let r = Registry { records: Vec::new(), next_handle: 1 };
        proof {
            assert(forall|h: u32| spec_find(r.records@, h) is None);
        }
        r
    }
}

proof fn lemma_find_absent(rs: Seq<ClaimRecord>, h: u32)
    requires
        forall|j: int| 0 <= j < rs.len() ==> (#[trigger] rs[j]).handle != h,
    ensures
        spec_find(rs, h) is None,
    decreases rs.len(),
{
    if rs.len() > 0 {
        assert(forall|j: int|
            0 <= j < rs.drop_first().len() ==> (#[trigger] rs.drop_first()[j]).handle != h);
        lemma_find_absent(rs.drop_first(), h);
    }
}

proof fn lemma_find_push(rs: Seq<ClaimRecord>, rec: ClaimRecord, h: u32)
    ensures
        spec_find(rs.push(rec), h) == if spec_find(rs, h) is Some {
            spec_find(rs, h)
        } else if rec.handle == h {
            Some(rec@)
        } else {
            None::<ClaimRecordView>
        },
    decreases rs.len(),
{
    if rs.len() == 0 {
        assert(rs.push(rec).drop_first() =~= Seq::<ClaimRecord>::empty());
        assert(spec_find(Seq::<ClaimRecord>::empty(), h) is None);
    } else {
        assert(rs.push(rec).drop_first() =~= rs.drop_first().push(rec));
        lemma_find_push(rs.drop_first(), rec, h);
    }
}

proof fn lemma_find_remove(rs: Seq<ClaimRecord>, k: int, h: u32)
    requires
        0 <= k < rs.len(),
        rs[k].handle != h,
    ensures
        spec_find(rs.remove(k), h) == spec_find(rs, h),
    decreases rs.len(),
{
    if k == 0 {
        assert(rs.remove(0) =~= rs.drop_first());
    } else {
        assert(rs.remove(k).drop_first() =~= rs.drop_first().remove(k - 1));
        lemma_find_remove(rs.drop_first(), k - 1, h);
    }
}

proof fn lemma_find_update(rs: Seq<ClaimRecord>, k: int, rec: ClaimRecord, h: u32)
    requires
        0 <= k < rs.len(),
        rec.handle == rs[k].handle,
        handles_unique(rs),
    ensures
        spec_find(rs.update(k, rec), h) == if rs[k].handle == h {
            Some(rec@)
        } else {
            spec_find(rs, h)
        },
    decreases rs.len(),
{
    let rs2 = rs.update(k, rec);
    if k == 0 {
        if rs[0].handle == h {
            assert(rs2[0] == rec);
        } else {
            assert(rs2.drop_first() =~= rs.drop_first());
        }
    } else {
        assert(rs2[0] == rs[0]);
        if rs[0].handle == h {
        } else {
            assert(rs2.drop_first() =~= rs.drop_first().update(k - 1, rec));
            assert(handles_unique(rs.drop_first())) by {
                assert(forall|j1: int, j2: int|
                    0 <= j1 < j2 < rs.drop_first().len() ==> rs.drop_first()[j1]
                        == rs[j1 + 1] && rs.drop_first()[j2] == rs[j2 + 1]);
            }
            lemma_find_update(rs.drop_first(), k - 1, rec, h);
        }
    }
}

impl Registry {
    /// Index of the live record keyed by `h`, scanning front first.
    fn find_idx(&self, h: u32) -> (r: Option<usize>)
        ensures
            match r {
                Some(k) => k < self.records@.len() && self.records@[k as int].handle == h
                    && self.spec_lookup(h) == Some(self.records@[k as int]@),
                None => self.spec_lookup(h) is None,
            },
    {
        let mut j: usize = 0;
        proof {
            assert(self.records@.skip(0) =~= self.records@);
        }
        loop
            invariant
                j <= self.records@.len(),
                spec_find(self.records@, h) == spec_find(self.records@.skip(j as int), h),
            ensures
                j <= self.records@.len(),
                j < self.records@.len() ==> self.records@[j as int].handle == h && spec_find(
                    self.records@,
                    h,
                ) == Some(self.records@[j as int]@),
                j == self.records@.len() ==> spec_find(self.records@, h) is None,
            decreases self.records@.len() - j,
        {
            if j == self.records.len() {
                proof {
                    assert(self.records@.skip(j as int) =~= Seq::<ClaimRecord>::empty());
                }
                break ;
            }
            proof {
                assert(self.records@.skip(j as int)[0] == self.records@[j as int]);
            }
            if self.records[j].handle == h {
                break ;
            }
            proof {
                assert(self.records@.skip(j as int).drop_first() =~= self.records@.skip(j + 1));
            }
            j += 1;
        }
        if j < self.records.len() {
            Some(j)
        } else {
            None
        }
    }

    /// The live record a handle denotes.
    pub fn get(&self, h: u32) -> (r: Option<&ClaimRecord>)
        ensures
            match r {
                Some(rec) => self.spec_lookup(h) == Some(rec@) && rec.handle == h && (self.wf()
                    ==> record_wf(rec@)),
                None => self.spec_lookup(h) is None,
            },
    {
        match self.find_idx(h) {
            Some(k) => Some(&self.records[k]),
            None => None,
        }
    }

    /// Replaces the live record a handle denotes; the replacement must keep
    /// the handle and be well formed.
    pub(crate) fn update_record(&mut self, h: u32, rec: ClaimRecord)
        requires
            old(self).wf(),
            old(self).spec_lookup(h) is Some,
            rec.handle == h,
            record_wf(rec@),
        ensures
            final(self).wf(),
            final(self).spec_lookup(h) == Some(rec@),
            forall|h2: u32| h2 != h ==> final(self).spec_lookup(h2) == old(self).spec_lookup(h2),
            final(self).spec_can_allocate() == old(self).spec_can_allocate(),
    {
        match self.find_idx(h) {
            Some(k) => {
                proof {
                    let rs = self.records@;
                    assert forall|h2: u32| #[trigger]
                        spec_find(rs.update(k as int, rec), h2) == (if h2 == h {
                            Some(rec@)
                        } else {
                            spec_find(rs, h2)
                        }) by {
                        lemma_find_update(rs, k as int, rec, h2);
                    }
                    assert(rs.update(k as int, rec).remove(k as int) =~= rs.remove(k as int));
                    assert(forall|j: int|
                        0 <= j < rs.len() && j != k ==> rs.update(k as int, rec)[j] == rs[j]);
                    assert(handles_unique(rs.update(k as int, rec)));
                }
                self.records.remove(k);
                self.records.insert(k, rec);
                proof {
                    assert(self.records@ =~= old(self).records@.update(k as int, rec));
                }
            },
            None => {
                proof {
                    assert(false);
                }
            },
        }
    }

    /// True exactly when a live record exists for the handle.
    pub fn is_valid_handle(&self, h: u32) -> (r: bool)
        ensures
            r == (self.spec_lookup(h) is Some),
    {
        self.find_idx(h).is_some()
    }

    /// The numeric state code of the record, or zero when the handle is not
    /// live.
    pub fn get_state(&self, h: u32) -> (code: u32)
        ensures
            match self.spec_lookup(h) {
                Some(v) => code == spec_state_code(v.state),
                None => code == 0,
            },
    {
        match self.find_idx(h) {
            Some(k) => state_code(self.records[k].state),
            None => 0,
        }
    }

    /// Creates a record for the given creation inputs.  The attribute
    /// payload must form a JSON object, else the call is rejected with the
    /// invalid-option condition; a freshly allocated non-zero handle keys
    /// the new record, which starts in `Initialized` with no message in
    /// flight and no request.
    pub fn create(
        &mut self,
        source_id: Option<String>,
        schema_seq_no: u32,
        issuer_did: String,
        claim_data: String,
    ) -> (r: Result<u32, ErrorCode>)
        requires
            old(self).wf(),
        ensures
            final(self).wf(),
            !spec_valid_attrs(claim_data@) ==> r == Err::<u32, ErrorCode>(ErrorCode::InvalidOption)
                && *final(self) == *old(self),
            spec_valid_attrs(claim_data@) && !old(self).spec_can_allocate() ==> r == Err::<
                u32,
                ErrorCode,
            >(ErrorCode::UnknownError) && *final(self) == *old(self),
            r matches Ok(h) ==> h != 0,
            spec_valid_attrs(claim_data@) && old(self).spec_can_allocate() ==> {
                &&& r == Ok::<u32, ErrorCode>(old(self).spec_next_handle())
                &&& old(self).spec_lookup(old(self).spec_next_handle()) is None
                &&& final(self).spec_lookup(old(self).spec_next_handle()) matches Some(v) && v
                    == (ClaimRecordView {
                    source_id: match source_id {
                        Some(s) => Some(s@),
                        None => None,
                    },
                    handle: old(self).spec_next_handle(),
                    claim_attributes: claim_data@,
                    msg_uid: Seq::<char>::empty(),
                    schema_seq_no: schema_seq_no,
                    issuer_did: issuer_did@,
                    issued_did: Seq::<char>::empty(),
                    state: ClaimState::Initialized,
                    claim_request: None,
                })
                &&& forall|h2: u32|
                    h2 != old(self).spec_next_handle() ==> final(self).spec_lookup(h2) == old(self).spec_lookup(h2)
            },
    {
        if !valid_attrs(claim_data.as_str()) {
            return Err(ErrorCode::InvalidOption);
        }
        if self.next_handle == 0xFFFF_FFFF {
            return Err(ErrorCode::UnknownError);
        }
        let h = self.next_handle;
        let rec = ClaimRecord {
            source_id,
            handle: h,
            claim_attributes: claim_data,
            msg_uid: new_string(),
            schema_seq_no,
            issuer_did,
            issued_did: new_string(),
            state: ClaimState::Initialized,
            claim_request: None,
        };
        proof {
            assert(forall|j: int|
                0 <= j < self.records@.len() ==> (#[trigger] self.records@[j]).handle != h);
            lemma_find_absent(self.records@, h);
            lemma_find_push(self.records@, rec, h);
            assert(forall|h2: u32|
                h2 != h ==> #[trigger] spec_find(self.records@.push(rec), h2) == spec_find(
                    self.records@,
                    h2,
                )) by {
                assert forall|h2: u32| h2 != h implies #[trigger] spec_find(
                    self.records@.push(rec),
                    h2,
                ) == spec_find(self.records@, h2) by {
                    lemma_find_push(self.records@, rec, h2);
                }
            }
        }
        self.records.push(rec);
        self.next_handle = self.next_handle + 1;
        proof {
            assert(self.wf()) by {
                assert(forall|j: int|
                    0 <= j < old(self).records@.len() ==> self.records@[j] == old(self).records@[j]);
            }
        }
        Ok(h)
    }

    /// Removes the record; a handle with no live record reports the
    /// invalid-handle condition, and nothing else changes either way.
    pub fn release(&mut self, h: u32) -> (r: ErrorCode)
        requires
            old(self).wf(),
        ensures
            final(self).wf(),
            old(self).spec_lookup(h) is None ==> r == ErrorCode::InvalidIssuerClaimHandle && *final(self) == *old(self),
            old(self).spec_lookup(h) is Some ==> r == ErrorCode::Success,
            final(self).spec_lookup(h) is None,
            forall|h2: u32| h2 != h ==> final(self).spec_lookup(h2) == old(self).spec_lookup(h2),
    {
        match self.find_idx(h) {
            None => ErrorCode::InvalidIssuerClaimHandle,
            Some(k) => {
                proof {
                    let rs = self.records@;
                    assert forall|h2: u32| h2 != h implies #[trigger] spec_find(
                        rs.remove(k as int),
                        h2,
                    ) == spec_find(rs, h2) by {
                        lemma_find_remove(rs, k as int, h2);
                    }
                    assert(forall|j: int|
                        0 <= j < rs.remove(k as int).len() ==> (#[trigger] rs.remove(k as int)[j])
                            == (if j < k {
                            rs[j]
                        } else {
                            rs[j + 1]
                        }));
                    assert(forall|j: int|
                        0 <= j < rs.remove(k as int).len() ==> (#[trigger] rs.remove(
                            k as int,
                        )[j]).handle != h);
                    lemma_find_absent(rs.remove(k as int), h);
                    assert(handles_unique(rs.remove(k as int)));
                }
                self.records.remove(k);
                ErrorCode::Success
            },
        }
    }

    /// Serializes the record the handle denotes.
    pub fn to_string(&self, h: u32) -> (r: Result<String, ErrorCode>)
        ensures
            match self.spec_lookup(h) {
                Some(v) => r matches Ok(out) && out@ == spec_ser_record(v),
                None => r == Err::<String, ErrorCode>(ErrorCode::InvalidIssuerClaimHandle),
            },
    {
        match self.find_idx(h) {
            Some(k) => Ok(ser_record(&self.records[k])),
            None => Err(ErrorCode::InvalidIssuerClaimHandle),
        }
    }

    /// Reconstructs a record from its serialized form under a freshly
    /// allocated handle; the serialized handle is a point-in-time snapshot
    /// and is never reused as an identity.  Inputs that do not parse, or
    /// that carry a request before the state that receives one, are
    /// rejected with the invalid-option condition.
    pub fn from_string(&mut self, text: &str) -> (r: Result<u32, ErrorCode>)
        requires
            old(self).wf(),
        ensures
            final(self).wf(),
            r matches Ok(h) ==> h != 0,
            match spec_parse_record(text@) {
                Some(v) => if record_wf(v) && old(self).spec_can_allocate() {
                    &&& r == Ok::<u32, ErrorCode>(old(self).spec_next_handle())
                    &&& old(self).spec_lookup(old(self).spec_next_handle()) is None
                    &&& final(self).spec_lookup(old(self).spec_next_handle()) == Some(
                        ClaimRecordView { handle: old(self).spec_next_handle(), ..v },
                    )
                    &&& forall|h2: u32|
                        h2 != old(self).spec_next_handle() ==> final(self).spec_lookup(h2) == old(self).spec_lookup(h2)
                } else if record_wf(v) {
                    r == Err::<u32, ErrorCode>(ErrorCode::UnknownError) && *final(self) == *old(self)
                } else {
                    r == Err::<u32, ErrorCode>(ErrorCode::InvalidOption) && *final(self) == *old(self)
                },
                None => r == Err::<u32, ErrorCode>(ErrorCode::InvalidOption) && *final(self) == *old(self),
            },
    {
        let parsed = match parse_record(text) {
            Some(rec) => rec,
            None => {
                return Err(ErrorCode::InvalidOption);
            },
        };
        if parsed.claim_request.is_some() && state_code(parsed.state) < 3 {
            return Err(ErrorCode::InvalidOption);
        }
        if self.next_handle == 0xFFFF_FFFF {
            return Err(ErrorCode::UnknownError);
        }
        let h = self.next_handle;
        let rec = ClaimRecord { handle: h, ..parsed };
        proof {
            assert(forall|j: int|
                0 <= j < self.records@.len() ==> (#[trigger] self.records@[j]).handle != h);
            lemma_find_absent(self.records@, h);
            lemma_find_push(self.records@, rec, h);
            assert forall|h2: u32| h2 != h implies #[trigger] spec_find(
                self.records@.push(rec),
                h2,
            ) == spec_find(self.records@, h2) by {
                lemma_find_push(self.records@, rec, h2);
            }
        }
        self.records.push(rec);
        self.next_handle = self.next_handle + 1;
        proof {
            assert(self.wf()) by {
                assert(forall|j: int|
                    0 <= j < old(self).records@.len() ==> self.records@[j] == old(self).records@[j]);
            }
            assert(rec@ =~= ClaimRecordView { handle: h, ..parsed@ });
        }
        Ok(h)
    }
}

/// An empty string.
fn new_string() -> (r: String)
    ensures
        r@ == Seq::<char>::empty(),
{
    String::new()
}

} // verus!
