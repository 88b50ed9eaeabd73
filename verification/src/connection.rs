//! Connections as the engine consumes them: opaque handles resolving to a
//! pairwise DID and the endpoint that routes protocol messages.

use vstd::prelude::*;

use crate::errors::ErrorCode;

verus! {

/// What the engine reads of a connection: who to address and where.
pub struct ConnectionRecord {
    pub handle: u32,
    pub source_id: String,
    pub pw_did: String,
    pub endpoint: String,
}

/// Mathematical image of a [`ConnectionRecord`].
#[verifier::ext_equal]
pub struct ConnectionView {
    pub handle: u32,
    pub source_id: Seq<char>,
    pub pw_did: Seq<char>,
    pub endpoint: Seq<char>,
}

impl View for ConnectionRecord {
    type V = ConnectionView;

    open spec fn view(&self) -> ConnectionView {
        ConnectionView {
            handle: self.handle,
            source_id: self.source_id@,
            pw_did: self.pw_did@,
            endpoint: self.endpoint@,
        }
    }
}

/// Looks a handle up among connections, front first.
pub open spec fn spec_cfind(rs: Seq<ConnectionRecord>, h: u32) -> Option<ConnectionView>
    decreases rs.len(),
{
    if rs.len() == 0 {
        None
    } else if rs[0].handle == h {
        Some(rs[0]@)
    } else {
        spec_cfind(rs.drop_first(), h)
    }
}

/// No two live connections share a handle.
pub open spec fn chandles_unique(rs: Seq<ConnectionRecord>) -> bool {
    forall|j1: int, j2: int| 0 <= j1 < j2 < rs.len() ==> rs[j1].handle != rs[j2].handle
}

/// The store of live connections the engine validates handles against.
pub struct Connections {
    list: Vec<ConnectionRecord>,
    next_handle: u32,
}

proof fn lemma_cfind_absent(rs: Seq<ConnectionRecord>, h: u32)
    requires
        forall|j: int| 0 <= j < rs.len() ==> (#[trigger] rs[j]).handle != h,
    ensures
        spec_cfind(rs, h) is None,
    decreases rs.len(),
{
    if rs.len() > 0 {
        assert(forall|j: int|
            0 <= j < rs.drop_first().len() ==> (#[trigger] rs.drop_first()[j]).handle != h);
        lemma_cfind_absent(rs.drop_first(), h);
    }
}

proof fn lemma_cfind_push(rs: Seq<ConnectionRecord>, rec: ConnectionRecord, h: u32)
    ensures
        spec_cfind(rs.push(rec), h) == if spec_cfind(rs, h) is Some {
            spec_cfind(rs, h)
        } else if rec.handle == h {
            Some(rec@)
        } else {
            None::<ConnectionView>
        },
    decreases rs.len(),
{
    if rs.len() == 0 {
        assert(rs.push(rec).drop_first() =~= Seq::<ConnectionRecord>::empty());
        assert(spec_cfind(Seq::<ConnectionRecord>::empty(), h) is None);
    } else {
        assert(rs.push(rec).drop_first() =~= rs.drop_first().push(rec));
        lemma_cfind_push(rs.drop_first(), rec, h);
    }
}

proof fn lemma_cfind_update(rs: Seq<ConnectionRecord>, k: int, rec: ConnectionRecord, h: u32)
    requires
        0 <= k < rs.len(),
        rec.handle == rs[k].handle,
        chandles_unique(rs),
    ensures
        spec_cfind(rs.update(k, rec), h) == if rs[k].handle == h {
            Some(rec@)
        } else {
            spec_cfind(rs, h)
        },
    decreases rs.len(),
{
    let rs2 = rs.update(k, rec);
    if k == 0 {
        if rs[0].handle == h {
            assert(rs2[0] == rec);
        } else {
            assert(rs2.drop_first() =~= rs.drop_first());
        }
    } else {
        assert(rs2[0] == rs[0]);
        if rs[0].handle != h {
            assert(rs2.drop_first() =~= rs.drop_first().update(k - 1, rec));
            assert(chandles_unique(rs.drop_first())) by {
                assert(forall|j1: int, j2: int|
                    0 <= j1 < j2 < rs.drop_first().len() ==> rs.drop_first()[j1] == rs[j1 + 1]
                        && rs.drop_first()[j2] == rs[j2 + 1]);
            }
            lemma_cfind_update(rs.drop_first(), k - 1, rec, h);
        }
    }
}

impl Connections {
    /// Handles are non-zero, unique, and lie below the allocation cursor.
    pub closed spec fn wf(&self) -> bool {
        &&& self.next_handle >= 1
        &&& chandles_unique(self.list@)
        &&& forall|k: int|
            0 <= k < self.list@.len() ==> (#[trigger] self.list@[k]).handle != 0
                && self.list@[k].handle < self.next_handle
    }

    /// The connection a handle denotes, if it is live.
    pub closed spec fn spec_lookup(&self, h: u32) -> Option<ConnectionView> {
        spec_cfind(self.list@, h)
    }

    /// Handles that may still be allocated.
    pub closed spec fn spec_can_allocate(&self) -> bool {
        self.next_handle < 0xFFFF_FFFFu32
    }

    /// The handle the next successful allocation returns.
    pub closed spec fn spec_next_handle(&self) -> u32 {
        self.next_handle
    }

    /// A fresh, empty connection store.
    pub fn new() -> (r: Connections)
        ensures
            r.wf(),
            r.spec_can_allocate(),
            forall|h: u32| r.spec_lookup(h) is None,
    {
        let r = Connections { list: Vec::new(), next_handle: 1 };
        proof {
            assert(forall|h: u32| spec_cfind(r.list@, h) is None);
        }
        r
    }

    fn find_idx(&self, h: u32) -> (r: Option<usize>)
        ensures
            match r {
                Some(k) => k < self.list@.len() && self.list@[k as int].handle == h
                    && self.spec_lookup(h) == Some(self.list@[k as int]@),
                None => self.spec_lookup(h) is None,
            },
    {
        let mut j: usize = 0;
        proof {
            assert(self.list@.skip(0) =~= self.list@);
        }
        loop
            invariant
                j <= self.list@.len(),
                spec_cfind(self.list@, h) == spec_cfind(self.list@.skip(j as int), h),
            ensures
                j <= self.list@.len(),
                j < self.list@.len() ==> self.list@[j as int].handle == h && spec_cfind(
                    self.list@,
                    h,
                ) == Some(self.list@[j as int]@),
                j == self.list@.len() ==> spec_cfind(self.list@, h) is None,
            decreases self.list@.len() - j,
        {
            if j == self.list.len() {
                proof {
                    assert(self.list@.skip(j as int) =~= Seq::<ConnectionRecord>::empty());
                }
                break ;
            }
            proof {
                assert(self.list@.skip(j as int)[0] == self.list@[j as int]);
            }
            if self.list[j].handle == h {
                break ;
            }
            proof {
                assert(self.list@.skip(j as int).drop_first() =~= self.list@.skip(j + 1));
            }
            j += 1;
        }
        if j < self.list.len() {
            Some(j)
        } else {
            None
        }
    }

    /// True exactly when a live connection exists for the handle.
    pub fn is_valid_handle(&self, h: u32) -> (r: bool)
        ensures
            r == (self.spec_lookup(h) is Some),
    {
        self.find_idx(h).is_some()
    }

    /// The live connection a handle denotes.
    pub fn get(&self, h: u32) -> (r: Option<&ConnectionRecord>)
        ensures
            match r {
                Some(rec) => self.spec_lookup(h) == Some(rec@) && rec.handle == h,
                None => self.spec_lookup(h) is None,
            },
    {
        match self.find_idx(h) {
            Some(k) => Some(&self.list[k]),
            None => None,
        }
    }

    /// Creates a connection under a fresh non-zero handle, with an empty
    /// pairwise DID and endpoint until they are set.
    pub fn create_connection(&mut self, source_id: String) -> (r: Result<u32, ErrorCode>)
        requires
            old(self).wf(),
        ensures
            final(self).wf(),
            r matches Ok(h) ==> h != 0,
            !old(self).spec_can_allocate() ==> r == Err::<u32, ErrorCode>(ErrorCode::UnknownError)
                && *final(self) == *old(self),
            old(self).spec_can_allocate() ==> {
                &&& r == Ok::<u32, ErrorCode>(old(self).spec_next_handle())
                &&& old(self).spec_lookup(old(self).spec_next_handle()) is None
                &&& final(self).spec_lookup(old(self).spec_next_handle()) == Some(
                    ConnectionView {
                        handle: old(self).spec_next_handle(),
                        source_id: source_id@,
                        pw_did: Seq::<char>::empty(),
                        endpoint: Seq::<char>::empty(),
                    },
                )
                &&& forall|h2: u32|
                    h2 != old(self).spec_next_handle() ==> final(self).spec_lookup(h2) == old(
                        self,
                    ).spec_lookup(h2)
            },
    {
        if self.next_handle == 0xFFFF_FFFF {
            return Err(ErrorCode::UnknownError);
        }
        let h = self.next_handle;
        let rec = ConnectionRecord {
            handle: h,
            source_id,
            pw_did: String::new(),
            endpoint: String::new(),
        };
        proof {
            assert(forall|j: int|
                0 <= j < self.list@.len() ==> (#[trigger] self.list@[j]).handle != h);
            lemma_cfind_absent(self.list@, h);
            lemma_cfind_push(self.list@, rec, h);
            assert forall|h2: u32| h2 != h implies #[trigger] spec_cfind(self.list@.push(rec), h2)
                == spec_cfind(self.list@, h2) by {
                lemma_cfind_push(self.list@, rec, h2);
            }
        }
        self.list.push(rec);
        self.next_handle = self.next_handle + 1;
        proof {
            assert(self.wf()) by {
                assert(forall|j: int|
                    0 <= j < old(self).list@.len() ==> self.list@[j] == old(self).list@[j]);
            }
        }
        Ok(h)
    }

    /// Sets the pairwise DID used to address the holder.
    pub fn set_pw_did(&mut self, h: u32, pw_did: &str) -> (r: ErrorCode)
        requires
            old(self).wf(),
        ensures
            final(self).wf(),
            old(self).spec_lookup(h) is None ==> r == ErrorCode::InvalidConnectionHandle && *final(self) == *old(self),
            old(self).spec_lookup(h) matches Some(c) ==> r == ErrorCode::Success && final(self).spec_lookup(h) == Some(ConnectionView { pw_did: pw_did@, ..c }),
            forall|h2: u32| h2 != h ==> final(self).spec_lookup(h2) == old(self).spec_lookup(h2),
    {
        self.set_fields(h, Some(pw_did), None)
    }

    /// Sets the agency endpoint that routes messages for this connection.
    pub fn set_endpoint(&mut self, h: u32, endpoint: &str) -> (r: ErrorCode)
        requires
            old(self).wf(),
        ensures
            final(self).wf(),
            old(self).spec_lookup(h) is None ==> r == ErrorCode::InvalidConnectionHandle && *final(self) == *old(self),
            old(self).spec_lookup(h) matches Some(c) ==> r == ErrorCode::Success && final(self).spec_lookup(h) == Some(ConnectionView { endpoint: endpoint@, ..c }),
            forall|h2: u32| h2 != h ==> final(self).spec_lookup(h2) == old(self).spec_lookup(h2),
    {
        self.set_fields(h, None, Some(endpoint))
    }

    fn set_fields(&mut self, h: u32, pw_did: Option<&str>, endpoint: Option<&str>) -> (r:
        ErrorCode)
        requires
            old(self).wf(),
            pw_did is Some <==> endpoint is None,
        ensures
            final(self).wf(),
            old(self).spec_lookup(h) is None ==> r == ErrorCode::InvalidConnectionHandle && *final(self) == *old(self),
            old(self).spec_lookup(h) matches Some(c) ==> r == ErrorCode::Success && final(self).spec_lookup(h) == Some(
                match pw_did {
                    Some(d) => ConnectionView { pw_did: d@, ..c },
                    None => ConnectionView { endpoint: endpoint->Some_0@, ..c },
                },
            ),
            forall|h2: u32| h2 != h ==> final(self).spec_lookup(h2) == old(self).spec_lookup(h2),
    {
        match self.find_idx(h) {
            None => ErrorCode::InvalidConnectionHandle,
            Some(k) => {
                let old_rec = &self.list[k];
                let rec = ConnectionRecord {
                    handle: old_rec.handle,
                    source_id: old_rec.source_id.clone(),
                    pw_did: match pw_did {
                        Some(d) => String::from_str(d),
                        None => old_rec.pw_did.clone(),
                    },
                    endpoint: match endpoint {
                        Some(e) => String::from_str(e),
                        None => old_rec.endpoint.clone(),
                    },
                };
                proof {
                    let rs = self.list@;
                    assert forall|h2: u32| #[trigger]
                        spec_cfind(rs.update(k as int, rec), h2) == (if h2 == h {
                            Some(rec@)
                        } else {
                            spec_cfind(rs, h2)
                        }) by {
                        lemma_cfind_update(rs, k as int, rec, h2);
                    }
                    assert(forall|j: int|
                        0 <= j < rs.len() && j != k ==> rs.update(k as int, rec)[j] == rs[j]);
                    assert(chandles_unique(rs.update(k as int, rec)));
                }
                self.list.remove(k);
                self.list.insert(k, rec);
                proof {
                    assert(self.list@ =~= old(self).list@.update(k as int, rec));
                }
                ErrorCode::Success
            },
        }
    }
}

} // verus!
