//! The ledger store: key-value state for streams and reservations.
//!
//! Each store is a vector of entries with pairwise-distinct keys. Its
//! mathematical model is a lookup function over the entry sequence; all
//! mutators state their effect on that model, so callers never reason
//! about the vector itself.

use vstd::prelude::*;
use crate::types::{AccountId, Balance, Stream};

verus! {

/// One stream record, keyed by its caller-chosen 128-bit id.
pub struct StreamEntry {
    pub stream_id: u128,
    pub stream: Stream,
}

/// What a sequence of stream entries says about a given id: the record
/// of the latest entry carrying that id, if any.
pub open spec fn stream_lookup(s: Seq<StreamEntry>, stream_id: u128) -> Option<Stream>
    decreases s.len(),
{
    if s.len() == 0 {
        None
    } else if s.last().stream_id == stream_id {
        Some(s.last().stream)
    } else {
        stream_lookup(s.drop_last(), stream_id)
    }
}

/// Entries carry pairwise-distinct stream ids.
pub open spec fn distinct_stream_ids(s: Seq<StreamEntry>) -> bool {
    forall|i: int, j: int|
        0 <= i < j < s.len() ==> s[i].stream_id != s[j].stream_id
}

/// An entry present at some index determines the lookup result when ids
/// are distinct.
proof fn lemma_stream_lookup_at(s: Seq<StreamEntry>, i: int)
    requires
        distinct_stream_ids(s),
        0 <= i < s.len(),
    ensures
        stream_lookup(s, s[i].stream_id) == Some(s[i].stream),
    decreases s.len(),
{
    if i < s.len() - 1 {
        assert(s.drop_last()[i] == s[i]);
        lemma_stream_lookup_at(s.drop_last(), i);
    }
}

/// An id no entry carries looks up to nothing.
proof fn lemma_stream_lookup_absent(s: Seq<StreamEntry>, stream_id: u128)
    requires
        forall|i: int| 0 <= i < s.len() ==> s[i].stream_id != stream_id,
    ensures
        stream_lookup(s, stream_id) is None,
    decreases s.len(),
{
    if s.len() > 0 {
        lemma_stream_lookup_absent(s.drop_last(), stream_id);
    }
}

/// Overwriting the record at one index changes only that id's lookup.
proof fn lemma_stream_lookup_update(s: Seq<StreamEntry>, i: int, e: StreamEntry, stream_id: u128)
    requires
        distinct_stream_ids(s),
        0 <= i < s.len(),
        e.stream_id == s[i].stream_id,
    ensures
        stream_lookup(s.update(i, e), stream_id) == if stream_id == e.stream_id {
            Some(e.stream)
        } else {
            stream_lookup(s, stream_id)
        },
    decreases s.len(),
{
    let s2 = s.update(i, e);
    if i == s.len() - 1 {
        assert(s2.drop_last() =~= s.drop_last());
    } else {
        assert(s2.drop_last() =~= s.drop_last().update(i, e));
        lemma_stream_lookup_update(s.drop_last(), i, e, stream_id);
    }
}

/// Appending an entry changes only its own id's lookup.
proof fn lemma_stream_lookup_push(s: Seq<StreamEntry>, e: StreamEntry, stream_id: u128)
    ensures
        stream_lookup(s.push(e), stream_id) == if stream_id == e.stream_id {
            Some(e.stream)
        } else {
            stream_lookup(s, stream_id)
        },
{
    assert(s.push(e).drop_last() =~= s);
}

/// The stream registry's storage: one record per stream id.
pub struct StreamStore {
    entries: Vec<StreamEntry>,
}

impl StreamStore {
    /// The keys are pairwise distinct.
    pub closed spec fn wf(self) -> bool {
        distinct_stream_ids(self.entries@)
    }

    /// The record held for a stream id, if any.
    pub closed spec fn spec_get(self, stream_id: u128) -> Option<Stream> {
        stream_lookup(self.entries@, stream_id)
    }

    /// An empty registry.
    pub fn new() -> (s: Self)
        ensures
            s.wf(),
            forall|sid: u128| s.spec_get(sid) is None,
    {
        let s = StreamStore { entries: Vec::new() };
        proof {
            assert forall|sid: u128| s.spec_get(sid) is None by {
                lemma_stream_lookup_absent(s.entries@, sid);
            }
        }
        s
    }

    /// Pure lookup of a stream record.
    pub fn get(&self, stream_id: u128) -> (r: Option<Stream>)
        requires
            self.wf(),
        ensures
            r == self.spec_get(stream_id),
    {
        let n = self.entries.len();
        let mut j: usize = 0;
        while j < n
            invariant
                n == self.entries@.len(),
                j <= n,
                forall|k: int| 0 <= k < j ==> self.entries@[k].stream_id != stream_id,
                self.wf(),
            decreases n - j,
        {
            if self.entries[j].stream_id == stream_id {
                proof {
                    lemma_stream_lookup_at(self.entries@, j as int);
                }
                return Some(self.entries[j].stream);
            }
            j += 1;
        }
        proof {
            lemma_stream_lookup_absent(self.entries@, stream_id);
        }
        None
    }

    /// Whether a record exists for this stream id.
    pub fn contains_key(&self, stream_id: u128) -> (r: bool)
        requires
            self.wf(),
        ensures
            r == (self.spec_get(stream_id) is Some),
    {
        self.get(stream_id).is_some()
    }

    /// Creates or overwrites the record for a stream id.
    pub fn insert(&mut self, stream_id: u128, stream: Stream)
        requires
            old(self).wf(),
        ensures
            final(self).wf(),
            final(self).spec_get(stream_id) == Some(stream),
            forall|sid: u128|
                sid != stream_id ==> final(self).spec_get(sid) == old(self).spec_get(sid),
    {
        let e = StreamEntry { stream_id, stream };
        let n = self.entries.len();
        let mut j: usize = 0;
        while j < n
            invariant
                n == self.entries@.len(),
                j <= n,
                forall|k: int| 0 <= k < j ==> self.entries@[k].stream_id != stream_id,
                self == old(self),
                self.wf(),
                e == (StreamEntry { stream_id, stream }),
            decreases n - j,
        {
            if self.entries[j].stream_id == stream_id {
                proof {
                    let s0 = self.entries@;
                    assert forall|sid: u128|
                        stream_lookup(s0.update(j as int, e), sid) == if sid == stream_id {
                            Some(stream)
                        } else {
                            stream_lookup(s0, sid)
                        } by {
                        lemma_stream_lookup_update(s0, j as int, e, sid);
                    }
                }
                self.entries[j] = e;
                return;
            }
            j += 1;
        }
        proof {
            let s0 = self.entries@;
            assert forall|sid: u128|
                stream_lookup(s0.push(e), sid) == if sid == stream_id {
                    Some(stream)
                } else {
                    stream_lookup(s0, sid)
                } by {
                lemma_stream_lookup_push(s0, e, sid);
            }
        }
        self.entries.push(e);
    }
}

/// One escrow reservation, keyed by stream id and viewer account.
pub struct ResEntry {
    pub stream_id: u128,
    pub viewer: AccountId,
    pub amount: Balance,
}

/// What a sequence of reservation entries says about a given key.
pub open spec fn res_lookup(s: Seq<ResEntry>, stream_id: u128, viewer: AccountId) -> Option<
    Balance,
>
    decreases s.len(),
{
    if s.len() == 0 {
        None
    } else if s.last().stream_id == stream_id && s.last().viewer == viewer {
        Some(s.last().amount)
    } else {
        res_lookup(s.drop_last(), stream_id, viewer)
    }
}

/// Entries carry pairwise-distinct (stream, viewer) keys.
pub open spec fn distinct_res_keys(s: Seq<ResEntry>) -> bool {
    forall|i: int, j: int|
        0 <= i < j < s.len() ==> !(s[i].stream_id == s[j].stream_id && s[i].viewer
            == s[j].viewer)
}

/// The total amount held by the entries a predicate selects.
pub open spec fn sum_by(s: Seq<ResEntry>, f: spec_fn(ResEntry) -> bool) -> nat
    decreases s.len(),
{
    if s.len() == 0 {
        0
    } else {
        sum_by(s.drop_last(), f) + if f(s.last()) {
            s.last().amount as nat
        } else {
            0
        }
    }
}

/// Selects the reservations of one stream.
pub open spec fn match_stream(stream_id: u128) -> spec_fn(ResEntry) -> bool {
    |e: ResEntry| e.stream_id == stream_id
}

/// Selects the reservations of one viewer, across streams.
pub open spec fn match_viewer(viewer: AccountId) -> spec_fn(ResEntry) -> bool {
    |e: ResEntry| e.viewer == viewer
}

proof fn lemma_res_lookup_at(s: Seq<ResEntry>, i: int)
    requires
        distinct_res_keys(s),
        0 <= i < s.len(),
    ensures
        res_lookup(s, s[i].stream_id, s[i].viewer) == Some(s[i].amount),
    decreases s.len(),
{
    if i < s.len() - 1 {
        assert(s.drop_last()[i] == s[i]);
        lemma_res_lookup_at(s.drop_last(), i);
    }
}

proof fn lemma_res_lookup_absent(s: Seq<ResEntry>, stream_id: u128, viewer: AccountId)
    requires
        forall|i: int|
            0 <= i < s.len() ==> !(s[i].stream_id == stream_id && s[i].viewer == viewer),
    ensures
        res_lookup(s, stream_id, viewer) is None,
    decreases s.len(),
{
    if s.len() > 0 {
        lemma_res_lookup_absent(s.drop_last(), stream_id, viewer);
    }
}

proof fn lemma_res_lookup_update(
    s: Seq<ResEntry>,
    i: int,
    e: ResEntry,
    stream_id: u128,
    viewer: AccountId,
)
    requires
        distinct_res_keys(s),
        0 <= i < s.len(),
        e.stream_id == s[i].stream_id,
        e.viewer == s[i].viewer,
    ensures
        res_lookup(s.update(i, e), stream_id, viewer) == if stream_id == e.stream_id && viewer
            == e.viewer {
            Some(e.amount)
        } else {
            res_lookup(s, stream_id, viewer)
        },
    decreases s.len(),
{
    let s2 = s.update(i, e);
    if i == s.len() - 1 {
        assert(s2.drop_last() =~= s.drop_last());
    } else {
        assert(s2.drop_last() =~= s.drop_last().update(i, e));
        lemma_res_lookup_update(s.drop_last(), i, e, stream_id, viewer);
    }
}

proof fn lemma_res_lookup_push(s: Seq<ResEntry>, e: ResEntry, stream_id: u128, viewer: AccountId)
    ensures
        res_lookup(s.push(e), stream_id, viewer) == if stream_id == e.stream_id && viewer
            == e.viewer {
            Some(e.amount)
        } else {
            res_lookup(s, stream_id, viewer)
        },
{
    assert(s.push(e).drop_last() =~= s);
}

/// Replacing the entry at one index moves the selected sum by the
/// difference between the two entries' contributions.
proof fn lemma_sum_by_update(s: Seq<ResEntry>, i: int, e: ResEntry, f: spec_fn(ResEntry) -> bool)
    requires
        0 <= i < s.len(),
    ensures
        sum_by(s.update(i, e), f) + (if f(s[i]) {
            s[i].amount as nat
        } else {
            0
        }) == sum_by(s, f) + (if f(e) {
            e.amount as nat
        } else {
            0
        }),
    decreases s.len(),
{
    let s2 = s.update(i, e);
    if i == s.len() - 1 {
        assert(s2.drop_last() =~= s.drop_last());
    } else {
        assert(s2.drop_last() =~= s.drop_last().update(i, e));
        assert(s2.last() == s.last());
        lemma_sum_by_update(s.drop_last(), i, e, f);
    }
}

proof fn lemma_sum_by_push(s: Seq<ResEntry>, e: ResEntry, f: spec_fn(ResEntry) -> bool)
    ensures
        sum_by(s.push(e), f) == sum_by(s, f) + (if f(e) {
            e.amount as nat
        } else {
            0
        }),
{
    assert(s.push(e).drop_last() =~= s);
}

/// A selected entry's amount never exceeds the selected sum.
proof fn lemma_sum_by_at(s: Seq<ResEntry>, i: int, f: spec_fn(ResEntry) -> bool)
    requires
        0 <= i < s.len(),
        f(s[i]),
    ensures
        sum_by(s, f) >= s[i].amount,
    decreases s.len(),
{
    if i < s.len() - 1 {
        assert(s.drop_last()[i] == s[i]);
        lemma_sum_by_at(s.drop_last(), i, f);
    }
}

/// The escrow manager's storage: one reservation per (stream, viewer).
pub struct ReservationStore {
    entries: Vec<ResEntry>,
}

impl ReservationStore {
    /// The keys are pairwise distinct.
    pub closed spec fn wf(self) -> bool {
        distinct_res_keys(self.entries@)
    }

    /// The amount held for a (stream, viewer) key, if any.
    pub closed spec fn spec_get(self, stream_id: u128, viewer: AccountId) -> Option<Balance> {
        res_lookup(self.entries@, stream_id, viewer)
    }

    /// The total amount reserved against one stream, over all viewers.
    pub closed spec fn sum_stream(self, stream_id: u128) -> nat {
        sum_by(self.entries@, match_stream(stream_id))
    }

    /// The total amount one viewer has reserved, over all streams.
    pub closed spec fn sum_viewer(self, viewer: AccountId) -> nat {
        sum_by(self.entries@, match_viewer(viewer))
    }

    /// An empty reservation map.
    pub fn new() -> (s: Self)
        ensures
            s.wf(),
            forall|sid: u128, v: AccountId| s.spec_get(sid, v) is None,
            forall|sid: u128| s.sum_stream(sid) == 0,
            forall|v: AccountId| s.sum_viewer(v) == 0,
    {
        let s = ReservationStore { entries: Vec::new() };
        proof {
            assert forall|sid: u128, v: AccountId| s.spec_get(sid, v) is None by {
                lemma_res_lookup_absent(s.entries@, sid, v);
            }
        }
        s
    }

    /// Pure lookup of a reservation.
    pub fn get(&self, stream_id: u128, viewer: AccountId) -> (r: Option<Balance>)
        requires
            self.wf(),
        ensures
            r == self.spec_get(stream_id, viewer),
    {
        let n = self.entries.len();
        let mut j: usize = 0;
        while j < n
            invariant
                n == self.entries@.len(),
                j <= n,
                forall|k: int|
                    0 <= k < j ==> !(self.entries@[k].stream_id == stream_id
                        && self.entries@[k].viewer == viewer),
                self.wf(),
            decreases n - j,
        {
            if self.entries[j].stream_id == stream_id && self.entries[j].viewer == viewer {
                proof {
                    lemma_res_lookup_at(self.entries@, j as int);
                }
                return Some(self.entries[j].amount);
            }
            j += 1;
        }
        proof {
            lemma_res_lookup_absent(self.entries@, stream_id, viewer);
        }
        None
    }

    /// A reservation present in a well-formed store is covered by the
    /// per-stream and per-viewer totals.
    pub proof fn lemma_sums_cover_entry(self, stream_id: u128, viewer: AccountId)
        requires
            self.wf(),
            self.spec_get(stream_id, viewer) is Some,
        ensures
            self.sum_stream(stream_id) >= self.spec_get(stream_id, viewer)->0,
            self.sum_viewer(viewer) >= self.spec_get(stream_id, viewer)->0,
    {
        let s = self.entries@;
        let i = choose|i: int|
            0 <= i < s.len() && s[i].stream_id == stream_id && s[i].viewer == viewer;
        if exists|i: int|
            0 <= i < s.len() && s[i].stream_id == stream_id && s[i].viewer == viewer {
            lemma_res_lookup_at(s, i);
            lemma_sum_by_at(s, i, match_stream(stream_id));
            lemma_sum_by_at(s, i, match_viewer(viewer));
        } else {
            lemma_res_lookup_absent(s, stream_id, viewer);
        }
    }

    /// Creates or overwrites the reservation for a (stream, viewer) key.
    /// A previous amount under the same key is dropped, not added to.
    pub fn upsert(&mut self, stream_id: u128, viewer: AccountId, amount: Balance)
        requires
            old(self).wf(),
        ensures
            final(self).wf(),
            final(self).spec_get(stream_id, viewer) == Some(amount),
            forall|s2: u128, v2: AccountId|
                !(s2 == stream_id && v2 == viewer) ==> final(self).spec_get(s2, v2) == old(
                    self,
                ).spec_get(s2, v2),
            final(self).sum_stream(stream_id) + prior_amount(
                old(self).spec_get(stream_id, viewer),
            ) == old(self).sum_stream(stream_id) + amount,
            forall|s2: u128|
                s2 != stream_id ==> final(self).sum_stream(s2) == old(self).sum_stream(s2),
            final(self).sum_viewer(viewer) + prior_amount(old(self).spec_get(stream_id, viewer))
                == old(self).sum_viewer(viewer) + amount,
            forall|v2: AccountId|
                v2 != viewer ==> final(self).sum_viewer(v2) == old(self).sum_viewer(v2),
    {
        let e = ResEntry { stream_id, viewer, amount };
        let n = self.entries.len();
        let mut j: usize = 0;
        while j < n
            invariant
                n == self.entries@.len(),
                j <= n,
                forall|k: int|
                    0 <= k < j ==> !(self.entries@[k].stream_id == stream_id
                        && self.entries@[k].viewer == viewer),
                self == old(self),
                self.wf(),
                e == (ResEntry { stream_id, viewer, amount }),
            decreases n - j,
        {
            if self.entries[j].stream_id == stream_id && self.entries[j].viewer == viewer {
                proof {
                    let s0 = self.entries@;
                    let i = j as int;
                    lemma_res_lookup_at(s0, i);
                    assert forall|s2: u128, v2: AccountId|
                        res_lookup(s0.update(i, e), s2, v2) == if s2 == stream_id && v2
                            == viewer {
                            Some(amount)
                        } else {
                            res_lookup(s0, s2, v2)
                        } by {
                        lemma_res_lookup_update(s0, i, e, s2, v2);
                    }
                    assert forall|s2: u128|
                        sum_by(s0.update(i, e), match_stream(s2)) + (if s0[i].stream_id == s2 {
                            s0[i].amount as nat
                        } else {
                            0
                        }) == sum_by(s0, match_stream(s2)) + (if s2 == stream_id {
                            amount as nat
                        } else {
                            0
                        }) by {
                        lemma_sum_by_update(s0, i, e, match_stream(s2));
                    }
                    assert forall|v2: AccountId|
                        sum_by(s0.update(i, e), match_viewer(v2)) + (if s0[i].viewer == v2 {
                            s0[i].amount as nat
                        } else {
                            0
                        }) == sum_by(s0, match_viewer(v2)) + (if v2 == viewer {
                            amount as nat
                        } else {
                            0
                        }) by {
                        lemma_sum_by_update(s0, i, e, match_viewer(v2));
                    }
                }
                self.entries[j] = e;
                return;
            }
            j += 1;
        }
        proof {
            let s0 = self.entries@;
            lemma_res_lookup_absent(s0, stream_id, viewer);
            assert forall|s2: u128, v2: AccountId|
                res_lookup(s0.push(e), s2, v2) == if s2 == stream_id && v2 == viewer {
                    Some(amount)
                } else {
                    res_lookup(s0, s2, v2)
                } by {
                lemma_res_lookup_push(s0, e, s2, v2);
            }
            assert forall|s2: u128|
                sum_by(s0.push(e), match_stream(s2)) == sum_by(s0, match_stream(s2)) + (if s2
                    == stream_id {
                    amount as nat
                } else {
                    0
                }) by {
                lemma_sum_by_push(s0, e, match_stream(s2));
            }
            assert forall|v2: AccountId|
                sum_by(s0.push(e), match_viewer(v2)) == sum_by(s0, match_viewer(v2)) + (if v2
                    == viewer {
                    amount as nat
                } else {
                    0
                }) by {
                lemma_sum_by_push(s0, e, match_viewer(v2));
            }
        }
        self.entries.push(e);
    }
}

/// The amount a reservation held before, or zero where none existed.
pub open spec fn prior_amount(r: Option<Balance>) -> nat {
    match r {
        Some(a) => a as nat,
        None => 0,
    }
}

} // verus!
