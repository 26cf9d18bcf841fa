use vstd::prelude::*;

use crate::table::KeyedTable;
use crate::text::copy_text;
use crate::remote::connection::{ClientType, ConnectionManager, ConnectionView, is_partner, has_partner, one_per_role};
use crate::remote::message::{WrappedMessage, MessageView, disconnect_view};

verus! {

/// Nanoseconds in a second.
pub const NANOS_PER_SECOND: u64 = 1_000_000_000;

/// When a client was last heard from, on the server's monotonic clock in
/// nanoseconds, with the kind and group it registered with.
pub struct HeartbeatRecord {
    pub last_heartbeat: u64,
    pub client_type: ClientType,
    pub group_id: String,
}

/// The value of a heartbeat record.
pub struct HeartbeatView {
    pub last_heartbeat: u64,
    pub client_type: ClientType,
    pub group_id: Seq<char>,
}

impl View for HeartbeatRecord {
    type V = HeartbeatView;

    open spec fn view(&self) -> HeartbeatView {
        HeartbeatView { last_heartbeat: self.last_heartbeat, client_type: self.client_type, group_id: self.group_id@ }
    }
}

/// The time from `earlier` to `now`, or zero when `earlier` is later.
pub open spec fn elapsed(now: u64, earlier: u64) -> int {
    if now >= earlier { now - earlier } else { 0 }
}

/// Whether a client last heard from at `last` has been silent for longer
/// than `timeout_seconds` at time `now` (both in nanoseconds).
pub open spec fn timed_out(now: u64, last: u64, timeout_seconds: u64) -> bool {
    elapsed(now, last) > timeout_seconds * NANOS_PER_SECOND
}

/// Whether one of the first `k` entries of `list` has id `id`.
pub open spec fn listed_before(list: Seq<(String, ClientType, String)>, k: int, id: Seq<char>) -> bool {
    exists|j: int| 0 <= j < k && #[trigger] list[j].0@ == id
}

/// Whether `id` is in `m` with the same value as in `m0`, or absent from
/// both; and nothing else of `m0` is changed but the ids that `gone` picks.
pub open spec fn restricted<V>(m: Map<Seq<char>, V>, m0: Map<Seq<char>, V>, gone: spec_fn(Seq<char>) -> bool) -> bool {
    &&& forall|id: Seq<char>| #[trigger] m.contains_key(id) <==> m0.contains_key(id) && !gone(id)
    &&& forall|id: Seq<char>| #[trigger] m.contains_key(id) ==> m[id] == m0[id]
}

/// The ids and messages of a list of notices.
pub open spec fn notices_view(r: Seq<(String, WrappedMessage)>) -> Seq<(Seq<char>, MessageView)> {
    r.map_values(|x: (String, WrappedMessage)| (x.0@, x.1@))
}

/// The disconnect message owed to the partner of `e`, from `e`'s record in `h`.
pub open spec fn expiry_notice(h: HeartbeatManager, e: Seq<char>) -> MessageView {
    disconnect_view(h@[e].group_id, h@[e].client_type)
}

/// Every notice in `rv` is owed: the disconnect message of a client expired
/// in `h` at `now`, for its partner in `c0`.
#[verifier::opaque]
pub open spec fn notices_sound<T>(h: HeartbeatManager, c0: Map<Seq<char>, ConnectionView<T>>, now: u64, rv: Seq<(Seq<char>, MessageView)>) -> bool {
    forall|i: int| #![trigger rv[i]] 0 <= i < rv.len() ==> exists|e: Seq<char>|
        #[trigger] h.is_expired(e, now) && is_partner(c0, e, rv[i].0) && rv[i].1 == expiry_notice(h, e)
}

/// Every client `e` picked by `upto` and expired in `h` at `now` whose
/// partner `p` in `c0` is not expired has its notice for `p` in `rv`.
#[verifier::opaque]
pub open spec fn notices_complete<T>(h: HeartbeatManager, c0: Map<Seq<char>, ConnectionView<T>>, now: u64, upto: spec_fn(Seq<char>) -> bool, rv: Seq<(Seq<char>, MessageView)>) -> bool {
    forall|e: Seq<char>, p: Seq<char>| #![trigger is_partner(c0, e, p)]
        upto(e) && h.is_expired(e, now) && is_partner(c0, e, p) && !h.is_expired(p, now)
        ==> rv.contains((p, expiry_notice(h, e)))
}

proof fn lemma_listed_step(ex: Seq<(String, ClientType, String)>, k: int)
    requires
        0 <= k < ex.len(),
    ensures
        forall|id: Seq<char>| #[trigger] listed_before(ex, k + 1, id) <==> listed_before(ex, k, id) || id == ex[k].0@,
{
    assert forall|id: Seq<char>| #[trigger] listed_before(ex, k + 1, id) <==> listed_before(ex, k, id) || id == ex[k].0@ by {
        if listed_before(ex, k + 1, id) {
            let j = choose|j: int| 0 <= j < k + 1 && #[trigger] ex[j].0@ == id;
            if j < k {
                assert(listed_before(ex, k, id));
            }
        }
        if listed_before(ex, k, id) {
            let j = choose|j: int| 0 <= j < k && #[trigger] ex[j].0@ == id;
            assert(listed_before(ex, k + 1, id));
        }
        if id == ex[k].0@ {
            assert(listed_before(ex, k + 1, id));
        }
    }
}

/// Facts shared by both outcomes of one step of the check.
spec fn check_step_pre<T>(
    h0: HeartbeatManager,
    c0: Map<Seq<char>, ConnectionView<T>>,
    cm: Map<Seq<char>, ConnectionView<T>>,
    ex: Seq<(String, ClientType, String)>,
    k: int,
    now: u64,
    rv: Seq<(Seq<char>, MessageView)>,
) -> bool {
    &&& 0 <= k < ex.len()
    &&& forall|i: int| 0 <= i < ex.len() ==> {
        let id = #[trigger] ex[i].0@;
        &&& h0.is_expired(id, now)
        &&& ex[i].1 == h0@[id].client_type
        &&& ex[i].2@ == h0@[id].group_id
    }
    &&& forall|i: int, j: int| 0 <= i < j < ex.len() ==> #[trigger] ex[i].0@ != #[trigger] ex[j].0@
    &&& restricted(cm, c0, |id: Seq<char>| listed_before(ex, k, id))
    &&& one_per_role(cm)
    &&& notices_sound(h0, c0, now, rv)
    &&& notices_complete(h0, c0, now, |id: Seq<char>| listed_before(ex, k, id), rv)
}

/// After the step for `ex[k]`, which found no partner, the notices still
/// cover every client listed up to and including `ex[k]`.
proof fn lemma_check_step_none<T>(
    h0: HeartbeatManager,
    c0: Map<Seq<char>, ConnectionView<T>>,
    cm: Map<Seq<char>, ConnectionView<T>>,
    ex: Seq<(String, ClientType, String)>,
    k: int,
    now: u64,
    rv: Seq<(Seq<char>, MessageView)>,
)
    requires
        check_step_pre(h0, c0, cm, ex, k, now, rv),
        !has_partner(cm, ex[k].0@),
    ensures
        notices_complete(h0, c0, now, |id: Seq<char>| listed_before(ex, k + 1, id), rv),
{
    reveal(notices_complete);
    lemma_listed_step(ex, k);
    let eid = ex[k].0@;
    assert forall|e: Seq<char>, p: Seq<char>| #![trigger is_partner(c0, e, p)]
        listed_before(ex, k + 1, e) && h0.is_expired(e, now) && is_partner(c0, e, p) && !h0.is_expired(p, now)
        implies rv.contains((p, expiry_notice(h0, e))) by {
        if e == eid {
            lemma_partner_still_there(h0, c0, cm, ex, k, now, p);
            assert(is_partner(cm, eid, p));
        } else {
            assert(listed_before(ex, k, e));
        }
    }
}

/// After the step for `ex[k]`, which gave the notice `(pv, mv)`, the
/// notices with it appended are owed and cover every client listed up to
/// and including `ex[k]`.
proof fn lemma_check_step_some<T>(
    h0: HeartbeatManager,
    c0: Map<Seq<char>, ConnectionView<T>>,
    cm: Map<Seq<char>, ConnectionView<T>>,
    ex: Seq<(String, ClientType, String)>,
    k: int,
    now: u64,
    rv: Seq<(Seq<char>, MessageView)>,
    pv: Seq<char>,
    mv: MessageView,
)
    requires
        check_step_pre(h0, c0, cm, ex, k, now, rv),
        is_partner(cm, ex[k].0@, pv),
        mv == disconnect_view(ex[k].2@, ex[k].1),
    ensures
        notices_sound(h0, c0, now, rv.push((pv, mv))),
        notices_complete(h0, c0, now, |id: Seq<char>| listed_before(ex, k + 1, id), rv.push((pv, mv))),
{
    reveal(notices_sound);
    reveal(notices_complete);
    lemma_listed_step(ex, k);
    let eid = ex[k].0@;
    let rv2 = rv.push((pv, mv));
    assert(h0.is_expired(eid, now));
    assert(cm.contains_key(eid) && cm.contains_key(pv));
    assert(is_partner(c0, eid, pv));
    assert forall|i: int| #![trigger rv2[i]] 0 <= i < rv2.len() implies exists|e: Seq<char>|
        #[trigger] h0.is_expired(e, now) && is_partner(c0, e, rv2[i].0) && rv2[i].1 == expiry_notice(h0, e) by {
        if i < rv.len() {
            assert(rv2[i] == rv[i]);
        } else {
            assert(rv2[i] == (pv, mv));
        }
    }
    assert forall|e: Seq<char>, p: Seq<char>| #![trigger is_partner(c0, e, p)]
        listed_before(ex, k + 1, e) && h0.is_expired(e, now) && is_partner(c0, e, p) && !h0.is_expired(p, now)
        implies rv2.contains((p, expiry_notice(h0, e))) by {
        if e == eid {
            lemma_partner_still_there(h0, c0, cm, ex, k, now, p);
            crate::laws::partner_is_unique(cm, eid, p, pv);
            assert(rv2[rv.len() as int] == (p, expiry_notice(h0, e)));
        } else {
            assert(listed_before(ex, k, e));
            let i = choose|i: int| 0 <= i < rv.len() && rv[i] == (p, expiry_notice(h0, e));
            assert(rv2[i] == rv[i]);
        }
    }
}

/// A partner in `c0` of the client `ex[k]` that is not expired is still its
/// partner in the table at the step for `ex[k]`.
proof fn lemma_partner_still_there<T>(
    h0: HeartbeatManager,
    c0: Map<Seq<char>, ConnectionView<T>>,
    cm: Map<Seq<char>, ConnectionView<T>>,
    ex: Seq<(String, ClientType, String)>,
    k: int,
    now: u64,
    p: Seq<char>,
)
    requires
        0 <= k < ex.len(),
        forall|i: int| 0 <= i < ex.len() ==> #[trigger] h0.is_expired(ex[i].0@, now),
        forall|i: int, j: int| 0 <= i < j < ex.len() ==> #[trigger] ex[i].0@ != #[trigger] ex[j].0@,
        restricted(cm, c0, |id: Seq<char>| listed_before(ex, k, id)),
        is_partner(c0, ex[k].0@, p),
        !h0.is_expired(p, now),
    ensures
        is_partner(cm, ex[k].0@, p),
{
    let eid = ex[k].0@;
    assert(!listed_before(ex, k, eid)) by {
        if listed_before(ex, k, eid) {
            let j = choose|j: int| 0 <= j < k && #[trigger] ex[j].0@ == eid;
        }
    }
    assert(!listed_before(ex, k, p)) by {
        if listed_before(ex, k, p) {
            let j = choose|j: int| 0 <= j < k && #[trigger] ex[j].0@ == p;
            assert(h0.is_expired(ex[j].0@, now));
        }
    }
    assert(cm.contains_key(eid) && cm.contains_key(p));
}

/// When every listed client has been handled, the tables and the notices
/// are as the check promises.
proof fn lemma_check_done<T>(
    h0: HeartbeatManager,
    c0: Map<Seq<char>, ConnectionView<T>>,
    ex: Seq<(String, ClientType, String)>,
    now: u64,
    rv: Seq<(Seq<char>, MessageView)>,
    hb: Map<Seq<char>, HeartbeatView>,
    cm: Map<Seq<char>, ConnectionView<T>>,
)
    requires
        forall|i: int| 0 <= i < ex.len() ==> #[trigger] h0.is_expired(ex[i].0@, now),
        forall|id: Seq<char>| #[trigger] h0.is_expired(id, now) ==> exists|i: int| 0 <= i < ex.len() && #[trigger] ex[i].0@ == id,
        restricted(hb, h0@, |id: Seq<char>| listed_before(ex, ex.len() as int, id)),
        restricted(cm, c0, |id: Seq<char>| listed_before(ex, ex.len() as int, id)),
        notices_complete(h0, c0, now, |id: Seq<char>| listed_before(ex, ex.len() as int, id), rv),
    ensures
        restricted(hb, h0@, |id: Seq<char>| h0.is_expired(id, now)),
        restricted(cm, c0, |id: Seq<char>| h0.is_expired(id, now)),
        notices_complete(h0, c0, now, |e: Seq<char>| true, rv),
{
    reveal(notices_complete);
    assert forall|id: Seq<char>| #[trigger] listed_before(ex, ex.len() as int, id) <==> h0.is_expired(id, now) by {
        if h0.is_expired(id, now) {
            let i = choose|i: int| 0 <= i < ex.len() && #[trigger] ex[i].0@ == id;
            assert(listed_before(ex, ex.len() as int, id));
        }
        if listed_before(ex, ex.len() as int, id) {
            let j = choose|j: int| 0 <= j < ex.len() && #[trigger] ex[j].0@ == id;
        }
    }
    assert forall|e: Seq<char>, p: Seq<char>| #![trigger is_partner(c0, e, p)]
        true && h0.is_expired(e, now) && is_partner(c0, e, p) && !h0.is_expired(p, now)
        implies rv.contains((p, expiry_notice(h0, e))) by {
        assert(listed_before(ex, ex.len() as int, e));
    }
}

/// The heartbeat records of the connected clients and the silence after
/// which a client is dropped.
pub struct HeartbeatManager {
    heartbeats: KeyedTable<HeartbeatRecord>,
    timeout: u64,
}

impl View for HeartbeatManager {
    type V = Map<Seq<char>, HeartbeatView>;

    closed spec fn view(&self) -> Map<Seq<char>, HeartbeatView> {
        self.heartbeats@
    }
}

impl HeartbeatManager {
    /// The silence, in seconds, after which a client is dropped.
    pub closed spec fn timeout_seconds(&self) -> u64 {
        self.timeout
    }

    pub closed spec fn wf(&self) -> bool {
        self.heartbeats.wf()
    }

    /// No records, and a timeout of `timeout_seconds`.
    pub fn new(timeout_seconds: u64) -> (r: HeartbeatManager)
        ensures
            r.wf(),
            r@ == Map::<Seq<char>, HeartbeatView>::empty(),
            r.timeout_seconds() == timeout_seconds,
    {
        HeartbeatManager { heartbeats: KeyedTable::new(), timeout: timeout_seconds }
    }

    /// Records that `client_id` was heard from at `now`.
    pub fn update_heartbeat(&mut self, client_id: &str, client_type: ClientType, group_id: String, now: u64)
        requires
            old(self).wf(),
        ensures
            final(self).wf(),
            final(self).timeout_seconds() == old(self).timeout_seconds(),
            final(self)@ == old(self)@.insert(client_id@, HeartbeatView { last_heartbeat: now, client_type, group_id: group_id@ }),
    {
        self.heartbeats.insert(String::from_str(client_id), HeartbeatRecord { last_heartbeat: now, client_type, group_id });
    }

    /// Forgets the record of `client_id`.
    pub fn remove_heartbeat(&mut self, client_id: &str)
        requires
            old(self).wf(),
        ensures
            final(self).wf(),
            final(self).timeout_seconds() == old(self).timeout_seconds(),
            final(self)@ == old(self)@.remove(client_id@),
    {
        let _ = self.heartbeats.remove(client_id);
    }

    /// Drops `client_id`, silent for too long, from the connection table and
    /// from the records, and gives back the notice owed to its partner: the
    /// partner's id and the disconnect message for a client of kind
    /// `client_type` in group `group_id`. `None` when it had no partner.
    pub fn expire_client<T>(&mut self, connections: &mut ConnectionManager<T>, client_id: &str, client_type: ClientType, group_id: String) -> (r: Option<(String, WrappedMessage)>)
        requires
            old(self).wf(),
            old(connections).wf(),
        ensures
            final(self).wf(),
            final(connections).wf(),
            final(self).timeout_seconds() == old(self).timeout_seconds(),
            final(self)@ == old(self)@.remove(client_id@),
            final(connections)@ == old(connections)@.remove(client_id@),
            r is Some <==> has_partner(old(connections)@, client_id@),
            r matches Some((p, m)) ==> {
                &&& is_partner(old(connections)@, client_id@, p@)
                &&& final(connections)@.contains_key(p@)
                &&& m@ == disconnect_view(group_id@, client_type)
            },
    {
        let mut notice: Option<(String, WrappedMessage)> = None;
        if let Some((partner_id, _)) = connections.find_partner(client_id) {
            if let Some((_, msg)) = connections.notify_partner_disconnect(partner_id.as_str(), client_type, group_id) {
                notice = Some((partner_id, msg));
            }
        }
        let _ = connections.remove_connection(client_id);
        self.remove_heartbeat(client_id);
        notice
    }

    /// One check of the heartbeats at `now`: every client silent for longer
    /// than the timeout is dropped from the records and from the connection
    /// table, and no other; each notice in the result is the disconnect
    /// message of a dropped client for its partner; a partner that is not
    /// itself dropped gets one.
    #[verifier::rlimit(50)]
    pub fn check_heartbeats<T>(&mut self, connections: &mut ConnectionManager<T>, now: u64) -> (r: Vec<(String, WrappedMessage)>)
        requires
            old(self).wf(),
            old(connections).wf(),
        ensures
            final(self).wf(),
            final(connections).wf(),
            final(self).timeout_seconds() == old(self).timeout_seconds(),
            restricted(final(self)@, old(self)@, |id: Seq<char>| old(self).is_expired(id, now)),
            restricted(final(connections)@, old(connections)@, |id: Seq<char>| old(self).is_expired(id, now)),
            notices_sound(*old(self), old(connections)@, now, notices_view(r@)),
            notices_complete(*old(self), old(connections)@, now, |e: Seq<char>| true, notices_view(r@)),
    {
        let ghost h0 = *self;
        let ghost c0 = connections@;
        let expired = self.expired_clients(now);
        let ghost ex = expired@;
        let mut r: Vec<(String, WrappedMessage)> = Vec::new();
        proof {
            reveal(notices_sound);
            reveal(notices_complete);
            assert(notices_view(r@) =~= seq![]);
        }
        let n = expired.len();
        let mut k: usize = 0;
        while k < n
            invariant
                n == ex.len(),
                expired@ == ex,
                k <= n,
                self.wf(),
                connections.wf(),
                self.timeout_seconds() == h0.timeout_seconds(),
                forall|i: int| 0 <= i < ex.len() ==> {
                    let id = #[trigger] ex[i].0@;
                    &&& h0.is_expired(id, now)
                    &&& ex[i].1 == h0@[id].client_type
                    &&& ex[i].2@ == h0@[id].group_id
                },
                forall|i: int, j: int| 0 <= i < j < ex.len() ==> #[trigger] ex[i].0@ != #[trigger] ex[j].0@,
                restricted(self@, h0@, |id: Seq<char>| listed_before(ex, k as int, id)),
                restricted(connections@, c0, |id: Seq<char>| listed_before(ex, k as int, id)),
                notices_sound(h0, c0, now, notices_view(r@)),
                notices_complete(h0, c0, now, |id: Seq<char>| listed_before(ex, k as int, id), notices_view(r@)),
            decreases n - k,
        {
            let ghost cm_before = connections@;
            let ghost rv_before = notices_view(r@);
            let (e, t, g) = (&expired[k].0, expired[k].1, copy_text(&expired[k].2));
            let ghost eid = e@;
            proof {
                connections.lemma_one_per_role();
                assert(h0.is_expired(ex[k as int].0@, now));
            }
            let notice = self.expire_client(connections, e.as_str(), t, g);
            proof {
                lemma_listed_step(ex, k as int);
            }
            match notice {
                None => {
                    proof {
                        lemma_check_step_none(h0, c0, cm_before, ex, k as int, now, rv_before);
                    }
                },
                Some((p, m)) => {
                    let ghost pv = p@;
                    let ghost mv = m@;
                    r.push((p, m));
                    proof {
                        assert(notices_view(r@) =~= rv_before.push((pv, mv)));
                        lemma_check_step_some(h0, c0, cm_before, ex, k as int, now, rv_before, pv, mv);
                    }
                },
            }
            k = k + 1;
        }
        proof {
            lemma_check_done(h0, c0, ex, now, notices_view(r@), self@, connections@);
        }
        r
    }

    /// Whether the record of `client_id` is older than the timeout at `now`.
    pub open spec fn is_expired(&self, client_id: Seq<char>, now: u64) -> bool {
        self@.contains_key(client_id) && timed_out(now, self@[client_id].last_heartbeat, self.timeout_seconds())
    }

    /// The clients silent for longer than the timeout at `now`, each with the
    /// kind and group of its record; every such client once.
    pub fn expired_clients(&self, now: u64) -> (r: Vec<(String, ClientType, String)>)
        requires
            self.wf(),
        ensures
            forall|i: int| 0 <= i < r@.len() ==> {
                let id = #[trigger] r@[i].0@;
                &&& self.is_expired(id, now)
                &&& r@[i].1 == self@[id].client_type
                &&& r@[i].2@ == self@[id].group_id
            },
            forall|id: Seq<char>| #[trigger] self.is_expired(id, now) ==> exists|i: int| 0 <= i < r@.len() && #[trigger] r@[i].0@ == id,
            forall|i: int, j: int| 0 <= i < j < r@.len() ==> #[trigger] r@[i].0@ != #[trigger] r@[j].0@,
    {
        let mut r: Vec<(String, ClientType, String)> = Vec::new();
        let n = self.heartbeats.size();
        let timeout: u128 = self.timeout as u128;
        assert(timeout * 1_000_000_000 <= 0xffff_ffff_ffff_ffff_ffff_ffff_ffff_ffff) by (nonlinear_arith)
            requires
                timeout <= 0xffff_ffff_ffff_ffff,
        ;
        let limit: u128 = timeout * (NANOS_PER_SECOND as u128);
        let mut i: usize = 0;
        while i < n
            invariant
                self.wf(),
                n == self.heartbeats.len(),
                i <= n,
                limit == self.timeout_seconds() * NANOS_PER_SECOND,
                forall|k: int| 0 <= k < r@.len() ==> {
                    let id = #[trigger] r@[k].0@;
                    &&& self.is_expired(id, now)
                    &&& r@[k].1 == self@[id].client_type
                    &&& r@[k].2@ == self@[id].group_id
                },
                forall|k: int| 0 <= k < r@.len() ==> exists|j: int| 0 <= j < i && #[trigger] r@[k].0@ == self.heartbeats.key_at(j),
                forall|j: int| 0 <= j < i && #[trigger] self.is_expired(self.heartbeats.key_at(j), now)
                    ==> exists|k: int| 0 <= k < r@.len() && #[trigger] r@[k].0@ == self.heartbeats.key_at(j),
                forall|a: int, b: int| 0 <= a < b < r@.len() ==> #[trigger] r@[a].0@ != #[trigger] r@[b].0@,
            decreases n - i,
        {
            let (id, record) = self.heartbeats.entry(i);
            proof { self.heartbeats.lemma_entry(i as int); }
            let gap: u64 = if now >= record.last_heartbeat { now - record.last_heartbeat } else { 0 };
            if (gap as u128) > limit {
                let ghost old_r = r@;
                proof {
                    assert forall|k: int| 0 <= k < old_r.len() implies old_r[k].0@ != id@ by {
                        let j = choose|j: int| 0 <= j < i && #[trigger] old_r[k].0@ == self.heartbeats.key_at(j);
                        self.heartbeats.lemma_distinct(j, i as int);
                    }
                }
                r.push((copy_text(id), record.client_type, copy_text(&record.group_id)));
                proof {
                    assert(r@[old_r.len() as int].0@ == self.heartbeats.key_at(i as int));
                    assert forall|k: int| 0 <= k < r@.len() implies exists|j: int| 0 <= j < i + 1 && #[trigger] r@[k].0@ == self.heartbeats.key_at(j) by {
                        if k < old_r.len() {
                            assert(r@[k] == old_r[k]);
                        } else {
                            assert(r@[k].0@ == self.heartbeats.key_at(i as int));
                        }
                    }
                    assert forall|j: int| 0 <= j < i + 1 && #[trigger] self.is_expired(self.heartbeats.key_at(j), now)
                        implies exists|k: int| 0 <= k < r@.len() && #[trigger] r@[k].0@ == self.heartbeats.key_at(j) by {
                        if j < i {
                            let k = choose|k: int| 0 <= k < old_r.len() && #[trigger] old_r[k].0@ == self.heartbeats.key_at(j);
                            assert(r@[k] == old_r[k]);
                        } else {
                            assert(r@[old_r.len() as int].0@ == self.heartbeats.key_at(j));
                        }
                    }
                }
            }
            i = i + 1;
        }
        proof {
            assert forall|id: Seq<char>| #[trigger] self.is_expired(id, now) implies exists|k: int| 0 <= k < r@.len() && #[trigger] r@[k].0@ == id by {
                let j = self.heartbeats.lemma_key(id);
                assert(self.is_expired(self.heartbeats.key_at(j), now));
            }
        }
        r
    }
}

} // verus!
