//! Session admission: a limit on concurrent sessions and the table of live ones.
use vstd::prelude::*;
use crate::text::{string_of, text_eq};

verus! {

/// Error when no session slot is available.
#[derive(Debug, Clone, Copy, PartialEq, Eq)]
pub enum LimitError {
    Full,
}

impl LimitError {
    /// The text this error displays as.
    pub fn to_text(&self) -> (r: String)
        ensures
            r@ == "session limit reached"@,
    {
        string_of("session limit reached")
    }
}

/// Proof that one session slot is held; give it back with
/// [`SessionLimiter::release`] to the limiter it came from.
pub struct SessionPermit {
    serial: Ghost<nat>,
}

impl SessionPermit {
    /// Serial number of this permit among those its limiter handed out.
    pub closed spec fn serial(&self) -> nat {
        self.serial@
    }
}

/// Limits the number of concurrent sessions; a maximum of 0 means unlimited.
pub struct SessionLimiter {
    max_sessions: usize,
    active: usize,
    next_serial: Ghost<nat>,
    outstanding: Ghost<Set<nat>>,
}

/// A limiter with `max` slots and `active` of them held is full.
pub open spec fn limiter_full(max: usize, active: usize) -> bool {
    max > 0 && active >= max
}

impl SessionLimiter {
    /// Slots held are the permits handed out and not given back, never more
    /// than the maximum when there is one.
    #[verifier::type_invariant]
    spec fn inv(&self) -> bool {
        &&& self.max_sessions == 0 || self.active <= self.max_sessions
        &&& self.outstanding@.finite()
        &&& self.outstanding@.len() == self.active
        &&& forall|s: nat| self.outstanding@.contains(s) ==> s < self.next_serial@
    }

    /// The maximum number of concurrent sessions (0: unlimited).
    pub closed spec fn max(&self) -> usize {
        self.max_sessions
    }

    /// Number of slots held.
    pub closed spec fn active_count(&self) -> usize {
        self.active
    }

    /// Serials of the permits handed out and not given back.
    pub closed spec fn outstanding(&self) -> Set<nat> {
        self.outstanding@
    }

    /// A limiter with at most `max_sessions` concurrent permits (0: unlimited).
    pub fn new(max_sessions: usize) -> (r: SessionLimiter)
        ensures
            r.max() == max_sessions,
            r.active_count() == 0,
            r.outstanding() == Set::<nat>::empty(),
    {
        SessionLimiter {
            max_sessions,
            active: 0,
            next_serial: Ghost(0),
            outstanding: Ghost(Set::empty()),
        }
    }

    /// Take a slot, or fail with `Full` when the limit is reached.
    pub fn try_acquire(&mut self) -> (r: Result<SessionPermit, LimitError>)
        requires
            old(self).max() > 0 || old(self).active_count() < usize::MAX,
        ensures
            final(self).max() == old(self).max(),
            r is Err <==> limiter_full(old(self).max(), old(self).active_count()),
            r is Err ==> *final(self) == *old(self),
            r matches Ok(p) ==> final(self).active_count() == old(self).active_count() + 1
                && !old(self).outstanding().contains(p.serial()) && final(self).outstanding()
                == old(self).outstanding().insert(p.serial()),
    {
        proof {
            use_type_invariant(&*self);
        }
        if self.max_sessions > 0 && self.active >= self.max_sessions {
            return Err(LimitError::Full);
        }
        let ghost s = self.next_serial@;
        proof {
            assert(!self.outstanding@.contains(s));
        }
        *self = SessionLimiter {
            max_sessions: self.max_sessions,
            active: self.active + 1,
            next_serial: Ghost(s + 1),
            outstanding: Ghost(self.outstanding@.insert(s)),
        };
        Ok(SessionPermit { serial: Ghost(s) })
    }

    /// Take a slot; same rule as [`Self::try_acquire`].
    pub fn acquire(&mut self) -> (r: Result<SessionPermit, LimitError>)
        requires
            old(self).max() > 0 || old(self).active_count() < usize::MAX,
        ensures
            final(self).max() == old(self).max(),
            r is Err <==> limiter_full(old(self).max(), old(self).active_count()),
            r is Err ==> *final(self) == *old(self),
            r matches Ok(p) ==> final(self).active_count() == old(self).active_count() + 1
                && !old(self).outstanding().contains(p.serial()) && final(self).outstanding()
                == old(self).outstanding().insert(p.serial()),
    {
        self.try_acquire()
    }

    /// Give back a permit this limiter handed out: its slot is free again.
    pub fn release(&mut self, permit: SessionPermit)
        requires
            old(self).outstanding().contains(permit.serial()),
        ensures
            final(self).max() == old(self).max(),
            final(self).active_count() == old(self).active_count() - 1,
            final(self).outstanding() == old(self).outstanding().remove(permit.serial()),
    {
        proof {
            use_type_invariant(&*self);
        }
        let SessionPermit { serial } = permit;
        proof {
            assert(self.outstanding@.len() > 0) by {
                vstd::set_lib::lemma_set_empty_equivalency_len(self.outstanding@);
            }
        }
        *self = SessionLimiter {
            max_sessions: self.max_sessions,
            active: self.active - 1,
            next_serial: Ghost(self.next_serial@),
            outstanding: Ghost(self.outstanding@.remove(serial@)),
        };
    }

    /// Number of slots held: the permits handed out and not given back.
    pub fn active_sessions(&self) -> (r: usize)
        ensures
            r == self.active_count(),
            r == self.outstanding().len(),
            self.max() > 0 ==> r <= self.max(),
    {
        proof {
            use_type_invariant(self);
        }
        self.active
    }

    /// The maximum number of concurrent sessions (0: unlimited).
    pub fn max_sessions(&self) -> (r: usize)
        ensures
            r == self.max(),
    {
        self.max_sessions
    }
}

/// Taking a slot and giving it back leaves the limiter's outstanding permits
/// as they were; a full limiter refuses, and one without a maximum never is
/// full.
pub proof fn law_acquire_release(outstanding: Set<nat>, serial: nat, max: usize, active: usize)
    requires
        !outstanding.contains(serial),
    ensures
        outstanding.insert(serial).remove(serial) == outstanding,
        max == 0 ==> !limiter_full(max, active),
        max > 0 && active >= max ==> limiter_full(max, active),
{
    assert(outstanding.insert(serial).remove(serial) =~= outstanding);
}

/// A lowercase hexadecimal digit.
pub open spec fn is_lower_hex(c: char) -> bool {
    ('0' <= c && c <= '9') || ('a' <= c && c <= 'f')
}

/// The hyphenated lowercase text of a random (version 4, RFC 4122 variant)
/// UUID: 8-4-4-4-12 hex digits, version digit `4`, variant digit one of
/// `8`, `9`, `a`, `b`.
pub open spec fn uuid_v4_text(s: Seq<char>) -> bool {
    &&& s.len() == 36
    &&& forall|i: int|
        0 <= i < 36 ==> if i == 8 || i == 13 || i == 18 || i == 23 {
            s[i] == '-'
        } else {
            is_lower_hex(#[trigger] s[i])
        }
    &&& s[14] == '4'
    &&& (s[19] == '8' || s[19] == '9' || s[19] == 'a' || s[19] == 'b')
}

/// A fresh random session id: calls `uuid::Uuid::new_v4` and its `Display`,
/// which writes the hyphenated lowercase form. `new_v4` sets the version
/// and variant bits, so every outcome has that layout; which id comes out
/// is not claimed.
#[verifier::external_body]
fn new_session_id() -> (r: String)
    ensures
        uuid_v4_text(r@),
{
    uuid::Uuid::new_v4().to_string()
}

/// A live session: its id, its service and the slot it holds.
pub struct SessionEntry<S> {
    pub session_id: String,
    pub service: S,
    pub permit: SessionPermit,
}

/// No two entries share a session id.
pub open spec fn unique_ids<S>(entries: Seq<SessionEntry<S>>) -> bool {
    forall|i: int, j: int|
        0 <= i < j < entries.len() ==> (#[trigger] entries[i]).session_id@ != (#[trigger] entries[j]).session_id@
}

/// The service of the entry with session id `id`, if there is one.
pub open spec fn service_in<S>(entries: Seq<SessionEntry<S>>, id: Seq<char>) -> Option<S> {
    if exists|i: int| 0 <= i < entries.len() && (#[trigger] entries[i]).session_id@ == id {
        Some(entries[choose|i: int| 0 <= i < entries.len() && (#[trigger] entries[i]).session_id@ == id].service)
    } else {
        None
    }
}

/// With unique ids, the service under an entry's id is that entry's service.
pub proof fn lemma_service_in_at<S>(entries: Seq<SessionEntry<S>>, i: int)
    requires
        unique_ids(entries),
        0 <= i < entries.len(),
    ensures
        service_in(entries, entries[i].session_id@) == Some(entries[i].service),
{
    let id = entries[i].session_id@;
    assert(0 <= i < entries.len() && entries[i].session_id@ == id);
    let j = choose|j: int| 0 <= j < entries.len() && (#[trigger] entries[j]).session_id@ == id;
    if j < i {
        assert(entries[j].session_id@ != entries[i].session_id@);
    } else if i < j {
        assert(entries[i].session_id@ != entries[j].session_id@);
    }
}

/// Removing one entry keeps the other ids unique.
pub proof fn lemma_unique_ids_remove<S>(entries: Seq<SessionEntry<S>>, k: int)
    requires
        unique_ids(entries),
        0 <= k < entries.len(),
    ensures
        unique_ids(entries.remove(k)),
{
    let rest = entries.remove(k);
    assert forall|a: int, b: int| 0 <= a < b < rest.len() implies (#[trigger] rest[a]).session_id@
        != (#[trigger] rest[b]).session_id@ by {
        let a0 = if a < k { a } else { a + 1 };
        let b0 = if b < k { b } else { b + 1 };
        assert(rest[a] == entries[a0] && rest[b] == entries[b0]);
        assert(entries[a0].session_id@ != entries[b0].session_id@);
    }
}

/// Removing one entry keeps the service under every other id.
pub proof fn lemma_service_in_remove<S>(entries: Seq<SessionEntry<S>>, k: int, x: Seq<char>)
    requires
        unique_ids(entries),
        0 <= k < entries.len(),
        x != entries[k].session_id@,
    ensures
        service_in(entries.remove(k), x) == service_in(entries, x),
{
    let rest = entries.remove(k);
    lemma_unique_ids_remove(entries, k);
    if exists|i: int| 0 <= i < entries.len() && (#[trigger] entries[i]).session_id@ == x {
        let i = choose|i: int| 0 <= i < entries.len() && (#[trigger] entries[i]).session_id@ == x;
        lemma_service_in_at(entries, i);
        let i1 = if i < k { i } else { i - 1 };
        assert(rest[i1] == entries[i]);
        lemma_service_in_at(rest, i1);
    } else {
        assert forall|i: int| 0 <= i < rest.len() implies (#[trigger] rest[i]).session_id@ != x by {
            let i0 = if i < k { i } else { i + 1 };
            assert(rest[i] == entries[i0]);
        }
    }
}

/// Appending an entry keeps the service under every other id.
pub proof fn lemma_service_in_push<S>(entries: Seq<SessionEntry<S>>, e: SessionEntry<S>, x: Seq<char>)
    requires
        unique_ids(entries),
        x != e.session_id@,
    ensures
        service_in(entries.push(e), x) == service_in(entries, x),
{
    let all = entries.push(e);
    if exists|i: int| 0 <= i < entries.len() && (#[trigger] entries[i]).session_id@ == x {
        let i = choose|i: int| 0 <= i < entries.len() && (#[trigger] entries[i]).session_id@ == x;
        lemma_service_in_at(entries, i);
        assert(all[i] == entries[i]);
        let j = choose|j: int| 0 <= j < all.len() && (#[trigger] all[j]).session_id@ == x;
        if j != i {
            assert(j < entries.len());
            assert(all[j] == entries[j]);
            if j < i {
                assert(entries[j].session_id@ != entries[i].session_id@);
            } else {
                assert(entries[i].session_id@ != entries[j].session_id@);
            }
        }
    } else {
        assert forall|i: int| 0 <= i < all.len() implies (#[trigger] all[i]).session_id@ != x by {
            if i < entries.len() {
                assert(all[i] == entries[i]);
            }
        }
    }
}

/// The entries hold distinct permits, each one outstanding in `outstanding`.
pub open spec fn permits_held<S>(entries: Seq<SessionEntry<S>>, outstanding: Set<nat>) -> bool {
    &&& forall|i: int| 0 <= i < entries.len() ==> outstanding.contains(#[trigger] entries[i].permit.serial())
    &&& forall|i: int, j: int|
        0 <= i < j < entries.len() ==> (#[trigger] entries[i]).permit.serial() != (#[trigger] entries[j]).permit.serial()
}

proof fn lemma_permits_remove<S>(entries: Seq<SessionEntry<S>>, outstanding: Set<nat>, k: int)
    requires
        permits_held(entries, outstanding),
        0 <= k < entries.len(),
    ensures
        permits_held(entries.remove(k), outstanding.remove(entries[k].permit.serial())),
{
    let rest = entries.remove(k);
    assert forall|i: int| 0 <= i < rest.len() implies outstanding.remove(entries[k].permit.serial()).contains(
        #[trigger] rest[i].permit.serial(),
    ) by {
        let i0 = if i < k { i } else { i + 1 };
        assert(rest[i] == entries[i0]);
        if i0 < k {
            assert(entries[i0].permit.serial() != entries[k].permit.serial());
        } else {
            assert(entries[k].permit.serial() != entries[i0].permit.serial());
        }
    }
    assert forall|a: int, b: int| 0 <= a < b < rest.len() implies (#[trigger] rest[a]).permit.serial()
        != (#[trigger] rest[b]).permit.serial() by {
        let a0 = if a < k { a } else { a + 1 };
        let b0 = if b < k { b } else { b + 1 };
        assert(rest[a] == entries[a0] && rest[b] == entries[b0]);
        assert(entries[a0].permit.serial() != entries[b0].permit.serial());
    }
}

proof fn lemma_permits_push<S>(entries: Seq<SessionEntry<S>>, outstanding: Set<nat>, e: SessionEntry<S>)
    requires
        permits_held(entries, outstanding),
        !outstanding.contains(e.permit.serial()),
    ensures
        permits_held(entries.push(e), outstanding.insert(e.permit.serial())),
{
    let all = entries.push(e);
    assert forall|i: int| 0 <= i < all.len() implies outstanding.insert(e.permit.serial()).contains(
        #[trigger] all[i].permit.serial(),
    ) by {
        if i < entries.len() {
            assert(all[i] == entries[i]);
        }
    }
    assert forall|a: int, b: int| 0 <= a < b < all.len() implies (#[trigger] all[a]).permit.serial()
        != (#[trigger] all[b]).permit.serial() by {
        assert(all[a] == entries[a]);
        if b < entries.len() {
            assert(all[b] == entries[b]);
        } else {
            assert(outstanding.contains(entries[a].permit.serial()));
        }
    }
}

proof fn lemma_permits_add_new<S>(entries: Seq<SessionEntry<S>>, outstanding: Set<nat>, e: SessionEntry<S>)
    requires
        permits_held(entries, outstanding),
        outstanding.contains(e.permit.serial()),
        forall|i: int| 0 <= i < entries.len() ==> (#[trigger] entries[i]).permit.serial() != e.permit.serial(),
    ensures
        permits_held(entries.push(e), outstanding),
{
    let all = entries.push(e);
    assert forall|i: int| 0 <= i < all.len() implies outstanding.contains(#[trigger] all[i].permit.serial()) by {
        if i < entries.len() {
            assert(all[i] == entries[i]);
        }
    }
    assert forall|a: int, b: int| 0 <= a < b < all.len() implies (#[trigger] all[a]).permit.serial()
        != (#[trigger] all[b]).permit.serial() by {
        assert(all[a] == entries[a]);
        if b < entries.len() {
            assert(all[b] == entries[b]);
        }
    }
}

/// Table of live sessions under a [`SessionLimiter`].
pub struct ServiceManager<S> {
    pub limiter: SessionLimiter,
    pub sessions: Vec<SessionEntry<S>>,
}

impl<S> ServiceManager<S> {
    /// Ids of the live sessions, in connection order.
    pub open spec fn ids(&self) -> Seq<Seq<char>> {
        self.sessions@.map_values(|e: SessionEntry<S>| e.session_id@)
    }

    /// The service of live session `id`, if there is one.
    pub open spec fn service_of(&self, id: Seq<char>) -> Option<S> {
        service_in(self.sessions@, id)
    }

    /// Each live session holds its own outstanding permit of the limiter,
    /// one slot per live session, ids unique, limit kept.
    pub open spec fn wf(&self) -> bool {
        &&& self.limiter.max() == 0 || self.limiter.active_count() <= self.limiter.max()
        &&& self.limiter.active_count() == self.sessions@.len()
        &&& unique_ids(self.sessions@)
        &&& permits_held(self.sessions@, self.limiter.outstanding())
    }

    /// A table admitting at most `max_sessions` live sessions (0: unlimited).
    pub fn new(max_sessions: usize) -> (r: ServiceManager<S>)
        ensures
            r.wf(),
            r.ids().len() == 0,
            r.limiter.max() == max_sessions,
    {
        ServiceManager { limiter: SessionLimiter::new(max_sessions), sessions: Vec::new() }
    }

    fn position(&self, session_id: &str) -> (r: Option<usize>)
        ensures
            match r {
                Some(i) => i < self.sessions@.len() && self.sessions@[i as int].session_id@ == session_id@,
                None => forall|k: int| 0 <= k < self.sessions@.len() ==> (#[trigger] self.sessions@[k]).session_id@
                    != session_id@,
            },
    {
        let mut i: usize = 0;
        while i < self.sessions.len()
            invariant
                i <= self.sessions@.len(),
                forall|k: int| 0 <= k < i ==> (#[trigger] self.sessions@[k]).session_id@ != session_id@,
            decreases self.sessions@.len() - i,
        {
            if text_eq(self.sessions[i].session_id.as_str(), session_id) {
                return Some(i);
            }
            i = i + 1;
        }
        None
    }

    /// Take the entry of session `session_id` out of the table.
    fn take_entry(&mut self, session_id: &str) -> (r: Option<SessionEntry<S>>)
        requires
            unique_ids(old(self).sessions@),
        ensures
            final(self).limiter == old(self).limiter,
            unique_ids(final(self).sessions@),
            r is None ==> final(self).sessions@ == old(self).sessions@ && old(self).service_of(session_id@) is None,
            r matches Some(e) ==> exists|i: int|
                0 <= i < old(self).sessions@.len() && old(self).sessions@[i] == e && e.session_id@ == session_id@
                    && final(self).sessions@ == old(self).sessions@.remove(i),
            r matches Some(e) ==> old(self).service_of(session_id@) == Some(e.service),
            final(self).service_of(session_id@) is None,
            forall|x: Seq<char>| x != session_id@ ==> #[trigger] final(self).service_of(x) == old(self).service_of(x),
    {
        let ghost before = self.sessions@;
        match self.position(session_id) {
            None => {
                assert(!(exists|i: int| 0 <= i < before.len() && (#[trigger] before[i]).session_id@ == session_id@));
                None
            },
            Some(i) => {
                let entry = self.sessions.remove(i);
                proof {
                    assert(self.sessions@ =~= before.remove(i as int));
                    lemma_service_in_at(before, i as int);
                    assert forall|x: Seq<char>| x != session_id@ implies #[trigger] service_in(self.sessions@, x)
                        == service_in(before, x) by {
                        lemma_service_in_remove(before, i as int, x);
                    }
                    lemma_unique_ids_remove(before, i as int);
                    assert forall|k: int| 0 <= k < self.sessions@.len() implies (#[trigger] self.sessions@[k]).session_id@
                        != session_id@ by {
                        let k0 = if k < i { k } else { k + 1 };
                        assert(self.sessions@[k] == before[k0]);
                        if k0 < i {
                            assert(before[k0].session_id@ != before[i as int].session_id@);
                        } else {
                            assert(before[i as int].session_id@ != before[k0].session_id@);
                        }
                    }
                }
                Some(entry)
            },
        }
    }

    /// Remove session `session_id`, giving its slot back; returns its service.
    /// The other sessions keep their services and their order.
    pub fn disconnect(&mut self, session_id: &str) -> (r: Option<S>)
        requires
            old(self).wf(),
        ensures
            final(self).wf(),
            final(self).limiter.max() == old(self).limiter.max(),
            r == old(self).service_of(session_id@),
            r is None ==> final(self).sessions@ == old(self).sessions@ && final(self).limiter == old(self).limiter,
            r is Some ==> exists|i: int|
                0 <= i < old(self).sessions@.len() && old(self).sessions@[i].session_id@ == session_id@
                    && final(self).sessions@ == old(self).sessions@.remove(i),
            r is Some ==> final(self).limiter.active_count() == old(self).limiter.active_count() - 1,
            final(self).service_of(session_id@) is None,
            forall|x: Seq<char>| x != session_id@ ==> #[trigger] final(self).service_of(x) == old(self).service_of(x),
    {
        proof {
            use_type_invariant(&self.limiter);
        }
        let ghost before = self.sessions@;
        let taken = self.take_entry(session_id);
        let ghost mid = *self;
        let r = match taken {
            None => None,
            Some(entry) => {
                proof {
                    let i = choose|i: int|
                        0 <= i < before.len() && before[i] == entry && entry.session_id@ == session_id@
                            && mid.sessions@ == before.remove(i);
                    lemma_permits_remove(before, self.limiter.outstanding(), i);
                }
                let SessionEntry { session_id: _, service, permit } = entry;
                self.limiter.release(permit);
                Some(service)
            },
        };
        proof {
            assert(self.sessions@ == mid.sessions@);
            assert forall|x: Seq<char>| x != session_id@ implies #[trigger] self.service_of(x) == old(
                self,
            ).service_of(x) by {
                assert(mid.service_of(x) == old(self).service_of(x));
            }
        }
        r
    }

    /// Admit a new session: take a slot, draw a fresh id and build its
    /// service with `build`. Fails with `Full` when the limit is reached.
    /// Every session with another id keeps its entry, in order; the new one
    /// comes last.
    pub fn connect<F: FnOnce(String) -> S>(&mut self, build: F) -> (r: Result<String, LimitError>)
        requires
            old(self).wf(),
            forall|s: String| build.requires((s,)),
            old(self).limiter.max() > 0 || old(self).sessions@.len() < usize::MAX,
        ensures
            final(self).wf(),
            final(self).limiter.max() == old(self).limiter.max(),
            r is Err <==> limiter_full(old(self).limiter.max(), old(self).limiter.active_count()),
            r is Err ==> final(self).sessions@ == old(self).sessions@ && final(self).limiter == old(self).limiter,
            r matches Ok(id) ==> uuid_v4_text(id@) && final(self).sessions@.last().session_id@ == id@ && exists|
                s: String,
            | s@ == id@ && build.ensures((s,), final(self).sessions@.last().service),
            r matches Ok(id) ==> final(self).service_of(id@) == Some(final(self).sessions@.last().service),
            r matches Ok(id) ==> forall|x: Seq<char>|
                x != id@ ==> #[trigger] final(self).service_of(x) == old(self).service_of(x),
            r matches Ok(id) ==> (old(self).service_of(id@) is None ==> final(self).sessions@.drop_last()
                == old(self).sessions@),
            r matches Ok(id) ==> (old(self).service_of(id@) is Some ==> exists|k: int|
                0 <= k < old(self).sessions@.len() && old(self).sessions@[k].session_id@ == id@
                    && final(self).sessions@.drop_last() == old(self).sessions@.remove(k)),
    {
        proof {
            use_type_invariant(&self.limiter);
        }
        let permit = match self.limiter.acquire() {
            Ok(p) => p,
            Err(e) => return Err(e),
        };
        let ghost o0 = old(self).limiter.outstanding();
        let ghost serial = permit.serial();
        let id = new_session_id();
        let ghost before = self.sessions@;
        proof {
            assert(before == old(self).sessions@);
            assert forall|i: int| 0 <= i < before.len() implies self.limiter.outstanding().contains(
                #[trigger] before[i].permit.serial(),
            ) by {
                assert(o0.contains(before[i].permit.serial()));
            }
        }
        let ghost pre = *self;
        let taken = self.take_entry(id.as_str());
        let ghost post = *self;
        match taken {
            Some(entry) => {
                proof {
                    let i = choose|i: int|
                        0 <= i < before.len() && before[i] == entry && entry.session_id@ == id@
                            && post.sessions@ == before.remove(i);
                    lemma_permits_remove(before, self.limiter.outstanding(), i);
                }
                let SessionEntry { session_id: _, service: _, permit: old_permit } = entry;
                self.limiter.release(old_permit);
            },
            None => {},
        }
        let ghost mid = self.sessions@;
        proof {
            assert(post.sessions@ == mid);
            assert forall|k: int| 0 <= k < mid.len() implies (#[trigger] mid[k]).permit.serial() != serial by {
                if post.sessions@ == before {
                    assert(o0.contains(before[k].permit.serial()));
                } else {
                    let i = choose|i: int|
                        0 <= i < before.len() && before[i].session_id@ == id@ && post.sessions@ == before.remove(i);
                    let k0 = if k < i { k } else { k + 1 };
                    assert(mid[k] == before[k0]);
                    assert(o0.contains(before[k0].permit.serial()));
                }
            }
            assert(self.limiter.outstanding().contains(serial));
        }
        let arg = id.clone();
        let ghost arg_v = arg;
        let service = build(arg);
        let entry = SessionEntry { session_id: id.clone(), service, permit };
        let ghost e = entry;
        self.sessions.push(entry);
        proof {
            assert(self.sessions@ =~= mid.push(e));
            assert(self.sessions@.drop_last() =~= mid);
            assert(build.ensures((arg_v,), self.sessions@.last().service));
            lemma_permits_add_new(mid, self.limiter.outstanding(), e);
            assert forall|a: int, b: int| 0 <= a < b < self.sessions@.len() implies (#[trigger] self.sessions@[a]).session_id@
                != (#[trigger] self.sessions@[b]).session_id@ by {
                if b == self.sessions@.len() - 1 {
                    assert(self.sessions@[a] == mid[a]);
                    assert(mid[a].session_id@ != id@);
                } else {
                    assert(self.sessions@[a] == mid[a] && self.sessions@[b] == mid[b]);
                }
            }
            lemma_service_in_at(self.sessions@, self.sessions@.len() - 1);
            assert forall|x: Seq<char>| x != id@ implies #[trigger] service_in(self.sessions@, x) == service_in(
                before,
                x,
            ) by {
                lemma_service_in_push(mid, e, x);
                assert(post.service_of(x) == pre.service_of(x));
            }
        }
        Ok(id)
    }

    /// The service of live session `session_id`.
    pub fn get(&self, session_id: &str) -> (r: Option<&S>)
        ensures
            r is Some <==> self.ids().contains(session_id@),
            r matches Some(svc) ==> exists|i: int|
                0 <= i < self.sessions@.len() && self.ids()[i] == session_id@ && *svc == self.sessions@[i].service,
            self.wf() ==> match r {
                Some(svc) => self.service_of(session_id@) == Some(*svc),
                None => self.service_of(session_id@) is None,
            },
    {
        match self.position(session_id) {
            Some(i) => {
                proof {
                    assert(self.ids()[i as int] == session_id@);
                    if self.wf() {
                        lemma_service_in_at(self.sessions@, i as int);
                    }
                }
                Some(&self.sessions[i].service)
            },
            None => {
                proof {
                    if self.ids().contains(session_id@) {
                        let k = choose|k: int| 0 <= k < self.ids().len() && self.ids()[k] == session_id@;
                        assert(self.sessions@[k].session_id@ == session_id@);
                    }
                }
                None
            },
        }
    }

    /// Number of live sessions.
    pub fn session_count(&self) -> (r: usize)
        requires
            self.wf(),
        ensures
            r == self.ids().len(),
    {
        self.limiter.active_sessions()
    }
}

/// The session count a table reports is the number of distinct live sessions,
/// and never exceeds the limit.
pub proof fn law_session_count<S>(m: ServiceManager<S>)
    requires
        m.wf(),
    ensures
        m.limiter.active_count() == m.ids().len(),
        m.limiter.max() > 0 ==> m.ids().len() <= m.limiter.max(),
{
}

} // verus!
