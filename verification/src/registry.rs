//! The control-channel registry: a process-wide map from session key to the
//! running worker's handle, owning the start/stop/send lifecycle with at
//! most one worker per key. The handle modelled here is the worker's
//! command queue; the stop signal, the thread and its join live with the
//! loop outside, which serializes calls through one lock held only for the
//! map operation itself.
use crate::digits::dec_digits;
use crate::digits::u32_to_dec;
use crate::errors::TransportError;
use crate::keys::port_of;
use crate::keys::HostProfile;
use crate::textutil::str_eq;
use vstd::prelude::*;

verus! {

/// The registry seen mathematically: each registered session key, mapped to
/// its worker's queue of pending commands, oldest first.
pub type RegistryView = Map<Seq<char>, Seq<Seq<char>>>;

/// The stable string rendering of a session key:
/// `user@host:port#session-name`.
pub open spec fn session_key_of(p: HostProfile, session: Seq<char>) -> Seq<char> {
    p.user@ + seq!['@'] + p.host@ + seq![':'] + dec_digits(port_of(p) as nat) + seq!['#'] + session
}

struct ControlEntry {
    key: String,
    queue: Vec<String>,
}

/// How many entries of a run of entries carry the given key.
spec fn key_count_in(s: Seq<ControlEntry>, k: Seq<char>) -> nat
    decreases s.len(),
{
    if s.len() == 0 {
        0
    } else {
        key_count_in(s.drop_last(), k) + (if s.last().key@ == k {
            1nat
        } else {
            0nat
        })
    }
}

/// The queue of the last entry carrying the given key (the only one, once
/// keys are unique).
spec fn queue_in(s: Seq<ControlEntry>, k: Seq<char>) -> Seq<Seq<char>>
    decreases s.len(),
{
    if s.len() == 0 {
        Seq::empty()
    } else if s.last().key@ == k {
        s.last().queue.deep_view()
    } else {
        queue_in(s.drop_last(), k)
    }
}

proof fn lemma_concat(s1: Seq<ControlEntry>, s2: Seq<ControlEntry>, k: Seq<char>)
    ensures
        key_count_in(s1 + s2, k) == key_count_in(s1, k) + key_count_in(s2, k),
        queue_in(s1 + s2, k) == (if key_count_in(s2, k) > 0 {
            queue_in(s2, k)
        } else {
            queue_in(s1, k)
        }),
    decreases s2.len(),
{
    if s2.len() == 0 {
        assert(s1 + s2 =~= s1);
    } else {
        lemma_concat(s1, s2.drop_last(), k);
        assert((s1 + s2).drop_last() =~= s1 + s2.drop_last());
        assert((s1 + s2).last() == s2.last());
    }
}

proof fn lemma_singleton(e: ControlEntry, k2: Seq<char>)
    ensures
        key_count_in(seq![e], k2) == (if e.key@ == k2 {
            1nat
        } else {
            0nat
        }),
        queue_in(seq![e], k2) == (if e.key@ == k2 {
            e.queue.deep_view()
        } else {
            Seq::<Seq<char>>::empty()
        }),
{
    assert(seq![e].drop_last() =~= Seq::<ControlEntry>::empty());
    assert(seq![e].last() == e);
    assert(key_count_in(Seq::<ControlEntry>::empty(), k2) == 0);
    assert(queue_in(Seq::<ControlEntry>::empty(), k2) == Seq::<Seq<char>>::empty());
}

proof fn lemma_count_zero(s: Seq<ControlEntry>, k: Seq<char>)
    requires
        forall|i: int| 0 <= i < s.len() ==> (#[trigger] s[i]).key@ != k,
    ensures
        key_count_in(s, k) == 0,
    decreases s.len(),
{
    if s.len() > 0 {
        lemma_count_zero(s.drop_last(), k);
    }
}

proof fn lemma_count_pos(s: Seq<ControlEntry>, k: Seq<char>, i: int)
    requires
        0 <= i < s.len(),
        s[i].key@ == k,
    ensures
        key_count_in(s, k) > 0,
    decreases s.len(),
{
    if i < s.len() - 1 {
        lemma_count_pos(s.drop_last(), k, i);
    }
}

/// The registry. One per process; the boundary constructs it explicitly and
/// shares it behind its lock.
pub struct ControlManager {
    entries: Vec<ControlEntry>,
}

impl View for ControlManager {
    type V = RegistryView;

    closed spec fn view(&self) -> RegistryView {
        Map::new(
            |k: Seq<char>| key_count_in(self.entries@, k) > 0,
            |k: Seq<char>| queue_in(self.entries@, k),
        )
    }
}

/// What `start` does to the registry: fail on a registered key without side
/// effects, else register the key with an empty queue.
pub open spec fn spec_start(m: RegistryView, k: Seq<char>) -> (RegistryView, Result<
    (),
    TransportError,
>) {
    if m.dom().contains(k) {
        (m, Err(TransportError::AlreadyRunning))
    } else {
        (m.insert(k, Seq::empty()), Ok(()))
    }
}

/// What `stop` does to the registry: fail on an absent key without side
/// effects, else remove the entry.
pub open spec fn spec_stop(m: RegistryView, k: Seq<char>) -> (RegistryView, Result<
    (),
    TransportError,
>) {
    if m.dom().contains(k) {
        (m.remove(k), Ok(()))
    } else {
        (m, Err(TransportError::NotRunning))
    }
}

/// What `send` does to the registry: fail on an absent key without side
/// effects — the queue is never created speculatively — else append the
/// command to the key's queue.
pub open spec fn spec_send(m: RegistryView, k: Seq<char>, c: Seq<char>) -> (RegistryView, Result<
    (),
    TransportError,
>) {
    if m.dom().contains(k) {
        (m.insert(k, m[k].push(c)), Ok(()))
    } else {
        (m, Err(TransportError::NotRunning))
    }
}

impl ControlManager {
    /// Keys are unique: at most one worker per session key.
    pub closed spec fn wf(&self) -> bool {
        forall|i: int, j: int|
            0 <= i < j < self.entries@.len() ==> (#[trigger] self.entries@[i]).key@ != (
            #[trigger] self.entries@[j]).key@
    }

    /// An empty registry.
    pub fn new() -> (m: ControlManager)
        ensures
            m.wf(),
            m@ == Map::<Seq<char>, Seq<Seq<char>>>::empty(),
    {
        let m = ControlManager { entries: Vec::new() };
        proof {
            assert(m@ =~= Map::<Seq<char>, Seq<Seq<char>>>::empty());
        }
        m
    }

    /// The stable string rendering of a session key:
    /// `user@host:port#session-name`.
    pub fn key(profile: &HostProfile, session: &str) -> (k: String)
        ensures
            k@ == session_key_of(*profile, session@),
    {
        proof {
            reveal_strlit("@");
            reveal_strlit(":");
            reveal_strlit("#");
            assert(("@")@ =~= seq!['@']);
            assert((":")@ =~= seq![':']);
            assert(("#")@ =~= seq!['#']);
        }
        let mut k = profile.user.clone();
        k.append("@");
        k.append(profile.host.as_str());
        k.append(":");
        let port: u16 = match profile.port {
            Some(p) => p,
            None => 22,
        };
        let digits = u32_to_dec(port as u32);
        k.append(digits.as_str());
        k.append("#");
        k.append(session);
        proof {
            assert(k@ =~= session_key_of(*profile, session@));
        }
        k
    }

    fn find_index(&self, key: &str) -> (r: Option<usize>)
        ensures
            match r {
                Some(i) => i < self.entries@.len() && self.entries@[i as int].key@ == key@,
                None => forall|i: int|
                    0 <= i < self.entries@.len() ==> (#[trigger] self.entries@[i]).key@ != key@,
            },
    {
        let mut j: usize = 0;
        let n: usize = self.entries.len();
        while j < n
            invariant
                0 <= j <= n,
                n == self.entries@.len(),
                forall|i: int| 0 <= i < j ==> (#[trigger] self.entries@[i]).key@ != key@,
            decreases n - j,
        {
            let e = &self.entries[j];
            if str_eq(e.key.as_str(), key) {
                return Some(j);
            }
            j = j + 1;
        }
        None
    }

    /// Whether a worker is registered for the profile and session name.
    pub fn contains(&self, profile: &HostProfile, session: &str) -> (r: bool)
        ensures
            r == self@.dom().contains(session_key_of(*profile, session@)),
    {
        let key = Self::key(profile, session);
        let found = self.find_index(key.as_str());
        proof {
            match found {
                Some(i) => lemma_count_pos(self.entries@, key@, i as int),
                None => lemma_count_zero(self.entries@, key@),
            }
        }
        found.is_some()
    }

    /// Register a worker for the key, failing with `AlreadyRunning`, and
    /// without side effects, when one exists. The caller opens the channel
    /// and spawns the loop only after this succeeds.
    pub fn start(&mut self, profile: &HostProfile, session: &str) -> (r: Result<
        (),
        TransportError,
    >)
        requires
            old(self).wf(),
        ensures
            final(self).wf(),
            ({
                let k = session_key_of(*profile, session@);
                final(self)@ == spec_start(old(self)@, k).0 && r == spec_start(old(self)@, k).1
            }),
    {
        let key = Self::key(profile, session);
        let ghost k = key@;
        let ghost pre = self.entries@;
        match self.find_index(key.as_str()) {
            Some(i) => {
                proof {
                    lemma_count_pos(self.entries@, k, i as int);
                }
                Err(TransportError::AlreadyRunning)
            },
            None => {
                proof {
                    lemma_count_zero(pre, k);
                }
                let entry = ControlEntry { key, queue: Vec::new() };
                self.entries.push(entry);
                proof {
                    assert(self.entries@.drop_last() =~= pre);
                    assert(self.entries@.last().key@ == k);
                    assert(self.entries@.last().queue.deep_view() =~= Seq::<Seq<char>>::empty());
                    assert forall|a: int, b: int|
                        0 <= a < b < self.entries@.len() implies (
                    #[trigger] self.entries@[a]).key@ != (#[trigger] self.entries@[b]).key@ by {
                        if b < self.entries@.len() - 1 {
                            assert(pre[a].key@ != pre[b].key@);
                        } else {
                            lemma_count_pos(pre, pre[a].key@, a);
                        }
                    }
                    assert(self@ =~= old(self)@.insert(k, Seq::<Seq<char>>::empty()));
                }
                Ok(())
            },
        }
    }

    /// Signal and unregister the worker of the key, failing with
    /// `NotRunning`, and without side effects, when none exists. The caller
    /// joins the worker's thread after this succeeds; commands still queued
    /// are dropped with the entry.
    pub fn stop(&mut self, profile: &HostProfile, session: &str) -> (r: Result<(), TransportError>)
        requires
            old(self).wf(),
        ensures
            final(self).wf(),
            ({
                let k = session_key_of(*profile, session@);
                final(self)@ == spec_stop(old(self)@, k).0 && r == spec_stop(old(self)@, k).1
            }),
    {
        let key = Self::key(profile, session);
        let ghost k = key@;
        let ghost pre = self.entries@;
        match self.find_index(key.as_str()) {
            Some(i) => {
                proof {
                    lemma_count_pos(pre, k, i as int);
                }
                let _removed = self.entries.remove(i);
                proof {
                    Self::lemma_removal(pre, self.entries@, k, i as int);
                    assert(self@ =~= old(self)@.remove(k));
                }
                Ok(())
            },
            None => {
                proof {
                    lemma_count_zero(pre, k);
                }
                Err(TransportError::NotRunning)
            },
        }
    }

    proof fn lemma_removal(pre: Seq<ControlEntry>, post: Seq<ControlEntry>, k: Seq<char>, i: int)
        requires
            0 <= i < pre.len(),
            pre[i].key@ == k,
            post == pre.remove(i),
            forall|a: int, b: int|
                0 <= a < b < pre.len() ==> (#[trigger] pre[a]).key@ != (#[trigger] pre[b]).key@,
        ensures
            forall|a: int, b: int|
                0 <= a < b < post.len() ==> (#[trigger] post[a]).key@ != (#[trigger] post[b]).key@,
            key_count_in(post, k) == 0,
            forall|k2: Seq<char>|
                k2 != k ==> #[trigger] key_count_in(post, k2) == key_count_in(pre, k2),
            forall|k2: Seq<char>|
                k2 != k && key_count_in(pre, k2) > 0 ==> #[trigger] queue_in(post, k2) == queue_in(
                    pre,
                    k2,
                ),
    {
        let left = pre.subrange(0, i);
        let mid = pre.subrange(i, i + 1);
        let right = pre.subrange(i + 1, pre.len() as int);
        assert(pre =~= left + (mid + right));
        assert(post =~= left + right);
        assert(mid.drop_last() =~= Seq::<ControlEntry>::empty());
        assert forall|a: int, b: int|
            0 <= a < b < post.len() implies (#[trigger] post[a]).key@ != (
        #[trigger] post[b]).key@ by {
            let pa = if a < i {
                a
            } else {
                a + 1
            };
            let pb = if b < i {
                b
            } else {
                b + 1
            };
            assert(post[a] == pre[pa]);
            assert(post[b] == pre[pb]);
        }
        assert forall|k2: Seq<char>| true implies #[trigger] key_count_in(post, k2)
            == key_count_in(left, k2) + key_count_in(right, k2) by {
            lemma_concat(left, right, k2);
        }
        assert forall|k2: Seq<char>| true implies #[trigger] key_count_in(pre, k2)
            == key_count_in(left, k2) + key_count_in(mid, k2) + key_count_in(right, k2) by {
            lemma_concat(mid, right, k2);
            lemma_concat(left, mid + right, k2);
        }
        assert(key_count_in(left, k) == 0) by {
            lemma_count_zero(left, k);
        }
        assert(key_count_in(right, k) == 0) by {
            lemma_count_zero(right, k);
        }
        assert forall|k2: Seq<char>| k2 != k implies #[trigger] key_count_in(mid, k2) == 0 by {
            assert(mid =~= seq![pre[i]]);
            lemma_singleton(pre[i], k2);
        }
        assert forall|k2: Seq<char>| k2 != k && key_count_in(pre, k2) > 0 implies #[trigger] queue_in(
            post,
            k2,
        ) == queue_in(pre, k2) by {
            lemma_concat(left, right, k2);
            lemma_concat(mid, right, k2);
            lemma_concat(left, mid + right, k2);
            assert(mid =~= seq![pre[i]]);
            lemma_singleton(pre[i], k2);
        }
    }

    /// Enqueue a command for the worker of the key, in arrival order,
    /// failing with `NotRunning`, and without side effects, when none
    /// exists.
    pub fn send(&mut self, profile: &HostProfile, session: &str, command: String) -> (r: Result<
        (),
        TransportError,
    >)
        requires
            old(self).wf(),
        ensures
            final(self).wf(),
            ({
                let k = session_key_of(*profile, session@);
                final(self)@ == spec_send(old(self)@, k, command@).0 && r == spec_send(
                    old(self)@,
                    k,
                    command@,
                ).1
            }),
    {
        let key = Self::key(profile, session);
        let ghost k = key@;
        let ghost pre = self.entries@;
        match self.find_index(key.as_str()) {
            Some(i) => {
                proof {
                    lemma_count_pos(pre, k, i as int);
                }
                let ghost cmd = command@;
                let mut entry = self.entries.remove(i);
                let ghost mid_entries = self.entries@;
                let ghost old_entry = entry;
                entry.queue.push(command);
                self.entries.insert(i, entry);
                proof {
                    assert(entry.queue@ == old_entry.queue@.push(command));
                    assert(entry.queue.deep_view() =~= old_entry.queue.deep_view().push(cmd));
                    Self::lemma_replacement(pre, self.entries@, k, i as int, entry);
                    assert(queue_in(pre, k) == pre[i as int].queue.deep_view()) by {
                        Self::lemma_lookup(pre, k, i as int);
                    }
                    assert(self@ =~= old(self)@.insert(k, old(self)@[k].push(cmd)));
                }
                Ok(())
            },
            None => {
                proof {
                    lemma_count_zero(pre, k);
                }
                Err(TransportError::NotRunning)
            },
        }
    }

    /// Take every queued command of the key's worker, oldest first, leaving
    /// its queue empty; the worker loop writes them in this order. Fails
    /// with `NotRunning`, without side effects, when the key is gone.
    pub fn drain(&mut self, profile: &HostProfile, session: &str) -> (r: Result<
        Vec<String>,
        TransportError,
    >)
        requires
            old(self).wf(),
        ensures
            final(self).wf(),
            ({
                let k = session_key_of(*profile, session@);
                match r {
                    Ok(cmds) => old(self)@.dom().contains(k) && cmds.deep_view() == old(self)@[k]
                        && final(self)@ == old(self)@.insert(k, Seq::empty()),
                    Err(e) => e == TransportError::NotRunning && !old(self)@.dom().contains(k)
                        && final(self)@ == old(self)@,
                }
            }),
    {
        let key = Self::key(profile, session);
        let ghost k = key@;
        let ghost pre = self.entries@;
        match self.find_index(key.as_str()) {
            Some(i) => {
                proof {
                    lemma_count_pos(pre, k, i as int);
                }
                let mut entry = self.entries.remove(i);
                let ghost old_entry = entry;
                let mut cmds: Vec<String> = Vec::new();
                core::mem::swap(&mut cmds, &mut entry.queue);
                self.entries.insert(i, entry);
                proof {
                    assert(entry.queue.deep_view() =~= Seq::<Seq<char>>::empty());
                    Self::lemma_replacement(pre, self.entries@, k, i as int, entry);
                    assert(queue_in(pre, k) == pre[i as int].queue.deep_view()) by {
                        Self::lemma_lookup(pre, k, i as int);
                    }
                    assert(self@ =~= old(self)@.insert(k, Seq::empty()));
                }
                Ok(cmds)
            },
            None => {
                proof {
                    lemma_count_zero(pre, k);
                }
                Err(TransportError::NotRunning)
            },
        }
    }

    proof fn lemma_lookup(s: Seq<ControlEntry>, k: Seq<char>, i: int)
        requires
            0 <= i < s.len(),
            s[i].key@ == k,
            forall|a: int, b: int|
                0 <= a < b < s.len() ==> (#[trigger] s[a]).key@ != (#[trigger] s[b]).key@,
        ensures
            queue_in(s, k) == s[i].queue.deep_view(),
        decreases s.len(),
    {
        if i == s.len() - 1 {
            assert(s.last() == s[i]);
        } else {
            assert(s.last().key@ != k);
            assert(forall|a: int, b: int|
                0 <= a < b < s.drop_last().len() ==> (#[trigger] s.drop_last()[a]).key@ != (
                #[trigger] s.drop_last()[b]).key@);
            Self::lemma_lookup(s.drop_last(), k, i);
        }
    }

    proof fn lemma_replacement(
        pre: Seq<ControlEntry>,
        post: Seq<ControlEntry>,
        k: Seq<char>,
        i: int,
        e: ControlEntry,
    )
        requires
            0 <= i < pre.len(),
            pre[i].key@ == k,
            e.key@ == k,
            post == pre.remove(i).insert(i, e),
            forall|a: int, b: int|
                0 <= a < b < pre.len() ==> (#[trigger] pre[a]).key@ != (#[trigger] pre[b]).key@,
        ensures
            forall|a: int, b: int|
                0 <= a < b < post.len() ==> (#[trigger] post[a]).key@ != (#[trigger] post[b]).key@,
            forall|k2: Seq<char>| #[trigger]
                key_count_in(post, k2) == key_count_in(pre, k2),
            queue_in(post, k) == e.queue.deep_view(),
            forall|k2: Seq<char>|
                k2 != k && key_count_in(pre, k2) > 0 ==> #[trigger] queue_in(post, k2) == queue_in(
                    pre,
                    k2,
                ),
    {
        let left = pre.subrange(0, i);
        let midp = pre.subrange(i, i + 1);
        let mide = seq![e];
        let right = pre.subrange(i + 1, pre.len() as int);
        assert(pre =~= left + (midp + right));
        assert(post =~= left + (mide + right));
        assert(midp.drop_last() =~= Seq::<ControlEntry>::empty());
        assert(mide.drop_last() =~= Seq::<ControlEntry>::empty());
        assert(midp.last() == pre[i]);
        assert(mide.last() == e);
        assert forall|a: int, b: int|
            0 <= a < b < post.len() implies (#[trigger] post[a]).key@ != (
        #[trigger] post[b]).key@ by {
            if a != i && b != i {
                assert(post[a] == pre[a]);
                assert(post[b] == pre[b]);
            } else if a == i {
                assert(post[b] == pre[b]);
            } else {
                assert(post[a] == pre[a]);
            }
        }
        assert(key_count_in(left, k) == 0) by {
            lemma_count_zero(left, k);
        }
        assert(key_count_in(right, k) == 0) by {
            lemma_count_zero(right, k);
        }
        assert forall|k2: Seq<char>| true implies #[trigger] key_count_in(post, k2)
            == key_count_in(pre, k2) by {
            lemma_concat(midp, right, k2);
            lemma_concat(left, midp + right, k2);
            lemma_concat(mide, right, k2);
            lemma_concat(left, mide + right, k2);
            assert(midp =~= seq![pre[i]]);
            lemma_singleton(pre[i], k2);
            lemma_singleton(e, k2);
        }
        assert(queue_in(post, k) == e.queue.deep_view()) by {
            lemma_concat(mide, right, k);
            lemma_concat(left, mide + right, k);
            lemma_singleton(e, k);
        }
        assert forall|k2: Seq<char>| k2 != k && key_count_in(pre, k2) > 0 implies #[trigger] queue_in(
            post,
            k2,
        ) == queue_in(pre, k2) by {
            lemma_concat(midp, right, k2);
            lemma_concat(left, midp + right, k2);
            lemma_concat(mide, right, k2);
            lemma_concat(left, mide + right, k2);
            assert(midp =~= seq![pre[i]]);
            lemma_singleton(pre[i], k2);
            lemma_singleton(e, k2);
        }
    }
}

/// Fail a second `start` for a key already started: the first registers the
/// one worker for the key, the second answers `AlreadyRunning` and leaves
/// the registry exactly as the first left it.
pub proof fn lemma_start_twice(m: RegistryView, k: Seq<char>)
    requires
        !m.dom().contains(k),
    ensures
        ({
            let (m1, r1) = spec_start(m, k);
            let (m2, r2) = spec_start(m1, k);
            r1 == Ok::<(), TransportError>(()) && m1.dom().contains(k) && r2 == Err::<
                (),
                TransportError,
            >(TransportError::AlreadyRunning) && m2 == m1
        }),
{
}

/// With no worker registered for a key, `stop` and `send` both fail with
/// `NotRunning` and have no side effects.
pub proof fn lemma_absent_key_rejected(m: RegistryView, k: Seq<char>, c: Seq<char>)
    requires
        !m.dom().contains(k),
    ensures
        spec_stop(m, k) == (m, Err::<(), TransportError>(TransportError::NotRunning)),
        spec_send(m, k, c) == (m, Err::<(), TransportError>(TransportError::NotRunning)),
{
}

/// Stopping is idempotent under the registry: of two `stop` calls for one
/// live key, serialized by the registry's lock, the first succeeds and
/// removes the entry, and the second observes `NotRunning` and changes
/// nothing.
pub proof fn lemma_stop_idempotent(m: RegistryView, k: Seq<char>)
    requires
        m.dom().contains(k),
    ensures
        ({
            let (m1, r1) = spec_stop(m, k);
            let (m2, r2) = spec_stop(m1, k);
            r1 == Ok::<(), TransportError>(()) && !m1.dom().contains(k) && r2 == Err::<
                (),
                TransportError,
            >(TransportError::NotRunning) && m2 == m1
        }),
{
}

/// Start, stop and send on an explicitly shared registry, for callers that
/// hold it directly.
pub fn start_control(manager: &mut ControlManager, profile: &HostProfile, session: &str) -> (r:
    Result<(), TransportError>)
    requires
        old(manager).wf(),
    ensures
        final(manager).wf(),
        ({
            let k = session_key_of(*profile, session@);
            final(manager)@ == spec_start(old(manager)@, k).0 && r == spec_start(old(manager)@, k).1
        }),
{
    manager.start(profile, session)
}

/// See `start_control`.
pub fn stop_control(manager: &mut ControlManager, profile: &HostProfile, session: &str) -> (r:
    Result<(), TransportError>)
    requires
        old(manager).wf(),
    ensures
        final(manager).wf(),
        ({
            let k = session_key_of(*profile, session@);
            final(manager)@ == spec_stop(old(manager)@, k).0 && r == spec_stop(old(manager)@, k).1
        }),
{
    manager.stop(profile, session)
}

/// See `start_control`.
pub fn send_command(
    manager: &mut ControlManager,
    profile: &HostProfile,
    session: &str,
    command: String,
) -> (r: Result<(), TransportError>)
    requires
        old(manager).wf(),
    ensures
        final(manager).wf(),
        ({
            let k = session_key_of(*profile, session@);
            final(manager)@ == spec_send(old(manager)@, k, command@).0 && r == spec_send(
                old(manager)@,
                k,
                command@,
            ).1
        }),
{
    manager.send(profile, session, command)
}

} // verus!
