//! The registry of pending timer tasks: at most one per reminder id.
//!
//! Each task is armed under a token that the registry hands out, and it may
//! fire only by claiming its entry with that token. Replacing or cancelling an
//! entry therefore stops its task for good, whether or not the task's handle
//! has been aborted in time.
use vstd::prelude::*;

verus! {

struct Entry<H> {
    id: String,
    token: u64,
    handle: H,
}

/// Pending timer tasks keyed by reminder id, each with the token it was armed
/// under and the handle that cancels it.
pub struct Registry<H> {
    entries: Vec<Entry<H>>,
    next_token: u64,
    model: Ghost<Map<Seq<char>, (u64, H)>>,
}

/// The registry `m` after cancelling `ids` in order, and the handles of the
/// entries that were removed, in that order.
pub open spec fn cancel_model<H>(m: Map<Seq<char>, (u64, H)>, ids: Seq<Seq<char>>) -> (
    Map<Seq<char>, (u64, H)>,
    Seq<H>,
)
    decreases ids.len(),
{
    if ids.len() == 0 {
        (m, Seq::empty())
    } else {
        let prev = cancel_model(m, ids.drop_last());
        let k = ids.last();
        if prev.0.contains_key(k) {
            (prev.0.remove(k), prev.1.push(prev.0[k].1))
        } else {
            prev
        }
    }
}

/// Whether the task armed for `id` under `token` may fire in registry `m`.
pub open spec fn may_fire<H>(m: Map<Seq<char>, (u64, H)>, id: Seq<char>, token: u64) -> bool {
    m.contains_key(id) && m[id].0 == token
}

/// The texts of `ids`, in order.
pub open spec fn string_views(ids: Seq<String>) -> Seq<Seq<char>> {
    ids.map_values(|s: String| s@)
}

impl<H> View for Registry<H> {
    type V = Map<Seq<char>, (u64, H)>;

    closed spec fn view(&self) -> Map<Seq<char>, (u64, H)> {
        self.model@
    }
}

impl<H> Registry<H> {
    /// The next token that `reserve_token` hands out; every token in the
    /// registry is below it.
    pub closed spec fn issued(&self) -> u64 {
        self.next_token
    }

    pub closed spec fn wf(&self) -> bool {
        &&& forall|i: int, j: int|
            0 <= i < j < self.entries@.len() ==> self.entries@[i].id@ != self.entries@[j].id@
        &&& forall|i: int|
            0 <= i < self.entries@.len() ==> {
                &&& self.model@.contains_key(#[trigger] self.entries@[i].id@)
                &&& self.model@[self.entries@[i].id@] == (
                    self.entries@[i].token,
                    self.entries@[i].handle,
                )
            }
        &&& forall|k: Seq<char>|
            #[trigger] self.model@.contains_key(k) ==> exists|i: int|
                0 <= i < self.entries@.len() && #[trigger] self.entries@[i].id@ == k
        &&& forall|k: Seq<char>| #[trigger]
            self.model@.contains_key(k) ==> self.model@[k].0 < self.next_token
    }

    /// An empty registry.
    pub fn new() -> (r: Self)
        ensures
            r.wf(),
            r@ == Map::<Seq<char>, (u64, H)>::empty(),
            r.issued() == 0,
    {
        Registry { entries: Vec::new(), next_token: 0, model: Ghost(Map::empty()) }
    }

    /// Hands out a fresh token to arm a new task under, or `None` once all
    /// tokens are spent.
    pub fn reserve_token(&mut self) -> (r: Option<u64>)
        requires
            old(self).wf(),
        ensures
            final(self).wf(),
            final(self)@ == old(self)@,
            r is Some <==> old(self).issued() < u64::MAX,
            r matches Some(t) ==> t == old(self).issued() && final(self).issued() == t + 1,
            r is None ==> final(self).issued() == old(self).issued(),
    {
        if self.next_token == u64::MAX {
            None
        } else {
            let t = self.next_token;
            self.next_token = t + 1;
            assert forall|k: Seq<char>| #[trigger] self.model@.contains_key(k) implies self.model@[k].0
                < self.next_token by {
                assert(old(self).model@.contains_key(k));
            }
            assert forall|k: Seq<char>| #[trigger] self.model@.contains_key(k) implies exists|j: int|
                0 <= j < self.entries@.len() && #[trigger] self.entries@[j].id@ == k by {
                assert(old(self).model@.contains_key(k));
                let j = choose|j: int|
                    0 <= j < old(self).entries@.len() && old(self).entries@[j].id@ == k;
                assert(self.entries@[j].id@ == k);
            }
            Some(t)
        }
    }

    fn find(&self, id: &String) -> (r: Option<usize>)
        requires
            self.wf(),
        ensures
            r matches Some(i) ==> i < self.entries@.len() && self.entries@[i as int].id@ == id@,
            r is None ==> !self@.contains_key(id@),
    {
        let mut i: usize = 0;
        while i < self.entries.len()
            invariant
                i <= self.entries@.len(),
                forall|k: int| 0 <= k < i ==> self.entries@[k].id@ != id@,
            decreases self.entries@.len() - i,
        {
            if self.entries[i].id == *id {
                return Some(i);
            }
            i += 1;
        }
        proof {
            if self@.contains_key(id@) {
                let j = choose|j: int| 0 <= j < self.entries@.len() && self.entries@[j].id@ == id@;
                assert(self.entries@[j].id@ != id@);
            }
        }
        None
    }

    fn remove_at(&mut self, i: usize) -> (r: H)
        requires
            old(self).wf(),
            i < old(self).entries@.len(),
        ensures
            final(self).wf(),
            final(self).next_token == old(self).next_token,
            final(self)@ == old(self)@.remove(old(self).entries@[i as int].id@),
            r == old(self)@[old(self).entries@[i as int].id@].1,
    {
        let ghost key = self.entries@[i as int].id@;
        let ghost old_entries = self.entries@;
        let e = self.entries.remove(i);
        self.model = Ghost(self.model@.remove(key));
        assert forall|k: Seq<char>| #[trigger] self.model@.contains_key(k) implies exists|j: int|
            0 <= j < self.entries@.len() && #[trigger] self.entries@[j].id@ == k by {
            let j = choose|j: int| 0 <= j < old_entries.len() && old_entries[j].id@ == k;
            if j < i {
                assert(self.entries@[j].id@ == k);
            } else {
                assert(j != i);
                assert(self.entries@[j - 1].id@ == k);
            }
        }
        assert forall|a: int| 0 <= a < self.entries@.len() implies {
            &&& self.model@.contains_key(#[trigger] self.entries@[a].id@)
            &&& self.model@[self.entries@[a].id@] == (self.entries@[a].token, self.entries@[a].handle)
        } by {
            if a >= i {
                assert(self.entries@[a] == old_entries[a + 1]);
            }
        }
        e.handle
    }

    /// Records the task armed for `id` under `token`. A task already pending
    /// for `id` is taken out first and its handle returned, to be aborted; its
    /// token no longer matches, so it can never fire.
    pub fn insert_or_replace(&mut self, id: String, token: u64, handle: H) -> (r: Option<H>)
        requires
            old(self).wf(),
            token < old(self).issued(),
        ensures
            final(self).wf(),
            final(self).issued() == old(self).issued(),
            final(self)@ == old(self)@.insert(id@, (token, handle)),
            r == (if old(self)@.contains_key(id@) {
                Some(old(self)@[id@].1)
            } else {
                None
            }),
    {
        let old_handle = match self.find(&id) {
            Some(i) => Some(self.remove_at(i)),
            None => None,
        };
        let ghost mid = self@;
        let ghost key = id@;
        let ghost old_entries = self.entries@;
        self.entries.push(Entry { id, token, handle });
        self.model = Ghost(self.model@.insert(key, (token, handle)));
        assert(self@ =~= mid.insert(key, (token, handle)));
        assert forall|k: Seq<char>| #[trigger] self.model@.contains_key(k) implies exists|j: int|
            0 <= j < self.entries@.len() && #[trigger] self.entries@[j].id@ == k by {
            if k == key {
                assert(self.entries@[old_entries.len() as int].id@ == k);
            } else {
                let j = choose|j: int| 0 <= j < old_entries.len() && old_entries[j].id@ == k;
                assert(self.entries@[j].id@ == k);
            }
        }
        assert forall|a: int| 0 <= a < self.entries@.len() implies {
            &&& self.model@.contains_key(#[trigger] self.entries@[a].id@)
            &&& self.model@[self.entries@[a].id@] == (self.entries@[a].token, self.entries@[a].handle)
        } by {
            if a < old_entries.len() {
                assert(self.entries@[a] == old_entries[a]);
                assert(old_entries[a].id@ != key);
            }
        }
        old_handle
    }

    /// Takes out the entry for `id`, if any, and returns its handle.
    pub fn remove(&mut self, id: &String) -> (r: Option<H>)
        requires
            old(self).wf(),
        ensures
            final(self).wf(),
            final(self).issued() == old(self).issued(),
            final(self)@ == old(self)@.remove(id@),
            r == (if old(self)@.contains_key(id@) {
                Some(old(self)@[id@].1)
            } else {
                None
            }),
    {
        match self.find(id) {
            Some(i) => Some(self.remove_at(i)),
            None => {
                assert(self@ =~= self@.remove(id@));
                None
            },
        }
    }

    /// Called by the task armed for `id` under `token` once its wait is over:
    /// `true` (and the entry is taken out) when the task is still the one
    /// pending for `id` and must fire; `false`, with nothing changed, when it
    /// was replaced or cancelled and must not.
    pub fn claim_fire(&mut self, id: &String, token: u64) -> (r: bool)
        requires
            old(self).wf(),
        ensures
            final(self).wf(),
            final(self).issued() == old(self).issued(),
            r == may_fire(old(self)@, id@, token),
            final(self)@ == (if r {
                old(self)@.remove(id@)
            } else {
                old(self)@
            }),
    {
        match self.find(id) {
            Some(i) => {
                if self.entries[i].token == token {
                    self.remove_at(i);
                    true
                } else {
                    false
                }
            },
            None => false,
        }
    }

    /// Takes out the entries for `ids`, in order, and returns the handles of
    /// those that were pending, to be aborted. Unknown ids are ignored.
    pub fn cancel(&mut self, ids: &Vec<String>) -> (r: Vec<H>)
        requires
            old(self).wf(),
        ensures
            final(self).wf(),
            final(self).issued() == old(self).issued(),
            (final(self)@, r@) == cancel_model(old(self)@, string_views(ids@)),
    {
        let ghost all = string_views(ids@);
        let mut r: Vec<H> = Vec::new();
        let mut i: usize = 0;
        while i < ids.len()
            invariant
                self.wf(),
                self.issued() == old(self).issued(),
                i <= ids@.len(),
                all == string_views(ids@),
                (self@, r@) == cancel_model(old(self)@, all.take(i as int)),
            decreases ids@.len() - i,
        {
            assert(all.take(i as int + 1).drop_last() =~= all.take(i as int));
            assert(all[i as int] == ids@[i as int]@);
            if let Some(h) = self.remove(&ids[i]) {
                r.push(h);
            }
            i += 1;
        }
        assert(all.take(ids@.len() as int) =~= all);
        r
    }
}

/// Cancelling leaves exactly the entries whose ids were not named.
pub proof fn lemma_cancel_removes_named<H>(m: Map<Seq<char>, (u64, H)>, ids: Seq<Seq<char>>)
    ensures
        cancel_model(m, ids).0 =~= m.remove_keys(ids.to_set()),
    decreases ids.len(),
{
    if ids.len() > 0 {
        lemma_cancel_removes_named(m, ids.drop_last());
        let front = ids.drop_last();
        assert forall|k: Seq<char>| ids.contains(k) <==> (front.contains(k) || k == ids.last()) by {
            if ids.contains(k) {
                let j = choose|j: int| 0 <= j < ids.len() && ids[j] == k;
                if j < ids.len() - 1 {
                    assert(front[j] == k);
                }
            }
            if front.contains(k) {
                let j = choose|j: int| 0 <= j < front.len() && front[j] == k;
                assert(ids[j] == k);
            }
            if k == ids.last() {
                assert(ids[ids.len() - 1] == k);
            }
        }
        assert(ids.to_set() =~= front.to_set().insert(ids.last()));
    } else {
        assert(ids.to_set() =~= Set::empty());
    }
}

/// A task armed for an id that is then cancelled never fires, whatever its
/// token: a claim after the cancel fails.
pub proof fn lemma_cancelled_never_fires<H>(
    m: Map<Seq<char>, (u64, H)>,
    ids: Seq<Seq<char>>,
    id: Seq<char>,
    token: u64,
)
    requires
        ids.contains(id),
    ensures
        !may_fire(cancel_model(m, ids).0, id, token),
{
    lemma_cancel_removes_named(m, ids);
    assert(ids.to_set().contains(id));
}

/// Cancelling an id that has no pending task (never armed, or already fired)
/// changes nothing and aborts nothing.
pub proof fn lemma_cancel_unknown_is_noop<H>(m: Map<Seq<char>, (u64, H)>, id: Seq<char>)
    requires
        !m.contains_key(id),
    ensures
        cancel_model(m, seq![id]) == (m, Seq::<H>::empty()),
{
    assert(seq![id].drop_last() =~= Seq::<Seq<char>>::empty());
    assert(cancel_model(m, Seq::<Seq<char>>::empty()) == (m, Seq::<H>::empty()));
}

/// A task that has fired has left the registry: a later cancel of its id
/// changes nothing, and the task cannot fire a second time.
pub proof fn lemma_fired_once<H>(m: Map<Seq<char>, (u64, H)>, id: Seq<char>, token: u64)
    requires
        may_fire(m, id, token),
    ensures
        !may_fire(m.remove(id), id, token),
        cancel_model(m.remove(id), seq![id]) == (m.remove(id), Seq::<H>::empty()),
{
    lemma_cancel_unknown_is_noop(m.remove(id), id);
}

/// A task armed under a fresh token fires when its wait is over, exactly
/// once: the first claim succeeds and every later one fails.
pub proof fn lemma_armed_fires_once<H>(
    m: Map<Seq<char>, (u64, H)>,
    id: Seq<char>,
    token: u64,
    handle: H,
)
    ensures
        may_fire(m.insert(id, (token, handle)), id, token),
        !may_fire(m.insert(id, (token, handle)).remove(id), id, token),
{
}

/// Arming `id` a second time, under a different token, before the first task
/// fired: the first task can never fire, the second can, and the handle of
/// the first is the one handed back for aborting.
pub proof fn lemma_rearm_supersedes<H>(
    m: Map<Seq<char>, (u64, H)>,
    id: Seq<char>,
    first: u64,
    first_handle: H,
    second: u64,
    second_handle: H,
)
    requires
        first != second,
    ensures
        ({
            let once = m.insert(id, (first, first_handle));
            let twice = once.insert(id, (second, second_handle));
            &&& once[id].1 == first_handle
            &&& !may_fire(twice, id, first)
            &&& may_fire(twice, id, second)
            &&& !may_fire(twice.remove(id), id, first)
        }),
{
}

} // verus!
