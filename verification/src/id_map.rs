use std::collections::HashMap;
use std::marker::PhantomData;
use vstd::prelude::*;
use vstd::std_specs::iter::IteratorSpec;

verus! {

broadcast use vstd::std_specs::hash::group_hash_axioms;

/// `HashMap::get_mut` of std: a mutable reference to the value stored under `id`, if
/// any; what is written through it becomes the value stored under `id`.
#[verifier::external_body]
fn hash_map_get_mut<V>(m: &mut HashMap<u64, V>, id: u64) -> (value: Option<&mut V>)
    ensures
        match value {
            Some(v) => {
                &&& old(m)@.contains_key(id)
                &&& *v == old(m)@[id]
                &&& final(m)@ == old(m)@.insert(id, *final(v))
            },
            None => {
                &&& !old(m)@.contains_key(id)
                &&& final(m)@ == old(m)@
            },
        },
{
    m.get_mut(&id)
}

/// `HashMap::iter_mut` of std, each entry's id turned into its handle: every entry once,
/// with a mutable reference to its value; what is written through a reference becomes
/// the value stored under that entry's id.
#[verifier::external_body]
fn hash_map_iter_mut<V, H: IdMapKey>(m: &mut HashMap<u64, V>) -> (entries: Vec<(H, &mut V)>)
    ensures
        entries.len() == old(m)@.len(),
        entries@.map_values(|e: (H, &mut V)| e.0.key_id()).no_duplicates(),
        entries@.map_values(|e: (H, &mut V)| e.0.key_id()).to_set() == old(m)@.dom(),
        final(m)@.dom() == old(m)@.dom(),
        forall|i: int|
            #![trigger entries[i]]
            0 <= i < entries.len() ==> {
                &&& *entries[i].1 == old(m)@[entries[i].0.key_id()]
                &&& final(m)@[entries[i].0.key_id()] == *final(entries[i].1)
            },
{
    m.iter_mut().map(|(id, v)| (H::from(*id), v)).collect()
}

/// A handle type that an [`IdMap`] hands out: a thin wrapper round a numeric id.
pub trait IdMapKey: Sized {
    /// The id that this handle carries.
    spec fn key_id(&self) -> u64;

    /// Builds the handle that carries `id`.
    fn from(id: u64) -> (key: Self)
        ensures
            key.key_id() == id,
    ;

    /// The id that this handle carries.
    fn to(&self) -> (id: u64)
        ensures
            id == self.key_id(),
    ;
}

/// A map from handles to values whose handles are never reused: each insert hands out
/// the next id, counting up from 1, and a removed id stays invalid for good.
pub struct IdMap<V, H: IdMapKey> {
    data: HashMap<u64, V>,
    next_id: u64,
    _phantom: PhantomData<H>,
}

impl<V, H: IdMapKey> View for IdMap<V, H> {
    type V = Map<u64, V>;

    closed spec fn view(&self) -> Map<u64, V> {
        self.data@
    }
}

impl<V, H: IdMapKey> IdMap<V, H> {
    /// The id that the next insert will hand out.
    pub closed spec fn next_id(&self) -> u64 {
        self.next_id
    }

    /// The map's contents and next id, the state that the laws over call sequences follow.
    pub open spec fn state(&self) -> (Map<u64, V>, int) {
        (self@, self.next_id() as int)
    }

    /// The map's invariant: it holds finitely many entries, and ids are handed out from 1
    /// upwards, so every stored id lies in `1..next_id`.
    pub closed spec fn wf(&self) -> bool {
        &&& self.data@.dom().finite()
        &&& 1 <= self.next_id
        &&& forall|id: u64| #[trigger] self.data@.contains_key(id) ==> 1 <= id < self.next_id
    }

    /// An empty map whose first handle will carry id 1 (0 stays free as an invalid handle).
    pub fn new() -> (m: Self)
        ensures
            m.wf(),
            m@ == Map::<u64, V>::empty(),
            m.next_id() == 1,
    {
        IdMap { data: HashMap::new(), next_id: 1, _phantom: PhantomData }
    }

    /// Stores `value` under a fresh handle, the one carrying `next_id`, and returns it.
    pub fn insert(&mut self, value: V) -> (key: H)
        requires
            old(self).wf(),
            old(self).next_id() < u64::MAX,
        ensures
            final(self).wf(),
            key.key_id() == old(self).next_id(),
            !old(self)@.contains_key(key.key_id()),
            forall|id: u64| #[trigger] old(self)@.contains_key(id) ==> id < key.key_id(),
            final(self)@ == old(self)@.insert(key.key_id(), value),
            final(self)@.len() == old(self)@.len() + 1,
            final(self).next_id() == old(self).next_id() + 1,
            id_map_step(old(self).state(), final(self).state(), IdMapCall::Insert(value)),
    {
        let current_id = self.next_id;
        self.next_id = current_id + 1;
        self.data.insert(current_id, value);
        H::from(current_id)
    }

    /// Takes out the value stored under `handle`, if any; the handle is invalid afterwards.
    pub fn remove(&mut self, handle: H) -> (removed: Option<V>)
        requires
            old(self).wf(),
        ensures
            final(self).wf(),
            final(self)@ == old(self)@.remove(handle.key_id()),
            final(self)@.dom().finite(),
            final(self)@.len() == old(self)@.len() - (if removed is Some { 1int } else { 0int }),
            final(self).next_id() == old(self).next_id(),
            removed == (if old(self)@.contains_key(handle.key_id()) {
                Some(old(self)@[handle.key_id()])
            } else {
                None
            }),
            id_map_step(old(self).state(), final(self).state(), IdMapCall::Remove(handle.key_id())),
    {
        let id_value = handle.to();
        self.data.remove(&id_value)
    }

    /// A mutable reference to the value stored under `handle`, if any.
    pub fn get_mut(&mut self, handle: H) -> (value: Option<&mut V>)
        requires
            old(self).wf(),
        ensures
            final(self).wf(),
            final(self).next_id() == old(self).next_id(),
            match value {
                Some(v) => {
                    &&& old(self)@.contains_key(handle.key_id())
                    &&& *v == old(self)@[handle.key_id()]
                    &&& final(self)@ == old(self)@.insert(handle.key_id(), *final(v))
                },
                None => {
                    &&& !old(self)@.contains_key(handle.key_id())
                    &&& final(self)@ == old(self)@
                },
            },
            id_map_step(old(self).state(), final(self).state(), IdMapCall::GetMut(handle.key_id())),
    {
        let id = handle.to();
        hash_map_get_mut(&mut self.data, id)
    }

    /// The value stored under `handle`, if any.
    pub fn get(&self, handle: H) -> (value: Option<&V>)
        ensures
            value == (if self@.contains_key(handle.key_id()) {
                Some(&self@[handle.key_id()])
            } else {
                None
            }),
    {
        self.data.get(&handle.to())
    }


    /// `ids` lists every id stored in the map exactly once.
    pub open spec fn enumerates(&self, ids: Seq<u64>) -> bool {
        &&& ids.len() == self@.len()
        &&& ids.no_duplicates()
        &&& ids.to_set() == self@.dom()
    }

    /// Every stored entry once, each as its handle and a reference to its value, in the
    /// map's internal order.
    pub fn iter(&self) -> (entries: Vec<(H, &V)>)
        ensures
            self.enumerates(entries@.map_values(|e: (H, &V)| e.0.key_id())),
            forall|i: int|
                #![trigger entries[i]]
                0 <= i < entries.len() ==> *entries[i].1 == self@[entries[i].0.key_id()],
    {
        let mut out: Vec<(H, &V)> = Vec::new();
        let ghost all = self.data.iter().remaining();
        for pair in it: self.data.iter()
            invariant
                it.seq() == all,
                out.len() == it.index(),
                forall|i: int|
                    #![trigger out[i]]
                    0 <= i < out.len() ==> out[i].0.key_id() == *all[i].0 && out[i].1 == all[i].1,
        {
            let (id, v) = pair;
            out.push((H::from(*id), v));
        }
        proof {
            let ids = out@.map_values(|e: (H, &V)| e.0.key_id());
            assert(all.no_duplicates());
            assert forall|i: int, j: int|
                0 <= i < ids.len() && 0 <= j < ids.len() && i != j implies ids[i] != ids[j] by {
                if ids[i] == ids[j] {
                    assert(out[i].0.key_id() == ids[i]);
                    assert(out[j].0.key_id() == ids[j]);
                    assert(self@.contains_key(*all[i].0));
                    assert(self@.contains_key(*all[j].0));
                    assert(all[i] == all[j]);
                }
            }
            assert forall|id: u64| #[trigger] self@.contains_key(id) implies ids.contains(id) by {
                assert(all.contains((&id, &self@[id])));
                let i = choose|i: int| 0 <= i < all.len() && all[i] == (&id, &self@[id]);
                assert(out[i].0.key_id() == id);
                assert(ids[i] == id);
            }
            assert forall|id: u64| #[trigger] ids.contains(id) implies self@.contains_key(id) by {
                let i = choose|i: int| 0 <= i < ids.len() && ids[i] == id;
                assert(out[i].0.key_id() == id);
            }
            assert(ids.to_set() =~= self@.dom());
        }
        out
    }

    /// Every stored entry once, each as its handle and a mutable reference to its value, in
    /// the map's internal order.
    pub fn iter_mut(&mut self) -> (entries: Vec<(H, &mut V)>)
        requires
            old(self).wf(),
        ensures
            final(self).wf(),
            final(self).next_id() == old(self).next_id(),
            old(self).enumerates(entries@.map_values(|e: (H, &mut V)| e.0.key_id())),
            final(self)@.dom() == old(self)@.dom(),
            forall|i: int|
                #![trigger entries[i]]
                0 <= i < entries.len() ==> {
                    &&& *entries[i].1 == old(self)@[entries[i].0.key_id()]
                    &&& final(self)@[entries[i].0.key_id()] == *final(entries[i].1)
                },
            id_map_step(old(self).state(), final(self).state(), IdMapCall::IterMut),
    {
        hash_map_iter_mut(&mut self.data)
    }

    /// Every handle in the map once, in the map's internal order.
    pub fn keys(&self) -> (keys: Vec<H>)
        ensures
            self.enumerates(keys@.map_values(|h: H| h.key_id())),
    {
        let entries = self.iter();
        let mut out: Vec<H> = Vec::new();
        let mut i: usize = 0;
        while i < entries.len()
            invariant
                i <= entries.len(),
                out.len() == i,
                forall|j: int| 0 <= j < i ==> #[trigger] out[j].key_id() == entries[j].0.key_id(),
            decreases entries.len() - i,
        {
            out.push(H::from(entries[i].0.to()));
            i = i + 1;
        }
        proof {
            assert(out@.map_values(|h: H| h.key_id()) =~= entries@.map_values(
                |e: (H, &V)| e.0.key_id(),
            ));
        }
        out
    }

    /// Every stored value once, in the map's internal order.
    pub fn values(&self) -> (values: Vec<&V>)
        ensures
            exists|ids: Seq<u64>|
                #![trigger self.enumerates(ids)]
                self.enumerates(ids) && ids.len() == values.len() && forall|i: int|
                    0 <= i < values.len() ==> *values[i] == self@[#[trigger] ids[i]],
    {
        let entries = self.iter();
        let mut out: Vec<&V> = Vec::new();
        let mut i: usize = 0;
        while i < entries.len()
            invariant
                i <= entries.len(),
                out.len() == i,
                forall|j: int| 0 <= j < i ==> #[trigger] out[j] == entries[j].1,
            decreases entries.len() - i,
        {
            out.push(entries[i].1);
            i = i + 1;
        }
        let ghost ids = entries@.map_values(|e: (H, &V)| e.0.key_id());
        assert forall|j: int| 0 <= j < out.len() implies *out[j] == self@[#[trigger] ids[j]] by {
            assert(*entries[j].1 == self@[entries[j].0.key_id()]);
        }
        out
    }

    /// The number of values stored.
    pub fn len(&self) -> (n: usize)
        ensures
            n == self@.len(),
    {
        self.data.len()
    }

    /// Whether no value is stored.
    pub fn is_empty(&self) -> (empty: bool)
        ensures
            empty == (self@.len() == 0),
    {
        proof {
            assert(self@.dom().finite());
            if self@.len() == 0 {
                assert(self@.dom() =~= Set::empty());
            } else {
                assert(self@.dom() !== Set::<u64>::empty());
            }
        }
        self.data.is_empty()
    }

    /// The id that the next insert will hand out.
    pub fn peek_next_id(&self) -> (id: u64)
        ensures
            id == self.next_id(),
    {
        self.next_id
    }
}

/// What `insert` stores, `get` gives back for the handle `insert` returned; the other
/// entries stay as they were.
pub proof fn law_get_after_insert<V>(before: Map<u64, V>, id: u64, value: V, other: u64)
    requires
        other != id,
    ensures
        before.insert(id, value).contains_key(id),
        before.insert(id, value)[id] == value,
        before.insert(id, value).contains_key(other) == before.contains_key(other),
        before.contains_key(other) ==> before.insert(id, value)[other] == before[other],
{
}

/// After `remove`, `get` finds nothing for the removed handle; the other entries stay as
/// they were.
pub proof fn law_get_after_remove<V>(before: Map<u64, V>, id: u64, other: u64)
    requires
        other != id,
    ensures
        !before.remove(id).contains_key(id),
        before.remove(id).contains_key(other) == before.contains_key(other),
        before.contains_key(other) ==> before.remove(id)[other] == before[other],
{
}

/// Inserting and then removing the handle that `insert` returned gives back the map
/// that was there before (but `next_id` has moved on).
pub proof fn law_remove_undoes_insert<V>(before: Map<u64, V>, id: u64, value: V)
    requires
        !before.contains_key(id),
    ensures
        before.insert(id, value).remove(id) == before,
{
    assert(before.insert(id, value).remove(id) =~= before);
}

/// Id 0 is never a handle: a map never holds it, and since ids count up from 1, `insert`
/// never hands it out (0 can stand for "no handle").
pub proof fn law_zero_is_never_a_handle<V, H: IdMapKey>(m: &IdMap<V, H>)
    requires
        m.wf(),
    ensures
        !m@.contains_key(0),
        m.next_id() >= 1,
{
}

/// One call that may change an `IdMap`, as the laws over sequences of calls see it.
/// `Read` stands for the calls through `&self` (`get`, `iter`, `keys`, `values`, `len`,
/// `is_empty`, `peek_next_id`), which change nothing.
pub enum IdMapCall<V> {
    Insert(V),
    Remove(u64),
    GetMut(u64),
    IterMut,
    Read,
}

/// How a map's contents and next id, `before` and `after`, are related by one call, as that
/// call's contract states it (values written through `get_mut` and `iter_mut` are free).
pub open spec fn id_map_step<V>(
    before: (Map<u64, V>, int),
    after: (Map<u64, V>, int),
    call: IdMapCall<V>,
) -> bool {
    match call {
        IdMapCall::Insert(v) => {
            &&& 1 <= before.1 < u64::MAX
            &&& after.0 == before.0.insert(before.1 as u64, v)
            &&& after.1 == before.1 + 1
        },
        IdMapCall::Remove(id) => after.0 == before.0.remove(id) && after.1 == before.1,
        IdMapCall::GetMut(id) => {
            &&& after.1 == before.1
            &&& after.0.dom() =~= before.0.dom()
            &&& forall|k: u64| k != id && #[trigger] before.0.contains_key(k) ==> after.0[k] == before.0[k]
        },
        IdMapCall::IterMut => after.1 == before.1 && after.0.dom() == before.0.dom(),
        IdMapCall::Read => after == before,
    }
}

/// `states` are the contents and next ids of a map from `IdMap::new()` on, one more than
/// `calls`, each call leading from one state to the next.
pub open spec fn id_map_run<V>(states: Seq<(Map<u64, V>, int)>, calls: Seq<IdMapCall<V>>) -> bool {
    &&& states.len() == calls.len() + 1
    &&& states[0] == (Map::<u64, V>::empty(), 1int)
    &&& forall|i: int|
        0 <= i < calls.len() ==> #[trigger] id_map_step(states[i], states[i + 1], calls[i])
}

/// The call at `i` of a run leads from the state before it to the state after it.
proof fn lemma_run_step<V>(states: Seq<(Map<u64, V>, int)>, calls: Seq<IdMapCall<V>>, i: int)
    requires
        id_map_run(states, calls),
        0 <= i < calls.len(),
    ensures
        id_map_step(states[i], states[i + 1], calls[i]),
{
}

/// The number of inserts among the first `n` calls.
pub open spec fn inserts_in<V>(calls: Seq<IdMapCall<V>>, n: int) -> nat
    decreases n,
{
    if n <= 0 {
        0
    } else {
        inserts_in(calls, n - 1) + if calls[n - 1] is Insert {
            1nat
        } else {
            0nat
        }
    }
}

/// The number of removes among the first `n` calls that found their handle, that is
/// that returned `Some`.
pub open spec fn removals_in<V>(
    states: Seq<(Map<u64, V>, int)>,
    calls: Seq<IdMapCall<V>>,
    n: int,
) -> nat
    decreases n,
{
    if n <= 0 {
        0
    } else {
        removals_in(states, calls, n - 1) + match calls[n - 1] {
            IdMapCall::Remove(id) => if states[n - 1].0.contains_key(id) {
                1nat
            } else {
                0nat
            },
            _ => 0nat,
        }
    }
}

/// Counting over any sequence of calls from `new`: the next id is one more than the
/// number of inserts; the number of values is the number of inserts less the number of
/// removes that returned `Some`; and every stored id lies in `1..next id`.
pub proof fn law_id_map_counts<V>(states: Seq<(Map<u64, V>, int)>, calls: Seq<IdMapCall<V>>, n: int)
    requires
        id_map_run(states, calls),
        0 <= n <= calls.len(),
    ensures
        states[n].1 == 1 + inserts_in(calls, n),
        states[n].0.dom().finite(),
        states[n].0.len() + removals_in(states, calls, n) == inserts_in(calls, n),
        forall|id: u64| #[trigger] states[n].0.contains_key(id) ==> 1 <= id < states[n].1,
    decreases n,
{
    if n == 0 {
        assert(states[0].0.dom() =~= Set::<u64>::empty());
    } else {
        law_id_map_counts(states, calls, n - 1);
        let a = states[n - 1];
        let b = states[n];
        lemma_run_step(states, calls, n - 1);
        match calls[n - 1] {
            IdMapCall::Insert(v) => {
                assert(!a.0.contains_key(a.1 as u64));
                assert(b.0.dom() =~= a.0.dom().insert(a.1 as u64));
            },
            IdMapCall::Remove(id) => {
                assert(b.0.dom() =~= a.0.dom().remove(id));
            },
            _ => {},
        }
    }
}

/// The next id never goes down along a run.
proof fn lemma_next_id_grows<V>(
    states: Seq<(Map<u64, V>, int)>,
    calls: Seq<IdMapCall<V>>,
    i: int,
    j: int,
)
    requires
        id_map_run(states, calls),
        0 <= i <= j <= calls.len(),
    ensures
        states[i].1 <= states[j].1,
    decreases j - i,
{
    if i < j {
        lemma_next_id_grows(states, calls, i, j - 1);
        lemma_run_step(states, calls, j - 1);
    }
}

/// Handles come out strictly increasing: of two inserts in a run, the later one hands
/// out the larger id (the id an insert hands out is the next id before it).
pub proof fn law_id_map_handles_increase<V>(
    states: Seq<(Map<u64, V>, int)>,
    calls: Seq<IdMapCall<V>>,
    i: int,
    j: int,
)
    requires
        id_map_run(states, calls),
        0 <= i < j < calls.len(),
        calls[i] is Insert,
    ensures
        states[i].1 < states[j].1,
{
    lemma_run_step(states, calls, i);
    lemma_next_id_grows(states, calls, i + 1, j);
}

/// A removed handle stays invalid for good: once a handle that was handed out is removed,
/// no later state holds its id, and no later insert hands it out again.
pub proof fn law_id_map_removed_stays_gone<V>(
    states: Seq<(Map<u64, V>, int)>,
    calls: Seq<IdMapCall<V>>,
    i: int,
    id: u64,
    j: int,
)
    requires
        id_map_run(states, calls),
        0 <= i < j <= calls.len(),
        calls[i] == IdMapCall::<V>::Remove(id),
        id < states[i].1,
    ensures
        !states[j].0.contains_key(id),
        id < states[j].1,
    decreases j - i,
{
    if j == i + 1 {
        lemma_run_step(states, calls, i);
    } else {
        law_id_map_removed_stays_gone(states, calls, i, id, j - 1);
        let a = states[j - 1];
        let b = states[j];
        lemma_run_step(states, calls, j - 1);
        match calls[j - 1] {
            IdMapCall::Insert(v) => {
                assert(b.0.dom() =~= a.0.dom().insert(a.1 as u64));
            },
            IdMapCall::Remove(r) => {
                assert(b.0.dom() =~= a.0.dom().remove(r));
            },
            _ => {},
        }
    }
}

} // verus!
