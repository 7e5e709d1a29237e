use crate::uniform::{uniform_eq, uniform_equal, Uniform};
use vstd::prelude::*;

verus! {

/// The current values of a material's user uniforms, by name (each name once).
pub struct UniformValues {
    entries: Vec<(String, Uniform)>,
}

impl View for UniformValues {
    type V = Seq<(Seq<char>, Uniform)>;

    closed spec fn view(&self) -> Seq<(Seq<char>, Uniform)> {
        self.entries@.map_values(|e: (String, Uniform)| (e.0@, e.1))
    }
}

/// Whether `name` has a value in `values`, and which.
pub open spec fn value_named(values: Seq<(Seq<char>, Uniform)>, name: Seq<char>) -> Option<
    Uniform,
> {
    if exists|i: int| 0 <= i < values.len() && #[trigger] values[i].0 == name {
        Some(values[choose|i: int| 0 <= i < values.len() && #[trigger] values[i].0 == name].1)
    } else {
        None
    }
}

/// Equality of two sets of uniform values as maps (`PartialEq` of a map): the same number
/// of names, and every name of `a` has a float-equal value in `b`.
pub open spec fn values_eq(a: Seq<(Seq<char>, Uniform)>, b: Seq<(Seq<char>, Uniform)>) -> bool {
    &&& a.len() == b.len()
    &&& forall|i: int|
        0 <= i < a.len() ==> match value_named(b, #[trigger] a[i].0) {
            Some(v) => uniform_eq(a[i].1, v),
            None => false,
        }
}

impl UniformValues {
    /// Each name occurs once.
    pub open spec fn wf(&self) -> bool {
        forall|i: int, j: int| 0 <= i < j < self@.len() ==> self@[i].0 != self@[j].0
    }

    /// No value.
    pub fn new() -> (v: Self)
        ensures
            v@ == Seq::<(Seq<char>, Uniform)>::empty(),
            v.wf(),
    {
        UniformValues { entries: Vec::new() }
    }

    /// The position of `name`, if it has a value.
    fn position(&self, name: &String) -> (p: Option<usize>)
        ensures
            match p {
                Some(i) => i < self@.len() && self@[i as int].0 == name@,
                None => forall|i: int| 0 <= i < self@.len() ==> #[trigger] self@[i].0 != name@,
            },
    {
        let mut i: usize = 0;
        while i < self.entries.len()
            invariant
                i <= self.entries.len(),
                forall|j: int| 0 <= j < i ==> #[trigger] self@[j].0 != name@,
            decreases self.entries.len() - i,
        {
            if self.entries[i].0 == *name {
                return Some(i);
            }
            i = i + 1;
        }
        None
    }

    /// The value of `name`, if it has one.
    pub fn get(&self, name: &String) -> (v: Option<Uniform>)
        requires
            self.wf(),
        ensures
            v == value_named(self@, name@),
    {
        match self.position(name) {
            Some(i) => {
                proof {
                    let j = choose|j: int| 0 <= j < self@.len() && #[trigger] self@[j].0 == name@;
                    assert(j == i as int) by {
                        if j < i {
                            assert(self@[j].0 != self@[i as int].0);
                        } else if j > i {
                            assert(self@[i as int].0 != self@[j].0);
                        }
                    }
                }
                Some(self.entries[i].1)
            },
            None => None,
        }
    }

    /// Sets the value of `name` (replacing any it had).
    pub fn insert(&mut self, name: String, value: Uniform)
        requires
            old(self).wf(),
        ensures
            final(self).wf(),
            value_named(final(self)@, name@) == Some(value),
            forall|n: Seq<char>| n != name@ ==> value_named(final(self)@, n) == value_named(old(self)@, n),
            (exists|i: int| 0 <= i < old(self)@.len() && #[trigger] old(self)@[i].0 == name@) ==> final(self)@.len() == old(self)@.len(),
            !(exists|i: int| 0 <= i < old(self)@.len() && #[trigger] old(self)@[i].0 == name@) ==> final(self)@.len() == old(self)@.len() + 1,
    {
        let ghost name_view = name@;
        match self.position(&name) {
            Some(i) => {
                self.entries.set(i, (name, value));
                proof {
                    assert(self@ == old(self)@.update(i as int, (name_view, value)));
                    assert forall|n: Seq<char>| #![auto] true implies value_named(self@, n) == if n == name_view {
                        Some(value)
                    } else {
                        value_named(old(self)@, n)
                    } by {
                        if exists|k: int| 0 <= k < self@.len() && #[trigger] self@[k].0 == n {
                            let k = choose|k: int| 0 <= k < self@.len() && #[trigger] self@[k].0 == n;
                            if n == name_view {
                                assert(k == i as int) by {
                                    if k != i as int {
                                        assert(old(self)@[k].0 == n);
                                        if k < i { assert(old(self)@[k].0 != old(self)@[i as int].0); }
                                        else { assert(old(self)@[i as int].0 != old(self)@[k].0); }
                                    }
                                }
                            } else {
                                assert(old(self)@[k].0 == n);
                                let k2 = choose|k: int| 0 <= k < old(self)@.len() && #[trigger] old(self)@[k].0 == n;
                                assert(k2 == k) by {
                                    if k2 != k {
                                        if k2 < k { assert(old(self)@[k2].0 != old(self)@[k].0); }
                                        else { assert(old(self)@[k].0 != old(self)@[k2].0); }
                                    }
                                }
                            }
                        } else {
                            if n == name_view {
                                assert(self@[i as int].0 == n);
                            }
                            if exists|k: int| 0 <= k < old(self)@.len() && #[trigger] old(self)@[k].0 == n {
                                let k = choose|k: int| 0 <= k < old(self)@.len() && #[trigger] old(self)@[k].0 == n;
                                if k != i as int {
                                    assert(self@[k].0 == n);
                                }
                            }
                        }
                    }
                }
            },
            None => {
                self.entries.push((name, value));
                proof {
                    assert(self@ == old(self)@.push((name_view, value)));
                    let last = old(self)@.len() as int;
                    assert forall|n: Seq<char>| #![auto] true implies value_named(self@, n) == if n == name_view {
                        Some(value)
                    } else {
                        value_named(old(self)@, n)
                    } by {
                        if n == name_view {
                            assert(self@[last].0 == n);
                            let k = choose|k: int| 0 <= k < self@.len() && #[trigger] self@[k].0 == n;
                            assert(k == last) by {
                                if k < last { assert(old(self)@[k].0 != name_view); }
                            }
                        } else {
                            if exists|k: int| 0 <= k < self@.len() && #[trigger] self@[k].0 == n {
                                let k = choose|k: int| 0 <= k < self@.len() && #[trigger] self@[k].0 == n;
                                assert(k < last);
                                assert(old(self)@[k].0 == n);
                                let k2 = choose|k: int| 0 <= k < old(self)@.len() && #[trigger] old(self)@[k].0 == n;
                                assert(k2 == k) by {
                                    if k2 != k {
                                        if k2 < k { assert(old(self)@[k2].0 != old(self)@[k].0); }
                                        else { assert(old(self)@[k].0 != old(self)@[k2].0); }
                                    }
                                }
                            } else {
                                if exists|k: int| 0 <= k < old(self)@.len() && #[trigger] old(self)@[k].0 == n {
                                    let k = choose|k: int| 0 <= k < old(self)@.len() && #[trigger] old(self)@[k].0 == n;
                                    assert(self@[k].0 == n);
                                }
                            }
                        }
                    }
                }
            },
        }
    }

    /// A copy with the same names and values.
    pub fn copy(&self) -> (c: Self)
        ensures
            c@ == self@,
    {
        let mut entries: Vec<(String, Uniform)> = Vec::new();
        let mut i: usize = 0;
        while i < self.entries.len()
            invariant
                i <= self.entries.len(),
                entries.len() == i,
                forall|k: int|
                    0 <= k < i ==> #[trigger] entries@[k].0@ == self.entries@[k].0@
                        && entries@[k].1 == self.entries@[k].1,
            decreases self.entries.len() - i,
        {
            let name = self.entries[i].0.clone();
            entries.push((name, self.entries[i].1));
            i = i + 1;
        }
        let c = UniformValues { entries };
        assert(c@ =~= self@);
        c
    }

    /// Whether the two sets of values are equal as maps, floats compared as floats.
    pub fn same_as(&self, other: &UniformValues) -> (r: bool)
        requires
            self.wf(),
            other.wf(),
        ensures
            r == values_eq(self@, other@),
    {
        if self.entries.len() != other.entries.len() {
            return false;
        }
        let mut i: usize = 0;
        while i < self.entries.len()
            invariant
                i <= self.entries.len(),
                self.entries.len() == other.entries.len(),
                other.wf(),
                forall|j: int|
                    0 <= j < i ==> match value_named(other@, #[trigger] self@[j].0) {
                        Some(v) => uniform_eq(self@[j].1, v),
                        None => false,
                    },
            decreases self.entries.len() - i,
        {
            match other.get(&self.entries[i].0) {
                Some(v) => {
                    if !uniform_equal(&self.entries[i].1, &v) {
                        assert(self@[i as int] == (self.entries@[i as int].0@, self.entries@[i as int].1));
                        assert(value_named(other@, self@[i as int].0) == Some(v));
                        assert(!uniform_eq(self@[i as int].1, v));
                        assert(!values_eq(self@, other@));
                        return false;
                    }
                },
                None => {
                    assert(self@[i as int] == (self.entries@[i as int].0@, self.entries@[i as int].1));
                    assert(value_named(other@, self@[i as int].0) is None);
                    assert(!values_eq(self@, other@));
                    return false;
                },
            }
            i = i + 1;
        }
        true
    }
}

} // verus!
