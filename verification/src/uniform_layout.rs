use crate::names::{
    lemma_bytes_lt_asymmetric, lemma_bytes_lt_transitive, lemma_name_lt_total, lemma_sorted_unique,
    name_less, name_lt, strictly_sorted,
};
use crate::uniform::{get_uniform_type_info, uniform_align, uniform_size, UniformDef};
use vstd::prelude::*;

verus! {

/// `x` rounded up to a multiple of `a`.
pub open spec fn align_up(x: int, a: int) -> int {
    (x + a - 1) / a * a
}

/// The end of the last slot when the uniforms of `defs` are laid out one after the other
/// in this order, each at the next offset aligned for its type.
pub open spec fn layout_end(defs: Seq<UniformDef>) -> int
    decreases defs.len(),
{
    if defs.len() == 0 {
        0
    } else {
        align_up(layout_end(defs.drop_last()), uniform_align(defs.last())) + uniform_size(
            defs.last(),
        )
    }
}

/// The largest alignment among `defs` (1 when there is none): a WGSL struct is aligned,
/// and its size rounded up, to it.
pub open spec fn max_align(defs: Seq<UniformDef>) -> int
    decreases defs.len(),
{
    if defs.len() == 0 {
        1
    } else if max_align(defs.drop_last()) < uniform_align(defs.last()) {
        uniform_align(defs.last())
    } else {
        max_align(defs.drop_last())
    }
}

/// The size of the WGSL struct of the uniforms `defs` laid out in this order: the end of
/// the last slot, rounded up to the largest alignment.
pub open spec fn block_size(defs: Seq<UniformDef>) -> int {
    align_up(layout_end(defs), max_align(defs))
}

proof fn lemma_max_align(defs: Seq<UniformDef>)
    ensures
        max_align(defs) == 1 || max_align(defs) == 4 || max_align(defs) == 8 || max_align(defs) == 16,
        forall|i: int| 0 <= i < defs.len() ==> uniform_align(#[trigger] defs[i]) <= max_align(defs),
    decreases defs.len(),
{
    if defs.len() > 0 {
        lemma_max_align(defs.drop_last());
        assert forall|i: int| 0 <= i < defs.len() implies uniform_align(#[trigger] defs[i]) <= max_align(defs) by {
            if i < defs.len() - 1 {
                assert(defs[i] == defs.drop_last()[i]);
            }
        }
    }
}

/// Rounding up to a block's alignment never makes it smaller, and adds less than the
/// alignment.
proof fn lemma_block_size(defs: Seq<UniformDef>)
    ensures
        layout_end(defs) <= block_size(defs) < layout_end(defs) + max_align(defs),
        block_size(defs) % max_align(defs) == 0,
        block_size(defs) <= 80 * defs.len() + 15,
{
    lemma_max_align(defs);
    lemma_layout_end_bound(defs);
    let x = layout_end(defs);
    let a = max_align(defs);
    assert(x <= (x + a - 1) / a * a < x + a && ((x + a - 1) / a * a) % a == 0)
        by (nonlinear_arith)
        requires
            a == 1 || a == 4 || a == 8 || a == 16,
            0 <= x,
    ;
}

/// The offset of the `i`-th uniform when `defs` are laid out in this order.
pub open spec fn slot_offset(defs: Seq<UniformDef>, i: int) -> int {
    align_up(layout_end(defs.take(i)), uniform_align(defs[i]))
}

/// No two uniforms in `defs` share a name.
pub open spec fn names_distinct(defs: Seq<(String, UniformDef)>) -> bool {
    forall|i: int, j: int| 0 <= i < j < defs.len() ==> defs[i].0@ != defs[j].0@
}

/// The type of the uniform called `name` in `defs`.
pub open spec fn def_named(defs: Seq<(String, UniformDef)>, name: Seq<char>) -> UniformDef {
    defs[choose|j: int| 0 <= j < defs.len() && defs[j].0@ == name].1
}

/// The types of the uniforms in `layout`, slot by slot, as `defs` gives them.
pub open spec fn layout_defs(
    defs: Seq<(String, UniformDef)>,
    layout: Seq<(Seq<char>, (usize, usize))>,
) -> Seq<UniformDef> {
    layout.map_values(|e: (Seq<char>, (usize, usize))| def_named(defs, e.0))
}

proof fn lemma_align_up(x: int, def: UniformDef)
    requires
        0 <= x,
    ensures
        x <= align_up(x, uniform_align(def)) <= x + uniform_align(def) - 1,
        align_up(x, uniform_align(def)) % uniform_align(def) == 0,
{
    let a = uniform_align(def);
    assert(x <= (x + a - 1) / a * a <= x + a - 1 && ((x + a - 1) / a * a) % a == 0)
        by (nonlinear_arith)
        requires
            a == 4 || a == 8 || a == 16,
            0 <= x,
    ;
}

proof fn lemma_layout_end_bound(defs: Seq<UniformDef>)
    ensures
        0 <= layout_end(defs) <= 80 * defs.len(),
    decreases defs.len(),
{
    if defs.len() > 0 {
        lemma_layout_end_bound(defs.drop_last());
        lemma_align_up(layout_end(defs.drop_last()), defs.last());
    }
}

proof fn lemma_layout_end_nonneg(defs: Seq<UniformDef>)
    ensures
        0 <= layout_end(defs),
    decreases defs.len(),
{
    lemma_layout_end_bound(defs);
}

/// The first `i + 1` uniforms end where the `i`-th one ends.
proof fn lemma_layout_end_step(defs: Seq<UniformDef>, i: int)
    requires
        0 <= i < defs.len(),
    ensures
        layout_end(defs.take(i + 1)) == slot_offset(defs, i) + uniform_size(defs[i]),
{
    assert(defs.take(i + 1).drop_last() =~= defs.take(i));
}

proof fn lemma_layout_end_monotone(defs: Seq<UniformDef>, a: int, b: int)
    requires
        0 <= a <= b <= defs.len(),
    ensures
        layout_end(defs.take(a)) <= layout_end(defs.take(b)),
    decreases b - a,
{
    if a < b {
        lemma_layout_end_monotone(defs, a, b - 1);
        lemma_layout_end_step(defs, b - 1);
        lemma_layout_end_nonneg(defs.take(b - 1));
        lemma_align_up(layout_end(defs.take(b - 1)), defs[b - 1]);
    }
}

/// Each uniform's slot starts at a multiple of its type's alignment, lies after the slot
/// before it, and ends within the buffer.
pub proof fn law_uniform_slots(defs: Seq<UniformDef>, i: int, j: int)
    requires
        0 <= i < j < defs.len(),
    ensures
        slot_offset(defs, i) % uniform_align(defs[i]) == 0,
        slot_offset(defs, i) + uniform_size(defs[i]) <= slot_offset(defs, j),
        slot_offset(defs, j) + uniform_size(defs[j]) <= layout_end(defs),
{
    lemma_slot_in_buffer(defs, i);
    lemma_slot_in_buffer(defs, j);
    lemma_layout_end_monotone(defs, i + 1, j);
    lemma_layout_end_step(defs, i);
    lemma_layout_end_nonneg(defs.take(j));
    lemma_align_up(layout_end(defs.take(j)), defs[j]);
}

/// A slot starts at a multiple of its alignment and ends within the buffer.
proof fn lemma_slot_in_buffer(defs: Seq<UniformDef>, i: int)
    requires
        0 <= i < defs.len(),
    ensures
        0 <= slot_offset(defs, i),
        slot_offset(defs, i) % uniform_align(defs[i]) == 0,
        slot_offset(defs, i) + uniform_size(defs[i]) <= layout_end(defs),
{
    lemma_layout_end_nonneg(defs.take(i));
    lemma_align_up(layout_end(defs.take(i)), defs[i]);
    lemma_layout_end_step(defs, i);
    lemma_layout_end_monotone(defs, i + 1, defs.len() as int);
    assert(defs.take(defs.len() as int) =~= defs);
}

/// The names of the uniforms in `defs`, in order.
pub open spec fn def_names(defs: Seq<(String, UniformDef)>) -> Seq<Seq<char>> {
    defs.map_values(|d: (String, UniformDef)| d.0@)
}

/// The uniforms in `defs` as name and type, in order.
pub open spec fn def_pairs(defs: Seq<(String, UniformDef)>) -> Seq<(Seq<char>, UniformDef)> {
    defs.map_values(|d: (String, UniformDef)| (d.0@, d.1))
}

/// The names of the slots of `layout`, in order.
pub open spec fn layout_names(layout: Seq<(Seq<char>, (usize, usize))>) -> Seq<Seq<char>> {
    layout.map_values(|e: (Seq<char>, (usize, usize))| e.0)
}

/// Two lists of uniforms that hold the same names with the same types.
pub open spec fn same_uniform_defs(d1: Seq<(String, UniformDef)>, d2: Seq<(String, UniformDef)>) -> bool {
    def_pairs(d1).to_set() == def_pairs(d2).to_set()
}

/// The slot names of a layout come in strictly increasing order.
proof fn lemma_layout_names_sorted(
    defs: Seq<(String, UniformDef)>,
    layout: Seq<(Seq<char>, (usize, usize))>,
    total: usize,
)
    requires
        is_layout_of(defs, layout, total),
    ensures
        strictly_sorted(layout_names(layout)),
        forall|n: Seq<char>| layout_names(layout).contains(n) <==> def_names(defs).contains(n),
{
    reveal(is_layout_of);
    let ns = layout_names(layout);
    assert forall|a: int, b: int| 0 <= a < b < ns.len() implies name_lt(#[trigger] ns[a], #[trigger] ns[b]) by {
        assert(name_lt(layout[a].0, layout[b].0));
    }
    assert forall|n: Seq<char>| ns.contains(n) <==> def_names(defs).contains(n) by {
        assert(ns.to_set().contains(n) == ns.contains(n));
        assert(def_names(defs).to_set().contains(n) == def_names(defs).contains(n));
    }
}

/// A name of `d1` is a name of `d2` with the same type, when both hold the same names with
/// the same types.
proof fn lemma_same_def_named(d1: Seq<(String, UniformDef)>, d2: Seq<(String, UniformDef)>, n: Seq<char>)
    requires
        names_distinct(d1),
        names_distinct(d2),
        same_uniform_defs(d1, d2),
        def_names(d1).contains(n),
    ensures
        def_names(d2).contains(n),
        def_named(d1, n) == def_named(d2, n),
{
    let j = choose|j: int| 0 <= j < d1.len() && def_names(d1)[j] == n;
    assert(d1[j].0@ == n);
    assert(def_pairs(d1)[j] == (n, d1[j].1));
    assert(def_pairs(d2).to_set().contains((n, d1[j].1)));
    let k = choose|k: int| 0 <= k < d2.len() && def_pairs(d2)[k] == (n, d1[j].1);
    assert(d2[k].0@ == n && d2[k].1 == d1[j].1);
    assert(def_names(d2)[k] == n);
    let j1 = choose|j: int| 0 <= j < d1.len() && d1[j].0@ == n;
    let k1 = choose|k: int| 0 <= k < d2.len() && d2[k].0@ == n;
    if j1 != j {
        if j1 < j {
            assert(d1[j1].0@ != d1[j].0@);
        } else {
            assert(d1[j].0@ != d1[j1].0@);
        }
    }
    if k1 != k {
        if k1 < k {
            assert(d2[k1].0@ != d2[k].0@);
        } else {
            assert(d2[k].0@ != d2[k1].0@);
        }
    }
}

/// The layout of a material's uniforms does not depend on the order in which they are
/// given: the same names with the same types always give the same layout and size.
pub proof fn law_layout_order_independent(
    d1: Seq<(String, UniformDef)>,
    d2: Seq<(String, UniformDef)>,
    l1: Seq<(Seq<char>, (usize, usize))>,
    l2: Seq<(Seq<char>, (usize, usize))>,
    t1: usize,
    t2: usize,
)
    requires
        names_distinct(d1),
        names_distinct(d2),
        same_uniform_defs(d1, d2),
        is_layout_of(d1, l1, t1),
        is_layout_of(d2, l2, t2),
    ensures
        l1 == l2,
        t1 == t2,
{
    let n1 = layout_names(l1);
    let n2 = layout_names(l2);
    lemma_layout_names_sorted(d1, l1, t1);
    lemma_layout_names_sorted(d2, l2, t2);
    assert forall|n: Seq<char>| n1.contains(n) <==> n2.contains(n) by {
        if def_names(d1).contains(n) {
            lemma_same_def_named(d1, d2, n);
        }
        if def_names(d2).contains(n) {
            assert(same_uniform_defs(d2, d1));
            lemma_same_def_named(d2, d1, n);
        }
    }
    lemma_sorted_unique(n1, n2);
    assert forall|i: int| 0 <= i < l1.len() implies #[trigger] layout_defs(d1, l1)[i] == layout_defs(d2, l2)[i] by {
        assert(n1[i] == n2[i]);
        assert(n1.contains(l1[i].0));
        lemma_same_def_named(d1, d2, l1[i].0);
    }
    assert(layout_defs(d1, l1) =~= layout_defs(d2, l2));
    reveal(is_layout_of);
    assert forall|i: int| 0 <= i < l1.len() implies l1[i] == l2[i] by {
        assert(n1[i] == n2[i]);
    }
    assert(l1 =~= l2);
}

/// The indices of `defs` in the order of their names.
fn sorted_order(defs: &Vec<(String, UniformDef)>) -> (order: Vec<usize>)
    requires
        names_distinct(defs@),
    ensures
        order.len() == defs.len(),
        forall|a: int| 0 <= a < order.len() ==> order[a] < defs.len(),
        order@.no_duplicates(),
        forall|a: int, b: int|
            0 <= a < b < order.len() ==> name_lt(
                #[trigger] defs@[order[a] as int].0@,
                #[trigger] defs@[order[b] as int].0@,
            ),
{
    let mut order: Vec<usize> = Vec::new();
    let mut k: usize = 0;
    while k < defs.len()
        invariant
            k <= defs.len(),
            names_distinct(defs@),
            order.len() == k,
            forall|a: int| 0 <= a < order.len() ==> order[a] < k,
            order@.no_duplicates(),
            forall|a: int, b: int|
                0 <= a < b < order.len() ==> name_lt(
                    #[trigger] defs@[order[a] as int].0@,
                    #[trigger] defs@[order[b] as int].0@,
                ),
        decreases defs.len() - k,
    {
        let mut p: usize = 0;
        while p < order.len() && !name_less(&defs[k].0, &defs[order[p]].0)
            invariant
                p <= order.len(),
                k < defs.len(),
                forall|a: int| 0 <= a < order.len() ==> order[a] < k,
                forall|a: int|
                    0 <= a < p ==> !name_lt(
                        defs@[k as int].0@,
                        #[trigger] defs@[order[a] as int].0@,
                    ),
            decreases order.len() - p,
        {
            p = p + 1;
        }
        let ghost old_order = order@;
        let ghost key = defs@[k as int].0@;
        proof {
            assert forall|a: int| 0 <= a < p implies name_lt(
                #[trigger] defs@[old_order[a] as int].0@,
                key,
            ) by {
                assert(old_order[a] < k);
                assert(defs@[old_order[a] as int].0@ != key);
                lemma_name_lt_total(defs@[old_order[a] as int].0@, key);
            }
        }
        order.insert(p, k);
        proof {
            assert(order@ == old_order.insert(p as int, k));
            assert forall|a: int, b: int| 0 <= a < b < order.len() implies name_lt(
                #[trigger] defs@[order[a] as int].0@,
                #[trigger] defs@[order[b] as int].0@,
            ) by {
                if b < p {
                    assert(order[a] == old_order[a] && order[b] == old_order[b]);
                } else if b == p {
                    assert(order[a] == old_order[a]);
                } else if a == p {
                    assert(order[b] == old_order[b - 1]);
                    assert(name_lt(key, defs@[old_order[p as int] as int].0@));
                    if b - 1 > p {
                        lemma_bytes_lt_transitive(
                            vstd::utf8::encode_utf8(key),
                            vstd::utf8::encode_utf8(defs@[old_order[p as int] as int].0@),
                            vstd::utf8::encode_utf8(defs@[old_order[b - 1] as int].0@),
                        );
                    }
                } else if a < p {
                    assert(order[a] == old_order[a] && order[b] == old_order[b - 1]);
                    if a < b - 1 {
                    } else {
                    }
                } else {
                    assert(order[a] == old_order[a - 1] && order[b] == old_order[b - 1]);
                }
            }
            assert forall|a: int, b: int|
                0 <= a < order.len() && 0 <= b < order.len() && a != b implies order[a]
                != order[b] by {
                if a < p && b < p {
                    assert(old_order[a] != old_order[b]);
                } else if a > p && b > p {
                    assert(old_order[a - 1] != old_order[b - 1]);
                } else if a < p && b > p {
                    assert(old_order[a] != old_order[b - 1]);
                } else if a > p && b < p {
                    assert(old_order[a - 1] != old_order[b]);
                }
            }
        }
        k = k + 1;
    }
    order
}

/// `layout` and `total` are the layout of the uniforms `defs` in a uniform buffer and the
/// buffer's size: the layout lists every name of `defs` once, in the order of names, and
/// gives each the offset and size that laying them out in this order gives; the buffer's
/// size is that of the WGSL struct of these members: where the last slot ends, rounded up
/// to the largest alignment among them.
#[verifier::opaque]
pub open spec fn is_layout_of(
    defs: Seq<(String, UniformDef)>,
    layout: Seq<(Seq<char>, (usize, usize))>,
    total: usize,
) -> bool {
    &&& layout.len() == defs.len()
    &&& forall|a: int, b: int|
        0 <= a < b < layout.len() ==> name_lt(#[trigger] layout[a].0, #[trigger] layout[b].0)
    &&& layout_names(layout).to_set() == def_names(defs).to_set()
    &&& forall|i: int|
        #![trigger layout[i]]
        0 <= i < layout.len() ==> layout[i].1.0 == slot_offset(layout_defs(defs, layout), i)
            && layout[i].1.1 == uniform_size(layout_defs(defs, layout)[i])
    &&& total == block_size(layout_defs(defs, layout))
    &&& forall|i: int| 0 <= i < layout.len() ==> #[trigger] layout[i].1.0 + layout[i].1.1 <= total
}

/// Lays out a material's user uniforms in its uniform buffer and returns the layout and
/// the buffer's total size in bytes. The uniforms are placed in the order of their names
/// (so that the layout does not depend on the order in which they are given), each at the
/// next offset aligned for its type under the WGSL rules, and the total is rounded up to
/// the largest alignment among them, as WGSL sizes a struct.
pub fn calculate_uniform_offsets_and_total_size(uniform_defs: &Vec<(String, UniformDef)>) -> (result:
    (UniformLayout, usize))
    requires
        names_distinct(uniform_defs@),
        uniform_defs.len() <= usize::MAX / 128,
    ensures
        is_layout_of(uniform_defs@, result.0@, result.1),
        result.0.fits(result.1),
{
    let order = sorted_order(uniform_defs);
    let ghost ds = defs_in_order(uniform_defs@, order@);
    let mut entries: Vec<(String, (usize, usize))> = Vec::new();
    let mut current_offset: usize = 0;
    let mut max_alignment: usize = 1;
    let mut i: usize = 0;
    while i < order.len()
        invariant
            i <= order.len(),
            max_alignment == max_align(ds.take(i as int)),
            order.len() == uniform_defs.len(),
            uniform_defs.len() <= usize::MAX / 128,
            forall|a: int| 0 <= a < order.len() ==> order[a] < uniform_defs.len(),
            ds == defs_in_order(uniform_defs@, order@),
            entries.len() == i,
            current_offset == layout_end(ds.take(i as int)),
            forall|t: int|
                #![trigger entries[t]]
                0 <= t < i ==> entries[t].0@ == uniform_defs@[order[t] as int].0@
                    && entries[t].1.0 == slot_offset(ds, t) && entries[t].1.1 == uniform_size(
                    ds[t],
                ),
        decreases order.len() - i,
    {
        let idx = order[i];
        let (uniform_size_bytes, uniform_alignment) = get_uniform_type_info(&uniform_defs[idx].1);
        proof {
            lemma_layout_end_bound(ds.take(i as int));
            lemma_align_up(current_offset as int, ds[i as int]);
            assert(ds.take(i as int + 1).drop_last() =~= ds.take(i as int));
            assert(ds.take(i as int + 1).last() == ds[i as int]);
        }
        let aligned_offset = (current_offset + uniform_alignment - 1) / uniform_alignment
            * uniform_alignment;
        if max_alignment < uniform_alignment {
            max_alignment = uniform_alignment;
        }
        let name = uniform_defs[idx].0.clone();
        entries.push((name, (aligned_offset, uniform_size_bytes)));
        current_offset = aligned_offset + uniform_size_bytes;
        i = i + 1;
    }
    let layout = UniformLayout { entries };
    proof {
        assert(ds.take(order.len() as int) =~= ds);
        lemma_block_size(ds);
        lemma_max_align(ds);
    }
    let total = (current_offset + max_alignment - 1) / max_alignment * max_alignment;
    proof {
        lemma_layout_result(uniform_defs@, order@, layout@, total);
        reveal(is_layout_of);
    }
    (layout, total)
}

/// The types of `defs`, taken in the order `order` gives.
pub open spec fn defs_in_order(defs: Seq<(String, UniformDef)>, order: Seq<usize>) -> Seq<UniformDef> {
    order.map_values(|o: usize| defs[o as int].1)
}

/// The types that a layout built in the order `order` gives its slots are those of
/// `defs` in that order.
proof fn lemma_layout_defs(
    defs: Seq<(String, UniformDef)>,
    order: Seq<usize>,
    layout: Seq<(Seq<char>, (usize, usize))>,
)
    requires
        names_distinct(defs),
        layout.len() == order.len(),
        forall|a: int| 0 <= a < order.len() ==> order[a] < defs.len(),
        forall|t: int|
            #![trigger layout[t]]
            0 <= t < layout.len() ==> layout[t].0 == defs[order[t] as int].0@,
    ensures
        layout_defs(defs, layout) == defs_in_order(defs, order),
{
    let ds = defs_in_order(defs, order);
    assert forall|t: int| 0 <= t < order.len() implies #[trigger] layout_defs(defs, layout)[t]
        == ds[t] by {
        let name = layout[t].0;
        assert(name == defs[order[t] as int].0@);
        let j = choose|j: int| 0 <= j < defs.len() && defs[j].0@ == name;
        if j != order[t] as int {
            if j < order[t] as int {
                assert(defs[j].0@ != defs[order[t] as int].0@);
            } else {
                assert(defs[order[t] as int].0@ != defs[j].0@);
            }
        }
    }
    assert(layout_defs(defs, layout) =~= ds);
}

/// A layout built in the order `order` (all indices of `defs`, once each) has a slot for
/// every name of `defs`, and no other.
proof fn lemma_layout_covers(
    defs: Seq<(String, UniformDef)>,
    order: Seq<usize>,
    layout: Seq<(Seq<char>, (usize, usize))>,
)
    requires
        order.len() == defs.len(),
        forall|a: int| 0 <= a < order.len() ==> order[a] < defs.len(),
        order.no_duplicates(),
        layout.len() == order.len(),
        forall|t: int|
            #![trigger layout[t]]
            0 <= t < layout.len() ==> layout[t].0 == defs[order[t] as int].0@,
    ensures
        layout_names(layout).to_set() == def_names(defs).to_set(),
{
    assert forall|n: Seq<char>| #[trigger] layout_names(layout).to_set().contains(n) <==> def_names(defs).to_set().contains(n) by {
        if layout_names(layout).contains(n) {
            let t = choose|t: int| 0 <= t < layout.len() && layout_names(layout)[t] == n;
            assert(layout[t].0 == n);
            assert(def_names(defs)[order[t] as int] == n);
        }
        if def_names(defs).contains(n) {
            let j = choose|j: int| 0 <= j < defs.len() && def_names(defs)[j] == n;
            lemma_order_covers(order, defs.len() as nat, j);
            let t = choose|t: int| 0 <= t < order.len() && order[t] as int == j;
            assert(layout_names(layout)[t] == n);
        }
    }
    assert(layout_names(layout).to_set() =~= def_names(defs).to_set());
}

/// The slots of a layout built in the order `order` (the indices of `defs` sorted by
/// name) make up the layout of `defs`.
proof fn lemma_layout_result(
    defs: Seq<(String, UniformDef)>,
    order: Seq<usize>,
    layout: Seq<(Seq<char>, (usize, usize))>,
    total: usize,
)
    requires
        names_distinct(defs),
        order.len() == defs.len(),
        forall|a: int| 0 <= a < order.len() ==> order[a] < defs.len(),
        order.no_duplicates(),
        forall|a: int, b: int|
            0 <= a < b < order.len() ==> name_lt(
                #[trigger] defs[order[a] as int].0@,
                #[trigger] defs[order[b] as int].0@,
            ),
        layout.len() == order.len(),
        forall|t: int|
            #![trigger layout[t]]
            0 <= t < layout.len() ==> layout[t].0 == defs[order[t] as int].0@
                && layout[t].1.0 == slot_offset(defs_in_order(defs, order), t)
                && layout[t].1.1 == uniform_size(defs_in_order(defs, order)[t]),
        total == block_size(defs_in_order(defs, order)),
    ensures
        is_layout_of(defs, layout, total),
{
    let ds = defs_in_order(defs, order);
    lemma_block_size(ds);
    lemma_layout_defs(defs, order, layout);
    lemma_layout_covers(defs, order, layout);
    assert forall|t: int| 0 <= t < layout.len() implies #[trigger] layout[t].1.0 + layout[t].1.1
        <= total by {
        lemma_slot_in_buffer(ds, t);
    }
    assert forall|a: int, b: int| 0 <= a < b < layout.len() implies name_lt(
        #[trigger] layout[a].0,
        #[trigger] layout[b].0,
    ) by {
        assert(name_lt(defs[order[a] as int].0@, defs[order[b] as int].0@));
    }
    assert(is_layout_of(defs, layout, total)) by {
        reveal(is_layout_of);
    }
}

/// A duplicate-free list of `n` indices below `n` holds every index below `n`.
proof fn lemma_order_covers(order: Seq<usize>, n: nat, j: int)
    requires
        order.len() == n,
        order.no_duplicates(),
        forall|a: int| 0 <= a < order.len() ==> order[a] < n,
        0 <= j < n,
    ensures
        exists|t: int| 0 <= t < order.len() && order[t] as int == j,
{
    let s = order.map_values(|o: usize| o as int);
    let full = Set::new(|x: int| 0 <= x < n);
    assert(s.to_set().subset_of(full)) by {
        assert forall|x: int| s.to_set().contains(x) implies full.contains(x) by {
            let a = choose|a: int| 0 <= a < s.len() && s[a] == x;
        }
    }
    assert(s.no_duplicates()) by {
        assert forall|a: int, b: int| 0 <= a < s.len() && 0 <= b < s.len() && a != b implies s[a]
            != s[b] by {
            assert(order[a] != order[b]);
        }
    }
    s.unique_seq_to_set();
    vstd::set_lib::lemma_int_range(0, n as int);
    assert(full =~= vstd::set_lib::set_int_range(0, n as int));
    vstd::set_lib::lemma_subset_equality(s.to_set(), full);
    if !(exists|t: int| 0 <= t < order.len() && order[t] as int == j) {
        assert(!s.to_set().contains(j)) by {
            if s.to_set().contains(j) {
                let a = choose|a: int| 0 <= a < s.len() && s[a] == j;
                assert(order[a] as int == j);
            }
        }
        assert(full.contains(j));
    }
}

/// Offset and size in bytes of each user uniform in a material's uniform buffer, listed
/// by name in the order of Rust's `String`.
pub struct UniformLayout {
    entries: Vec<(String, (usize, usize))>,
}

impl View for UniformLayout {
    type V = Seq<(Seq<char>, (usize, usize))>;

    closed spec fn view(&self) -> Seq<(Seq<char>, (usize, usize))> {
        self.entries@.map_values(|e: (String, (usize, usize))| (e.0@, e.1))
    }
}

impl UniformLayout {
    /// Every slot lies within a buffer of `total` bytes.
    pub open spec fn fits(&self, total: usize) -> bool {
        forall|i: int| 0 <= i < self@.len() ==> #[trigger] self@[i].1.0 + self@[i].1.1 <= total
    }

    /// Offset and size of the uniform called `name`, if the layout has one.
    pub fn get(&self, name: &String) -> (slot: Option<(usize, usize)>)
        ensures
            match slot {
                Some(s) => exists|i: int|
                    0 <= i < self@.len() && #[trigger] self@[i] == (name@, s),
                None => forall|i: int| 0 <= i < self@.len() ==> #[trigger] self@[i].0 != name@,
            },
    {
        let mut i: usize = 0;
        while i < self.entries.len()
            invariant
                i <= self.entries.len(),
                forall|j: int| 0 <= j < i ==> #[trigger] self@[j].0 != name@,
            decreases self.entries.len() - i,
        {
            if self.entries[i].0 == *name {
                assert(self@[i as int] == (name@, self.entries[i as int].1));
                return Some(self.entries[i].1);
            }
            i = i + 1;
        }
        None
    }

    /// Whether the layout has a uniform called `name`.
    pub fn contains_key(&self, name: &String) -> (found: bool)
        ensures
            found == exists|i: int| 0 <= i < self@.len() && #[trigger] self@[i].0 == name@,
    {
        match self.get(name) {
            Some(s) => {
                proof {
                    let i = choose|i: int| 0 <= i < self@.len() && #[trigger] self@[i] == (name@, s);
                    assert(self@[i].0 == name@);
                }
                true
            },
            None => false,
        }
    }

    /// The slots, each as the uniform's name, offset and size.
    pub fn entries(&self) -> (entries: &Vec<(String, (usize, usize))>)
        ensures
            entries@.map_values(|e: (String, (usize, usize))| (e.0@, e.1)) == self@,
    {
        &self.entries
    }
}

} // verus!
