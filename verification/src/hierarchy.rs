//! What the order of [`crate::animation::hierarchy_order`] guarantees: each
//! node is placed once, after its parent.
use crate::animation::{
    bone_ids, bone_node, helper_ids, helper_node, hierarchy_steps, last_with_id, node_slot, place, place_all,
    placement_slots,
};
use crate::model::SpecModel;
use vstd::set_lib::{lemma_int_range, lemma_len_subset, set_int_range};
use vstd::prelude::*;

verus! {

/// Whether every parent slot is a root mark or a slot of the skeleton.
pub open spec fn parents_in_range(parents: Seq<i32>) -> bool {
    forall|i: int| 0 <= i < parents.len() ==> #[trigger] parents[i] < parents.len()
}

/// Whether `y` is `k` parent links up from `x`, through nodes that are all
/// slots of the skeleton and not yet placed.
spec fn reaches(parents: Seq<i32>, placed: Seq<bool>, x: int, y: int, k: nat) -> bool
    decreases k,
{
    &&& 0 <= x < parents.len()
    &&& x < placed.len()
    &&& !placed[x]
    &&& if k == 0 {
        x == y
    } else {
        parents[x] >= 0 && reaches(parents, placed, parents[x] as int, y, (k - 1) as nat)
    }
}

/// Whether the steps taken so far are sound: each places an unplaced
/// non-root node after its parent, no node is placed twice, and each placed
/// non-root node has its step.
spec fn well_placed(parents: Seq<i32>, placed: Seq<bool>, steps: Seq<(usize, usize)>) -> bool {
    &&& placed.len() == parents.len()
    &&& forall|k: int|
        0 <= k < steps.len() ==> {
            let c = #[trigger] steps[k].1 as int;
            &&& c < parents.len()
            &&& placed[c]
            &&& parents[c] >= 0
            &&& steps[k].0 as int == parents[c] as int
        }
    &&& forall|k: int|
        0 <= k < steps.len() ==> parents[#[trigger] steps[k].0 as int] < 0 || exists|j: int|
            0 <= j < k && #[trigger] steps[j].1 == steps[k].0
    &&& forall|j: int, k: int| 0 <= j < k < steps.len() ==> steps[j].1 != steps[k].1
    &&& forall|c: int|
        0 <= c < parents.len() && #[trigger] placed[c] && parents[c] >= 0 ==> exists|k: int|
            0 <= k < steps.len() && #[trigger] steps[k].1 == c
}

proof fn lemma_reaches_compose(parents: Seq<i32>, placed: Seq<bool>, a: int, b: int, c: int, i: nat, j: nat)
    requires
        reaches(parents, placed, a, b, i),
        reaches(parents, placed, b, c, j),
    ensures
        reaches(parents, placed, a, c, i + j),
    decreases i,
{
    if i > 0 {
        lemma_reaches_compose(parents, placed, parents[a] as int, b, c, (i - 1) as nat, j);
    }
}

/// Placing a node on a cycle of unplaced nodes never ends.
proof fn lemma_cycle_fails(parents: Seq<i32>, placed: Seq<bool>, x: int, c: nat, depth: nat)
    requires
        c >= 1,
        reaches(parents, placed, x, x, c),
    ensures
        place(parents, placed, x, depth) is None,
    decreases parents.len() + 1 - depth,
{
    if depth <= parents.len() {
        let p = parents[x] as int;
        assert(reaches(parents, placed, p, x, (c - 1) as nat));
        assert(reaches(parents, placed, x, p, 1)) by {
            assert(reaches(parents, placed, p, p, 0));
        }
        lemma_reaches_compose(parents, placed, p, x, p, (c - 1) as nat, 1);
        lemma_cycle_fails(parents, placed, p, c, depth + 1);
    }
}

/// A node that placing `x` newly marks lies on the chain of unplaced
/// ancestors of `x`.
proof fn lemma_newly_placed(parents: Seq<i32>, placed: Seq<bool>, x: int, depth: nat, y: int)
    requires
        placed.len() == parents.len(),
        place(parents, placed, x, depth) is Some,
        0 <= y < placed.len(),
        !placed[y],
        place(parents, placed, x, depth)->Some_0.0[y],
    ensures
        exists|k: nat| reaches(parents, placed, x, y, k),
    decreases parents.len() + 1 - depth,
{
    if 0 <= x < parents.len() && !placed[x] {
        let p = parents[x];
        if y == x {
            assert(reaches(parents, placed, x, y, 0));
        } else if p >= 0 {
            if p < parents.len() {
                let r = place(parents, placed, p as int, depth + 1);
                assert(r is Some);
                lemma_place_len(parents, placed, p as int, depth + 1);
                assert(place(parents, placed, x, depth)->Some_0.0 == r->Some_0.0.update(x, true));
                assert(r->Some_0.0[y]);
                lemma_newly_placed(parents, placed, p as int, depth + 1, y);
                let k = choose|k: nat| reaches(parents, placed, p as int, y, k);
                assert(reaches(parents, placed, x, y, k + 1));
            } else {
                assert(place(parents, placed, p as int, depth + 1)->Some_0.0 == placed);
            }
        }
    }
}

proof fn lemma_place_len(parents: Seq<i32>, placed: Seq<bool>, x: int, depth: nat)
    requires
        place(parents, placed, x, depth) is Some,
    ensures
        place(parents, placed, x, depth)->Some_0.0.len() == placed.len(),
    decreases parents.len() + 1 - depth,
{
    if 0 <= x < parents.len() && x < placed.len() && !placed[x] && parents[x] >= 0 {
        lemma_place_len(parents, placed, parents[x] as int, depth + 1);
    }
}

/// Placing a node of the skeleton marks it placed.
proof fn lemma_place_marks(parents: Seq<i32>, placed: Seq<bool>, x: int, depth: nat)
    requires
        parents_in_range(parents),
        placed.len() == parents.len(),
        0 <= x < parents.len(),
        place(parents, placed, x, depth) is Some,
    ensures
        place(parents, placed, x, depth)->Some_0.0[x],
        place(parents, placed, x, depth)->Some_0.0.len() == parents.len(),
        forall|c: int|
            0 <= c < placed.len() && #[trigger] placed[c] ==> place(
                parents,
                placed,
                x,
                depth,
            )->Some_0.0[c],
    decreases parents.len() + 1 - depth,
{
    if !placed[x] && parents[x] >= 0 {
        assert(parents[x] < parents.len());
        lemma_place_marks(parents, placed, parents[x] as int, depth + 1);
    }
}

/// Placing a node keeps the steps sound.
proof fn lemma_place_sound(
    parents: Seq<i32>,
    placed: Seq<bool>,
    steps: Seq<(usize, usize)>,
    x: int,
    depth: nat,
)
    requires
        parents_in_range(parents),
        parents.len() <= usize::MAX,
        well_placed(parents, placed, steps),
        place(parents, placed, x, depth) is Some,
    ensures
        well_placed(
            parents,
            place(parents, placed, x, depth)->Some_0.0,
            steps + place(parents, placed, x, depth)->Some_0.1,
        ),
    decreases parents.len() + 1 - depth,
{
    let (after, st) = place(parents, placed, x, depth)->Some_0;
    if !(0 <= x < parents.len()) || placed[x] {
        assert(steps + st =~= steps);
    } else if parents[x] < 0 {
        assert(steps + st =~= steps);
        assert forall|c: int|
            0 <= c < parents.len() && #[trigger] after[c] && parents[c] >= 0 implies exists|k: int|
            0 <= k < steps.len() && #[trigger] steps[k].1 == c by {
            assert(placed[c]);
        }
    } else {
        let p = parents[x] as int;
        assert(parents[x] < parents.len());
        lemma_place_sound(parents, placed, steps, p, depth + 1);
        lemma_place_marks(parents, placed, p, depth + 1);
        let (after_p, st_p) = place(parents, placed, p, depth + 1)->Some_0;
        let old_steps = steps + st_p;
        let new_steps = steps + st;
        assert(new_steps =~= old_steps.push((p as usize, x as usize)));
        assert(after =~= after_p.update(x, true));
        // The node itself was not placed on the way to its parent.
        if after_p[x] {
            lemma_newly_placed(parents, placed, p, depth + 1, x);
            let k = choose|k: nat| reaches(parents, placed, p, x, k);
            assert(reaches(parents, placed, x, p, 1)) by {
                assert(reaches(parents, placed, p, p, 0));
            }
            lemma_reaches_compose(parents, placed, p, x, p, k, 1);
            lemma_cycle_fails(parents, placed, p, k + 1, depth + 1);
        }
        let n = old_steps.len() as int;
        assert forall|k: int| 0 <= k < new_steps.len() implies {
            let c = #[trigger] new_steps[k].1 as int;
            &&& c < parents.len()
            &&& after[c]
            &&& parents[c] >= 0
            &&& new_steps[k].0 as int == parents[c] as int
        } by {
            if k < n {
                assert(new_steps[k] == old_steps[k]);
            }
        }
        assert forall|k: int| 0 <= k < new_steps.len() implies parents[#[trigger] new_steps[k].0 as int]
            < 0 || exists|j: int| 0 <= j < k && #[trigger] new_steps[j].1 == new_steps[k].0 by {
            if k < n {
                assert(new_steps[k] == old_steps[k]);
                if parents[old_steps[k].0 as int] >= 0 {
                    let j = choose|j: int| 0 <= j < k && #[trigger] old_steps[j].1 == old_steps[k].0;
                    assert(new_steps[j] == old_steps[j]);
                }
            } else if parents[p] >= 0 {
                assert(after_p[p]);
                let j = choose|j: int| 0 <= j < old_steps.len() && #[trigger] old_steps[j].1 == p;
                assert(new_steps[j] == old_steps[j]);
            }
        }
        assert forall|j: int, k: int| 0 <= j < k < new_steps.len() implies new_steps[j].1
            != new_steps[k].1 by {
            if k < n {
                assert(new_steps[k] == old_steps[k]);
                assert(new_steps[j] == old_steps[j]);
            } else {
                assert(new_steps[j] == old_steps[j]);
                assert(after_p[old_steps[j].1 as int]);
            }
        }
        assert forall|c: int|
            0 <= c < parents.len() && #[trigger] after[c] && parents[c] >= 0 implies exists|k: int|
            0 <= k < new_steps.len() && #[trigger] new_steps[k].1 == c by {
            if c == x {
                assert(new_steps[n].1 == c);
            } else {
                assert(after_p[c]);
                let k = choose|k: int| 0 <= k < old_steps.len() && #[trigger] old_steps[k].1 == c;
                assert(new_steps[k] == old_steps[k]);
            }
        }
    }
}

/// What placing the nodes `slots[k..]` leaves marked placed.
spec fn placed_by_all(parents: Seq<i32>, placed: Seq<bool>, slots: Seq<int>, k: int) -> Seq<bool>
    decreases slots.len() - k,
{
    if k < 0 || k >= slots.len() {
        placed
    } else {
        match place(parents, placed, slots[k], 0) {
            None => placed,
            Some((after, _)) => placed_by_all(parents, after, slots, k + 1),
        }
    }
}

/// Placing the nodes `slots[k..]` keeps the steps sound, keeps what was
/// placed, and places each of them.
proof fn lemma_place_all_sound(
    parents: Seq<i32>,
    placed: Seq<bool>,
    steps: Seq<(usize, usize)>,
    slots: Seq<int>,
    k: int,
)
    requires
        parents_in_range(parents),
        parents.len() <= usize::MAX,
        well_placed(parents, placed, steps),
        forall|j: int| 0 <= j < slots.len() ==> 0 <= #[trigger] slots[j] < parents.len(),
        0 <= k <= slots.len(),
        place_all(parents, placed, slots, k) is Some,
    ensures
        ({
            let fin = placed_by_all(parents, placed, slots, k);
            &&& well_placed(parents, fin, steps + place_all(parents, placed, slots, k)->Some_0)
            &&& forall|c: int| 0 <= c < placed.len() && #[trigger] placed[c] ==> fin[c]
            &&& forall|j: int| k <= j < slots.len() ==> fin[#[trigger] slots[j]]
        }),
    decreases slots.len() - k,
{
    let rest = place_all(parents, placed, slots, k)->Some_0;
    if k >= slots.len() {
        assert(steps + rest =~= steps);
    } else {
        let (after, st) = place(parents, placed, slots[k], 0)->Some_0;
        lemma_place_sound(parents, placed, steps, slots[k], 0);
        lemma_place_marks(parents, placed, slots[k], 0);
        lemma_place_all_sound(parents, after, steps + st, slots, k + 1);
        let rest2 = place_all(parents, after, slots, k + 1)->Some_0;
        assert(rest == st + rest2);
        assert(steps + st + rest2 =~= steps + rest);
        let fin = placed_by_all(parents, placed, slots, k);
        assert(fin == placed_by_all(parents, after, slots, k + 1));
        assert forall|c: int| 0 <= c < placed.len() && #[trigger] placed[c] implies fin[c] by {
            assert(after[c]);
        }
        assert forall|j: int| k <= j < slots.len() implies fin[#[trigger] slots[j]] by {
            if j == k {
                assert(after[slots[k]]);
            }
        }
    }
}

/// Every node of the skeleton is among the slots placed, in the order of
/// [`placement_slots`].
proof fn lemma_slots_cover(count: nat, bone_count: nat, c: int)
    requires
        0 <= c < count,
    ensures
        forall|j: int|
            0 <= j < placement_slots(count, bone_count).len() ==> 0 <= #[trigger] placement_slots(
                count,
                bone_count,
            )[j] < count,
        placement_slots(count, bone_count).len() == count,
        exists|j: int|
            0 <= j < placement_slots(count, bone_count).len() && #[trigger] placement_slots(
                count,
                bone_count,
            )[j] == c,
{
    let b = if bone_count <= count {
        bone_count
    } else {
        count
    };
    let s = placement_slots(count, bone_count);
    if c < b {
        assert(s[(count - b) + c] == c);
    } else {
        assert(s[c - b] == c);
    }
}

/// The steps of [`hierarchy_steps`], when the skeleton has no cycle, place
/// every non-root node exactly once, each relative to its parent and after
/// the step that places the parent, unless the parent is a root.  (This
/// holds when every parent slot is a root mark or a slot of the skeleton.)
pub proof fn law_parents_placed_first(parents: Seq<i32>, bone_count: nat)
    requires
        parents_in_range(parents),
        parents.len() <= usize::MAX,
    ensures
        hierarchy_steps(parents, bone_count) matches Some(st) ==> {
            &&& forall|k: int|
                0 <= k < st.len() ==> {
                    let c = #[trigger] st[k].1 as int;
                    &&& c < parents.len()
                    &&& parents[c] >= 0
                    &&& st[k].0 as int == parents[c] as int
                }
            &&& forall|k: int|
                0 <= k < st.len() ==> parents[#[trigger] st[k].0 as int] < 0 || exists|j: int|
                    0 <= j < k && #[trigger] st[j].1 == st[k].0
            &&& forall|j: int, k: int| 0 <= j < k < st.len() ==> st[j].1 != st[k].1
            &&& forall|c: int|
                0 <= c < parents.len() && #[trigger] parents[c] >= 0 ==> exists|k: int|
                    0 <= k < st.len() && #[trigger] st[k].1 == c
        },
{
    let n = parents.len();
    let start = Seq::new(n, |i: int| false);
    let slots = placement_slots(n, bone_count);
    if hierarchy_steps(parents, bone_count) is Some {
        let st = hierarchy_steps(parents, bone_count)->Some_0;
        let empty = Seq::<(usize, usize)>::empty();
        assert(well_placed(parents, start, empty));
        if n > 0 {
            lemma_slots_cover(n, bone_count, 0);
        }
        assert(slots.len() == n);
        assert forall|j: int| 0 <= j < slots.len() implies 0 <= #[trigger] slots[j] < parents.len() by {
            lemma_slots_cover(n, bone_count, 0);
        }
        lemma_place_all_sound(parents, start, empty, slots, 0);
        assert(empty + st =~= st);
        let fin = placed_by_all(parents, start, slots, 0);
        assert forall|c: int| 0 <= c < parents.len() && #[trigger] parents[c] >= 0 implies exists|k: int|
            0 <= k < st.len() && #[trigger] st[k].1 == c by {
            lemma_slots_cover(n, bone_count, c);
            let j = choose|j: int| 0 <= j < slots.len() && #[trigger] slots[j] == c;
            assert(fin[slots[j]]);
        }
    }
}

proof fn lemma_last_with_id(ids: Seq<u32>, key: i32)
    ensures
        last_with_id(ids, key) matches Some(k) ==> 0 <= k < ids.len() && ids[k] as i32 == key,
        last_with_id(ids, key) is None ==> forall|j: int| 0 <= j < ids.len() ==> #[trigger] ids[j] as i32 != key,
    decreases ids.len(),
{
    if ids.len() > 0 {
        lemma_last_with_id(ids.drop_last(), key);
        if last_with_id(ids, key) is None {
            assert forall|j: int| 0 <= j < ids.len() implies #[trigger] ids[j] as i32 != key by {
                if j < ids.len() - 1 {
                    assert(ids.drop_last()[j] == ids[j]);
                }
            }
        }
    }
}

/// The object id, read as a signed number, of the node at `slot` among all
/// nodes of a model (bones first, then helpers).
pub open spec fn slot_object_id(m: SpecModel, slot: int) -> i32 {
    if slot < m.bones.len() {
        m.bones[slot].object_id as i32
    } else {
        m.helpers[slot - m.bones.len()].object_id as i32
    }
}

/// Whether some bone or helper of a model has object id `p`.
pub open spec fn some_node_has_id(m: SpecModel, p: i32) -> bool {
    (exists|j: int| 0 <= j < m.bones.len() && #[trigger] m.bones[j].object_id as i32 == p) || (exists|
        j: int,
    | 0 <= j < m.helpers.len() && #[trigger] m.helpers[j].object_id as i32 == p)
}

/// The parent slot of each node names the node its parent id names: for a
/// parent id `p` that some bone or helper has as object id (0 included),
/// the slot is that of a node with object id `p`; it is -1 exactly for a
/// negative `p` or an id that no node has.  (This holds when the number of
/// nodes fits in an `i32`.)
pub proof fn law_parent_slot_names_parent(m: SpecModel, i: int)
    requires
        m.bones.len() + m.helpers.len() <= i32::MAX,
        0 <= i < m.bones.len() + m.helpers.len(),
    ensures
        ({
            let nb = m.bones.len() as int;
            let p = if i < nb {
                m.bones[i].parent_id
            } else {
                m.helpers[i - nb].parent_id
            };
            let slot = skeleton_parents(m)[i];
            &&& slot == -1 <==> (p < 0 || !some_node_has_id(m, p))
            &&& slot != -1 ==> 0 <= slot < m.bones.len() + m.helpers.len() && slot_object_id(m, slot as int)
                == p
        }),
{
    let nb = m.bones.len() as int;
    let p = if i < nb {
        m.bones[i].parent_id
    } else {
        m.helpers[i - nb].parent_id
    };
    let ps = skeleton_parents(m);
    if i < nb {
        assert(ps[i] == bone_node(m, i).parent);
    } else {
        assert(ps[i] == helper_node(m, i - nb).parent);
    }
    let bids = bone_ids(m);
    let hids = helper_ids(m);
    lemma_last_with_id(bids, p);
    lemma_last_with_id(hids, p);
    if p >= 0 {
        match last_with_id(hids, p) {
            Some(h) => {
                assert(hids[h] == m.helpers[h].object_id);
                assert(slot_object_id(m, nb + h) == p);
            },
            None => {
                assert forall|j: int| 0 <= j < m.helpers.len() implies #[trigger] m.helpers[j].object_id as i32
                    != p by {
                    assert(hids[j] == m.helpers[j].object_id);
                }
                match last_with_id(bids, p) {
                    Some(b) => {
                        assert(bids[b] == m.bones[b].object_id);
                    },
                    None => {
                        assert forall|j: int| 0 <= j < m.bones.len() implies #[trigger] m.bones[j].object_id
                            as i32 != p by {
                            assert(bids[j] == m.bones[j].object_id);
                        }
                    },
                }
            },
        }
    }
}

/// The parent slots of all nodes of a model's skeleton, bones first, then
/// helpers, as [`crate::animation::skeleton_nodes`] gives them.
pub open spec fn skeleton_parents(m: SpecModel) -> Seq<i32> {
    Seq::new(m.bones.len(), |i: int| bone_node(m, i).parent) + Seq::new(
        m.helpers.len(),
        |j: int| helper_node(m, j).parent,
    )
}

proof fn lemma_last_with_id_in(ids: Seq<u32>, key: i32)
    ensures
        last_with_id(ids, key) matches Some(i) ==> 0 <= i < ids.len(),
    decreases ids.len(),
{
    if ids.len() > 0 {
        lemma_last_with_id_in(ids.drop_last(), key);
    }
}

/// Every parent slot of a model's skeleton is -1 or a slot of the skeleton,
/// so the steps of [`hierarchy_steps`] for it place parents first (see
/// [`law_parents_placed_first`]).  (This holds when the number of nodes
/// fits in an `i32`.)
pub proof fn law_skeleton_parents_in_range(m: SpecModel)
    requires
        m.bones.len() + m.helpers.len() <= i32::MAX,
    ensures
        parents_in_range(skeleton_parents(m)),
        forall|i: int| 0 <= i < skeleton_parents(m).len() ==> #[trigger] skeleton_parents(m)[i] >= -1,
{
    let ps = skeleton_parents(m);
    let nb = m.bones.len() as int;
    assert forall|i: int| 0 <= i < ps.len() implies #[trigger] ps[i] < ps.len() && ps[i] >= -1 by {
        let pid = if i < nb {
            m.bones[i].parent_id
        } else {
            m.helpers[i - nb].parent_id
        };
        lemma_last_with_id_in(bone_ids(m), pid);
        lemma_last_with_id_in(helper_ids(m), pid);
        if i < nb {
            assert(ps[i] == bone_node(m, i).parent);
        } else {
            assert(ps[i] == helper_node(m, i - nb).parent);
        }
        match node_slot(bone_ids(m), helper_ids(m), pid) {
            Some(k) => {
                assert(0 <= k < nb + m.helpers.len());
            },
            None => {},
        }
    }
}

/// The node `k` parent links up from `x`.
pub open spec fn ancestor(parents: Seq<i32>, x: int, k: nat) -> int
    decreases k,
{
    if k == 0 {
        x
    } else {
        parents[ancestor(parents, x, (k - 1) as nat)] as int
    }
}

/// Whether `k` parent links can be followed from `x` through slots of the
/// skeleton.
pub open spec fn linked(parents: Seq<i32>, x: int, k: nat) -> bool {
    forall|i: nat|
        i <= k ==> {
            &&& 0 <= #[trigger] ancestor(parents, x, i) < parents.len()
            &&& i < k ==> parents[ancestor(parents, x, i)] >= 0
        }
}

/// Whether the parent links from `y`, through slots of the skeleton, come
/// back to `y` after `c` links.
pub open spec fn on_cycle(parents: Seq<i32>, y: int, c: nat) -> bool {
    &&& c >= 1
    &&& linked(parents, y, c)
    &&& ancestor(parents, y, c) == y
}

/// Whether the parent links of some node run in a cycle.
pub open spec fn has_cycle(parents: Seq<i32>) -> bool {
    exists|y: int, c: nat| on_cycle(parents, y, c)
}

proof fn lemma_ancestor_add(parents: Seq<i32>, x: int, a: nat, b: nat)
    ensures
        ancestor(parents, x, a + b) == ancestor(parents, ancestor(parents, x, a), b),
    decreases b,
{
    if b > 0 {
        lemma_ancestor_add(parents, x, a, (b - 1) as nat);
        assert((a + b - 1) as nat == a + (b - 1) as nat);
    }
}

/// A node whose placing fails starts a chain of parent links through slots
/// of the skeleton as long as the depth still allowed.
proof fn lemma_none_links(parents: Seq<i32>, placed: Seq<bool>, x: int, depth: nat)
    requires
        placed.len() == parents.len(),
        depth <= parents.len(),
        place(parents, placed, x, depth) is None,
    ensures
        linked(parents, x, (parents.len() - depth) as nat),
    decreases parents.len() - depth,
{
    let n = parents.len();
    assert(0 <= x < n && !placed[x] && parents[x] >= 0);
    let p = parents[x] as int;
    assert(place(parents, placed, p, depth + 1) is None);
    let k = (n - depth) as nat;
    assert forall|i: nat| i <= k implies {
        &&& 0 <= #[trigger] ancestor(parents, x, i) < parents.len()
        &&& i < k ==> parents[ancestor(parents, x, i)] >= 0
    } by {
        if i > 0 {
            lemma_ancestor_add(parents, x, 1, (i - 1) as nat);
            assert(ancestor(parents, x, 0) == x);
            assert(ancestor(parents, x, 1) == p);
            assert(depth + 1 <= n);
            lemma_none_links(parents, placed, p, depth + 1);
            assert(ancestor(parents, p, (i - 1) as nat) == ancestor(parents, x, i));
        }
    }
}

proof fn lemma_place_all_none_links(parents: Seq<i32>, placed: Seq<bool>, slots: Seq<int>, k: int)
    requires
        placed.len() == parents.len(),
        0 <= k <= slots.len(),
        place_all(parents, placed, slots, k) is None,
    ensures
        exists|x: int| linked(parents, x, parents.len()),
    decreases slots.len() - k,
{
    match place(parents, placed, slots[k], 0) {
        None => {
            lemma_none_links(parents, placed, slots[k], 0);
        },
        Some((after, _)) => {
            lemma_place_len(parents, placed, slots[k], 0);
            lemma_place_all_none_links(parents, after, slots, k + 1);
        },
    }
}

/// A chain of as many links as the skeleton has slots visits some node twice.
proof fn lemma_chain_repeats(parents: Seq<i32>, x: int)
    requires
        linked(parents, x, parents.len()),
    ensures
        exists|i: nat, j: nat|
            i < j <= parents.len() && ancestor(parents, x, i) == ancestor(parents, x, j),
{
    let n = parents.len();
    let s = Seq::new(n + 1, |i: int| ancestor(parents, x, i as nat));
    if !(exists|i: nat, j: nat| i < j <= parents.len() && ancestor(parents, x, i) == ancestor(parents, x, j)) {
        assert(s.no_duplicates()) by {
            assert forall|a: int, b: int| 0 <= a < s.len() && 0 <= b < s.len() && a != b implies s[a]
                != s[b] by {
                if a < b {
                    assert(!(ancestor(parents, x, a as nat) == ancestor(parents, x, b as nat)));
                } else {
                    assert(!(ancestor(parents, x, b as nat) == ancestor(parents, x, a as nat)));
                }
            }
        }
        s.unique_seq_to_set();
        lemma_int_range(0, n as int);
        assert(s.to_set().subset_of(set_int_range(0, n as int))) by {
            assert forall|v: int| s.to_set().contains(v) implies set_int_range(0, n as int).contains(v) by {
                let i = choose|i: int| 0 <= i < s.len() && s[i] == v;
                assert(0 <= ancestor(parents, x, i as nat) < n);
            }
        }
        lemma_len_subset(s.to_set(), set_int_range(0, n as int));
    }
}

/// Two visits of one node along a chain close a cycle.
proof fn lemma_repeat_is_cycle(parents: Seq<i32>, x: int, i: nat, j: nat)
    requires
        linked(parents, x, parents.len()),
        i < j <= parents.len(),
        ancestor(parents, x, i) == ancestor(parents, x, j),
    ensures
        on_cycle(parents, ancestor(parents, x, i), (j - i) as nat),
{
    let y = ancestor(parents, x, i);
    let c = (j - i) as nat;
    assert forall|m: nat| m <= c implies {
        &&& 0 <= #[trigger] ancestor(parents, y, m) < parents.len()
        &&& m < c ==> parents[ancestor(parents, y, m)] >= 0
    } by {
        lemma_ancestor_add(parents, x, i, m);
        assert(ancestor(parents, x, i + m) == ancestor(parents, y, m));
        assert(i + m <= parents.len());
    }
    lemma_ancestor_add(parents, x, i, c);
    assert(i + c == j);
}

/// Whether no node of the cycle through `y` is placed.
spec fn cycle_unplaced(parents: Seq<i32>, placed: Seq<bool>, y: int, c: nat) -> bool {
    forall|i: nat| i < c ==> !placed[#[trigger] ancestor(parents, y, i)]
}

proof fn lemma_reaches_along(parents: Seq<i32>, placed: Seq<bool>, x: int, m: nat, k: nat)
    requires
        placed.len() == parents.len(),
        forall|i: nat|
            m <= i <= m + k ==> 0 <= #[trigger] ancestor(parents, x, i) < parents.len() && !placed[ancestor(
                parents,
                x,
                i,
            )],
        forall|i: nat| m <= i < m + k ==> parents[#[trigger] ancestor(parents, x, i)] >= 0,
    ensures
        reaches(parents, placed, ancestor(parents, x, m), ancestor(parents, x, m + k), k),
    decreases k,
{
    assert(0 <= ancestor(parents, x, m) < parents.len());
    if k > 0 {
        assert(parents[ancestor(parents, x, m)] >= 0);
        lemma_reaches_along(parents, placed, x, m + 1, (k - 1) as nat);
        assert(ancestor(parents, x, m + 1) == parents[ancestor(parents, x, m)] as int);
        assert(m + 1 + (k - 1) as nat == m + k);
    }
}

/// From any node of an unplaced cycle, its links lead back to it through
/// unplaced nodes.
proof fn lemma_cycle_reaches(parents: Seq<i32>, placed: Seq<bool>, y: int, c: nat, i0: nat)
    requires
        placed.len() == parents.len(),
        on_cycle(parents, y, c),
        cycle_unplaced(parents, placed, y, c),
        i0 < c,
    ensures
        reaches(parents, placed, ancestor(parents, y, i0), ancestor(parents, y, i0), c),
{
    assert forall|i: nat|
        i0 <= i <= i0 + c implies 0 <= #[trigger] ancestor(parents, y, i) < parents.len() && !placed[ancestor(
        parents,
        y,
        i,
    )] by {
        let r = if i < c {
            i
        } else {
            (i - c) as nat
        };
        if i >= c {
            lemma_ancestor_add(parents, y, c, (i - c) as nat);
            assert(c + (i - c) as nat == i);
        }
        assert(ancestor(parents, y, i) == ancestor(parents, y, r));
        assert(0 <= ancestor(parents, y, r) < parents.len());
        if r < c {
            assert(!placed[ancestor(parents, y, r)]);
        } else {
            assert(r == c);
            assert(ancestor(parents, y, c) == y);
            assert(!placed[ancestor(parents, y, 0)]);
        }
    }
    assert forall|i: nat| i0 <= i < i0 + c implies parents[#[trigger] ancestor(parents, y, i)] >= 0 by {
        let r = if i < c {
            i
        } else {
            (i - c) as nat
        };
        if i >= c {
            lemma_ancestor_add(parents, y, c, (i - c) as nat);
            assert(c + (i - c) as nat == i);
        }
        assert(ancestor(parents, y, i) == ancestor(parents, y, r));
        assert(r < c);
    }
    lemma_reaches_along(parents, placed, y, i0, c);
    lemma_ancestor_add(parents, y, c, i0);
    assert(c + i0 == i0 + c);
}

/// A node that reaches, through unplaced nodes, a node whose placing fails
/// fails to be placed too.
proof fn lemma_reaches_none(parents: Seq<i32>, placed: Seq<bool>, x: int, z: int, k: nat, depth: nat)
    requires
        reaches(parents, placed, x, z, k),
        place(parents, placed, z, depth + k) is None,
    ensures
        place(parents, placed, x, depth) is None,
    decreases k,
{
    if k > 0 && depth <= parents.len() {
        let p = parents[x] as int;
        lemma_reaches_none(parents, placed, p, z, (k - 1) as nat, depth + 1);
        assert(depth + 1 + (k - 1) as nat == depth + k);
    }
}

/// Placing a node that succeeds leaves an unplaced cycle unplaced.
proof fn lemma_place_keeps_cycle(parents: Seq<i32>, placed: Seq<bool>, x: int, depth: nat, y: int, c: nat)
    requires
        placed.len() == parents.len(),
        on_cycle(parents, y, c),
        cycle_unplaced(parents, placed, y, c),
        place(parents, placed, x, depth) is Some,
    ensures
        cycle_unplaced(parents, place(parents, placed, x, depth)->Some_0.0, y, c),
{
    let after = place(parents, placed, x, depth)->Some_0.0;
    assert forall|i: nat| i < c implies !after[#[trigger] ancestor(parents, y, i)] by {
        let z = ancestor(parents, y, i);
        assert(0 <= z < parents.len());
        if after[z] {
            lemma_newly_placed(parents, placed, x, depth, z);
            let k = choose|k: nat| reaches(parents, placed, x, z, k);
            lemma_cycle_reaches(parents, placed, y, c, i);
            lemma_cycle_fails(parents, placed, z, c, depth + k);
            lemma_reaches_none(parents, placed, x, z, k, depth);
        }
    }
}

/// Placing the slots from `k` on fails when one of them lies on a cycle
/// that is not placed yet.
proof fn lemma_cycle_forces_none(
    parents: Seq<i32>,
    placed: Seq<bool>,
    slots: Seq<int>,
    k: int,
    y: int,
    c: nat,
    ky: int,
)
    requires
        placed.len() == parents.len(),
        on_cycle(parents, y, c),
        cycle_unplaced(parents, placed, y, c),
        0 <= k <= ky < slots.len(),
        slots[ky] == y,
    ensures
        place_all(parents, placed, slots, k) is None,
    decreases slots.len() - k,
{
    if k == ky {
        lemma_cycle_reaches(parents, placed, y, c, 0);
        lemma_cycle_fails(parents, placed, y, c, 0);
    } else {
        match place(parents, placed, slots[k], 0) {
            None => {},
            Some((after, _)) => {
                lemma_place_len(parents, placed, slots[k], 0);
                lemma_place_keeps_cycle(parents, placed, slots[k], 0, y, c);
                lemma_cycle_forces_none(parents, after, slots, k + 1, y, c, ky);
            },
        }
    }
}

/// The order of [`hierarchy_steps`] fails to exist exactly when the parent
/// links of some node run in a cycle (in which case placing that node
/// would never end).
pub proof fn law_no_order_exactly_on_cycle(parents: Seq<i32>, bone_count: nat)
    ensures
        hierarchy_steps(parents, bone_count) is None <==> has_cycle(parents),
{
    let n = parents.len();
    let start = Seq::new(n, |i: int| false);
    let slots = placement_slots(n, bone_count);
    if has_cycle(parents) {
        let (y, c) = choose|y: int, c: nat| on_cycle(parents, y, c);
        assert(0 <= ancestor(parents, y, 0) < n);
        lemma_slots_cover(n, bone_count, y);
        let ky = choose|j: int| 0 <= j < slots.len() && #[trigger] slots[j] == y;
        lemma_cycle_forces_none(parents, start, slots, 0, y, c, ky);
    }
    if hierarchy_steps(parents, bone_count) is None {
        lemma_place_all_none_links(parents, start, slots, 0);
        let x = choose|x: int| linked(parents, x, parents.len());
        lemma_chain_repeats(parents, x);
        let (i, j) = choose|i: nat, j: nat|
            i < j <= parents.len() && ancestor(parents, x, i) == ancestor(parents, x, j);
        lemma_repeat_is_cycle(parents, x, i, j);
    }
}

/// Placing a node that is already placed, or that is no slot of the
/// skeleton, changes nothing and takes no step.
pub proof fn law_placed_node_unchanged(parents: Seq<i32>, placed: Seq<bool>, x: int, depth: nat)
    requires
        depth <= parents.len(),
        !(0 <= x < parents.len() && x < placed.len()) || placed[x],
    ensures
        place(parents, placed, x, depth) == Some((placed, Seq::<(usize, usize)>::empty())),
{
}

/// Placing a node twice is placing it once: the second time changes
/// nothing and takes no step.
pub proof fn law_place_twice_is_once(parents: Seq<i32>, placed: Seq<bool>, x: int)
    requires
        placed.len() == parents.len(),
        place(parents, placed, x, 0) is Some,
    ensures
        place(parents, place(parents, placed, x, 0)->Some_0.0, x, 0) == Some(
            (place(parents, placed, x, 0)->Some_0.0, Seq::<(usize, usize)>::empty()),
        ),
{
    let after = place(parents, placed, x, 0)->Some_0.0;
    lemma_place_len(parents, placed, x, 0);
    if 0 <= x < parents.len() && !placed[x] {
        let p = parents[x];
        if p >= 0 && p < parents.len() {
            lemma_place_len(parents, placed, p as int, 1);
            let after_p = place(parents, placed, p as int, 1)->Some_0.0;
            assert(after == after_p.update(x, true));
            assert(after[x]);
        } else if p >= parents.len() {
            assert(place(parents, placed, p as int, 1) == Some((placed, Seq::<(usize, usize)>::empty())));
            assert(after == placed);
            assert(place(parents, after, p as int, 1) == Some((after, Seq::<(usize, usize)>::empty())));
        }
    }
}

} // verus!
