//! What holds of the registry, whatever it holds.

use vstd::prelude::*;
use crate::scene::{
    anchored, despawned, despawned_all, emptied, first_child_from, grown, has_one, is_child,
    is_kind, live, matching, none_of, only_one, parentless, same_census, same_shape, several_of,
    single_of, tree_wf, under, without_root, Entity, Kind, NodeView, Nodes, QuerySingleError,
};

verus! {

/// The entities that `matching` lists are those of the kind, each once, in
/// rising order.
pub proof fn lemma_matching_lists_the_kind(nodes: Nodes, kind: Kind)
    requires
        nodes.len() <= usize::MAX,
    ensures
        forall|i: int|
            0 <= i < matching(nodes, kind).len() ==> is_kind(
                nodes,
                (#[trigger] matching(nodes, kind)[i]) as int,
                kind,
            ),
        forall|i: int, j: int|
            0 <= i < j < matching(nodes, kind).len() ==> matching(nodes, kind)[i] < matching(
                nodes,
                kind,
            )[j],
        forall|e: int| is_kind(nodes, e, kind) ==> matching(nodes, kind).contains(e as usize),
    decreases nodes.len(),
{
    if nodes.len() > 0 {
        let front = nodes.drop_last();
        let earlier = matching(front, kind);
        let all = matching(nodes, kind);
        let last = nodes.len() - 1;
        lemma_matching_lists_the_kind(front, kind);
        assert forall|i: int| 0 <= i < all.len() implies is_kind(
            nodes,
            (#[trigger] all[i]) as int,
            kind,
        ) by {
            if i < earlier.len() {
                let e = earlier[i] as int;
                assert(all[i] == earlier[i]);
                assert(is_kind(front, e, kind));
                assert(front[e] == nodes[e]);
            } else {
                assert(all[i] == last as usize);
            }
        }
        assert forall|i: int, j: int| 0 <= i < j < all.len() implies all[i] < all[j] by {
            let e = earlier[i] as int;
            assert(all[i] == earlier[i]);
            assert(is_kind(front, e, kind));
            if j < earlier.len() {
                assert(all[j] == earlier[j]);
            } else {
                assert(all[j] == last as usize);
            }
        }
        assert forall|e: int| is_kind(nodes, e, kind) implies all.contains(e as usize) by {
            if e < last {
                assert(front[e] == nodes[e]);
                assert(is_kind(front, e, kind));
                assert(earlier.contains(e as usize));
                let i = choose|i: int| 0 <= i < earlier.len() && earlier[i] == e as usize;
                assert(all[i] == e as usize);
            } else {
                assert(all[all.len() - 1] == e as usize);
            }
        }
    }
}

/// `single_of` finds an entity exactly where it is the only one of its kind.
pub proof fn lemma_single_is_the_only_one(nodes: Nodes, kind: Kind, e: Entity)
    requires
        nodes.len() <= usize::MAX,
    ensures
        single_of(nodes, kind) == Ok::<Entity, QuerySingleError>(e) <==> only_one(
            nodes,
            kind,
            e as int,
        ),
{
    if only_one(nodes, kind, e as int) {
        assert(!none_of(nodes, kind));
        assert(!several_of(nodes, kind));
    }
    if single_of(nodes, kind) == Ok::<Entity, QuerySingleError>(e) {
        let found = choose|e: int| is_kind(nodes, e, kind);
        assert(is_kind(nodes, found, kind));
        assert(found == e);
        assert forall|other: int| is_kind(nodes, other, kind) implies other == e by {
            if other != e {
                assert(several_of(nodes, kind));
            }
        }
    }
}

/// Removing an entity that does not exist removes nothing.
pub proof fn lemma_despawn_of_nothing(nodes: Nodes, root: int)
    requires
        !live(nodes, root),
    ensures
        despawned(nodes, root) == nodes,
{
    assert forall|e: int| !under(nodes, e, root) by {
        lemma_nothing_under_nothing(nodes, e, root);
    }
    assert(despawned(nodes, root) =~= nodes);
}

proof fn lemma_nothing_under_nothing(nodes: Nodes, e: int, root: int)
    requires
        !live(nodes, root),
    ensures
        !under(nodes, e, root),
    decreases e,
{
    if live(nodes, e) {
        if let Some(p) = nodes[e].unwrap().parent {
            if p < e {
                lemma_nothing_under_nothing(nodes, p as int, root);
            }
        }
    }
}

/// A removal leaves a forest a forest, takes the root and all that is below
/// it, and touches nothing else: what stays is what it was.
pub proof fn lemma_despawn_takes_the_subtree(nodes: Nodes, root: int)
    requires
        tree_wf(nodes),
    ensures
        tree_wf(despawned(nodes, root)),
        !live(despawned(nodes, root), root),
        forall|e: int|
            live(nodes, e) && (#[trigger] nodes[e]).unwrap().parent is Some && !live(
                despawned(nodes, root),
                nodes[e].unwrap().parent.unwrap() as int,
            ) ==> !live(despawned(nodes, root), e),
        forall|e: int|
            live(despawned(nodes, root), e) ==> (#[trigger] despawned(nodes, root)[e]) == nodes[e],
{
    let after = despawned(nodes, root);
    assert forall|e: int| live(after, e) && (#[trigger] after[e]).unwrap().parent is Some implies {
        let p = after[e].unwrap().parent.unwrap();
        p < e && live(after, p as int)
    } by {
        assert(after[e] == nodes[e]);
        let p = nodes[e].unwrap().parent.unwrap();
        assert(live(nodes, p as int));
        assert(!under(nodes, e, root));
    }
    assert forall|e: int|
        live(nodes, e) && (#[trigger] nodes[e]).unwrap().parent is Some && !live(
            after,
            nodes[e].unwrap().parent.unwrap() as int,
        ) implies !live(after, e) by {
        let p = nodes[e].unwrap().parent.unwrap();
        assert(live(nodes, p as int));
        assert(under(nodes, p as int, root));
    }
}

/// Spawning one more entity into a registry that has grown leaves it grown.
pub proof fn lemma_spawn_grows(a: Nodes, b: Nodes, node: NodeView, tokens: bool)
    requires
        grown(a, b, tokens),
        node.item.kind() != Kind::MenuRoot,
        node.item.kind() != Kind::PlaybackRoot,
        node.parent is Some || (tokens && node.item.kind() == Kind::Ragdoll),
    ensures
        grown(a, b.push(Some(node)), tokens),
{
    let c = b.push(Some(node));
    assert forall|e: int| 0 <= e < a.len() implies (#[trigger] c[e]) == a[e] by {
        assert(c[e] == b[e]);
    }
    assert forall|e: int| a.len() <= e < c.len() && (#[trigger] c[e]) is Some implies {
        let new = c[e].unwrap();
        &&& new.item.kind() != Kind::MenuRoot
        &&& new.item.kind() != Kind::PlaybackRoot
        &&& new.parent is Some || (tokens && new.item.kind() == Kind::Ragdoll)
    } by {
        if e < b.len() {
            assert(c[e] == b[e]);
        }
    }
}

/// What `first_child_from` finds is a child of the parent, of the kind, in a
/// slot from `from` on, and the first such one.
pub proof fn lemma_first_child_is_first(nodes: Nodes, parent: Entity, kind: Kind, from: int)
    requires
        0 <= from,
        nodes.len() <= usize::MAX,
    ensures
        match first_child_from(nodes, parent, kind, from) {
            Some(child) => from <= child && is_child(nodes, child as int, parent, kind)
                && forall|e: int| from <= e < child ==> !is_child(nodes, e, parent, kind),
            None => forall|e: int| from <= e ==> !is_child(nodes, e, parent, kind),
        },
    decreases nodes.len() - from,
{
    if from < nodes.len() && !is_child(nodes, from, parent, kind) {
        lemma_first_child_is_first(nodes, parent, kind, from + 1);
    }
}

/// Registries that hold the same entities of a kind agree on whether there
/// is none of the kind, and on which is the only one.
pub proof fn lemma_census_decides(a: Nodes, b: Nodes, kind: Kind)
    requires
        same_census(a, b, kind),
    ensures
        none_of(a, kind) <==> none_of(b, kind),
        forall|e: int| only_one(a, kind, e) <==> only_one(b, kind, e),
        has_one(a, kind) <==> has_one(b, kind),
{
    assert forall|e: int| only_one(a, kind, e) <==> only_one(b, kind, e) by {
        assert(is_kind(a, e, kind) <==> is_kind(b, e, kind));
    }
    if has_one(a, kind) {
        let e = choose|e: int| only_one(a, kind, e);
        assert(only_one(b, kind, e));
    }
    if has_one(b, kind) {
        let e = choose|e: int| only_one(b, kind, e);
        assert(only_one(a, kind, e));
    }
}

/// Registries of the same shape hold the same entities of every kind, and
/// are forests together.
pub proof fn lemma_same_shape_keeps(a: Nodes, b: Nodes, kind: Kind)
    requires
        same_shape(a, b),
    ensures
        same_census(a, b, kind),
        parentless(a, kind) <==> parentless(b, kind),
        tree_wf(a) <==> tree_wf(b),
        forall|tokens: bool| anchored(a, tokens) <==> anchored(b, tokens),
{
    assert forall|tokens: bool| anchored(a, tokens) <==> anchored(b, tokens) by {
        if anchored(a, tokens) {
            assert forall|e: int|
                live(b, e) && (#[trigger] b[e]).unwrap().parent is None implies {
                let kind = b[e].unwrap().item.kind();
                kind == Kind::MenuRoot || kind == Kind::PlaybackRoot || (tokens && kind
                    == Kind::Ragdoll)
            } by {
                assert(a[e] is Some <==> b[e] is Some);
                assert(a[e].unwrap().parent == b[e].unwrap().parent);
            }
        }
        if anchored(b, tokens) {
            assert forall|e: int|
                live(a, e) && (#[trigger] a[e]).unwrap().parent is None implies {
                let kind = a[e].unwrap().item.kind();
                kind == Kind::MenuRoot || kind == Kind::PlaybackRoot || (tokens && kind
                    == Kind::Ragdoll)
            } by {
                assert(a[e] is Some <==> b[e] is Some);
                assert(a[e].unwrap().parent == b[e].unwrap().parent);
            }
        }
    }
    assert forall|e: int| is_kind(a, e, kind) <==> is_kind(b, e, kind) by {
        if 0 <= e < a.len() {
            assert(a[e] is Some <==> b[e] is Some);
        }
    }
    assert forall|e: int| live(a, e) <==> live(b, e) by {
        if 0 <= e < a.len() {
            assert(a[e] is Some <==> b[e] is Some);
        }
    }
    if tree_wf(a) {
        assert forall|e: int| live(b, e) && (#[trigger] b[e]).unwrap().parent is Some implies {
            let p = b[e].unwrap().parent.unwrap();
            p < e && live(b, p as int)
        } by {
            assert(live(a, e));
            assert(a[e].unwrap().parent == b[e].unwrap().parent);
            assert(live(a, a[e].unwrap().parent.unwrap() as int));
        }
    }
    if tree_wf(b) {
        assert forall|e: int| live(a, e) && (#[trigger] a[e]).unwrap().parent is Some implies {
            let p = a[e].unwrap().parent.unwrap();
            p < e && live(a, p as int)
        } by {
            assert(live(b, e));
            assert(a[e].unwrap().parent == b[e].unwrap().parent);
            assert(live(b, b[e].unwrap().parent.unwrap() as int));
        }
    }
}

/// A registry that has grown holds every entity that it held, holds no
/// other container of a mode, and stays anchored.
pub proof fn lemma_growth_keeps_roots(a: Nodes, b: Nodes, tokens: bool)
    requires
        grown(a, b, tokens),
    ensures
        same_census(a, b, Kind::MenuRoot),
        same_census(a, b, Kind::PlaybackRoot),
        parentless(a, Kind::MenuRoot) ==> parentless(b, Kind::MenuRoot),
        parentless(a, Kind::PlaybackRoot) ==> parentless(b, Kind::PlaybackRoot),
        anchored(a, tokens) ==> anchored(b, tokens),
        forall|e: int, kind: Kind| is_kind(a, e, kind) ==> is_kind(b, e, kind),
{
    assert forall|e: int, kind: Kind| is_kind(a, e, kind) implies is_kind(b, e, kind) by {
        assert(b[e] == a[e]);
    }
    assert forall|e: int| is_kind(b, e, Kind::MenuRoot) implies is_kind(a, e, Kind::MenuRoot) by {
        assert(b[e] is Some);
        if e < a.len() {
            assert(b[e] == a[e]);
        }
    }
    assert forall|e: int| is_kind(b, e, Kind::PlaybackRoot) implies is_kind(
        a,
        e,
        Kind::PlaybackRoot,
    ) by {
        assert(b[e] is Some);
        if e < a.len() {
            assert(b[e] == a[e]);
        }
    }
    if anchored(a, tokens) {
        assert forall|e: int| live(b, e) && (#[trigger] b[e]).unwrap().parent is None implies {
            let kind = b[e].unwrap().item.kind();
            kind == Kind::MenuRoot || kind == Kind::PlaybackRoot || (tokens && kind
                == Kind::Ragdoll)
        } by {
            if e < a.len() {
                assert(b[e] == a[e]);
            }
        }
    }
}

/// A removal spares every entity that is not below the root: what exists
/// afterwards existed before, unchanged, and an entity without a parent
/// goes only where it is the root itself.
pub proof fn lemma_despawn_spares(nodes: Nodes, root: int)
    ensures
        despawned(nodes, root).len() == nodes.len(),
        forall|e: int|
            live(despawned(nodes, root), e) ==> live(nodes, e) && (#[trigger] despawned(
                nodes,
                root,
            )[e]) == nodes[e],
        forall|e: int|
            live(nodes, e) && (#[trigger] nodes[e]).unwrap().parent is None && e != root
                ==> despawned(nodes, root)[e] == nodes[e],
        live(nodes, root) ==> !live(despawned(nodes, root), root),
{
}

/// Removals one after the other spare what a single one spares.
pub proof fn lemma_despawn_all_spares(nodes: Nodes, roots: Seq<Entity>)
    ensures
        despawned_all(nodes, roots).len() == nodes.len(),
        forall|e: int|
            live(despawned_all(nodes, roots), e) ==> live(nodes, e) && (#[trigger] despawned_all(
                nodes,
                roots,
            )[e]) == nodes[e],
        forall|e: int|
            live(nodes, e) && (#[trigger] nodes[e]).unwrap().parent is None && !roots.contains(
                e as usize,
            ) ==> despawned_all(nodes, roots)[e] == nodes[e],
        forall|i: int|
            0 <= i < roots.len() ==> !live(
                despawned_all(nodes, roots),
                (#[trigger] roots[i]) as int,
            ),
    decreases roots.len(),
{
    if roots.len() > 0 {
        let first = despawned(nodes, roots[0] as int);
        let rest = roots.skip(1);
        let all = despawned_all(nodes, roots);
        lemma_despawn_spares(nodes, roots[0] as int);
        lemma_despawn_all_spares(first, rest);
        assert forall|e: int| live(all, e) implies live(nodes, e) && (#[trigger] all[e])
            == nodes[e] by {
            assert(live(first, e) && all[e] == first[e]);
        }
        assert forall|e: int|
            live(nodes, e) && (#[trigger] nodes[e]).unwrap().parent is None && !roots.contains(
                e as usize,
            ) implies all[e] == nodes[e] by {
            assert(roots[0] != e as usize);
            assert(first[e] == nodes[e]);
            assert forall|i: int| 0 <= i < rest.len() implies rest[i] != e as usize by {
                assert(rest[i] == roots[i + 1]);
            }
            assert(!rest.contains(e as usize));
        }
        assert forall|i: int| 0 <= i < roots.len() implies !live(
            all,
            (#[trigger] roots[i]) as int,
        ) by {
            if i == 0 {
                if live(all, roots[0] as int) {
                    assert(live(first, roots[0] as int));
                }
            } else {
                assert(rest[i - 1] == roots[i]);
            }
        }
    }
}

/// Where no entity is of the kind `tag`, removing the root of that kind
/// removes nothing, and the reason given is that there is none.
pub proof fn lemma_despawn_root_of_nothing(nodes: Nodes, tag: Kind)
    requires
        none_of(nodes, tag),
    ensures
        without_root(nodes, tag) == nodes,
        single_of(nodes, tag) == Err::<Entity, QuerySingleError>(QuerySingleError::NoEntities),
{
}

/// Removing the one entity of a kind leaves none of that kind, brings none
/// of any other kind, and gives no entity a parent.
pub proof fn lemma_despawn_root_takes_the_root(nodes: Nodes, tag: Kind)
    requires
        tree_wf(nodes),
        has_one(nodes, tag),
    ensures
        single_of(nodes, tag) is Ok,
        none_of(without_root(nodes, tag), tag),
        forall|kind: Kind| none_of(nodes, kind) ==> none_of(without_root(nodes, tag), kind),
        forall|kind: Kind| parentless(nodes, kind) ==> parentless(without_root(nodes, tag), kind),
{
    let root = choose|e: int| only_one(nodes, tag, e);
    lemma_single_is_the_only_one(nodes, tag, root as usize);
    lemma_despawn_spares(nodes, root);
    let after = without_root(nodes, tag);
    assert(after == despawned(nodes, root));
    assert forall|e: int| !is_kind(after, e, tag) by {
        if is_kind(after, e, tag) {
            assert(live(after, e));
            assert(after[e] == nodes[e]);
            assert(is_kind(nodes, e, tag));
        }
    }
    assert forall|kind: Kind| none_of(nodes, kind) implies none_of(after, kind) by {
        assert forall|e: int| !is_kind(after, e, kind) by {
            if is_kind(after, e, kind) {
                assert(live(after, e));
                assert(after[e] == nodes[e]);
                assert(is_kind(nodes, e, kind));
            }
        }
    }
    assert forall|kind: Kind| parentless(nodes, kind) implies parentless(after, kind) by {
        assert forall|e: int| is_kind(after, e, kind) implies after[e].unwrap().parent is None by {
            assert(live(after, e));
            assert(after[e] == nodes[e]);
            assert(is_kind(nodes, e, kind));
        }
    }
}

/// Removing the root of a kind a second time removes nothing more.
pub proof fn lemma_despawn_root_twice(nodes: Nodes, tag: Kind)
    requires
        tree_wf(nodes),
    ensures
        without_root(without_root(nodes, tag), tag) == without_root(nodes, tag),
{
    if !none_of(nodes, tag) && !several_of(nodes, tag) {
        let e = choose|e: int| is_kind(nodes, e, tag);
        assert(is_kind(nodes, e, tag));
        assert forall|other: int| is_kind(nodes, other, tag) implies other == e by {
            if other != e {
                assert(several_of(nodes, tag));
            }
        }
        assert(only_one(nodes, tag, e));
        lemma_despawn_root_takes_the_root(nodes, tag);
        lemma_despawn_root_of_nothing(without_root(nodes, tag), tag);
    }
}

/// A forest in which every entity has a parent holds no entity: the first
/// of them would have none.
pub proof fn lemma_forest_without_anchor_is_empty(nodes: Nodes)
    requires
        tree_wf(nodes),
        forall|e: int| live(nodes, e) ==> (#[trigger] nodes[e]).unwrap().parent is Some,
    ensures
        emptied(nodes),
{
    assert forall|e: int| !live(nodes, e) by {
        lemma_no_entity_without_anchor(nodes, e);
    }
}

proof fn lemma_no_entity_without_anchor(nodes: Nodes, e: int)
    requires
        tree_wf(nodes),
        forall|e: int| live(nodes, e) ==> (#[trigger] nodes[e]).unwrap().parent is Some,
    ensures
        !live(nodes, e),
    decreases e,
{
    if live(nodes, e) {
        let p = nodes[e].unwrap().parent.unwrap();
        lemma_no_entity_without_anchor(nodes, p as int);
    }
}

/// Removals one after the other leave a forest a forest.
pub proof fn lemma_despawn_all_keeps_forest(nodes: Nodes, roots: Seq<Entity>)
    requires
        tree_wf(nodes),
    ensures
        tree_wf(despawned_all(nodes, roots)),
    decreases roots.len(),
{
    if roots.len() > 0 {
        lemma_despawn_takes_the_subtree(nodes, roots[0] as int);
        lemma_despawn_all_keeps_forest(despawned(nodes, roots[0] as int), roots.skip(1));
    }
}

} // verus!
