//! The tokens that the pointer can hover, and their highlight borders.

use vstd::prelude::*;
use vstd::string::*;
use crate::events::Events;
use crate::mouse::{MouseCoordinates, ScenePoint};
use crate::playback::MouseState;
use crate::scene::laws::{
    lemma_first_child_is_first, lemma_matching_lists_the_kind, lemma_spawn_grows,
};
use crate::scene::{
    despawned_all, first_child_from, grown, is_kind, matching, same_shape, with_item, Entity, Item,
    ItemView, Kind, NodeView, Nodes, Scene,
};

verus! {

/// The hit radius of a token, in scene units.
pub const RAGDOLL_RADIUS: u32 = 7;

/// The request to spawn a token of the given name.
#[derive(Clone, Debug, PartialEq, Eq)]
pub struct RagdollSpawnEvent(pub String);

/// The pointer has moved from over one entity to over another, or on or off
/// one.
#[derive(Clone, Copy, Debug, PartialEq, Eq, Structural)]
pub struct RagdollHoverEvent {
    /// What the pointer was over before.
    pub previous: Option<Entity>,
    /// What the pointer is over now.
    pub hovered_entity: Option<Entity>,
}

/// The names of the tokens that the events ask for, in the events' order.
pub open spec fn spawn_names(events: Seq<RagdollSpawnEvent>) -> Seq<Seq<char>> {
    Seq::new(events.len(), |i: int| events[i].0@)
}

/// A token as the hit test reads it.
#[derive(Clone, Copy, Debug, PartialEq, Eq, Structural)]
pub struct HoverableEntity {
    /// The token.
    pub entity: Entity,
    /// Where the token is.
    pub position: ScenePoint,
    /// How far from its position the token is hit.
    pub radius: u32,
    /// The token's highlight border, if it has one.
    pub border: Option<Entity>,
}

/// The distance between the two points is at most `radius`. The comparison
/// is made on the squares, which are whole numbers.
pub open spec fn within(pointer: ScenePoint, center: ScenePoint, radius: u32) -> bool {
    (pointer.x - center.x) * (pointer.x - center.x) + (pointer.y - center.y) * (pointer.y
        - center.y) <= radius * radius
}

/// The first candidate within whose radius the pointer is.
pub open spec fn first_hit(pointer: ScenePoint, candidates: Seq<HoverableEntity>) -> Option<Entity>
    decreases candidates.len(),
{
    if candidates.len() == 0 {
        None
    } else if within(pointer, candidates[0].position, candidates[0].radius) {
        Some(candidates[0].entity)
    } else {
        first_hit(pointer, candidates.skip(1))
    }
}

/// Whether the distance between the two points is at most `radius`.
pub fn hits(pointer: ScenePoint, center: ScenePoint, radius: u32) -> (hit: bool)
    ensures
        hit == within(pointer, center, radius),
{
    let dx: i128 = pointer.x as i128 - center.x as i128;
    let dy: i128 = pointer.y as i128 - center.y as i128;
    let r: i128 = radius as i128;
    assert(0 <= dx * dx <= 0xffff_ffff * 0xffff_ffff) by (nonlinear_arith)
        requires
            -0xffff_ffff <= dx <= 0xffff_ffff,
    ;
    assert(0 <= dy * dy <= 0xffff_ffff * 0xffff_ffff) by (nonlinear_arith)
        requires
            -0xffff_ffff <= dy <= 0xffff_ffff,
    ;
    assert(0 <= r * r <= 0xffff_ffff * 0xffff_ffff) by (nonlinear_arith)
        requires
            0 <= r <= 0xffff_ffff,
    ;
    dx * dx + dy * dy <= r * r
}

/// The entity that the pointer is over: the first of the candidates, in the
/// order given, within whose radius the pointer is. A pointer at exactly the
/// radius counts; a nearer candidate further back does not win.
pub fn test_hover(pointer: ScenePoint, candidates: &Vec<HoverableEntity>) -> (hovered: Option<
    Entity,
>)
    ensures
        hovered == first_hit(pointer, candidates@),
{
    let mut i: usize = 0;
    assert(candidates@.skip(0) =~= candidates@);
    while i < candidates.len()
        invariant
            i <= candidates.len(),
            first_hit(pointer, candidates@) == first_hit(pointer, candidates@.skip(i as int)),
        decreases candidates.len() - i,
    {
        let candidate = candidates[i];
        assert(candidates@.skip(i as int)[0] == candidate);
        assert(candidates@.skip(i as int).skip(1) =~= candidates@.skip(i + 1));
        if hits(pointer, candidate.position, candidate.radius) {
            return Some(candidate.entity);
        }
        i += 1;
    }
    None
}

/// What the hit test reads of the token `e`.
pub open spec fn hoverable_at(nodes: Nodes, e: Entity) -> HoverableEntity {
    HoverableEntity {
        entity: e,
        position: nodes[e as int].unwrap().item->Ragdoll_position,
        radius: nodes[e as int].unwrap().item->Ragdoll_radius,
        border: first_child_from(nodes, e, Kind::Border, 0),
    }
}

/// The tokens of the registry as the hit test reads them, in the order in
/// which they were spawned.
pub open spec fn hoverables(nodes: Nodes) -> Seq<HoverableEntity> {
    Seq::new(
        matching(nodes, Kind::Ragdoll).len(),
        |i: int| hoverable_at(nodes, matching(nodes, Kind::Ragdoll)[i]),
    )
}

/// The token that a pointer at the given position is over.
pub open spec fn hovered(nodes: Nodes, pointer: ScenePoint) -> Option<Entity> {
    first_hit(pointer, hoverables(nodes))
}

/// The hover events after a hit test that found `now` while the pointer was
/// last known to be over `before`: one more event where the two differ.
pub open spec fn hover_reported(
    events: Seq<RagdollHoverEvent>,
    before: Option<Entity>,
    now: Option<Entity>,
) -> Seq<RagdollHoverEvent> {
    if now == before {
        events
    } else {
        events.push(RagdollHoverEvent { previous: before, hovered_entity: now })
    }
}

/// The registry in which the border of `entity`, if there is an entity and it
/// has a border, is painted or not.
pub open spec fn repainted(nodes: Nodes, entity: Option<Entity>, painted: bool) -> Nodes {
    match entity {
        Some(e) => match first_child_from(nodes, e, Kind::Border, 0) {
            Some(border) => with_item(nodes, border as int, ItemView::Border { painted }),
            None => nodes,
        },
        None => nodes,
    }
}

/// The registry after the hover events were read one by one, starting with
/// the pointer over `over`: each event takes the paint off the border of the
/// entity that the pointer was over and puts it on the border of the entity
/// that the event names.
pub open spec fn hover_painted(
    nodes: Nodes,
    over: Option<Entity>,
    events: Seq<RagdollHoverEvent>,
) -> Nodes
    decreases events.len(),
{
    if events.len() == 0 {
        nodes
    } else {
        hover_painted(
            repainted(repainted(nodes, over, false), events[0].hovered_entity, true),
            events[0].hovered_entity,
            events.skip(1),
        )
    }
}

/// The entity that the pointer is over after the hover events were read.
pub open spec fn hover_settled(over: Option<Entity>, events: Seq<RagdollHoverEvent>) -> Option<
    Entity,
> {
    if events.len() == 0 {
        over
    } else {
        events.last().hovered_entity
    }
}

/// A token as it is spawned for the given name.
pub open spec fn ragdoll_named(name: Seq<char>) -> NodeView {
    NodeView {
        parent: None,
        item: ItemView::Ragdoll {
            name,
            player: "f0rest"@,
            position: ScenePoint { x: -150i32, y: 0i32 },
            radius: RAGDOLL_RADIUS,
        },
    }
}

/// The border of the token `of` as it is spawned: without paint.
pub open spec fn border_of(of: Entity) -> NodeView {
    NodeView { parent: Some(of), item: ItemView::Border { painted: false } }
}

/// The registry after a token and its border were spawned for each of the
/// names, in their order.
pub open spec fn with_ragdolls(nodes: Nodes, names: Seq<Seq<char>>) -> Nodes
    decreases names.len(),
{
    if names.len() == 0 {
        nodes
    } else {
        with_ragdolls(
            nodes.push(Some(ragdoll_named(names[0]))).push(Some(border_of(nodes.len() as usize))),
            names.skip(1),
        )
    }
}

/// The systems that keep the tokens.
pub struct RagdollPlugin;

impl RagdollPlugin {
    /// Asks for the one token of a playback.
    pub fn ragdoll_setup(events: &mut Events<RagdollSpawnEvent>)
        ensures
            spawn_names(final(events)@) == spawn_names(old(events)@).push("Ragdoll 1"@),
    {
        events.send(RagdollSpawnEvent(String::from_str("Ragdoll 1")));
        assert(spawn_names(events@) =~= spawn_names(old(events)@).push("Ragdoll 1"@));
    }

    /// Spawns a token with its border for each event, in the events' order.
    pub fn ragdoll_spawn(events: &Vec<RagdollSpawnEvent>, scene: &mut Scene)
        requires
            old(scene).wf(),
        ensures
            final(scene).wf(),
            final(scene)@ == with_ragdolls(old(scene)@, spawn_names(events@)),
            grown(old(scene)@, final(scene)@, true),
    {
        let ghost names = spawn_names(events@);
        let mut i: usize = 0;
        assert(names.skip(0) =~= names);
        while i < events.len()
            invariant
                i <= events.len(),
                names == spawn_names(events@),
                scene.wf(),
                grown(old(scene)@, scene@, true),
                with_ragdolls(old(scene)@, names) == with_ragdolls(scene@, names.skip(i as int)),
            decreases events.len() - i,
        {
            let ghost before = scene@;
            let name = events[i].0.clone();
            let ragdoll = scene.spawn(
                None,
                Item::Ragdoll {
                    name,
                    player: String::from_str("f0rest"),
                    position: ScenePoint { x: -150i32, y: 0i32 },
                    radius: RAGDOLL_RADIUS,
                },
            );
            scene.spawn(Some(ragdoll), Item::Border { painted: false });
            proof {
                let token = ragdoll_named(events@[i as int].0@);
                assert(names.skip(i as int)[0] == events@[i as int].0@);
                assert(names.skip(i as int).skip(1) =~= names.skip(i + 1));
                assert(scene@ == before.push(Some(token)).push(
                    Some(border_of(before.len() as usize)),
                ));
                lemma_spawn_grows(old(scene)@, before, token, true);
                lemma_spawn_grows(
                    old(scene)@,
                    before.push(Some(token)),
                    border_of(before.len() as usize),
                    true,
                );
            }
            i += 1;
        }
    }

    /// Removes every token, each with its border.
    pub fn ragdoll_cleanup(scene: &mut Scene)
        requires
            old(scene).wf(),
        ensures
            final(scene).wf(),
            final(scene)@ == despawned_all(old(scene)@, matching(old(scene)@, Kind::Ragdoll)),
    {
        let players = scene.query(Kind::Ragdoll);
        scene.despawn_all(&players);
    }

    /// The tokens of the registry as the hit test reads them.
    pub fn hoverables(scene: &Scene) -> (candidates: Vec<HoverableEntity>)
        ensures
            candidates@ == hoverables(scene@),
    {
        let found = scene.query(Kind::Ragdoll);
        proof {
            scene.lemma_slots_are_counted();
            lemma_matching_lists_the_kind(scene@, Kind::Ragdoll);
        }
        let mut candidates: Vec<HoverableEntity> = Vec::new();
        let mut i: usize = 0;
        while i < found.len()
            invariant
                i <= found.len(),
                found@ == matching(scene@, Kind::Ragdoll),
                forall|k: int|
                    0 <= k < found.len() ==> is_kind(
                        scene@,
                        (#[trigger] found@[k]) as int,
                        Kind::Ragdoll,
                    ),
                candidates.len() == i,
                forall|k: int|
                    0 <= k < i ==> (#[trigger] candidates@[k]) == hoverable_at(scene@, found@[k]),
            decreases found.len() - i,
        {
            let e = found[i];
            assert(is_kind(scene@, found@[i as int] as int, Kind::Ragdoll));
            let border = scene.first_child(e, Kind::Border);
            match scene.get(e) {
                Some(node) => match &node.item {
                    Item::Ragdoll { position, radius, .. } => {
                        candidates.push(
                            HoverableEntity {
                                entity: e,
                                position: *position,
                                radius: *radius,
                                border,
                            },
                        );
                    },
                    _ => {
                        assert(false);
                    },
                },
                None => {
                    assert(false);
                },
            }
            i += 1;
        }
        assert(candidates@ =~= hoverables(scene@));
        candidates
    }

    /// Tests which token the pointer is over and reports it where it is
    /// not the one that the pointer was last known to be over. A frame in
    /// which the two agree sends nothing.
    pub fn detect_mouse_over_entity(
        coordinates: &MouseCoordinates,
        scene: &Scene,
        mouse_state: &MouseState,
        events: &mut Events<RagdollHoverEvent>,
    )
        ensures
            final(events)@ == hover_reported(
                old(events)@,
                mouse_state.over_entity,
                hovered(scene@, coordinates.position),
            ),
    {
        let candidates = Self::hoverables(scene);
        let current_over_entity = test_hover(coordinates.position, &candidates);
        if !same_entity(current_over_entity, mouse_state.over_entity) {
            events.send(
                RagdollHoverEvent {
                    previous: mouse_state.over_entity,
                    hovered_entity: current_over_entity,
                },
            );
        }
    }

    /// Reads the hover events in their order: each takes the paint off the
    /// border of the token that the pointer was over, puts it on the border
    /// of the token that the pointer is over now, and records the latter.
    pub fn ragdoll_hover_system(
        events: &Vec<RagdollHoverEvent>,
        mouse_state: &mut MouseState,
        scene: &mut Scene,
    )
        requires
            old(scene).wf(),
        ensures
            final(scene).wf(),
            final(scene)@ == hover_painted(old(scene)@, old(mouse_state).over_entity, events@),
            same_shape(old(scene)@, final(scene)@),
            final(mouse_state).over_entity == hover_settled(old(mouse_state).over_entity, events@),
    {
        let mut i: usize = 0;
        assert(events@.skip(0) =~= events@);
        while i < events.len()
            invariant
                i <= events.len(),
                scene.wf(),
                same_shape(old(scene)@, scene@),
                hover_painted(old(scene)@, old(mouse_state).over_entity, events@) == hover_painted(
                    scene@,
                    mouse_state.over_entity,
                    events@.skip(i as int),
                ),
                mouse_state.over_entity == hover_settled(
                    old(mouse_state).over_entity,
                    events@.take(i as int),
                ),
            decreases events.len() - i,
        {
            let event = events[i];
            proof {
                assert(events@.skip(i as int)[0] == event);
                assert(events@.skip(i as int).skip(1) =~= events@.skip(i + 1));
                assert(events@.take(i + 1).last() == event);
            }
            Self::paint_border(scene, mouse_state.over_entity, false);
            Self::paint_border(scene, event.hovered_entity, true);
            mouse_state.over_entity = event.hovered_entity;
            i += 1;
        }
        assert(events@.take(events.len() as int) =~= events@);
    }

    /// Paints the border of `entity`, or takes the paint off it.
    pub fn paint_border(scene: &mut Scene, entity: Option<Entity>, painted: bool)
        requires
            old(scene).wf(),
        ensures
            final(scene).wf(),
            final(scene)@ == repainted(old(scene)@, entity, painted),
            same_shape(old(scene)@, final(scene)@),
    {
        if let Some(e) = entity {
            if let Some(border) = scene.first_child(e, Kind::Border) {
                proof {
                    lemma_first_child_is_first(scene@, e, Kind::Border, 0);
                }
                scene.set_item(border, Item::Border { painted });
            }
        }
    }
}

/// Whether the two are the same entity, or both none.
pub fn same_entity(a: Option<Entity>, b: Option<Entity>) -> (same: bool)
    ensures
        same == (a == b),
{
    match (a, b) {
        (Some(x), Some(y)) => x == y,
        (None, None) => true,
        _ => false,
    }
}

/// Spawning tokens leaves what the registry held as it was.
pub proof fn lemma_spawning_keeps(nodes: Nodes, names: Seq<Seq<char>>)
    ensures
        nodes.len() <= with_ragdolls(nodes, names).len(),
        forall|e: int|
            0 <= e < nodes.len() ==> (#[trigger] with_ragdolls(nodes, names)[e]) == nodes[e],
    decreases names.len(),
{
    if names.len() > 0 {
        let next = nodes.push(Some(ragdoll_named(names[0]))).push(
            Some(border_of(nodes.len() as usize)),
        );
        lemma_spawning_keeps(next, names.skip(1));
        assert forall|e: int| 0 <= e < nodes.len() implies (#[trigger] with_ragdolls(
            nodes,
            names,
        )[e]) == nodes[e] by {
            assert(with_ragdolls(nodes, names)[e] == next[e]);
        }
    }
}

/// The hit test finds the first candidate that the pointer is within, and
/// none where the pointer is within no candidate. How near a candidate is
/// does not count.
pub proof fn lemma_first_hit_is_first(pointer: ScenePoint, candidates: Seq<HoverableEntity>)
    ensures
        match first_hit(pointer, candidates) {
            Some(e) => exists|i: int|
                0 <= i < candidates.len() && (#[trigger] candidates[i]).entity == e && within(
                    pointer,
                    candidates[i].position,
                    candidates[i].radius,
                ) && forall|j: int|
                    0 <= j < i ==> !within(
                        pointer,
                        (#[trigger] candidates[j]).position,
                        candidates[j].radius,
                    ),
            None => forall|i: int|
                0 <= i < candidates.len() ==> !within(
                    pointer,
                    (#[trigger] candidates[i]).position,
                    candidates[i].radius,
                ),
        },
    decreases candidates.len(),
{
    if candidates.len() > 0 {
        if within(pointer, candidates[0].position, candidates[0].radius) {
            assert(candidates[0].entity == first_hit(pointer, candidates).unwrap());
        } else {
            let rest = candidates.skip(1);
            lemma_first_hit_is_first(pointer, rest);
            match first_hit(pointer, rest) {
                Some(e) => {
                    let i = choose|i: int|
                        0 <= i < rest.len() && (#[trigger] rest[i]).entity == e && within(
                            pointer,
                            rest[i].position,
                            rest[i].radius,
                        ) && forall|j: int|
                            0 <= j < i ==> !within(
                                pointer,
                                (#[trigger] rest[j]).position,
                                rest[j].radius,
                            );
                    assert(candidates[i + 1] == rest[i]);
                    assert forall|j: int| 0 <= j < i + 1 implies !within(
                        pointer,
                        (#[trigger] candidates[j]).position,
                        candidates[j].radius,
                    ) by {
                        if j > 0 {
                            assert(candidates[j] == rest[j - 1]);
                        }
                    }
                },
                None => {
                    assert forall|i: int| 0 <= i < candidates.len() implies !within(
                        pointer,
                        (#[trigger] candidates[i]).position,
                        candidates[i].radius,
                    ) by {
                        if i > 0 {
                            assert(candidates[i] == rest[i - 1]);
                        }
                    }
                },
            }
        }
    }
}

/// What the pointer is over is a token of the registry.
pub proof fn lemma_hovered_is_a_token(nodes: Nodes, pointer: ScenePoint)
    requires
        nodes.len() <= usize::MAX,
    ensures
        hovered(nodes, pointer) is Some ==> is_kind(
            nodes,
            hovered(nodes, pointer).unwrap() as int,
            Kind::Ragdoll,
        ),
{
    lemma_first_hit_is_first(pointer, hoverables(nodes));
    lemma_matching_lists_the_kind(nodes, Kind::Ragdoll);
    if let Some(e) = hovered(nodes, pointer) {
        let candidates = hoverables(nodes);
        let i = choose|i: int| 0 <= i < candidates.len() && (#[trigger] candidates[i]).entity == e;
        assert(candidates[i].entity == matching(nodes, Kind::Ragdoll)[i]);
    }
}

/// The rim of a token belongs to it: a pointer whose distance from the
/// token's position is exactly the radius is within the token.
pub proof fn lemma_rim_is_within(pointer: ScenePoint, center: ScenePoint, radius: u32)
    requires
        (pointer.x - center.x) * (pointer.x - center.x) + (pointer.y - center.y) * (pointer.y
            - center.y) == radius * radius,
    ensures
        within(pointer, center, radius),
        forall|smaller: u32| smaller < radius ==> !within(pointer, center, smaller),
{
    assert forall|smaller: u32| smaller < radius implies !within(pointer, center, smaller) by {
        assert(smaller * smaller < radius * radius) by (nonlinear_arith)
            requires
                0 <= smaller < radius,
        ;
    }
}

} // verus!
