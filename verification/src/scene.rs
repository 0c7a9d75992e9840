//! The registry of scene entities: an arena in which every entity keeps the
//! slot it was spawned in, and names its parent.

pub mod laws;

use vstd::prelude::*;
use vstd::string::*;
use crate::mouse::ScenePoint;
use crate::playback::floor_plant::Scale;
use crate::ui::ButtonColor;

verus! {

/// The stable identifier of an entity: the slot it was spawned in. A slot is
/// never handed out twice.
pub type Entity = usize;

/// What an entity is, without what it carries.
#[derive(Clone, Copy, Debug, PartialEq, Eq, Structural)]
pub enum Kind {
    /// The container of the main menu.
    MenuRoot,
    /// A menu button.
    Button,
    /// A line of text.
    Text,
    /// The container of everything shown during playback.
    PlaybackRoot,
    /// A container without content of its own.
    Panel,
    /// The floor-plan visual of a map.
    FloorPlant,
    /// A token that the pointer can hover.
    Ragdoll,
    /// The highlight border of a token.
    Border,
}

/// What an entity is and carries.
#[derive(Clone, Debug, PartialEq, Eq)]
pub enum Item {
    /// The container of the main menu.
    MenuRoot,
    /// A menu button, named after its map.
    Button { name: String, color: ButtonColor },
    /// A line of text.
    Text { text: String },
    /// The container of everything shown during playback.
    PlaybackRoot,
    /// A container without content of its own.
    Panel,
    /// The floor-plan visual of a map.
    FloorPlant { texture: String, position: ScenePoint, scale: Scale },
    /// A token that the pointer can hover.
    Ragdoll { name: String, player: String, position: ScenePoint, radius: u32 },
    /// The highlight border of the token it is a child of.
    Border { painted: bool },
}

/// An `Item` as the contracts speak of it: with its texts as sequences of
/// characters.
pub enum ItemView {
    MenuRoot,
    Button { name: Seq<char>, color: ButtonColor },
    Text { text: Seq<char> },
    PlaybackRoot,
    Panel,
    FloorPlant { texture: Seq<char>, position: ScenePoint, scale: Scale },
    Ragdoll { name: Seq<char>, player: Seq<char>, position: ScenePoint, radius: u32 },
    Border { painted: bool },
}

impl ItemView {
    /// What the entity is, without what it carries.
    pub open spec fn kind(self) -> Kind {
        match self {
            ItemView::MenuRoot => Kind::MenuRoot,
            ItemView::Button { .. } => Kind::Button,
            ItemView::Text { .. } => Kind::Text,
            ItemView::PlaybackRoot => Kind::PlaybackRoot,
            ItemView::Panel => Kind::Panel,
            ItemView::FloorPlant { .. } => Kind::FloorPlant,
            ItemView::Ragdoll { .. } => Kind::Ragdoll,
            ItemView::Border { .. } => Kind::Border,
        }
    }
}

impl View for Item {
    type V = ItemView;

    open spec fn view(&self) -> ItemView {
        match *self {
            Item::MenuRoot => ItemView::MenuRoot,
            Item::Button { name, color } => ItemView::Button { name: name@, color },
            Item::Text { text } => ItemView::Text { text: text@ },
            Item::PlaybackRoot => ItemView::PlaybackRoot,
            Item::Panel => ItemView::Panel,
            Item::FloorPlant { texture, position, scale } => ItemView::FloorPlant {
                texture: texture@,
                position,
                scale,
            },
            Item::Ragdoll { name, player, position, radius } => ItemView::Ragdoll {
                name: name@,
                player: player@,
                position,
                radius,
            },
            Item::Border { painted } => ItemView::Border { painted },
        }
    }
}

impl Item {
    /// What the entity is, without what it carries.
    pub fn kind(&self) -> (k: Kind)
        ensures
            k == self@.kind(),
    {
        match self {
            Item::MenuRoot => Kind::MenuRoot,
            Item::Button { .. } => Kind::Button,
            Item::Text { .. } => Kind::Text,
            Item::PlaybackRoot => Kind::PlaybackRoot,
            Item::Panel => Kind::Panel,
            Item::FloorPlant { .. } => Kind::FloorPlant,
            Item::Ragdoll { .. } => Kind::Ragdoll,
            Item::Border { .. } => Kind::Border,
        }
    }
}

/// An entity as the registry holds it.
#[derive(Clone, Debug, PartialEq, Eq)]
pub struct Node {
    /// The entity that this one is below, if there is one.
    pub parent: Option<Entity>,
    /// What the entity is and carries.
    pub item: Item,
}

/// A `Node` as the contracts speak of it.
pub struct NodeView {
    pub parent: Option<Entity>,
    pub item: ItemView,
}

impl View for Node {
    type V = NodeView;

    open spec fn view(&self) -> NodeView {
        NodeView { parent: self.parent, item: self.item@ }
    }
}

/// The registry as a sequence of slots: `None` where the entity is gone.
pub type Nodes = Seq<Option<NodeView>>;

/// A slot as the contracts speak of it.
pub open spec fn slot_view(slot: Option<Node>) -> Option<NodeView> {
    match slot {
        Some(node) => Some(node@),
        None => None,
    }
}

/// The entity `e` exists.
pub open spec fn live(nodes: Nodes, e: int) -> bool {
    0 <= e < nodes.len() && nodes[e] is Some
}

/// The entity `e` exists and is of the given kind.
pub open spec fn is_kind(nodes: Nodes, e: int, kind: Kind) -> bool {
    live(nodes, e) && nodes[e].unwrap().item.kind() == kind
}

/// Every slot has a number that an `Entity` can hold, and every entity that
/// names a parent names one that exists and was spawned before it.
pub open spec fn tree_wf(nodes: Nodes) -> bool {
    &&& nodes.len() <= usize::MAX
    &&& forall|e: int|
        live(nodes, e) && (#[trigger] nodes[e]).unwrap().parent is Some ==> {
            let p = nodes[e].unwrap().parent.unwrap();
            p < e && live(nodes, p as int)
        }
}

/// The entity `e` exists and is `root` or one of its descendants.
pub open spec fn under(nodes: Nodes, e: int, root: int) -> bool
    decreases e,
{
    live(nodes, e) && (e == root || match nodes[e].unwrap().parent {
        Some(p) => p < e && under(nodes, p as int, root),
        None => false,
    })
}

/// The registry without `root` and its descendants.
pub open spec fn despawned(nodes: Nodes, root: int) -> Nodes {
    Seq::new(
        nodes.len(),
        |e: int|
            if under(nodes, e, root) {
                None
            } else {
                nodes[e]
            },
    )
}

/// The registry after the given entities were removed one by one, each with
/// all that is below it.
pub open spec fn despawned_all(nodes: Nodes, roots: Seq<Entity>) -> Nodes
    decreases roots.len(),
{
    if roots.len() == 0 {
        nodes
    } else {
        despawned_all(despawned(nodes, roots[0] as int), roots.skip(1))
    }
}

/// The registry after the one entity of the given kind was removed with all
/// that is below it: as it was, where there is no such one.
pub open spec fn without_root(nodes: Nodes, tag: Kind) -> Nodes {
    match single_of(nodes, tag) {
        Ok(root) => despawned(nodes, root as int),
        Err(_) => nodes,
    }
}

/// The two registries hold the same entities, each of the same kind and
/// under the same parent in both.
pub open spec fn same_shape(a: Nodes, b: Nodes) -> bool {
    &&& a.len() == b.len()
    &&& forall|e: int|
        0 <= e < a.len() ==> ((#[trigger] a[e]) is Some <==> (#[trigger] b[e]) is Some)
    &&& forall|e: int|
        live(a, e) ==> (#[trigger] a[e]).unwrap().parent == (#[trigger] b[e]).unwrap().parent
            && a[e].unwrap().item.kind() == b[e].unwrap().item.kind()
}

/// The registry `b` is the registry `a` with more entities spawned: none of
/// them the container of a mode, and each of them under a parent, but for
/// tokens where `tokens` allows them.
pub open spec fn grown(a: Nodes, b: Nodes, tokens: bool) -> bool {
    &&& a.len() <= b.len()
    &&& forall|e: int| 0 <= e < a.len() ==> (#[trigger] b[e]) == a[e]
    &&& forall|e: int|
        a.len() <= e < b.len() && (#[trigger] b[e]) is Some ==> {
            let new = b[e].unwrap();
            &&& new.item.kind() != Kind::MenuRoot
            &&& new.item.kind() != Kind::PlaybackRoot
            &&& new.parent is Some || (tokens && new.item.kind() == Kind::Ragdoll)
        }
}

/// Every entity without a parent is the container of a mode or, where
/// `tokens` allows them, a token.
pub open spec fn anchored(nodes: Nodes, tokens: bool) -> bool {
    forall|e: int|
        live(nodes, e) && (#[trigger] nodes[e]).unwrap().parent is None ==> {
            let kind = nodes[e].unwrap().item.kind();
            kind == Kind::MenuRoot || kind == Kind::PlaybackRoot || (tokens && kind
                == Kind::Ragdoll)
        }
}

/// The registry holds no entity at all.
pub open spec fn emptied(nodes: Nodes) -> bool {
    forall|e: int| !live(nodes, e)
}

/// The registry holds no entity of the given kind.
pub open spec fn none_of(nodes: Nodes, kind: Kind) -> bool {
    forall|e: int| !is_kind(nodes, e, kind)
}

/// The entity `e` is the only one of the given kind.
pub open spec fn only_one(nodes: Nodes, kind: Kind, e: int) -> bool {
    is_kind(nodes, e, kind) && forall|other: int| is_kind(nodes, other, kind) ==> other == e
}

/// Exactly one entity is of the given kind.
pub open spec fn has_one(nodes: Nodes, kind: Kind) -> bool {
    exists|e: int| only_one(nodes, kind, e)
}

/// The two registries hold the same entities of the given kind.
pub open spec fn same_census(a: Nodes, b: Nodes, kind: Kind) -> bool {
    forall|e: int| is_kind(a, e, kind) <==> is_kind(b, e, kind)
}

/// No entity of the given kind has a parent.
pub open spec fn parentless(nodes: Nodes, kind: Kind) -> bool {
    forall|e: int| is_kind(nodes, e, kind) ==> nodes[e].unwrap().parent is None
}

/// The registry holds two or more entities of the given kind.
pub open spec fn several_of(nodes: Nodes, kind: Kind) -> bool {
    exists|a: int, b: int| a != b && is_kind(nodes, a, kind) && is_kind(nodes, b, kind)
}

/// The entities of the given kind, in the order in which they were spawned.
pub open spec fn matching(nodes: Nodes, kind: Kind) -> Seq<Entity>
    decreases nodes.len(),
{
    if nodes.len() == 0 {
        Seq::empty()
    } else {
        let earlier = matching(nodes.drop_last(), kind);
        if is_kind(nodes, nodes.len() - 1, kind) {
            earlier.push((nodes.len() - 1) as usize)
        } else {
            earlier
        }
    }
}

/// The one entity of the given kind, or why there is no such one.
pub open spec fn single_of(nodes: Nodes, kind: Kind) -> Result<Entity, QuerySingleError> {
    if none_of(nodes, kind) {
        Err(QuerySingleError::NoEntities)
    } else if several_of(nodes, kind) {
        Err(QuerySingleError::MultipleEntities)
    } else {
        Ok((choose|e: int| is_kind(nodes, e, kind)) as usize)
    }
}

/// The entity `e` is of the given kind and a child of `parent`.
pub open spec fn is_child(nodes: Nodes, e: int, parent: Entity, kind: Kind) -> bool {
    is_kind(nodes, e, kind) && nodes[e].unwrap().parent == Some(parent)
}

/// The first child of `parent` of the given kind, among the slots from `from`
/// on.
pub open spec fn first_child_from(nodes: Nodes, parent: Entity, kind: Kind, from: int) -> Option<
    Entity,
>
    decreases nodes.len() - from,
{
    if from < 0 || from >= nodes.len() {
        None
    } else if is_child(nodes, from, parent, kind) {
        Some(from as usize)
    } else {
        first_child_from(nodes, parent, kind, from + 1)
    }
}

/// The registry in which the entity `e`, if it exists, has the content
/// `item`.
pub open spec fn with_item(nodes: Nodes, e: int, item: ItemView) -> Nodes {
    if live(nodes, e) {
        nodes.update(e, Some(NodeView { parent: nodes[e].unwrap().parent, item }))
    } else {
        nodes
    }
}

/// Why a query for the one entity of a kind found none to return.
#[derive(Clone, Copy, Debug, PartialEq, Eq, Structural)]
pub enum QuerySingleError {
    /// There is no entity of the kind.
    NoEntities,
    /// There is more than one entity of the kind.
    MultipleEntities,
}

impl QuerySingleError {
    /// What is said of the fault where it is reported.
    pub open spec fn text(self) -> Seq<char> {
        match self {
            QuerySingleError::NoEntities => "Error: There is no root_node_entity!"@,
            QuerySingleError::MultipleEntities =>
                "Error: There is more than one root_node_entity!"@,
        }
    }

    /// What is said of the fault where it is reported.
    pub fn message(&self) -> (message: String)
        ensures
            message@ == self.text(),
    {
        match self {
            QuerySingleError::NoEntities => String::from_str(
                "Error: There is no root_node_entity!",
            ),
            QuerySingleError::MultipleEntities => String::from_str(
                "Error: There is more than one root_node_entity!",
            ),
        }
    }
}

/// One report of the fault for each of `events` events that were skipped for
/// want of the one entity of the kind `tag`.
pub open spec fn skipped_for(nodes: Nodes, tag: Kind, events: nat) -> Seq<QuerySingleError> {
    match single_of(nodes, tag) {
        Ok(_) => Seq::empty(),
        Err(why) => Seq::new(events, |i: int| why),
    }
}

/// As many reports of the fault as there were events.
pub fn skip_all(why: QuerySingleError, events: usize) -> (skipped: Vec<QuerySingleError>)
    ensures
        skipped@ == Seq::new(events as nat, |i: int| why),
{
    let mut skipped: Vec<QuerySingleError> = Vec::new();
    let mut i: usize = 0;
    while i < events
        invariant
            i <= events,
            skipped@ == Seq::new(i as nat, |k: int| why),
        decreases events - i,
    {
        skipped.push(why);
        assert(skipped@ =~= Seq::new((i + 1) as nat, |k: int| why));
        i += 1;
    }
    skipped
}

/// The registry of scene entities.
pub struct Scene {
    slots: Vec<Option<Node>>,
}

impl View for Scene {
    type V = Nodes;

    closed spec fn view(&self) -> Nodes {
        Seq::new(self.slots@.len(), |e: int| slot_view(self.slots@[e]))
    }
}

impl Scene {
    /// The registry is a forest: see `tree_wf`.
    pub open spec fn wf(&self) -> bool {
        tree_wf(self@)
    }

    /// The slots of a registry have numbers that an `Entity` can hold.
    pub proof fn lemma_slots_are_counted(&self)
        ensures
            self@.len() <= usize::MAX,
    {
        assert(self.slots.len() <= usize::MAX);
    }

    /// A registry without entities.
    pub fn new() -> (scene: Scene)
        ensures
            scene@ == Seq::<Option<NodeView>>::empty(),
            scene.wf(),
    {
        let scene = Scene { slots: Vec::new() };
        assert(scene@ =~= Seq::<Option<NodeView>>::empty());
        scene
    }

    /// The number of slots handed out so far.
    pub fn len(&self) -> (n: usize)
        ensures
            n == self@.len(),
    {
        self.slots.len()
    }

    /// The entity in slot `e`, if it still exists.
    pub fn get(&self, e: Entity) -> (node: Option<&Node>)
        ensures
            node is Some <==> live(self@, e as int),
            node is Some ==> Some(node.unwrap()@) == self@[e as int],
    {
        if e < self.slots.len() {
            self.slots[e].as_ref()
        } else {
            None
        }
    }

    /// Puts a new entity into the next free slot and returns the slot.
    pub fn spawn(&mut self, parent: Option<Entity>, item: Item) -> (e: Entity)
        requires
            old(self).wf(),
            parent is Some ==> live(old(self)@, parent.unwrap() as int),
        ensures
            final(self).wf(),
            e == old(self)@.len(),
            final(self)@ == old(self)@.push(Some(NodeView { parent, item: item@ })),
    {
        let e = self.slots.len();
        self.slots.push(Some(Node { parent, item }));
        assert(self.slots.len() <= usize::MAX);
        assert(self@ =~= old(self)@.push(Some(NodeView { parent, item: item@ })));
        e
    }

    /// Removes `root` and every entity below it. Does nothing if `root` does
    /// not exist.
    pub fn despawn_recursive(&mut self, root: Entity)
        requires
            old(self).wf(),
        ensures
            final(self).wf(),
            final(self)@ == despawned(old(self)@, root as int),
    {
        let n = self.slots.len();
        let mut i: usize = 0;
        while i < n
            invariant
                i <= n,
                n == self@.len(),
                n == old(self)@.len(),
                tree_wf(old(self)@),
                forall|e: int|
                    0 <= e < i ==> #[trigger] self@[e] == (if under(old(self)@, e, root as int) {
                        None
                    } else {
                        old(self)@[e]
                    }),
                forall|e: int| i <= e < n ==> #[trigger] self@[e] == old(self)@[e],
            decreases n - i,
        {
            let doomed = match &self.slots[i] {
                None => false,
                Some(node) => i == root || match node.parent {
                    Some(p) => p < i && self.slots[p].is_none(),
                    None => false,
                },
            };
            proof {
                let before = old(self)@;
                assert(self@[i as int] == before[i as int]);
                assert(self@[i as int] == slot_view(self.slots@[i as int]));
                if before[i as int] is Some && before[i as int].unwrap().parent is Some {
                    let p = before[i as int].unwrap().parent.unwrap() as int;
                    assert(p < i && live(before, p));
                    assert(self@[p] == slot_view(self.slots@[p]));
                    assert(self@[p] is None <==> under(before, p, root as int));
                }
                assert(doomed == under(before, i as int, root as int));
            }
            let ghost before_step = self@;
            if doomed {
                self.slots[i] = None;
                assert(self@ =~= before_step.update(i as int, None));
            }
            i += 1;
        }
        assert(self@ =~= despawned(old(self)@, root as int));
    }

    /// Removes the given entities one by one, each with all that is below it.
    pub fn despawn_all(&mut self, roots: &Vec<Entity>)
        requires
            old(self).wf(),
        ensures
            final(self).wf(),
            final(self)@ == despawned_all(old(self)@, roots@),
    {
        let mut i: usize = 0;
        assert(roots@.skip(0) =~= roots@);
        while i < roots.len()
            invariant
                i <= roots.len(),
                self.wf(),
                despawned_all(old(self)@, roots@) == despawned_all(self@, roots@.skip(i as int)),
            decreases roots.len() - i,
        {
            proof {
                assert(roots@.skip(i as int)[0] == roots@[i as int]);
                assert(roots@.skip(i as int).skip(1) =~= roots@.skip(i + 1));
            }
            self.despawn_recursive(roots[i]);
            i += 1;
        }
    }

    /// Removes the one entity of the given kind with all that is below it,
    /// and returns it. Where there is none of the kind, or more than one,
    /// nothing is removed and the reason is returned.
    pub fn despawn_root(&mut self, tag: Kind) -> (removed: Result<Entity, QuerySingleError>)
        requires
            old(self).wf(),
        ensures
            final(self).wf(),
            removed == single_of(old(self)@, tag),
            final(self)@ == without_root(old(self)@, tag),
    {
        let found = self.single(tag);
        if let Ok(root) = found {
            self.despawn_recursive(root);
        }
        found
    }

    /// Gives the entity `e` a new content and leaves its parent as it is.
    /// Does nothing if `e` does not exist.
    pub fn set_item(&mut self, e: Entity, item: Item)
        requires
            old(self).wf(),
        ensures
            final(self).wf(),
            final(self)@ == with_item(old(self)@, e as int, item@),
    {
        if e < self.slots.len() {
            let parent = match &self.slots[e] {
                Some(node) => Some(node.parent),
                None => None,
            };
            if let Some(parent) = parent {
                self.slots[e] = Some(Node { parent, item });
                assert(self@ =~= with_item(old(self)@, e as int, item@));
            }
        }
    }

    /// The one entity of the given kind, or why there is no such one.
    pub fn single(&self, kind: Kind) -> (found: Result<Entity, QuerySingleError>)
        ensures
            found == single_of(self@, kind),
    {
        let n = self.slots.len();
        let mut first: Option<Entity> = None;
        let mut i: usize = 0;
        while i < n
            invariant
                i <= n,
                n == self@.len(),
                match first {
                    Some(e) => e < i && is_kind(self@, e as int, kind) && forall|other: int|
                        0 <= other < i && is_kind(self@, other, kind) ==> other == e,
                    None => forall|other: int| 0 <= other < i ==> !is_kind(self@, other, kind),
                },
            decreases n - i,
        {
            let hit = match &self.slots[i] {
                Some(node) => node.item.kind() == kind,
                None => false,
            };
            proof {
                assert(self@[i as int] == slot_view(self.slots@[i as int]));
                assert(hit == is_kind(self@, i as int, kind));
            }
            if hit {
                if let Some(e) = first {
                    assert(is_kind(self@, e as int, kind) && is_kind(self@, i as int, kind));
                    return Err(QuerySingleError::MultipleEntities);
                }
                first = Some(i);
            }
            i += 1;
        }
        match first {
            Some(e) => {
                assert(only_one(self@, kind, e as int));
                Ok(e)
            },
            None => Err(QuerySingleError::NoEntities),
        }
    }

    /// The entities of the given kind, in the order in which they were
    /// spawned.
    pub fn query(&self, kind: Kind) -> (found: Vec<Entity>)
        ensures
            found@ == matching(self@, kind),
    {
        let n = self.slots.len();
        let mut found: Vec<Entity> = Vec::new();
        let mut i: usize = 0;
        while i < n
            invariant
                i <= n,
                n == self@.len(),
                found@ == matching(self@.take(i as int), kind),
            decreases n - i,
        {
            let hit = match &self.slots[i] {
                Some(node) => node.item.kind() == kind,
                None => false,
            };
            proof {
                assert(self@[i as int] == slot_view(self.slots@[i as int]));
                assert(self@.take(i + 1).drop_last() =~= self@.take(i as int));
                assert(hit == is_kind(self@.take(i + 1), i as int, kind));
            }
            if hit {
                found.push(i);
            }
            i += 1;
        }
        assert(self@.take(n as int) =~= self@);
        found
    }

    /// The first child of `parent` that is of the given kind.
    pub fn first_child(&self, parent: Entity, kind: Kind) -> (found: Option<Entity>)
        ensures
            found == first_child_from(self@, parent, kind, 0),
    {
        let n = self.slots.len();
        let mut i: usize = 0;
        while i < n
            invariant
                i <= n,
                n == self@.len(),
                first_child_from(self@, parent, kind, 0) == first_child_from(
                    self@,
                    parent,
                    kind,
                    i as int,
                ),
            decreases n - i,
        {
            let hit = match &self.slots[i] {
                Some(node) => node.item.kind() == kind && match node.parent {
                    Some(p) => p == parent,
                    None => false,
                },
                None => false,
            };
            proof {
                assert(self@[i as int] == slot_view(self.slots@[i as int]));
                assert(hit == is_child(self@, i as int, parent, kind));
            }
            if hit {
                return Some(i);
            }
            i += 1;
        }
        None
    }
}

} // verus!
