//! The entities of a session: plain records in an arena, each named by the
//! place at which it was created.
//!
//! Only three kinds of component exist: a position, an appearance and the
//! mark of the player. An entity has each of them or not. Entities are never
//! removed, so a handle stays good for the life of the arena.

use vstd::prelude::*;
use crate::level::{Direction, LevelState};

verus! {

/// How an entity is drawn: a glyph of the terminal's font and two colours,
/// each as red, green and blue.
#[derive(Clone, Copy, Debug, PartialEq, Eq)]
pub struct Renderable {
    /// The glyph, as its place in the font.
    pub glyph: u16,
    /// The colour of the glyph.
    pub fg: (u8, u8, u8),
    /// The colour behind the glyph.
    pub bg: (u8, u8, u8),
}

/// One entity with the components it has.
#[derive(Clone, Copy, Debug, PartialEq, Eq)]
pub struct Entity {
    /// Where the entity stands, if it stands anywhere.
    pub position: Option<(i32, i32)>,
    /// How the entity is drawn, if it is drawn.
    pub renderable: Option<Renderable>,
    /// Whether the keyboard moves this entity.
    pub player: bool,
}

/// The handle of an entity: its place in the arena.
#[derive(Clone, Copy, Debug, PartialEq, Eq, Structural)]
pub struct EntityId {
    /// The place of the entity in the arena.
    pub index: usize,
}

/// Something to draw at a cell.
#[derive(Clone, Copy, Debug, PartialEq, Eq)]
pub struct Drawable {
    /// The column of the cell.
    pub x: i32,
    /// The row of the cell.
    pub y: i32,
    /// What is drawn there.
    pub renderable: Renderable,
}

/// The entity after the player asked to step in `direction`: a player with a
/// position takes the step that the level allows; any other entity is as it was.
pub open spec fn moved(entity: Entity, level: &LevelState, direction: Direction) -> Entity {
    match entity.position {
        Some(from) if entity.player => Entity {
            position: Some(level.spec_step(from, direction)),
            ..entity
        },
        _ => entity,
    }
}

/// What is drawn for the entities: one item for each entity that has both a
/// position and an appearance, in the order of the handles.
pub open spec fn drawables_of(entities: Seq<Entity>) -> Seq<Drawable>
    decreases entities.len(),
{
    if entities.len() == 0 {
        Seq::empty()
    } else {
        let earlier = drawables_of(entities.drop_last());
        match (entities.last().position, entities.last().renderable) {
            (Some(at), Some(renderable)) => earlier.push(Drawable { x: at.0, y: at.1, renderable }),
            _ => earlier,
        }
    }
}

/// The arena of entities.
#[derive(Clone, Debug, PartialEq, Eq)]
pub struct Entities {
    slots: Vec<Entity>,
}

impl View for Entities {
    type V = Seq<Entity>;

    closed spec fn view(&self) -> Seq<Entity> {
        self.slots@
    }
}

impl Entities {
    /// Builds an arena without entities.
    pub fn new() -> (entities: Entities)
        ensures
            entities@ == Seq::<Entity>::empty(),
    {
        Entities { slots: Vec::new() }
    }

    /// The number of entities created so far.
    pub fn len(&self) -> (n: usize)
        ensures
            n == self@.len(),
    {
        self.slots.len()
    }

    /// Adds an entity and returns its handle. The handles of the entities
    /// created before stay as they are.
    pub fn create(&mut self, entity: Entity) -> (id: EntityId)
        ensures
            final(self)@ == old(self)@.push(entity),
            id.index == old(self)@.len(),
    {
        let index: usize = self.slots.len();
        self.slots.push(entity);
        EntityId { index }
    }

    /// Reads the entity that the handle names, if the arena holds it.
    pub fn get(&self, id: EntityId) -> (entity: Option<Entity>)
        ensures
            entity == (if id.index < self@.len() {
                Some(self@[id.index as int])
            } else {
                None
            }),
    {
        if id.index < self.slots.len() {
            Some(self.slots[id.index])
        } else {
            None
        }
    }

    /// Resolves one request of the player to step in `direction`: every
    /// player entity that has a position takes the step that the level
    /// allows. Nothing else changes.
    pub fn move_players(&mut self, level: &LevelState, direction: Direction)
        ensures
            final(self)@.len() == old(self)@.len(),
            forall|i: int|
                0 <= i < old(self)@.len() ==> #[trigger] final(self)@[i] == moved(
                    old(self)@[i],
                    level,
                    direction,
                ),
    {
        let mut i: usize = 0;
        while i < self.slots.len()
            invariant
                0 <= i <= self.slots.len(),
                self@.len() == old(self)@.len(),
                forall|k: int|
                    0 <= k < i ==> #[trigger] self@[k] == moved(old(self)@[k], level, direction),
                forall|k: int| i <= k < self@.len() ==> #[trigger] self@[k] == old(self)@[k],
            decreases self.slots.len() - i,
        {
            let entity: Entity = self.slots[i];
            match entity.position {
                Some(from) => {
                    if entity.player {
                        let to: (i32, i32) = level.step(from, direction);
                        self.slots[i] = Entity {
                            position: Some(to),
                            renderable: entity.renderable,
                            player: entity.player,
                        };
                    }
                },
                None => {},
            }
            i = i + 1;
        }
    }

    /// Lists what is to be drawn: one item for each entity that has both a
    /// position and an appearance, in the order of the handles.
    pub fn drawables(&self) -> (list: Vec<Drawable>)
        ensures
            list@ == drawables_of(self@),
    {
        let mut list: Vec<Drawable> = Vec::new();
        let mut i: usize = 0;
        while i < self.slots.len()
            invariant
                0 <= i <= self.slots.len(),
                list@ == drawables_of(self@.take(i as int)),
            decreases self.slots.len() - i,
        {
            proof {
                assert(self@.take(i + 1).drop_last() =~= self@.take(i as int));
            }
            let entity: Entity = self.slots[i];
            match (entity.position, entity.renderable) {
                (Some(at), Some(renderable)) => {
                    list.push(Drawable { x: at.0, y: at.1, renderable });
                },
                _ => {},
            }
            i = i + 1;
        }
        proof {
            assert(self@.take(i as int) =~= self@);
        }
        list
    }
}

} // verus!
