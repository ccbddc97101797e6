//! Item definitions: identity, display data, and the template ("blueprint")
//! each spawned instance is stamped from, plus the debug seeding requests the
//! scene issues on enter.

use vstd::prelude::*;

use crate::positioning::{Coords, Dimens, Pos};

verus! {

/// Identity of an item kind.
#[derive(Clone, Copy, Debug, PartialEq, Eq, Structural)]
pub enum ItemId {
    CandleStick,
    EmptyLantern,
    FireEssence,
    Vial,
    TurtleHerb,
}

/// Identity of the texture a kind is drawn with; resolved to real image data
/// by the presentation layer outside this crate.
#[derive(Clone, Copy, Debug, PartialEq, Eq, Structural)]
pub enum TextureId {
    CandleStick,
    EmptyLantern,
    FireEssence,
    Vial,
    TurtleHerb,
}

/// The equipment slot a wearable item goes into.
#[derive(Clone, Copy, Debug, PartialEq, Eq, Structural)]
pub enum WearableSlot {
    Head,
    Body,
    Hand,
}

/// An item definition: immutable template data shared by every spawned
/// instance of the same id.
#[derive(Clone, Debug, PartialEq, Eq)]
pub struct Item {
    pub id: ItemId,
    pub texture_id: TextureId,
    pub name: String,
    pub description: String,
    pub wearable: Option<WearableSlot>,
}

/// A runtime placement record: an item definition together with the grid
/// region its instance currently occupies.
#[derive(Clone, Debug, PartialEq, Eq)]
pub struct PlacedItem {
    pub item: Item,
    pub coords: Coords,
}

/// A request to spawn one item instance at a grid region.
#[derive(Clone, Debug, PartialEq, Eq)]
pub struct SpawnItemEvent {
    pub item: Item,
    pub coords: Coords,
}

impl SpawnItemEvent {
    pub fn new(item: Item, coords: Coords) -> (r: SpawnItemEvent)
        ensures
            r == (SpawnItemEvent { item, coords }),
    {
        SpawnItemEvent { item, coords }
    }
}

/// The texture each item kind is drawn with.
pub open spec fn texture_of(id: ItemId) -> TextureId {
    match id {
        ItemId::CandleStick => TextureId::CandleStick,
        ItemId::EmptyLantern => TextureId::EmptyLantern,
        ItemId::FireEssence => TextureId::FireEssence,
        ItemId::Vial => TextureId::Vial,
        ItemId::TurtleHerb => TextureId::TurtleHerb,
    }
}

/// Whether `it` is the template this crate stamps out for `id`: the matching
/// texture, empty display strings, and no wearable classification.
pub open spec fn is_blueprint(it: Item, id: ItemId) -> bool {
    &&& it.id == id
    &&& it.texture_id == texture_of(id)
    &&& it.name@.len() == 0
    &&& it.description@.len() == 0
    &&& it.wearable is None
}

/// Builds the template item for `id`.
pub fn blueprint(id: ItemId) -> (r: Item)
    ensures
        is_blueprint(r, id),
{
    let texture_id = match id {
        ItemId::CandleStick => TextureId::CandleStick,
        ItemId::EmptyLantern => TextureId::EmptyLantern,
        ItemId::FireEssence => TextureId::FireEssence,
        ItemId::Vial => TextureId::Vial,
        ItemId::TurtleHerb => TextureId::TurtleHerb,
    };
    Item { id, texture_id, name: String::new(), description: String::new(), wearable: None }
}

/// The fixed set of items the scene seeds itself with on enter, one spawn
/// request per item, in order.
pub fn create_debug_items() -> (r: Vec<SpawnItemEvent>)
    ensures
        r@.len() == 5,
        is_blueprint(r@[0].item, ItemId::CandleStick),
        r@[0].coords == (Coords { pos: Pos { x: 10, y: 10 }, dimens: Dimens { x: 1, y: 2 } }),
        is_blueprint(r@[1].item, ItemId::EmptyLantern),
        r@[1].coords == (Coords { pos: Pos { x: 5, y: 5 }, dimens: Dimens { x: 2, y: 3 } }),
        is_blueprint(r@[2].item, ItemId::FireEssence),
        r@[2].coords == (Coords { pos: Pos { x: 15, y: 15 }, dimens: Dimens { x: 1, y: 1 } }),
        is_blueprint(r@[3].item, ItemId::Vial),
        r@[3].coords == (Coords { pos: Pos { x: 20, y: 20 }, dimens: Dimens { x: 3, y: 2 } }),
        is_blueprint(r@[4].item, ItemId::TurtleHerb),
        r@[4].coords == (Coords { pos: Pos { x: 25, y: 25 }, dimens: Dimens { x: 2, y: 3 } }),
        forall|i: int| 0 <= i < 5 ==> (#[trigger] r@[i].coords).wf(),
    {
    let mut r: Vec<SpawnItemEvent> = Vec::new();
    r.push(
        SpawnItemEvent::new(
            blueprint(ItemId::CandleStick),
            Coords::new(Pos::new(10, 10), Dimens::new(1, 2)),
        ),
    );
    r.push(
        SpawnItemEvent::new(
            blueprint(ItemId::EmptyLantern),
            Coords::new(Pos::new(5, 5), Dimens::new(2, 3)),
        ),
    );
    r.push(
        SpawnItemEvent::new(
            blueprint(ItemId::FireEssence),
            Coords::new(Pos::new(15, 15), Dimens::new(1, 1)),
        ),
    );
    r.push(
        SpawnItemEvent::new(
            blueprint(ItemId::Vial),
            Coords::new(Pos::new(20, 20), Dimens::new(3, 2)),
        ),
    );
    r.push(
        SpawnItemEvent::new(
            blueprint(ItemId::TurtleHerb),
            Coords::new(Pos::new(25, 25), Dimens::new(2, 3)),
        ),
    );
    r
}

} // verus!
