//! The component catalogue: the value types that can be attached to an
//! entity, their type tokens, and the erased form in which a column stores
//! them.

use crate::constants::{WINDOW_HEIGHT, WINDOW_WIDTH};
use vstd::prelude::*;

verus! {

/// Remaining hit points.
#[derive(Debug, Clone, Copy, PartialEq, Eq, Structural)]
pub struct Health(pub i32);

/// A cell of the playing field.
#[derive(Debug, Clone, Copy, PartialEq, Eq, Structural)]
pub struct Position {
    pub x: i32,
    pub y: i32,
}

/// `value` if it lies in `0 .. limit`, else the nearest end of that range.
pub open spec fn clamp_to(value: int, limit: int) -> int {
    if value < 0 {
        0
    } else if value >= limit {
        limit - 1
    } else {
        value
    }
}

/// One coordinate moved by `by` and held inside `0 .. limit`.
fn clamped_step(at: i32, by: i32, limit: usize) -> (to: i32)
    requires
        0 < limit <= i32::MAX,
    ensures
        to == clamp_to(at + by, limit as int),
{
    let sum: i64 = at as i64 + by as i64;
    if sum < 0 {
        0
    } else if sum >= limit as i64 {
        (limit - 1) as i32
    } else {
        sum as i32
    }
}

impl Position {
    pub fn new(x: i32, y: i32) -> (position: Self)
        ensures
            position == (Position { x, y }),
    {
        Self { x, y }
    }

    /// This position moved by `delta` and held inside the playing field.
    pub open spec fn moved(self, delta: (i32, i32)) -> Position {
        Position {
            x: clamp_to(self.x + delta.0, WINDOW_WIDTH as int) as i32,
            y: clamp_to(self.y + delta.1, WINDOW_HEIGHT as int) as i32,
        }
    }

    /// Moves by `delta`; a coordinate that would leave the playing field
    /// stops at its border.
    pub fn add(&mut self, delta: (i32, i32))
        ensures
            *final(self) == old(self).moved(delta),
    {
        self.x = clamped_step(self.x, delta.0, WINDOW_WIDTH);
        self.y = clamped_step(self.y, delta.1, WINDOW_HEIGHT);
    }
}

/// Cells moved per step along each axis.
#[derive(Debug, Clone, Copy, PartialEq, Eq, Structural)]
pub struct Velocity {
    pub x: i32,
    pub y: i32,
}

impl Velocity {
    pub fn new(x: i32, y: i32) -> (velocity: Self)
        ensures
            velocity == (Velocity { x, y }),
    {
        Self { x, y }
    }

    /// Adds `delta` to both axes.
    pub fn add(&mut self, delta: (i32, i32))
        requires
            i32::MIN <= old(self).x + delta.0 <= i32::MAX,
            i32::MIN <= old(self).y + delta.1 <= i32::MAX,
        ensures
            final(self).x == old(self).x + delta.0,
            final(self).y == old(self).y + delta.1,
    {
        self.x = self.x + delta.0;
        self.y = self.y + delta.1;
    }

    /// Brings the entity to rest.
    pub fn zero(&mut self)
        ensures
            *final(self) == (Velocity { x: 0, y: 0 }),
    {
        self.x = 0;
        self.y = 0;
    }
}

/// The glyph an entity is drawn with.
#[derive(Debug, PartialEq, Eq)]
pub struct Sprite {
    sprite: String,
}

impl View for Sprite {
    type V = Seq<char>;

    closed spec fn view(&self) -> Seq<char> {
        self.sprite@
    }
}

impl Clone for Sprite {
    fn clone(&self) -> (copy: Self)
        ensures
            copy == *self,
    {
        Sprite { sprite: self.sprite.clone() }
    }
}

impl Sprite {
    pub fn new(sprite_str: String) -> (sprite: Self)
        ensures
            sprite@ == sprite_str@,
    {
        Self { sprite: sprite_str }
    }

    pub fn to_string(&self) -> (text: String)
        ensures
            text@ == self@,
    {
        self.sprite.clone()
    }

    /// The glyph, borrowed.
    pub fn as_str(&self) -> (text: &str)
        ensures
            text@ == self@,
    {
        self.sprite.as_str()
    }
}

/// Marks the entity the player steers.
#[derive(Debug, Clone, Copy, PartialEq, Eq, Structural)]
pub struct PlayerTag;

/// Marks an entity that moves on its own.
#[derive(Debug, Clone, Copy, PartialEq, Eq, Structural)]
pub struct EnemyTag;

/// The type token of a component: one per component type, and so one per
/// column of a world.
#[derive(Debug, Clone, Copy, PartialEq, Eq, Structural)]
pub enum ComponentKind {
    Health,
    Position,
    Velocity,
    Sprite,
    PlayerTag,
    EnemyTag,
}

/// A component with its concrete type erased, as a column stores it and as
/// a mixed list handed to `World::spawn` carries it.
#[derive(Debug, PartialEq, Eq)]
pub enum Component {
    Health(Health),
    Position(Position),
    Velocity(Velocity),
    Sprite(Sprite),
    PlayerTag(PlayerTag),
    EnemyTag(EnemyTag),
}

impl Clone for Component {
    fn clone(&self) -> (copy: Self)
        ensures
            copy == *self,
    {
        match self {
            Component::Health(health) => Component::Health(*health),
            Component::Position(position) => Component::Position(*position),
            Component::Velocity(velocity) => Component::Velocity(*velocity),
            Component::Sprite(sprite) => Component::Sprite(sprite.clone()),
            Component::PlayerTag(tag) => Component::PlayerTag(*tag),
            Component::EnemyTag(tag) => Component::EnemyTag(*tag),
        }
    }
}

impl Component {
    /// The type token of the value inside.
    pub open spec fn spec_kind(&self) -> ComponentKind {
        match *self {
            Component::Health(_) => ComponentKind::Health,
            Component::Position(_) => ComponentKind::Position,
            Component::Velocity(_) => ComponentKind::Velocity,
            Component::Sprite(_) => ComponentKind::Sprite,
            Component::PlayerTag(_) => ComponentKind::PlayerTag,
            Component::EnemyTag(_) => ComponentKind::EnemyTag,
        }
    }

    #[verifier::when_used_as_spec(spec_kind)]
    pub fn kind(&self) -> (kind: ComponentKind)
        ensures
            kind == self.spec_kind(),
    {
        match self {
            Component::Health(_) => ComponentKind::Health,
            Component::Position(_) => ComponentKind::Position,
            Component::Velocity(_) => ComponentKind::Velocity,
            Component::Sprite(_) => ComponentKind::Sprite,
            Component::PlayerTag(_) => ComponentKind::PlayerTag,
            Component::EnemyTag(_) => ComponentKind::EnemyTag,
        }
    }
}

/// What every component type offers: its type token, its erased form, and
/// the way back from the erased form.
pub trait AnyComponent: Sized {
    /// The type token of `Self`.
    spec fn spec_kind() -> ComponentKind;

    /// This value with its type erased.
    spec fn erased(self) -> Component;

    /// The erased form of a value carries the type token of its type.
    proof fn lemma_erased_kind(self)
        ensures
            self.erased().kind() == Self::spec_kind(),
    ;

    /// The type token of `Self`.
    fn kind() -> (kind: ComponentKind)
        ensures
            kind == Self::spec_kind(),
    ;

    /// Erases the type, so that values of several types fit one list.
    fn into_box(self) -> (boxed: Component)
        ensures
            boxed == self.erased(),
            boxed.kind() == Self::spec_kind(),
    ;

    /// Recovers the typed value where `boxed` holds one of type `Self`;
    /// `None` says that it holds another type.
    fn downcast(boxed: &Component) -> (typed: Option<&Self>)
        ensures
            typed is Some <==> boxed.kind() == Self::spec_kind(),
            typed matches Some(value) ==> value.erased() == *boxed,
    ;
}

impl AnyComponent for Health {
    open spec fn spec_kind() -> ComponentKind {
        ComponentKind::Health
    }

    open spec fn erased(self) -> Component {
        Component::Health(self)
    }

    proof fn lemma_erased_kind(self) {
    }

    fn kind() -> (kind: ComponentKind) {
        ComponentKind::Health
    }

    fn into_box(self) -> (boxed: Component) {
        Component::Health(self)
    }

    fn downcast(boxed: &Component) -> (typed: Option<&Self>) {
        match boxed {
            Component::Health(value) => Some(value),
            _ => None,
        }
    }
}

impl AnyComponent for Position {
    open spec fn spec_kind() -> ComponentKind {
        ComponentKind::Position
    }

    open spec fn erased(self) -> Component {
        Component::Position(self)
    }

    proof fn lemma_erased_kind(self) {
    }

    fn kind() -> (kind: ComponentKind) {
        ComponentKind::Position
    }

    fn into_box(self) -> (boxed: Component) {
        Component::Position(self)
    }

    fn downcast(boxed: &Component) -> (typed: Option<&Self>) {
        match boxed {
            Component::Position(value) => Some(value),
            _ => None,
        }
    }
}

impl AnyComponent for Velocity {
    open spec fn spec_kind() -> ComponentKind {
        ComponentKind::Velocity
    }

    open spec fn erased(self) -> Component {
        Component::Velocity(self)
    }

    proof fn lemma_erased_kind(self) {
    }

    fn kind() -> (kind: ComponentKind) {
        ComponentKind::Velocity
    }

    fn into_box(self) -> (boxed: Component) {
        Component::Velocity(self)
    }

    fn downcast(boxed: &Component) -> (typed: Option<&Self>) {
        match boxed {
            Component::Velocity(value) => Some(value),
            _ => None,
        }
    }
}

impl AnyComponent for Sprite {
    open spec fn spec_kind() -> ComponentKind {
        ComponentKind::Sprite
    }

    open spec fn erased(self) -> Component {
        Component::Sprite(self)
    }

    proof fn lemma_erased_kind(self) {
    }

    fn kind() -> (kind: ComponentKind) {
        ComponentKind::Sprite
    }

    fn into_box(self) -> (boxed: Component) {
        Component::Sprite(self)
    }

    fn downcast(boxed: &Component) -> (typed: Option<&Self>) {
        match boxed {
            Component::Sprite(value) => Some(value),
            _ => None,
        }
    }
}

impl AnyComponent for PlayerTag {
    open spec fn spec_kind() -> ComponentKind {
        ComponentKind::PlayerTag
    }

    open spec fn erased(self) -> Component {
        Component::PlayerTag(self)
    }

    proof fn lemma_erased_kind(self) {
    }

    fn kind() -> (kind: ComponentKind) {
        ComponentKind::PlayerTag
    }

    fn into_box(self) -> (boxed: Component) {
        Component::PlayerTag(self)
    }

    fn downcast(boxed: &Component) -> (typed: Option<&Self>) {
        match boxed {
            Component::PlayerTag(value) => Some(value),
            _ => None,
        }
    }
}

impl AnyComponent for EnemyTag {
    open spec fn spec_kind() -> ComponentKind {
        ComponentKind::EnemyTag
    }

    open spec fn erased(self) -> Component {
        Component::EnemyTag(self)
    }

    proof fn lemma_erased_kind(self) {
    }

    fn kind() -> (kind: ComponentKind) {
        ComponentKind::EnemyTag
    }

    fn into_box(self) -> (boxed: Component) {
        Component::EnemyTag(self)
    }

    fn downcast(boxed: &Component) -> (typed: Option<&Self>) {
        match boxed {
            Component::EnemyTag(value) => Some(value),
            _ => None,
        }
    }
}

} // verus!
