//! A column: the slots of one component type, one per entity, with the
//! record of who holds views of it.

use crate::access::{Access, BorrowError};
use crate::components::{Component, ComponentKind};
use vstd::prelude::*;

verus! {

/// What a column is, mathematically: its type token, one optional
/// component per entity, and the views that are outstanding.
pub struct ColumnView {
    pub kind: ComponentKind,
    pub slots: Seq<Option<Component>>,
    pub access: Access,
}

impl ColumnView {
    /// Every component in the column is of the column's type, and the
    /// record of views is coherent.
    pub open spec fn wf(self) -> bool {
        &&& self.access.wf()
        &&& forall|entity: int|
            0 <= entity < self.slots.len() ==> ((#[trigger] self.slots[entity]) matches Some(
                component,
            ) ==> component.kind() == self.kind)
    }

    /// A column made for `kind` when `entities` entities exist already: an
    /// empty slot for each of them, and no view outstanding.
    pub open spec fn fresh(kind: ComponentKind, entities: nat) -> ColumnView {
        ColumnView {
            kind,
            slots: Seq::new(entities, |entity: int| None::<Component>),
            access: Access::Free,
        }
    }

    /// This column with an empty slot for one more entity.
    pub open spec fn grown(self) -> ColumnView {
        ColumnView { slots: self.slots.push(None), ..self }
    }

    /// This column with `component` in the slot of `entity`.
    pub open spec fn with_slot(self, entity: int, component: Component) -> ColumnView {
        ColumnView { slots: self.slots.update(entity, Some(component)), ..self }
    }

    /// This column with another record of outstanding views.
    pub open spec fn with_access(self, access: Access) -> ColumnView {
        ColumnView { access, ..self }
    }

    /// The debug form of the component of `entity`; empty where the slot is
    /// empty or the column has no slot for `entity`.
    pub open spec fn format_at(self, entity: int) -> Seq<char> {
        if 0 <= entity < self.slots.len() {
            match self.slots[entity] {
                Some(component) => component.debug_form(),
                None => Seq::empty(),
            }
        } else {
            Seq::empty()
        }
    }
}

/// The storage of one component type.
#[derive(Debug)]
pub struct ComponentVec {
    kind: ComponentKind,
    slots: Vec<Option<Component>>,
    access: Access,
}

impl View for ComponentVec {
    type V = ColumnView;

    closed spec fn view(&self) -> ColumnView {
        ColumnView { kind: self.kind, slots: self.slots@, access: self.access }
    }
}

impl ComponentVec {
    pub open spec fn wf(&self) -> bool {
        self@.wf()
    }

    /// A column for `kind`, with an empty slot for each of the `entities`
    /// entities that exist already.
    pub fn new(kind: ComponentKind, entities: usize) -> (column: Self)
        ensures
            column.wf(),
            column@ == ColumnView::fresh(kind, entities as nat),
    {
        let mut slots: Vec<Option<Component>> = Vec::with_capacity(entities);
        let mut entity: usize = 0;
        while entity < entities
            invariant
                entity <= entities,
                slots@ == Seq::new(entity as nat, |entity: int| None::<Component>),
            decreases entities - entity,
        {
            slots.push(None);
            entity += 1;
        }
        ComponentVec { kind, slots, access: Access::Free }
    }

    /// The type token of the column.
    pub fn kind(&self) -> (kind: ComponentKind)
        ensures
            kind == self@.kind,
    {
        self.kind
    }

    /// The number of slots.
    pub fn len(&self) -> (len: usize)
        ensures
            len == self@.slots.len(),
    {
        self.slots.len()
    }

    /// The views that are outstanding.
    pub fn access(&self) -> (access: Access)
        ensures
            access == self@.access,
    {
        self.access
    }

    /// Appends an empty slot, for an entity that was just created.
    pub fn push_none(&mut self)
        requires
            old(self).wf(),
        ensures
            final(self).wf(),
            final(self)@ == old(self)@.grown(),
    {
        self.slots.push(None);
    }

    /// The component of `entity`, if its slot holds one.
    pub fn get(&self, entity: usize) -> (slot: Option<&Component>)
        requires
            entity < self@.slots.len(),
        ensures
            match slot {
                Some(component) => self@.slots[entity as int] == Some(*component),
                None => self@.slots[entity as int] is None,
            },
    {
        self.slots[entity].as_ref()
    }

    /// Puts `component` into the slot of `entity`, over what was there.
    pub fn set(&mut self, entity: usize, component: Component)
        requires
            old(self).wf(),
            entity < old(self)@.slots.len(),
            component.kind() == old(self)@.kind,
        ensures
            final(self).wf(),
            final(self)@ == old(self)@.with_slot(entity as int, component),
    {
        self.slots[entity] = Some(component);
    }

    /// The debug form of the component of `entity`; empty where the slot is
    /// empty or the column has no slot for `entity`.
    pub fn fmt_entity(&self, entity: usize) -> (text: String)
        ensures
            text@ == self@.format_at(entity as int),
    {
        if entity < self.slots.len() {
            match &self.slots[entity] {
                Some(component) => component.debug_text(),
                None => String::new(),
            }
        } else {
            String::new()
        }
    }

    /// Grants one more shared view, or refuses and changes nothing.
    pub fn share(&mut self) -> (granted: Result<(), BorrowError>)
        requires
            old(self).wf(),
        ensures
            final(self).wf(),
            match old(self)@.access.shared() {
                Ok(next) => granted == Ok::<(), BorrowError>(()) && final(self)@ == old(
                    self,
                )@.with_access(next),
                Err(reason) => granted == Err::<(), BorrowError>(reason) && final(self)@ == old(
                    self,
                )@,
            },
    {
        self.access.share()
    }

    /// Grants the exclusive view, or refuses and changes nothing.
    pub fn lock(&mut self) -> (granted: Result<(), BorrowError>)
        requires
            old(self).wf(),
        ensures
            final(self).wf(),
            match old(self)@.access.locked() {
                Ok(next) => granted == Ok::<(), BorrowError>(()) && final(self)@ == old(
                    self,
                )@.with_access(next),
                Err(reason) => granted == Err::<(), BorrowError>(reason) && final(self)@ == old(
                    self,
                )@,
            },
    {
        self.access.lock()
    }

    /// Takes back one shared view.
    pub fn unshare(&mut self)
        requires
            old(self).wf(),
        ensures
            final(self).wf(),
            final(self)@ == old(self)@.with_access(old(self)@.access.unshared()),
    {
        self.access.unshare()
    }

    /// Takes back the exclusive view.
    pub fn unlock(&mut self)
        requires
            old(self).wf(),
        ensures
            final(self).wf(),
            final(self)@ == old(self)@.with_access(old(self)@.access.unlocked()),
    {
        self.access.unlock()
    }
}

} // verus!
