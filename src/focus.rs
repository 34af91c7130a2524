use vstd::prelude::*;
use crate::geometry::FlexBoxId;

verus! {

/// Which component receives input: the modal id while one is set, else the
/// normal one.
#[derive(Clone, Copy, Debug, PartialEq, Eq, Structural)]
pub struct HasFocus {
    pub id: Option<FlexBoxId>,
    pub modal_id: Option<FlexBoxId>,
}

impl HasFocus {
    pub open spec fn routed(self) -> Option<FlexBoxId> {
        if self.modal_id is Some {
            self.modal_id
        } else {
            self.id
        }
    }

    pub open spec fn with_modal(self, id: FlexBoxId) -> HasFocus {
        HasFocus { modal_id: Some(id), ..self }
    }

    pub open spec fn without_modal(self) -> HasFocus {
        HasFocus { modal_id: None, ..self }
    }

    pub fn new() -> (r: HasFocus)
        ensures
            r.id is None,
            r.modal_id is None,
    {
        HasFocus { id: None, modal_id: None }
    }

    pub fn get_id(&self) -> (r: Option<FlexBoxId>)
        ensures
            r == self.id,
    {
        self.id
    }

    pub fn set_id(&mut self, id: FlexBoxId)
        ensures
            *final(self) == (HasFocus { id: Some(id), ..*old(self) }),
    {
        self.id = Some(id);
    }

    pub fn get_modal_id(&self) -> (r: Option<FlexBoxId>)
        ensures
            r == self.modal_id,
    {
        self.modal_id
    }

    pub fn is_modal_set(&self) -> (r: bool)
        ensures
            r == self.modal_id is Some,
    {
        self.modal_id.is_some()
    }

    /// Routes input to `id` until the modal id is reset.
    pub fn set_modal_id(&mut self, id: FlexBoxId)
        ensures
            *final(self) == old(self).with_modal(id),
    {
        self.modal_id = Some(id);
    }

    /// Gives routing back to the normal id.
    pub fn reset_modal_id(&mut self)
        ensures
            *final(self) == old(self).without_modal(),
    {
        self.modal_id = None;
    }

    /// The id that input goes to.
    pub fn get_target(&self) -> (r: Option<FlexBoxId>)
        ensures
            r == self.routed(),
    {
        if self.modal_id.is_some() {
            self.modal_id
        } else {
            self.id
        }
    }

    pub fn does_id_have_focus(&self, id: FlexBoxId) -> (r: bool)
        ensures
            r == (self.routed() == Some(id)),
    {
        match self.get_target() {
            Some(t) => t == id,
            None => false,
        }
    }
}

/// The component ids that can receive input, and the focus among them.
pub struct ComponentRegistry {
    pub ids: Vec<FlexBoxId>,
    pub has_focus: HasFocus,
}

/// Where an event goes: the focused id when a component with it is
/// registered, else nowhere.
pub open spec fn route(ids: Seq<FlexBoxId>, focus: HasFocus) -> Option<FlexBoxId> {
    match focus.routed() {
        Some(id) => if ids.contains(id) {
            Some(id)
        } else {
            None
        },
        None => None,
    }
}

/// Opening a dialog over a focused component and then resolving it sends
/// the next event back to that component, not to the dialog: while the dialog
/// is open (and registered) events go to it, and once its modal id is reset
/// routing is what it was before.
pub proof fn lemma_modal_round_trip(ids: Seq<FlexBoxId>, f: HasFocus, dialog: FlexBoxId)
    requires
        f.modal_id is None,
    ensures
        ids.contains(dialog) ==> route(ids, f.with_modal(dialog)) == Some(dialog),
        route(ids, f.with_modal(dialog).without_modal()) == route(ids, f),
        f.id is Some && ids.contains(f.id.unwrap()) ==> route(ids, f.with_modal(dialog).without_modal())
            == f.id,
{
    assert(f.with_modal(dialog).without_modal() == f);
}

impl ComponentRegistry {
    pub open spec fn ids(&self) -> Seq<FlexBoxId> {
        self.ids@
    }

    pub fn new() -> (r: ComponentRegistry)
        ensures
            r.ids().len() == 0,
            r.has_focus.id is None && r.has_focus.modal_id is None,
    {
        ComponentRegistry { ids: Vec::new(), has_focus: HasFocus { id: None, modal_id: None } }
    }

    pub fn contains(&self, id: FlexBoxId) -> (r: bool)
        ensures
            r == self.ids().contains(id),
    {
        let mut i: usize = 0;
        while i < self.ids.len()
            invariant
                i <= self.ids@.len(),
                forall|k: int| 0 <= k < i ==> self.ids@[k] != id,
            decreases self.ids@.len() - i,
        {
            if self.ids[i] == id {
                return true;
            }
            i = i + 1;
        }
        false
    }

    /// Registers `id`; registering it again changes nothing.
    pub fn put(&mut self, id: FlexBoxId)
        ensures
            final(self).has_focus == old(self).has_focus,
            old(self).ids().contains(id) ==> final(self).ids() == old(self).ids(),
            !old(self).ids().contains(id) ==> final(self).ids() == old(self).ids().push(id),
    {
        if !self.contains(id) {
            self.ids.push(id);
        }
    }

    /// The component that the next input event goes to, if any.
    pub fn route_event_target(&self) -> (r: Option<FlexBoxId>)
        ensures
            r == route(self.ids(), self.has_focus),
    {
        match self.has_focus.get_target() {
            Some(id) => if self.contains(id) {
                Some(id)
            } else {
                None
            },
            None => None,
        }
    }
}

} // verus!
