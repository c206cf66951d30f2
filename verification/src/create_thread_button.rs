//! The "Create Thread" button of the main window and its pointer states.

use vstd::prelude::*;

verus! {

/// What the button tells its owner.
#[derive(Clone, Copy, PartialEq, Eq, Debug, Structural)]
pub enum CreateThreadButtonEvent {
    Clicked,
}

/// Which look the button has.
#[derive(Clone, Copy, PartialEq, Eq, Debug, Structural)]
pub enum ButtonLook {
    Base,
    Hover,
    Pressed,
}

/// The button's pointer state.
pub struct CreateThreadButton {
    pub hovered: bool,
    pub pressed: bool,
}

impl CreateThreadButton {
    pub fn new() -> (r: Self)
        ensures
            !r.hovered,
            !r.pressed,
    {
        CreateThreadButton { hovered: false, pressed: false }
    }

    /// The look: pressed wins over hovered.
    pub fn look(&self) -> (r: ButtonLook)
        ensures
            r == if self.pressed { ButtonLook::Pressed } else if self.hovered { ButtonLook::Hover } else { ButtonLook::Base },
    {
        if self.pressed { ButtonLook::Pressed } else if self.hovered { ButtonLook::Hover } else { ButtonLook::Base }
    }

    /// Whether the breathing glow shows: only under the pointer.
    pub fn shows_glow(&self) -> (r: bool)
        ensures
            r == self.hovered,
    {
        self.hovered
    }

    /// The pointer enters or leaves; returns whether anything changed (and
    /// the button must be redrawn).
    pub fn set_hovered(&mut self, hovered: bool) -> (changed: bool)
        ensures
            changed == (old(self).hovered != hovered),
            final(self).hovered == hovered,
            final(self).pressed == old(self).pressed,
    {
        if self.hovered != hovered {
            self.hovered = hovered;
            true
        } else {
            false
        }
    }

    /// The left button goes down on the button.
    pub fn press(&mut self)
        ensures
            final(self).pressed,
            final(self).hovered == old(self).hovered,
    {
        self.pressed = true;
    }

    /// The left button comes up, on the button or elsewhere.
    pub fn release(&mut self)
        ensures
            !final(self).pressed,
            final(self).hovered == old(self).hovered,
    {
        self.pressed = false;
    }

    /// A click asks for a new thread.
    pub fn click(&self) -> (e: CreateThreadButtonEvent)
        ensures
            e == CreateThreadButtonEvent::Clicked,
    {
        CreateThreadButtonEvent::Clicked
    }
}

} // verus!
