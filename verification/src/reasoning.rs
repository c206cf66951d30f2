//! The collapsible "Thinking" block that shows a model's reasoning.

use vstd::prelude::*;
use crate::message_layout::PartState;

verus! {

/// A reasoning block: its text, whether it is folded, and whether it is
/// still streaming.
pub struct Reasoning {
    pub id: String,
    pub content: String,
    pub collapsed: bool,
    pub state: Option<PartState>,
}

impl Reasoning {
    /// A folded block.
    pub fn new(id: String, content: String, state: Option<PartState>) -> (r: Self)
        ensures
            r.id == id,
            r.content == content,
            r.state == state,
            r.collapsed,
    {
        Reasoning { id, content, collapsed: true, state }
    }

    /// The block folded or unfolded as asked.
    pub fn collapsed(self, collapsed: bool) -> (r: Self)
        ensures
            r.collapsed == collapsed,
            r.id == self.id,
            r.content == self.content,
            r.state == self.state,
    {
        let mut s = self;
        s.collapsed = collapsed;
        s
    }

    /// New text arrived (or the part finished): the fold is kept.
    pub fn set_content(&mut self, content: String, state: Option<PartState>)
        ensures
            final(self).content == content,
            final(self).state == state,
            final(self).collapsed == old(self).collapsed,
            final(self).id == old(self).id,
    {
        self.content = content;
        self.state = state;
    }

    /// A click on the header folds or unfolds the block.
    pub fn toggle(&mut self)
        ensures
            final(self).collapsed == !old(self).collapsed,
            final(self).content == old(self).content,
            final(self).state == old(self).state,
    {
        self.collapsed = !self.collapsed;
    }

    /// Whether the spinner shows: the reasoning is still streaming.
    pub fn is_streaming(&self) -> (r: bool)
        ensures
            r == (self.state == Some(PartState::Streaming)),
    {
        match self.state {
            Some(PartState::Streaming) => true,
            _ => false,
        }
    }

    /// The header: `Thinking` with an arrow that points right when folded
    /// and down when open.
    pub fn header(&self) -> (r: &'static str)
        ensures
            r@ == if self.collapsed { "Thinking ▶"@ } else { "Thinking ▼"@ },
    {
        if self.collapsed { "Thinking ▶" } else { "Thinking ▼" }
    }
}

} // verus!
