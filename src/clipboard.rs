//! The editor's clipboard of copied lights.

use vstd::prelude::*;
use crate::level::{LightEvent, LightEventView};

verus! {

#[derive(Debug)]
pub enum ClipboardItem {
    Light(LightEvent),
}

impl View for ClipboardItem {
    type V = LightEventView;

    open spec fn view(&self) -> LightEventView {
        match self {
            ClipboardItem::Light(l) => l@,
        }
    }
}

impl ClipboardItem {
    pub fn duplicate(&self) -> (r: ClipboardItem)
        ensures
            r@ == self@,
    {
        match self {
            ClipboardItem::Light(l) => ClipboardItem::Light(l.duplicate()),
        }
    }
}

pub open spec fn item_view(o: Option<ClipboardItem>) -> Option<LightEventView> {
    match o {
        Some(i) => Some(i@),
        None => None,
    }
}

#[derive(Debug)]
pub struct Clipboard {
    data: Option<ClipboardItem>,
}

impl View for Clipboard {
    type V = Option<LightEventView>;

    closed spec fn view(&self) -> Option<LightEventView> {
        item_view(self.data)
    }
}

impl Clipboard {
    pub fn new() -> (r: Clipboard)
        ensures
            r@ is None,
    {
        Clipboard { data: None }
    }

    /// Replaces the held item.
    pub fn copy(&mut self, item: ClipboardItem)
        ensures
            final(self)@ == Some(item@),
    {
        self.data = Some(item);
    }

    /// A copy of the held item, which stays held.
    pub fn paste(&mut self) -> (r: Option<ClipboardItem>)
        ensures
            final(self)@ == old(self)@,
            item_view(r) == old(self)@,
    {
        match &self.data {
            Some(item) => Some(item.duplicate()),
            None => None,
        }
    }
}

} // verus!
