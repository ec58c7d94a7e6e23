//! Framing a stream of events: where one top-level item of a stream
//! ends and the next begins. A reader of a socket counts the depth of
//! the open elements with it, and hands each whole item to the decoder.

use crate::types::EventKind;
use vstd::prelude::*;

verus! {

/// The number of open elements after an event. The count stops at the
/// greatest number that it can hold.
pub open spec fn depth_after(depth: nat, kind: EventKind) -> nat {
    match kind {
        EventKind::Start => if depth < usize::MAX {
            depth + 1
        } else {
            depth
        },
        EventKind::End => if depth > 0 {
            (depth - 1) as nat
        } else {
            0
        },
        EventKind::Eof => 0,
        _ => depth,
    }
}

/// Whether an event ends a top-level item: the end tag of the outermost
/// element does, and so does the end of the stream; anything but a
/// start tag outside every element is an item by itself.
pub open spec fn completes(depth: nat, kind: EventKind) -> bool {
    match kind {
        EventKind::Start => false,
        EventKind::End => depth <= 1,
        EventKind::Eof => true,
        _ => depth == 0,
    }
}

/// The depth of the open elements of a stream.
#[derive(Debug)]
pub struct Framer {
    depth: usize,
}

impl Framer {
    /// The number of elements that are open.
    pub closed spec fn depth(&self) -> nat {
        self.depth as nat
    }

    /// A framer at the start of a stream: no element is open.
    pub fn new() -> (f: Framer)
        ensures
            f.depth() == 0,
    {
        Framer { depth: 0 }
    }

    /// Takes the next event of the stream. The result says whether the
    /// event ends a top-level item.
    pub fn accept(&mut self, kind: EventKind) -> (complete: bool)
        ensures
            final(self).depth() == depth_after(old(self).depth(), kind),
            complete == completes(old(self).depth(), kind),
    {
        match kind {
            EventKind::Start => {
                if self.depth < usize::MAX {
                    self.depth = self.depth + 1;
                }
                false
            },
            EventKind::End => {
                let complete = self.depth <= 1;
                if self.depth > 0 {
                    self.depth = self.depth - 1;
                }
                complete
            },
            EventKind::Eof => {
                self.depth = 0;
                true
            },
            _ => self.depth == 0,
        }
    }
}

} // verus!
