//! Following a server: the commands of a document are decoded one after
//! another and applied to the store.

use crate::codec::Timestamp;
use crate::decoder::{lemma_next_command_advances, next_command, CommandIter};
use crate::store::{apply, Client, Devices, UpdateError, UpdateFault};
use crate::types::{DeError, EventKind, Fault};
use crate::xml::{holds_doctype, xml_events, XmlItem};
use vstd::prelude::*;

verus! {

/// A command that could not be decoded, or could not be applied.
#[derive(Debug)]
pub enum Failure {
    Decode(DeError),
    Update(UpdateError),
}

pub enum FailureView {
    Decode(Fault),
    Update(UpdateFault),
}

impl View for Failure {
    type V = FailureView;

    open spec fn view(&self) -> FailureView {
        match self {
            Failure::Decode(e) => FailureView::Decode(e@),
            Failure::Update(e) => FailureView::Update(e@),
        }
    }
}

pub open spec fn failure_views(failures: Seq<Failure>) -> Seq<FailureView> {
    failures.map_values(|f: Failure| f@)
}

/// The store at the end of a document, and what failed on the way.
pub struct Followed {
    pub state: Devices,
    pub failures: Seq<FailureView>,
}

/// Follows the events of a document to its end: each command decoded is
/// applied to the store; a command that cannot be decoded or applied is
/// recorded and leaves the store as it is, and decoding goes on behind
/// the event at which it failed.
pub open spec fn followed(
    state: Devices,
    failures: Seq<FailureView>,
    events: Seq<XmlItem>,
    now: Timestamp,
) -> Followed
    decreases events.len(),
{
    if events.len() == 0 {
        Followed { state, failures }
    } else {
        let step = next_command(events, now);
        proof {
            lemma_next_command_advances(events, now);
        }
        match step.result {
            Ok(Some(c)) => match apply(state, c) {
                Ok(next) => followed(next, failures, step.rest, now),
                Err(f) => followed(state, failures.push(FailureView::Update(f)), step.rest, now),
            },
            Ok(None) => Followed { state, failures },
            Err(f) => followed(state, failures.push(FailureView::Decode(f)), step.rest, now),
        }
    }
}

impl Client {
    /// A decoder over what a server has sent, set as a client reads a
    /// server: white space around texts is dropped, and an empty
    /// element is read as a start tag and an end tag.
    /// A document that holds the start of a document type declaration
    /// is refused.
    pub fn command_iter<'a>(&self, received: &'a [u8]) -> (r: Result<CommandIter<'a>, DeError>)
        ensures
            match r {
                Ok(commands) => !holds_doctype(received@) && commands.pending() == xml_events(
                    received@,
                    true,
                    true,
                ) && commands.position() == 0,
                Err(e) => holds_doctype(received@) && e@ == Fault::UnexpectedEvent(
                    EventKind::DocType,
                ),
            },
    {
        CommandIter::new(received, true, true)
    }

    /// Applies the commands of a document to the store, up to the end
    /// of the document, and returns what failed, in order. `now` is the
    /// time of decoding.
    pub fn listen_for_updates(&mut self, commands: &mut CommandIter, now: Timestamp) -> (failures:
        Vec<Failure>)
        requires
            old(self).well_formed(),
        ensures
            final(self).well_formed(),
            final(self)@ == followed(
                old(self)@,
                Seq::empty(),
                old(commands).pending(),
                now,
            ).state,
            failure_views(failures@) == followed(
                old(self)@,
                Seq::empty(),
                old(commands).pending(),
                now,
            ).failures,
            final(commands).pending().len() == 0,
    {
        let mut failures: Vec<Failure> = Vec::new();
        assert(failure_views(failures@) =~= Seq::empty());
        loop
            invariant
                self.well_formed(),
                followed(old(self)@, Seq::empty(), old(commands).pending(), now) == followed(
                    self@,
                    failure_views(failures@),
                    commands.pending(),
                    now,
                ),
            decreases commands.pending().len(),
        {
            let ghost before = failure_views(failures@);
            proof {
                lemma_next_command_advances(commands.pending(), now);
            }
            match commands.next_command(now) {
                Ok(None) => {
                    return failures;
                },
                Ok(Some(command)) => match self.update(command) {
                    Ok(()) => {},
                    Err(e) => {
                        failures.push(Failure::Update(e));
                        assert(failure_views(failures@) =~= before.push(FailureView::Update(e@)));
                    },
                },
                Err(e) => {
                    failures.push(Failure::Decode(e));
                    assert(failure_views(failures@) =~= before.push(FailureView::Decode(e@)));
                },
            }
        }
    }
}

} // verus!
