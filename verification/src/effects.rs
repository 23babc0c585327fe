//! What a transition of the registry owes the outside world. The registry
//! decides; the embedding program performs, in the order given.

use vstd::prelude::*;
use crate::heartbeat::{MeshEvent, MeshHeartbeat};
use crate::projection::{evict_from_adp, XdsUpdate};
use crate::rules::{
    eviction_actions, reaping_actions, registered_actions, ActionView, MetadataView, NoteView,
};

verus! {

/// What a journal record says beside service and event.
#[derive(Debug, PartialEq, Eq)]
pub enum JournalMetadata {
    /// A heartbeat, to be written as the wire writes it.
    Heartbeat(MeshHeartbeat),
    /// JSON text, to be written as it stands.
    Json(String),
}

impl View for JournalMetadata {
    type V = MetadataView;

    open spec fn view(&self) -> MetadataView {
        match self {
            JournalMetadata::Heartbeat(hb) => MetadataView::Heartbeat(hb@),
            JournalMetadata::Json(text) => MetadataView::Json(text@),
        }
    }
}

/// A journal record in the making: the clock has not stamped it yet.
#[derive(Debug, PartialEq, Eq)]
pub struct JournalNote {
    pub service: String,
    pub event: String,
    pub metadata: JournalMetadata,
}

impl View for JournalNote {
    type V = NoteView;

    open spec fn view(&self) -> NoteView {
        NoteView { service: self.service@, event: self.event@, metadata: self.metadata@ }
    }
}

/// One thing to do for the registry.
#[derive(Debug, PartialEq, Eq)]
pub enum MeshAction {
    /// Hand the operation to the configuration store. A failure is logged and
    /// otherwise ignored.
    Apply(XdsUpdate),
    /// Stamp the record and append it to the journal. A failure is logged and
    /// otherwise ignored.
    Journal(JournalNote),
    /// Publish the event to the subscribers. A failure is ignored.
    Publish(MeshEvent),
}

impl View for MeshAction {
    type V = ActionView;

    open spec fn view(&self) -> ActionView {
        match self {
            MeshAction::Apply(update) => ActionView::Apply(update@),
            MeshAction::Journal(note) => ActionView::Journal(note@),
            MeshAction::Publish(event) => ActionView::Publish(event@),
        }
    }
}

/// The views of a list of actions, in order.
pub open spec fn actions_view(actions: Seq<MeshAction>) -> Seq<ActionView> {
    Seq::new(actions.len(), |i: int| actions[i]@)
}

/// The views of a list of names, in order.
pub open spec fn names_view(names: Seq<String>) -> Seq<Seq<char>> {
    Seq::new(names.len(), |i: int| names[i]@)
}

/// The actions owed once the store has taken the projection of `heartbeat`,
/// which the table holds as `accepted`.
pub fn actions_for_registration(heartbeat: MeshHeartbeat, accepted: MeshHeartbeat) -> (actions:
    Vec<MeshAction>)
    ensures
        actions_view(actions@) == registered_actions(heartbeat@, accepted@),
{
    let note = JournalNote {
        service: heartbeat.service_name.clone(),
        event: String::from_str("register"),
        metadata: JournalMetadata::Heartbeat(heartbeat),
    };
    let mut actions: Vec<MeshAction> = Vec::new();
    actions.push(MeshAction::Journal(note));
    actions.push(MeshAction::Publish(MeshEvent::NodeUpdated(accepted)));
    assert(actions_view(actions@) =~= registered_actions(heartbeat@, accepted@));
    actions
}

/// The actions owed for the nodes that one run of the reaper evicted.
pub fn actions_for_evictions(evicted: &Vec<String>) -> (actions: Vec<MeshAction>)
    ensures
        actions_view(actions@) == reaping_actions(names_view(evicted@)),
{
    let mut actions: Vec<MeshAction> = Vec::new();
    let mut i: usize = 0;
    assert(names_view(evicted@).take(0) =~= Seq::<Seq<char>>::empty());
    assert(actions_view(actions@) =~= Seq::<ActionView>::empty());
    while i < evicted.len()
        invariant
            i <= evicted.len(),
            actions_view(actions@) == reaping_actions(names_view(evicted@).take(i as int)),
        decreases evicted.len() - i,
    {
        let name = &evicted[i];
        let ghost before = actions@;
        let note = JournalNote {
            service: name.clone(),
            event: String::from_str("evict"),
            metadata: JournalMetadata::Json(String::from_str("{\"reason\":\"timeout\"}")),
        };
        actions.push(MeshAction::Apply(evict_from_adp(name.as_str())));
        actions.push(MeshAction::Journal(note));
        actions.push(MeshAction::Publish(MeshEvent::NodeRemoved(name.clone())));
        proof {
            let names = names_view(evicted@);
            assert(names.take(i + 1).drop_last() =~= names.take(i as int));
            assert(names.take(i + 1).last() == name@);
            assert(actions_view(actions@) =~= actions_view(before) + eviction_actions(name@));
        }
        i += 1;
    }
    assert(names_view(evicted@).take(evicted.len() as int) =~= names_view(evicted@));
    actions
}

} // verus!
