//! The rules of the registry, stated over mathematical values: which
//! registrations are refused, what an accepted one leaves in the table, and
//! which nodes the reaper takes.

use vstd::prelude::*;
use crate::heartbeat::{EventView, HeartbeatView};
use crate::projection::{retraction, UpdateView};

verus! {

/// How many characters a token minted by the registry has.
pub const TOKEN_LENGTH: usize = 32;

/// A node is stale once its last heartbeat is more than this many
/// nanoseconds old: 90 seconds.
pub const STALE_AFTER_NANOS: u128 = 90_000_000_000;

/// Seconds between two runs of the reaper.
pub const REAPER_PERIOD_SECS: u64 = 30;

/// How many events the broadcast channel is asked to retain.
pub const EVENT_BUFFER: usize = 100;

/// A node of the registry as a mathematical value.
pub struct NodeView {
    pub metadata: HeartbeatView,
    pub last_seen: u128,
    pub token: Seq<char>,
}

/// The node table: at most one node under each service name.
pub type Table = Map<Seq<char>, NodeView>;

/// Why a registration failed, as a mathematical value.
pub enum RegisterErrorView {
    TokenRequired(Seq<char>),
    InvalidToken(Seq<char>),
    ProjectionFailed(Seq<char>),
}

/// What a failed registration tells the caller.
pub open spec fn error_message(error: RegisterErrorView) -> Seq<char> {
    match error {
        RegisterErrorView::TokenRequired(name) => "mesh token required for existing service "@
            + name,
        RegisterErrorView::InvalidToken(name) => "invalid mesh token for service "@ + name,
        RegisterErrorView::ProjectionFailed(detail) => "failed to inject mesh resource: "@
            + detail,
    }
}

/// An accepted registration that waits for the configuration store, as a
/// mathematical value.
pub struct PendingView {
    pub token: Seq<char>,
    pub heartbeat: HeartbeatView,
    pub accepted: HeartbeatView,
}

/// Whether every character is an ASCII letter or digit.
pub open spec fn is_alphanumeric(text: Seq<char>) -> bool {
    forall|i: int|
        0 <= i < text.len() ==> {
            let c = #[trigger] text[i];
            ('a' <= c <= 'z') || ('A' <= c <= 'Z') || ('0' <= c <= '9')
        }
}

/// Whether `text` has the shape of a token minted by the registry.
pub open spec fn is_minted_token(text: Seq<char>) -> bool {
    text.len() == TOKEN_LENGTH && is_alphanumeric(text)
}

/// Every node of the table sits under its own service name.
pub open spec fn well_keyed(table: Table) -> bool {
    forall|name: Seq<char>| #[trigger]
        table.contains_key(name) ==> table[name].metadata.service_name == name
}

/// The error, if any, with which the table refuses a registration for
/// `name` that comes with `provided` as its token. A name that is present is
/// guarded by its token: none is a refusal, another one is a refusal.
pub open spec fn refusal(table: Table, name: Seq<char>, provided: Option<Seq<char>>) -> Option<
    RegisterErrorView,
> {
    if table.contains_key(name) {
        match provided {
            None => Some(RegisterErrorView::TokenRequired(name)),
            Some(token) => if token == table[name].token {
                None
            } else {
                Some(RegisterErrorView::InvalidToken(name))
            },
        }
    } else {
        None
    }
}

/// The token of a registration that is not refused: the caller's where it
/// gave one (which, for a name that is present, is the established one),
/// else the freshly minted one.
pub open spec fn chosen_token(provided: Option<Seq<char>>, fresh: Seq<char>) -> Seq<char> {
    match provided {
        Some(token) => token,
        None => fresh,
    }
}

/// The node that an accepted registration leaves in the table. It is blessed
/// exactly if the name was present, that is if the heartbeat was
/// authenticated by the token issued before.
pub open spec fn accepted_node(
    table: Table,
    heartbeat: HeartbeatView,
    provided: Option<Seq<char>>,
    now: u128,
    fresh: Seq<char>,
) -> NodeView {
    NodeView {
        metadata: heartbeat.with_blessing(table.contains_key(heartbeat.service_name)),
        last_seen: now,
        token: chosen_token(provided, fresh),
    }
}

/// The table after a registration: unchanged where it is refused, else with
/// the accepted node under the heartbeat's name.
pub open spec fn after_register(
    table: Table,
    heartbeat: HeartbeatView,
    provided: Option<Seq<char>>,
    now: u128,
    fresh: Seq<char>,
) -> Table {
    if refusal(table, heartbeat.service_name, provided) is Some {
        table
    } else {
        table.insert(
            heartbeat.service_name,
            accepted_node(table, heartbeat, provided, now, fresh),
        )
    }
}

/// Whether a node has been silent for longer than the threshold at `now`.
/// A node seen at or after `now` has age zero.
pub open spec fn is_stale(node: NodeView, now: u128) -> bool {
    now - node.last_seen > STALE_AFTER_NANOS
}

/// The names the reaper takes at `now`.
pub open spec fn stale_names(table: Table, now: u128) -> Set<Seq<char>> {
    Set::new(|name: Seq<char>| table.contains_key(name) && is_stale(table[name], now))
}

/// The table after the reaper ran at `now`.
pub open spec fn after_reaping(table: Table, now: u128) -> Table {
    table.remove_keys(stale_names(table, now))
}

/// Whether `order` names each stale node of the table once and nothing else.
pub open spec fn is_eviction_order(table: Table, now: u128, order: Seq<Seq<char>>) -> bool {
    &&& order.no_duplicates()
    &&& forall|name: Seq<char>| order.contains(name) <==> stale_names(table, now).contains(name)
}

/// Whether `token` is the one established for `name`.
pub open spec fn token_matches(table: Table, name: Seq<char>, token: Seq<char>) -> bool {
    table.contains_key(name) && table[name].token == token
}

/// Whether `list` holds the heartbeat of each node of the table once and
/// nothing else. The order is left open.
pub open spec fn is_listing(list: Seq<HeartbeatView>, table: Table) -> bool {
    &&& forall|i: int|
        0 <= i < list.len() ==> table.contains_key(#[trigger] list[i].service_name)
            && table[list[i].service_name].metadata == list[i]
    &&& forall|name: Seq<char>| #[trigger]
        table.contains_key(name) ==> exists|i: int|
            0 <= i < list.len() && #[trigger] list[i].service_name == name
    &&& forall|i: int, j: int|
        0 <= i < j < list.len() ==> #[trigger] list[i].service_name != #[trigger] list[j].service_name
}

/// What the journal is told about a transition, as a mathematical value.
pub enum MetadataView {
    Heartbeat(HeartbeatView),
    Json(Seq<char>),
}

/// A journal record in the making, as a mathematical value.
pub struct NoteView {
    pub service: Seq<char>,
    pub event: Seq<char>,
    pub metadata: MetadataView,
}

/// Something the registry owes the outside world, as a mathematical value.
pub enum ActionView {
    Apply(UpdateView),
    Journal(NoteView),
    Publish(EventView),
}

/// The journal record of an accepted registration: the heartbeat as it came.
pub open spec fn register_note(heartbeat: HeartbeatView) -> NoteView {
    NoteView {
        service: heartbeat.service_name,
        event: "register"@,
        metadata: MetadataView::Heartbeat(heartbeat),
    }
}

/// The journal record of an eviction.
pub open spec fn evict_note(name: Seq<char>) -> NoteView {
    NoteView {
        service: name,
        event: "evict"@,
        metadata: MetadataView::Json("{\"reason\":\"timeout\"}"@),
    }
}

/// What is owed once the store has taken the projection of an accepted
/// heartbeat: the journal record, then the event with the node's metadata as
/// the table holds it.
pub open spec fn registered_actions(heartbeat: HeartbeatView, accepted: HeartbeatView) -> Seq<
    ActionView,
> {
    seq![
        ActionView::Journal(register_note(heartbeat)),
        ActionView::Publish(EventView::NodeUpdated(accepted)),
    ]
}

/// What is owed for one evicted node: the retraction from the store, the
/// journal record, then the event.
pub open spec fn eviction_actions(name: Seq<char>) -> Seq<ActionView> {
    seq![
        ActionView::Apply(retraction(name)),
        ActionView::Journal(evict_note(name)),
        ActionView::Publish(EventView::NodeRemoved(name)),
    ]
}

/// What is owed for a run of the reaper that evicted `order`.
pub open spec fn reaping_actions(order: Seq<Seq<char>>) -> Seq<ActionView>
    decreases order.len(),
{
    if order.len() == 0 {
        Seq::empty()
    } else {
        reaping_actions(order.drop_last()) + eviction_actions(order.last())
    }
}

} // verus!
