//! The registry: one node per service name, each guarded by its token.

use vstd::prelude::*;
use crate::clock::nanos_since;
use crate::effects::{
    actions_for_evictions, actions_for_registration, actions_view, names_view, MeshAction,
};
use crate::fanout::{listens_on, open_channel, opened_for, send_event, subscribe_to};
use crate::heartbeat::{MeshEvent, MeshHeartbeat};
use crate::projection::{project_to_adp, projection, XdsUpdate};
use crate::rules::{
    accepted_node, after_reaping, after_register, chosen_token, error_message, is_eviction_order,
    is_listing, is_minted_token, is_stale, reaping_actions, refusal, registered_actions,
    token_matches, well_keyed, NodeView, PendingView, RegisterErrorView, Table, EVENT_BUFFER,
    STALE_AFTER_NANOS,
};
use crate::text::{join, opt_text, str_eq};
use crate::token::mint_token;

verus! {

/// What the registry remembers of a service.
#[derive(Debug, PartialEq, Eq)]
pub struct MeshNode {
    /// The heartbeat accepted last, with the blessing the registry gave it.
    pub metadata: MeshHeartbeat,
    /// When that heartbeat came, in nanoseconds on the registry's clock.
    pub last_seen: u128,
    /// The token that guards the name. It never changes while the node lives.
    pub token: String,
}

impl View for MeshNode {
    type V = NodeView;

    open spec fn view(&self) -> NodeView {
        NodeView { metadata: self.metadata@, last_seen: self.last_seen, token: self.token@ }
    }
}

/// Why a registration failed.
#[derive(Debug, PartialEq, Eq)]
pub enum RegisterError {
    /// The service is present and the caller gave no token.
    TokenRequired(String),
    /// The service is present and the caller's token is not the established
    /// one.
    InvalidToken(String),
    /// The configuration store refused the projection; its words are kept.
    ProjectionFailed(String),
}

impl View for RegisterError {
    type V = RegisterErrorView;

    open spec fn view(&self) -> RegisterErrorView {
        match self {
            RegisterError::TokenRequired(name) => RegisterErrorView::TokenRequired(name@),
            RegisterError::InvalidToken(name) => RegisterErrorView::InvalidToken(name@),
            RegisterError::ProjectionFailed(detail) => RegisterErrorView::ProjectionFailed(
                detail@,
            ),
        }
    }
}

impl RegisterError {
    /// The error in words.
    pub fn message(&self) -> (text: String)
        ensures
            text@ == error_message(self@),
    {
        match self {
            RegisterError::TokenRequired(name) => join(
                "mesh token required for existing service ",
                name.as_str(),
            ),
            RegisterError::InvalidToken(name) => join(
                "invalid mesh token for service ",
                name.as_str(),
            ),
            RegisterError::ProjectionFailed(detail) => join(
                "failed to inject mesh resource: ",
                detail.as_str(),
            ),
        }
    }
}

/// A registration that the table has accepted and that waits for the
/// configuration store to take its projection.
#[derive(Debug, PartialEq, Eq)]
pub struct PendingRegistration {
    /// The token that guards the node.
    pub token: String,
    /// The heartbeat as it came.
    pub heartbeat: MeshHeartbeat,
    /// The heartbeat as the table holds it.
    pub accepted: MeshHeartbeat,
}

impl View for PendingRegistration {
    type V = PendingView;

    open spec fn view(&self) -> PendingView {
        PendingView { token: self.token@, heartbeat: self.heartbeat@, accepted: self.accepted@ }
    }
}

/// A registration that is through: the token to hand back, and what is still
/// owed.
#[derive(Debug, PartialEq, Eq)]
pub struct Registered {
    pub token: String,
    pub actions: Vec<MeshAction>,
}

impl PendingRegistration {
    /// The operation to hand to the configuration store: the projection of
    /// the heartbeat as it came.
    pub fn update(&self) -> (update: XdsUpdate)
        ensures
            update@ == projection(self@.heartbeat),
    {
        project_to_adp(&self.heartbeat)
    }

    /// Concludes the registration with the store's answer. Where the store
    /// took the projection, the token is handed back together with the
    /// journal record and the event that are owed. Where it refused, the
    /// registration fails with the store's words, and nothing is journaled or
    /// published; the table keeps the node.
    pub fn settle(self, projected: Result<(), String>) -> (outcome: Result<
        Registered,
        RegisterError,
    >)
        ensures
            match projected {
                Ok(_) => outcome matches Ok(done) && done.token@ == self@.token && actions_view(
                    done.actions@,
                ) == registered_actions(self@.heartbeat, self@.accepted),
                Err(detail) => outcome matches Err(error) && error@
                    == RegisterErrorView::ProjectionFailed(detail@),
            },
    {
        match projected {
            Ok(_) => Ok(
                Registered {
                    token: self.token,
                    actions: actions_for_registration(self.heartbeat, self.accepted),
                },
            ),
            Err(detail) => Err(RegisterError::ProjectionFailed(detail)),
        }
    }
}

/// Whether node `i` of `nodes` stands under `name`.
spec fn stands_at(nodes: Seq<MeshNode>, name: Seq<char>, i: int) -> bool {
    0 <= i < nodes.len() && nodes[i].metadata.service_name@ == name
}

/// No two nodes share a service name.
spec fn names_distinct(nodes: Seq<MeshNode>) -> bool {
    forall|i: int, j: int|
        0 <= i < j < nodes.len() ==> #[trigger] nodes[i].metadata.service_name@
            != #[trigger] nodes[j].metadata.service_name@
}

/// The table that a list of nodes stands for.
spec fn table_of(nodes: Seq<MeshNode>) -> Table {
    Map::new(
        |name: Seq<char>| exists|i: int| stands_at(nodes, name, i),
        |name: Seq<char>| nodes[choose|i: int| stands_at(nodes, name, i)]@,
    )
}

/// Where names are distinct, the table holds each node under its name.
proof fn lemma_table_entry(nodes: Seq<MeshNode>, i: int)
    requires
        names_distinct(nodes),
        0 <= i < nodes.len(),
    ensures
        table_of(nodes).contains_key(nodes[i].metadata.service_name@),
        table_of(nodes)[nodes[i].metadata.service_name@] == nodes[i]@,
{
    let name = nodes[i].metadata.service_name@;
    assert(stands_at(nodes, name, i));
    let j = choose|j: int| stands_at(nodes, name, j);
    assert(stands_at(nodes, name, j));
    assert(i == j);
}

/// A node under a new name adds one entry to the table.
proof fn lemma_push(nodes: Seq<MeshNode>, node: MeshNode)
    requires
        names_distinct(nodes),
        !table_of(nodes).contains_key(node.metadata.service_name@),
    ensures
        names_distinct(nodes.push(node)),
        table_of(nodes.push(node)) == table_of(nodes).insert(node.metadata.service_name@, node@),
{
    let grown = nodes.push(node);
    let name = node.metadata.service_name@;
    assert forall|i: int, j: int| 0 <= i < j < grown.len() implies grown[i].metadata.service_name@
        != grown[j].metadata.service_name@ by {
        if j == nodes.len() {
            assert(stands_at(nodes, nodes[i].metadata.service_name@, i));
        }
    }
    let target = table_of(nodes).insert(name, node@);
    assert forall|key: Seq<char>| table_of(grown).contains_key(key) <==> target.contains_key(
        key,
    ) by {
        if table_of(grown).contains_key(key) {
            let i = choose|i: int| stands_at(grown, key, i);
            if i < nodes.len() {
                assert(stands_at(nodes, key, i));
            }
        }
        if target.contains_key(key) {
            if key == name {
                assert(stands_at(grown, key, nodes.len() as int));
            } else {
                let i = choose|i: int| stands_at(nodes, key, i);
                assert(stands_at(grown, key, i));
            }
        }
    }
    assert forall|key: Seq<char>| table_of(grown).contains_key(key) implies table_of(grown)[key]
        == target[key] by {
        let i = choose|i: int| stands_at(grown, key, i);
        lemma_table_entry(grown, i);
        if i < nodes.len() {
            lemma_table_entry(nodes, i);
        }
    }
    assert(table_of(grown) =~= target);
}

/// A node that takes the place of one with its own name replaces that entry
/// of the table.
proof fn lemma_replace(nodes: Seq<MeshNode>, at: int, node: MeshNode)
    requires
        names_distinct(nodes),
        0 <= at < nodes.len(),
        nodes[at].metadata.service_name@ == node.metadata.service_name@,
    ensures
        names_distinct(nodes.update(at, node)),
        table_of(nodes.update(at, node)) == table_of(nodes).insert(
            node.metadata.service_name@,
            node@,
        ),
{
    let changed = nodes.update(at, node);
    let name = node.metadata.service_name@;
    assert forall|i: int, j: int|
        0 <= i < j < changed.len() implies changed[i].metadata.service_name@
        != changed[j].metadata.service_name@ by {
        assert(changed[i].metadata.service_name@ == nodes[i].metadata.service_name@);
        assert(changed[j].metadata.service_name@ == nodes[j].metadata.service_name@);
    }
    let target = table_of(nodes).insert(name, node@);
    assert forall|key: Seq<char>| table_of(changed).contains_key(key) <==> target.contains_key(
        key,
    ) by {
        if table_of(changed).contains_key(key) {
            let i = choose|i: int| stands_at(changed, key, i);
            assert(stands_at(nodes, key, i));
        }
        if target.contains_key(key) {
            if key == name {
                assert(stands_at(changed, key, at));
            } else {
                let i = choose|i: int| stands_at(nodes, key, i);
                assert(stands_at(changed, key, i));
            }
        }
    }
    assert forall|key: Seq<char>| table_of(changed).contains_key(key) implies table_of(
        changed,
    )[key] == target[key] by {
        let i = choose|i: int| stands_at(changed, key, i);
        lemma_table_entry(changed, i);
        lemma_table_entry(nodes, i);
    }
    assert(table_of(changed) =~= target);
}

/// Taking one node out takes its entry out of the table.
proof fn lemma_remove(nodes: Seq<MeshNode>, at: int)
    requires
        names_distinct(nodes),
        0 <= at < nodes.len(),
    ensures
        names_distinct(nodes.remove(at)),
        table_of(nodes.remove(at)) == table_of(nodes).remove(nodes[at].metadata.service_name@),
{
    let fewer = nodes.remove(at);
    let name = nodes[at].metadata.service_name@;
    assert forall|i: int, j: int| 0 <= i < j < fewer.len() implies fewer[i].metadata.service_name@
        != fewer[j].metadata.service_name@ by {
        let a = if i < at { i } else { i + 1 };
        let b = if j < at { j } else { j + 1 };
        assert(fewer[i] == nodes[a]);
        assert(fewer[j] == nodes[b]);
    }
    let target = table_of(nodes).remove(name);
    assert forall|key: Seq<char>| table_of(fewer).contains_key(key) <==> target.contains_key(
        key,
    ) by {
        if table_of(fewer).contains_key(key) {
            let i = choose|i: int| stands_at(fewer, key, i);
            let a = if i < at { i } else { i + 1 };
            assert(fewer[i] == nodes[a]);
            assert(stands_at(nodes, key, a));
            if a < at {
                assert(nodes[a].metadata.service_name@ != nodes[at].metadata.service_name@);
            } else {
                assert(nodes[at].metadata.service_name@ != nodes[a].metadata.service_name@);
            }
        }
        if target.contains_key(key) {
            let a = choose|a: int| stands_at(nodes, key, a);
            let i = if a < at { a } else { a - 1 };
            assert(fewer[i] == nodes[a]);
            assert(stands_at(fewer, key, i));
        }
    }
    assert forall|key: Seq<char>| table_of(fewer).contains_key(key) implies table_of(fewer)[key]
        == target[key] by {
        let i = choose|i: int| stands_at(fewer, key, i);
        let a = if i < at { i } else { i + 1 };
        assert(fewer[i] == nodes[a]);
        lemma_table_entry(fewer, i);
        lemma_table_entry(nodes, a);
    }
    assert(table_of(fewer) =~= target);
}

/// The index of the node under `name`, if there is one.
fn position(nodes: &Vec<MeshNode>, name: &str) -> (found: Option<usize>)
    ensures
        match found {
            Some(i) => stands_at(nodes@, name@, i as int),
            None => !table_of(nodes@).contains_key(name@),
        },
{
    let mut i: usize = 0;
    while i < nodes.len()
        invariant
            i <= nodes@.len(),
            forall|k: int| 0 <= k < i ==> !stands_at(nodes@, name@, k),
        decreases nodes@.len() - i,
    {
        if str_eq(nodes[i].metadata.service_name.as_str(), name) {
            return Some(i);
        }
        i += 1;
    }
    None
}

/// The registration rule on a list of nodes with distinct names.
fn register_in(
    nodes: &mut Vec<MeshNode>,
    heartbeat: MeshHeartbeat,
    provided_token: Option<String>,
    now: u128,
    fresh: String,
) -> (outcome: Result<PendingRegistration, RegisterError>)
    requires
        names_distinct(old(nodes)@),
    ensures
        names_distinct(final(nodes)@),
        table_of(final(nodes)@) == after_register(
            table_of(old(nodes)@),
            heartbeat@,
            opt_text(provided_token),
            now,
            fresh@,
        ),
        match refusal(table_of(old(nodes)@), heartbeat@.service_name, opt_text(provided_token)) {
            Some(error) => outcome matches Err(e) && e@ == error,
            None => outcome matches Ok(pending) && pending@ == (PendingView {
                token: chosen_token(opt_text(provided_token), fresh@),
                heartbeat: heartbeat@,
                accepted: accepted_node(
                    table_of(old(nodes)@),
                    heartbeat@,
                    opt_text(provided_token),
                    now,
                    fresh@,
                ).metadata,
            }),
        },
{
    let found = position(nodes, heartbeat.service_name.as_str());
    match found {
        Some(i) => {
            proof {
                lemma_table_entry(nodes@, i as int);
            }
            match provided_token {
                None => Err(RegisterError::TokenRequired(heartbeat.service_name)),
                Some(token) => {
                    if !str_eq(nodes[i].token.as_str(), token.as_str()) {
                        Err(RegisterError::InvalidToken(heartbeat.service_name))
                    } else {
                        let accepted = heartbeat.clone().with_blessing(true);
                        let node = MeshNode {
                            metadata: accepted.clone(),
                            last_seen: now,
                            token: token.clone(),
                        };
                        proof {
                            lemma_replace(nodes@, i as int, node);
                        }
                        nodes.set(i, node);
                        Ok(PendingRegistration { token, heartbeat, accepted })
                    }
                },
            }
        },
        None => {
            let token = match provided_token {
                Some(token) => token,
                None => fresh,
            };
            let accepted = heartbeat.clone().with_blessing(false);
            let node = MeshNode {
                metadata: accepted.clone(),
                last_seen: now,
                token: token.clone(),
            };
            proof {
                lemma_push(nodes@, node);
            }
            nodes.push(node);
            Ok(PendingRegistration { token, heartbeat, accepted })
        },
    }
}

/// The reaper's rule on a list of nodes with distinct names.
fn evict_in(nodes: &mut Vec<MeshNode>, now: u128) -> (evicted: Vec<String>)
    requires
        names_distinct(old(nodes)@),
    ensures
        names_distinct(final(nodes)@),
        table_of(final(nodes)@) == after_reaping(table_of(old(nodes)@), now),
        is_eviction_order(table_of(old(nodes)@), now, names_view(evicted@)),
{
    let mut evicted: Vec<String> = Vec::new();
    let mut i: usize = 0;
    let ghost start = table_of(nodes@);
    while i < nodes.len()
        invariant
            i <= nodes@.len(),
            names_distinct(nodes@),
            forall|k: int| 0 <= k < i ==> !is_stale(#[trigger] nodes@[k]@, now),
            forall|name: Seq<char>| #[trigger]
                table_of(nodes@).contains_key(name) ==> start.contains_key(name) && table_of(
                    nodes@,
                )[name] == start[name],
            forall|name: Seq<char>|
                start.contains_key(name) && !(#[trigger] table_of(nodes@).contains_key(name))
                    ==> is_stale(start[name], now),
            forall|name: Seq<char>| #[trigger]
                names_view(evicted@).contains(name) <==> start.contains_key(name) && !table_of(
                    nodes@,
                ).contains_key(name),
            names_view(evicted@).no_duplicates(),
        decreases nodes@.len() - i,
    {
        let age_exceeded = now > nodes[i].last_seen && now - nodes[i].last_seen
            > STALE_AFTER_NANOS;
        proof {
            lemma_table_entry(nodes@, i as int);
        }
        if age_exceeded {
            let ghost before = nodes@;
            let ghost names_before = names_view(evicted@);
            proof {
                lemma_remove(nodes@, i as int);
            }
            let node = nodes.remove(i);
            evicted.push(node.metadata.service_name);
            proof {
                let name = node.metadata.service_name@;
                let names = names_view(evicted@);
                assert(names =~= names_before.push(name));
                assert(!names_before.contains(name));
                assert forall|other: Seq<char>| #[trigger]
                    names.contains(other) <==> start.contains_key(other) && !table_of(
                        nodes@,
                    ).contains_key(other) by {
                    if names.contains(other) {
                        let k = choose|k: int| 0 <= k < names.len() && names[k] == other;
                        if k < names_before.len() {
                            assert(names_before[k] == other);
                            assert(names_before.contains(other));
                        }
                    }
                    if start.contains_key(other) && !table_of(nodes@).contains_key(other) {
                        if other == name {
                            assert(names[names_before.len() as int] == other);
                        } else {
                            assert(names_before.contains(other));
                            let k = choose|k: int|
                                0 <= k < names_before.len() && names_before[k] == other;
                            assert(names[k] == other);
                        }
                    }
                }
                assert forall|k: int| 0 <= k < i implies !is_stale(#[trigger] nodes@[k]@, now) by {
                    assert(nodes@[k] == before[k]);
                }
            }
        } else {
            i += 1;
        }
    }
    proof {
        assert forall|name: Seq<char>| #[trigger]
            table_of(nodes@).contains_key(name) implies !is_stale(table_of(nodes@)[name], now) by {
            let k = choose|k: int| stands_at(nodes@, name, k);
            lemma_table_entry(nodes@, k);
        }
        assert(table_of(nodes@) =~= after_reaping(start, now));
    }
    evicted
}

/// The mesh registry: the node table, the channel on which changes are
/// published, and the clock by which nodes age.
pub struct MeshRegistry {
    nodes: Vec<MeshNode>,
    events: tokio::sync::broadcast::Sender<MeshEvent>,
    epoch: std::time::Instant,
}

impl View for MeshRegistry {
    type V = Table;

    /// The node table.
    closed spec fn view(&self) -> Table {
        table_of(self.nodes@)
    }
}

impl MeshRegistry {
    #[verifier::type_invariant]
    spec fn names_are_keys(self) -> bool {
        names_distinct(self.nodes@) && opened_for(self.events) == EVENT_BUFFER
    }

    /// How many events the registry's channel was opened for. A subscriber
    /// that falls no further behind than this loses nothing; tokio keeps the
    /// next power of two, so the oldest events go somewhat later than this.
    pub closed spec fn event_buffer(&self) -> nat {
        opened_for(self.events)
    }

    /// Whether a receiver listens on the registry's own channel, on which
    /// `publish` sends.
    pub closed spec fn hears(&self, receiver: tokio::sync::broadcast::Receiver<MeshEvent>) -> bool {
        listens_on(receiver, self.events)
    }

    /// An empty registry with a channel for `EVENT_BUFFER` events and a clock
    /// that starts now.
    pub fn new() -> (registry: Self)
        ensures
            registry@ == Table::empty(),
            registry.event_buffer() == EVENT_BUFFER,
    {
        let registry = MeshRegistry {
            nodes: Vec::new(),
            events: open_channel(EVENT_BUFFER),
            epoch: std::time::Instant::now(),
        };
        assert(registry@ =~= Table::empty());
        registry
    }

    /// Registers a heartbeat at time `now`, with `fresh` as the token to use
    /// where the caller brings none and the name is new.
    ///
    /// A name that is present is guarded: without a token the registration
    /// fails with `TokenRequired`, with another token than the established
    /// one with `InvalidToken`, and the table stays as it is. With the
    /// established token the node is refreshed and blessed, and keeps its
    /// token. A name that is absent is taken by whoever comes first: the
    /// caller's token is accepted as it stands, else `fresh` is issued; the
    /// node is not blessed.
    ///
    /// An accepted registration still has to be projected into the
    /// configuration store: hand `update()` of the result to the store and
    /// its answer to `settle`.
    pub fn register_at(
        &mut self,
        heartbeat: MeshHeartbeat,
        provided_token: Option<String>,
        now: u128,
        fresh: String,
    ) -> (outcome: Result<PendingRegistration, RegisterError>)
        ensures
            final(self)@ == after_register(
                old(self)@,
                heartbeat@,
                opt_text(provided_token),
                now,
                fresh@,
            ),
            match refusal(old(self)@, heartbeat@.service_name, opt_text(provided_token)) {
                Some(error) => outcome matches Err(e) && e@ == error,
                None => outcome matches Ok(pending) && pending@ == (PendingView {
                    token: chosen_token(opt_text(provided_token), fresh@),
                    heartbeat: heartbeat@,
                    accepted: accepted_node(
                        old(self)@,
                        heartbeat@,
                        opt_text(provided_token),
                        now,
                        fresh@,
                    ).metadata,
                }),
            },
    {
        proof {
            use_type_invariant(&*self);
        }
        let mut nodes: Vec<MeshNode> = Vec::new();
        std::mem::swap(&mut nodes, &mut self.nodes);
        let outcome = register_in(&mut nodes, heartbeat, provided_token, now, fresh);
        self.nodes = nodes;
        outcome
    }

    /// Whether a registration for `name` without a token would be given a
    /// minted one: the name is absent.
    pub fn is_vacant(&self, name: &str) -> (vacant: bool)
        ensures
            vacant == !self@.contains_key(name@),
    {
        match position(&self.nodes, name) {
            Some(i) => {
                proof {
                    use_type_invariant(self);
                    lemma_table_entry(self.nodes@, i as int);
                }
                false
            },
            None => true,
        }
    }

    /// Registers a heartbeat now. The time is read from the registry's clock,
    /// and a token is minted where the caller brings none and the name is
    /// new; the rest is `register_at`.
    ///
    /// Refusals are decided by the table and the caller's token alone. Of an
    /// accepted registration the contract fixes everything but the two
    /// outside values: the node's `last_seen` is whatever the clock said, and
    /// a minted token is some 32 letters and digits.
    pub fn register(&mut self, heartbeat: MeshHeartbeat, provided_token: Option<String>) -> (outcome:
        Result<PendingRegistration, RegisterError>)
        ensures
            match refusal(old(self)@, heartbeat@.service_name, opt_text(provided_token)) {
                Some(error) => {
                    &&& final(self)@ == old(self)@
                    &&& outcome matches Err(e)
                    &&& e@ == error
                },
                None => {
                    &&& outcome matches Ok(pending)
                    &&& pending@.heartbeat == heartbeat@
                    &&& match provided_token {
                        Some(token) => pending@.token == token@,
                        None => is_minted_token(pending@.token),
                    }
                    &&& pending@.accepted == final(self)@[heartbeat@.service_name].metadata
                    &&& exists|now: u128|
                        final(self)@ == #[trigger] after_register(
                            old(self)@,
                            heartbeat@,
                            opt_text(provided_token),
                            now,
                            pending@.token,
                        )
                },
            },
    {
        let now = nanos_since(&self.epoch);
        let fresh = if provided_token.is_none() && self.is_vacant(heartbeat.service_name.as_str()) {
            mint_token()
        } else {
            String::new()
        };
        let ghost table = self@;
        let ghost provided = opt_text(provided_token);
        let outcome = self.register_at(heartbeat, provided_token, now, fresh);
        proof {
            if refusal(table, heartbeat@.service_name, provided) is None {
                let pending = outcome->Ok_0;
                assert(after_register(table, heartbeat@, provided, now, fresh@) == after_register(
                    table,
                    heartbeat@,
                    provided,
                    now,
                    pending@.token,
                ));
            }
        }
        outcome
    }

    /// Takes out every node whose last heartbeat is more than 90 seconds old
    /// at `now`, and names the nodes taken. A node of exactly that age stays.
    pub fn evict_stale(&mut self, now: u128) -> (evicted: Vec<String>)
        ensures
            final(self)@ == after_reaping(old(self)@, now),
            is_eviction_order(old(self)@, now, names_view(evicted@)),
    {
        proof {
            use_type_invariant(&*self);
        }
        let mut nodes: Vec<MeshNode> = Vec::new();
        std::mem::swap(&mut nodes, &mut self.nodes);
        let evicted = evict_in(&mut nodes, now);
        self.nodes = nodes;
        evicted
    }

    /// Runs the reaper now: evicts the stale nodes by the registry's clock
    /// and says what is owed for each, in the order of eviction: the
    /// retraction from the store, the journal record, the event.
    pub fn cleanup_zombies(&mut self) -> (actions: Vec<MeshAction>)
        ensures
            exists|now: u128, order: Seq<Seq<char>>|
                final(self)@ == after_reaping(old(self)@, now) && #[trigger] is_eviction_order(
                    old(self)@,
                    now,
                    order,
                ) && actions_view(actions@) == reaping_actions(order),
    {
        let now = nanos_since(&self.epoch);
        let evicted = self.evict_stale(now);
        let actions = actions_for_evictions(&evicted);
        proof {
            assert(is_eviction_order(old(self)@, now, names_view(evicted@)));
        }
        actions
    }

    /// The heartbeat of every node, each with the blessing the registry gave
    /// it.
    pub fn get_nodes(&self) -> (nodes: Vec<MeshHeartbeat>)
        ensures
            is_listing(Seq::new(nodes@.len(), |i: int| nodes@[i]@), self@),
            nodes@.len() == self@.dom().len(),
            self@ == Table::empty() ==> nodes@.len() == 0,
    {
        let mut listed: Vec<MeshHeartbeat> = Vec::new();
        let mut i: usize = 0;
        while i < self.nodes.len()
            invariant
                i <= self.nodes@.len(),
                listed@.len() == i,
                forall|k: int| 0 <= k < i ==> listed@[k] == self.nodes@[k].metadata,
            decreases self.nodes@.len() - i,
        {
            listed.push(self.nodes[i].metadata.clone());
            i += 1;
        }
        proof {
            use_type_invariant(self);
            let list = Seq::new(listed@.len(), |i: int| listed@[i]@);
            assert forall|k: int| 0 <= k < list.len() implies self@.contains_key(
                #[trigger] list[k].service_name,
            ) && self@[list[k].service_name].metadata == list[k] by {
                lemma_table_entry(self.nodes@, k);
            }
            assert forall|name: Seq<char>| #[trigger] self@.contains_key(name) implies exists|
                k: int,
            |
                0 <= k < list.len() && #[trigger] list[k].service_name == name by {
                let k = choose|k: int| stands_at(self.nodes@, name, k);
                assert(list[k].service_name == name);
            }
            lemma_table_size(self.nodes@);
        }
        listed
    }

    /// Whether `token` is the token established for `service_name`.
    pub fn validate_token(&self, service_name: &str, token: &str) -> (valid: bool)
        ensures
            valid == token_matches(self@, service_name@, token@),
    {
        match position(&self.nodes, service_name) {
            Some(i) => {
                proof {
                    use_type_invariant(self);
                    lemma_table_entry(self.nodes@, i as int);
                }
                str_eq(self.nodes[i].token.as_str(), token)
            },
            None => false,
        }
    }

    /// How many events the registry's channel was opened for. It is
    /// `EVENT_BUFFER` for every registry, whatever has been registered or
    /// reaped since it was made.
    pub fn event_capacity(&self) -> (capacity: usize)
        ensures
            capacity == EVENT_BUFFER,
            capacity == self.event_buffer(),
    {
        proof {
            use_type_invariant(self);
        }
        EVENT_BUFFER
    }

    /// Every node of the table sits under the service name of its own
    /// heartbeat: names and nodes correspond one to one.
    pub proof fn lemma_well_keyed(&self)
        ensures
            well_keyed(self@),
    {
        assert forall|name: Seq<char>| #[trigger] self@.contains_key(name) implies self@[name].metadata.service_name
            == name by {
            let i = choose|i: int| stands_at(self.nodes@, name, i);
            assert(stands_at(self.nodes@, name, i));
        }
    }

    /// Publishes an event to the subscribers of the moment. Without a
    /// subscriber the event is dropped; that is no failure.
    pub fn publish(&self, event: MeshEvent) {
        let _ = send_event(&self.events, event);
    }

    /// A new receiver on the registry's own channel. It is offered the
    /// events published from now on, and none that came before.
    pub fn subscribe(&self) -> (receiver: tokio::sync::broadcast::Receiver<MeshEvent>)
        ensures
            self.hears(receiver),
    {
        subscribe_to(&self.events)
    }
}

/// A list of nodes with distinct names stands for a table of as many
/// entries.
proof fn lemma_table_size(nodes: Seq<MeshNode>)
    requires
        names_distinct(nodes),
    ensures
        table_of(nodes).dom().finite(),
        table_of(nodes).dom().len() == nodes.len(),
    decreases nodes.len(),
{
    if nodes.len() == 0 {
        assert(table_of(nodes).dom() =~= Set::<Seq<char>>::empty());
    } else {
        let front = nodes.drop_last();
        let last = nodes.last();
        assert(nodes =~= front.push(last));
        assert forall|i: int, j: int| 0 <= i < j < front.len() implies front[i].metadata.service_name@
            != front[j].metadata.service_name@ by {
            assert(front[i] == nodes[i]);
            assert(front[j] == nodes[j]);
        }
        lemma_table_size(front);
        if table_of(front).contains_key(last.metadata.service_name@) {
            let i = choose|i: int| stands_at(front, last.metadata.service_name@, i);
            assert(front[i] == nodes[i]);
            assert(nodes[i].metadata.service_name@ != nodes[nodes.len() - 1].metadata.service_name@);
        }
        lemma_push(front, last);
        assert(table_of(nodes).dom() =~= table_of(front).dom().insert(
            last.metadata.service_name@,
        ));
    }
}

} // verus!
