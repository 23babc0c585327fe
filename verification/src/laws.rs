//! What holds of every run of the registry.
//!
//! A run is a sequence of steps, each a registration or a pass of the
//! reaper, applied to a world that starts empty. The world is the registry's
//! table together with what the embedding program has been made to do: the
//! contents of the configuration store, the journal and the events
//! published. The steps are built from the same rules that the contracts of
//! the registry's functions are stated in.

use vstd::prelude::*;
use crate::heartbeat::{EventView, HeartbeatView};
use crate::ledger::no_line_feed;
use crate::projection::{
    backend_key, projected_backend, projection, transport_path, BackendView, UpdateView,
};
use crate::rules::{
    after_reaping, after_register, chosen_token, evict_note, eviction_actions, is_eviction_order,
    is_listing, reaping_actions, refusal, register_note, registered_actions, stale_names,
    token_matches, ActionView, MetadataView, NodeView, NoteView, RegisterErrorView, Table,
    STALE_AFTER_NANOS,
};

verus! {

/// The registry and its surroundings, as far as the registry shapes them.
pub struct World {
    /// The node table.
    pub table: Table,
    /// The names of the nodes for which, since they were created, at least
    /// one registration was projected into the store.
    pub settled: Set<Seq<char>>,
    /// The configuration store: backends by resource name.
    pub store: Map<Seq<char>, BackendView>,
    /// The records handed to the journal, oldest first.
    pub journal: Seq<NoteView>,
    /// The events published, oldest first.
    pub events: Seq<EventView>,
}

/// One step of a run.
pub enum Step {
    /// A registration at `now`, with `fresh` as the token the registry would
    /// mint. `projected` says whether the store takes the projection.
    Register {
        heartbeat: HeartbeatView,
        provided: Option<Seq<char>>,
        now: u128,
        fresh: Seq<char>,
        projected: bool,
    },
    /// A pass of the reaper at `now` that evicts in the order `order`.
    Reap { now: u128, order: Seq<Seq<char>> },
}

/// The world before anything happened.
pub open spec fn genesis() -> World {
    World {
        table: Map::empty(),
        settled: Set::empty(),
        store: Map::empty(),
        journal: Seq::empty(),
        events: Seq::empty(),
    }
}

/// The store after an operation: an update puts the backend under its name,
/// a removal takes the name out.
pub open spec fn apply_update(store: Map<Seq<char>, BackendView>, update: UpdateView) -> Map<
    Seq<char>,
    BackendView,
> {
    match update {
        UpdateView::Update { name, backend } => store.insert(name, backend),
        UpdateView::Remove(name) => store.remove(name),
    }
}

/// The world after the embedding program performed one action.
pub open spec fn perform_one(world: World, action: ActionView) -> World {
    match action {
        ActionView::Apply(update) => World { store: apply_update(world.store, update), ..world },
        ActionView::Journal(note) => World { journal: world.journal.push(note), ..world },
        ActionView::Publish(event) => World { events: world.events.push(event), ..world },
    }
}

/// The world after the embedding program performed a list of actions in
/// order.
pub open spec fn perform(world: World, actions: Seq<ActionView>) -> World
    decreases actions.len(),
{
    if actions.len() == 0 {
        world
    } else {
        perform_one(perform(world, actions.drop_last()), actions.last())
    }
}

/// The world after one step.
///
/// A refused registration changes nothing. An accepted one changes the
/// table; where the store takes its projection, the journal record and the
/// event follow, else nothing does. A pass of the reaper shrinks the table
/// and, for each evicted node in turn, retracts, journals and publishes.
pub open spec fn step(world: World, step: Step) -> World {
    match step {
        Step::Register { heartbeat, provided, now, fresh, projected } => {
            if refusal(world.table, heartbeat.service_name, provided) is Some {
                world
            } else {
                let table = after_register(world.table, heartbeat, provided, now, fresh);
                if projected {
                    perform(
                        World {
                            table,
                            settled: world.settled.insert(heartbeat.service_name),
                            store: apply_update(world.store, projection(heartbeat)),
                            ..world
                        },
                        registered_actions(heartbeat, table[heartbeat.service_name].metadata),
                    )
                } else {
                    World { table, ..world }
                }
            }
        },
        Step::Reap { now, order } => perform(
            World {
                table: after_reaping(world.table, now),
                settled: world.settled.difference(stale_names(world.table, now)),
                ..world
            },
            reaping_actions(order),
        ),
    }
}

/// Whether a step can happen in a world: the reaper evicts each stale node
/// once, in some order, and nothing else.
pub open spec fn can_happen(world: World, step: Step) -> bool {
    match step {
        Step::Register { .. } => true,
        Step::Reap { now, order } => is_eviction_order(world.table, now, order),
    }
}

/// The world after a run from the empty world.
pub open spec fn run(steps: Seq<Step>) -> World
    decreases steps.len(),
{
    if steps.len() == 0 {
        genesis()
    } else {
        step(run(steps.drop_last()), steps.last())
    }
}

/// Whether every step of a run can happen where it stands.
pub open spec fn is_run(steps: Seq<Step>) -> bool
    decreases steps.len(),
{
    steps.len() == 0 || (is_run(steps.drop_last()) && can_happen(
        run(steps.drop_last()),
        steps.last(),
    ))
}

/// The events about one service, in order.
pub open spec fn events_about(events: Seq<EventView>, name: Seq<char>) -> Seq<EventView>
    decreases events.len(),
{
    if events.len() == 0 {
        Seq::empty()
    } else if events.last().service() == name {
        events_about(events.drop_last(), name).push(events.last())
    } else {
        events_about(events.drop_last(), name)
    }
}

/// Whether a sequence of events about one service can be the life of a
/// node: every removal comes directly after an update. So a life is updates
/// with single removals between them, and may end in a removal.
pub open spec fn is_lifecycle(trace: Seq<EventView>) -> bool {
    forall|i: int|
        0 <= i < trace.len() && #[trigger] trace[i] is NodeRemoved ==> i > 0 && trace[i - 1]
            is NodeUpdated
}

/// Whether the reaper, in this run, only ever takes nodes of which the
/// subscribers were told: nodes with a projected registration since they
/// were created.
pub open spec fn reaps_only_settled(steps: Seq<Step>) -> bool
    decreases steps.len(),
{
    steps.len() == 0 || (reaps_only_settled(steps.drop_last()) && match steps.last() {
        Step::Register { .. } => true,
        Step::Reap { now, order } => stale_names(run(steps.drop_last()).table, now).subset_of(
            run(steps.drop_last()).settled,
        ),
    })
}

/// Whether a journal record says that `name` registered.
pub open spec fn is_register_of(note: NoteView, name: Seq<char>) -> bool {
    note.service == name && note.event == "register"@
}

/// Whether a journal record says that `name` was evicted.
pub open spec fn is_evict_of(note: NoteView, name: Seq<char>) -> bool {
    note.service == name && note.event == "evict"@
}

/// Whether replaying the journal finds `name` alive: it registered and was
/// not evicted afterwards.
pub open spec fn replays_alive(journal: Seq<NoteView>, name: Seq<char>) -> bool {
    exists|i: int|
        0 <= i < journal.len() && #[trigger] is_register_of(journal[i], name) && forall|j: int|
            i < j < journal.len() ==> !#[trigger] is_evict_of(journal[j], name)
}

// ---------------------------------------------------------------------------
// Single steps
// ---------------------------------------------------------------------------

/// A name that is present is guarded by its token: a registration without
/// it, or with another one, is refused with the matching error and leaves
/// the table as it is.
pub proof fn lemma_guarded_name(
    table: Table,
    heartbeat: HeartbeatView,
    provided: Option<Seq<char>>,
    now: u128,
    fresh: Seq<char>,
)
    requires
        table.contains_key(heartbeat.service_name),
        provided != Some(table[heartbeat.service_name].token),
    ensures
        refusal(table, heartbeat.service_name, provided) == Some(
            match provided {
                None => RegisterErrorView::TokenRequired(heartbeat.service_name),
                Some(_) => RegisterErrorView::InvalidToken(heartbeat.service_name),
            },
        ),
        after_register(table, heartbeat, provided, now, fresh) == table,
{
}

/// A refreshed node keeps its token, and no registration touches the node
/// of another name.
pub proof fn lemma_token_is_kept(
    table: Table,
    heartbeat: HeartbeatView,
    provided: Option<Seq<char>>,
    now: u128,
    fresh: Seq<char>,
)
    ensures
        table.contains_key(heartbeat.service_name) ==> after_register(
            table,
            heartbeat,
            provided,
            now,
            fresh,
        )[heartbeat.service_name].token == table[heartbeat.service_name].token,
        forall|other: Seq<char>|
            other != heartbeat.service_name ==> (#[trigger] after_register(
                table,
                heartbeat,
                provided,
                now,
                fresh,
            ).contains_key(other) <==> table.contains_key(other)) && after_register(
                table,
                heartbeat,
                provided,
                now,
                fresh,
            )[other] == table[other],
{
}

/// After an accepted registration, every listing of the table holds the
/// heartbeat as it came but for the blessing, and the token handed back is
/// the one that validates for the name.
pub proof fn lemma_registered_is_listed_and_validates(
    table: Table,
    heartbeat: HeartbeatView,
    provided: Option<Seq<char>>,
    now: u128,
    fresh: Seq<char>,
    list: Seq<HeartbeatView>,
)
    requires
        refusal(table, heartbeat.service_name, provided) is None,
        is_listing(list, after_register(table, heartbeat, provided, now, fresh)),
    ensures
        exists|i: int|
            0 <= i < list.len() && #[trigger] list[i].with_blessing(heartbeat.is_blessed)
                == heartbeat,
        token_matches(
            after_register(table, heartbeat, provided, now, fresh),
            heartbeat.service_name,
            chosen_token(provided, fresh),
        ),
{
    let after = after_register(table, heartbeat, provided, now, fresh);
    assert(after.contains_key(heartbeat.service_name));
    let i = choose|i: int| 0 <= i < list.len() && #[trigger] list[i].service_name
        == heartbeat.service_name;
    assert(after[list[i].service_name].metadata == list[i]);
    assert(list[i].with_blessing(heartbeat.is_blessed) == heartbeat);
}

/// Registrations for different names do not see each other: in either
/// order they leave the same table.
pub proof fn lemma_registrations_commute(
    table: Table,
    first: HeartbeatView,
    first_token: Option<Seq<char>>,
    first_now: u128,
    first_fresh: Seq<char>,
    second: HeartbeatView,
    second_token: Option<Seq<char>>,
    second_now: u128,
    second_fresh: Seq<char>,
)
    requires
        first.service_name != second.service_name,
    ensures
        after_register(
            after_register(table, first, first_token, first_now, first_fresh),
            second,
            second_token,
            second_now,
            second_fresh,
        ) == after_register(
            after_register(table, second, second_token, second_now, second_fresh),
            first,
            first_token,
            first_now,
            first_fresh,
        ),
{
    let one = after_register(table, first, first_token, first_now, first_fresh);
    let other = after_register(table, second, second_token, second_now, second_fresh);
    assert(after_register(one, second, second_token, second_now, second_fresh) =~= after_register(
        other,
        first,
        first_token,
        first_now,
        first_fresh,
    ));
}

/// A name that the reaper took is free again: the next registration for it
/// is accepted whatever token it brings, that token is taken as it stands
/// (or one is minted where it brings none), and the node is not blessed.
pub proof fn lemma_reaped_name_is_free(
    table: Table,
    reaped_at: u128,
    heartbeat: HeartbeatView,
    provided: Option<Seq<char>>,
    now: u128,
    fresh: Seq<char>,
)
    requires
        stale_names(table, reaped_at).contains(heartbeat.service_name),
    ensures
        !after_reaping(table, reaped_at).contains_key(heartbeat.service_name),
        refusal(after_reaping(table, reaped_at), heartbeat.service_name, provided) is None,
        after_register(after_reaping(table, reaped_at), heartbeat, provided, now, fresh)[heartbeat.service_name]
            == (NodeView {
            metadata: heartbeat.with_blessing(false),
            last_seen: now,
            token: chosen_token(provided, fresh),
        }),
{
}

/// The threshold is strict: a node whose last heartbeat is exactly 90
/// seconds old stays, one that is a nanosecond older goes, and the reaper
/// touches no other node.
pub proof fn lemma_threshold_is_strict(table: Table, name: Seq<char>, now: u128)
    requires
        table.contains_key(name),
    ensures
        now - table[name].last_seen == STALE_AFTER_NANOS ==> after_reaping(
            table,
            now,
        ).contains_key(name),
        now - table[name].last_seen > STALE_AFTER_NANOS ==> !after_reaping(
            table,
            now,
        ).contains_key(name),
        now - table[name].last_seen <= STALE_AFTER_NANOS ==> after_reaping(table, now)[name]
            == table[name],
{
}

/// A projection that the store takes is there to be read: under the name
/// `mesh-<service>` stands a backend whose one target is on the heartbeat's
/// port and on the path of its transport.
pub proof fn lemma_projection_is_in_store(store: Map<Seq<char>, BackendView>, heartbeat: HeartbeatView)
    ensures
        apply_update(store, projection(heartbeat)).contains_key(
            backend_key(heartbeat.service_name),
        ),
        apply_update(store, projection(heartbeat))[backend_key(heartbeat.service_name)]
            == projected_backend(heartbeat),
        projected_backend(heartbeat).targets.len() == 1,
        projected_backend(heartbeat).targets[0].port == heartbeat.port,
        projected_backend(heartbeat).targets[0].path == transport_path(heartbeat.transport),
        projected_backend(heartbeat).targets[0].hostname == "localhost"@,
{
}

/// The metadata that the registry itself writes, the reason of an eviction,
/// holds no line feed: the record of an eviction is one line of the journal.
pub proof fn lemma_eviction_is_journaled_on_one_line(name: Seq<char>)
    ensures
        evict_note(name).metadata matches MetadataView::Json(text) && no_line_feed(text),
{
    reveal_strlit("{\"reason\":\"timeout\"}");
}

/// A refused registration is silent: it changes neither table nor store,
/// and nothing is journaled or published.
pub proof fn lemma_refused_registration_is_silent(
    world: World,
    heartbeat: HeartbeatView,
    provided: Option<Seq<char>>,
    now: u128,
    fresh: Seq<char>,
    projected: bool,
)
    requires
        refusal(world.table, heartbeat.service_name, provided) is Some,
    ensures
        step(world, Step::Register { heartbeat, provided, now, fresh, projected }) == world,
{
}

/// A projection that the store refuses is not rolled back and not
/// announced: the table keeps the accepted node, while store, journal and
/// events stay as they were.
pub proof fn lemma_refused_projection_keeps_the_node(
    world: World,
    heartbeat: HeartbeatView,
    provided: Option<Seq<char>>,
    now: u128,
    fresh: Seq<char>,
)
    requires
        refusal(world.table, heartbeat.service_name, provided) is None,
    ensures
        step(world, Step::Register { heartbeat, provided, now, fresh, projected: false }) == (World {
            table: after_register(world.table, heartbeat, provided, now, fresh),
            ..world
        }),
        step(
            world,
            Step::Register { heartbeat, provided, now, fresh, projected: false },
        ).table.contains_key(heartbeat.service_name),
{
}

// ---------------------------------------------------------------------------
// Whole runs
// ---------------------------------------------------------------------------

/// Performing two lists of actions one after the other is performing their
/// concatenation.
proof fn lemma_perform_concat(world: World, head: Seq<ActionView>, tail: Seq<ActionView>)
    ensures
        perform(world, head + tail) == perform(perform(world, head), tail),
    decreases tail.len(),
{
    if tail.len() == 0 {
        assert(head + tail =~= head);
    } else {
        assert((head + tail).drop_last() =~= head + tail.drop_last());
        assert((head + tail).last() == tail.last());
        lemma_perform_concat(world, head, tail.drop_last());
    }
}

/// What performing the actions of a settled registration does.
proof fn lemma_perform_registered(world: World, heartbeat: HeartbeatView, accepted: HeartbeatView)
    ensures
        perform(world, registered_actions(heartbeat, accepted)) == (World {
            journal: world.journal.push(register_note(heartbeat)),
            events: world.events.push(EventView::NodeUpdated(accepted)),
            ..world
        }),
{
    let actions = registered_actions(heartbeat, accepted);
    let first = seq![actions[0]];
    assert(actions.drop_last() =~= first);
    assert(first.drop_last() =~= Seq::<ActionView>::empty());
    assert(perform(world, first.drop_last()) == world);
    assert(perform(world, first) == perform_one(world, actions[0]));
}

/// What performing the actions of one eviction does.
proof fn lemma_perform_eviction(world: World, name: Seq<char>)
    ensures
        perform(world, eviction_actions(name)) == (World {
            store: world.store.remove(backend_key(name)),
            journal: world.journal.push(evict_note(name)),
            events: world.events.push(EventView::NodeRemoved(name)),
            ..world
        }),
{
    let actions = eviction_actions(name);
    let two = seq![actions[0], actions[1]];
    let one = seq![actions[0]];
    assert(actions.drop_last() =~= two);
    assert(two.drop_last() =~= one);
    assert(one.drop_last() =~= Seq::<ActionView>::empty());
    assert(perform(world, one.drop_last()) == world);
    assert(perform(world, one) == perform_one(world, actions[0]));
    assert(perform(world, two) == perform_one(perform(world, one), actions[1]));
}

/// The events that a pass of the reaper publishes.
spec fn removals(order: Seq<Seq<char>>) -> Seq<EventView> {
    Seq::new(order.len(), |i: int| EventView::NodeRemoved(order[i]))
}

/// The records that a pass of the reaper journals.
spec fn evict_notes(order: Seq<Seq<char>>) -> Seq<NoteView> {
    Seq::new(order.len(), |i: int| evict_note(order[i]))
}

/// The store after the retractions of a pass of the reaper.
spec fn retract_all(store: Map<Seq<char>, BackendView>, order: Seq<Seq<char>>) -> Map<
    Seq<char>,
    BackendView,
>
    decreases order.len(),
{
    if order.len() == 0 {
        store
    } else {
        retract_all(store, order.drop_last()).remove(backend_key(order.last()))
    }
}

/// What performing the actions of a pass of the reaper does.
proof fn lemma_perform_reaping(world: World, order: Seq<Seq<char>>)
    ensures
        perform(world, reaping_actions(order)) == (World {
            store: retract_all(world.store, order),
            journal: world.journal + evict_notes(order),
            events: world.events + removals(order),
            ..world
        }),
    decreases order.len(),
{
    if order.len() == 0 {
        assert(world.journal + evict_notes(order) =~= world.journal);
        assert(world.events + removals(order) =~= world.events);
    } else {
        let front = order.drop_last();
        lemma_perform_reaping(world, front);
        lemma_perform_concat(world, reaping_actions(front), eviction_actions(order.last()));
        lemma_perform_eviction(perform(world, reaping_actions(front)), order.last());
        assert((world.journal + evict_notes(front)).push(evict_note(order.last()))
            =~= world.journal + evict_notes(order));
        assert((world.events + removals(front)).push(EventView::NodeRemoved(order.last()))
            =~= world.events + removals(order));
    }
}

/// The events about a service in two stretches are those in the first
/// followed by those in the second.
proof fn lemma_events_about_concat(head: Seq<EventView>, tail: Seq<EventView>, name: Seq<char>)
    ensures
        events_about(head + tail, name) == events_about(head, name) + events_about(tail, name),
    decreases tail.len(),
{
    if tail.len() == 0 {
        assert(head + tail =~= head);
        assert(events_about(head, name) + events_about(tail, name) =~= events_about(head, name));
    } else {
        assert((head + tail).drop_last() =~= head + tail.drop_last());
        assert((head + tail).last() == tail.last());
        lemma_events_about_concat(head, tail.drop_last(), name);
        if tail.last().service() == name {
            assert((events_about(head, name) + events_about(tail.drop_last(), name)).push(
                tail.last(),
            ) =~= events_about(head, name) + events_about(tail, name));
        }
    }
}

/// Of the events of one pass of the reaper, exactly one is about a service
/// that was evicted, and none is about any other.
proof fn lemma_removals_about(order: Seq<Seq<char>>, name: Seq<char>)
    requires
        order.no_duplicates(),
    ensures
        events_about(removals(order), name) == if order.contains(name) {
            seq![EventView::NodeRemoved(name)]
        } else {
            Seq::<EventView>::empty()
        },
    decreases order.len(),
{
    if order.len() == 0 {
    } else {
        let front = order.drop_last();
        assert(removals(order).drop_last() =~= removals(front));
        assert(removals(order).last() == EventView::NodeRemoved(order.last()));
        lemma_removals_about(front, name);
        if order.last() == name {
            if front.contains(name) {
                let k = choose|k: int| 0 <= k < front.len() && front[k] == name;
                assert(order[k] == order[order.len() - 1]);
            }
            assert(order[order.len() - 1] == name);
            assert(events_about(removals(order), name) =~= seq![EventView::NodeRemoved(name)]);
        } else {
            if order.contains(name) {
                let k = choose|k: int| 0 <= k < order.len() && order[k] == name;
                assert(front[k] == name);
            }
            if front.contains(name) {
                let k = choose|k: int| 0 <= k < front.len() && front[k] == name;
                assert(order[k] == name);
            }
        }
    }
}

/// What holds of the events about a service after every run in which the
/// reaper takes settled nodes only.
spec fn lifecycle_invariant(world: World, name: Seq<char>) -> bool {
    let trace = events_about(world.events, name);
    &&& is_lifecycle(trace)
    &&& world.settled.contains(name) ==> trace.len() > 0 && trace.last() is NodeUpdated
}

proof fn lemma_lifecycle_invariant(steps: Seq<Step>, name: Seq<char>)
    requires
        is_run(steps),
        reaps_only_settled(steps),
    ensures
        lifecycle_invariant(run(steps), name),
    decreases steps.len(),
{
    if steps.len() == 0 {
    } else {
        let before = run(steps.drop_last());
        let after = run(steps);
        lemma_lifecycle_invariant(steps.drop_last(), name);
        let old_trace = events_about(before.events, name);
        match steps.last() {
            Step::Register { heartbeat, provided, now, fresh, projected } => {
                if refusal(before.table, heartbeat.service_name, provided) is None && projected {
                    let table = after_register(before.table, heartbeat, provided, now, fresh);
                    let accepted = table[heartbeat.service_name].metadata;
                    let mid = World {
                        table,
                        settled: before.settled.insert(heartbeat.service_name),
                        store: apply_update(before.store, projection(heartbeat)),
                        ..before
                    };
                    lemma_perform_registered(mid, heartbeat, accepted);
                    let event = EventView::NodeUpdated(accepted);
                    assert(after.events == before.events.push(event));
                    assert(after.events.drop_last() =~= before.events);
                    assert(event.service() == heartbeat.service_name);
                }
            },
            Step::Reap { now, order } => {
                let mid = World {
                    table: after_reaping(before.table, now),
                    settled: before.settled.difference(stale_names(before.table, now)),
                    ..before
                };
                lemma_perform_reaping(mid, order);
                lemma_events_about_concat(before.events, removals(order), name);
                lemma_removals_about(order, name);
                if order.contains(name) {
                    assert(stale_names(before.table, now).contains(name));
                    assert(before.settled.contains(name));
                    let trace = events_about(after.events, name);
                    assert(trace =~= old_trace.push(EventView::NodeRemoved(name)));
                } else {
                    assert(events_about(after.events, name) =~= old_trace);
                }
            },
        }
    }
}

/// The events about one service, as a subscriber who listens from the
/// start sees them, are the life of a node: updates, with single removals
/// between them, each removal directly after an update.
///
/// This holds of every run in which the reaper only takes nodes that have
/// had a registration projected since they were created. A node whose
/// every projection was refused was never announced, and its eviction is
/// the first that subscribers hear of it.
pub proof fn lemma_events_form_lifecycles(steps: Seq<Step>, name: Seq<char>)
    requires
        is_run(steps),
        reaps_only_settled(steps),
    ensures
        is_lifecycle(events_about(run(steps).events, name)),
        run(steps).settled.contains(name) ==> events_about(run(steps).events, name).len() > 0
            && events_about(run(steps).events, name).last() is NodeUpdated,
{
    lemma_lifecycle_invariant(steps, name);
}

/// The resource names of different services differ.
proof fn lemma_backend_key_is_injective(one: Seq<char>, other: Seq<char>)
    requires
        backend_key(one) == backend_key(other),
    ensures
        one == other,
{
    let prefix = "mesh-"@;
    assert(one =~= backend_key(one).subrange(prefix.len() as int, backend_key(one).len() as int));
    assert(other =~= backend_key(other).subrange(
        prefix.len() as int,
        backend_key(other).len() as int,
    ));
}

/// A pass of the reaper takes from the store the resources of the evicted
/// and leaves every other resource as it is.
proof fn lemma_retract_all(store: Map<Seq<char>, BackendView>, order: Seq<Seq<char>>, key: Seq<char>)
    ensures
        retract_all(store, order).contains_key(key) <==> store.contains_key(key) && !exists|
            i: int,
        |
            0 <= i < order.len() && #[trigger] backend_key(order[i]) == key,
        retract_all(store, order).contains_key(key) ==> retract_all(store, order)[key]
            == store[key],
    decreases order.len(),
{
    if order.len() == 0 {
    } else {
        let front = order.drop_last();
        lemma_retract_all(store, front, key);
        if exists|i: int| 0 <= i < front.len() && #[trigger] backend_key(front[i]) == key {
            let i = choose|i: int| 0 <= i < front.len() && #[trigger] backend_key(front[i]) == key;
            assert(backend_key(order[i]) == key);
        }
        if exists|i: int| 0 <= i < order.len() && #[trigger] backend_key(order[i]) == key {
            let i = choose|i: int| 0 <= i < order.len() && #[trigger] backend_key(order[i]) == key;
            if i < front.len() {
                assert(backend_key(front[i]) == key);
            }
        }
    }
}

/// What holds of a settled node after every run.
spec fn settled_invariant(world: World, name: Seq<char>) -> bool {
    world.settled.contains(name) ==> {
        &&& world.table.contains_key(name)
        &&& replays_alive(world.journal, name)
        &&& world.store.contains_key(backend_key(name))
        &&& world.store[backend_key(name)].name == name
    }
}

proof fn lemma_settled_invariant(steps: Seq<Step>, name: Seq<char>)
    requires
        is_run(steps),
    ensures
        settled_invariant(run(steps), name),
    decreases steps.len(),
{
    if steps.len() == 0 {
    } else {
        let before = run(steps.drop_last());
        let after = run(steps);
        lemma_settled_invariant(steps.drop_last(), name);
        reveal_strlit("register");
        reveal_strlit("evict");
        assert("register"@.len() != "evict"@.len());
        match steps.last() {
            Step::Register { heartbeat, provided, now, fresh, projected } => {
                if refusal(before.table, heartbeat.service_name, provided) is None && projected {
                    let table = after_register(before.table, heartbeat, provided, now, fresh);
                    let accepted = table[heartbeat.service_name].metadata;
                    let mid = World {
                        table,
                        settled: before.settled.insert(heartbeat.service_name),
                        store: apply_update(before.store, projection(heartbeat)),
                        ..before
                    };
                    lemma_perform_registered(mid, heartbeat, accepted);
                    let note = register_note(heartbeat);
                    assert(after.journal == before.journal.push(note));
                    if after.settled.contains(name) {
                        if name == heartbeat.service_name {
                            let i = before.journal.len() as int;
                            assert(is_register_of(after.journal[i], name));
                        } else {
                            let i = choose|i: int|
                                0 <= i < before.journal.len() && #[trigger] is_register_of(
                                    before.journal[i],
                                    name,
                                ) && forall|j: int|
                                    i < j < before.journal.len() ==> !#[trigger] is_evict_of(
                                        before.journal[j],
                                        name,
                                    );
                            assert(is_register_of(after.journal[i], name));
                            assert forall|j: int| i < j < after.journal.len() implies !#[trigger] is_evict_of(
                                after.journal[j],
                                name,
                            ) by {
                                if j < before.journal.len() {
                                    assert(after.journal[j] == before.journal[j]);
                                }
                            }
                            if backend_key(name) == backend_key(heartbeat.service_name) {
                                lemma_backend_key_is_injective(name, heartbeat.service_name);
                            }
                        }
                    }
                }
            },
            Step::Reap { now, order } => {
                let mid = World {
                    table: after_reaping(before.table, now),
                    settled: before.settled.difference(stale_names(before.table, now)),
                    ..before
                };
                lemma_perform_reaping(mid, order);
                if after.settled.contains(name) {
                    assert(!stale_names(before.table, now).contains(name));
                    assert(!order.contains(name));
                    let i = choose|i: int|
                        0 <= i < before.journal.len() && #[trigger] is_register_of(
                            before.journal[i],
                            name,
                        ) && forall|j: int|
                            i < j < before.journal.len() ==> !#[trigger] is_evict_of(
                                before.journal[j],
                                name,
                            );
                    assert(is_register_of(after.journal[i], name));
                    assert forall|j: int| i < j < after.journal.len() implies !#[trigger] is_evict_of(
                        after.journal[j],
                        name,
                    ) by {
                        if j < before.journal.len() {
                            assert(after.journal[j] == before.journal[j]);
                        } else {
                            let k = j - before.journal.len();
                            assert(after.journal[j] == evict_note(order[k]));
                            assert(order.contains(order[k]));
                        }
                    }
                    lemma_retract_all(before.store, order, backend_key(name));
                    if exists|i: int|
                        0 <= i < order.len() && #[trigger] backend_key(order[i]) == backend_key(
                            name,
                        ) {
                        let i = choose|i: int|
                            0 <= i < order.len() && #[trigger] backend_key(order[i])
                                == backend_key(name);
                        lemma_backend_key_is_injective(order[i], name);
                        assert(order.contains(order[i]));
                    }
                }
            },
        }
    }
}

/// Replaying the journal finds every settled node alive: it is in the
/// table, the journal holds a `register` record of it with no `evict`
/// record after, and the store holds its resource.
///
/// Settled are the nodes that have had a registration projected since they
/// were created. A node whose every projection was refused is in the table
/// and in neither journal nor store; the next heartbeat that the store
/// takes settles it.
pub proof fn lemma_journal_replays_settled_nodes(steps: Seq<Step>, name: Seq<char>)
    requires
        is_run(steps),
        run(steps).settled.contains(name),
    ensures
        run(steps).table.contains_key(name),
        replays_alive(run(steps).journal, name),
        run(steps).store.contains_key(backend_key(name)),
        run(steps).store[backend_key(name)].name == name,
{
    lemma_settled_invariant(steps, name);
}

/// Whether a run consists of registrations only.
pub open spec fn only_registers(steps: Seq<Step>) -> bool {
    forall|i: int| 0 <= i < steps.len() ==> #[trigger] steps[i] is Register
}

/// Whether step `i` of a run is a registration for `name` that the table,
/// as the steps before it left it, accepts.
pub open spec fn accepts(steps: Seq<Step>, i: int, name: Seq<char>) -> bool {
    &&& 0 <= i < steps.len()
    &&& steps[i] matches Step::Register { heartbeat, provided, .. }
    &&& heartbeat.service_name == name
    &&& refusal(run(steps.take(i)).table, name, provided) is None
}

/// Whether step `i` is the first accepted registration for `name`.
pub open spec fn is_first_accepted(steps: Seq<Step>, i: int, name: Seq<char>) -> bool {
    accepts(steps, i, name) && forall|k: int| 0 <= k < i ==> !#[trigger] accepts(steps, k, name)
}

/// Whether step `i` is the last accepted registration for `name`.
pub open spec fn is_last_accepted(steps: Seq<Step>, i: int, name: Seq<char>) -> bool {
    accepts(steps, i, name) && forall|k: int|
        i < k < steps.len() ==> !#[trigger] accepts(steps, k, name)
}

/// The node that stands in the table where `first` was the first accepted
/// registration for a name and `last` the last: the heartbeat and the time
/// of the last, the token of the first, blessed if there was more than one.
pub open spec fn node_of(first: Step, last: Step, refreshed: bool) -> NodeView {
    NodeView {
        metadata: last->Register_heartbeat.with_blessing(refreshed),
        last_seen: last->Register_now,
        token: chosen_token(first->Register_provided, first->Register_fresh),
    }
}

/// What holds of the table's node for `name` after a run of registrations.
spec fn registered_invariant(steps: Seq<Step>, name: Seq<char>) -> bool {
    let table = run(steps).table;
    &&& table.contains_key(name) <==> exists|i: int| accepts(steps, i, name)
    &&& table.contains_key(name) ==> exists|first: int, last: int|
        #![trigger is_first_accepted(steps, first, name), is_last_accepted(steps, last, name)]
        is_first_accepted(steps, first, name) && is_last_accepted(steps, last, name)
            && table[name] == node_of(steps[first], steps[last], first != last)
}

/// A step before the last is accepted in a run exactly if it is accepted in
/// the run without the last step.
proof fn lemma_accepts_in_front(steps: Seq<Step>, i: int, name: Seq<char>)
    requires
        0 <= i < steps.len() - 1,
    ensures
        accepts(steps, i, name) == accepts(steps.drop_last(), i, name),
{
    assert(steps.take(i) =~= steps.drop_last().take(i));
}

proof fn lemma_registered_invariant(steps: Seq<Step>, name: Seq<char>)
    requires
        only_registers(steps),
    ensures
        registered_invariant(steps, name),
    decreases steps.len(),
{
    if steps.len() == 0 {
    } else {
        let front = steps.drop_last();
        let end = steps.len() - 1;
        let before = run(front);
        let after = run(steps);
        assert(only_registers(front)) by {
            assert forall|i: int| 0 <= i < front.len() implies #[trigger] front[i] is Register by {
                assert(steps[i] is Register);
            }
        }
        lemma_registered_invariant(front, name);
        assert(steps.take(end) =~= front);
        assert forall|i: int| 0 <= i < end implies accepts(steps, i, name) == accepts(
            front,
            i,
            name,
        ) by {
            lemma_accepts_in_front(steps, i, name);
        }
        assert(steps[end] is Register);
        let heartbeat = steps[end]->Register_heartbeat;
        let provided = steps[end]->Register_provided;
        let now = steps[end]->Register_now;
        let fresh = steps[end]->Register_fresh;
        let projected = steps[end]->Register_projected;
        let accepted_now = refusal(before.table, heartbeat.service_name, provided) is None;
        if accepted_now && projected {
            let table = after_register(before.table, heartbeat, provided, now, fresh);
            lemma_perform_registered(
                World {
                    table,
                    settled: before.settled.insert(heartbeat.service_name),
                    store: apply_update(before.store, projection(heartbeat)),
                    ..before
                },
                heartbeat,
                table[heartbeat.service_name].metadata,
            );
        }
        assert(after.table == after_register(before.table, heartbeat, provided, now, fresh));
        if heartbeat.service_name == name && accepted_now {
            assert(accepts(steps, end, name));
            if before.table.contains_key(name) {
                let (first, last) = choose|first: int, last: int|
                    #![trigger is_first_accepted(front, first, name), is_last_accepted(front, last, name)]
                    is_first_accepted(front, first, name) && is_last_accepted(front, last, name)
                        && before.table[name] == node_of(front[first], front[last], first != last);
                assert(is_first_accepted(steps, first, name));
                assert(is_last_accepted(steps, end, name));
                assert(after.table[name] == node_of(steps[first], steps[end], first != end));
            } else {
                assert forall|k: int| 0 <= k < end implies !#[trigger] accepts(steps, k, name) by {
                    if accepts(front, k, name) {
                        assert(false);
                    }
                }
                assert(is_first_accepted(steps, end, name));
                assert(is_last_accepted(steps, end, name));
                assert(after.table[name] == node_of(steps[end], steps[end], end != end));
            }
        } else {
            assert(!accepts(steps, end, name));
            assert(after.table.contains_key(name) == before.table.contains_key(name));
            if after.table.contains_key(name) {
                assert(after.table[name] == before.table[name]);
                let i = choose|i: int| accepts(front, i, name);
                assert(accepts(steps, i, name));
                let (first, last) = choose|first: int, last: int|
                    #![trigger is_first_accepted(front, first, name), is_last_accepted(front, last, name)]
                    is_first_accepted(front, first, name) && is_last_accepted(front, last, name)
                        && before.table[name] == node_of(front[first], front[last], first != last);
                assert(is_first_accepted(steps, first, name));
                assert(is_last_accepted(steps, last, name)) by {
                    assert forall|k: int| last < k < steps.len() implies !#[trigger] accepts(
                        steps,
                        k,
                        name,
                    ) by {
                        if k < end {
                            assert(!accepts(front, k, name));
                        }
                    }
                }
            } else {
                if exists|i: int| accepts(steps, i, name) {
                    let i = choose|i: int| accepts(steps, i, name);
                    assert(accepts(front, i, name));
                }
            }
        }
    }
}

/// However registrations follow each other, the table ends up holding, for
/// each name, the heartbeat that was accepted last, under the token that
/// was established first.
///
/// A name is in the table exactly if a registration for it was accepted.
/// Its node then carries the heartbeat and the time of the last accepted
/// registration and the token of the first: the caller's where the caller
/// brought one, else the minted one. It is blessed exactly if the last
/// accepted registration was not the first.
pub proof fn lemma_last_heartbeat_first_token(steps: Seq<Step>, name: Seq<char>)
    requires
        only_registers(steps),
    ensures
        run(steps).table.contains_key(name) <==> exists|i: int| accepts(steps, i, name),
        run(steps).table.contains_key(name) ==> exists|first: int, last: int|
            #![trigger is_first_accepted(steps, first, name), is_last_accepted(steps, last, name)]
            is_first_accepted(steps, first, name) && is_last_accepted(steps, last, name) && run(
                steps,
            ).table[name] == node_of(steps[first], steps[last], first != last),
{
    lemma_registered_invariant(steps, name);
}

/// The table of a world is the registry's table: registrations and passes
/// of the reaper shape it by the registry's rules alone, whatever the store
/// answers.
pub proof fn lemma_step_follows_the_rules(world: World, next: Step)
    ensures
        step(world, next).table == match next {
            Step::Register { heartbeat, provided, now, fresh, .. } => after_register(
                world.table,
                heartbeat,
                provided,
                now,
                fresh,
            ),
            Step::Reap { now, .. } => after_reaping(world.table, now),
        },
{
    match next {
        Step::Register { heartbeat, provided, now, fresh, projected } => {
            if refusal(world.table, heartbeat.service_name, provided) is None && projected {
                let table = after_register(world.table, heartbeat, provided, now, fresh);
                lemma_perform_registered(
                    World {
                        table,
                        settled: world.settled.insert(heartbeat.service_name),
                        store: apply_update(world.store, projection(heartbeat)),
                        ..world
                    },
                    heartbeat,
                    table[heartbeat.service_name].metadata,
                );
            }
        },
        Step::Reap { now, order } => {
            lemma_perform_reaping(
                World {
                    table: after_reaping(world.table, now),
                    settled: world.settled.difference(stale_names(world.table, now)),
                    ..world
                },
                order,
            );
        },
    }
}

} // verus!
