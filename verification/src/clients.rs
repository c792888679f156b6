//! The clients of the event server and what they are sent.

use crate::feed::{ConsumptionUpdate, UpdateCache};
use crate::text::event_id;
use std::convert::Infallible;
use tokio::sync::mpsc::UnboundedSender;
use vstd::prelude::*;
use warp::sse::Event;

verus! {

/// How long the list of clients is waited for, in seconds, when clients are to be removed from
/// it. Where it cannot be had by then they are left in it, to be found again later.
pub const REMOVE_TIMEOUT_SECS: u64 = 10;

/// The sending half of an unbounded tokio channel.
#[verifier::external_type_specification]
#[verifier::external_body]
#[verifier::reject_recursive_types(T)]
pub struct ExUnboundedSender<T>(tokio::sync::mpsc::UnboundedSender<T>);

/// A server-sent event as warp takes it.
#[verifier::external_type_specification]
#[verifier::external_body]
pub struct ExEvent(warp::sse::Event);

/// The three fields of an event, as characters.
pub struct EventFields {
    pub id: Seq<char>,
    pub event: Seq<char>,
    pub data: Seq<char>,
}

/// An event for one client.
pub struct ClientEvent {
    pub id: String,
    pub event: String,
    pub data: String,
}

impl View for ClientEvent {
    type V = EventFields;

    open spec fn view(&self) -> EventFields {
        EventFields { id: self.id@, event: self.event@, data: self.data@ }
    }
}

/// One event that was handed to a client's channel, and whether the channel took it.
pub struct Sending {
    pub event: EventFields,
    pub taken: bool,
}

/// Everything that was sent through a client's handle, oldest first: each event as the
/// identifier, the event name and the data that it was made with, and whether the channel behind
/// the handle took it.
pub uninterp spec fn sendings(client: UnboundedSender<Result<Event, Infallible>>) -> Seq<Sending>;

/// Hands one event to a client through `tokio::sync::mpsc::UnboundedSender::send`, as the warp
/// event that `Event::default` makes and `Event::id`, `Event::event` and `Event::data` set the
/// three fields of. The result tells whether the channel took it.
///
/// Claimed of `send`: it is handed this one event, after all that was sent through this handle
/// before; where it succeeds the channel has taken the event, and where it fails it has not.
/// Claimed of the three setters: each sets its own field to the text it is given and leaves the
/// others as they are. Nothing is claimed of when `send` fails. It does so exactly where the
/// receiving end is closed or dropped, which is not a matter of the handle. Nor is it said that
/// `send` aborts the process where half of `usize::MAX` messages already wait in the channel,
/// which no memory can hold.
#[verifier::external_body]
fn send_event(
    client: &mut UnboundedSender<Result<Event, Infallible>>,
    event: ClientEvent,
) -> (taken: bool)
    ensures
        sendings(*final(client)) == sendings(*old(client)).push(Sending { event: event@, taken }),
{
    let message = Event::default().id(event.id).event(event.event).data(event.data);
    client.send(Ok(message)).is_ok()
}

/// The fields of the event that tells of an update whose text is `data`.
pub open spec fn consumption_fields(update: ConsumptionUpdate, data: Seq<char>) -> EventFields {
    EventFields {
        id: crate::text::event_id_text(update.para_id as nat, update.block_number as nat),
        event: "consumptionUpdate"@,
        data,
    }
}

/// The event that tells of an update whose text is `data`.
pub fn consumption_event(update: &ConsumptionUpdate, data: String) -> (event: ClientEvent)
    ensures
        event@ == consumption_fields(*update, data@),
        event.id@ == crate::text::decimal(update.para_id as nat) + seq!['-']
            + crate::text::decimal(update.block_number as nat),
        event.event@ == "consumptionUpdate"@,
        event.data@ == data@,
{
    ClientEvent {
        id: event_id(update.para_id, update.block_number),
        event: "consumptionUpdate".to_string(),
        data,
    }
}

/// Replay and live sending cannot be told apart: where an update was published and no later one
/// of its parachain was, exactly one of the events that are replayed to a client is about that
/// parachain, and it is the event that was sent when the update was published. That holds
/// whatever `before` was cached, whatever `later` updates of other parachains were published,
/// and however updates are turned into text.
pub proof fn lemma_replay_equals_live(
    before: Map<u32, ConsumptionUpdate>,
    update: ConsumptionUpdate,
    later: Seq<ConsumptionUpdate>,
    updates: Seq<&ConsumptionUpdate>,
    data: Seq<String>,
    text: spec_fn(ConsumptionUpdate) -> Seq<char>,
)
    requires
        forall|i: int| 0 <= i < later.len() ==> (#[trigger] later[i]).para_id != update.para_id,
        crate::feed::lists_all(
            crate::feed::stored_after(before.insert(update.para_id, update), later),
            updates,
        ),
        data.len() == updates.len(),
        forall|i: int| 0 <= i < data.len() ==> (#[trigger] data[i])@ == text(*updates[i]),
    ensures
        exists|i: int|
            #![trigger consumption_events(updates, data)[i]]
            {
                &&& 0 <= i < updates.len()
                &&& consumption_events(updates, data)[i] == consumption_fields(update, text(update))
                &&& forall|j: int|
                    0 <= j < updates.len() ==> ((#[trigger] updates[j]).para_id == update.para_id
                        <==> j == i)
            },
{
    let para_id = update.para_id;
    let cached = crate::feed::stored_after(before.insert(para_id, update), later);
    crate::feed::lemma_others_leave_entry(before.insert(para_id, update), later, para_id);
    assert(cached.contains_key(para_id));
    let i = choose|i: int| 0 <= i < updates.len() && (#[trigger] updates[i]).para_id == para_id;
    assert(*updates[i] == update);
    assert(data[i]@ == text(update));
    assert(consumption_events(updates, data)[i] == consumption_fields(update, text(update)));
    assert forall|j: int| 0 <= j < updates.len() implies ((#[trigger] updates[j]).para_id
        == para_id <==> j == i) by {
        if j < i {
            assert(updates[j].para_id != updates[i].para_id);
        }
        if i < j {
            assert(updates[i].para_id != updates[j].para_id);
        }
    }
}

/// A client that comes is told of the latest block of every parachain of which one is cached:
/// one of the events that are replayed to it is about that block.
pub proof fn lemma_replay_tells_of_latest(
    cached: Map<u32, ConsumptionUpdate>,
    updates: Seq<&ConsumptionUpdate>,
    data: Seq<String>,
    para_id: u32,
)
    requires
        crate::feed::lists_all(cached, updates),
        data.len() == updates.len(),
        cached.contains_key(para_id),
    ensures
        exists|i: int|
            0 <= i < updates.len() && *updates[i] == cached[para_id] && #[trigger] consumption_events(
                updates,
                data,
            )[i] == consumption_fields(cached[para_id], data[i]@),
{
    let i = choose|i: int| 0 <= i < updates.len() && (#[trigger] updates[i]).para_id == para_id;
    assert(consumption_events(updates, data)[i] == consumption_fields(cached[para_id], data[i]@));
}

/// No two of the events that are replayed to a client share an identifier.
pub proof fn lemma_replayed_ids_differ(
    cached: Map<u32, ConsumptionUpdate>,
    updates: Seq<&ConsumptionUpdate>,
    data: Seq<String>,
    i: int,
    j: int,
)
    requires
        crate::feed::lists_all(cached, updates),
        data.len() == updates.len(),
        0 <= i < j < updates.len(),
    ensures
        consumption_events(updates, data)[i].id != consumption_events(updates, data)[j].id,
{
    assert(updates[i].para_id != updates[j].para_id);
    if consumption_events(updates, data)[i].id == consumption_events(updates, data)[j].id {
        crate::text::lemma_event_id_unique(
            updates[i].para_id as nat,
            updates[i].block_number as nat,
            updates[j].para_id as nat,
            updates[j].block_number as nat,
        );
    }
}

/// Whether `gone` is in strictly increasing order.
pub open spec fn increasing(gone: Seq<usize>) -> bool {
    forall|i: int, j: int| 0 <= i < j < gone.len() ==> gone[i] < gone[j]
}

/// Whether position `i` is in `gone`.
pub open spec fn listed(gone: Seq<usize>, i: int) -> bool {
    exists|k: int| 0 <= k < gone.len() && gone[k] == i
}

/// The clients that did not take an event, in order, out of whether each of them took it.
pub fn disconnected_clients(taken: &Vec<bool>) -> (gone: Vec<usize>)
    ensures
        increasing(gone@),
        forall|i: int| #[trigger] listed(gone@, i) <==> 0 <= i < taken@.len() && !taken@[i],
        forall|i: usize| #[trigger]
            gone@.contains(i) <==> i < taken@.len() && !taken@[i as int],
        forall|i: int, j: int| 0 <= i < j < gone@.len() ==> gone@[i] < gone@[j],
{
    let mut gone: Vec<usize> = Vec::new();
    let mut i: usize = 0;
    while i < taken.len()
        invariant
            i <= taken@.len(),
            increasing(gone@),
            forall|k: int| 0 <= k < gone@.len() ==> gone@[k] < i && !taken@[gone@[k] as int],
            forall|k: int| 0 <= k < i && !taken@[k] ==> #[trigger] listed(gone@, k),
        decreases taken@.len() - i,
    {
        if !taken[i] {
            let ghost before = gone@;
            gone.push(i);
            assert forall|k: int| 0 <= k <= i && !taken@[k] implies #[trigger] listed(gone@, k) by {
                if k < i {
                    assert(listed(before, k));
                    let n = choose|n: int| 0 <= n < before.len() && before[n] == k;
                    assert(gone@[n] == k);
                } else {
                    assert(gone@[before.len() as int] == i);
                }
            }
        }
        i = i + 1;
    }
    proof {
        assert forall|k: usize| #[trigger] gone@.contains(k) <==> k < taken@.len()
            && !taken@[k as int] by {
            lemma_listed_is_contained(gone@, k);
        }
    }
    gone
}

/// Whether each client of a list was sent an event, once: `gone` lists, in order, those whose
/// channel did not take it.
pub open spec fn told(
    before: Seq<UnboundedSender<Result<Event, Infallible>>>,
    after: Seq<UnboundedSender<Result<Event, Infallible>>>,
    gone: Seq<usize>,
    event: EventFields,
) -> bool {
    &&& after.len() == before.len()
    &&& increasing(gone)
    &&& forall|k: int| 0 <= k < gone.len() ==> gone[k] < before.len()
    &&& forall|i: int|
        0 <= i < before.len() ==> sendings(#[trigger] after[i]) == sendings(before[i]).push(
            Sending { event, taken: !listed(gone, i) },
        )
}

/// Sends every client the event that tells of an update, once and whatever came of the others,
/// and lists the clients whose channel did not take it. Which those are, only the other ends of
/// the channels decide.
pub fn broadcast(
    clients: &mut Vec<UnboundedSender<Result<Event, Infallible>>>,
    update: &ConsumptionUpdate,
    data: &String,
) -> (gone: Vec<usize>)
    ensures
        told(old(clients)@, final(clients)@, gone@, consumption_fields(*update, data@)),
        final(clients)@.len() == old(clients)@.len(),
        forall|i: int, j: int| 0 <= i < j < gone@.len() ==> gone@[i] < gone@[j],
        forall|k: int| 0 <= k < gone@.len() ==> gone@[k] < old(clients)@.len(),
        forall|i: int|
            0 <= i < old(clients)@.len() ==> {
                let before = sendings(old(clients)@[i]);
                let after = sendings(#[trigger] final(clients)@[i]);
                &&& after.len() == before.len() + 1
                &&& after.drop_last() == before
                &&& after.last().event.id == crate::text::decimal(update.para_id as nat)
                    + seq!['-'] + crate::text::decimal(update.block_number as nat)
                &&& after.last().event.event == "consumptionUpdate"@
                &&& after.last().event.data == data@
                &&& after.last().taken == !gone@.contains(i as usize)
            },
{
    let ghost sent = consumption_fields(*update, data@);
    let mut taken: Vec<bool> = Vec::new();
    let mut i: usize = 0;
    while i < clients.len()
        invariant
            sent == consumption_fields(*update, data@),
            clients@.len() == old(clients)@.len(),
            i <= clients@.len(),
            taken@.len() == i,
            forall|k: int|
                0 <= k < i ==> sendings(#[trigger] clients@[k]) == sendings(old(clients)@[k]).push(
                    Sending { event: sent, taken: taken@[k] },
                ),
            forall|k: int| i <= k < clients@.len() ==> #[trigger] clients@[k] == old(clients)@[k],
        decreases clients@.len() - i,
    {
        let event = consumption_event(update, data.clone());
        let accepted = send_event(&mut clients[i], event);
        taken.push(accepted);
        i = i + 1;
    }
    let gone = disconnected_clients(&taken);
    proof {
        assert forall|k: int| 0 <= k < gone@.len() implies gone@[k] < clients@.len() by {
            assert(listed(gone@, gone@[k] as int));
        }
        assert forall|k: int| 0 <= k < clients@.len() implies ({
            let before = sendings(old(clients)@[k]);
            let after = sendings(#[trigger] clients@[k]);
            &&& after.drop_last() == before
            &&& after.last().taken == !gone@.contains(k as usize)
        }) by {
            lemma_listed_is_contained(gone@, k as usize);
            assert(sendings(clients@[k]).drop_last() =~= sendings(old(clients)@[k]));
        }
    }
    gone
}

/// Makes an update known, out of how it was turned into text: it is kept for clients that are
/// yet to come and sent to those that are there, and the clients whose channel did not take it
/// are listed. An update that could not be turned into text is neither kept nor sent.
pub fn publish<E>(
    update: ConsumptionUpdate,
    text: Result<String, E>,
    cache: &mut UpdateCache,
    clients: &mut Vec<UnboundedSender<Result<Event, Infallible>>>,
) -> (outcome: Result<Vec<usize>, E>)
    requires
        old(cache).wf(),
    ensures
        final(cache).wf(),
        match text {
            Err(error) => {
                &&& outcome == Err::<Vec<usize>, E>(error)
                &&& final(cache)@ == old(cache)@
                &&& *final(clients) == *old(clients)
            },
            Ok(data) => {
                &&& outcome matches Ok(gone)
                &&& final(cache)@ == old(cache)@.insert(update.para_id, update)
                &&& told(old(clients)@, final(clients)@, gone@, consumption_fields(update, data@))
                &&& final(cache)@.contains_key(update.para_id)
                &&& final(cache)@[update.para_id] == update
                &&& forall|other: u32|
                    other != update.para_id ==> (#[trigger] final(cache)@.contains_key(other)
                        == old(cache)@.contains_key(other)) && (old(cache)@.contains_key(other)
                        ==> final(cache)@[other] == old(cache)@[other])
                &&& final(clients)@.len() == old(clients)@.len()
                &&& forall|i: int, j: int| 0 <= i < j < gone@.len() ==> gone@[i] < gone@[j]
                &&& forall|k: int| 0 <= k < gone@.len() ==> gone@[k] < old(clients)@.len()
                &&& forall|i: int|
                    0 <= i < old(clients)@.len() ==> {
                        let before = sendings(old(clients)@[i]);
                        let after = sendings(#[trigger] final(clients)@[i]);
                        &&& after.len() == before.len() + 1
                        &&& after.drop_last() == before
                        &&& after.last().event.id == crate::text::decimal(update.para_id as nat)
                            + seq!['-'] + crate::text::decimal(update.block_number as nat)
                        &&& after.last().event.event == "consumptionUpdate"@
                        &&& after.last().event.data == data@
                        &&& after.last().taken == !gone@.contains(i as usize)
                    }
            },
        },
{
    match text {
        Err(error) => Err(error),
        Ok(data) => {
            let gone = broadcast(clients, &update, &data);
            cache.store(update);
            Ok(gone)
        },
    }
}

/// The events that tell of `updates`, whose texts are `data`.
pub open spec fn consumption_events(
    updates: Seq<&ConsumptionUpdate>,
    data: Seq<String>,
) -> Seq<EventFields> {
    Seq::new(updates.len(), |i: int| consumption_fields(*updates[i], data[i]@))
}

/// Whether `events` were sent to a client, each once and in their order, after all that it was
/// sent before.
pub open spec fn handed(
    before: UnboundedSender<Result<Event, Infallible>>,
    after: UnboundedSender<Result<Event, Infallible>>,
    events: Seq<EventFields>,
) -> bool {
    let earlier = sendings(before);
    let all = sendings(after);
    &&& all.len() == earlier.len() + events.len()
    &&& forall|i: int| 0 <= i < earlier.len() ==> #[trigger] all[i] == earlier[i]
    &&& forall|i: int| 0 <= i < events.len() ==> all[earlier.len() + i].event == #[trigger] events[i]
}

/// Sends a client that has just come the events that tell of `updates`, one for each and in
/// their order. What its channel does not take is passed over.
pub fn replay(
    client: &mut UnboundedSender<Result<Event, Infallible>>,
    updates: &Vec<&ConsumptionUpdate>,
    data: &Vec<String>,
)
    requires
        data@.len() == updates@.len(),
    ensures
        handed(*old(client), *final(client), consumption_events(updates@, data@)),
        sendings(*final(client)).len() == sendings(*old(client)).len() + updates@.len(),
        sendings(*final(client)).take(sendings(*old(client)).len() as int) == sendings(
            *old(client),
        ),
        forall|j: int|
            sendings(*old(client)).len() <= j < sendings(*final(client)).len() ==> {
                let sent = (#[trigger] sendings(*final(client))[j]).event;
                let i = j - sendings(*old(client)).len();
                &&& sent.id == crate::text::decimal(updates@[i].para_id as nat) + seq!['-']
                    + crate::text::decimal(updates@[i].block_number as nat)
                &&& sent.event == "consumptionUpdate"@
                &&& sent.data == data@[i]@
            },
{
    let ghost events = consumption_events(updates@, data@);
    let mut i: usize = 0;
    while i < updates.len()
        invariant
            events == consumption_events(updates@, data@),
            data@.len() == updates@.len(),
            i <= updates@.len(),
            handed(*old(client), *client, events.take(i as int)),
        decreases updates@.len() - i,
    {
        let ghost before = *client;
        let event = consumption_event(updates[i], data[i].clone());
        send_event(client, event);
        proof {
            let sent = events.take(i + 1);
            let earlier = sendings(*old(client));
            assert forall|k: int| 0 <= k < sent.len() implies sendings(*client)[earlier.len()
                + k].event == #[trigger] sent[k] by {
                if k < i {
                    assert(events.take(i as int)[k] == sent[k]);
                    assert(sendings(before)[earlier.len() + k].event == sent[k]);
                }
            }
        }
        i = i + 1;
    }
    assert(events.take(i as int) =~= events);
    proof {
        let earlier = sendings(*old(client));
        assert(sendings(*client).take(earlier.len() as int) =~= earlier);
        assert forall|j: int| earlier.len() <= j < sendings(*client).len() implies (
        #[trigger] sendings(*client)[j]).event == consumption_fields(
            *updates@[j - earlier.len()],
            data@[j - earlier.len()]@,
        ) by {
            let k = j - earlier.len();
            assert(sendings(*client)[earlier.len() + k].event == events[k]);
        }
    }
}

/// Takes in a client that has just come: it is sent the events that tell of `updates`, and from
/// then on belongs to the clients. No other client is sent anything.
pub fn welcome(
    clients: &mut Vec<UnboundedSender<Result<Event, Infallible>>>,
    client: UnboundedSender<Result<Event, Infallible>>,
    updates: &Vec<&ConsumptionUpdate>,
    data: &Vec<String>,
)
    requires
        data@.len() == updates@.len(),
    ensures
        final(clients)@.len() == old(clients)@.len() + 1,
        final(clients)@.drop_last() == old(clients)@,
        handed(client, final(clients)@.last(), consumption_events(updates@, data@)),
        sendings(final(clients)@.last()).len() == sendings(client).len() + updates@.len(),
        sendings(final(clients)@.last()).take(sendings(client).len() as int) == sendings(client),
        forall|j: int|
            sendings(client).len() <= j < sendings(final(clients)@.last()).len() ==> {
                let sent = (#[trigger] sendings(final(clients)@.last())[j]).event;
                let i = j - sendings(client).len();
                &&& sent.id == crate::text::decimal(updates@[i].para_id as nat) + seq!['-']
                    + crate::text::decimal(updates@[i].block_number as nat)
                &&& sent.event == "consumptionUpdate"@
                &&& sent.data == data@[i]@
            },
{
    let mut newcomer = client;
    replay(&mut newcomer, updates, data);
    clients.push(newcomer);
    assert(clients@.drop_last() =~= old(clients)@);
    assert(clients@.last() == newcomer);
}

/// What is left of `clients` when the positions in `gone` are removed one by one, from the
/// last to the first.
pub open spec fn removed_in_turn<T>(clients: Seq<T>, gone: Seq<usize>) -> Seq<T>
    decreases gone.len(),
{
    if gone.len() == 0 {
        clients
    } else {
        removed_in_turn(clients.remove(gone.last() as int), gone.drop_last())
    }
}

/// Whether there is a client to remove at each of those steps.
pub open spec fn removable(len: int, gone: Seq<usize>) -> bool
    decreases gone.len(),
{
    gone.len() == 0 || (gone.last() < len && removable(len - 1, gone.drop_last()))
}

/// The clients at positions that are not in `gone`, in order.
pub open spec fn without<T>(clients: Seq<T>, gone: Seq<usize>) -> Seq<T>
    decreases clients.len(),
{
    if clients.len() == 0 {
        Seq::empty()
    } else {
        let earlier = without(clients.drop_last(), gone);
        if listed(gone, clients.len() - 1) {
            earlier
        } else {
            earlier.push(clients.last())
        }
    }
}

/// Removes the clients at the positions in `disconnected`, from the last to the first.
pub fn remove_disconnected_clients<T>(clients: &mut Vec<T>, disconnected: &Vec<usize>)
    requires
        removable(old(clients)@.len() as int, disconnected@),
    ensures
        final(clients)@ == removed_in_turn(old(clients)@, disconnected@),
        increasing(disconnected@) ==> final(clients)@ == without(old(clients)@, disconnected@),
        final(clients)@.len() == old(clients)@.len() - disconnected@.len(),
{
    let mut i: usize = disconnected.len();
    assert(disconnected@.take(i as int) =~= disconnected@);
    while i > 0
        invariant
            i <= disconnected@.len(),
            removable(clients@.len() as int, disconnected@.take(i as int)),
            removed_in_turn(clients@, disconnected@.take(i as int)) == removed_in_turn(
                old(clients)@,
                disconnected@,
            ),
        decreases i,
    {
        assert(disconnected@.take(i as int).drop_last() =~= disconnected@.take(i - 1));
        i = i - 1;
        clients.remove(disconnected[i]);
    }
    proof {
        lemma_removed_count(old(clients)@, disconnected@);
        if increasing(disconnected@) {
            lemma_removed_is_without(old(clients)@, disconnected@);
        }
    }
}

/// Positions of clients that are listed in increasing order can all be removed.
pub proof fn lemma_increasing_removable(len: int, gone: Seq<usize>)
    requires
        increasing(gone),
        forall|k: int| 0 <= k < gone.len() ==> gone[k] < len,
    ensures
        removable(len, gone),
    decreases gone.len(),
{
    if gone.len() > 0 {
        let rest = gone.drop_last();
        assert forall|k: int| 0 <= k < rest.len() implies rest[k] < len - 1 by {
            assert(gone[k] < gone[gone.len() - 1]);
        }
        lemma_increasing_removable(len - 1, rest);
    }
}

/// Removing listed clients one by one removes exactly the listed ones: all others stay, in
/// their order.
pub proof fn lemma_removed_is_without<T>(clients: Seq<T>, gone: Seq<usize>)
    requires
        increasing(gone),
        removable(clients.len() as int, gone),
    ensures
        removed_in_turn(clients, gone) == without(clients, gone),
    decreases gone.len(),
{
    if gone.len() == 0 {
        lemma_without_none(clients, gone);
    } else {
        lemma_removed_is_without(clients.remove(gone.last() as int), gone.drop_last());
        lemma_without_last(clients, gone);
    }
}

proof fn lemma_without_none<T>(clients: Seq<T>, gone: Seq<usize>)
    requires
        gone.len() == 0,
    ensures
        without(clients, gone) == clients,
    decreases clients.len(),
{
    if clients.len() > 0 {
        lemma_without_none(clients.drop_last(), gone);
        assert(clients.drop_last().push(clients.last()) =~= clients);
    } else {
        assert(clients =~= Seq::empty());
    }
}

/// Positions beyond the clients do not matter.
proof fn lemma_without_beyond<T>(clients: Seq<T>, gone: Seq<usize>)
    requires
        gone.len() > 0,
        gone.last() >= clients.len(),
    ensures
        without(clients, gone) == without(clients, gone.drop_last()),
    decreases clients.len(),
{
    if clients.len() > 0 {
        lemma_without_beyond(clients.drop_last(), gone);
        lemma_listed_drop_last(gone, clients.len() - 1);
    }
}

proof fn lemma_listed_drop_last(gone: Seq<usize>, i: int)
    requires
        gone.len() > 0,
        gone.last() != i,
    ensures
        listed(gone, i) == listed(gone.drop_last(), i),
{
    let rest = gone.drop_last();
    if listed(gone, i) {
        let k = choose|k: int| 0 <= k < gone.len() && gone[k] == i;
        assert(rest[k] == i);
    }
    if listed(rest, i) {
        let k = choose|k: int| 0 <= k < rest.len() && rest[k] == i;
        assert(gone[k] == i);
    }
}

proof fn lemma_without_last<T>(clients: Seq<T>, gone: Seq<usize>)
    requires
        increasing(gone),
        gone.len() > 0,
        gone.last() < clients.len(),
    ensures
        without(clients, gone) == without(clients.remove(gone.last() as int), gone.drop_last()),
    decreases clients.len(),
{
    let m = gone.last() as int;
    let rest = gone.drop_last();
    let left = clients.remove(m);
    let end = clients.len() - 1;
    if m == end {
        assert(gone[gone.len() - 1] == end);
        assert(listed(gone, end));
        assert(left =~= clients.drop_last());
        lemma_without_beyond(clients.drop_last(), gone);
    } else {
        assert(!listed(gone, end)) by {
            if listed(gone, end) {
                let k = choose|k: int| 0 <= k < gone.len() && gone[k] == end;
                assert(gone[k] <= gone[gone.len() - 1]);
            }
        }
        assert(!listed(rest, end - 1)) by {
            if listed(rest, end - 1) {
                let k = choose|k: int| 0 <= k < rest.len() && rest[k] == end - 1;
                assert(gone[k] < gone[gone.len() - 1]);
            }
        }
        lemma_without_last(clients.drop_last(), gone);
        assert(left.drop_last() =~= clients.drop_last().remove(m));
        assert(left.last() == clients.last());
    }
}

/// The clients that are still connected, in order.
pub open spec fn still_connected<T>(clients: Seq<T>, connected: Seq<bool>) -> Seq<T>
    decreases clients.len(),
{
    if clients.len() == 0 {
        Seq::empty()
    } else {
        let earlier = still_connected(clients.drop_last(), connected);
        if connected[clients.len() - 1] {
            earlier.push(clients.last())
        } else {
            earlier
        }
    }
}

/// Where a list of clients was sent an event and the clients that did not take it are removed
/// from that same list, the clients that took it stay, in their order, and no others.
pub proof fn lemma_removal_keeps_connected<T>(
    clients: Seq<T>,
    taken: Seq<bool>,
    gone: Seq<usize>,
)
    requires
        taken.len() == clients.len(),
        increasing(gone),
        forall|i: int| #[trigger] listed(gone, i) <==> 0 <= i < taken.len() && !taken[i],
    ensures
        removable(clients.len() as int, gone),
        removed_in_turn(clients, gone) == still_connected(clients, taken),
{
    assert forall|k: int| 0 <= k < gone.len() implies gone[k] < clients.len() by {
        assert(listed(gone, gone[k] as int));
    }
    lemma_increasing_removable(clients.len() as int, gone);
    lemma_removed_is_without(clients, gone);
    lemma_without_is_connected(clients, taken, gone);
}

proof fn lemma_without_is_connected<T>(clients: Seq<T>, taken: Seq<bool>, gone: Seq<usize>)
    requires
        taken.len() >= clients.len(),
        forall|i: int| #[trigger] listed(gone, i) <==> 0 <= i < taken.len() && !taken[i],
    ensures
        without(clients, gone) == still_connected(clients, taken),
    decreases clients.len(),
{
    if clients.len() > 0 {
        lemma_without_is_connected(clients.drop_last(), taken, gone);
    }
}

/// Keeps the clients that are still connected, in their order.
pub fn retain_connected<T>(clients: &mut Vec<T>, connected: &Vec<bool>)
    requires
        connected@.len() == old(clients)@.len(),
    ensures
        final(clients)@ == still_connected(old(clients)@, connected@),
{
    let gone = disconnected_clients(connected);
    proof {
        lemma_removal_keeps_connected(clients@, connected@, gone@);
    }
    remove_disconnected_clients(clients, &gone);
}

/// A position is listed exactly where it is among the listed numbers.
pub proof fn lemma_listed_is_contained(gone: Seq<usize>, i: usize)
    ensures
        listed(gone, i as int) <==> gone.contains(i),
{
    if listed(gone, i as int) {
        let k = choose|k: int| 0 <= k < gone.len() && gone[k] == i as int;
        assert(gone[k] == i);
    }
    if gone.contains(i) {
        let k = choose|k: int| 0 <= k < gone.len() && gone[k] == i;
        assert(gone[k] == i as int);
    }
}

/// The event of an update has its own name, whatever the update tells of, carries the text that
/// was made of the update and nothing else, and its identifier is the parachain, a dash and the
/// block number.
pub proof fn lemma_event_of_every_update(update: ConsumptionUpdate, data: Seq<char>)
    ensures
        consumption_fields(update, data).event == "consumptionUpdate"@,
        consumption_fields(update, data).data == data,
        consumption_fields(update, data).id == crate::text::decimal(update.para_id as nat)
            + seq!['-'] + crate::text::decimal(update.block_number as nat),
{
}

/// All events have the same name, and two events that are alike tell of the same block of the
/// same parachain in the same words.
pub proof fn lemma_events_tell_updates_apart(
    a: ConsumptionUpdate,
    data_a: Seq<char>,
    b: ConsumptionUpdate,
    data_b: Seq<char>,
)
    ensures
        consumption_fields(a, data_a).event == consumption_fields(b, data_b).event,
        consumption_fields(a, data_a) == consumption_fields(b, data_b) ==> {
            &&& a.para_id == b.para_id
            &&& a.block_number == b.block_number
            &&& data_a == data_b
        },
{
    if consumption_fields(a, data_a) == consumption_fields(b, data_b) {
        crate::text::lemma_event_id_unique(
            a.para_id as nat,
            a.block_number as nat,
            b.para_id as nat,
            b.block_number as nat,
        );
    }
}

/// An event is sent with the three texts that it was made with, each in its own field.
pub proof fn lemma_event_fields_in_place(event: ClientEvent)
    ensures
        event@.id == event.id@,
        event@.event == event.event@,
        event@.data == event.data@,
{
}

/// There is one replayed event for each update, in the order of the updates: it has the name of
/// all events and carries the text of its own update.
pub proof fn lemma_one_event_for_each_update(
    updates: Seq<&ConsumptionUpdate>,
    data: Seq<String>,
    i: int,
)
    requires
        data.len() == updates.len(),
        0 <= i < updates.len(),
    ensures
        consumption_events(updates, data).len() == updates.len(),
        consumption_events(updates, data)[i].event == "consumptionUpdate"@,
        consumption_events(updates, data)[i].data == data[i]@,
        consumption_events(updates, data)[i].id == crate::text::decimal(
            updates[i].para_id as nat,
        ) + seq!['-'] + crate::text::decimal(updates[i].block_number as nat),
{
}

/// Where clients were told of an event, every client was sent it once and nothing else, whether
/// or not it is listed, and it is listed exactly where its channel did not take it.
pub proof fn lemma_told_one_and_all(
    before: Seq<UnboundedSender<Result<Event, Infallible>>>,
    after: Seq<UnboundedSender<Result<Event, Infallible>>>,
    gone: Seq<usize>,
    event: EventFields,
    i: usize,
)
    requires
        told(before, after, gone, event),
        i < before.len(),
    ensures
        after.len() == before.len(),
        sendings(after[i as int]).len() == sendings(before[i as int]).len() + 1,
        sendings(after[i as int]).drop_last() == sendings(before[i as int]),
        sendings(after[i as int]).last().event == event,
        gone.contains(i) <==> !sendings(after[i as int]).last().taken,
{
    lemma_listed_is_contained(gone, i);
    assert(sendings(after[i as int]) == sendings(before[i as int]).push(
        Sending { event, taken: !listed(gone, i as int) },
    ));
    assert(sendings(after[i as int]).drop_last() =~= sendings(before[i as int]));
}

/// Where events were handed to a client, it was sent just these, in their order, and what it was
/// sent before still stands.
pub proof fn lemma_handed_in_order(
    before: UnboundedSender<Result<Event, Infallible>>,
    after: UnboundedSender<Result<Event, Infallible>>,
    events: Seq<EventFields>,
)
    requires
        handed(before, after, events),
    ensures
        sendings(after).take(sendings(before).len() as int) == sendings(before),
        sendings(after).skip(sendings(before).len() as int).map_values(
            |sending: Sending| sending.event,
        ) == events,
{
    let earlier = sendings(before);
    assert(sendings(after).take(earlier.len() as int) =~= earlier);
    let new_events = sendings(after).skip(earlier.len() as int).map_values(
        |sending: Sending| sending.event,
    );
    assert forall|i: int| 0 <= i < events.len() implies new_events[i] == events[i] by {
        assert(sendings(after)[earlier.len() + i].event == events[i]);
    }
    assert(new_events =~= events);
}

proof fn lemma_removed_count<T>(clients: Seq<T>, gone: Seq<usize>)
    requires
        removable(clients.len() as int, gone),
    ensures
        removed_in_turn(clients, gone).len() == clients.len() - gone.len(),
    decreases gone.len(),
{
    if gone.len() > 0 {
        lemma_removed_count(clients.remove(gone.last() as int), gone.drop_last());
    }
}

/// Nothing is removed where nothing is listed, and a position that is listed last is removed
/// before all others.
pub proof fn lemma_last_listed_goes_first<T>(clients: Seq<T>, gone: Seq<usize>, position: usize)
    requires
        position < clients.len(),
    ensures
        removed_in_turn(clients, Seq::<usize>::empty()) == clients,
        removed_in_turn(clients, gone.push(position)) == removed_in_turn(
            clients.remove(position as int),
            gone,
        ),
        removable(clients.len() as int, Seq::<usize>::empty()),
        removable(clients.len() as int, gone.push(position)) == removable(
            clients.len() - 1,
            gone,
        ),
{
    assert(gone.push(position).drop_last() =~= gone);
}

/// The number of flags before `i` that are set.
pub open spec fn set_before(flags: Seq<bool>, i: int) -> nat
    decreases i,
{
    if i <= 0 {
        0
    } else {
        set_before(flags, i - 1) + if flags[i - 1] {
            1nat
        } else {
            0nat
        }
    }
}

/// Of the clients, as many are left as are still connected, and a client that is stands behind
/// all connected clients that stood before it, and behind no others.
pub proof fn lemma_connected_keep_their_order<T>(clients: Seq<T>, connected: Seq<bool>, i: int)
    requires
        connected.len() >= clients.len(),
        0 <= i < clients.len(),
    ensures
        still_connected(clients, connected).len() == set_before(connected, clients.len() as int),
        connected[i] ==> set_before(connected, i) < still_connected(clients, connected).len(),
        connected[i] ==> still_connected(clients, connected)[set_before(connected, i) as int]
            == clients[i],
    decreases clients.len(),
{
    let earlier = clients.drop_last();
    lemma_connected_count(earlier, connected);
    if i < clients.len() - 1 {
        lemma_connected_keep_their_order(earlier, connected, i);
    }
}

proof fn lemma_connected_count<T>(clients: Seq<T>, connected: Seq<bool>)
    requires
        connected.len() >= clients.len(),
    ensures
        still_connected(clients, connected).len() == set_before(connected, clients.len() as int),
    decreases clients.len(),
{
    if clients.len() > 0 {
        lemma_connected_count(clients.drop_last(), connected);
    }
}

/// Where clients are removed by their positions, in increasing order, a client whose position is
/// not among them stays, and stands behind all that stay and stood before it.
pub proof fn lemma_unlisted_keep_their_order<T>(clients: Seq<T>, gone: Seq<usize>, i: usize)
    requires
        clients.len() <= usize::MAX,
        forall|a: int, b: int| 0 <= a < b < gone.len() ==> gone[a] < gone[b],
        forall|a: int| 0 <= a < gone.len() ==> gone[a] < clients.len(),
        i < clients.len(),
        !gone.contains(i),
    ensures
        ({
            let stays = Seq::new(clients.len(), |k: int| !gone.contains(k as usize));
            let left = removed_in_turn(clients, gone);
            &&& removable(clients.len() as int, gone)
            &&& left.len() == clients.len() - gone.len()
            &&& set_before(stays, i as int) < left.len()
            &&& left[set_before(stays, i as int) as int] == clients[i as int]
        }),
{
    let stays = Seq::new(clients.len(), |k: int| !gone.contains(k as usize));
    assert(increasing(gone));
    assert forall|k: int| #[trigger] listed(gone, k) <==> 0 <= k < stays.len() && !stays[k] by {
        if 0 <= k < stays.len() {
            lemma_listed_is_contained(gone, k as usize);
        }
    }
    lemma_removal_keeps_connected(clients, stays, gone);
    lemma_removed_count(clients, gone);
    lemma_connected_keep_their_order(clients, stays, i as int);
}

/// The list of clients is waited for ten seconds, which is less than what a block is waited for:
/// clients that are gone do not hold up the blocks of a parachain until they time out.
pub proof fn lemma_removal_gives_up_before_blocks_do()
    ensures
        REMOVE_TIMEOUT_SECS == 10,
        REMOVE_TIMEOUT_SECS < crate::subscription::BLOCK_TIMEOUT_SECS,
{
}

} // verus!
