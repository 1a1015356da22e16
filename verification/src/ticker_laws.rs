//! What the ticker is for, said of what the bus replies and what is published.

use crate::network_tree::{
    all_circuits, all_subscribers, network_tree, reply_awaited, request_queued, BusRequest,
    BusResponse, BusStep, PublishedChannels, ReceiveOutcome, SendOutcome, TickEvent, TickStep,
    WsResponse, CIRCUITS_REQUEST,
};
use crate::network_tree as ticker;
use vstd::prelude::*;

verus! {

/// The circuits of a reply are those of its first circuit data, wherever that stands.
pub proof fn circuits_are_those_of_the_first_circuit_data<N, C>(
    responses: Vec<BusResponse<N, C>>,
    i: int,
    circuits: Vec<C>,
    r: Vec<C>,
)
    requires
        call_ensures(all_circuits::<N, C>, (Some(responses),), r),
        0 <= i < responses@.len(),
        responses@[i] == BusResponse::<N, C>::CircuitData(circuits),
        forall|k: int| 0 <= k < i ==> !(#[trigger] responses@[k] is CircuitData),
    ensures
        r@ == circuits@,
{
    let before = responses@.take(i);
    let after = responses@.skip(i + 1);
    assert(responses@ == before.push(responses@[i]) + after);
    ticker::first_circuit_data_counts(before, circuits, after);
}

/// Without circuit data among the responses there are no circuits.
proof fn lemma_no_circuits<N, C>(responses: Seq<BusResponse<N, C>>)
    requires
        forall|k: int| 0 <= k < responses.len() ==> !(#[trigger] responses[k] is CircuitData),
    ensures
        ticker::first_circuits(responses) is None,
    decreases responses.len(),
{
    if responses.len() > 0 {
        assert(!(responses[0] is CircuitData));
        lemma_no_circuits(responses.drop_first());
    }
}

/// A reply without circuit data gives no circuits, and neither does a missing reply.
pub proof fn no_circuit_data_gives_no_circuits<N, C>(
    reply: Option<Vec<BusResponse<N, C>>>,
    r: Vec<C>,
)
    requires
        call_ensures(all_circuits::<N, C>, (reply,), r),
        reply matches Some(responses) ==> forall|k: int|
            0 <= k < responses@.len() ==> !(#[trigger] responses@[k] is CircuitData),
    ensures
        r@.len() == 0,
{
    if let Some(responses) = reply {
        lemma_no_circuits(responses@);
    }
}

/// Subscribers get the circuits of the reply, in one message, also if there are none.
pub proof fn subscribers_get_the_circuits<N, C>(
    reply: Option<Vec<BusResponse<N, C>>>,
    circuits: Vec<C>,
    r: TickStep<N, C>,
)
    requires
        call_ensures(all_circuits::<N, C>, (reply,), circuits),
        call_ensures(all_subscribers::<N, C>, (TickEvent::Replied(reply),), r),
    ensures
        r matches TickStep::Publish(channel, messages) && channel
            == PublishedChannels::NetworkTreeClients && messages@.len() == 1 && (
        messages@[0] matches WsResponse::NetworkTreeClients { data } && data@ == circuits@),
{
}

/// Each tick first asks whether anyone listens to its own channel. If no one does, it ends; if
/// someone does, it makes the request whose reply it publishes.
pub proof fn tick_asks_before_it_requests<N, C>(
    alive: bool,
    tree: TickStep<N, C>,
    tree_request: TickStep<N, C>,
    clients: TickStep<N, C>,
    clients_request: TickStep<N, C>,
)
    requires
        call_ensures(network_tree::<N, C>, (TickEvent::Start,), tree),
        call_ensures(network_tree::<N, C>, (TickEvent::Alive(alive),), tree_request),
        call_ensures(all_subscribers::<N, C>, (TickEvent::Start,), clients),
        call_ensures(all_subscribers::<N, C>, (TickEvent::Alive(alive),), clients_request),
    ensures
        tree == TickStep::<N, C>::Probe(PublishedChannels::NetworkTree),
        clients == TickStep::<N, C>::Probe(PublishedChannels::NetworkTreeClients),
        !alive ==> tree_request is Finished && clients_request is Finished,
        alive ==> tree_request == TickStep::<N, C>::Request(BusRequest::GetFullNetworkMap),
        alive ==> clients_request == TickStep::<N, C>::Request(BusRequest::GetAllCircuits),
        CIRCUITS_REQUEST == BusRequest::GetAllCircuits,
{
}

proof fn lemma_maps_are_filtered<N, C>(responses: Seq<BusResponse<N, C>>)
    ensures
        ticker::network_maps(responses) == responses.filter(
            |response: BusResponse<N, C>| response is NetworkMap,
        ).map_values(|response: BusResponse<N, C>| response->NetworkMap_0),
    decreases responses.len(),
{
    reveal(Seq::filter);
    let is_map = |response: BusResponse<N, C>| response is NetworkMap;
    let map = |response: BusResponse<N, C>| response->NetworkMap_0;
    if responses.len() > 0 {
        let before = responses.drop_last();
        lemma_maps_are_filtered(before);
        if responses.last() is NetworkMap {
            assert(before.filter(is_map).push(responses.last()).map_values(map)
                == before.filter(is_map).map_values(map).push(map(responses.last())));
        }
    } else {
        assert(responses.filter(is_map).map_values(map) == Seq::<N>::empty());
    }
}

/// What is published of a reply to the channel of the network tree: one message for each
/// network map, with that map, in the order of the responses. Without a reply nothing is.
pub proof fn every_network_map_is_published<N, C>(
    reply: Option<Vec<BusResponse<N, C>>>,
    r: TickStep<N, C>,
)
    requires
        call_ensures(network_tree::<N, C>, (TickEvent::Replied(reply),), r),
    ensures
        match reply {
            None => r is Finished,
            Some(responses) => r matches TickStep::Publish(channel, messages) && channel
                == PublishedChannels::NetworkTree && messages@ == responses@.filter(
                |response: BusResponse<N, C>| response is NetworkMap,
            ).map_values(
                |response: BusResponse<N, C>|
                    WsResponse::<N, C>::NetworkTree { data: response->NetworkMap_0 },
            ),
        },
{
    if let Some(responses) = reply {
        lemma_maps_are_filtered(responses@);
        let maps = responses@.filter(|response: BusResponse<N, C>| response is NetworkMap);
        assert(maps.map_values(|response: BusResponse<N, C>| response->NetworkMap_0).map_values(
            |data: N| WsResponse::<N, C>::NetworkTree { data },
        ) == maps.map_values(
            |response: BusResponse<N, C>|
                WsResponse::<N, C>::NetworkTree { data: response->NetworkMap_0 },
        ));
    }
}

/// A request that was queued is waited for. One that was not is given up, with a warning that
/// names the request and says what went wrong.
pub proof fn only_a_queued_request_is_waited_for<R>(
    context: &str,
    outcome: SendOutcome,
    r: BusStep<R>,
)
    requires
        call_ensures(request_queued::<R>, (context, outcome), r),
    ensures
        r is Receive <==> outcome is Sent,
        !(r is Replied),
        outcome matches SendOutcome::Refused(e) ==> (r matches BusStep::Abandon(warning) && warning@
            == context@ + (": failed to send request to bus: "@ + e@)),
        outcome is TimedOut ==> (r matches BusStep::Abandon(warning) && warning@ == context@
            + ": timed out queueing request to bus"@),
{
    if let SendOutcome::Refused(e) = outcome {
        assert(context@ + ": failed to send request to bus: "@ + e@ == context@ + (
        ": failed to send request to bus: "@ + e@));
    }
}

/// A reply that came is handed on as it is. One that did not come is given up, with a warning
/// that names the request and says what went wrong.
pub proof fn reply_is_handed_on<R>(context: &str, outcome: ReceiveOutcome<R>, r: BusStep<R>)
    requires
        call_ensures(reply_awaited::<R>, (context, outcome), r),
    ensures
        !(r is Receive),
        r is Replied <==> outcome is Received,
        outcome matches ReceiveOutcome::Received(reply) ==> r == BusStep::Replied(reply),
        outcome matches ReceiveOutcome::Dropped(e) ==> (r matches BusStep::Abandon(warning)
            && warning@ == context@ + (": failed to receive response from bus: "@ + e@)),
        outcome is TimedOut ==> (r matches BusStep::Abandon(warning) && warning@ == context@
            + ": timed out waiting for bus response"@),
{
    if let ReceiveOutcome::Dropped(e) = outcome {
        assert(context@ + ": failed to receive response from bus: "@ + e@ == context@ + (
        ": failed to receive response from bus: "@ + e@));
    }
}

/// Each request is logged under a name of its own.
pub proof fn requests_have_names(request: BusRequest, r: &'static str)
    requires
        call_ensures(BusRequest::context, (&request,), r),
    ensures
        request is GetFullNetworkMap ==> r@ == "NetworkTree"@,
        request is GetAllCircuits ==> r@ == "AllCircuits"@,
{
}

} // verus!
