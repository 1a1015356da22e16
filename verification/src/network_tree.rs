//! The ticker that publishes the network tree and the circuits to web clients.
//!
//! A tick asks whether anyone listens, requests data over the internal bus, and publishes
//! what came back. The asking, requesting and publishing are done elsewhere; each function
//! here takes what is known so far and says what to do next.
//!
//! `N` is a network map and `C` a circuit; both are passed on as they are.

use vstd::prelude::*;

verus! {

/// The seconds that queueing a request, and waiting for its reply, may take each.
pub const INTERNAL_BUS_TIMEOUT_SECONDS: u64 = 5;

/// A channel that clients subscribe to.
#[derive(Clone, Copy, Debug, PartialEq, Eq, Structural)]
pub enum PublishedChannels {
    NetworkTree,
    NetworkTreeClients,
}

/// A request over the internal bus.
#[derive(Clone, Copy, Debug, PartialEq, Eq, Structural)]
pub enum BusRequest {
    GetFullNetworkMap,
    GetAllCircuits,
}

/// A response over the internal bus.
#[derive(Clone, Debug, PartialEq, Eq)]
pub enum BusResponse<N, C> {
    NetworkMap(N),
    CircuitData(Vec<C>),
    /// A response that answers neither request.
    Other,
}

/// A message to clients.
#[derive(Clone, Debug, PartialEq, Eq)]
pub enum WsResponse<N, C> {
    NetworkTree { data: N },
    NetworkTreeClients { data: Vec<C> },
}

/// What came of queueing a request.
#[derive(Debug)]
pub enum SendOutcome {
    Sent,
    /// The bus is closed; the text is that of the error.
    Refused(String),
    TimedOut,
}

/// What came of waiting for a reply.
#[derive(Debug)]
pub enum ReceiveOutcome<R> {
    Received(R),
    /// The reply will never come; the text is that of the error.
    Dropped(String),
    TimedOut,
}

/// What to do next for a request.
#[derive(Debug)]
pub enum BusStep<R> {
    /// Wait for the reply.
    Receive,
    /// Log this warning; there is no reply.
    Abandon(String),
    /// This is the reply.
    Replied(R),
}

/// What is known of a tick so far.
#[derive(Debug)]
pub enum TickEvent<N, C> {
    /// Nothing yet.
    Start,
    /// Whether anyone listens to the channel.
    Alive(bool),
    /// The responses to the request, or `None` if there is no reply.
    Replied(Option<Vec<BusResponse<N, C>>>),
}

/// What to do next in a tick.
#[derive(Debug)]
pub enum TickStep<N, C> {
    /// Ask whether anyone listens to the channel.
    Probe(PublishedChannels),
    /// Make this request.
    Request(BusRequest),
    /// Send these messages to the channel, in order. The tick is then over.
    Publish(PublishedChannels, Vec<WsResponse<N, C>>),
    /// Nothing.
    Finished,
}

/// The request that asks for all circuits.
pub const CIRCUITS_REQUEST: BusRequest = BusRequest::GetAllCircuits;

/// The network maps among the responses, in order.
pub open spec fn network_maps<N, C>(responses: Seq<BusResponse<N, C>>) -> Seq<N>
    decreases responses.len(),
{
    if responses.len() == 0 {
        seq![]
    } else {
        let before = network_maps(responses.drop_last());
        match responses.last() {
            BusResponse::NetworkMap(nodes) => before.push(nodes),
            _ => before,
        }
    }
}

/// The first circuit data among the responses.
pub open spec fn first_circuits<N, C>(responses: Seq<BusResponse<N, C>>) -> Option<Vec<C>>
    decreases responses.len(),
{
    if responses.len() == 0 {
        None
    } else {
        match responses.first() {
            BusResponse::CircuitData(circuits) => Some(circuits),
            _ => first_circuits(responses.drop_first()),
        }
    }
}

/// The circuits of a reply: those of its first circuit data, else none.
pub open spec fn circuits_of<N, C>(reply: Option<Vec<BusResponse<N, C>>>) -> Seq<C> {
    match reply {
        Some(responses) => match first_circuits(responses@) {
            Some(circuits) => circuits@,
            None => seq![],
        },
        None => seq![],
    }
}

/// The name under which a request is logged.
pub open spec fn context_of(request: BusRequest) -> Seq<char> {
    match request {
        BusRequest::GetFullNetworkMap => "NetworkTree"@,
        BusRequest::GetAllCircuits => "AllCircuits"@,
    }
}

impl BusRequest {
    /// The name under which the request is logged.
    pub fn context(&self) -> (r: &'static str)
        ensures
            r@ == context_of(*self),
    {
        match self {
            BusRequest::GetFullNetworkMap => "NetworkTree",
            BusRequest::GetAllCircuits => "AllCircuits",
        }
    }
}

/// Decides what follows the queueing of a request.
pub fn request_queued<R>(context: &str, outcome: SendOutcome) -> (r: BusStep<R>)
    ensures
        match outcome {
            SendOutcome::Sent => r is Receive,
            SendOutcome::Refused(e) => r matches BusStep::Abandon(warning) && warning@ == context@
                + ": failed to send request to bus: "@ + e@,
            SendOutcome::TimedOut => r matches BusStep::Abandon(warning) && warning@ == context@
                + ": timed out queueing request to bus"@,
        },
{
    match outcome {
        SendOutcome::Sent => BusStep::Receive,
        SendOutcome::Refused(e) => {
            let mut warning = context.to_owned();
            warning.append(": failed to send request to bus: ");
            warning.append(e.as_str());
            BusStep::Abandon(warning)
        },
        SendOutcome::TimedOut => {
            let mut warning = context.to_owned();
            warning.append(": timed out queueing request to bus");
            BusStep::Abandon(warning)
        },
    }
}

/// Decides what follows the wait for a reply.
pub fn reply_awaited<R>(context: &str, outcome: ReceiveOutcome<R>) -> (r: BusStep<R>)
    ensures
        match outcome {
            ReceiveOutcome::Received(reply) => r == BusStep::Replied(reply),
            ReceiveOutcome::Dropped(e) => r matches BusStep::Abandon(warning) && warning@
                == context@ + ": failed to receive response from bus: "@ + e@,
            ReceiveOutcome::TimedOut => r matches BusStep::Abandon(warning) && warning@ == context@
                + ": timed out waiting for bus response"@,
        },
{
    match outcome {
        ReceiveOutcome::Received(reply) => BusStep::Replied(reply),
        ReceiveOutcome::Dropped(e) => {
            let mut warning = context.to_owned();
            warning.append(": failed to receive response from bus: ");
            warning.append(e.as_str());
            BusStep::Abandon(warning)
        },
        ReceiveOutcome::TimedOut => {
            let mut warning = context.to_owned();
            warning.append(": timed out waiting for bus response");
            BusStep::Abandon(warning)
        },
    }
}

/// Wraps each network map among the responses in a message.
fn network_tree_messages<N, C>(responses: Vec<BusResponse<N, C>>) -> (r: Vec<WsResponse<N, C>>)
    ensures
        r@ == network_maps(responses@).map_values(|data: N| WsResponse::<N, C>::NetworkTree { data }),
{
    let mut r: Vec<WsResponse<N, C>> = Vec::new();
    let ghost wrap = |data: N| WsResponse::<N, C>::NetworkTree { data };
    assert(network_maps(responses@.take(0)).map_values(wrap) == Seq::<WsResponse<N, C>>::empty());
    for reply in it: responses
        invariant
            it.seq() == responses@,
            wrap == (|data: N| WsResponse::<N, C>::NetworkTree { data }),
            r@ == network_maps(responses@.take(it.index() as int)).map_values(wrap),
    {
        let ghost n = it.index() as int;
        let ghost upto = responses@.take(n + 1);
        assert(upto.drop_last() == responses@.take(n));
        assert(upto.last() == reply);
        let ghost before = r@;
        if let BusResponse::NetworkMap(nodes) = reply {
            r.push(WsResponse::NetworkTree { data: nodes });
            assert(network_maps(responses@.take(n)).push(nodes).map_values(wrap) == before.push(
                wrap(nodes),
            ));
        }
    }
    assert(responses@.take(responses@.len() as int) == responses@);
    r
}

/// Publishes the network tree: if anyone listens, requests the full network map, and sends
/// each map that comes back.
pub fn network_tree<N, C>(event: TickEvent<N, C>) -> (r: TickStep<N, C>)
    ensures
        match event {
            TickEvent::Start => r == TickStep::<N, C>::Probe(PublishedChannels::NetworkTree),
            TickEvent::Alive(alive) => r == if alive {
                TickStep::<N, C>::Request(BusRequest::GetFullNetworkMap)
            } else {
                TickStep::<N, C>::Finished
            },
            TickEvent::Replied(None) => r is Finished,
            TickEvent::Replied(Some(responses)) => r matches TickStep::Publish(channel, messages)
                && channel == PublishedChannels::NetworkTree && messages@ == network_maps(
                responses@,
            ).map_values(|data: N| WsResponse::<N, C>::NetworkTree { data }),
        },
{
    match event {
        TickEvent::Start => TickStep::Probe(PublishedChannels::NetworkTree),
        TickEvent::Alive(alive) => if alive {
            TickStep::Request(BusRequest::GetFullNetworkMap)
        } else {
            TickStep::Finished
        },
        TickEvent::Replied(None) => TickStep::Finished,
        TickEvent::Replied(Some(responses)) => TickStep::Publish(
            PublishedChannels::NetworkTree,
            network_tree_messages(responses),
        ),
    }
}

/// The circuits of a reply to `CIRCUITS_REQUEST`.
pub fn all_circuits<N, C>(reply: Option<Vec<BusResponse<N, C>>>) -> (r: Vec<C>)
    ensures
        r@ == circuits_of(reply),
{
    let responses = match reply {
        Some(responses) => responses,
        None => {
            return Vec::new();
        },
    };
    assert(responses@.skip(0) == responses@);
    for response in it: responses
        invariant
            it.seq() == responses@,
            reply == Some(responses),
            first_circuits(responses@.skip(it.index() as int)) == first_circuits(responses@),
    {
        let ghost rest = responses@.skip(it.index() as int);
        assert(rest.first() == response);
        assert(rest.drop_first() == responses@.skip(it.index() + 1));
        if let BusResponse::CircuitData(circuits) = response {
            return circuits;
        }
    }
    Vec::new()
}

/// Publishes the circuits: if anyone listens, requests all circuits, and sends one message
/// with those that come back, which may be none.
pub fn all_subscribers<N, C>(event: TickEvent<N, C>) -> (r: TickStep<N, C>)
    ensures
        match event {
            TickEvent::Start => r == TickStep::<N, C>::Probe(
                PublishedChannels::NetworkTreeClients,
            ),
            TickEvent::Alive(alive) => r == if alive {
                TickStep::<N, C>::Request(BusRequest::GetAllCircuits)
            } else {
                TickStep::<N, C>::Finished
            },
            TickEvent::Replied(reply) => r matches TickStep::Publish(channel, messages) && channel
                == PublishedChannels::NetworkTreeClients && messages@.len() == 1 && (
            messages@[0] matches WsResponse::NetworkTreeClients { data } && data@ == circuits_of(
                reply,
            )),
        },
{
    match event {
        TickEvent::Start => TickStep::Probe(PublishedChannels::NetworkTreeClients),
        TickEvent::Alive(alive) => if alive {
            TickStep::Request(CIRCUITS_REQUEST)
        } else {
            TickStep::Finished
        },
        TickEvent::Replied(reply) => {
            let data = all_circuits(reply);
            let mut messages: Vec<WsResponse<N, C>> = Vec::new();
            messages.push(WsResponse::NetworkTreeClients { data });
            TickStep::Publish(PublishedChannels::NetworkTreeClients, messages)
        },
    }
}

/// Publishing the maps of two replies in turn is publishing those of both together: each
/// response is handled on its own and their order is kept.
pub proof fn maps_keep_their_order<N, C>(a: Seq<BusResponse<N, C>>, b: Seq<BusResponse<N, C>>)
    ensures
        network_maps(a + b) == network_maps(a) + network_maps(b),
    decreases b.len(),
{
    if b.len() == 0 {
        assert(a + b == a);
    } else {
        assert((a + b).drop_last() == a + b.drop_last());
        assert((a + b).last() == b.last());
        maps_keep_their_order(a, b.drop_last());
    }
}

/// Circuit data after the first is not looked at.
pub proof fn first_circuit_data_counts<N, C>(
    a: Seq<BusResponse<N, C>>,
    circuits: Vec<C>,
    b: Seq<BusResponse<N, C>>,
)
    requires
        forall|i: int| 0 <= i < a.len() ==> !(#[trigger] a[i] is CircuitData),
    ensures
        first_circuits(a.push(BusResponse::CircuitData(circuits)) + b) == Some(circuits),
    decreases a.len(),
{
    let all = a.push(BusResponse::CircuitData(circuits)) + b;
    if a.len() > 0 {
        assert(all.first() == a[0]);
        assert(all.drop_first() == a.drop_first().push(BusResponse::CircuitData(circuits)) + b);
        first_circuit_data_counts(a.drop_first(), circuits, b);
    } else {
        assert(all.first() == BusResponse::<N, C>::CircuitData(circuits));
    }
}

} // verus!
