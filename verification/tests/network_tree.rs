use lqos_control::network_tree::{
    all_circuits, all_subscribers, network_tree, reply_awaited, request_queued, BusRequest,
    BusResponse, BusStep, PublishedChannels, ReceiveOutcome, SendOutcome, TickEvent, TickStep,
    WsResponse, CIRCUITS_REQUEST, INTERNAL_BUS_TIMEOUT_SECONDS,
};

type Response = BusResponse<&'static str, u32>;
type Event = TickEvent<&'static str, u32>;
type Step = TickStep<&'static str, u32>;

fn mixed() -> Vec<Response> {
    vec![
        BusResponse::Other,
        BusResponse::NetworkMap("first"),
        BusResponse::CircuitData(vec![1, 2]),
        BusResponse::NetworkMap("second"),
        BusResponse::CircuitData(vec![3]),
    ]
}

#[test]
fn every_network_map_is_published_in_order() {
    match network_tree(Event::Replied(Some(mixed()))) {
        Step::Publish(channel, messages) => {
            assert_eq!(channel, PublishedChannels::NetworkTree);
            assert_eq!(
                messages,
                vec![
                    WsResponse::NetworkTree { data: "first" },
                    WsResponse::NetworkTree { data: "second" },
                ]
            );
        }
        other => panic!("unexpected step {other:?}"),
    }
}

#[test]
fn network_tree_is_requested_only_if_someone_listens() {
    assert!(matches!(
        network_tree(Event::Start),
        Step::Probe(PublishedChannels::NetworkTree)
    ));
    assert!(matches!(network_tree(Event::Alive(false)), Step::Finished));
    assert!(matches!(
        network_tree(Event::Alive(true)),
        Step::Request(BusRequest::GetFullNetworkMap)
    ));
    assert!(matches!(network_tree(Event::Replied(None)), Step::Finished));
}

#[test]
fn circuits_are_requested_only_if_someone_listens() {
    assert!(matches!(
        all_subscribers(Event::Start),
        Step::Probe(PublishedChannels::NetworkTreeClients)
    ));
    assert!(matches!(
        all_subscribers(Event::Alive(false)),
        Step::Finished
    ));
    assert!(matches!(
        all_subscribers(Event::Alive(true)),
        Step::Request(BusRequest::GetAllCircuits)
    ));
    assert_eq!(CIRCUITS_REQUEST, BusRequest::GetAllCircuits);
}

#[test]
fn first_circuit_data_counts() {
    assert_eq!(all_circuits(Some(mixed())), vec![1, 2]);
    let none: Vec<Response> = vec![BusResponse::NetworkMap("map"), BusResponse::Other];
    assert_eq!(all_circuits(Some(none)), Vec::<u32>::new());
    assert_eq!(all_circuits::<&'static str, u32>(None), Vec::<u32>::new());
}

#[test]
fn subscribers_get_one_message_even_without_circuits() {
    for (reply, expected) in [(Some(mixed()), vec![1, 2]), (None, Vec::new())] {
        match all_subscribers(Event::Replied(reply)) {
            Step::Publish(channel, messages) => {
                assert_eq!(channel, PublishedChannels::NetworkTreeClients);
                assert_eq!(
                    messages,
                    vec![WsResponse::NetworkTreeClients { data: expected }]
                );
            }
            other => panic!("unexpected step {other:?}"),
        }
    }
}

#[test]
fn failures_of_the_bus_are_described() {
    let abandoned = |step: BusStep<u8>| match step {
        BusStep::Abandon(warning) => warning,
        other => panic!("unexpected step {other:?}"),
    };
    assert_eq!(INTERNAL_BUS_TIMEOUT_SECONDS, 5);
    let context = BusRequest::GetFullNetworkMap.context();
    assert_eq!(
        abandoned(request_queued(
            context,
            SendOutcome::Refused("closed".to_string())
        )),
        "NetworkTree: failed to send request to bus: closed"
    );
    assert_eq!(
        abandoned(request_queued(context, SendOutcome::TimedOut)),
        "NetworkTree: timed out queueing request to bus"
    );
    let context = BusRequest::GetAllCircuits.context();
    assert_eq!(
        abandoned(reply_awaited(
            context,
            ReceiveOutcome::Dropped("RecvError(())".to_string())
        )),
        "AllCircuits: failed to receive response from bus: RecvError(())"
    );
    assert_eq!(
        abandoned(reply_awaited(context, ReceiveOutcome::TimedOut)),
        "AllCircuits: timed out waiting for bus response"
    );
}

#[test]
fn reply_follows_a_request_that_was_sent() {
    assert!(matches!(
        request_queued::<u8>("x", SendOutcome::Sent),
        BusStep::Receive
    ));
    assert!(matches!(
        reply_awaited("x", ReceiveOutcome::Received(7u8)),
        BusStep::Replied(7)
    ));
}
