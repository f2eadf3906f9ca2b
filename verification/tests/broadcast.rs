use challenges::broadcast::{BroadcastHandler, Request, Response};
use challenges::envelope::Message;
use challenges::errors::NodeError;

fn envelope(src: &str, dest: &str, body: Request) -> Message<Request> {
    Message { src: src.to_string(), dest: dest.to_string(), body }
}

fn init_n1(handler: &mut BroadcastHandler) {
    let out = handler
        .handle(envelope(
            "c1",
            "n1",
            Request::Init {
                msg_id: 1,
                node_id: "n1".to_string(),
                node_ids: vec!["n1".to_string(), "n2".to_string()],
            },
        ))
        .unwrap();
    assert_eq!(out.len(), 1);
}

fn two_node_topology() -> Vec<(String, Vec<String>)> {
    vec![
        ("n1".to_string(), vec!["n2".to_string()]),
        ("n2".to_string(), vec!["n1".to_string()]),
    ]
}

#[test]
fn init_earns_init_ok_in_reply_to_one() {
    // Scenario: the very first envelope is the handshake.
    let mut handler = BroadcastHandler::new();
    let out = handler
        .handle(envelope(
            "c1",
            "n1",
            Request::Init {
                msg_id: 1,
                node_id: "n1".to_string(),
                node_ids: vec!["n1".to_string(), "n2".to_string()],
            },
        ))
        .unwrap();
    assert_eq!(out.len(), 1);
    assert_eq!(out[0].src, "n1");
    assert_eq!(out[0].dest, "c1");
    assert!(matches!(out[0].body, Response::InitOk { msg_id: 1, in_reply_to: 1 }));
}

#[test]
fn message_before_init_is_fatal() {
    let mut handler = BroadcastHandler::new();
    let r = handler.handle(envelope("c1", "n1", Request::Read { msg_id: 1 }));
    assert!(matches!(r, Err(NodeError::ProtocolViolation)));
}

#[test]
fn topology_is_acknowledged() {
    let mut handler = BroadcastHandler::new();
    init_n1(&mut handler);
    let out = handler
        .handle(envelope("c1", "n1", Request::Topology { msg_id: 77, topology: two_node_topology() }))
        .unwrap();
    assert_eq!(out.len(), 1);
    assert_eq!(out[0].dest, "c1");
    assert!(matches!(out[0].body, Response::TopologyOk { msg_id: 2, in_reply_to: 77 }));
}

#[test]
fn no_broadcast_back_to_the_sender() {
    // Scenario: n2 is n1's only neighbor and also the sender, so the
    // flood step sends nothing beyond the acknowledgment.
    let mut handler = BroadcastHandler::new();
    init_n1(&mut handler);
    handler
        .handle(envelope("c1", "n1", Request::Topology { msg_id: 2, topology: two_node_topology() }))
        .unwrap();
    let out = handler
        .handle(envelope(
            "n2",
            "n1",
            Request::Broadcast { msg_id: 9, message: 42, idempotency_key: None },
        ))
        .unwrap();
    assert_eq!(out.len(), 1);
    assert_eq!(out[0].dest, "n2");
    assert!(matches!(out[0].body, Response::BroadcastOk { msg_id: 3, in_reply_to: 9 }));
}

#[test]
fn flood_reaches_every_other_neighbor_in_order() {
    let mut handler = BroadcastHandler::new();
    init_n1(&mut handler);
    let topology = vec![(
        "n1".to_string(),
        vec!["n2".to_string(), "n3".to_string(), "n4".to_string()],
    )];
    handler
        .handle(envelope("c1", "n1", Request::Topology { msg_id: 2, topology }))
        .unwrap();
    let out = handler
        .handle(envelope(
            "n3",
            "n1",
            Request::Broadcast { msg_id: 5, message: 9, idempotency_key: None },
        ))
        .unwrap();
    assert_eq!(out.len(), 3);
    assert!(matches!(out[0].body, Response::BroadcastOk { msg_id: 3, in_reply_to: 5 }));
    assert_eq!(out[0].dest, "n3");
    assert_eq!(out[1].dest, "n2");
    assert!(matches!(out[1].body, Response::Broadcast { msg_id: 3, message: 9, idempotency_key: None }));
    assert_eq!(out[2].dest, "n4");
    assert!(matches!(out[2].body, Response::Broadcast { msg_id: 3, message: 9, idempotency_key: None }));
    for m in &out {
        if matches!(m.body, Response::Broadcast { .. }) {
            assert_ne!(m.dest, "n3".to_string(), "never relayed back to the sender");
        }
        assert_eq!(m.src, "n1");
    }
}

#[test]
fn duplicate_delivery_is_stored_once() {
    // Scenario: two deliveries of 7 from different sources, then a
    // read: the snapshot holds 7 exactly once.
    let mut handler = BroadcastHandler::new();
    init_n1(&mut handler);
    handler
        .handle(envelope(
            "c1",
            "n1",
            Request::Broadcast { msg_id: 2, message: 7, idempotency_key: None },
        ))
        .unwrap();
    handler
        .handle(envelope(
            "c2",
            "n1",
            Request::Broadcast { msg_id: 3, message: 7, idempotency_key: None },
        ))
        .unwrap();
    let out = handler
        .handle(envelope("c1", "n1", Request::Read { msg_id: 4 }))
        .unwrap();
    assert_eq!(out.len(), 1);
    match &out[0].body {
        Response::ReadOk { msg_id, in_reply_to, messages } => {
            assert_eq!(*msg_id, 4);
            assert_eq!(*in_reply_to, 4);
            assert_eq!(messages, &vec![7i64]);
        }
        other => panic!("expected a read_ok, got {:?}", response_tag(other)),
    }
}

#[test]
fn read_returns_every_distinct_value() {
    let mut handler = BroadcastHandler::new();
    init_n1(&mut handler);
    for (i, v) in [(2usize, 5i64), (3, -1), (4, 5), (5, 12)] {
        handler
            .handle(envelope(
                "c1",
                "n1",
                Request::Broadcast { msg_id: i, message: v, idempotency_key: None },
            ))
            .unwrap();
    }
    let out = handler
        .handle(envelope("c9", "n1", Request::Read { msg_id: 42 }))
        .unwrap();
    match &out[0].body {
        Response::ReadOk { messages, .. } => {
            assert_eq!(messages, &vec![5i64, -1, 12]);
        }
        other => panic!("expected a read_ok, got {:?}", response_tag(other)),
    }
}

#[test]
fn outbound_ids_start_at_one_and_strictly_increase() {
    let mut handler = BroadcastHandler::new();
    let mut stamps: Vec<usize> = Vec::new();
    let out = handler
        .handle(envelope(
            "c1",
            "n1",
            Request::Init {
                msg_id: 1,
                node_id: "n1".to_string(),
                node_ids: vec!["n1".to_string()],
            },
        ))
        .unwrap();
    stamps.push(stamp_of(&out[0].body));
    // An incoming acknowledgment earns no reply but still burns an id.
    let silent = handler
        .handle(envelope("n2", "n1", Request::BroadcastOk { msg_id: 8, in_reply_to: 1 }))
        .unwrap();
    assert!(silent.is_empty());
    let out = handler
        .handle(envelope(
            "c1",
            "n1",
            Request::Broadcast { msg_id: 9, message: 3, idempotency_key: None },
        ))
        .unwrap();
    stamps.push(stamp_of(&out[0].body));
    let out = handler
        .handle(envelope("c1", "n1", Request::Read { msg_id: 10 }))
        .unwrap();
    stamps.push(stamp_of(&out[0].body));
    assert_eq!(stamps, vec![1, 3, 4]);
    assert!(stamps.windows(2).all(|w| w[0] < w[1]));
}

#[test]
fn duplicate_value_is_still_relayed() {
    // The flooding policy relays every delivery, duplicates included.
    let mut handler = BroadcastHandler::new();
    init_n1(&mut handler);
    let topology = vec![("n1".to_string(), vec!["n2".to_string()])];
    handler
        .handle(envelope("c1", "n1", Request::Topology { msg_id: 2, topology }))
        .unwrap();
    for round in 0..2 {
        let out = handler
            .handle(envelope(
                "c1",
                "n1",
                Request::Broadcast { msg_id: 7 + round, message: 11, idempotency_key: None },
            ))
            .unwrap();
        assert_eq!(out.len(), 2, "acknowledgment plus one relay, round {round}");
        assert_eq!(out[1].dest, "n2");
    }
}

fn stamp_of(body: &Response) -> usize {
    match body {
        Response::InitOk { msg_id, .. } => *msg_id,
        Response::TopologyOk { msg_id, .. } => *msg_id,
        Response::BroadcastOk { msg_id, .. } => *msg_id,
        Response::ReadOk { msg_id, .. } => *msg_id,
        Response::Broadcast { msg_id, .. } => *msg_id,
    }
}

fn response_tag(body: &Response) -> &'static str {
    match body {
        Response::InitOk { .. } => "init_ok",
        Response::TopologyOk { .. } => "topology_ok",
        Response::BroadcastOk { .. } => "broadcast_ok",
        Response::ReadOk { .. } => "read_ok",
        Response::Broadcast { .. } => "broadcast",
    }
}
