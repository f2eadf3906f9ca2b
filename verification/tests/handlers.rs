use challenges::digits::to_decimal;
use challenges::echo;
use challenges::envelope::Message;
use challenges::errors::NodeError;
use challenges::generate;
use challenges::node;

#[test]
fn echo_handshake_is_acknowledged() {
    let mut handler = echo::EchoHandler::new();
    let out = handler
        .handle(Message {
            src: "c1".to_string(),
            dest: "n5".to_string(),
            body: echo::Request::Init {
                msg_id: 4,
                node_id: "n5".to_string(),
                node_ids: vec!["n5".to_string()],
            },
        })
        .unwrap();
    assert_eq!(out.len(), 1);
    assert_eq!(out[0].src, "n5");
    assert_eq!(out[0].dest, "c1");
    assert!(matches!(out[0].body, echo::Response::InitOk { msg_id: 1, in_reply_to: 4 }));
}

#[test]
fn echo_repeats_the_text_verbatim() {
    let mut handler = echo::EchoHandler::new();
    handler
        .handle(Message {
            src: "c1".to_string(),
            dest: "n5".to_string(),
            body: echo::Request::Init {
                msg_id: 1,
                node_id: "n5".to_string(),
                node_ids: vec![],
            },
        })
        .unwrap();
    let out = handler
        .handle(Message {
            src: "c1".to_string(),
            dest: "n5".to_string(),
            body: echo::Request::Echo { msg_id: 2, echo: "please echo 35".to_string() },
        })
        .unwrap();
    assert_eq!(out.len(), 1);
    match &out[0].body {
        echo::Response::EchoOk { msg_id, in_reply_to, echo } => {
            assert_eq!((*msg_id, *in_reply_to), (2, 2));
            assert_eq!(echo, "please echo 35");
        }
        _ => panic!("expected an echo_ok"),
    }
}

#[test]
fn generated_ids_carry_label_and_counter() {
    let mut handler = generate::GeneratorHandler::new();
    handler
        .handle(Message {
            src: "c1".to_string(),
            dest: "n9".to_string(),
            body: generate::Request::Init {
                msg_id: 1,
                node_id: "n9".to_string(),
                node_ids: vec![],
            },
        })
        .unwrap();
    let out = handler
        .handle(Message {
            src: "c1".to_string(),
            dest: "n9".to_string(),
            body: generate::Request::Generate { msg_id: 5 },
        })
        .unwrap();
    assert_eq!(out.len(), 1);
    match &out[0].body {
        generate::Response::GenerateOk { in_reply_to, msg_id, id } => {
            assert_eq!((*in_reply_to, *msg_id), (5, 2));
            assert_eq!(id, "n9-2");
        }
        _ => panic!("expected a generate_ok"),
    }
}

#[test]
fn decimal_rendering_is_exact() {
    assert_eq!(to_decimal(0), "0");
    assert_eq!(to_decimal(7), "7");
    assert_eq!(to_decimal(10), "10");
    assert_eq!(to_decimal(907), "907");
    assert_eq!(to_decimal(18446744073709551615), "18446744073709551615");
}

#[test]
fn node_answers_echoes_with_fresh_ids() {
    let mut n = node::Node::new();
    let first = n
        .handle(Message {
            src: "c1".to_string(),
            dest: "n3".to_string(),
            body: node::Request::Init {
                msg_id: 1,
                node_id: "n3".to_string(),
                node_ids: vec!["n3".to_string()],
            },
        })
        .unwrap();
    assert_eq!(first.src, "n3");
    assert_eq!(first.dest, "c1");
    assert!(matches!(first.body, node::Response::InitOk { in_reply_to: 1 }));
    let second = n
        .handle(Message {
            src: "c1".to_string(),
            dest: "n3".to_string(),
            body: node::Request::Echo { msg_id: 9, echo: "knock".to_string() },
        })
        .unwrap();
    match &second.body {
        node::Response::EchoOk { msg_id, in_reply_to, echo } => {
            assert_eq!((*msg_id, *in_reply_to), (2, 9));
            assert_eq!(echo, "knock");
        }
        _ => panic!("expected an echo_ok"),
    }
}

#[test]
fn node_refuses_a_stray_init_ok() {
    let mut n = node::Node::new();
    let r = n.handle(Message {
        src: "c1".to_string(),
        dest: "n3".to_string(),
        body: node::Request::InitOk { in_reply_to: 1 },
    });
    assert!(matches!(r, Err(NodeError::ProtocolViolation)));
}

#[test]
fn error_texts_name_the_failure() {
    assert_eq!(NodeError::Transport.as_str(), "stream i/o failure");
    assert_eq!(NodeError::MalformedEnvelope.as_str(), "malformed envelope");
    assert_eq!(NodeError::ProtocolViolation.as_str(), "protocol violation");
    assert_eq!(NodeError::InternalInvariant.as_str(), "internal invariant violated");
}
