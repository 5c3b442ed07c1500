use rust_demo::bft_message::{
    Bft_Commit_Message, Bft_Message, Bft_Message_Bytes, Bft_PrePrepare_Message, Bft_Prepare_Message, Bft_Replay,
};
use rust_demo::bft_node::{is_expired, receive_log_line};
use rust_demo::bft_node::{broadcast_frame, Bft_Broadcast_Msg, Bft_Regist_Msg, Bft_Regist_Reply, Btf_Node, Btf_Node_Simple, Node_Action};
use rust_demo::digest::md5_hex;

fn commands(actions: &[Node_Action]) -> Vec<String> {
    actions
        .iter()
        .map(|a| match a {
            Node_Action::Broadcast { msg, .. } => msg.command().to_string(),
            Node_Action::SaveLog { line } => format!("log {}", line),
        })
        .collect()
}

fn primary() -> Btf_Node {
    Btf_Node::start_node("", "8787", "10.3.209.97", "8787", None)
}

#[test]
fn bft_node_create() {
    let node = primary();
    assert_eq!(node.get_node_base().get_node_id(), 1);
    assert_eq!(node.get_view_num(), 1);
    assert!(node.broadcast_targets().is_empty());
}

#[test]
#[allow(non_snake_case)]
fn receiveClientMsg() {
    let mut node = primary();
    let client_msg = Bft_Message::new("hello world", "bft_client0001");
    assert_eq!(node.receiveClientMsg(client_msg), 0);
    let second = Bft_Message::new("hello again", "bft_client0001");
    assert_eq!(node.receiveClientMsg(second), 1);
    let actions = node.take_actions();
    assert_eq!(commands(&actions), vec!["prePrepare", "prePrepare"]);
    match &actions[1] {
        Node_Action::Broadcast { targets, msg: Bft_Broadcast_Msg::PrePrepare(p) } => {
            assert!(targets.is_empty());
            assert_eq!(p.get_sequence_num(), 1);
            assert_eq!(p.get_view_num(), 1);
            assert_eq!(p.get_client_msg().get_payload(), "hello again");
            assert_eq!(p.get_msg_digest(), &p.get_client_msg().sign());
        }
        _ => panic!("the primary broadcasts a pre-prepare"),
    }
    assert!(node.take_actions().is_empty());
}

#[test]
#[allow(non_snake_case)]
fn doPrepare() {
    let mut node = primary();
    let client_msg = Bft_Message::new("hello world", "bft_client0001");
    let pre_prepare = Bft_PrePrepare_Message::new(1, 1, client_msg);
    assert_eq!(node.doPrepare(pre_prepare), (1, 1));
    let actions = node.take_actions();
    assert_eq!(commands(&actions), vec!["prepare"]);
    match &actions[0] {
        Node_Action::Broadcast { msg: Bft_Broadcast_Msg::Prepare(p), .. } => {
            assert_eq!(p.get_sequence_num(), 1);
            assert_eq!(p.get_node_id(), 1);
        }
        _ => panic!("a replica votes prepare"),
    }
    let other_view = Bft_PrePrepare_Message::new(7, 2, Bft_Message::new("x", "c"));
    assert_eq!(node.doPrepare(other_view), (7, 2));
    assert!(node.take_actions().is_empty());
}

#[test]
#[allow(non_snake_case)]
fn receivePrepare() {
    let mut node = primary();
    let prepare = Bft_Prepare_Message::new(1, 1, "", 11);
    node.receivePrepare(prepare);
    assert!(node.take_actions().is_empty());

    node.doPrepare(Bft_PrePrepare_Message::new(1, 1, Bft_Message::new("hello world", "bft_client0001")));
    node.receivePrepare(Bft_Prepare_Message::new(1, 1, "", 1));
    let actions = node.take_actions();
    assert_eq!(commands(&actions), vec!["prepare", "log commit 1 hello world", "commit"]);
    node.receivePrepare(Bft_Prepare_Message::new(1, 1, "", 1));
    assert!(node.take_actions().is_empty());
}

#[test]
#[allow(non_snake_case)]
fn receiveCommit() {
    let mut node = primary();
    node.receiveCommit(Bft_Commit_Message::new(1, 1, "", 11));
    assert!(node.take_actions().is_empty());

    node.doPrepare(Bft_PrePrepare_Message::new(1, 1, Bft_Message::new("hello world", "bft_client0001")));
    node.take_actions();
    node.receiveCommit(Bft_Commit_Message::new(1, 1, "wrong key", 1));
    assert!(node.take_actions().is_empty());
    node.receiveCommit(Bft_Commit_Message::new(1, 1, "", 1));
    let actions = node.take_actions();
    assert_eq!(commands(&actions), vec!["replay"]);
    match &actions[0] {
        Node_Action::Broadcast { msg: Bft_Broadcast_Msg::Replay(r), .. } => {
            assert_eq!(r.payload, "succes process");
            assert_eq!(r.client_id, "bft_client0001");
            assert_eq!(r.node_id, 1);
        }
        _ => panic!("a committed request is answered"),
    }
}

#[test]
fn bft_register_and_join() {
    let mut node = primary();
    let reply = node.regist_node(Bft_Regist_Msg::new("10.3.209.98", "8788", "key2"));
    assert_eq!(reply.get_node_id(), 2);
    assert_eq!(reply.get_view_num(), 1);
    assert_eq!(commands(&node.take_actions()), vec!["newnode"]);
    assert_eq!(node.broadcast_targets().len(), 1);
    assert_eq!(node.broadcast_targets()[0].public_key, "key2");

    let mut replica = Btf_Node::start_node("10.3.209.97", "8787", "10.3.209.98", "8788", Some(reply));
    assert_eq!(replica.get_node_base().get_node_id(), 2);
    assert_eq!(replica.get_view_num(), 1);
    assert_eq!(replica.broadcast_targets().len(), 1);
    replica.receive_new_node(Btf_Node_Simple::new(3, "10.3.209.99", "8789", "key3"));
    assert_eq!(replica.broadcast_targets().len(), 2);
    assert_eq!(replica.receiveClientMsg(Bft_Message::new("p", "c")), 0);
    assert!(replica.take_actions().is_empty());

    let reply2 = node.regist_node(Bft_Regist_Msg::new("10.3.209.99", "8789", "key3"));
    assert_eq!(reply2.get_node_id(), 3);
    assert_eq!(reply2.get_node_ist().len(), 2);
}

#[test]
fn bft_replica_without_reply_and_expiry() {
    let mut node = Btf_Node::start_node("10.3.209.97", "8787", "10.3.209.98", "8788", None);
    assert_eq!(node.get_view_num(), 0);
    assert_eq!(node.get_node_base().get_node_id(), 1);
    assert!(node.handler_expire(0).is_none());
    node.doReplay(5);
    assert!(node.take_actions().is_empty());
}

#[test]
fn bft_messages() {
    let msg = Bft_Message::new("hello world", "bft_client0001");
    assert_eq!(msg.get_id(), "1232345");
    assert_eq!(msg.get_status(), 0);
    let encoded = "7:123234514:bft_client000111:hello world100000";
    assert_eq!(msg.sign(), md5_hex(encoded.as_bytes()));
    assert_eq!(msg.sign().len(), 32);
    let mut later = Bft_Message::new("hello world", "bft_client0001");
    later.timestamp = 100001;
    assert_ne!(later.sign(), msg.sign());
    let mut a = Bft_Message::new("c", "b");
    a.id = "a".to_string();
    let mut b = Bft_Message::new("c", "");
    b.id = "ab".to_string();
    assert_ne!(a.sign(), b.sign());
    let bytes = Bft_Message_Bytes(encoded.as_bytes());
    assert_eq!(bytes.hash(), msg.sign());
    let replay = Bft_Replay::new(3, "done", 4, msg);
    assert_eq!(replay.view_num, 3);
    assert_eq!(replay.node_id, 4);
    assert_eq!(replay.timestamp, 100000);
    let commit = Bft_Commit_Message::new(1, 2, "d", 3);
    assert_eq!(commit.get_view_num(), 1);
    assert_eq!(commit.get_sequence_num(), 2);
    assert_eq!(commit.get_msg_digest(), "d");
    assert_eq!(commit.get_node_id(), 3);
    let reply = Bft_Regist_Reply::new(vec![Btf_Node_Simple::new(1, "10.3.209.97", "8780", "")], 1, 0, 2);
    assert_eq!(reply.get_node_id(), 2);
}

#[test]
fn md5_of_known_texts() {
    assert_eq!(md5_hex(b""), "d41d8cd98f00b204e9800998ecf8427e");
    assert_eq!(md5_hex(b"abc"), "900150983cd24fb0d6963f7d28e17f72");
}

#[test]
fn bft_reply_needs_two_f_plus_one_commits() {
    let mut node = primary();
    for (ip, key) in [("10.3.209.98", "key2"), ("10.3.209.99", "key3"), ("10.3.209.100", "key4")] {
        node.regist_node(Bft_Regist_Msg::new(ip, "8788", key));
    }
    assert_eq!(node.broadcast_targets().len(), 3);
    node.doPrepare(Bft_PrePrepare_Message::new(1, 1, Bft_Message::new("hello world", "bft_client0001")));
    node.take_actions();
    node.receiveCommit(Bft_Commit_Message::new(1, 1, "", 1));
    node.receiveCommit(Bft_Commit_Message::new(1, 1, "key2", 2));
    assert!(node.take_actions().is_empty());
    node.receiveCommit(Bft_Commit_Message::new(1, 1, "key3", 3));
    assert_eq!(commands(&node.take_actions()), vec!["replay"]);
}

#[test]
fn bft_broadcast_frame() {
    let msg = Bft_Broadcast_Msg::Commit(Bft_Commit_Message::new(1, 2, "d", 3));
    let frame = broadcast_frame(&msg, "{}".to_string());
    assert_eq!(frame.command, "commit");
    assert_eq!(frame.version, "v0.1");
    assert_eq!(frame.payload, "{}");
    assert!(!frame.is_sys);
}

#[test]
fn bft_log_line_and_expiry() {
    assert_eq!(receive_log_line("abc", "put a=1"), "receiveMsg abc put a=1");
    assert!(!is_expired(180_000_000_000));
    assert!(is_expired(180_000_000_001));
}

#[test]
fn bft_sign_is_deterministic() {
    let a = Bft_Message::new("p", "c");
    let b = Bft_Message::new("p", "c");
    assert_eq!(a.sign(), b.sign());
}
