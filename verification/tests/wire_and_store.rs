use rust_demo::command_executor::Command_Executor;
use rust_demo::communication::{connection_name, parse_frame, route_message, BftCommunicationMsg, Message_Route};
use rust_demo::pbft_client::{parse_replay, replay_is_readable, request_frame};

fn message(command: &str, payload: &str) -> BftCommunicationMsg {
    BftCommunicationMsg {
        id: String::new(),
        is_sys: false,
        command: command.to_string(),
        version: "v1".to_string(),
        payload: payload.to_string(),
        from: String::new(),
    }
}

#[test]
fn frame_text_counts_payload_bytes() {
    assert_eq!(message("prepare", "{\"a\":1}").to_string(), "prepare v1 7\n{\"a\":1}\n");
    assert_eq!(message("put", "é").to_string(), "put v1 2\né\n");
    assert_eq!(message("x", "").to_string(), "x v1 0\n\n");
}

#[test]
fn frame_round_trip() {
    let text = message("commit", "payload text").to_string();
    let m = parse_frame(&text, "10.0.0.1:80").unwrap();
    assert_eq!(m.command, "commit");
    assert_eq!(m.version, "v1");
    assert_eq!(m.payload, "payload text");
    assert_eq!(m.from, "10.0.0.1:80");
    assert!(!m.is_sys);
    assert_eq!(m.id, "");
}

#[test]
fn frame_header_flags_and_refusals() {
    let m = parse_frame("reply 1 TRUE abc\nbody\n", "n").unwrap();
    assert!(m.is_sys);
    assert_eq!(m.id, "abc");
    assert_eq!(m.payload, "body");
    assert!(parse_frame("got", "n").is_none());
    assert!(parse_frame("", "n").is_none());
    assert!(parse_frame("onlycommand\nbody", "n").is_none());
    assert!(parse_frame("cmd v1 3", "n").is_none());
}

#[test]
fn frames_are_routed_by_command() {
    assert!(matches!(route_message(&message("REPLY", "")), Message_Route::Reply));
    assert!(matches!(route_message(&message("Disconnection", "")), Message_Route::Disconnection));
    assert!(matches!(route_message(&message("prepare", "")), Message_Route::Main));
    assert_eq!(connection_name("10.3.209.97", "8787"), "10.3.209.97:8787");
}

#[test]
fn store_put_get_delete() {
    let mut store = Command_Executor::new("base_file");
    assert_eq!(store.command_execute("put a = 1"), Some("1".to_string()));
    assert_eq!(store.command_execute("get a"), Some("1".to_string()));
    assert_eq!(store.command_execute("put a=2"), Some("2".to_string()));
    assert_eq!(store.command_execute("get a"), Some("2".to_string()));
    assert_eq!(store.command_execute("delete a"), Some("2".to_string()));
    assert_eq!(store.command_execute("get a"), None);
    assert_eq!(store.command_execute("delete a"), None);
}

#[test]
fn store_get_and_delete_without_equals() {
    let mut store = Command_Executor::new("data");
    assert_eq!(store.command_execute("put k1 = v1"), Some("v1".to_string()));
    assert_eq!(store.command_execute("get k1"), Some("v1".to_string()));
    assert_eq!(store.command_execute("get  k1  "), Some("v1".to_string()));
    assert_eq!(store.command_execute("delete k1"), Some("v1".to_string()));
    assert_eq!(store.command_execute("get k1"), None);
}

#[test]
fn store_key_may_hold_the_command_word() {
    let mut store = Command_Executor::new("data");
    assert_eq!(store.command_execute("put output = 1"), Some("1".to_string()));
    assert_eq!(store.command_execute("get output"), Some("1".to_string()));
    assert_eq!(store.command_execute("get out"), None);
    assert_eq!(store.check_point_lines(), vec!["output=1".to_string()]);
}

#[test]
fn store_refuses_invalid_commands() {
    let mut store = Command_Executor::new("base_file");
    assert_eq!(store.command_execute("post a=1"), None);
    assert_eq!(store.command_execute("put a"), None);
    assert_eq!(store.command_execute("get a"), None);
    assert_eq!(store.command_execute("put k = v = w"), Some("v".to_string()));
    assert_eq!(store.command_execute("get k"), Some("v".to_string()));
}

#[test]
fn store_check_points() {
    let mut store = Command_Executor::new("base_file");
    store.command_execute("put a=1");
    store.command_execute("put b=2");
    let mut lines = store.check_point_lines();
    lines.sort();
    assert_eq!(lines, vec!["a=1".to_string(), "b=2".to_string()]);
    assert_eq!(store.check_point_file_name(7), "base_file1.log");
    assert_eq!(store.check_point_file_name(4), "base_file0.log");
    assert_eq!(Command_Executor::check_point_record(3), "checkpoint 1");
}

#[test]
fn client_reads_a_reply() {
    let reply = "reply v1 40\n{\"timestamp\":\"100000\",\"payload\":\"succes process\"}\n";
    assert!(replay_is_readable(reply));
    let (timestamp, payload) = parse_replay(reply);
    assert_eq!(timestamp, "100000");
    assert_eq!(payload, "succes process");
    let (t, p) = parse_replay("no body");
    assert_eq!(t, "");
    assert_eq!(p, "");
    assert!(!replay_is_readable("h\n{\"timestamp\"}"));
    assert!(!replay_is_readable("h\n{\"payload\":\"x\"}"));
}

#[test]
fn client_request_frame() {
    assert_eq!(
        request_frame(1, "one_client", "put a=1", "123"),
        "receiveMsg 1.0  false default_id 30 \n{\"id\":\"1\",\"client_id\":\"one_client\",\"payload\":\"put a=1\",\"timestamp\":\"123\",\"status\":\"0\",\"client_ip\":\"10.3.209.97\",\"port\":\"10005\",\"md5sign\":\"sign\"}\n"
    );
}
