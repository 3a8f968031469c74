use ipc_guard::channel::{Channel, ConnState, RecvError, SendError};
use ipc_guard::codec::{decode_internal, decode_worker, encode_internal, encode_worker, MAX_PAYLOAD};
use ipc_guard::frame::{frame, FrameError, FrameReader};
use ipc_guard::handshake::{client_reply, cookie_offer, verify_reply, HandshakeError};
use ipc_guard::messages::{Callback, ManagerMsg, ManagerMsgInternal, WorkerMsg};
use ipc_guard::scenario::{
    api_step, check_latency, leak_verdict, probe_again, sample_resources, worker_reply, ApiAction,
    ApiStage, Latency, ScenarioError,
};
use ipc_guard::supervisor::{
    after_wait, exit_of, lifeline_step, on_kill, Lifeline, ProcessState, ShutdownStep, SubcommandExit,
    WaitOutcome, ARM_BYTE,
};

fn resources_msg() -> WorkerMsg {
    WorkerMsg::Callback(Callback::OnUpdateResources(sample_resources()))
}

#[test]
fn sample_resources_are_the_two_ids() {
    assert_eq!(
        sample_resources(),
        vec![
            "2efe9c25-bd92-49a0-99d7-8b92da014dd5".to_string(),
            "613eaf56-6efa-45e5-88aa-ea4ad64d8c18".to_string()
        ]
    );
}

#[test]
fn worker_encoding_exact_bytes() {
    assert_eq!(encode_worker(&WorkerMsg::Response(ManagerMsg::Connect)), Some(vec![1, 0]));
    assert_eq!(encode_worker(&WorkerMsg::Callback(Callback::TunnelReady)), Some(vec![0, 4]));
    assert_eq!(
        encode_worker(&WorkerMsg::Callback(Callback::DisconnectedTokenExpired)),
        Some(vec![0, 1])
    );
    assert_eq!(encode_worker(&WorkerMsg::Callback(Callback::OnDisconnect)), Some(vec![0, 2]));
    assert_eq!(
        encode_worker(&WorkerMsg::Callback(Callback::OnUpdateResources(vec![
            "a".to_string(),
            "bc".to_string()
        ]))),
        Some(vec![0, 3, 2, 0, 0, 0, 1, 0, 0, 0, b'a', 2, 0, 0, 0, b'b', b'c'])
    );
}

#[test]
fn internal_encoding_exact_bytes() {
    assert_eq!(
        encode_internal(&ManagerMsgInternal::Cookie("ab".to_string())),
        Some(vec![0, 2, 0, 0, 0, b'a', b'b'])
    );
    assert_eq!(encode_internal(&ManagerMsgInternal::User(ManagerMsg::Connect)), Some(vec![1, 0]));
    assert_eq!(encode_internal(&ManagerMsgInternal::Shutdown), Some(vec![2]));
}

#[test]
fn worker_messages_round_trip() {
    let msgs = vec![
        WorkerMsg::Callback(Callback::Cookie("s3cr\u{e9}t".to_string())),
        WorkerMsg::Callback(Callback::DisconnectedTokenExpired),
        WorkerMsg::Callback(Callback::OnDisconnect),
        resources_msg(),
        WorkerMsg::Callback(Callback::OnUpdateResources(vec![])),
        WorkerMsg::Callback(Callback::TunnelReady),
        WorkerMsg::Response(ManagerMsg::Connect),
    ];
    for m in msgs {
        let bytes = encode_worker(&m).unwrap();
        assert_eq!(decode_worker(&bytes), Some(m));
    }
}

#[test]
fn internal_messages_round_trip() {
    for m in [
        ManagerMsgInternal::Cookie("\u{1F512}key".to_string()),
        ManagerMsgInternal::Cookie(String::new()),
        ManagerMsgInternal::User(ManagerMsg::Connect),
        ManagerMsgInternal::Shutdown,
    ] {
        let bytes = encode_internal(&m).unwrap();
        assert_eq!(decode_internal(&bytes), Some(m));
    }
}

#[test]
fn decode_rejects_bad_bytes() {
    assert_eq!(decode_worker(&[]), None);
    assert_eq!(decode_worker(&[2, 0]), None);
    assert_eq!(decode_worker(&[1, 0, 0]), None);
    assert_eq!(decode_worker(&[0, 9]), None);
    // A string announcing more bytes than follow.
    assert_eq!(decode_worker(&[0, 0, 5, 0, 0, 0, b'a']), None);
    // Invalid UTF-8.
    assert_eq!(decode_worker(&[0, 0, 1, 0, 0, 0, 0xff]), None);
    assert_eq!(decode_internal(&[0, 2, 0, 0, 0, 0xc3, 0x28]), None);
    assert_eq!(decode_internal(&[3]), None);
    assert_eq!(decode_internal(&[2, 2]), None);
}

#[test]
fn decode_reads_utf8_strings() {
    let bytes = vec![0, 2, 0, 0, 0, 0xc3, 0xa9];
    assert_eq!(decode_internal(&bytes), Some(ManagerMsgInternal::Cookie("\u{e9}".to_string())));
}

#[test]
fn oversized_message_is_not_encoded() {
    let big = "x".repeat(MAX_PAYLOAD);
    assert_eq!(encode_internal(&ManagerMsgInternal::Cookie(big.clone())), None);
    let fits = "x".repeat(MAX_PAYLOAD - 5);
    assert_eq!(encode_internal(&ManagerMsgInternal::Cookie(fits)).map(|b| b.len()), Some(MAX_PAYLOAD));
}

#[test]
fn frame_has_length_prefix() {
    assert_eq!(frame(&vec![7, 8, 9]), vec![3, 0, 0, 0, 7, 8, 9]);
    assert_eq!(frame(&vec![]), vec![0, 0, 0, 0]);
}

#[test]
fn reader_reassembles_partial_reads() {
    let mut r = FrameReader::new();
    let mut stream = frame(&vec![1, 2, 3]);
    stream.extend(frame(&vec![4]));
    for b in &stream[..5] {
        assert_eq!(r.take_frame(), Ok(None));
        r.push(&[*b]);
    }
    assert_eq!(r.take_frame(), Ok(None));
    r.push(&stream[5..9]);
    assert_eq!(r.take_frame(), Ok(Some(vec![1, 2, 3])));
    assert_eq!(r.take_frame(), Ok(None));
    r.push(&stream[9..]);
    assert_eq!(r.take_frame(), Ok(Some(vec![4])));
    assert!(r.is_empty());
}

#[test]
fn reader_refuses_oversized_header() {
    let mut r = FrameReader::new();
    r.push(&[0, 0, 0, 2]);
    assert_eq!(r.take_frame(), Err(FrameError::TooLarge));
    assert!(!r.is_empty());
}

#[test]
fn close_twice_is_a_no_op() {
    let mut ch = Channel::connected(false);
    assert!(ch.begin_close());
    assert_eq!(ch.state(), ConnState::Closing);
    assert!(!ch.begin_close());
    assert_eq!(ch.state(), ConnState::Closing);
    ch.finish_close();
    assert!(!ch.begin_close());
    assert_eq!(ch.state(), ConnState::Closed);
}

#[test]
fn closed_channel_refuses_transfer() {
    let mut ch = Channel::connected(false);
    ch.begin_close();
    assert_eq!(ch.send_internal(&ManagerMsgInternal::Shutdown), Err(SendError::NotOpen));
    assert_eq!(ch.next_worker(), Err(RecvError::NotOpen));
    let mut listening = Channel::listening();
    assert_eq!(listening.send_worker(&WorkerMsg::Response(ManagerMsg::Connect)), Err(SendError::NotOpen));
    assert_eq!(listening.next_internal(), Err(RecvError::NotOpen));
}

#[test]
fn lifecycle_of_a_secure_server() {
    let mut ch = Channel::listening();
    assert_eq!(ch.state(), ConnState::Listening);
    assert!(ch.on_accepted(true));
    assert_eq!(ch.state(), ConnState::Handshaking);
    assert!(!ch.on_accepted(true));
    let cookie = "k".to_string();
    let echo = WorkerMsg::Callback(Callback::Cookie(cookie.clone()));
    assert_eq!(ch.authenticate(&cookie, &echo), Ok(()));
    assert_eq!(ch.state(), ConnState::Open);
    // A second handshake on an open connection is refused and closes it.
    assert_eq!(ch.authenticate(&cookie, &echo), Err(HandshakeError::Rejected));
    assert_eq!(ch.state(), ConnState::Closed);
    let mut ch = Channel::listening();
    ch.on_accepted(false);
    ch.fail();
    assert_eq!(ch.state(), ConnState::Closed);
}

#[test]
fn malformed_frame_closes_channel() {
    let mut ch = Channel::connected(false);
    ch.receive(&frame(&vec![9, 9]));
    assert_eq!(ch.next_worker(), Err(RecvError::Malformed));
    assert_eq!(ch.state(), ConnState::Closed);
}

#[test]
fn oversized_frame_closes_channel() {
    let mut ch = Channel::connected(false);
    ch.receive(&[0xff, 0xff, 0xff, 0xff]);
    assert_eq!(ch.next_internal(), Err(RecvError::TooLarge));
    assert_eq!(ch.state(), ConnState::Closed);
}

#[test]
fn end_of_stream_between_and_inside_frames() {
    let mut ch = Channel::connected(false);
    assert_eq!(ch.end_of_stream(), RecvError::EndOfStream);
    assert_eq!(ch.state(), ConnState::Closed);
    let mut ch = Channel::connected(false);
    ch.receive(&[3, 0]);
    assert_eq!(ch.end_of_stream(), RecvError::Truncated);
}

#[test]
fn handshake_with_the_right_cookie_completes() {
    let cookie = "6f1c0a9e".to_string();
    let offer = cookie_offer(&cookie);
    assert_eq!(offer, ManagerMsgInternal::Cookie(cookie.clone()));
    let reply = client_reply(&offer).unwrap();
    assert_eq!(reply, WorkerMsg::Callback(Callback::Cookie(cookie.clone())));
    assert_eq!(verify_reply(&cookie, &reply), Ok(()));
}

#[test]
fn handshake_without_the_cookie_fails() {
    let cookie = "6f1c0a9e".to_string();
    let guess = WorkerMsg::Callback(Callback::Cookie("6f1c0a9f".to_string()));
    assert_eq!(verify_reply(&cookie, &guess), Err(HandshakeError::Rejected));
    // An unsecured client starts with an application message.
    let app = WorkerMsg::Callback(Callback::TunnelReady);
    assert_eq!(verify_reply(&cookie, &app), Err(HandshakeError::Rejected));
    assert_eq!(
        client_reply(&ManagerMsgInternal::User(ManagerMsg::Connect)),
        Err(HandshakeError::UnexpectedMessage)
    );
}

#[test]
fn secure_handshake_over_channels() {
    let cookie = "0123abcd".to_string();
    let mut server = Channel::listening();
    server.on_accepted(true);
    let mut client = Channel::connected(true);

    let offer = server.send_internal(&cookie_offer(&cookie)).unwrap();
    client.receive(&offer);
    let got = client.next_internal().unwrap().unwrap();
    let reply = client.answer_offer(&got).unwrap();
    assert_eq!(client.state(), ConnState::Open);
    server.receive(&client.send_worker(&reply).unwrap());
    let echoed = server.next_worker().unwrap().unwrap();
    assert_eq!(server.authenticate(&cookie, &echoed), Ok(()));
    assert_eq!(server.state(), ConnState::Open);
}

#[test]
fn unsecured_peer_is_refused_by_secure_server() {
    let cookie = "0123abcd".to_string();
    let mut server = Channel::listening();
    server.on_accepted(true);
    let mut peer = Channel::connected(false);
    // The peer never reads the offer and starts with an application message.
    server.receive(&peer.send_worker(&WorkerMsg::Callback(Callback::TunnelReady)).unwrap());
    let first = server.next_worker().unwrap().unwrap();
    assert_eq!(server.authenticate(&cookie, &first), Err(HandshakeError::Rejected));
    assert_eq!(server.state(), ConnState::Closed);
    assert_eq!(server.next_worker(), Err(RecvError::NotOpen));
    assert!(peer.answer_offer(&ManagerMsgInternal::Shutdown).is_err());
    assert_eq!(peer.state(), ConnState::Closed);
}

#[test]
fn three_round_trips() {
    let mut server = Channel::listening();
    server.on_accepted(false);
    let mut client = Channel::connected(false);
    for _ in 0..3 {
        let f = server.send_internal(&ManagerMsgInternal::User(ManagerMsg::Connect)).unwrap();
        client.receive(&f);
        let req = client.next_internal().unwrap().unwrap();
        let resp = worker_reply(&req).unwrap();
        server.receive(&client.send_worker(&resp).unwrap());
        assert_eq!(server.next_worker(), Ok(Some(WorkerMsg::Response(ManagerMsg::Connect))));
    }
    assert_eq!(server.next_worker(), Ok(None));
}

#[test]
fn worker_stops_on_shutdown() {
    assert_eq!(
        worker_reply(&ManagerMsgInternal::User(ManagerMsg::Connect)),
        Some(WorkerMsg::Response(ManagerMsg::Connect))
    );
    assert_eq!(worker_reply(&ManagerMsgInternal::Shutdown), None);
    assert_eq!(worker_reply(&ManagerMsgInternal::Cookie("c".to_string())), None);
}

#[test]
fn api_scenario_in_order() {
    let s = ApiStage::AwaitTunnelReady;
    let (s, a) = api_step(s, &WorkerMsg::Callback(Callback::TunnelReady)).unwrap();
    assert_eq!((s, a), (ApiStage::AwaitResources, ApiAction::Wait));
    let (s, a) = api_step(s, &resources_msg()).unwrap();
    assert_eq!((s, a), (ApiStage::AwaitResponse, ApiAction::SendConnect));
    let (s, a) = api_step(s, &WorkerMsg::Response(ManagerMsg::Connect)).unwrap();
    assert_eq!((s, a), (ApiStage::Done, ApiAction::CloseServer));
    // Once the server closes, the worker leaves its loop and exits successfully.
    assert_eq!(worker_reply(&ManagerMsgInternal::Shutdown), None);
    assert_eq!(after_wait(WaitOutcome::Exited { code: Some(0) }), ShutdownStep::Report(SubcommandExit::Success));
}

#[test]
fn api_scenario_out_of_order() {
    assert_eq!(api_step(ApiStage::AwaitTunnelReady, &resources_msg()), Err(ScenarioError::Unexpected));
    let other = WorkerMsg::Callback(Callback::OnUpdateResources(vec!["x".to_string()]));
    assert_eq!(api_step(ApiStage::AwaitResources, &other), Err(ScenarioError::Unexpected));
    assert_eq!(
        api_step(ApiStage::Done, &WorkerMsg::Response(ManagerMsg::Connect)),
        Err(ScenarioError::Unexpected)
    );
}

#[test]
fn latency_budgets() {
    assert_eq!(check_latency(Latency::RoundTrips, 99_999), Ok(()));
    assert_eq!(check_latency(Latency::RoundTrips, 100_000), Err(ScenarioError::TooSlow));
    assert_eq!(check_latency(Latency::ServerClose, 19_999), Ok(()));
    assert_eq!(check_latency(Latency::ServerClose, 20_000), Err(ScenarioError::TooSlow));
    assert_eq!(check_latency(Latency::ClientClose, 4_999), Ok(()));
    assert_eq!(check_latency(Latency::ClientClose, 5_000), Err(ScenarioError::TooSlow));
}

#[test]
fn leak_verdicts() {
    assert_eq!(leak_verdict(true, false, false), Ok(()));
    assert_eq!(leak_verdict(true, true, false), Err(ScenarioError::WorkerOutlivedManager));
    assert_eq!(leak_verdict(false, true, true), Ok(()));
    assert_eq!(leak_verdict(false, true, false), Err(ScenarioError::WorkerStoppedUnprotected));
    assert!(probe_again(0, true));
    assert!(!probe_again(5, true));
    assert!(!probe_again(1, false));
}

#[test]
fn supervisor_decisions() {
    assert_eq!(exit_of(Some(0)), SubcommandExit::Success);
    assert_eq!(exit_of(Some(3)), SubcommandExit::Failure);
    assert_eq!(exit_of(None), SubcommandExit::Failure);
    assert_eq!(after_wait(WaitOutcome::TimedOut), ShutdownStep::Kill);
    assert_eq!(
        on_kill(ProcessState::Running),
        (ProcessState::Exited(SubcommandExit::Killed), true)
    );
    let done = ProcessState::Exited(SubcommandExit::Success);
    assert_eq!(on_kill(done), (done, false));
}

#[test]
fn lifeline_is_cut_only_after_arming() {
    assert_eq!(lifeline_step(Lifeline::Unarmed, None), Lifeline::Abandoned);
    assert_eq!(lifeline_step(Lifeline::Unarmed, Some(0)), Lifeline::Unarmed);
    let armed = lifeline_step(Lifeline::Unarmed, Some(ARM_BYTE));
    assert_eq!(armed, Lifeline::Armed);
    assert_eq!(lifeline_step(armed, Some(7)), Lifeline::Armed);
    assert_eq!(lifeline_step(armed, None), Lifeline::Cut);
    assert_eq!(lifeline_step(Lifeline::Cut, None), Lifeline::Cut);
}
