use slackbot::client::{action_for, advance, mention_prefix, route_frame, Inbound, LinkAction, Phase, Session, RECONNECT_DELAY_MS};

#[test]
fn failures_always_lead_back_to_a_handshake() {
    let mut phase = Phase::Handshaking;
    let mut handshakes = 0;
    for round in 0..50 {
        assert_eq!(action_for(phase), LinkAction::RequestEndpoint);
        handshakes += 1;
        // alternate the step that fails: handshake, stream opening, reading
        let mut failing = round % 3;
        while failing > 0 {
            phase = advance(phase, true);
            failing -= 1;
        }
        phase = advance(phase, false);
        assert_eq!(phase, Phase::Waiting);
        assert_eq!(action_for(phase), LinkAction::Sleep(7000));
        phase = advance(phase, true);
    }
    assert_eq!(handshakes, 50);
    assert_eq!(phase, Phase::Handshaking);
    assert_eq!(RECONNECT_DELAY_MS, 7000);
}

#[test]
fn reading_goes_on_after_each_frame() {
    assert_eq!(advance(Phase::Handshaking, true), Phase::Connecting);
    assert_eq!(advance(Phase::Connecting, true), Phase::Reading);
    assert_eq!(advance(Phase::Reading, true), Phase::Reading);
    assert_eq!(action_for(Phase::Reading), LinkAction::ReadFrame);
    assert_eq!(action_for(Phase::Connecting), LinkAction::OpenStream);
}

#[test]
fn unrecognized_frames_are_ignored() {
    let r = route_frame(&Inbound::Ignored, "U1", "C1");
    assert!(!r.liveness);
    assert!(r.command.is_none());
    let r = route_frame(&Inbound::Ping, "U1", "C1");
    assert!(r.liveness);
    assert!(r.command.is_none());
}

#[test]
fn addressed_messages_reach_the_interpreter() {
    assert_eq!(mention_prefix("U1"), "<@U1> ");
    let msg = Inbound::Message { text: "<@U1> status".to_string(), channel: "C1".to_string() };
    let r = route_frame(&msg, "U1", "C1");
    assert!(r.liveness);
    assert_eq!(r.command, Some("status".to_string()));
    let other_channel = Inbound::Message { text: "<@U1> status".to_string(), channel: "C2".to_string() };
    let r = route_frame(&other_channel, "U1", "C1");
    assert!(r.liveness);
    assert_eq!(r.command, None);
    let unaddressed = Inbound::Message { text: "status".to_string(), channel: "C1".to_string() };
    assert_eq!(route_frame(&unaddressed, "U1", "C1").command, None);
}

#[test]
fn reply_ids_start_at_one_per_connection() {
    let mut s = Session::new();
    assert_eq!(s.next_reply_id(), 1);
    assert_eq!(s.next_reply_id(), 2);
    let mut fresh = Session::new();
    assert_eq!(fresh.next_reply_id(), 1);
}
