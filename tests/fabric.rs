use casimir::flow::{FlowController, COMMAND_TIMEOUT_MS};
use casimir::rf::{rf_frame, rf_frame_length, stamp_sender, RfError, RfPacket, BROADCAST};
use casimir::scene::{Scene, SceneError, MAX_DEVICES};

#[test]
fn rf_framing() {
    assert_eq!(rf_frame(&vec![1, 2, 3]), Ok(vec![3, 0, 1, 2, 3]));
    let long = vec![0u8; 300];
    let framed = rf_frame(&long).unwrap();
    assert_eq!(&framed[..2], &[0x2c, 0x01]);
    assert_eq!(rf_frame_length([0x2c, 0x01]), 300);
    assert_eq!(rf_frame(&vec![0u8; 65535]).map(|v| v.len()), Ok(65537));
    assert_eq!(rf_frame(&vec![0u8; 65536]), Err(RfError::FrameTooLong));
}

#[test]
fn rf_packet_fields() {
    let p = RfPacket::parse(&vec![0x02, 0x00, 0xff, 0xff, 9]).unwrap();
    assert_eq!(p.sender, 2);
    assert_eq!(p.receiver, BROADCAST);
    assert_eq!(p.payload, vec![9]);
    assert_eq!(p.to_bytes(), vec![0x02, 0x00, 0xff, 0xff, 9]);
    assert!(RfPacket::parse(&vec![1, 2, 3]).is_none());
}

#[test]
fn sender_is_the_slot() {
    // The client claims to be device 0x0107; it sits in slot 4.
    let p = stamp_sender(&vec![0x07, 0x01, 0x03, 0x00, 0xaa, 0xbb], 4).unwrap();
    assert_eq!(p.sender, 4);
    assert_eq!(p.receiver, 3);
    assert_eq!(p.to_bytes(), vec![0x04, 0x00, 0x03, 0x00, 0xaa, 0xbb]);
    assert!(matches!(stamp_sender(&vec![0x07, 0x01], 4), Err(RfError::PacketTooShort)));
}

#[test]
fn rf_broadcast_three_devices() {
    let mut scene: Scene<&str> = Scene::new();
    assert_eq!(scene.add_device(|_| "a"), Ok(0));
    assert_eq!(scene.add_device(|_| "b"), Ok(1));
    assert_eq!(scene.add_device(|_| "c"), Ok(2));
    let frame = stamp_sender(&vec![0x09, 0x00, 0xff, 0xff, 0x42], 0).unwrap();
    assert_eq!(frame.sender, 0);
    assert_eq!(scene.recipients(frame.sender, frame.receiver), vec![1, 2]);
}

#[test]
fn broadcast_reaches_each_peer_once() {
    let mut scene: Scene<u16> = Scene::new();
    for _ in 0..6 {
        scene.add_device(|id| id * 10).unwrap();
    }
    scene.take_device(2);
    scene.take_device(4);
    assert_eq!(scene.recipients(1, BROADCAST), vec![0, 3, 5]);
    assert_eq!(scene.recipients(7, BROADCAST), vec![0, 1, 3, 5]);
}

#[test]
fn unicast_reaches_only_the_receiver() {
    let mut scene: Scene<u16> = Scene::new();
    for _ in 0..3 {
        scene.add_device(|id| id).unwrap();
    }
    assert_eq!(scene.recipients(0, 2), vec![2]);
    assert_eq!(scene.recipients(2, 2), Vec::<u16>::new());
    assert_eq!(scene.recipients(0, 9), Vec::<u16>::new());
}

#[test]
fn slots_are_reused_lowest_first() {
    let mut scene: Scene<u16> = Scene::new();
    for i in 0..MAX_DEVICES {
        assert_eq!(scene.add_device(|id| id), Ok(i as u16));
    }
    assert_eq!(scene.add_device(|id| id), Err(SceneError::Full));
    assert_eq!(scene.take_device(5), Some(5));
    assert!(!scene.is_occupied(5));
    assert_eq!(scene.add_device(|id| id + 100), Ok(5));
    assert_eq!(scene.device(5), Some(&105));
    let d = scene.take_device(7).unwrap();
    scene.put_device(7, d);
    assert_eq!(scene.device(7), Some(&7));
}

#[test]
fn one_command_in_flight() {
    let mut flow = FlowController::new();
    assert!(flow.can_send());
    flow.on_sent(1, 100);
    assert!(!flow.can_send());
    assert_eq!(flow.deadline(), Some(100 + COMMAND_TIMEOUT_MS));
    // A Notification does not release the Command.
    flow.on_received(3);
    assert!(!flow.can_send());
    flow.on_received(2);
    assert!(flow.can_send());
    assert_eq!(flow.deadline(), None);
}

#[test]
fn command_times_out_after_20_ms() {
    let mut flow = FlowController::new();
    flow.on_sent(1, 1000);
    assert!(!flow.on_timer(1019));
    assert!(!flow.can_send());
    assert!(flow.on_timer(1020));
    assert!(flow.can_send());
    assert!(!flow.on_timer(1030));
}

#[test]
fn data_does_not_hold_the_flow() {
    let mut flow = FlowController::new();
    flow.on_sent(0, 5);
    assert!(flow.can_send());
}

#[test]
fn only_commands_wait_for_the_outstanding_one() {
    let mut flow = FlowController::new();
    flow.on_sent(1, 0);
    assert!(!flow.may_send(1));
    assert!(flow.may_send(0));
    assert!(flow.may_send(3));
    flow.on_sent(0, 1);
    assert!(!flow.can_send());
    flow.on_received(2);
    assert!(flow.may_send(1));
}
