use casimir::command::{parse_command, Command, ParseError};
use casimir::controller::{Controller, ControllerError, LogicalConnection};
use casimir::message::Message;
use casimir::nci::{ConfigParameter, ConfigParameterId, DeactivationType, RfProtocolType, Status};

fn command(gid: u8, oid: u8, payload: &[u8]) -> Vec<u8> {
    let mut p = vec![0x20 | gid, oid, payload.len() as u8];
    p.extend_from_slice(payload);
    p
}

fn receive(c: &mut Controller, gid: u8, oid: u8, payload: &[u8]) -> Vec<Vec<u8>> {
    c.receive(&command(gid, oid, payload)).unwrap()
}

const CONN_CREATE_NFC_DEP_1: [u8; 6] = [0x02, 0x01, 0x00, 0x02, 0x01, 0x05];

fn conn_create_response(status: u8, max_payload: u8, conn_id: u8) -> Vec<u8> {
    vec![0x40, 0x04, 0x04, status, max_payload, 0xff, conn_id]
}

#[test]
fn power_on_notification() {
    let c = Controller::new(3);
    assert_eq!(c.id(), 3);
    let bytes = c.power_on().encode();
    assert_eq!(bytes, vec![0x60, 0x00, 0x05, 0x01, 0x01, 0x11, 0x00, 0x00]);
}

#[test]
fn reset_then_init() {
    let mut c = Controller::new(0);
    let out = receive(&mut c, 0, 0x00, &[0x01]);
    assert_eq!(out, vec![vec![0x40, 0x00, 0x01, 0x00], vec![0x60, 0x00, 0x05, 0x02, 0x01, 0x11, 0x00, 0x00]]);
    let out = receive(&mut c, 0, 0x01, &[0x00, 0x00]);
    assert_eq!(
        out,
        vec![vec![
            0x40, 0x01, 0x15, 0x00, 0x00, 0x00, 0x00, 0x00, 0x02, 0x00, 0x02, 0xff, 0xff, 0x00, 0x00,
            0x02, 0x03, 0x01, 0x00, 0x00, 0x01, 0x00, 0x03, 0x00,
        ]]
    );
}

#[test]
fn reset_keeping_configuration() {
    let mut c = Controller::new(0);
    let out = receive(&mut c, 0, 0x00, &[0x00]);
    assert_eq!(out[1], vec![0x60, 0x00, 0x05, 0x02, 0x00, 0x11, 0x00, 0x00]);
}

#[test]
fn conn_create_then_close() {
    let mut c = Controller::new(0);
    assert_eq!(receive(&mut c, 0, 0x04, &CONN_CREATE_NFC_DEP_1), vec![conn_create_response(0, 255, 0)]);
    // The same destination again is a duplicate of a live connection.
    assert_eq!(receive(&mut c, 0, 0x04, &CONN_CREATE_NFC_DEP_1), vec![conn_create_response(1, 0, 0)]);
    let other = [0x02, 0x01, 0x00, 0x02, 0x02, 0x05];
    assert_eq!(receive(&mut c, 0, 0x04, &other), vec![conn_create_response(0, 255, 1)]);
    // Both slots are taken.
    let third = [0x02, 0x01, 0x00, 0x02, 0x03, 0x04];
    assert_eq!(receive(&mut c, 0, 0x04, &third), vec![conn_create_response(1, 0, 0)]);
    assert_eq!(receive(&mut c, 0, 0x05, &[0x00]), vec![vec![0x40, 0x05, 0x01, 0x00]]);
    assert_eq!(receive(&mut c, 0, 0x04, &CONN_CREATE_NFC_DEP_1), vec![conn_create_response(0, 255, 0)]);
    let conns = &c.state().logical_connections;
    assert_eq!(
        conns[0],
        Some(LogicalConnection::RemoteNfcEndpoint { rf_discovery_id: 1, rf_protocol_type: RfProtocolType::NfcDep })
    );
    assert_eq!(
        conns[1],
        Some(LogicalConnection::RemoteNfcEndpoint { rf_discovery_id: 2, rf_protocol_type: RfProtocolType::NfcDep })
    );
}

#[test]
fn conn_ids_match_occupied_slots() {
    let mut c = Controller::new(0);
    receive(&mut c, 0, 0x04, &CONN_CREATE_NFC_DEP_1);
    receive(&mut c, 0, 0x04, &[0x02, 0x01, 0x00, 0x02, 0x07, 0x04]);
    receive(&mut c, 0, 0x05, &[0x01]);
    receive(&mut c, 0, 0x04, &[0x02, 0x01, 0x00, 0x02, 0x08, 0x04]);
    receive(&mut c, 0, 0x05, &[0x00]);
    let conns = &c.state().logical_connections;
    assert_eq!(conns.len(), 2);
    assert_eq!(conns[0], None);
    assert_eq!(
        conns[1],
        Some(LogicalConnection::RemoteNfcEndpoint { rf_discovery_id: 8, rf_protocol_type: RfProtocolType::IsoDep })
    );
}

#[test]
fn conn_create_rejections() {
    let mut c = Controller::new(0);
    let rejected = vec![conn_create_response(1, 0, 0)];
    // NFCC loopback and NFCEE destinations.
    assert_eq!(receive(&mut c, 0, 0x04, &[0x01, 0x00]), rejected);
    assert_eq!(receive(&mut c, 0, 0x04, &[0x03, 0x00]), rejected);
    // No parameter, an NFCEE parameter, a value too short, an unknown protocol.
    assert_eq!(receive(&mut c, 0, 0x04, &[0x02, 0x00]), rejected);
    assert_eq!(receive(&mut c, 0, 0x04, &[0x02, 0x01, 0x01, 0x02, 0x01, 0x05]), rejected);
    assert_eq!(receive(&mut c, 0, 0x04, &[0x02, 0x01, 0x00, 0x01, 0x01]), rejected);
    assert_eq!(receive(&mut c, 0, 0x04, &[0x02, 0x01, 0x00, 0x02, 0x01, 0x42]), rejected);
    assert_eq!(c.state().logical_connections, vec![None, None]);
}

#[test]
fn conn_close_rejections() {
    let mut c = Controller::new(0);
    assert_eq!(receive(&mut c, 0, 0x05, &[0x00]), vec![vec![0x40, 0x05, 0x01, 0x01]]);
    assert_eq!(receive(&mut c, 0, 0x05, &[0x02]), vec![vec![0x40, 0x05, 0x01, 0x01]]);
}

#[test]
fn set_get_partial() {
    let mut c = Controller::new(0);
    let out = receive(&mut c, 0, 0x02, &[0x02, 0x80, 0x01, 0x01, 0x99, 0x01, 0xab]);
    assert_eq!(out, vec![vec![0x40, 0x02, 0x03, 0x09, 0x01, 0x99]]);
    let out = receive(&mut c, 0, 0x03, &[0x01, 0x80]);
    assert_eq!(out, vec![vec![0x40, 0x03, 0x05, 0x00, 0x01, 0x80, 0x01, 0x01]]);
    assert_eq!(c.state().config_parameters.len(), 1);
}

#[test]
fn set_get_symmetry() {
    let mut c = Controller::new(0);
    let out = receive(&mut c, 0, 0x02, &[0x03, 0x00, 0x01, 0x10, 0x30, 0x02, 0xaa, 0xbb, 0x85, 0x00]);
    assert_eq!(out, vec![vec![0x40, 0x02, 0x02, 0x00, 0x00]]);
    let out = receive(&mut c, 0, 0x03, &[0x03, 0x30, 0x85, 0x00]);
    assert_eq!(
        out,
        vec![vec![0x40, 0x03, 0x0b, 0x00, 0x03, 0x30, 0x02, 0xaa, 0xbb, 0x85, 0x00, 0x00, 0x01, 0x10]]
    );
}

#[test]
fn set_later_value_wins() {
    let mut c = Controller::new(0);
    receive(&mut c, 0, 0x02, &[0x02, 0x80, 0x01, 0x01, 0x80, 0x01, 0x02]);
    let out = receive(&mut c, 0, 0x03, &[0x01, 0x80]);
    assert_eq!(out, vec![vec![0x40, 0x03, 0x05, 0x00, 0x01, 0x80, 0x01, 0x02]]);
}

#[test]
fn get_reports_only_missing_identifiers() {
    let mut c = Controller::new(0);
    receive(&mut c, 0, 0x02, &[0x01, 0x80, 0x01, 0x01]);
    let out = receive(&mut c, 0, 0x03, &[0x03, 0x80, 0x81, 0x99]);
    assert_eq!(out, vec![vec![0x40, 0x03, 0x06, 0x09, 0x02, 0x81, 0x00, 0x99, 0x00]]);
}

#[test]
fn rf_and_nfcee_commands() {
    let mut c = Controller::new(0);
    assert_eq!(receive(&mut c, 0, 0x09, &[0x00]), vec![vec![0x40, 0x09, 0x01, 0x00]]);
    assert_eq!(receive(&mut c, 1, 0x00, &[0x01, 0x04, 0x01, 0x02]), vec![vec![0x41, 0x00, 0x01, 0x00]]);
    assert_eq!(c.state().discover_map.len(), 1);
    assert_eq!(c.state().discover_map[0].rf_protocol_type, 0x04);
    assert_eq!(receive(&mut c, 1, 0x01, &[0x00, 0x00]), vec![vec![0x41, 0x01, 0x01, 0x00]]);
    assert_eq!(receive(&mut c, 1, 0x02, &[]), vec![vec![0x41, 0x02, 0x03, 0x00, 0x00, 0x00]]);
    assert_eq!(receive(&mut c, 1, 0x03, &[0x00]), vec![vec![0x41, 0x03, 0x01, 0x00]]);
    assert_eq!(
        receive(&mut c, 1, 0x06, &[0x03]),
        vec![vec![0x41, 0x06, 0x01, 0x00], vec![0x61, 0x06, 0x02, 0x03, 0x00]]
    );
    assert_eq!(receive(&mut c, 2, 0x00, &[]), vec![vec![0x42, 0x00, 0x02, 0x00, 0x00]]);
}

#[test]
fn data_packets_get_no_reply() {
    let mut c = Controller::new(0);
    assert_eq!(c.receive(&vec![0x00, 0x00, 0x01, 0x55]), Ok(vec![]));
}

#[test]
fn receive_errors() {
    let mut c = Controller::new(0);
    assert_eq!(c.receive(&vec![0x40, 0x00, 0x00]), Err(ControllerError::UnexpectedMessageType));
    assert_eq!(c.receive(&command(0, 0x07, &[])), Err(ControllerError::UnsupportedOpcode));
    assert_eq!(c.receive(&command(0x0f, 0x00, &[])), Err(ControllerError::UnsupportedOpcode));
    assert_eq!(c.receive(&command(0, 0x00, &[0x05])), Err(ControllerError::Malformed));
    assert_eq!(c.receive(&command(0, 0x02, &[0x01, 0x80, 0x05])), Err(ControllerError::Malformed));
}

#[test]
fn parse_commands() {
    match parse_command(&command(0, 0x03, &[0x02, 0x80, 0x99])) {
        Ok(Command::CoreGetConfig { parameters }) => {
            assert_eq!(parameters, vec![ConfigParameterId::RfFieldInfo, ConfigParameterId::Rfu(0x99)]);
        }
        other => panic!("unexpected {:?}", other),
    }
    match parse_command(&command(0, 0x02, &[0x02, 0x80, 0x01, 0x01, 0x99, 0x00])) {
        Ok(Command::CoreSetConfig { parameters }) => {
            assert_eq!(parameters.len(), 2);
            assert_eq!(parameters[0].id, ConfigParameterId::RfFieldInfo);
            assert_eq!(parameters[0].value, vec![0x01]);
            assert_eq!(parameters[1].id, ConfigParameterId::Rfu(0x99));
        }
        other => panic!("unexpected {:?}", other),
    }
    match parse_command(&command(1, 0x06, &[0x01])) {
        Ok(Command::RfDeactivate { deactivation_type }) => {
            assert_eq!(deactivation_type, DeactivationType::SleepMode)
        }
        other => panic!("unexpected {:?}", other),
    }
    assert!(matches!(parse_command(&vec![0x00, 0x00, 0x00]), Err(ParseError::UnexpectedMessageType)));
    assert!(matches!(parse_command(&command(1, 0x07, &[])), Err(ParseError::UnsupportedOpcode)));
    assert!(matches!(parse_command(&command(1, 0x00, &[0x01, 0x00])), Err(ParseError::Malformed)));
}

#[test]
fn messages_encode() {
    let m = Message::CoreGetConfigResponse { status: Status::StatusOk, parameters: vec![] };
    assert_eq!(m.encode(), vec![0x40, 0x03, 0x02, 0x00, 0x00]);
    assert_eq!(Status::InvalidParam.to_u8(), 0x09);
    assert_eq!(ConfigParameterId::from_u8(0x80), ConfigParameterId::RfFieldInfo);
    assert_eq!(ConfigParameterId::from_u8(0x99), ConfigParameterId::Rfu(0x99));
    assert_eq!(RfProtocolType::from_u8(0x05), Some(RfProtocolType::NfcDep));
    assert_eq!(RfProtocolType::from_u8(0x08), None);
}

#[test]
fn messages_that_fit_their_length_fields() {
    let long = Message::CoreGetConfigResponse {
        status: Status::StatusOk,
        parameters: vec![ConfigParameter { id: ConfigParameterId::RfFieldInfo, value: vec![0; 256] }],
    };
    assert!(!long.fits());
    let many = Message::CoreSetConfigResponse {
        status: Status::InvalidParam,
        parameters: vec![ConfigParameterId::Rfu(0x99); 256],
    };
    assert!(!many.fits());
    assert!(Message::CoreInitResponse { status: Status::StatusOk }.fits());
}

#[test]
fn large_get_response_is_segmented() {
    let mut c = Controller::new(0);
    // 30 parameters of 20 bytes: a response payload of 2 + 30 * 22 = 662 bytes.
    let mut set = vec![30u8];
    let mut get = vec![30u8];
    for i in 0..30u8 {
        set.push(0x40 + (i % 16));
        set.push(20);
        set.extend_from_slice(&[i; 20]);
        get.push(0x40 + (i % 16));
    }
    let mut packet = vec![0x20, 0x02, 0xff];
    packet.extend_from_slice(&set);
    assert_eq!(c.receive(&packet).unwrap(), vec![vec![0x40, 0x02, 0x02, 0x00, 0x00]]);
    let mut packet = vec![0x20, 0x03, get.len() as u8];
    packet.extend_from_slice(&get);
    let out = c.receive(&packet).unwrap();
    assert_eq!(out.len(), 1);
    assert_eq!(out[0].len(), 3 + 662);
    let segments = casimir::codec::segment(&out[0]);
    assert_eq!(segments.len(), 3);
    assert_eq!(segments[2][2], (662 - 510) as u8);
}
