//! Responses and Notifications sent by the controller, and their encoding.
use vstd::prelude::*;

use crate::codec::append_from;
use crate::nci::{
    ConfigParameter, ConfigParameterId, ConfigStatus, DeactivationReason, DeactivationType,
    ResetTrigger, Status, GID_CORE, GID_NFCEE, GID_RF, MT_NOTIFICATION, MT_RESPONSE,
    NCI_VERSION_1_1, OID_CORE_CONN_CLOSE, OID_CORE_CONN_CREATE, OID_CORE_GET_CONFIG,
    OID_CORE_INIT, OID_CORE_RESET, OID_CORE_SET_CONFIG, OID_CORE_SET_POWER_SUB_STATE,
    OID_NFCEE_DISCOVER, OID_RF_DEACTIVATE, OID_RF_DISCOVER, OID_RF_DISCOVER_MAP,
    OID_RF_GET_LISTEN_MODE_ROUTING, OID_RF_SET_LISTEN_MODE_ROUTING,
};

verus! {

/// A Response or Notification of the controller.
#[derive(Debug)]
pub enum Message {
    CoreResetResponse { status: Status },
    CoreResetNotification { trigger: ResetTrigger, config_status: ConfigStatus },
    CoreInitResponse { status: Status },
    CoreSetConfigResponse { status: Status, parameters: Vec<ConfigParameterId> },
    CoreGetConfigResponse { status: Status, parameters: Vec<ConfigParameter> },
    CoreConnCreateResponse {
        status: Status,
        max_data_packet_payload_size: u8,
        initial_number_of_credits: u8,
        conn_id: u8,
    },
    CoreConnCloseResponse { status: Status },
    CoreSetPowerSubStateResponse { status: Status },
    RfDiscoverMapResponse { status: Status },
    RfSetListenModeRoutingResponse { status: Status },
    RfGetListenModeRoutingResponse { status: Status, more_to_follow: u8 },
    RfDiscoverResponse { status: Status },
    RfDeactivateResponse { status: Status },
    RfDeactivateNotification {
        deactivation_type: DeactivationType,
        deactivation_reason: DeactivationReason,
    },
    NfceeDiscoverResponse { status: Status, number_of_nfcees: u8 },
}

/// Largest number of logical connections.
pub const MAX_LOGICAL_CONNECTIONS: u8 = 2;

/// Largest payload of a Control or Data packet, in bytes.
pub const MAX_PACKET_PAYLOAD_SIZE: u8 = 255;

/// Payload of CORE_INIT_RSP after its status: no optional feature, DH-only
/// discovery, two logical connections, a routing table of 512 entries,
/// 255-byte control and data packets, no credits, 512-byte NFC-V frames,
/// and the RF interfaces Frame, NFCEE Direct with frame aggregation, and
/// NFC-DEP.
pub open spec fn init_parameters() -> Seq<u8> {
    seq![
        0x00u8, 0x00, 0x00, 0x00,
        MAX_LOGICAL_CONNECTIONS,
        0x00, 0x02,
        MAX_PACKET_PAYLOAD_SIZE,
        MAX_PACKET_PAYLOAD_SIZE,
        0x00,
        0x00, 0x02,
        0x03,
        0x01, 0x00,
        0x00, 0x01, 0x00,
        0x03, 0x00,
    ]
}

/// Identifier list of CORE_SET_CONFIG_RSP.
pub open spec fn ids_bytes(s: Seq<ConfigParameterId>) -> Seq<u8> {
    s.map_values(|id: ConfigParameterId| id.value())
}

/// Parameter list of CORE_GET_CONFIG_RSP: identifier, length, value.
pub open spec fn params_bytes(s: Seq<ConfigParameter>) -> Seq<u8>
    decreases s.len(),
{
    if s.len() == 0 {
        Seq::empty()
    } else {
        params_bytes(s.drop_last()) + seq![s.last().id.value(), s.last().value@.len() as u8]
            + s.last().value@
    }
}

impl Message {
    pub open spec fn mt(&self) -> u8 {
        match self {
            Message::CoreResetNotification { .. } | Message::RfDeactivateNotification { .. } => MT_NOTIFICATION,
            _ => MT_RESPONSE,
        }
    }

    pub open spec fn gid(&self) -> u8 {
        match self {
            Message::CoreResetResponse { .. } | Message::CoreResetNotification { .. }
            | Message::CoreInitResponse { .. } | Message::CoreSetConfigResponse { .. }
            | Message::CoreGetConfigResponse { .. } | Message::CoreConnCreateResponse { .. }
            | Message::CoreConnCloseResponse { .. }
            | Message::CoreSetPowerSubStateResponse { .. } => GID_CORE,
            Message::NfceeDiscoverResponse { .. } => GID_NFCEE,
            _ => GID_RF,
        }
    }

    pub open spec fn oid(&self) -> u8 {
        match self {
            Message::CoreResetResponse { .. } | Message::CoreResetNotification { .. } => OID_CORE_RESET,
            Message::CoreInitResponse { .. } => OID_CORE_INIT,
            Message::CoreSetConfigResponse { .. } => OID_CORE_SET_CONFIG,
            Message::CoreGetConfigResponse { .. } => OID_CORE_GET_CONFIG,
            Message::CoreConnCreateResponse { .. } => OID_CORE_CONN_CREATE,
            Message::CoreConnCloseResponse { .. } => OID_CORE_CONN_CLOSE,
            Message::CoreSetPowerSubStateResponse { .. } => OID_CORE_SET_POWER_SUB_STATE,
            Message::RfDiscoverMapResponse { .. } => OID_RF_DISCOVER_MAP,
            Message::RfSetListenModeRoutingResponse { .. } => OID_RF_SET_LISTEN_MODE_ROUTING,
            Message::RfGetListenModeRoutingResponse { .. } => OID_RF_GET_LISTEN_MODE_ROUTING,
            Message::RfDiscoverResponse { .. } => OID_RF_DISCOVER,
            Message::RfDeactivateResponse { .. } | Message::RfDeactivateNotification { .. } => OID_RF_DEACTIVATE,
            Message::NfceeDiscoverResponse { .. } => OID_NFCEE_DISCOVER,
        }
    }

    /// The payload of the encoded message.
    pub open spec fn payload(&self) -> Seq<u8> {
        match self {
            Message::CoreResetResponse { status } => seq![status.value()],
            Message::CoreResetNotification { trigger, config_status } => seq![
                trigger.value(),
                config_status.value(),
                NCI_VERSION_1_1,
                0x00,
                0x00,
            ],
            Message::CoreInitResponse { status } => seq![status.value()] + init_parameters(),
            Message::CoreSetConfigResponse { status, parameters } => seq![
                status.value(),
                parameters@.len() as u8,
            ] + ids_bytes(parameters@),
            Message::CoreGetConfigResponse { status, parameters } => seq![
                status.value(),
                parameters@.len() as u8,
            ] + params_bytes(parameters@),
            Message::CoreConnCreateResponse {
                status,
                max_data_packet_payload_size,
                initial_number_of_credits,
                conn_id,
            } => seq![
                status.value(),
                *max_data_packet_payload_size,
                *initial_number_of_credits,
                *conn_id,
            ],
            Message::CoreConnCloseResponse { status } => seq![status.value()],
            Message::CoreSetPowerSubStateResponse { status } => seq![status.value()],
            Message::RfDiscoverMapResponse { status } => seq![status.value()],
            Message::RfSetListenModeRoutingResponse { status } => seq![status.value()],
            Message::RfGetListenModeRoutingResponse { status, more_to_follow } => seq![
                status.value(),
                *more_to_follow,
                0x00,
            ],
            Message::RfDiscoverResponse { status } => seq![status.value()],
            Message::RfDeactivateResponse { status } => seq![status.value()],
            Message::RfDeactivateNotification { deactivation_type, deactivation_reason } => seq![
                deactivation_type.value(),
                deactivation_reason.value(),
            ],
            Message::NfceeDiscoverResponse { status, number_of_nfcees } => seq![
                status.value(),
                *number_of_nfcees,
            ],
        }
    }

    /// Whether every list and value fits its one-byte length field.
    pub open spec fn wf(&self) -> bool {
        match self {
            Message::CoreSetConfigResponse { parameters, .. } => parameters@.len() <= 255,
            Message::CoreGetConfigResponse { parameters, .. } => parameters@.len() <= 255 && forall|
                i: int,
            |
                0 <= i < parameters@.len() ==> #[trigger] parameters@[i].value@.len() <= 255,
            _ => true,
        }
    }

    /// The logical packet: header, then payload. The length byte is the
    /// payload length where it fits; segmentation rewrites it otherwise.
    pub open spec fn bytes(&self) -> Seq<u8> {
        let len = self.payload().len();
        seq![
            (self.mt() * 32 + self.gid()) as u8,
            self.oid(),
            if len <= 255 {
                len as u8
            } else {
                255u8
            },
        ] + self.payload()
    }

    /// Whether the message can be encoded (see `wf`).
    pub fn fits(&self) -> (r: bool)
        ensures
            r == self.wf(),
    {
        match self {
            Message::CoreSetConfigResponse { parameters, .. } => parameters.len() <= 255,
            Message::CoreGetConfigResponse { parameters, .. } => {
                if parameters.len() > 255 {
                    return false;
                }
                let mut i: usize = 0;
                while i < parameters.len()
                    invariant
                        i <= parameters@.len(),
                        forall|j: int| 0 <= j < i ==> #[trigger] parameters@[j].value@.len() <= 255,
                        self.wf() == (forall|j: int|
                            0 <= j < parameters@.len() ==> #[trigger] parameters@[j].value@.len() <= 255),
                    decreases parameters@.len() - i,
                {
                    if parameters[i].value.len() > 255 {
                        assert(parameters@[i as int].value@.len() > 255);
                        return false;
                    }
                    i = i + 1;
                }
                true
            },
            _ => true,
        }
    }

    fn header_bytes(&self) -> (r: (u8, u8))
        ensures
            r.0 == (self.mt() * 32 + self.gid()) as u8,
            r.1 == self.oid(),
    {
        match self {
            Message::CoreResetResponse { .. } => (0x40, OID_CORE_RESET),
            Message::CoreResetNotification { .. } => (0x60, OID_CORE_RESET),
            Message::CoreInitResponse { .. } => (0x40, OID_CORE_INIT),
            Message::CoreSetConfigResponse { .. } => (0x40, OID_CORE_SET_CONFIG),
            Message::CoreGetConfigResponse { .. } => (0x40, OID_CORE_GET_CONFIG),
            Message::CoreConnCreateResponse { .. } => (0x40, OID_CORE_CONN_CREATE),
            Message::CoreConnCloseResponse { .. } => (0x40, OID_CORE_CONN_CLOSE),
            Message::CoreSetPowerSubStateResponse { .. } => (0x40, OID_CORE_SET_POWER_SUB_STATE),
            Message::RfDiscoverMapResponse { .. } => (0x41, OID_RF_DISCOVER_MAP),
            Message::RfSetListenModeRoutingResponse { .. } => (0x41, OID_RF_SET_LISTEN_MODE_ROUTING),
            Message::RfGetListenModeRoutingResponse { .. } => (0x41, OID_RF_GET_LISTEN_MODE_ROUTING),
            Message::RfDiscoverResponse { .. } => (0x41, OID_RF_DISCOVER),
            Message::RfDeactivateResponse { .. } => (0x41, OID_RF_DEACTIVATE),
            Message::RfDeactivateNotification { .. } => (0x61, OID_RF_DEACTIVATE),
            Message::NfceeDiscoverResponse { .. } => (0x42, OID_NFCEE_DISCOVER),
        }
    }

    fn encode_payload(&self) -> (r: Vec<u8>)
        requires
            self.wf(),
        ensures
            r@ == self.payload(),
    {
        let mut r: Vec<u8> = Vec::new();
        match self {
            Message::CoreResetResponse { status } | Message::CoreConnCloseResponse { status }
            | Message::CoreSetPowerSubStateResponse { status }
            | Message::RfDiscoverMapResponse { status }
            | Message::RfSetListenModeRoutingResponse { status }
            | Message::RfDiscoverResponse { status }
            | Message::RfDeactivateResponse { status } => {
                r.push(status.to_u8());
            },
            Message::CoreResetNotification { trigger, config_status } => {
                r.push(trigger.to_u8());
                r.push(config_status.to_u8());
                r.push(NCI_VERSION_1_1);
                r.push(0x00);
                r.push(0x00);
            },
            Message::CoreInitResponse { status } => {
                r.push(status.to_u8());
                r.push(0x00);
                r.push(0x00);
                r.push(0x00);
                r.push(0x00);
                r.push(MAX_LOGICAL_CONNECTIONS);
                r.push(0x00);
                r.push(0x02);
                r.push(MAX_PACKET_PAYLOAD_SIZE);
                r.push(MAX_PACKET_PAYLOAD_SIZE);
                r.push(0x00);
                r.push(0x00);
                r.push(0x02);
                r.push(0x03);
                r.push(0x01);
                r.push(0x00);
                r.push(0x00);
                r.push(0x01);
                r.push(0x00);
                r.push(0x03);
                r.push(0x00);
                assert(r@ =~= seq![status.value()] + init_parameters());
            },
            Message::CoreSetConfigResponse { status, parameters } => {
                r.push(status.to_u8());
                r.push(parameters.len() as u8);
                let mut i: usize = 0;
                while i < parameters.len()
                    invariant
                        i <= parameters@.len(),
                        r@ == seq![status.value(), parameters@.len() as u8] + ids_bytes(
                            parameters@.take(i as int),
                        ),
                    decreases parameters@.len() - i,
                {
                    r.push(parameters[i].to_u8());
                    i = i + 1;
                    assert(ids_bytes(parameters@.take(i as int)) =~= ids_bytes(
                        parameters@.take(i - 1),
                    ).push(parameters@[i - 1].value()));
                }
                assert(parameters@.take(i as int) =~= parameters@);
            },
            Message::CoreGetConfigResponse { status, parameters } => {
                r.push(status.to_u8());
                r.push(parameters.len() as u8);
                let mut i: usize = 0;
                while i < parameters.len()
                    invariant
                        i <= parameters@.len(),
                        forall|j: int|
                            0 <= j < parameters@.len() ==> #[trigger] parameters@[j].value@.len() <= 255,
                        r@ == seq![status.value(), parameters@.len() as u8] + params_bytes(
                            parameters@.take(i as int),
                        ),
                    decreases parameters@.len() - i,
                {
                    let p = &parameters[i];
                    r.push(p.id.to_u8());
                    r.push(p.value.len() as u8);
                    append_from(&mut r, &p.value, 0);
                    i = i + 1;
                    assert(parameters@.take(i as int).drop_last() =~= parameters@.take(i - 1));
                    assert(p.value@.skip(0) =~= p.value@);
                    assert(r@ =~= seq![status.value(), parameters@.len() as u8] + params_bytes(
                        parameters@.take(i as int),
                    ));
                }
                assert(parameters@.take(i as int) =~= parameters@);
            },
            Message::CoreConnCreateResponse {
                status,
                max_data_packet_payload_size,
                initial_number_of_credits,
                conn_id,
            } => {
                r.push(status.to_u8());
                r.push(*max_data_packet_payload_size);
                r.push(*initial_number_of_credits);
                r.push(*conn_id);
            },
            Message::RfGetListenModeRoutingResponse { status, more_to_follow } => {
                r.push(status.to_u8());
                r.push(*more_to_follow);
                r.push(0x00);
            },
            Message::RfDeactivateNotification { deactivation_type, deactivation_reason } => {
                r.push(deactivation_type.to_u8());
                r.push(deactivation_reason.to_u8());
            },
            Message::NfceeDiscoverResponse { status, number_of_nfcees } => {
                r.push(status.to_u8());
                r.push(*number_of_nfcees);
            },
        }
        assert(r@ =~= self.payload());
        r
    }

    /// Encodes the message as a logical NCI packet.
    pub fn encode(&self) -> (r: Vec<u8>)
        requires
            self.wf(),
        ensures
            r@ == self.bytes(),
    {
        let payload = self.encode_payload();
        let (h0, h1) = self.header_bytes();
        let len: u8 = if payload.len() <= 255 {
            payload.len() as u8
        } else {
            255
        };
        let mut r: Vec<u8> = Vec::new();
        r.push(h0);
        r.push(h1);
        r.push(len);
        append_from(&mut r, &payload, 0);
        assert(payload@.skip(0) =~= payload@);
        assert(r@ =~= self.bytes());
        r
    }
}

} // verus!

