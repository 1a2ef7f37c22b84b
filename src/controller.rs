//! The NFCC engine: its state, and what it does for each Command.
use std::collections::HashMap;
use vstd::prelude::*;

use crate::codec::{copy_range, mt_of};
use crate::command::{
    decodes, gid_of, is_supported, oid_of, parse_command, payload_ok, Command, ParseError,
};
use crate::message::{Message, MAX_LOGICAL_CONNECTIONS, MAX_PACKET_PAYLOAD_SIZE};
use crate::nci::{
    ConfigParameter, ConfigParameterId, ConfigStatus, DeactivationReason, DeactivationType,
    DestinationSpecificParameter, DestinationSpecificParameterId, DestinationType,
    MappingConfiguration, ResetTrigger, ResetType, RfProtocolType, Status, MT_COMMAND, MT_DATA,
};

verus! {

broadcast use vstd::std_specs::hash::group_hash_axioms;

/// State of an NFCC logical connection with the DH.
#[derive(Clone, Copy, Debug, PartialEq, Eq, Structural)]
pub enum LogicalConnection {
    RemoteNfcEndpoint { rf_discovery_id: u8, rf_protocol_type: RfProtocolType },
}

/// State of an NFCC instance.
pub struct State {
    /// Configuration parameters, keyed by the byte of their identifier.
    pub config_parameters: HashMap<u8, Vec<u8>>,
    /// Logical connections, indexed by their connection identifier.
    pub logical_connections: Vec<Option<LogicalConnection>>,
    pub discover_map: Vec<MappingConfiguration>,
}

/// Why a received packet ends the session.
#[derive(Clone, Copy, Debug, PartialEq, Eq, Structural)]
pub enum ControllerError {
    /// The packet is neither a Command nor Data.
    UnexpectedMessageType,
    /// The Command is not one that the controller handles.
    UnsupportedOpcode,
    /// The Command's payload does not follow its layout.
    Malformed,
}

impl State {
    /// Configuration values by identifier byte.
    pub open spec fn config(&self) -> Map<u8, Seq<u8>> {
        self.config_parameters@.map_values(|v: Vec<u8>| v@)
    }

    pub open spec fn connections(&self) -> Seq<Option<LogicalConnection>> {
        self.logical_connections@
    }

    pub open spec fn wf(&self) -> bool {
        &&& self.connections().len() == MAX_LOGICAL_CONNECTIONS
        &&& connections_unique(self.connections())
        &&& forall|k: u8| #[trigger]
            self.config_parameters@.contains_key(k) ==> ConfigParameterId::is_named(k)
                && self.config_parameters@[k]@.len() <= 255
    }
}

/// No two live logical connections are equal.
pub open spec fn connections_unique(conns: Seq<Option<LogicalConnection>>) -> bool {
    forall|i: int, j: int|
        0 <= i < conns.len() && 0 <= j < conns.len() && i != j && #[trigger] conns[i] is Some
            ==> conns[i] != #[trigger] conns[j]
}

/// `k` is the lowest free slot.
pub open spec fn is_first_free(conns: Seq<Option<LogicalConnection>>, k: int) -> bool {
    &&& 0 <= k < conns.len()
    &&& conns[k] is None
    &&& forall|j: int| 0 <= j < k ==> #[trigger] conns[j] is Some
}

pub open spec fn has_free(conns: Seq<Option<LogicalConnection>>) -> bool {
    exists|k: int| 0 <= k < conns.len() && #[trigger] conns[k] is None
}

/// The connection that CORE_CONN_CREATE_CMD asks for: a remote NFC
/// endpoint, described by RF Discovery parameters only, the last of which
/// gives the discovery identifier and a known protocol.
pub open spec fn requested_connection(
    destination_type: DestinationType,
    ps: Seq<DestinationSpecificParameter>,
) -> Option<LogicalConnection> {
    if destination_type == DestinationType::RemoteNfcEndpoint && ps.len() > 0 && (forall|i: int|
        0 <= i < ps.len() ==> #[trigger] ps[i].id == DestinationSpecificParameterId::RfDiscovery)
        && ps.last().value@.len() >= 2 && RfProtocolType::from_value(ps.last().value@[1]) is Some {
        Some(
            LogicalConnection::RemoteNfcEndpoint {
                rf_discovery_id: ps.last().value@[0],
                rf_protocol_type: RfProtocolType::from_value(ps.last().value@[1])->Some_0,
            },
        )
    } else {
        None
    }
}

/// The configuration after CORE_SET_CONFIG_CMD applies `ps` in order.
pub open spec fn apply_config(cfg: Map<u8, Seq<u8>>, ps: Seq<ConfigParameter>) -> Map<u8, Seq<u8>>
    decreases ps.len(),
{
    if ps.len() == 0 {
        cfg
    } else {
        let c = apply_config(cfg, ps.drop_last());
        if ps.last().id is Rfu {
            c
        } else {
            c.insert(ps.last().id.value(), ps.last().value@)
        }
    }
}

/// The reserved identifiers among `ps`, in order.
pub open spec fn rfu_ids(ps: Seq<ConfigParameter>) -> Seq<ConfigParameterId>
    decreases ps.len(),
{
    if ps.len() == 0 {
        Seq::empty()
    } else if ps.last().id is Rfu {
        rfu_ids(ps.drop_last()).push(ps.last().id)
    } else {
        rfu_ids(ps.drop_last())
    }
}

/// The requested identifiers that `cfg` holds, with their values.
pub open spec fn found_params(cfg: Map<u8, Seq<u8>>, ids: Seq<ConfigParameterId>) -> Seq<
    (ConfigParameterId, Seq<u8>),
>
    decreases ids.len(),
{
    if ids.len() == 0 {
        Seq::empty()
    } else if cfg.contains_key(ids.last().value()) {
        found_params(cfg, ids.drop_last()).push((ids.last(), cfg[ids.last().value()]))
    } else {
        found_params(cfg, ids.drop_last())
    }
}

/// The requested identifiers that `cfg` lacks, each with an empty value.
pub open spec fn missing_params(cfg: Map<u8, Seq<u8>>, ids: Seq<ConfigParameterId>) -> Seq<
    (ConfigParameterId, Seq<u8>),
>
    decreases ids.len(),
{
    if ids.len() == 0 {
        Seq::empty()
    } else if cfg.contains_key(ids.last().value()) {
        missing_params(cfg, ids.drop_last())
    } else {
        missing_params(cfg, ids.drop_last()).push((ids.last(), Seq::empty()))
    }
}

pub open spec fn params_view(s: Seq<ConfigParameter>) -> Seq<(ConfigParameterId, Seq<u8>)> {
    s.map_values(|p: ConfigParameter| (p.id, p.value@))
}

pub open spec fn same_state(a: State, b: State) -> bool {
    &&& a.config() == b.config()
    &&& a.connections() == b.connections()
    &&& a.discover_map@ == b.discover_map@
}

/// What CORE_RESET_CMD yields: OK, then a reset notification whose
/// configuration status follows the reset type.
pub open spec fn reset_post(reset_type: ResetType, r: Seq<Message>) -> bool {
    &&& r.len() == 2
    &&& r[0] == Message::CoreResetResponse { status: Status::StatusOk }
    &&& r[1] == Message::CoreResetNotification {
        trigger: ResetTrigger::ResetCommand,
        config_status: match reset_type {
            ResetType::KeepConfig => ConfigStatus::ConfigKept,
            ResetType::ResetConfig => ConfigStatus::ConfigReset,
        },
    }
}

pub open spec fn set_config_post(
    old_state: State,
    ps: Seq<ConfigParameter>,
    new_state: State,
    r: Seq<Message>,
) -> bool {
    &&& new_state.config() == apply_config(old_state.config(), ps)
    &&& new_state.connections() == old_state.connections()
    &&& new_state.discover_map@ == old_state.discover_map@
    &&& r.len() == 1
    &&& r[0] matches Message::CoreSetConfigResponse { status, parameters } && status == (if rfu_ids(
        ps,
    ).len() == 0 {
        Status::StatusOk
    } else {
        Status::InvalidParam
    }) && parameters@ == rfu_ids(ps)
}

pub open spec fn get_config_post(state: State, ids: Seq<ConfigParameterId>, r: Seq<Message>) -> bool {
    &&& r.len() == 1
    &&& r[0] matches Message::CoreGetConfigResponse { status, parameters } && if missing_params(
        state.config(),
        ids,
    ).len() == 0 {
        status == Status::StatusOk && params_view(parameters@) == found_params(state.config(), ids)
    } else {
        status == Status::InvalidParam && params_view(parameters@) == missing_params(
            state.config(),
            ids,
        )
    }
}

pub open spec fn conn_create_post(
    old_state: State,
    destination_type: DestinationType,
    ps: Seq<DestinationSpecificParameter>,
    new_state: State,
    r: Seq<Message>,
) -> bool {
    let conns = old_state.connections();
    &&& r.len() == 1
    &&& new_state.config() == old_state.config()
    &&& new_state.discover_map@ == old_state.discover_map@
    &&& if accepts_connection(conns, destination_type, ps) {
        let c = requested_connection(destination_type, ps)->Some_0;
        &&& r[0] matches Message::CoreConnCreateResponse {
            status,
            max_data_packet_payload_size,
            initial_number_of_credits,
            conn_id,
        } && status == Status::StatusOk && max_data_packet_payload_size == 255
            && initial_number_of_credits == 255 && is_first_free(conns, conn_id as int)
            && new_state.connections() == conns.update(conn_id as int, Some(c))
    } else {
        &&& r[0] == Message::CoreConnCreateResponse {
            status: Status::Rejected,
            max_data_packet_payload_size: 0,
            initial_number_of_credits: 255,
            conn_id: 0,
        }
        &&& new_state.connections() == conns
    }
}

/// Whether CORE_CONN_CREATE_CMD succeeds: a slot is free, the request is
/// valid, and no live connection is the one requested.
pub open spec fn accepts_connection(
    conns: Seq<Option<LogicalConnection>>,
    destination_type: DestinationType,
    ps: Seq<DestinationSpecificParameter>,
) -> bool {
    &&& has_free(conns)
    &&& requested_connection(destination_type, ps) is Some
    &&& !conns.contains(requested_connection(destination_type, ps))
}

pub open spec fn conn_close_post(old_state: State, conn_id: u8, new_state: State, r: Seq<Message>) -> bool {
    let conns = old_state.connections();
    &&& r.len() == 1
    &&& new_state.config() == old_state.config()
    &&& new_state.discover_map@ == old_state.discover_map@
    &&& if conn_id < MAX_LOGICAL_CONNECTIONS && conns[conn_id as int] is Some {
        &&& r[0] == Message::CoreConnCloseResponse { status: Status::StatusOk }
        &&& new_state.connections() == conns.update(conn_id as int, None)
    } else {
        &&& r[0] == Message::CoreConnCloseResponse { status: Status::Rejected }
        &&& new_state.connections() == conns
    }
}

/// What the controller does for the Command `cmd`: the state after it,
/// and the Response followed by any Notification.
pub open spec fn command_post(old_state: State, cmd: Command, new_state: State, r: Seq<Message>) -> bool {
    match cmd {
        Command::CoreSetConfig { parameters } => set_config_post(old_state, parameters@, new_state, r),
        Command::CoreConnCreate { destination_type, parameters } => conn_create_post(
            old_state,
            destination_type,
            parameters@,
            new_state,
            r,
        ),
        Command::CoreConnClose { conn_id } => conn_close_post(old_state, conn_id, new_state, r),
        Command::RfDiscoverMap { mapping_configurations } => {
            &&& new_state.config() == old_state.config()
            &&& new_state.connections() == old_state.connections()
            &&& new_state.discover_map@ == mapping_configurations@
            &&& r == seq![Message::RfDiscoverMapResponse { status: Status::StatusOk }]
        },
        _ => same_state(old_state, new_state) && match cmd {
            Command::CoreReset { reset_type } => reset_post(reset_type, r),
            Command::CoreInit => r == seq![Message::CoreInitResponse { status: Status::StatusOk }],
            Command::CoreGetConfig { parameters } => get_config_post(old_state, parameters@, r),
            Command::CoreSetPowerSubState { .. } => r == seq![
                Message::CoreSetPowerSubStateResponse { status: Status::StatusOk },
            ],
            Command::RfSetListenModeRouting => r == seq![
                Message::RfSetListenModeRoutingResponse { status: Status::StatusOk },
            ],
            Command::RfGetListenModeRouting => r == seq![
                Message::RfGetListenModeRoutingResponse {
                    status: Status::StatusOk,
                    more_to_follow: 0,
                },
            ],
            Command::RfDiscover => r == seq![Message::RfDiscoverResponse { status: Status::StatusOk }],
            Command::RfDeactivate { deactivation_type } => r == seq![
                Message::RfDeactivateResponse { status: Status::StatusOk },
                Message::RfDeactivateNotification {
                    deactivation_type,
                    deactivation_reason: DeactivationReason::DhRequest,
                },
            ],
            Command::NfceeDiscover => r == seq![
                Message::NfceeDiscoverResponse { status: Status::StatusOk, number_of_nfcees: 0 },
            ],
            _ => false,
        },
    }
}

/// An NFCC instance.
pub struct Controller {
    id: u16,
    state: State,
}

impl Controller {
    pub closed spec fn model(&self) -> State {
        self.state
    }

    pub closed spec fn spec_id(&self) -> u16 {
        self.id
    }

    pub open spec fn wf(&self) -> bool {
        self.model().wf()
    }

    /// A controller with an empty configuration, no logical connection
    /// and an empty discovery map.
    pub fn new(id: u16) -> (r: Controller)
        ensures
            r.wf(),
            r.spec_id() == id,
            r.model().config() == Map::<u8, Seq<u8>>::empty(),
            r.model().connections() == seq![None::<LogicalConnection>, None],
            r.model().discover_map@ == Seq::<MappingConfiguration>::empty(),
    {
        let mut logical_connections: Vec<Option<LogicalConnection>> = Vec::new();
        logical_connections.push(None);
        logical_connections.push(None);
        let r = Controller {
            id,
            state: State {
                config_parameters: HashMap::new(),
                logical_connections,
                discover_map: Vec::new(),
            },
        };
        assert(r.model().config() =~= Map::<u8, Seq<u8>>::empty());
        assert(r.model().connections() =~= seq![None::<LogicalConnection>, None]);
        r
    }

    /// Slot identifier of this controller in the scene.
    pub fn id(&self) -> (r: u16)
        ensures
            r == self.spec_id(),
    {
        self.id
    }

    pub fn state(&self) -> (r: &State)
        ensures
            *r == self.model(),
    {
        &self.state
    }

    /// The notification sent when the controller powers on.
    pub fn power_on(&self) -> (r: Message)
        ensures
            r == (Message::CoreResetNotification {
                trigger: ResetTrigger::PowerOn,
                config_status: ConfigStatus::ConfigReset,
            }),
    {
        Message::CoreResetNotification {
            trigger: ResetTrigger::PowerOn,
            config_status: ConfigStatus::ConfigReset,
        }
    }

    pub fn core_reset(&self, reset_type: ResetType) -> (r: Vec<Message>)
        ensures
            reset_post(reset_type, r@),
    {
        let config_status = match reset_type {
            ResetType::KeepConfig => ConfigStatus::ConfigKept,
            ResetType::ResetConfig => ConfigStatus::ConfigReset,
        };
        let mut r: Vec<Message> = Vec::new();
        r.push(Message::CoreResetResponse { status: Status::StatusOk });
        r.push(Message::CoreResetNotification { trigger: ResetTrigger::ResetCommand, config_status });
        r
    }

    pub fn core_init(&self) -> (r: Vec<Message>)
        ensures
            r@ == seq![Message::CoreInitResponse { status: Status::StatusOk }],
    {
        let mut r: Vec<Message> = Vec::new();
        r.push(Message::CoreInitResponse { status: Status::StatusOk });
        assert(r@ =~= seq![Message::CoreInitResponse { status: Status::StatusOk }]);
        r
    }

    pub fn core_set_config(&mut self, parameters: Vec<ConfigParameter>) -> (r: Vec<Message>)
        requires
            old(self).wf(),
            parameters@.len() <= 255,
            forall|i: int|
                0 <= i < parameters@.len() ==> #[trigger] parameters@[i].value@.len() <= 255,
        ensures
            final(self).wf(),
            final(self).spec_id() == old(self).spec_id(),
            set_config_post(old(self).model(), parameters@, final(self).model(), r@),
    {
        let ghost cfg0 = self.state.config();
        let mut invalid: Vec<ConfigParameterId> = Vec::new();
        let mut i: usize = 0;
        while i < parameters.len()
            invariant
                i <= parameters@.len(),
                forall|j: int|
                    0 <= j < parameters@.len() ==> #[trigger] parameters@[j].value@.len() <= 255,
                self.state.wf(),
                self.id == old(self).id,
                self.state.config() == apply_config(cfg0, parameters@.take(i as int)),
                self.state.connections() == old(self).state.connections(),
                self.state.discover_map@ == old(self).state.discover_map@,
                invalid@ == rfu_ids(parameters@.take(i as int)),
            decreases parameters@.len() - i,
        {
            let p = &parameters[i];
            let ghost before = self.state.config_parameters@;
            match p.id {
                ConfigParameterId::Rfu(_) => {
                    invalid.push(p.id);
                },
                _ => {
                    let value = copy_range(&p.value, 0, p.value.len());
                    assert(p.value@.subrange(0, p.value@.len() as int) =~= p.value@);
                    let key = p.id.to_u8();
                    self.state.config_parameters.insert(key, value);
                    assert(self.state.config() =~= before.map_values(|v: Vec<u8>| v@).insert(
                        key,
                        p.value@,
                    ));
                },
            }
            i = i + 1;
            assert(parameters@.take(i as int).drop_last() =~= parameters@.take(i - 1));
        }
        assert(parameters@.take(i as int) =~= parameters@);
        let status = if invalid.len() == 0 {
            Status::StatusOk
        } else {
            Status::InvalidParam
        };
        let mut r: Vec<Message> = Vec::new();
        r.push(Message::CoreSetConfigResponse { status, parameters: invalid });
        r
    }

    pub fn core_get_config(&self, ids: Vec<ConfigParameterId>) -> (r: Vec<Message>)
        requires
            self.wf(),
        ensures
            get_config_post(self.model(), ids@, r@),
    {
        let ghost cfg = self.state.config();
        let mut found: Vec<ConfigParameter> = Vec::new();
        let mut missing: Vec<ConfigParameter> = Vec::new();
        let mut i: usize = 0;
        while i < ids.len()
            invariant
                i <= ids@.len(),
                cfg == self.state.config(),
                params_view(found@) == found_params(cfg, ids@.take(i as int)),
                params_view(missing@) == missing_params(cfg, ids@.take(i as int)),
            decreases ids@.len() - i,
        {
            let id = ids[i];
            let ghost f0 = found@;
            let ghost m0 = missing@;
            match self.state.config_parameters.get(&id.to_u8()) {
                Some(v) => {
                    let value = copy_range(v, 0, v.len());
                    assert(v@.subrange(0, v@.len() as int) =~= v@);
                    found.push(ConfigParameter { id, value });
                    assert(params_view(found@) =~= params_view(f0).push((id, cfg[id.value()])));
                },
                None => {
                    missing.push(ConfigParameter { id, value: Vec::new() });
                    assert(params_view(missing@) =~= params_view(m0).push((id, Seq::empty())));
                },
            }
            i = i + 1;
            assert(ids@.take(i as int).drop_last() =~= ids@.take(i - 1));
        }
        assert(ids@.take(i as int) =~= ids@);
        let mut r: Vec<Message> = Vec::new();
        if missing.len() == 0 {
            r.push(Message::CoreGetConfigResponse { status: Status::StatusOk, parameters: found });
        } else {
            r.push(Message::CoreGetConfigResponse { status: Status::InvalidParam, parameters: missing });
        }
        r
    }

    pub fn core_conn_create(
        &mut self,
        destination_type: DestinationType,
        parameters: Vec<DestinationSpecificParameter>,
    ) -> (r: Vec<Message>)
        requires
            old(self).wf(),
        ensures
            final(self).wf(),
            final(self).spec_id() == old(self).spec_id(),
            conn_create_post(
                old(self).model(),
                destination_type,
                parameters@,
                final(self).model(),
                r@,
            ),
    {
        let ghost conns = self.state.connections();
        let mut conn_id: usize = 0;
        while conn_id < self.state.logical_connections.len()
            invariant
                conns == self.state.connections(),
                conn_id <= conns.len(),
                forall|j: int| 0 <= j < conn_id ==> #[trigger] conns[j] is Some,
            ensures
                conn_id == conns.len() || conns[conn_id as int] is None,
            decreases conns.len() - conn_id,
        {
            if self.state.logical_connections[conn_id].is_none() {
                break;
            }
            conn_id = conn_id + 1;
        }
        let mut r: Vec<Message> = Vec::new();
        if conn_id == self.state.logical_connections.len() {
            r.push(rejected_connection());
            return r;
        }
        assert(is_first_free(conns, conn_id as int));
        assert(has_free(conns));
        let c = match requested(destination_type, &parameters) {
            Some(c) => c,
            None => {
                r.push(rejected_connection());
                return r;
            },
        };
        let mut j: usize = 0;
        while j < self.state.logical_connections.len()
            invariant
                conns == self.state.connections(),
                conns == old(self).state.connections(),
                self.state.wf(),
                self.id == old(self).id,
                self.state.config() == old(self).state.config(),
                self.state.discover_map@ == old(self).state.discover_map@,
                requested_connection(destination_type, parameters@) == Some(c),
                r@.len() == 0,
                j <= conns.len(),
                forall|k: int| 0 <= k < j ==> #[trigger] conns[k] != Some(c),
            decreases conns.len() - j,
        {
            match self.state.logical_connections[j] {
                Some(x) => {
                    if x == c {
                        assert(conns[j as int] == Some(c));
                        assert(conns.contains(Some(c)));
                        r.push(rejected_connection());
                        return r;
                    }
                },
                None => {},
            }
            j = j + 1;
        }
        assert(!conns.contains(Some(c)));
        self.state.logical_connections.set(conn_id, Some(c));
        assert(self.state.connections() == conns.update(conn_id as int, Some(c)));
        assert(connections_unique(self.state.connections()));
        r.push(
            Message::CoreConnCreateResponse {
                status: Status::StatusOk,
                max_data_packet_payload_size: MAX_PACKET_PAYLOAD_SIZE,
                initial_number_of_credits: 255,
                conn_id: conn_id as u8,
            },
        );
        r
    }

    pub fn core_conn_close(&mut self, conn_id: u8) -> (r: Vec<Message>)
        requires
            old(self).wf(),
        ensures
            final(self).wf(),
            final(self).spec_id() == old(self).spec_id(),
            conn_close_post(old(self).model(), conn_id, final(self).model(), r@),
    {
        let mut r: Vec<Message> = Vec::new();
        if conn_id >= MAX_LOGICAL_CONNECTIONS || self.state.logical_connections[conn_id as usize].is_none() {
            r.push(Message::CoreConnCloseResponse { status: Status::Rejected });
        } else {
            self.state.logical_connections.set(conn_id as usize, None);
            r.push(Message::CoreConnCloseResponse { status: Status::StatusOk });
        }
        r
    }

    pub fn rf_discover_map(&mut self, mapping_configurations: Vec<MappingConfiguration>) -> (r: Vec<Message>)
        requires
            old(self).wf(),
        ensures
            final(self).wf(),
            final(self).spec_id() == old(self).spec_id(),
            final(self).model().config() == old(self).model().config(),
            final(self).model().connections() == old(self).model().connections(),
            final(self).model().discover_map@ == mapping_configurations@,
            r@ == seq![Message::RfDiscoverMapResponse { status: Status::StatusOk }],
    {
        self.state.discover_map = mapping_configurations;
        let mut r: Vec<Message> = Vec::new();
        r.push(Message::RfDiscoverMapResponse { status: Status::StatusOk });
        assert(r@ =~= seq![Message::RfDiscoverMapResponse { status: Status::StatusOk }]);
        r
    }

    pub fn core_set_power_sub_state(&self) -> (r: Vec<Message>)
        ensures
            r@ == seq![Message::CoreSetPowerSubStateResponse { status: Status::StatusOk }],
    {
        let mut r: Vec<Message> = Vec::new();
        r.push(Message::CoreSetPowerSubStateResponse { status: Status::StatusOk });
        assert(r@ =~= seq![Message::CoreSetPowerSubStateResponse { status: Status::StatusOk }]);
        r
    }

    pub fn rf_set_listen_mode_routing(&self) -> (r: Vec<Message>)
        ensures
            r@ == seq![Message::RfSetListenModeRoutingResponse { status: Status::StatusOk }],
    {
        let mut r: Vec<Message> = Vec::new();
        r.push(Message::RfSetListenModeRoutingResponse { status: Status::StatusOk });
        assert(r@ =~= seq![Message::RfSetListenModeRoutingResponse { status: Status::StatusOk }]);
        r
    }

    /// The routing table is reported empty.
    pub fn rf_get_listen_mode_routing(&self) -> (r: Vec<Message>)
        ensures
            r@ == seq![
                Message::RfGetListenModeRoutingResponse { status: Status::StatusOk, more_to_follow: 0 },
            ],
    {
        let mut r: Vec<Message> = Vec::new();
        r.push(Message::RfGetListenModeRoutingResponse { status: Status::StatusOk, more_to_follow: 0 });
        assert(r@ =~= seq![
            Message::RfGetListenModeRoutingResponse { status: Status::StatusOk, more_to_follow: 0 },
        ]);
        r
    }

    pub fn rf_discover(&self) -> (r: Vec<Message>)
        ensures
            r@ == seq![Message::RfDiscoverResponse { status: Status::StatusOk }],
    {
        let mut r: Vec<Message> = Vec::new();
        r.push(Message::RfDiscoverResponse { status: Status::StatusOk });
        assert(r@ =~= seq![Message::RfDiscoverResponse { status: Status::StatusOk }]);
        r
    }

    /// No NFCEE is reported.
    pub fn nfcee_discover(&self) -> (r: Vec<Message>)
        ensures
            r@ == seq![Message::NfceeDiscoverResponse { status: Status::StatusOk, number_of_nfcees: 0 }],
    {
        let mut r: Vec<Message> = Vec::new();
        r.push(Message::NfceeDiscoverResponse { status: Status::StatusOk, number_of_nfcees: 0 });
        assert(r@ =~= seq![
            Message::NfceeDiscoverResponse { status: Status::StatusOk, number_of_nfcees: 0 },
        ]);
        r
    }

    /// Handles one Command: the Response, then any Notification.
    pub fn receive_command(&mut self, cmd: Command) -> (r: Vec<Message>)
        requires
            old(self).wf(),
            command_wf(cmd),
        ensures
            final(self).wf(),
            final(self).spec_id() == old(self).spec_id(),
            command_post(old(self).model(), cmd, final(self).model(), r@),
            forall|i: int| 0 <= i < r@.len() ==> (#[trigger] r@[i]).wf(),
    {
        let r = match cmd {
            Command::CoreReset { reset_type } => self.core_reset(reset_type),
            Command::CoreInit => self.core_init(),
            Command::CoreSetConfig { parameters } => {
                let r = self.core_set_config(parameters);
                proof {
                    lemma_rfu_ids_len(parameters@);
                }
                r
            },
            Command::CoreGetConfig { parameters } => {
                let r = self.core_get_config(parameters);
                proof {
                    lemma_found_params(self.state.config(), parameters@);
                    lemma_missing_params(self.state.config(), parameters@);
                    let ps = r@[0]->CoreGetConfigResponse_parameters@;
                    assert forall|i: int| 0 <= i < ps.len() implies #[trigger] ps[i].value@.len()
                        <= 255 by {
                        assert(params_view(ps)[i].1 == ps[i].value@);
                    }
                }
                r
            },
            Command::CoreConnCreate { destination_type, parameters } => self.core_conn_create(
                destination_type,
                parameters,
            ),
            Command::CoreConnClose { conn_id } => self.core_conn_close(conn_id),
            Command::CoreSetPowerSubState { .. } => self.core_set_power_sub_state(),
            Command::RfDiscoverMap { mapping_configurations } => self.rf_discover_map(
                mapping_configurations,
            ),
            Command::RfSetListenModeRouting => self.rf_set_listen_mode_routing(),
            Command::RfGetListenModeRouting => self.rf_get_listen_mode_routing(),
            Command::RfDiscover => self.rf_discover(),
            Command::RfDeactivate { deactivation_type } => self.rf_deactivate(deactivation_type),
            Command::NfceeDiscover => self.nfcee_discover(),
        };
        r
    }

    /// Handles one reassembled logical packet and returns the packets to
    /// send back, in order.
    pub fn receive(&mut self, packet: &Vec<u8>) -> (r: Result<Vec<Vec<u8>>, ControllerError>)
        requires
            old(self).wf(),
            packet@.len() >= 3,
        ensures
            final(self).wf(),
            final(self).spec_id() == old(self).spec_id(),
            receive_post(old(self).model(), packet@, final(self).model(), r),
    {
        if packet[0] >> 5u8 == MT_DATA {
            return Ok(Vec::new());
        }
        let cmd = match parse_command(packet) {
            Ok(cmd) => cmd,
            Err(ParseError::UnexpectedMessageType) => {
                return Err(ControllerError::UnexpectedMessageType);
            },
            Err(ParseError::UnsupportedOpcode) => {
                return Err(ControllerError::UnsupportedOpcode);
            },
            Err(ParseError::Malformed) => {
                return Err(ControllerError::Malformed);
            },
        };
        let ghost c = cmd;
        proof {
            let q = packet@.skip(3);
            assert(decodes(c, packet@));
            match c {
                Command::CoreSetConfig { parameters } => {
                    crate::command::lemma_tlv_list_bounds(q.skip(1), q[0] as nat);
                    let m = crate::command::tlv_list(q.skip(1), q[0] as nat)->Some_0;
                    assert forall|i: int| 0 <= i < parameters@.len() implies #[trigger] parameters@[i].value@.len()
                        <= 255 by {
                        assert(parameters@[i].id.value() == m[i].0);
                        assert(m[i].1.len() <= 255);
                    }
                },
                _ => {},
            }
        }
        let msgs = self.receive_command(cmd);
        let mut out: Vec<Vec<u8>> = Vec::new();
        let mut i: usize = 0;
        while i < msgs.len()
            invariant
                i <= msgs@.len(),
                forall|j: int| 0 <= j < msgs@.len() ==> (#[trigger] msgs@[j]).wf(),
                out@.len() == i,
                forall|j: int| 0 <= j < i ==> #[trigger] out@[j]@ == msgs@[j].bytes(),
            decreases msgs@.len() - i,
        {
            out.push(msgs[i].encode());
            i = i + 1;
        }
        assert(decodes(c, packet@));
        assert(command_post(old(self).model(), c, self.model(), msgs@));
        Ok(out)
    }

    pub fn rf_deactivate(&self, deactivation_type: DeactivationType) -> (r: Vec<Message>)
        ensures
            r@ == seq![
                Message::RfDeactivateResponse { status: Status::StatusOk },
                Message::RfDeactivateNotification {
                    deactivation_type,
                    deactivation_reason: DeactivationReason::DhRequest,
                },
            ],
    {
        let mut r: Vec<Message> = Vec::new();
        r.push(Message::RfDeactivateResponse { status: Status::StatusOk });
        r.push(
            Message::RfDeactivateNotification {
                deactivation_type,
                deactivation_reason: DeactivationReason::DhRequest,
            },
        );
        assert(r@ =~= seq![
            Message::RfDeactivateResponse { status: Status::StatusOk },
            Message::RfDeactivateNotification {
                deactivation_type,
                deactivation_reason: DeactivationReason::DhRequest,
            },
        ]);
        r
    }
}

/// What the controller does with the logical packet `p`: Data is taken
/// without a reply, a Command is decoded and handled, and anything else
/// ends the session.
pub open spec fn receive_post(
    old_state: State,
    p: Seq<u8>,
    new_state: State,
    r: Result<Vec<Vec<u8>>, ControllerError>,
) -> bool {
    let mt = mt_of(p[0]);
    let gid = gid_of(p);
    let oid = oid_of(p);
    if mt == MT_DATA {
        &&& r matches Ok(out) && out@.len() == 0
        &&& same_state(old_state, new_state)
    } else if mt != MT_COMMAND {
        &&& r == Err::<Vec<Vec<u8>>, ControllerError>(ControllerError::UnexpectedMessageType)
        &&& same_state(old_state, new_state)
    } else if !is_supported(gid, oid) {
        &&& r == Err::<Vec<Vec<u8>>, ControllerError>(ControllerError::UnsupportedOpcode)
        &&& same_state(old_state, new_state)
    } else if !payload_ok(gid, oid, p.skip(3)) {
        &&& r == Err::<Vec<Vec<u8>>, ControllerError>(ControllerError::Malformed)
        &&& same_state(old_state, new_state)
    } else {
        r matches Ok(out) && exists|c: Command, msgs: Seq<Message>|
            #![trigger command_post(old_state, c, new_state, msgs)]
            {
                &&& decodes(c, p)
                &&& command_post(old_state, c, new_state, msgs)
                &&& out@.len() == msgs.len()
                &&& forall|i: int| 0 <= i < msgs.len() ==> #[trigger] out@[i]@ == msgs[i].bytes()
            }
    }
}

/// Commands whose lists fit their one-byte counts and lengths.
pub open spec fn command_wf(cmd: Command) -> bool {
    match cmd {
        Command::CoreSetConfig { parameters } => parameters@.len() <= 255 && forall|i: int|
            0 <= i < parameters@.len() ==> #[trigger] parameters@[i].value@.len() <= 255,
        Command::CoreGetConfig { parameters } => parameters@.len() <= 255,
        _ => true,
    }
}

proof fn lemma_rfu_ids_len(ps: Seq<ConfigParameter>)
    ensures
        rfu_ids(ps).len() <= ps.len(),
    decreases ps.len(),
{
    if ps.len() > 0 {
        lemma_rfu_ids_len(ps.drop_last());
    }
}

proof fn lemma_found_params(cfg: Map<u8, Seq<u8>>, ids: Seq<ConfigParameterId>)
    ensures
        found_params(cfg, ids).len() <= ids.len(),
        forall|i: int|
            0 <= i < found_params(cfg, ids).len() ==> cfg.contains_key(
                (#[trigger] found_params(cfg, ids)[i]).0.value(),
            ) && found_params(cfg, ids)[i].1 == cfg[found_params(cfg, ids)[i].0.value()],
    decreases ids.len(),
{
    if ids.len() > 0 {
        lemma_found_params(cfg, ids.drop_last());
    }
}

proof fn lemma_missing_params(cfg: Map<u8, Seq<u8>>, ids: Seq<ConfigParameterId>)
    ensures
        missing_params(cfg, ids).len() <= ids.len(),
        forall|i: int|
            0 <= i < missing_params(cfg, ids).len() ==> (#[trigger] missing_params(cfg, ids)[i]).1.len()
                == 0,
    decreases ids.len(),
{
    if ids.len() > 0 {
        lemma_missing_params(cfg, ids.drop_last());
    }
}

/// Every state that the controller reaches is well formed (each handler
/// keeps `wf`), and in a well-formed state no two live logical connections
/// are equal: a connection identifier names exactly one occupied slot.
pub proof fn lemma_connections_unique(s: State)
    requires
        s.wf(),
    ensures
        forall|i: int, j: int|
            0 <= i < s.connections().len() && 0 <= j < s.connections().len() && i != j
                && #[trigger] s.connections()[i] is Some ==> s.connections()[i]
                != #[trigger] s.connections()[j],
{
}

/// The lowest free slot (meaningful when there is one).
pub open spec fn first_free(conns: Seq<Option<LogicalConnection>>) -> int {
    choose|k: int| is_first_free(conns, k)
}

/// The logical connections after the Command `cmd`.
pub open spec fn conn_apply(conns: Seq<Option<LogicalConnection>>, cmd: Command) -> Seq<
    Option<LogicalConnection>,
> {
    match cmd {
        Command::CoreConnCreate { destination_type, parameters } => if accepts_connection(
            conns,
            destination_type,
            parameters@,
        ) {
            conns.update(first_free(conns), requested_connection(destination_type, parameters@))
        } else {
            conns
        },
        Command::CoreConnClose { conn_id } => if conn_id < MAX_LOGICAL_CONNECTIONS
            && conns[conn_id as int] is Some {
            conns.update(conn_id as int, None)
        } else {
            conns
        },
        _ => conns,
    }
}

/// The logical connections after the Commands `cmds`, in order.
pub open spec fn conn_run(conns: Seq<Option<LogicalConnection>>, cmds: Seq<Command>) -> Seq<
    Option<LogicalConnection>,
>
    decreases cmds.len(),
{
    if cmds.len() == 0 {
        conns
    } else {
        conn_apply(conn_run(conns, cmds.drop_last()), cmds.last())
    }
}

proof fn lemma_first_free(conns: Seq<Option<LogicalConnection>>, k: int)
    requires
        is_first_free(conns, k),
    ensures
        first_free(conns) == k,
{
    let f = first_free(conns);
    assert(is_first_free(conns, f));
    if f < k {
        assert(conns[f] is Some);
    } else if k < f {
        assert(conns[k] is Some);
    }
}

/// The controller's handlers change the logical connections exactly as
/// `conn_apply` says.
pub proof fn lemma_handlers_follow_model(old_state: State, cmd: Command, new_state: State, r: Seq<Message>)
    requires
        old_state.wf(),
        command_post(old_state, cmd, new_state, r),
    ensures
        new_state.connections() == conn_apply(old_state.connections(), cmd),
{
    let conns = old_state.connections();
    match cmd {
        Command::CoreConnCreate { destination_type, parameters } => {
            if accepts_connection(conns, destination_type, parameters@) {
                let conn_id = r[0]->CoreConnCreateResponse_conn_id;
                lemma_first_free(conns, conn_id as int);
            }
        },
        _ => {},
    }
}

/// From no connection, any sequence of Commands leaves two slots and no
/// two equal live connections; with `lemma_handlers_follow_model`, this
/// holds of the controller after any sequence of CREATE and CLOSE.
pub proof fn lemma_conn_sequence(cmds: Seq<Command>)
    ensures
        conn_run(seq![None, None], cmds).len() == MAX_LOGICAL_CONNECTIONS,
        connections_unique(conn_run(seq![None, None], cmds)),
    decreases cmds.len(),
{
    if cmds.len() > 0 {
        lemma_conn_sequence(cmds.drop_last());
        let conns = conn_run(seq![None, None], cmds.drop_last());
        match cmds.last() {
            Command::CoreConnCreate { destination_type, parameters } => {
                if accepts_connection(conns, destination_type, parameters@) {
                    let k = if conns[0] is None {
                        0
                    } else {
                        1
                    };
                    assert(is_first_free(conns, k));
                    lemma_first_free(conns, k);
                    let c = requested_connection(destination_type, parameters@);
                    assert(!conns.contains(c));
                    let n = conns.update(k, c);
                    assert forall|i: int, j: int|
                        0 <= i < n.len() && 0 <= j < n.len() && i != j && #[trigger] n[i] is Some
                            implies n[i] != #[trigger] n[j] by {
                        if i == k {
                            assert(conns[j] != c);
                        } else if j == k {
                            assert(conns[i] != c);
                        }
                    }
                }
            },
            _ => {},
        }
    }
}

/// The slots that hold a live connection.
pub open spec fn live_slots(s: State) -> Set<int> {
    Set::new(|i: int| 0 <= i < s.connections().len() && s.connections()[i] is Some)
}

/// Whether the replies `r` to CORE_CONN_CREATE_CMD accept it.
pub open spec fn create_accepted(r: Seq<Message>) -> bool {
    &&& r.len() > 0
    &&& r[0] matches Message::CoreConnCreateResponse { status, .. } && status == Status::StatusOk
}

/// The connection identifiers that a client holds after the Command
/// `cmd` with replies `r`, from those it held before (`o`).
pub open spec fn occupied_step(o: Set<int>, cmd: Command, r: Seq<Message>) -> Set<int> {
    match cmd {
        Command::CoreConnCreate { .. } => if create_accepted(r) {
            o.insert(r[0]->CoreConnCreateResponse_conn_id as int)
        } else {
            o
        },
        Command::CoreConnClose { conn_id } => if r.len() > 0 && r[0] == (Message::CoreConnCloseResponse {
            status: Status::StatusOk,
        }) {
            o.remove(conn_id as int)
        } else {
            o
        },
        _ => o,
    }
}

/// The connection identifiers handed out by accepted CORE_CONN_CREATE
/// responses and not closed since by an accepted CORE_CONN_CLOSE, over the
/// Commands `cmds` and their replies `rs`.
pub open spec fn occupied_ids(cmds: Seq<Command>, rs: Seq<Seq<Message>>) -> Set<int>
    decreases cmds.len(),
{
    if cmds.len() == 0 || rs.len() != cmds.len() {
        Set::empty()
    } else {
        occupied_step(occupied_ids(cmds.drop_last(), rs.drop_last()), cmds.last(), rs.last())
    }
}

proof fn lemma_occupied_step(old_state: State, cmd: Command, new_state: State, r: Seq<Message>)
    requires
        old_state.wf(),
        command_post(old_state, cmd, new_state, r),
    ensures
        occupied_step(live_slots(old_state), cmd, r) == live_slots(new_state),
        cmd is CoreConnCreate && create_accepted(r) ==> !live_slots(old_state).contains(
            r[0]->CoreConnCreateResponse_conn_id as int,
        ),
{
    let conns = old_state.connections();
    match cmd {
        Command::CoreConnCreate { destination_type, parameters } => {
            if accepts_connection(conns, destination_type, parameters@) {
                let k = r[0]->CoreConnCreateResponse_conn_id as int;
                assert(occupied_step(live_slots(old_state), cmd, r) =~= live_slots(new_state));
            } else {
                assert(occupied_step(live_slots(old_state), cmd, r) =~= live_slots(new_state));
            }
        },
        Command::CoreConnClose { conn_id } => {
            assert(occupied_step(live_slots(old_state), cmd, r) =~= live_slots(new_state));
        },
        _ => {
            assert(occupied_step(live_slots(old_state), cmd, r) =~= live_slots(new_state));
        },
    }
}

/// Over any history of Commands handled by a controller that started with
/// no connection (`states[i]` before `cmds[i]`, `rs[i]` its replies), the
/// identifiers that the responses left open are exactly the occupied
/// slots, no two live connections are equal, and an accepted
/// CORE_CONN_CREATE never hands out an identifier that is still open.
pub proof fn lemma_conn_history(states: Seq<State>, cmds: Seq<Command>, rs: Seq<Seq<Message>>)
    requires
        states.len() == cmds.len() + 1,
        rs.len() == cmds.len(),
        states[0].connections() == seq![None::<LogicalConnection>, None],
        forall|i: int| 0 <= i < states.len() ==> (#[trigger] states[i]).wf(),
        forall|i: int|
            0 <= i < cmds.len() ==> command_post(states[i], #[trigger] cmds[i], states[i + 1], rs[i]),
    ensures
        occupied_ids(cmds, rs) == live_slots(states.last()),
        connections_unique(states.last().connections()),
        forall|i: int|
            0 <= i < cmds.len() && #[trigger] cmds[i] is CoreConnCreate && create_accepted(rs[i])
                ==> !occupied_ids(cmds.take(i), rs.take(i)).contains(
                rs[i][0]->CoreConnCreateResponse_conn_id as int,
            ),
    decreases cmds.len(),
{
    let n = cmds.len() as int;
    if n == 0 {
        assert(live_slots(states[0]) =~= Set::<int>::empty());
    } else {
        let states0 = states.drop_last();
        let cmds0 = cmds.drop_last();
        let rs0 = rs.drop_last();
        assert forall|i: int| 0 <= i < states0.len() implies (#[trigger] states0[i]).wf() by {
            assert(states0[i] == states[i]);
        }
        assert forall|i: int| 0 <= i < cmds0.len() implies command_post(
            states0[i],
            #[trigger] cmds0[i],
            states0[i + 1],
            rs0[i],
        ) by {
            assert(cmds0[i] == cmds[i]);
        }
        lemma_conn_history(states0, cmds0, rs0);
        assert(states0.last() == states[n - 1]);
        assert(states.last() == states[n]);
        assert(cmds.last() == cmds[n - 1]);
        assert(states[n - 1].wf());
        assert(command_post(states[n - 1], cmds[n - 1], states[n], rs[n - 1]));
        lemma_occupied_step(states[n - 1], cmds[n - 1], states[n], rs[n - 1]);
        assert(states[n].wf());
        assert forall|i: int|
            0 <= i < cmds.len() && #[trigger] cmds[i] is CoreConnCreate && create_accepted(rs[i])
                implies !occupied_ids(cmds.take(i), rs.take(i)).contains(
                rs[i][0]->CoreConnCreateResponse_conn_id as int,
            ) by {
            if i < n - 1 {
                assert(cmds0[i] == cmds[i]);
                assert(rs0[i] == rs[i]);
                assert(cmds0.take(i) =~= cmds.take(i));
                assert(rs0.take(i) =~= rs.take(i));
            } else {
                assert(cmds.take(i) =~= cmds0);
                assert(rs.take(i) =~= rs0);
            }
        }
    }
}

proof fn lemma_found_params_frame(
    cfg: Map<u8, Seq<u8>>,
    ids: Seq<ConfigParameterId>,
    k: u8,
    v: Seq<u8>,
)
    requires
        forall|i: int| 0 <= i < ids.len() ==> (#[trigger] ids[i]).value() != k,
    ensures
        found_params(cfg.insert(k, v), ids) == found_params(cfg, ids),
        missing_params(cfg.insert(k, v), ids) == missing_params(cfg, ids),
    decreases ids.len(),
{
    if ids.len() > 0 {
        lemma_found_params_frame(cfg, ids.drop_last(), k, v);
        assert(ids.last() == ids[ids.len() - 1]);
    }
}

/// Setting parameters with named, pairwise distinct identifiers and then
/// getting those identifiers returns exactly the values set, in order,
/// with nothing reported missing (so the status is OK).
pub proof fn lemma_set_get_symmetry(cfg: Map<u8, Seq<u8>>, ps: Seq<ConfigParameter>)
    requires
        forall|i: int| 0 <= i < ps.len() ==> !((#[trigger] ps[i]).id is Rfu),
        forall|i: int, j: int|
            0 <= i < j < ps.len() ==> (#[trigger] ps[i]).id.value() != (#[trigger] ps[j]).id.value(),
    ensures
        missing_params(apply_config(cfg, ps), ps.map_values(|p: ConfigParameter| p.id)).len() == 0,
        found_params(apply_config(cfg, ps), ps.map_values(|p: ConfigParameter| p.id))
            == params_view(ps),
    decreases ps.len(),
{
    let ids = ps.map_values(|p: ConfigParameter| p.id);
    if ps.len() > 0 {
        let init = ps.drop_last();
        let last = ps.last();
        lemma_set_get_symmetry(cfg, init);
        let ids0 = init.map_values(|p: ConfigParameter| p.id);
        assert(ids.drop_last() =~= ids0);
        assert(ids.last() == last.id);
        assert forall|i: int| 0 <= i < ids0.len() implies (#[trigger] ids0[i]).value() != last.id.value() by {
            assert(ps[i] == init[i]);
            assert(ps[ps.len() - 1] == last);
        }
        let c0 = apply_config(cfg, init);
        lemma_found_params_frame(c0, ids0, last.id.value(), last.value@);
        assert(params_view(ps) =~= params_view(init).push((last.id, last.value@)));
    } else {
        assert(params_view(ps) =~= Seq::<(ConfigParameterId, Seq<u8>)>::empty());
    }
}

proof fn lemma_rfu_ids_filter(ps: Seq<ConfigParameter>)
    ensures
        rfu_ids(ps) == ps.filter(|p: ConfigParameter| p.id is Rfu).map_values(
            |p: ConfigParameter| p.id,
        ),
    decreases ps.len(),
{
    reveal(Seq::filter);
    let pred = |p: ConfigParameter| p.id is Rfu;
    if ps.len() > 0 {
        lemma_rfu_ids_filter(ps.drop_last());
        assert(ps.filter(pred).map_values(|p: ConfigParameter| p.id) =~= if ps.last().id is Rfu {
            ps.drop_last().filter(pred).map_values(|p: ConfigParameter| p.id).push(ps.last().id)
        } else {
            ps.drop_last().filter(pred).map_values(|p: ConfigParameter| p.id)
        });
    } else {
        assert(ps.filter(pred) =~= Seq::<ConfigParameter>::empty());
        assert(ps.filter(pred).map_values(|p: ConfigParameter| p.id) =~= Seq::<ConfigParameterId>::empty());
    }
}

proof fn lemma_rfu_ids_empty(ps: Seq<ConfigParameter>)
    ensures
        (rfu_ids(ps).len() == 0) <==> (forall|i: int| 0 <= i < ps.len() ==> !((#[trigger] ps[i]).id is Rfu)),
    decreases ps.len(),
{
    if ps.len() > 0 {
        let init = ps.drop_last();
        lemma_rfu_ids_empty(init);
        lemma_rfu_ids_len(init);
        if rfu_ids(ps).len() == 0 {
            assert forall|i: int| 0 <= i < ps.len() implies !((#[trigger] ps[i]).id is Rfu) by {
                if i < ps.len() - 1 {
                    assert(ps[i] == init[i]);
                }
            }
        } else if !(ps.last().id is Rfu) {
            let i = choose|i: int| 0 <= i < init.len() && (#[trigger] init[i]).id is Rfu;
            assert(ps[i] == init[i]);
        }
    }
}

proof fn lemma_apply_last_write(cfg: Map<u8, Seq<u8>>, ps: Seq<ConfigParameter>, i: int)
    requires
        0 <= i < ps.len(),
        !(ps[i].id is Rfu),
        forall|j: int|
            i < j < ps.len() && !(ps[j].id is Rfu) ==> #[trigger] ps[j].id.value() != ps[i].id.value(),
    ensures
        apply_config(cfg, ps).contains_key(ps[i].id.value()),
        apply_config(cfg, ps)[ps[i].id.value()] == ps[i].value@,
    decreases ps.len(),
{
    let init = ps.drop_last();
    if i < ps.len() - 1 {
        assert(ps[i] == init[i]);
        assert forall|j: int| i < j < init.len() && !(init[j].id is Rfu) implies #[trigger] init[j].id.value()
            != init[i].id.value() by {
            assert(ps[j] == init[j]);
        }
        lemma_apply_last_write(cfg, init, i);
        assert(ps[ps.len() - 1] == ps.last());
    }
}

/// No named entry of `ps` has the identifier byte `k`.
pub open spec fn untouched(ps: Seq<ConfigParameter>, k: u8) -> bool {
    forall|i: int| 0 <= i < ps.len() && !(ps[i].id is Rfu) ==> #[trigger] ps[i].id.value() != k
}

proof fn lemma_apply_frame(cfg: Map<u8, Seq<u8>>, ps: Seq<ConfigParameter>, k: u8)
    requires
        forall|i: int| 0 <= i < ps.len() && !(ps[i].id is Rfu) ==> #[trigger] ps[i].id.value() != k,
    ensures
        apply_config(cfg, ps).contains_key(k) == cfg.contains_key(k),
        cfg.contains_key(k) ==> apply_config(cfg, ps)[k] == cfg[k],
    decreases ps.len(),
{
    if ps.len() > 0 {
        let init = ps.drop_last();
        assert forall|i: int| 0 <= i < init.len() && !(init[i].id is Rfu) implies #[trigger] init[i].id.value() != k by {
            assert(ps[i] == init[i]);
        }
        lemma_apply_frame(cfg, init, k);
        assert(ps[ps.len() - 1] == ps.last());
    }
}

/// A SET that mixes named and reserved identifiers: the reserved ones
/// are reported, exactly and in order; the status is OK only when there
/// is none; every named entry that no later named entry overrides is
/// applied; and no other identifier changes.
pub proof fn lemma_partial_set(cfg: Map<u8, Seq<u8>>, ps: Seq<ConfigParameter>)
    ensures
        rfu_ids(ps) == ps.filter(|p: ConfigParameter| p.id is Rfu).map_values(
            |p: ConfigParameter| p.id,
        ),
        (rfu_ids(ps).len() == 0) <==> (forall|i: int| 0 <= i < ps.len() ==> !((#[trigger] ps[i]).id is Rfu)),
        forall|i: int|
            0 <= i < ps.len() && !((#[trigger] ps[i]).id is Rfu) && (forall|j: int|
                i < j < ps.len() && !(ps[j].id is Rfu) ==> #[trigger] ps[j].id.value() != ps[i].id.value())
                ==> apply_config(cfg, ps).contains_key(ps[i].id.value()) && apply_config(cfg, ps)[ps[i].id.value()]
                == ps[i].value@,
        forall|k: u8|
            #[trigger] untouched(ps, k) ==> apply_config(cfg, ps).contains_key(k) == cfg.contains_key(k)
                && (cfg.contains_key(k) ==> apply_config(cfg, ps)[k] == cfg[k]),
{
    lemma_rfu_ids_filter(ps);
    lemma_rfu_ids_empty(ps);
    assert forall|i: int|
        0 <= i < ps.len() && !((#[trigger] ps[i]).id is Rfu) && (forall|j: int|
            i < j < ps.len() && !(ps[j].id is Rfu) ==> #[trigger] ps[j].id.value() != ps[i].id.value())
            implies apply_config(cfg, ps).contains_key(ps[i].id.value()) && apply_config(cfg, ps)[ps[i].id.value()]
            == ps[i].value@ by {
        lemma_apply_last_write(cfg, ps, i);
    }
    assert forall|k: u8| #[trigger] untouched(ps, k) implies apply_config(cfg, ps).contains_key(k)
        == cfg.contains_key(k) && (cfg.contains_key(k) ==> apply_config(cfg, ps)[k] == cfg[k]) by {
        lemma_apply_frame(cfg, ps, k);
    }
}

fn rejected_connection() -> (r: Message)
    ensures
        r == (Message::CoreConnCreateResponse {
            status: Status::Rejected,
            max_data_packet_payload_size: 0,
            initial_number_of_credits: 255,
            conn_id: 0,
        }),
{
    Message::CoreConnCreateResponse {
        status: Status::Rejected,
        max_data_packet_payload_size: 0,
        initial_number_of_credits: 255,
        conn_id: 0,
    }
}

/// The connection that CORE_CONN_CREATE_CMD asks for, if it is valid.
pub fn requested(destination_type: DestinationType, parameters: &Vec<DestinationSpecificParameter>) -> (r:
    Option<LogicalConnection>)
    ensures
        r == requested_connection(destination_type, parameters@),
{
    if destination_type != DestinationType::RemoteNfcEndpoint || parameters.len() == 0 {
        return None;
    }
    let mut i: usize = 0;
    while i < parameters.len()
        invariant
            i <= parameters@.len(),
            forall|j: int|
                0 <= j < i ==> #[trigger] parameters@[j].id == DestinationSpecificParameterId::RfDiscovery,
        decreases parameters@.len() - i,
    {
        match parameters[i].id {
            DestinationSpecificParameterId::RfDiscovery => {},
            _ => {
                return None;
            },
        }
        i = i + 1;
    }
    let last = &parameters[parameters.len() - 1];
    if last.value.len() < 2 {
        return None;
    }
    match RfProtocolType::from_u8(last.value[1]) {
        Some(rf_protocol_type) => Some(
            LogicalConnection::RemoteNfcEndpoint { rf_discovery_id: last.value[0], rf_protocol_type },
        ),
        None => None,
    }
}

} // verus!
