//! Values carried by NCI Control messages, with their byte encodings.
use vstd::prelude::*;

verus! {

/// Message Type of an NCI packet (three bits of the first header byte).
pub const MT_DATA: u8 = 0;
pub const MT_COMMAND: u8 = 1;
pub const MT_RESPONSE: u8 = 2;
pub const MT_NOTIFICATION: u8 = 3;

/// Group identifiers.
pub const GID_CORE: u8 = 0;
pub const GID_RF: u8 = 1;
pub const GID_NFCEE: u8 = 2;

/// Opcode identifiers of the Core group.
pub const OID_CORE_RESET: u8 = 0x00;
pub const OID_CORE_INIT: u8 = 0x01;
pub const OID_CORE_SET_CONFIG: u8 = 0x02;
pub const OID_CORE_GET_CONFIG: u8 = 0x03;
pub const OID_CORE_CONN_CREATE: u8 = 0x04;
pub const OID_CORE_CONN_CLOSE: u8 = 0x05;
pub const OID_CORE_SET_POWER_SUB_STATE: u8 = 0x09;

/// Opcode identifiers of the RF group.
pub const OID_RF_DISCOVER_MAP: u8 = 0x00;
pub const OID_RF_SET_LISTEN_MODE_ROUTING: u8 = 0x01;
pub const OID_RF_GET_LISTEN_MODE_ROUTING: u8 = 0x02;
pub const OID_RF_DISCOVER: u8 = 0x03;
pub const OID_RF_DEACTIVATE: u8 = 0x06;

/// Opcode identifiers of the NFCEE group.
pub const OID_NFCEE_DISCOVER: u8 = 0x00;

/// NCI version advertised by the controller (1.1).
pub const NCI_VERSION_1_1: u8 = 0x11;

/// Status code of a Response.
#[derive(Clone, Copy, Debug, PartialEq, Eq, Structural)]
pub enum Status {
    /// STATUS_OK.
    StatusOk,
    Rejected,
    Failed,
    SyntaxError,
    SemanticError,
    InvalidParam,
}

impl Status {
    /// The byte that encodes this value.
    pub open spec fn value(self) -> u8 {
        match self {
            Status::StatusOk => 0x00,
            Status::Rejected => 0x01,
            Status::Failed => 0x03,
            Status::SyntaxError => 0x05,
            Status::SemanticError => 0x06,
            Status::InvalidParam => 0x09,
        }
    }

    /// Whether `b` encodes a value of this type.
    pub open spec fn is_valid(b: u8) -> bool {
        b == 0x00 || b == 0x01 || b == 0x03 || b == 0x05 || b == 0x06 || b == 0x09
    }

    pub fn to_u8(&self) -> (r: u8)
        ensures
            r == self.value(),
    {
        match self {
            Status::StatusOk => 0x00,
            Status::Rejected => 0x01,
            Status::Failed => 0x03,
            Status::SyntaxError => 0x05,
            Status::SemanticError => 0x06,
            Status::InvalidParam => 0x09,
        }
    }

    /// The value that `b` encodes, if any.
    pub open spec fn from_value(b: u8) -> Option<Status> {
        match b {
            0x00 => Some(Status::StatusOk),
            0x01 => Some(Status::Rejected),
            0x03 => Some(Status::Failed),
            0x05 => Some(Status::SyntaxError),
            0x06 => Some(Status::SemanticError),
            0x09 => Some(Status::InvalidParam),
            _ => None,
        }
    }

    pub fn from_u8(b: u8) -> (r: Option<Status>)
        ensures
            r == Self::from_value(b),
            r is Some <==> Self::is_valid(b),
            r matches Some(v) ==> v.value() == b,
    {
        match b {
            0x00 => Some(Status::StatusOk),
            0x01 => Some(Status::Rejected),
            0x03 => Some(Status::Failed),
            0x05 => Some(Status::SyntaxError),
            0x06 => Some(Status::SemanticError),
            0x09 => Some(Status::InvalidParam),
            _ => None,
        }
    }
}

/// Reset Type of CORE_RESET_CMD.
#[derive(Clone, Copy, Debug, PartialEq, Eq, Structural)]
pub enum ResetType {
    KeepConfig,
    ResetConfig,
}

impl ResetType {
    /// The byte that encodes this value.
    pub open spec fn value(self) -> u8 {
        match self {
            ResetType::KeepConfig => 0x00,
            ResetType::ResetConfig => 0x01,
        }
    }

    /// Whether `b` encodes a value of this type.
    pub open spec fn is_valid(b: u8) -> bool {
        b == 0x00 || b == 0x01
    }

    pub fn to_u8(&self) -> (r: u8)
        ensures
            r == self.value(),
    {
        match self {
            ResetType::KeepConfig => 0x00,
            ResetType::ResetConfig => 0x01,
        }
    }

    /// The value that `b` encodes, if any.
    pub open spec fn from_value(b: u8) -> Option<ResetType> {
        match b {
            0x00 => Some(ResetType::KeepConfig),
            0x01 => Some(ResetType::ResetConfig),
            _ => None,
        }
    }

    pub fn from_u8(b: u8) -> (r: Option<ResetType>)
        ensures
            r == Self::from_value(b),
            r is Some <==> Self::is_valid(b),
            r matches Some(v) ==> v.value() == b,
    {
        match b {
            0x00 => Some(ResetType::KeepConfig),
            0x01 => Some(ResetType::ResetConfig),
            _ => None,
        }
    }
}

/// Reason given in CORE_RESET_NTF.
#[derive(Clone, Copy, Debug, PartialEq, Eq, Structural)]
pub enum ResetTrigger {
    UnrecoverableError,
    PowerOn,
    ResetCommand,
}

impl ResetTrigger {
    /// The byte that encodes this value.
    pub open spec fn value(self) -> u8 {
        match self {
            ResetTrigger::UnrecoverableError => 0x00,
            ResetTrigger::PowerOn => 0x01,
            ResetTrigger::ResetCommand => 0x02,
        }
    }

    /// Whether `b` encodes a value of this type.
    pub open spec fn is_valid(b: u8) -> bool {
        b == 0x00 || b == 0x01 || b == 0x02
    }

    pub fn to_u8(&self) -> (r: u8)
        ensures
            r == self.value(),
    {
        match self {
            ResetTrigger::UnrecoverableError => 0x00,
            ResetTrigger::PowerOn => 0x01,
            ResetTrigger::ResetCommand => 0x02,
        }
    }

    /// The value that `b` encodes, if any.
    pub open spec fn from_value(b: u8) -> Option<ResetTrigger> {
        match b {
            0x00 => Some(ResetTrigger::UnrecoverableError),
            0x01 => Some(ResetTrigger::PowerOn),
            0x02 => Some(ResetTrigger::ResetCommand),
            _ => None,
        }
    }

    pub fn from_u8(b: u8) -> (r: Option<ResetTrigger>)
        ensures
            r == Self::from_value(b),
            r is Some <==> Self::is_valid(b),
            r matches Some(v) ==> v.value() == b,
    {
        match b {
            0x00 => Some(ResetTrigger::UnrecoverableError),
            0x01 => Some(ResetTrigger::PowerOn),
            0x02 => Some(ResetTrigger::ResetCommand),
            _ => None,
        }
    }
}

/// Whether the configuration survived a reset.
#[derive(Clone, Copy, Debug, PartialEq, Eq, Structural)]
pub enum ConfigStatus {
    ConfigKept,
    ConfigReset,
}

impl ConfigStatus {
    /// The byte that encodes this value.
    pub open spec fn value(self) -> u8 {
        match self {
            ConfigStatus::ConfigKept => 0x00,
            ConfigStatus::ConfigReset => 0x01,
        }
    }

    /// Whether `b` encodes a value of this type.
    pub open spec fn is_valid(b: u8) -> bool {
        b == 0x00 || b == 0x01
    }

    pub fn to_u8(&self) -> (r: u8)
        ensures
            r == self.value(),
    {
        match self {
            ConfigStatus::ConfigKept => 0x00,
            ConfigStatus::ConfigReset => 0x01,
        }
    }

    /// The value that `b` encodes, if any.
    pub open spec fn from_value(b: u8) -> Option<ConfigStatus> {
        match b {
            0x00 => Some(ConfigStatus::ConfigKept),
            0x01 => Some(ConfigStatus::ConfigReset),
            _ => None,
        }
    }

    pub fn from_u8(b: u8) -> (r: Option<ConfigStatus>)
        ensures
            r == Self::from_value(b),
            r is Some <==> Self::is_valid(b),
            r matches Some(v) ==> v.value() == b,
    {
        match b {
            0x00 => Some(ConfigStatus::ConfigKept),
            0x01 => Some(ConfigStatus::ConfigReset),
            _ => None,
        }
    }
}

/// Destination of a logical connection.
#[derive(Clone, Copy, Debug, PartialEq, Eq, Structural)]
pub enum DestinationType {
    NfccLoopback,
    RemoteNfcEndpoint,
    Nfcee,
}

impl DestinationType {
    /// The byte that encodes this value.
    pub open spec fn value(self) -> u8 {
        match self {
            DestinationType::NfccLoopback => 0x01,
            DestinationType::RemoteNfcEndpoint => 0x02,
            DestinationType::Nfcee => 0x03,
        }
    }

    /// Whether `b` encodes a value of this type.
    pub open spec fn is_valid(b: u8) -> bool {
        b == 0x01 || b == 0x02 || b == 0x03
    }

    pub fn to_u8(&self) -> (r: u8)
        ensures
            r == self.value(),
    {
        match self {
            DestinationType::NfccLoopback => 0x01,
            DestinationType::RemoteNfcEndpoint => 0x02,
            DestinationType::Nfcee => 0x03,
        }
    }

    /// The value that `b` encodes, if any.
    pub open spec fn from_value(b: u8) -> Option<DestinationType> {
        match b {
            0x01 => Some(DestinationType::NfccLoopback),
            0x02 => Some(DestinationType::RemoteNfcEndpoint),
            0x03 => Some(DestinationType::Nfcee),
            _ => None,
        }
    }

    pub fn from_u8(b: u8) -> (r: Option<DestinationType>)
        ensures
            r == Self::from_value(b),
            r is Some <==> Self::is_valid(b),
            r matches Some(v) ==> v.value() == b,
    {
        match b {
            0x01 => Some(DestinationType::NfccLoopback),
            0x02 => Some(DestinationType::RemoteNfcEndpoint),
            0x03 => Some(DestinationType::Nfcee),
            _ => None,
        }
    }
}

/// RF protocol of a remote endpoint.
#[derive(Clone, Copy, Debug, PartialEq, Eq, Structural)]
pub enum RfProtocolType {
    Undetermined,
    T1t,
    T2t,
    T3t,
    IsoDep,
    NfcDep,
    T5t,
    Ndef,
}

impl RfProtocolType {
    /// The byte that encodes this value.
    pub open spec fn value(self) -> u8 {
        match self {
            RfProtocolType::Undetermined => 0x00,
            RfProtocolType::T1t => 0x01,
            RfProtocolType::T2t => 0x02,
            RfProtocolType::T3t => 0x03,
            RfProtocolType::IsoDep => 0x04,
            RfProtocolType::NfcDep => 0x05,
            RfProtocolType::T5t => 0x06,
            RfProtocolType::Ndef => 0x07,
        }
    }

    /// Whether `b` encodes a value of this type.
    pub open spec fn is_valid(b: u8) -> bool {
        b == 0x00 || b == 0x01 || b == 0x02 || b == 0x03 || b == 0x04 || b == 0x05 || b == 0x06 || b == 0x07
    }

    pub fn to_u8(&self) -> (r: u8)
        ensures
            r == self.value(),
    {
        match self {
            RfProtocolType::Undetermined => 0x00,
            RfProtocolType::T1t => 0x01,
            RfProtocolType::T2t => 0x02,
            RfProtocolType::T3t => 0x03,
            RfProtocolType::IsoDep => 0x04,
            RfProtocolType::NfcDep => 0x05,
            RfProtocolType::T5t => 0x06,
            RfProtocolType::Ndef => 0x07,
        }
    }

    /// The value that `b` encodes, if any.
    pub open spec fn from_value(b: u8) -> Option<RfProtocolType> {
        match b {
            0x00 => Some(RfProtocolType::Undetermined),
            0x01 => Some(RfProtocolType::T1t),
            0x02 => Some(RfProtocolType::T2t),
            0x03 => Some(RfProtocolType::T3t),
            0x04 => Some(RfProtocolType::IsoDep),
            0x05 => Some(RfProtocolType::NfcDep),
            0x06 => Some(RfProtocolType::T5t),
            0x07 => Some(RfProtocolType::Ndef),
            _ => None,
        }
    }

    pub fn from_u8(b: u8) -> (r: Option<RfProtocolType>)
        ensures
            r == Self::from_value(b),
            r is Some <==> Self::is_valid(b),
            r matches Some(v) ==> v.value() == b,
    {
        match b {
            0x00 => Some(RfProtocolType::Undetermined),
            0x01 => Some(RfProtocolType::T1t),
            0x02 => Some(RfProtocolType::T2t),
            0x03 => Some(RfProtocolType::T3t),
            0x04 => Some(RfProtocolType::IsoDep),
            0x05 => Some(RfProtocolType::NfcDep),
            0x06 => Some(RfProtocolType::T5t),
            0x07 => Some(RfProtocolType::Ndef),
            _ => None,
        }
    }
}

/// Target state of RF_DEACTIVATE_CMD.
#[derive(Clone, Copy, Debug, PartialEq, Eq, Structural)]
pub enum DeactivationType {
    IdleMode,
    SleepMode,
    SleepAfMode,
    DiscoveryMode,
}

impl DeactivationType {
    /// The byte that encodes this value.
    pub open spec fn value(self) -> u8 {
        match self {
            DeactivationType::IdleMode => 0x00,
            DeactivationType::SleepMode => 0x01,
            DeactivationType::SleepAfMode => 0x02,
            DeactivationType::DiscoveryMode => 0x03,
        }
    }

    /// Whether `b` encodes a value of this type.
    pub open spec fn is_valid(b: u8) -> bool {
        b == 0x00 || b == 0x01 || b == 0x02 || b == 0x03
    }

    pub fn to_u8(&self) -> (r: u8)
        ensures
            r == self.value(),
    {
        match self {
            DeactivationType::IdleMode => 0x00,
            DeactivationType::SleepMode => 0x01,
            DeactivationType::SleepAfMode => 0x02,
            DeactivationType::DiscoveryMode => 0x03,
        }
    }

    /// The value that `b` encodes, if any.
    pub open spec fn from_value(b: u8) -> Option<DeactivationType> {
        match b {
            0x00 => Some(DeactivationType::IdleMode),
            0x01 => Some(DeactivationType::SleepMode),
            0x02 => Some(DeactivationType::SleepAfMode),
            0x03 => Some(DeactivationType::DiscoveryMode),
            _ => None,
        }
    }

    pub fn from_u8(b: u8) -> (r: Option<DeactivationType>)
        ensures
            r == Self::from_value(b),
            r is Some <==> Self::is_valid(b),
            r matches Some(v) ==> v.value() == b,
    {
        match b {
            0x00 => Some(DeactivationType::IdleMode),
            0x01 => Some(DeactivationType::SleepMode),
            0x02 => Some(DeactivationType::SleepAfMode),
            0x03 => Some(DeactivationType::DiscoveryMode),
            _ => None,
        }
    }
}

/// Reason given in RF_DEACTIVATE_NTF.
#[derive(Clone, Copy, Debug, PartialEq, Eq, Structural)]
pub enum DeactivationReason {
    DhRequest,
    EndpointRequest,
    RfLinkLoss,
    NfcBBadAfi,
}

impl DeactivationReason {
    /// The byte that encodes this value.
    pub open spec fn value(self) -> u8 {
        match self {
            DeactivationReason::DhRequest => 0x00,
            DeactivationReason::EndpointRequest => 0x01,
            DeactivationReason::RfLinkLoss => 0x02,
            DeactivationReason::NfcBBadAfi => 0x03,
        }
    }

    /// Whether `b` encodes a value of this type.
    pub open spec fn is_valid(b: u8) -> bool {
        b == 0x00 || b == 0x01 || b == 0x02 || b == 0x03
    }

    pub fn to_u8(&self) -> (r: u8)
        ensures
            r == self.value(),
    {
        match self {
            DeactivationReason::DhRequest => 0x00,
            DeactivationReason::EndpointRequest => 0x01,
            DeactivationReason::RfLinkLoss => 0x02,
            DeactivationReason::NfcBBadAfi => 0x03,
        }
    }

    /// The value that `b` encodes, if any.
    pub open spec fn from_value(b: u8) -> Option<DeactivationReason> {
        match b {
            0x00 => Some(DeactivationReason::DhRequest),
            0x01 => Some(DeactivationReason::EndpointRequest),
            0x02 => Some(DeactivationReason::RfLinkLoss),
            0x03 => Some(DeactivationReason::NfcBBadAfi),
            _ => None,
        }
    }

    pub fn from_u8(b: u8) -> (r: Option<DeactivationReason>)
        ensures
            r == Self::from_value(b),
            r is Some <==> Self::is_valid(b),
            r matches Some(v) ==> v.value() == b,
    {
        match b {
            0x00 => Some(DeactivationReason::DhRequest),
            0x01 => Some(DeactivationReason::EndpointRequest),
            0x02 => Some(DeactivationReason::RfLinkLoss),
            0x03 => Some(DeactivationReason::NfcBBadAfi),
            _ => None,
        }
    }
}

/// RF interface advertised in CORE_INIT_RSP.
#[derive(Clone, Copy, Debug, PartialEq, Eq, Structural)]
pub enum RfInterfaceType {
    NfceeDirect,
    Frame,
    IsoDep,
    NfcDep,
}

impl RfInterfaceType {
    /// The byte that encodes this value.
    pub open spec fn value(self) -> u8 {
        match self {
            RfInterfaceType::NfceeDirect => 0x00,
            RfInterfaceType::Frame => 0x01,
            RfInterfaceType::IsoDep => 0x02,
            RfInterfaceType::NfcDep => 0x03,
        }
    }

    /// Whether `b` encodes a value of this type.
    pub open spec fn is_valid(b: u8) -> bool {
        b == 0x00 || b == 0x01 || b == 0x02 || b == 0x03
    }

    pub fn to_u8(&self) -> (r: u8)
        ensures
            r == self.value(),
    {
        match self {
            RfInterfaceType::NfceeDirect => 0x00,
            RfInterfaceType::Frame => 0x01,
            RfInterfaceType::IsoDep => 0x02,
            RfInterfaceType::NfcDep => 0x03,
        }
    }

    /// The value that `b` encodes, if any.
    pub open spec fn from_value(b: u8) -> Option<RfInterfaceType> {
        match b {
            0x00 => Some(RfInterfaceType::NfceeDirect),
            0x01 => Some(RfInterfaceType::Frame),
            0x02 => Some(RfInterfaceType::IsoDep),
            0x03 => Some(RfInterfaceType::NfcDep),
            _ => None,
        }
    }

    pub fn from_u8(b: u8) -> (r: Option<RfInterfaceType>)
        ensures
            r == Self::from_value(b),
            r is Some <==> Self::is_valid(b),
            r matches Some(v) ==> v.value() == b,
    {
        match b {
            0x00 => Some(RfInterfaceType::NfceeDirect),
            0x01 => Some(RfInterfaceType::Frame),
            0x02 => Some(RfInterfaceType::IsoDep),
            0x03 => Some(RfInterfaceType::NfcDep),
            _ => None,
        }
    }
}

/// Extension of an RF interface.
#[derive(Clone, Copy, Debug, PartialEq, Eq, Structural)]
pub enum RfInterfaceExtensionType {
    FrameAggregated,
    LlcpSymmetry,
}

impl RfInterfaceExtensionType {
    /// The byte that encodes this value.
    pub open spec fn value(self) -> u8 {
        match self {
            RfInterfaceExtensionType::FrameAggregated => 0x00,
            RfInterfaceExtensionType::LlcpSymmetry => 0x01,
        }
    }

    /// Whether `b` encodes a value of this type.
    pub open spec fn is_valid(b: u8) -> bool {
        b == 0x00 || b == 0x01
    }

    pub fn to_u8(&self) -> (r: u8)
        ensures
            r == self.value(),
    {
        match self {
            RfInterfaceExtensionType::FrameAggregated => 0x00,
            RfInterfaceExtensionType::LlcpSymmetry => 0x01,
        }
    }

    /// The value that `b` encodes, if any.
    pub open spec fn from_value(b: u8) -> Option<RfInterfaceExtensionType> {
        match b {
            0x00 => Some(RfInterfaceExtensionType::FrameAggregated),
            0x01 => Some(RfInterfaceExtensionType::LlcpSymmetry),
            _ => None,
        }
    }

    pub fn from_u8(b: u8) -> (r: Option<RfInterfaceExtensionType>)
        ensures
            r == Self::from_value(b),
            r is Some <==> Self::is_valid(b),
            r matches Some(v) ==> v.value() == b,
    {
        match b {
            0x00 => Some(RfInterfaceExtensionType::FrameAggregated),
            0x01 => Some(RfInterfaceExtensionType::LlcpSymmetry),
            _ => None,
        }
    }
}

/// Type of a destination-specific parameter of CORE_CONN_CREATE_CMD.
#[derive(Clone, Copy, Debug, PartialEq, Eq, Structural)]
pub enum DestinationSpecificParameterId {
    RfDiscovery,
    Nfcee,
    /// Any other type byte.
    Rfu(u8),
}

impl DestinationSpecificParameterId {
    /// The byte that encodes this value.
    pub open spec fn value(self) -> u8 {
        match self {
            DestinationSpecificParameterId::RfDiscovery => 0x00,
            DestinationSpecificParameterId::Nfcee => 0x01,
            DestinationSpecificParameterId::Rfu(b) => b,
        }
    }

    /// Whether `b` is one of the named identifiers.
    pub open spec fn is_named(b: u8) -> bool {
        b == 0x00
            || b == 0x01
    }

    pub fn to_u8(&self) -> (r: u8)
        ensures
            r == self.value(),
    {
        match self {
            DestinationSpecificParameterId::RfDiscovery => 0x00,
            DestinationSpecificParameterId::Nfcee => 0x01,
            DestinationSpecificParameterId::Rfu(b) => *b,
        }
    }

    /// Decodes `b`; a byte with no name becomes `Rfu`.
    pub fn from_u8(b: u8) -> (r: DestinationSpecificParameterId)
        ensures
            r.value() == b,
            r is Rfu <==> !Self::is_named(b),
    {
        match b {
            0x00 => DestinationSpecificParameterId::RfDiscovery,
            0x01 => DestinationSpecificParameterId::Nfcee,
            _ => DestinationSpecificParameterId::Rfu(b),
        }
    }
}

/// Identifier of a configuration parameter.
#[derive(Clone, Copy, Debug, PartialEq, Eq, Structural)]
pub enum ConfigParameterId {
    TotalDuration,
    ConDevicesLimit,
    ConDiscoveryParam,
    PowerState,
    PaBailOut,
    PaDevicesLimit,
    PbAfi,
    PbBailOut,
    PbAttribParam1,
    PbSensbReqParam,
    PbDevicesLimit,
    PfBitRate,
    PfBailOut,
    PfDevicesLimit,
    PiBHInfo,
    PiBitRate,
    PnNfcDepPsl,
    PnAtrReqGenBytes,
    PnAtrReqConfig,
    PvDevicesLimit,
    LaBitFrameSdd,
    LaPlatformConfig,
    LaSelInfo,
    LaNfcid1,
    LbSensbInfo,
    LbNfcid0,
    LbApplicationData,
    LbSfgi,
    LbFwiAdcFo,
    LbBitRate,
    LfT3tIdentifiers1,
    LfT3tIdentifiers2,
    LfT3tIdentifiers3,
    LfT3tIdentifiers4,
    LfT3tIdentifiers5,
    LfT3tIdentifiers6,
    LfT3tIdentifiers7,
    LfT3tIdentifiers8,
    LfT3tIdentifiers9,
    LfT3tIdentifiers10,
    LfT3tIdentifiers11,
    LfT3tIdentifiers12,
    LfT3tIdentifiers13,
    LfT3tIdentifiers14,
    LfT3tIdentifiers15,
    LfT3tIdentifiers16,
    LfProtocolType,
    LfT3tPmmDefault,
    LfT3tMax,
    LfT3tFlags,
    LfT3tRdAllowed,
    LiARatsTb1,
    LiAHistBy,
    LiBHInfoResp,
    LiABitRate,
    LiARatsTc1,
    LnWt,
    LnAtrResGenBytes,
    LnAtrResConfig,
    PacmBitRate,
    RfFieldInfo,
    RfNfceeAction,
    NfcdepOp,
    LlcpVersion,
    NfccConfigControl,
    /// An identifier reserved for future use.
    Rfu(u8),
}

impl ConfigParameterId {
    /// The byte that encodes this value.
    pub open spec fn value(self) -> u8 {
        match self {
            ConfigParameterId::TotalDuration => 0x00,
            ConfigParameterId::ConDevicesLimit => 0x01,
            ConfigParameterId::ConDiscoveryParam => 0x02,
            ConfigParameterId::PowerState => 0x03,
            ConfigParameterId::PaBailOut => 0x08,
            ConfigParameterId::PaDevicesLimit => 0x09,
            ConfigParameterId::PbAfi => 0x10,
            ConfigParameterId::PbBailOut => 0x11,
            ConfigParameterId::PbAttribParam1 => 0x12,
            ConfigParameterId::PbSensbReqParam => 0x13,
            ConfigParameterId::PbDevicesLimit => 0x14,
            ConfigParameterId::PfBitRate => 0x18,
            ConfigParameterId::PfBailOut => 0x19,
            ConfigParameterId::PfDevicesLimit => 0x1a,
            ConfigParameterId::PiBHInfo => 0x20,
            ConfigParameterId::PiBitRate => 0x21,
            ConfigParameterId::PnNfcDepPsl => 0x28,
            ConfigParameterId::PnAtrReqGenBytes => 0x29,
            ConfigParameterId::PnAtrReqConfig => 0x2a,
            ConfigParameterId::PvDevicesLimit => 0x2f,
            ConfigParameterId::LaBitFrameSdd => 0x30,
            ConfigParameterId::LaPlatformConfig => 0x31,
            ConfigParameterId::LaSelInfo => 0x32,
            ConfigParameterId::LaNfcid1 => 0x33,
            ConfigParameterId::LbSensbInfo => 0x38,
            ConfigParameterId::LbNfcid0 => 0x39,
            ConfigParameterId::LbApplicationData => 0x3a,
            ConfigParameterId::LbSfgi => 0x3b,
            ConfigParameterId::LbFwiAdcFo => 0x3c,
            ConfigParameterId::LbBitRate => 0x3e,
            ConfigParameterId::LfT3tIdentifiers1 => 0x40,
            ConfigParameterId::LfT3tIdentifiers2 => 0x41,
            ConfigParameterId::LfT3tIdentifiers3 => 0x42,
            ConfigParameterId::LfT3tIdentifiers4 => 0x43,
            ConfigParameterId::LfT3tIdentifiers5 => 0x44,
            ConfigParameterId::LfT3tIdentifiers6 => 0x45,
            ConfigParameterId::LfT3tIdentifiers7 => 0x46,
            ConfigParameterId::LfT3tIdentifiers8 => 0x47,
            ConfigParameterId::LfT3tIdentifiers9 => 0x48,
            ConfigParameterId::LfT3tIdentifiers10 => 0x49,
            ConfigParameterId::LfT3tIdentifiers11 => 0x4a,
            ConfigParameterId::LfT3tIdentifiers12 => 0x4b,
            ConfigParameterId::LfT3tIdentifiers13 => 0x4c,
            ConfigParameterId::LfT3tIdentifiers14 => 0x4d,
            ConfigParameterId::LfT3tIdentifiers15 => 0x4e,
            ConfigParameterId::LfT3tIdentifiers16 => 0x4f,
            ConfigParameterId::LfProtocolType => 0x50,
            ConfigParameterId::LfT3tPmmDefault => 0x51,
            ConfigParameterId::LfT3tMax => 0x52,
            ConfigParameterId::LfT3tFlags => 0x53,
            ConfigParameterId::LfT3tRdAllowed => 0x54,
            ConfigParameterId::LiARatsTb1 => 0x58,
            ConfigParameterId::LiAHistBy => 0x59,
            ConfigParameterId::LiBHInfoResp => 0x5a,
            ConfigParameterId::LiABitRate => 0x5b,
            ConfigParameterId::LiARatsTc1 => 0x5c,
            ConfigParameterId::LnWt => 0x60,
            ConfigParameterId::LnAtrResGenBytes => 0x61,
            ConfigParameterId::LnAtrResConfig => 0x62,
            ConfigParameterId::PacmBitRate => 0x68,
            ConfigParameterId::RfFieldInfo => 0x80,
            ConfigParameterId::RfNfceeAction => 0x81,
            ConfigParameterId::NfcdepOp => 0x82,
            ConfigParameterId::LlcpVersion => 0x83,
            ConfigParameterId::NfccConfigControl => 0x85,
            ConfigParameterId::Rfu(b) => b,
        }
    }

    /// Whether `b` is one of the named identifiers.
    pub open spec fn is_named(b: u8) -> bool {
        b == 0x00
            || b == 0x01
            || b == 0x02
            || b == 0x03
            || b == 0x08
            || b == 0x09
            || b == 0x10
            || b == 0x11
            || b == 0x12
            || b == 0x13
            || b == 0x14
            || b == 0x18
            || b == 0x19
            || b == 0x1a
            || b == 0x20
            || b == 0x21
            || b == 0x28
            || b == 0x29
            || b == 0x2a
            || b == 0x2f
            || b == 0x30
            || b == 0x31
            || b == 0x32
            || b == 0x33
            || b == 0x38
            || b == 0x39
            || b == 0x3a
            || b == 0x3b
            || b == 0x3c
            || b == 0x3e
            || b == 0x40
            || b == 0x41
            || b == 0x42
            || b == 0x43
            || b == 0x44
            || b == 0x45
            || b == 0x46
            || b == 0x47
            || b == 0x48
            || b == 0x49
            || b == 0x4a
            || b == 0x4b
            || b == 0x4c
            || b == 0x4d
            || b == 0x4e
            || b == 0x4f
            || b == 0x50
            || b == 0x51
            || b == 0x52
            || b == 0x53
            || b == 0x54
            || b == 0x58
            || b == 0x59
            || b == 0x5a
            || b == 0x5b
            || b == 0x5c
            || b == 0x60
            || b == 0x61
            || b == 0x62
            || b == 0x68
            || b == 0x80
            || b == 0x81
            || b == 0x82
            || b == 0x83
            || b == 0x85
    }

    pub fn to_u8(&self) -> (r: u8)
        ensures
            r == self.value(),
    {
        match self {
            ConfigParameterId::TotalDuration => 0x00,
            ConfigParameterId::ConDevicesLimit => 0x01,
            ConfigParameterId::ConDiscoveryParam => 0x02,
            ConfigParameterId::PowerState => 0x03,
            ConfigParameterId::PaBailOut => 0x08,
            ConfigParameterId::PaDevicesLimit => 0x09,
            ConfigParameterId::PbAfi => 0x10,
            ConfigParameterId::PbBailOut => 0x11,
            ConfigParameterId::PbAttribParam1 => 0x12,
            ConfigParameterId::PbSensbReqParam => 0x13,
            ConfigParameterId::PbDevicesLimit => 0x14,
            ConfigParameterId::PfBitRate => 0x18,
            ConfigParameterId::PfBailOut => 0x19,
            ConfigParameterId::PfDevicesLimit => 0x1a,
            ConfigParameterId::PiBHInfo => 0x20,
            ConfigParameterId::PiBitRate => 0x21,
            ConfigParameterId::PnNfcDepPsl => 0x28,
            ConfigParameterId::PnAtrReqGenBytes => 0x29,
            ConfigParameterId::PnAtrReqConfig => 0x2a,
            ConfigParameterId::PvDevicesLimit => 0x2f,
            ConfigParameterId::LaBitFrameSdd => 0x30,
            ConfigParameterId::LaPlatformConfig => 0x31,
            ConfigParameterId::LaSelInfo => 0x32,
            ConfigParameterId::LaNfcid1 => 0x33,
            ConfigParameterId::LbSensbInfo => 0x38,
            ConfigParameterId::LbNfcid0 => 0x39,
            ConfigParameterId::LbApplicationData => 0x3a,
            ConfigParameterId::LbSfgi => 0x3b,
            ConfigParameterId::LbFwiAdcFo => 0x3c,
            ConfigParameterId::LbBitRate => 0x3e,
            ConfigParameterId::LfT3tIdentifiers1 => 0x40,
            ConfigParameterId::LfT3tIdentifiers2 => 0x41,
            ConfigParameterId::LfT3tIdentifiers3 => 0x42,
            ConfigParameterId::LfT3tIdentifiers4 => 0x43,
            ConfigParameterId::LfT3tIdentifiers5 => 0x44,
            ConfigParameterId::LfT3tIdentifiers6 => 0x45,
            ConfigParameterId::LfT3tIdentifiers7 => 0x46,
            ConfigParameterId::LfT3tIdentifiers8 => 0x47,
            ConfigParameterId::LfT3tIdentifiers9 => 0x48,
            ConfigParameterId::LfT3tIdentifiers10 => 0x49,
            ConfigParameterId::LfT3tIdentifiers11 => 0x4a,
            ConfigParameterId::LfT3tIdentifiers12 => 0x4b,
            ConfigParameterId::LfT3tIdentifiers13 => 0x4c,
            ConfigParameterId::LfT3tIdentifiers14 => 0x4d,
            ConfigParameterId::LfT3tIdentifiers15 => 0x4e,
            ConfigParameterId::LfT3tIdentifiers16 => 0x4f,
            ConfigParameterId::LfProtocolType => 0x50,
            ConfigParameterId::LfT3tPmmDefault => 0x51,
            ConfigParameterId::LfT3tMax => 0x52,
            ConfigParameterId::LfT3tFlags => 0x53,
            ConfigParameterId::LfT3tRdAllowed => 0x54,
            ConfigParameterId::LiARatsTb1 => 0x58,
            ConfigParameterId::LiAHistBy => 0x59,
            ConfigParameterId::LiBHInfoResp => 0x5a,
            ConfigParameterId::LiABitRate => 0x5b,
            ConfigParameterId::LiARatsTc1 => 0x5c,
            ConfigParameterId::LnWt => 0x60,
            ConfigParameterId::LnAtrResGenBytes => 0x61,
            ConfigParameterId::LnAtrResConfig => 0x62,
            ConfigParameterId::PacmBitRate => 0x68,
            ConfigParameterId::RfFieldInfo => 0x80,
            ConfigParameterId::RfNfceeAction => 0x81,
            ConfigParameterId::NfcdepOp => 0x82,
            ConfigParameterId::LlcpVersion => 0x83,
            ConfigParameterId::NfccConfigControl => 0x85,
            ConfigParameterId::Rfu(b) => *b,
        }
    }

    /// Decodes `b`; a byte with no name becomes `Rfu`.
    pub fn from_u8(b: u8) -> (r: ConfigParameterId)
        ensures
            r.value() == b,
            r is Rfu <==> !Self::is_named(b),
    {
        match b {
            0x00 => ConfigParameterId::TotalDuration,
            0x01 => ConfigParameterId::ConDevicesLimit,
            0x02 => ConfigParameterId::ConDiscoveryParam,
            0x03 => ConfigParameterId::PowerState,
            0x08 => ConfigParameterId::PaBailOut,
            0x09 => ConfigParameterId::PaDevicesLimit,
            0x10 => ConfigParameterId::PbAfi,
            0x11 => ConfigParameterId::PbBailOut,
            0x12 => ConfigParameterId::PbAttribParam1,
            0x13 => ConfigParameterId::PbSensbReqParam,
            0x14 => ConfigParameterId::PbDevicesLimit,
            0x18 => ConfigParameterId::PfBitRate,
            0x19 => ConfigParameterId::PfBailOut,
            0x1a => ConfigParameterId::PfDevicesLimit,
            0x20 => ConfigParameterId::PiBHInfo,
            0x21 => ConfigParameterId::PiBitRate,
            0x28 => ConfigParameterId::PnNfcDepPsl,
            0x29 => ConfigParameterId::PnAtrReqGenBytes,
            0x2a => ConfigParameterId::PnAtrReqConfig,
            0x2f => ConfigParameterId::PvDevicesLimit,
            0x30 => ConfigParameterId::LaBitFrameSdd,
            0x31 => ConfigParameterId::LaPlatformConfig,
            0x32 => ConfigParameterId::LaSelInfo,
            0x33 => ConfigParameterId::LaNfcid1,
            0x38 => ConfigParameterId::LbSensbInfo,
            0x39 => ConfigParameterId::LbNfcid0,
            0x3a => ConfigParameterId::LbApplicationData,
            0x3b => ConfigParameterId::LbSfgi,
            0x3c => ConfigParameterId::LbFwiAdcFo,
            0x3e => ConfigParameterId::LbBitRate,
            0x40 => ConfigParameterId::LfT3tIdentifiers1,
            0x41 => ConfigParameterId::LfT3tIdentifiers2,
            0x42 => ConfigParameterId::LfT3tIdentifiers3,
            0x43 => ConfigParameterId::LfT3tIdentifiers4,
            0x44 => ConfigParameterId::LfT3tIdentifiers5,
            0x45 => ConfigParameterId::LfT3tIdentifiers6,
            0x46 => ConfigParameterId::LfT3tIdentifiers7,
            0x47 => ConfigParameterId::LfT3tIdentifiers8,
            0x48 => ConfigParameterId::LfT3tIdentifiers9,
            0x49 => ConfigParameterId::LfT3tIdentifiers10,
            0x4a => ConfigParameterId::LfT3tIdentifiers11,
            0x4b => ConfigParameterId::LfT3tIdentifiers12,
            0x4c => ConfigParameterId::LfT3tIdentifiers13,
            0x4d => ConfigParameterId::LfT3tIdentifiers14,
            0x4e => ConfigParameterId::LfT3tIdentifiers15,
            0x4f => ConfigParameterId::LfT3tIdentifiers16,
            0x50 => ConfigParameterId::LfProtocolType,
            0x51 => ConfigParameterId::LfT3tPmmDefault,
            0x52 => ConfigParameterId::LfT3tMax,
            0x53 => ConfigParameterId::LfT3tFlags,
            0x54 => ConfigParameterId::LfT3tRdAllowed,
            0x58 => ConfigParameterId::LiARatsTb1,
            0x59 => ConfigParameterId::LiAHistBy,
            0x5a => ConfigParameterId::LiBHInfoResp,
            0x5b => ConfigParameterId::LiABitRate,
            0x5c => ConfigParameterId::LiARatsTc1,
            0x60 => ConfigParameterId::LnWt,
            0x61 => ConfigParameterId::LnAtrResGenBytes,
            0x62 => ConfigParameterId::LnAtrResConfig,
            0x68 => ConfigParameterId::PacmBitRate,
            0x80 => ConfigParameterId::RfFieldInfo,
            0x81 => ConfigParameterId::RfNfceeAction,
            0x82 => ConfigParameterId::NfcdepOp,
            0x83 => ConfigParameterId::LlcpVersion,
            0x85 => ConfigParameterId::NfccConfigControl,
            _ => ConfigParameterId::Rfu(b),
        }
    }
}

/// A configuration parameter and its value.
#[derive(Clone, Debug)]
pub struct ConfigParameter {
    pub id: ConfigParameterId,
    pub value: Vec<u8>,
}

/// A destination-specific parameter of CORE_CONN_CREATE_CMD.
#[derive(Clone, Debug)]
pub struct DestinationSpecificParameter {
    pub id: DestinationSpecificParameterId,
    pub value: Vec<u8>,
}

/// One entry of RF_DISCOVER_MAP_CMD, kept as its three bytes.
#[derive(Clone, Copy, Debug, PartialEq, Eq, Structural)]
pub struct MappingConfiguration {
    pub rf_protocol_type: u8,
    pub mode: u8,
    pub rf_interface_type: u8,
}

} // verus!
