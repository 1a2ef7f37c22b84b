//! Decoding of the NCI Commands that the controller accepts.
use vstd::prelude::*;

use crate::codec::{copy_range, mt_of};
use crate::nci::{
    ConfigParameter, ConfigParameterId, DeactivationType, DestinationSpecificParameter,
    DestinationSpecificParameterId, DestinationType, MappingConfiguration, ResetType,
    GID_CORE, GID_NFCEE, GID_RF, MT_COMMAND, OID_CORE_CONN_CLOSE, OID_CORE_CONN_CREATE,
    OID_CORE_GET_CONFIG, OID_CORE_INIT, OID_CORE_RESET, OID_CORE_SET_CONFIG,
    OID_CORE_SET_POWER_SUB_STATE, OID_NFCEE_DISCOVER, OID_RF_DEACTIVATE, OID_RF_DISCOVER,
    OID_RF_DISCOVER_MAP, OID_RF_GET_LISTEN_MODE_ROUTING, OID_RF_SET_LISTEN_MODE_ROUTING,
};

verus! {

/// A decoded NCI Command.
#[derive(Clone, Debug)]
pub enum Command {
    CoreReset { reset_type: ResetType },
    CoreInit,
    CoreSetConfig { parameters: Vec<ConfigParameter> },
    CoreGetConfig { parameters: Vec<ConfigParameterId> },
    CoreConnCreate {
        destination_type: DestinationType,
        parameters: Vec<DestinationSpecificParameter>,
    },
    CoreConnClose { conn_id: u8 },
    CoreSetPowerSubState { power_state: u8 },
    RfDiscoverMap { mapping_configurations: Vec<MappingConfiguration> },
    RfSetListenModeRouting,
    RfGetListenModeRouting,
    RfDiscover,
    RfDeactivate { deactivation_type: DeactivationType },
    NfceeDiscover,
}

/// Why a packet is not a Command that the controller can handle.
#[derive(Clone, Copy, Debug, PartialEq, Eq, Structural)]
pub enum ParseError {
    /// The packet is not a Command.
    UnexpectedMessageType,
    /// The group and opcode name no Command that the controller handles.
    UnsupportedOpcode,
    /// The payload does not follow the Command's layout.
    Malformed,
}

pub open spec fn gid_of(p: Seq<u8>) -> u8 {
    p[0] & 0x0f
}

pub open spec fn oid_of(p: Seq<u8>) -> u8 {
    p[1] & 0x3f
}

/// The Commands that the controller handles, by group and opcode.
pub open spec fn is_supported(gid: u8, oid: u8) -> bool {
    (gid == GID_CORE && (oid <= 5 || oid == OID_CORE_SET_POWER_SUB_STATE)) || (gid == GID_RF && (
    oid <= 3 || oid == OID_RF_DEACTIVATE)) || (gid == GID_NFCEE && oid == OID_NFCEE_DISCOVER)
}

/// A list of `n` type-length-value entries that fills `s` exactly.
pub open spec fn tlv_list(s: Seq<u8>, n: nat) -> Option<Seq<(u8, Seq<u8>)>>
    decreases n,
{
    if n == 0 {
        if s.len() == 0 {
            Some(Seq::empty())
        } else {
            None
        }
    } else if s.len() < 2 || s.len() < 2 + s[1] {
        None
    } else {
        match tlv_list(s.skip(2 + s[1]), (n - 1) as nat) {
            None => None,
            Some(rest) => Some(seq![(s[0], s.subrange(2, 2 + s[1]))] + rest),
        }
    }
}

pub open spec fn prepend(a: Seq<(u8, Seq<u8>)>, o: Option<Seq<(u8, Seq<u8>)>>) -> Option<
    Seq<(u8, Seq<u8>)>,
> {
    match o {
        None => None,
        Some(r) => Some(a + r),
    }
}

pub open spec fn pairs_view(v: Seq<(u8, Vec<u8>)>) -> Seq<(u8, Seq<u8>)> {
    v.map_values(|x: (u8, Vec<u8>)| (x.0, x.1@))
}

/// `ps` are the entries `m` decoded: each identifier is the one its byte
/// names (reserved only when the byte names none), with its value.
pub open spec fn config_matches(ps: Seq<ConfigParameter>, m: Seq<(u8, Seq<u8>)>) -> bool {
    &&& ps.len() == m.len()
    &&& forall|i: int|
        0 <= i < ps.len() ==> #[trigger] ps[i].id.value() == m[i].0 && (ps[i].id is Rfu)
            == !ConfigParameterId::is_named(m[i].0) && ps[i].value@ == m[i].1
}

pub open spec fn destination_matches(
    ps: Seq<DestinationSpecificParameter>,
    m: Seq<(u8, Seq<u8>)>,
) -> bool {
    &&& ps.len() == m.len()
    &&& forall|i: int|
        0 <= i < ps.len() ==> #[trigger] ps[i].id.value() == m[i].0 && (ps[i].id is Rfu)
            == !DestinationSpecificParameterId::is_named(m[i].0) && ps[i].value@ == m[i].1
}

/// Whether the payload `q` has the layout of the Command `(gid, oid)`.
pub open spec fn payload_ok(gid: u8, oid: u8, q: Seq<u8>) -> bool {
    if gid == GID_CORE && oid == OID_CORE_RESET {
        q.len() == 1 && ResetType::is_valid(q[0])
    } else if gid == GID_CORE && oid == OID_CORE_SET_CONFIG {
        q.len() >= 1 && tlv_list(q.skip(1), q[0] as nat) is Some
    } else if gid == GID_CORE && oid == OID_CORE_GET_CONFIG {
        q.len() >= 1 && q.len() == 1 + q[0]
    } else if gid == GID_CORE && oid == OID_CORE_CONN_CREATE {
        q.len() >= 2 && DestinationType::is_valid(q[0]) && tlv_list(q.skip(2), q[1] as nat) is Some
    } else if gid == GID_CORE && (oid == OID_CORE_CONN_CLOSE || oid == OID_CORE_SET_POWER_SUB_STATE) {
        q.len() == 1
    } else if gid == GID_RF && oid == OID_RF_DISCOVER_MAP {
        q.len() >= 1 && q.len() == 1 + 3 * q[0]
    } else if gid == GID_RF && oid == OID_RF_DEACTIVATE {
        q.len() == 1 && DeactivationType::is_valid(q[0])
    } else {
        true
    }
}

/// `c` is what the Command packet `p` says.
pub open spec fn decodes(c: Command, p: Seq<u8>) -> bool {
    let gid = gid_of(p);
    let oid = oid_of(p);
    let q = p.skip(3);
    match c {
        Command::CoreReset { reset_type } => gid == GID_CORE && oid == OID_CORE_RESET
            && reset_type.value() == q[0],
        Command::CoreInit => gid == GID_CORE && oid == OID_CORE_INIT,
        Command::CoreSetConfig { parameters } => {
            &&& gid == GID_CORE && oid == OID_CORE_SET_CONFIG
            &&& tlv_list(q.skip(1), q[0] as nat) matches Some(m) && config_matches(parameters@, m)
        },
        Command::CoreGetConfig { parameters } => gid == GID_CORE && oid == OID_CORE_GET_CONFIG
            && parameters@.len() == q[0] && forall|i: int|
            0 <= i < parameters@.len() ==> #[trigger] parameters@[i].value() == q[1 + i] && (
            parameters@[i] is Rfu) == !ConfigParameterId::is_named(q[1 + i]),
        Command::CoreConnCreate { destination_type, parameters } => {
            &&& gid == GID_CORE && oid == OID_CORE_CONN_CREATE
            &&& destination_type.value() == q[0]
            &&& tlv_list(q.skip(2), q[1] as nat) matches Some(m) && destination_matches(
                parameters@,
                m,
            )
        },
        Command::CoreConnClose { conn_id } => gid == GID_CORE && oid == OID_CORE_CONN_CLOSE
            && conn_id == q[0],
        Command::CoreSetPowerSubState { power_state } => gid == GID_CORE && oid
            == OID_CORE_SET_POWER_SUB_STATE && power_state == q[0],
        Command::RfDiscoverMap { mapping_configurations } => gid == GID_RF && oid
            == OID_RF_DISCOVER_MAP && mapping_configurations@.len() == q[0] && forall|i: int|
            0 <= i < mapping_configurations@.len() ==> #[trigger] mapping_configurations@[i]
                == (MappingConfiguration {
                rf_protocol_type: q[1 + 3 * i],
                mode: q[2 + 3 * i],
                rf_interface_type: q[3 + 3 * i],
            }),
        Command::RfSetListenModeRouting => gid == GID_RF && oid == OID_RF_SET_LISTEN_MODE_ROUTING,
        Command::RfGetListenModeRouting => gid == GID_RF && oid == OID_RF_GET_LISTEN_MODE_ROUTING,
        Command::RfDiscover => gid == GID_RF && oid == OID_RF_DISCOVER,
        Command::RfDeactivate { deactivation_type } => gid == GID_RF && oid == OID_RF_DEACTIVATE
            && deactivation_type.value() == q[0],
        Command::NfceeDiscover => gid == GID_NFCEE && oid == OID_NFCEE_DISCOVER,
    }
}

/// A list of `n` entries has `n` entries, each with a value of at most
/// 255 bytes.
pub proof fn lemma_tlv_list_bounds(s: Seq<u8>, n: nat)
    requires
        tlv_list(s, n) is Some,
    ensures
        tlv_list(s, n)->Some_0.len() == n,
        forall|i: int|
            0 <= i < n ==> #[trigger] tlv_list(s, n)->Some_0[i].1.len() <= 255,
    decreases n,
{
    if n > 0 {
        let t = s.skip(2 + s[1]);
        lemma_tlv_list_bounds(t, (n - 1) as nat);
        let m = tlv_list(s, n)->Some_0;
        let rest = tlv_list(t, (n - 1) as nat)->Some_0;
        assert forall|i: int| 0 <= i < n implies #[trigger] m[i].1.len() <= 255 by {
            if i > 0 {
                assert(m[i] == rest[i - 1]);
            }
        }
    }
}

/// Reads `n` type-length-value entries that fill `s[start..]` exactly.
pub fn parse_tlv_list(s: &Vec<u8>, start: usize, n: u8) -> (r: Option<Vec<(u8, Vec<u8>)>>)
    requires
        start <= s@.len(),
    ensures
        r is Some <==> tlv_list(s@.skip(start as int), n as nat) is Some,
        r matches Some(v) ==> tlv_list(s@.skip(start as int), n as nat) == Some(pairs_view(v@)),
{
    let mut pos: usize = start;
    let mut k: u8 = 0;
    let mut out: Vec<(u8, Vec<u8>)> = Vec::new();
    assert(pairs_view(out@) =~= Seq::<(u8, Seq<u8>)>::empty());
    assert(s@.skip(pos as int) =~= s@.skip(start as int));
    while k < n
        invariant
            start <= pos <= s@.len(),
            k <= n,
            tlv_list(s@.skip(start as int), n as nat) == prepend(
                pairs_view(out@),
                tlv_list(s@.skip(pos as int), (n - k) as nat),
            ),
        decreases n - k,
    {
        let ghost t = s@.skip(pos as int);
        if s.len() - pos < 2 {
            return None;
        }
        let id = s[pos];
        let len = s[pos + 1] as usize;
        assert(t[0] == id && t[1] == len);
        if s.len() - pos - 2 < len {
            return None;
        }
        let value = copy_range(s, pos + 2, pos + 2 + len);
        let ghost old_out = out@;
        out.push((id, value));
        pos = pos + 2 + len;
        k = k + 1;
        proof {
            assert(t.subrange(2, 2 + len) =~= value@);
            assert(t.skip(2 + len) =~= s@.skip(pos as int));
            assert(pairs_view(out@) =~= pairs_view(old_out) + seq![(id, value@)]);
            assert(pairs_view(out@) + tlv_list(s@.skip(pos as int), (n - k) as nat)->Some_0 =~= pairs_view(
                old_out,
            ) + (seq![(id, value@)] + tlv_list(s@.skip(pos as int), (n - k) as nat)->Some_0));
        }
    }
    if pos != s.len() {
        return None;
    }
    assert(tlv_list(s@.skip(pos as int), 0) == Some(Seq::<(u8, Seq<u8>)>::empty()));
    assert(pairs_view(out@) + Seq::<(u8, Seq<u8>)>::empty() =~= pairs_view(out@));
    Some(out)
}

fn to_config_parameters(v: Vec<(u8, Vec<u8>)>) -> (r: Vec<ConfigParameter>)
    ensures
        config_matches(r@, pairs_view(v@)),
{
    let ghost orig = v@;
    let mut v = v;
    let mut r: Vec<ConfigParameter> = Vec::new();
    while v.len() > 0
        invariant
            r@.len() + v@.len() == orig.len(),
            v@ == orig.skip(r@.len() as int),
            config_matches(r@, pairs_view(orig).take(r@.len() as int)),
        decreases v@.len(),
    {
        let ghost n = r@.len();
        let (id, value) = v.remove(0);
        assert(orig[n as int] == (id, value));
        r.push(ConfigParameter { id: ConfigParameterId::from_u8(id), value });
        assert(v@ =~= orig.skip(r@.len() as int));
        let ghost m = pairs_view(orig).take(r@.len() as int);
        assert forall|i: int| 0 <= i < r@.len() implies #[trigger] r@[i].id.value() == m[i].0
            && (r@[i].id is Rfu) == !ConfigParameterId::is_named(m[i].0) && r@[i].value@ == m[i].1 by {
            if i < n {
                assert(m[i] == pairs_view(orig).take(n as int)[i]);
            } else {
                assert(pairs_view(orig)[n as int] == (id, value@));
            }
        }
    }
    assert(pairs_view(orig).take(orig.len() as int) =~= pairs_view(orig));
    r
}

fn to_destination_parameters(v: Vec<(u8, Vec<u8>)>) -> (r: Vec<DestinationSpecificParameter>)
    ensures
        destination_matches(r@, pairs_view(v@)),
{
    let ghost orig = v@;
    let mut v = v;
    let mut r: Vec<DestinationSpecificParameter> = Vec::new();
    while v.len() > 0
        invariant
            r@.len() + v@.len() == orig.len(),
            v@ == orig.skip(r@.len() as int),
            destination_matches(r@, pairs_view(orig).take(r@.len() as int)),
        decreases v@.len(),
    {
        let ghost n = r@.len();
        let (id, value) = v.remove(0);
        assert(orig[n as int] == (id, value));
        r.push(DestinationSpecificParameter { id: DestinationSpecificParameterId::from_u8(id), value });
        assert(v@ =~= orig.skip(r@.len() as int));
        let ghost m = pairs_view(orig).take(r@.len() as int);
        assert forall|i: int| 0 <= i < r@.len() implies #[trigger] r@[i].id.value() == m[i].0
            && (r@[i].id is Rfu) == !DestinationSpecificParameterId::is_named(m[i].0) && r@[i].value@
            == m[i].1 by {
            if i < n {
                assert(m[i] == pairs_view(orig).take(n as int)[i]);
            } else {
                assert(pairs_view(orig)[n as int] == (id, value@));
            }
        }
    }
    assert(pairs_view(orig).take(orig.len() as int) =~= pairs_view(orig));
    r
}

/// Decodes the logical packet `packet` (header and payload) as a Command.
pub fn parse_command(packet: &Vec<u8>) -> (r: Result<Command, ParseError>)
    requires
        packet@.len() >= 3,
    ensures
        mt_of(packet@[0]) != MT_COMMAND ==> r == Err::<Command, ParseError>(
            ParseError::UnexpectedMessageType,
        ),
        mt_of(packet@[0]) == MT_COMMAND && !is_supported(gid_of(packet@), oid_of(packet@)) ==> r
            == Err::<Command, ParseError>(ParseError::UnsupportedOpcode),
        mt_of(packet@[0]) == MT_COMMAND && is_supported(gid_of(packet@), oid_of(packet@)) ==> {
            &&& r is Ok <==> payload_ok(gid_of(packet@), oid_of(packet@), packet@.skip(3))
            &&& r is Err ==> r == Err::<Command, ParseError>(ParseError::Malformed)
        },
        r matches Ok(c) ==> decodes(c, packet@),
{
    let ghost p = packet@;
    let ghost q = p.skip(3);
    if packet[0] >> 5u8 != MT_COMMAND {
        return Err(ParseError::UnexpectedMessageType);
    }
    let gid = packet[0] & 0x0f;
    let oid = packet[1] & 0x3f;
    let len = packet.len() - 3;
    if gid == GID_CORE {
        if oid == OID_CORE_RESET {
            if len != 1 {
                return Err(ParseError::Malformed);
            }
            match ResetType::from_u8(packet[3]) {
                Some(reset_type) => Ok(Command::CoreReset { reset_type }),
                None => Err(ParseError::Malformed),
            }
        } else if oid == OID_CORE_INIT {
            Ok(Command::CoreInit)
        } else if oid == OID_CORE_SET_CONFIG {
            if len < 1 {
                return Err(ParseError::Malformed);
            }
            assert(packet@.skip(4) =~= q.skip(1));
            match parse_tlv_list(packet, 4, packet[3]) {
                Some(v) => Ok(Command::CoreSetConfig { parameters: to_config_parameters(v) }),
                None => Err(ParseError::Malformed),
            }
        } else if oid == OID_CORE_GET_CONFIG {
            if len < 1 || len != 1 + packet[3] as usize {
                return Err(ParseError::Malformed);
            }
            let mut parameters: Vec<ConfigParameterId> = Vec::new();
            let mut i: usize = 0;
            while i < len - 1
                invariant
                    p == packet@,
                    q == p.skip(3),
                    len == q.len(),
                    packet@.len() == len + 3,
                    packet@.len() <= usize::MAX,
                    len >= 1,
                    i <= len - 1,
                    parameters@.len() == i,
                    forall|j: int|
                        0 <= j < i ==> #[trigger] parameters@[j].value() == q[1 + j] && (
                        parameters@[j] is Rfu) == !ConfigParameterId::is_named(q[1 + j]),
                decreases len - 1 - i,
            {
                parameters.push(ConfigParameterId::from_u8(packet[4 + i]));
                i = i + 1;
            }
            Ok(Command::CoreGetConfig { parameters })
        } else if oid == OID_CORE_CONN_CREATE {
            if len < 2 {
                return Err(ParseError::Malformed);
            }
            match DestinationType::from_u8(packet[3]) {
                Some(destination_type) => {
                    assert(packet@.skip(5) =~= q.skip(2));
                    match parse_tlv_list(packet, 5, packet[4]) {
                        Some(v) => Ok(
                            Command::CoreConnCreate {
                                destination_type,
                                parameters: to_destination_parameters(v),
                            },
                        ),
                        None => Err(ParseError::Malformed),
                    }
                },
                None => Err(ParseError::Malformed),
            }
        } else if oid == OID_CORE_CONN_CLOSE {
            if len != 1 {
                return Err(ParseError::Malformed);
            }
            Ok(Command::CoreConnClose { conn_id: packet[3] })
        } else if oid == OID_CORE_SET_POWER_SUB_STATE {
            if len != 1 {
                return Err(ParseError::Malformed);
            }
            Ok(Command::CoreSetPowerSubState { power_state: packet[3] })
        } else {
            Err(ParseError::UnsupportedOpcode)
        }
    } else if gid == GID_RF {
        if oid == OID_RF_DISCOVER_MAP {
            if len < 1 || len != 1 + 3 * (packet[3] as usize) {
                return Err(ParseError::Malformed);
            }
            let count = packet[3] as usize;
            let mut mapping_configurations: Vec<MappingConfiguration> = Vec::new();
            let mut i: usize = 0;
            while i < count
                invariant
                    p == packet@,
                    q == p.skip(3),
                    len == q.len(),
                    packet@.len() == len + 3,
                    packet@.len() <= usize::MAX,
                    len == 1 + 3 * count,
                    i <= count,
                    mapping_configurations@.len() == i,
                    forall|j: int|
                        0 <= j < i ==> #[trigger] mapping_configurations@[j] == (MappingConfiguration {
                            rf_protocol_type: q[1 + 3 * j],
                            mode: q[2 + 3 * j],
                            rf_interface_type: q[3 + 3 * j],
                        }),
                decreases count - i,
            {
                mapping_configurations.push(
                    MappingConfiguration {
                        rf_protocol_type: packet[4 + 3 * i],
                        mode: packet[5 + 3 * i],
                        rf_interface_type: packet[6 + 3 * i],
                    },
                );
                i = i + 1;
            }
            Ok(Command::RfDiscoverMap { mapping_configurations })
        } else if oid == OID_RF_SET_LISTEN_MODE_ROUTING {
            Ok(Command::RfSetListenModeRouting)
        } else if oid == OID_RF_GET_LISTEN_MODE_ROUTING {
            Ok(Command::RfGetListenModeRouting)
        } else if oid == OID_RF_DISCOVER {
            Ok(Command::RfDiscover)
        } else if oid == OID_RF_DEACTIVATE {
            if len != 1 {
                return Err(ParseError::Malformed);
            }
            match DeactivationType::from_u8(packet[3]) {
                Some(deactivation_type) => Ok(Command::RfDeactivate { deactivation_type }),
                None => Err(ParseError::Malformed),
            }
        } else {
            Err(ParseError::UnsupportedOpcode)
        }
    } else if gid == GID_NFCEE && oid == OID_NFCEE_DISCOVER {
        Ok(Command::NfceeDiscover)
    } else {
        Err(ParseError::UnsupportedOpcode)
    }
}

} // verus!
