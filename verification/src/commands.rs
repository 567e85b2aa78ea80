//! Command-to-message-kind resolution.
//!
//! Three independent command domains exist: the top-level frame commands, and
//! the two sub-domains used inside packet frames.  Each is a fixed, closed
//! table of wire ids.  An id no table knows never fails resolution — it is
//! kept as data, so unresolved content cannot break stream traversal.

use vstd::prelude::*;
use crate::DemoError;
use crate::packet::PacketRecords;

verus! {

/// The known top-level frame commands.
#[derive(Clone, Copy, Debug, PartialEq, Eq, Structural)]
pub enum TopCommand {
    Stop,
    FileHeader,
    FileInfo,
    SyncTick,
    SendTables,
    ClassInfo,
    StringTables,
    Packet,
    SignonPacket,
    ConsoleCmd,
    CustomData,
    CustomDataCallbacks,
    UserCmd,
    FullPacket,
    SaveGame,
    SpawnGroups,
}

/// The known commands of the first sub-domain.
#[derive(Clone, Copy, Debug, PartialEq, Eq, Structural)]
pub enum NetCommand {
    Nop,
    Disconnect,
    SplitScreenUser,
    Tick,
    StringCmd,
    SetConVar,
    SignonState,
    SpawnGroupLoad,
    SpawnGroupManifestUpdate,
    SpawnGroupSetCreationTick,
    SpawnGroupUnload,
    SpawnGroupLoadCompleted,
}

/// The known commands of the second sub-domain.
#[derive(Clone, Copy, Debug, PartialEq, Eq, Structural)]
pub enum SvcCommand {
    ServerInfo,
    FlattenedSerializer,
    ClassInfo,
    SetPause,
    CreateStringTable,
    UpdateStringTable,
    VoiceInit,
    VoiceData,
    Print,
    Sounds,
    SetView,
    ClearAllStringTables,
    CmdKeyValues,
    BspDecal,
    SplitScreen,
    PacketEntities,
    Prefetch,
    Menu,
    GetCvarValue,
    StopSound,
    PeerList,
    PacketReliable,
    HltvStatus,
    ServerSteamId,
    FullFrameSplit,
    RconServerDetails,
    UserMessage,
}

/// The three command domains.
#[derive(Clone, Copy, Debug, PartialEq, Eq, Structural)]
pub enum CommandDomain {
    Top,
    Net,
    Svc,
}

/// A resolved command: a known kind in one of the three domains, or an id no
/// consulted table knows, kept as data together with the last domain tried.
#[derive(Clone, Copy, Debug, PartialEq, Eq, Structural)]
pub enum DemoCommand {
    EDemo(TopCommand),
    NET(NetCommand),
    SVC(SvcCommand),
    Unknown(CommandDomain, u32),
}

/// The wire id of each known top-level command.
pub open spec fn top_code(c: TopCommand) -> u32 {
    match c {
        TopCommand::Stop => 0,
        TopCommand::FileHeader => 1,
        TopCommand::FileInfo => 2,
        TopCommand::SyncTick => 3,
        TopCommand::SendTables => 4,
        TopCommand::ClassInfo => 5,
        TopCommand::StringTables => 6,
        TopCommand::Packet => 7,
        TopCommand::SignonPacket => 8,
        TopCommand::ConsoleCmd => 9,
        TopCommand::CustomData => 10,
        TopCommand::CustomDataCallbacks => 11,
        TopCommand::UserCmd => 12,
        TopCommand::FullPacket => 13,
        TopCommand::SaveGame => 14,
        TopCommand::SpawnGroups => 15,
    }
}

/// The known top-level command for a wire id, if any: ids zero through
/// fifteen are all assigned.
pub open spec fn top_of_id(id: u32) -> Option<TopCommand> {
    if id == 0 {
        Some(TopCommand::Stop)
    } else if id == 1 {
        Some(TopCommand::FileHeader)
    } else if id == 2 {
        Some(TopCommand::FileInfo)
    } else if id == 3 {
        Some(TopCommand::SyncTick)
    } else if id == 4 {
        Some(TopCommand::SendTables)
    } else if id == 5 {
        Some(TopCommand::ClassInfo)
    } else if id == 6 {
        Some(TopCommand::StringTables)
    } else if id == 7 {
        Some(TopCommand::Packet)
    } else if id == 8 {
        Some(TopCommand::SignonPacket)
    } else if id == 9 {
        Some(TopCommand::ConsoleCmd)
    } else if id == 10 {
        Some(TopCommand::CustomData)
    } else if id == 11 {
        Some(TopCommand::CustomDataCallbacks)
    } else if id == 12 {
        Some(TopCommand::UserCmd)
    } else if id == 13 {
        Some(TopCommand::FullPacket)
    } else if id == 14 {
        Some(TopCommand::SaveGame)
    } else if id == 15 {
        Some(TopCommand::SpawnGroups)
    } else {
        None
    }
}

/// The wire id of each known first-sub-domain command.
pub open spec fn net_code(c: NetCommand) -> u32 {
    match c {
        NetCommand::Nop => 0,
        NetCommand::Disconnect => 1,
        NetCommand::SplitScreenUser => 3,
        NetCommand::Tick => 4,
        NetCommand::StringCmd => 5,
        NetCommand::SetConVar => 6,
        NetCommand::SignonState => 7,
        NetCommand::SpawnGroupLoad => 8,
        NetCommand::SpawnGroupManifestUpdate => 9,
        NetCommand::SpawnGroupSetCreationTick => 11,
        NetCommand::SpawnGroupUnload => 12,
        NetCommand::SpawnGroupLoadCompleted => 13,
    }
}

/// The known first-sub-domain command for a wire id, if any.
pub open spec fn net_of_id(id: u32) -> Option<NetCommand> {
    if id == 0 {
        Some(NetCommand::Nop)
    } else if id == 1 {
        Some(NetCommand::Disconnect)
    } else if id == 3 {
        Some(NetCommand::SplitScreenUser)
    } else if id == 4 {
        Some(NetCommand::Tick)
    } else if id == 5 {
        Some(NetCommand::StringCmd)
    } else if id == 6 {
        Some(NetCommand::SetConVar)
    } else if id == 7 {
        Some(NetCommand::SignonState)
    } else if id == 8 {
        Some(NetCommand::SpawnGroupLoad)
    } else if id == 9 {
        Some(NetCommand::SpawnGroupManifestUpdate)
    } else if id == 11 {
        Some(NetCommand::SpawnGroupSetCreationTick)
    } else if id == 12 {
        Some(NetCommand::SpawnGroupUnload)
    } else if id == 13 {
        Some(NetCommand::SpawnGroupLoadCompleted)
    } else {
        None
    }
}

/// The wire id of each known second-sub-domain command.
pub open spec fn svc_code(c: SvcCommand) -> u32 {
    match c {
        SvcCommand::ServerInfo => 40,
        SvcCommand::FlattenedSerializer => 41,
        SvcCommand::ClassInfo => 42,
        SvcCommand::SetPause => 43,
        SvcCommand::CreateStringTable => 44,
        SvcCommand::UpdateStringTable => 45,
        SvcCommand::VoiceInit => 46,
        SvcCommand::VoiceData => 47,
        SvcCommand::Print => 48,
        SvcCommand::Sounds => 49,
        SvcCommand::SetView => 50,
        SvcCommand::ClearAllStringTables => 51,
        SvcCommand::CmdKeyValues => 52,
        SvcCommand::BspDecal => 53,
        SvcCommand::SplitScreen => 54,
        SvcCommand::PacketEntities => 55,
        SvcCommand::Prefetch => 56,
        SvcCommand::Menu => 57,
        SvcCommand::GetCvarValue => 58,
        SvcCommand::StopSound => 59,
        SvcCommand::PeerList => 60,
        SvcCommand::PacketReliable => 61,
        SvcCommand::HltvStatus => 62,
        SvcCommand::ServerSteamId => 63,
        SvcCommand::FullFrameSplit => 70,
        SvcCommand::RconServerDetails => 71,
        SvcCommand::UserMessage => 72,
    }
}

/// The known second-sub-domain command for a wire id, if any.
pub open spec fn svc_of_id(id: u32) -> Option<SvcCommand> {
    if id == 40 {
        Some(SvcCommand::ServerInfo)
    } else if id == 41 {
        Some(SvcCommand::FlattenedSerializer)
    } else if id == 42 {
        Some(SvcCommand::ClassInfo)
    } else if id == 43 {
        Some(SvcCommand::SetPause)
    } else if id == 44 {
        Some(SvcCommand::CreateStringTable)
    } else if id == 45 {
        Some(SvcCommand::UpdateStringTable)
    } else if id == 46 {
        Some(SvcCommand::VoiceInit)
    } else if id == 47 {
        Some(SvcCommand::VoiceData)
    } else if id == 48 {
        Some(SvcCommand::Print)
    } else if id == 49 {
        Some(SvcCommand::Sounds)
    } else if id == 50 {
        Some(SvcCommand::SetView)
    } else if id == 51 {
        Some(SvcCommand::ClearAllStringTables)
    } else if id == 52 {
        Some(SvcCommand::CmdKeyValues)
    } else if id == 53 {
        Some(SvcCommand::BspDecal)
    } else if id == 54 {
        Some(SvcCommand::SplitScreen)
    } else if id == 55 {
        Some(SvcCommand::PacketEntities)
    } else if id == 56 {
        Some(SvcCommand::Prefetch)
    } else if id == 57 {
        Some(SvcCommand::Menu)
    } else if id == 58 {
        Some(SvcCommand::GetCvarValue)
    } else if id == 59 {
        Some(SvcCommand::StopSound)
    } else if id == 60 {
        Some(SvcCommand::PeerList)
    } else if id == 61 {
        Some(SvcCommand::PacketReliable)
    } else if id == 62 {
        Some(SvcCommand::HltvStatus)
    } else if id == 63 {
        Some(SvcCommand::ServerSteamId)
    } else if id == 70 {
        Some(SvcCommand::FullFrameSplit)
    } else if id == 71 {
        Some(SvcCommand::RconServerDetails)
    } else if id == 72 {
        Some(SvcCommand::UserMessage)
    } else {
        None
    }
}

/// Resolution of a top-level id.
pub open spec fn resolve_top_spec(id: u32) -> DemoCommand {
    match top_of_id(id) {
        Some(k) => DemoCommand::EDemo(k),
        None => DemoCommand::Unknown(CommandDomain::Top, id),
    }
}

/// Resolution of a sub-frame id: the first sub-domain is consulted first,
/// then the second; an id neither knows is kept as data.
pub open spec fn resolve_nested_spec(id: u32) -> DemoCommand {
    match net_of_id(id) {
        Some(k) => DemoCommand::NET(k),
        None => match svc_of_id(id) {
            Some(k) => DemoCommand::SVC(k),
            None => DemoCommand::Unknown(CommandDomain::Svc, id),
        },
    }
}

/// Each table round-trips: a known command's id resolves back to it.
pub proof fn lemma_command_tables_consistent(t: TopCommand, n: NetCommand, s: SvcCommand)
    ensures
        resolve_top_spec(top_code(t)) == DemoCommand::EDemo(t),
        resolve_nested_spec(net_code(n)) == DemoCommand::NET(n),
        resolve_nested_spec(svc_code(s)) == DemoCommand::SVC(s),
{
}

/// Resolve a top-level frame id.
pub fn resolve_top(id: u32) -> (c: DemoCommand)
    ensures
        c == resolve_top_spec(id),
{
    if id == 0 {
        DemoCommand::EDemo(TopCommand::Stop)
    } else if id == 1 {
        DemoCommand::EDemo(TopCommand::FileHeader)
    } else if id == 2 {
        DemoCommand::EDemo(TopCommand::FileInfo)
    } else if id == 3 {
        DemoCommand::EDemo(TopCommand::SyncTick)
    } else if id == 4 {
        DemoCommand::EDemo(TopCommand::SendTables)
    } else if id == 5 {
        DemoCommand::EDemo(TopCommand::ClassInfo)
    } else if id == 6 {
        DemoCommand::EDemo(TopCommand::StringTables)
    } else if id == 7 {
        DemoCommand::EDemo(TopCommand::Packet)
    } else if id == 8 {
        DemoCommand::EDemo(TopCommand::SignonPacket)
    } else if id == 9 {
        DemoCommand::EDemo(TopCommand::ConsoleCmd)
    } else if id == 10 {
        DemoCommand::EDemo(TopCommand::CustomData)
    } else if id == 11 {
        DemoCommand::EDemo(TopCommand::CustomDataCallbacks)
    } else if id == 12 {
        DemoCommand::EDemo(TopCommand::UserCmd)
    } else if id == 13 {
        DemoCommand::EDemo(TopCommand::FullPacket)
    } else if id == 14 {
        DemoCommand::EDemo(TopCommand::SaveGame)
    } else if id == 15 {
        DemoCommand::EDemo(TopCommand::SpawnGroups)
    } else {
        DemoCommand::Unknown(CommandDomain::Top, id)
    }
}

/// Resolve a sub-frame id, first sub-domain first.
pub fn resolve_nested(id: u32) -> (c: DemoCommand)
    ensures
        c == resolve_nested_spec(id),
{
    if id == 0 {
        DemoCommand::NET(NetCommand::Nop)
    } else if id == 1 {
        DemoCommand::NET(NetCommand::Disconnect)
    } else if id == 3 {
        DemoCommand::NET(NetCommand::SplitScreenUser)
    } else if id == 4 {
        DemoCommand::NET(NetCommand::Tick)
    } else if id == 5 {
        DemoCommand::NET(NetCommand::StringCmd)
    } else if id == 6 {
        DemoCommand::NET(NetCommand::SetConVar)
    } else if id == 7 {
        DemoCommand::NET(NetCommand::SignonState)
    } else if id == 8 {
        DemoCommand::NET(NetCommand::SpawnGroupLoad)
    } else if id == 9 {
        DemoCommand::NET(NetCommand::SpawnGroupManifestUpdate)
    } else if id == 11 {
        DemoCommand::NET(NetCommand::SpawnGroupSetCreationTick)
    } else if id == 12 {
        DemoCommand::NET(NetCommand::SpawnGroupUnload)
    } else if id == 13 {
        DemoCommand::NET(NetCommand::SpawnGroupLoadCompleted)
    } else if id == 40 {
        DemoCommand::SVC(SvcCommand::ServerInfo)
    } else if id == 41 {
        DemoCommand::SVC(SvcCommand::FlattenedSerializer)
    } else if id == 42 {
        DemoCommand::SVC(SvcCommand::ClassInfo)
    } else if id == 43 {
        DemoCommand::SVC(SvcCommand::SetPause)
    } else if id == 44 {
        DemoCommand::SVC(SvcCommand::CreateStringTable)
    } else if id == 45 {
        DemoCommand::SVC(SvcCommand::UpdateStringTable)
    } else if id == 46 {
        DemoCommand::SVC(SvcCommand::VoiceInit)
    } else if id == 47 {
        DemoCommand::SVC(SvcCommand::VoiceData)
    } else if id == 48 {
        DemoCommand::SVC(SvcCommand::Print)
    } else if id == 49 {
        DemoCommand::SVC(SvcCommand::Sounds)
    } else if id == 50 {
        DemoCommand::SVC(SvcCommand::SetView)
    } else if id == 51 {
        DemoCommand::SVC(SvcCommand::ClearAllStringTables)
    } else if id == 52 {
        DemoCommand::SVC(SvcCommand::CmdKeyValues)
    } else if id == 53 {
        DemoCommand::SVC(SvcCommand::BspDecal)
    } else if id == 54 {
        DemoCommand::SVC(SvcCommand::SplitScreen)
    } else if id == 55 {
        DemoCommand::SVC(SvcCommand::PacketEntities)
    } else if id == 56 {
        DemoCommand::SVC(SvcCommand::Prefetch)
    } else if id == 57 {
        DemoCommand::SVC(SvcCommand::Menu)
    } else if id == 58 {
        DemoCommand::SVC(SvcCommand::GetCvarValue)
    } else if id == 59 {
        DemoCommand::SVC(SvcCommand::StopSound)
    } else if id == 60 {
        DemoCommand::SVC(SvcCommand::PeerList)
    } else if id == 61 {
        DemoCommand::SVC(SvcCommand::PacketReliable)
    } else if id == 62 {
        DemoCommand::SVC(SvcCommand::HltvStatus)
    } else if id == 63 {
        DemoCommand::SVC(SvcCommand::ServerSteamId)
    } else if id == 70 {
        DemoCommand::SVC(SvcCommand::FullFrameSplit)
    } else if id == 71 {
        DemoCommand::SVC(SvcCommand::RconServerDetails)
    } else if id == 72 {
        DemoCommand::SVC(SvcCommand::UserMessage)
    } else {
        DemoCommand::Unknown(CommandDomain::Svc, id)
    }
}

/// Whether a command names one of the two packet kinds, whose payload embeds
/// the nested bit-packed framing layer.
pub open spec fn is_packet_kind(cmd: DemoCommand) -> bool {
    cmd == DemoCommand::EDemo(TopCommand::Packet) || cmd == DemoCommand::EDemo(
        TopCommand::SignonPacket,
    )
}

/// A decoded message: the flat payload of a standalone kind, the decoded
/// sub-frame records of a packet kind, or the opaque payload of a full
/// packet, whose own nested structure is outside this decoder's scope.
pub enum DemoMessage {
    Standalone(Vec<u8>),
    Packet(PacketRecords),
    FullPacket(Vec<u8>),
}

/// The empty message shell a command calls for: packet kinds get a nested
/// record list, the full-packet kind an opaque payload, every other command —
/// known or not — a standalone payload.
pub fn new_message_from_command(cmd: DemoCommand) -> (m: DemoMessage)
    ensures
        match m {
            DemoMessage::Standalone(d) => !is_packet_kind(cmd) && cmd != DemoCommand::EDemo(
                TopCommand::FullPacket,
            ) && d@ == Seq::<u8>::empty(),
            DemoMessage::Packet(p) => is_packet_kind(cmd) && p.records@ == Seq::<
                crate::packet::SubRecord,
            >::empty() && p.error is None,
            DemoMessage::FullPacket(d) => cmd == DemoCommand::EDemo(TopCommand::FullPacket) && d@
                == Seq::<u8>::empty(),
        },
{
    match cmd {
        DemoCommand::EDemo(TopCommand::Packet) => DemoMessage::Packet(
            PacketRecords { records: Vec::new(), error: None },
        ),
        DemoCommand::EDemo(TopCommand::SignonPacket) => DemoMessage::Packet(
            PacketRecords { records: Vec::new(), error: None },
        ),
        DemoCommand::EDemo(TopCommand::FullPacket) => DemoMessage::FullPacket(Vec::new()),
        _ => DemoMessage::Standalone(Vec::new()),
    }
}

} // verus!
