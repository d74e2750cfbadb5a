//! The configuration that the firmware runs with.
//!
//! A new identifier or routine is a new row in its table; a new service is a
//! new row in the service table and a handler.

use vstd::prelude::*;

use crate::uds::config;
use crate::uds::config::ConfigModel;
use crate::uds::config::DidReadEntry;
use crate::uds::config::DidSource;
use crate::uds::config::DidTarget;
use crate::uds::config::DidWriteEntry;
use crate::uds::config::Routine;
use crate::uds::config::RoutineEntry;
use crate::uds::config::ServiceEntry;
use crate::uds::config::ServiceHandler;
use crate::uds::config::UdsConfig;
use crate::uds::crypto::AesBlock;
use crate::uds::pending::PendingJob;

verus! {

/// Access mask of all sessions.
pub const ANY_SESSION: u8 = 0b111;

/// Identifier of the active session.
pub const DID_ACTIVE_SESSION: u16 = 0xF186;

/// Identifier of the key material.
pub const DID_KEY_MATERIAL: u16 = 0xF180;

/// Routine that checks the programming dependencies.
pub const RID_CHECK_DEPENDENCIES: u16 = 0xFF00;

/// Routine that checks the programming preconditions.
pub const RID_CHECK_PRECONDITIONS: u16 = 0xF001;

pub open spec fn service(sid: u8, session_access: u8, security_level: u8, handler: ServiceHandler) -> ServiceEntry {
    ServiceEntry { sid, session_access, security_level, handler }
}

/// The services; `reset_access` is the access mask of the reset service.
pub open spec fn services(reset_access: u8) -> Seq<ServiceEntry> {
    seq![
        service(0x10, ANY_SESSION, 0, ServiceHandler::Session),
        service(0x11, reset_access, 0, ServiceHandler::EcuReset),
        service(0x14, ANY_SESSION, 0, ServiceHandler::ClearDtc),
        service(0x19, ANY_SESSION, 0, ServiceHandler::ReadDtc),
        service(0x22, ANY_SESSION, 0, ServiceHandler::ReadDataById),
        service(0x27, ANY_SESSION, 0, ServiceHandler::SecurityAccess),
        service(0x28, ANY_SESSION, 0, ServiceHandler::CommControl),
        service(0x2E, ANY_SESSION, 0, ServiceHandler::WriteDataById),
        service(0x31, ANY_SESSION, 0, ServiceHandler::RoutineStart),
        service(0x34, 0b010, 1, ServiceHandler::RequestDownload),
        service(0x36, 0b010, 1, ServiceHandler::TransferData),
        service(0x37, 0b010, 1, ServiceHandler::TransferExit),
        service(0x3E, ANY_SESSION, 0, ServiceHandler::TesterPresent),
    ]
}

pub open spec fn read_dids() -> Seq<DidReadEntry> {
    seq![
        DidReadEntry {
            did: DID_ACTIVE_SESSION,
            session_access: ANY_SESSION,
            security_level: 0,
            source: DidSource::ActiveSession,
        },
    ]
}

pub open spec fn write_dids() -> Seq<DidWriteEntry> {
    seq![
        DidWriteEntry {
            did: DID_KEY_MATERIAL,
            session_access: 0b011,
            security_level: 2,
            target: DidTarget::KeyMaterial,
        },
    ]
}

/// The routine that can be started and stopped.
pub open spec fn dependency_check() -> RoutineEntry {
    RoutineEntry {
        rid: RID_CHECK_DEPENDENCIES,
        session_access: 0b011,
        security_level: 1,
        routine: Routine::Noop,
    }
}

/// The routine that can be asked for its result.
pub open spec fn precondition_check() -> RoutineEntry {
    RoutineEntry {
        rid: RID_CHECK_PRECONDITIONS,
        session_access: ANY_SESSION,
        security_level: 0,
        routine: Routine::CheckPreconditions,
    }
}

/// Key material after start-up, level after level.
pub open spec fn default_key_material() -> Seq<u8> {
    seq![
        0x30u8, 0x00, 0x22, 0x12, 0xAB, 0xCD, 0xEF, 0x01,
        0x23, 0x45, 0x67, 0x89, 0x01, 0x23, 0x45, 0x67,
        0x52, 0x4C, 0x5E, 0x63, 0xDE, 0xAD, 0xBE, 0xEF,
        0x12, 0x34, 0x56, 0x78, 0x9A, 0xBC, 0xDE, 0xF0,
        0xA5, 0xC3, 0xF1, 0x1B, 0xCA, 0xFE, 0xBA, 0xBE,
        0x34, 0x56, 0x78, 0x9A, 0xBC, 0xDE, 0xF0, 0x12,
    ]
}

/// The configuration with nothing queued.
pub open spec fn standard() -> ConfigModel {
    ConfigModel {
        services: services(ANY_SESSION),
        read_dids: read_dids(),
        write_dids: write_dids(),
        routines_start: seq![dependency_check()],
        routines_stop: seq![dependency_check()],
        routines_result: seq![precondition_check()],
        queue: seq![None::<PendingJob>, None, None, None],
        p2_server_ms: 50,
        p2_star_ms: 5000,
        key_masks: default_key_material(),
        key_material_changed: false,
        soft_reset: true,
        on_default_session_enter: false,
        on_programming_session_enter: false,
        on_extended_session_enter: false,
    }
}

/// The service table; `reset_access` is the access mask of the reset service.
pub fn service_table(reset_access: u8) -> (table: Vec<ServiceEntry>)
    ensures
        table@ == services(reset_access),
{
    let table: Vec<ServiceEntry> = vec![
        ServiceEntry::new(0x10, 0b111, 0, ServiceHandler::Session),
        ServiceEntry::new(0x11, reset_access, 0, ServiceHandler::EcuReset),
        ServiceEntry::new(0x14, 0b111, 0, ServiceHandler::ClearDtc),
        ServiceEntry::new(0x19, 0b111, 0, ServiceHandler::ReadDtc),
        ServiceEntry::new(0x22, 0b111, 0, ServiceHandler::ReadDataById),
        ServiceEntry::new(0x27, 0b111, 0, ServiceHandler::SecurityAccess),
        ServiceEntry::new(0x28, 0b111, 0, ServiceHandler::CommControl),
        ServiceEntry::new(0x2E, 0b111, 0, ServiceHandler::WriteDataById),
        ServiceEntry::new(0x31, 0b111, 0, ServiceHandler::RoutineStart),
        ServiceEntry::new(0x34, 0b010, 1, ServiceHandler::RequestDownload),
        ServiceEntry::new(0x36, 0b010, 1, ServiceHandler::TransferData),
        ServiceEntry::new(0x37, 0b010, 1, ServiceHandler::TransferExit),
        ServiceEntry::new(0x3E, 0b111, 0, ServiceHandler::TesterPresent),
    ];
    assert(table@ =~= services(reset_access));
    table
}

/// The identifiers that can be read.
pub fn read_did_table() -> (table: Vec<DidReadEntry>)
    ensures
        table@ == read_dids(),
{
    let table: Vec<DidReadEntry> = vec![
        DidReadEntry {
            did: DID_ACTIVE_SESSION,
            session_access: ANY_SESSION,
            security_level: 0,
            source: DidSource::ActiveSession,
        },
    ];
    assert(table@ =~= read_dids());
    table
}

/// The routines that can be started or stopped.
pub fn dependency_table() -> (table: Vec<RoutineEntry>)
    ensures
        table@ == seq![dependency_check()],
{
    let table: Vec<RoutineEntry> = vec![
        RoutineEntry {
            rid: RID_CHECK_DEPENDENCIES,
            session_access: 0b011,
            security_level: 1,
            routine: Routine::Noop,
        },
    ];
    assert(table@ =~= seq![dependency_check()]);
    table
}

/// The routines that can be asked for their result.
pub fn precondition_table() -> (table: Vec<RoutineEntry>)
    ensures
        table@ == seq![precondition_check()],
{
    let table: Vec<RoutineEntry> = vec![
        RoutineEntry {
            rid: RID_CHECK_PRECONDITIONS,
            session_access: ANY_SESSION,
            security_level: 0,
            routine: Routine::CheckPreconditions,
        },
    ];
    assert(table@ =~= seq![precondition_check()]);
    table
}

/// The key material that the firmware is built with.
pub fn key_material() -> (blocks: [AesBlock; 3])
    ensures
        config::material(blocks@) == default_key_material(),
{
    let blocks: [AesBlock; 3] = [
        AesBlock::from_bytes(
            [
                0x30, 0x00, 0x22, 0x12, 0xAB, 0xCD, 0xEF, 0x01,
                0x23, 0x45, 0x67, 0x89, 0x01, 0x23, 0x45, 0x67,
            ],
        ),
        AesBlock::from_bytes(
            [
                0x52, 0x4C, 0x5E, 0x63, 0xDE, 0xAD, 0xBE, 0xEF,
                0x12, 0x34, 0x56, 0x78, 0x9A, 0xBC, 0xDE, 0xF0,
            ],
        ),
        AesBlock::from_bytes(
            [
                0xA5, 0xC3, 0xF1, 0x1B, 0xCA, 0xFE, 0xBA, 0xBE,
                0x34, 0x56, 0x78, 0x9A, 0xBC, 0xDE, 0xF0, 0x12,
            ],
        ),
    ];
    assert(config::material(blocks@) =~= default_key_material());
    blocks
}

/// The configuration that the firmware runs with.
pub fn uds_config() -> (c: UdsConfig)
    ensures
        c@ == standard(),
{
    let writable: Vec<DidWriteEntry> = vec![
        DidWriteEntry {
            did: DID_KEY_MATERIAL,
            session_access: 0b011,
            security_level: 2,
            target: DidTarget::KeyMaterial,
        },
    ];
    assert(writable@ =~= write_dids());
    let c = UdsConfig {
        services: service_table(ANY_SESSION),
        read_dids: read_did_table(),
        write_dids: writable,
        routines_start: dependency_table(),
        routines_stop: dependency_table(),
        routines_result: precondition_table(),
        pending_queue: [None, None, None, None],
        p2_server_ms: 50,
        p2_star_ms: 5000,
        key_masks: key_material(),
        key_material_changed: false,
        soft_reset: true,
        on_default_session_enter: false,
        on_programming_session_enter: false,
        on_extended_session_enter: false,
    };
    assert(c@ =~= standard());
    c
}

/// The masks that the firmware is built with.
pub proof fn law_default_masks()
    ensures
        standard().level_mask(1) == 0x3000_2212,
        standard().level_mask(2) == 0x524C_5E63,
        standard().level_mask(3) == 0xA5C3_F11B,
{
}

/// The entry of a service in the table.
pub open spec fn expected_entry(reset_access: u8, sid: u8) -> Option<ServiceEntry> {
    match sid {
        0x10 => Some(services(reset_access)[0]),
        0x11 => Some(services(reset_access)[1]),
        0x14 => Some(services(reset_access)[2]),
        0x19 => Some(services(reset_access)[3]),
        0x22 => Some(services(reset_access)[4]),
        0x27 => Some(services(reset_access)[5]),
        0x28 => Some(services(reset_access)[6]),
        0x2E => Some(services(reset_access)[7]),
        0x31 => Some(services(reset_access)[8]),
        0x34 => Some(services(reset_access)[9]),
        0x36 => Some(services(reset_access)[10]),
        0x37 => Some(services(reset_access)[11]),
        0x3E => Some(services(reset_access)[12]),
        _ => None,
    }
}

/// Every service of the table is found, and no other.
pub proof fn law_services_are_found(reset_access: u8, sid: u8)
    ensures
        config::service_of(services(reset_access), sid) == expected_entry(reset_access, sid),
{
    let t = services(reset_access);
    lemma_found_from(t, sid, 0);
    assert(t.skip(0) =~= t);
    reveal_with_fuel(first_from, 14);
}

/// The first entry with the id `sid` from index `i` on.
spec fn first_from(t: Seq<ServiceEntry>, sid: u8, i: int) -> Option<ServiceEntry>
    decreases t.len() - i,
{
    if i < 0 || i >= t.len() {
        None
    } else if t[i].sid == sid {
        Some(t[i])
    } else {
        first_from(t, sid, i + 1)
    }
}

proof fn lemma_found_from(t: Seq<ServiceEntry>, sid: u8, i: int)
    requires
        0 <= i <= t.len(),
    ensures
        config::service_of(t.skip(i), sid) == first_from(t, sid, i),
    decreases t.len() - i,
{
    if i < t.len() {
        lemma_found_from(t, sid, i + 1);
        assert(t.skip(i).skip(1) =~= t.skip(i + 1));
    }
}

} // verus!
