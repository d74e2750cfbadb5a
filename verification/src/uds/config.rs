//! Configuration of the diagnostic server: which services, identifiers and
//! routines exist, and who may use them.

use vstd::prelude::*;

use crate::bytes;
use crate::uds::crypto::AesBlock;
use crate::uds::pending::PendingJob;
use crate::uds::state::SecurityLevel;
use crate::uds::state::Session;

verus! {

/// The handler that a service goes to.
#[derive(Copy, Clone, Debug, PartialEq, Eq, Structural)]
pub enum ServiceHandler {
    Session,
    EcuReset,
    ClearDtc,
    ReadDtc,
    ReadDataById,
    WriteDataById,
    CommControl,
    SecurityAccess,
    RoutineStart,
    RequestDownload,
    TransferData,
    TransferExit,
    TesterPresent,
}

/// A service: its id, who may use it, and its handler.
#[derive(Copy, Clone, Debug, PartialEq, Eq, Structural)]
pub struct ServiceEntry {
    pub sid: u8,
    /// Sessions in which the service exists: bit 0 Default, bit 1
    /// Programming, bit 2 Extended. 0 stands for all of them.
    pub session_access: u8,
    /// Lowest security level that may use the service.
    pub security_level: u8,
    pub handler: ServiceHandler,
}

impl ServiceEntry {
    pub fn new(sid: u8, session_access: u8, security_level: u8, handler: ServiceHandler) -> (e:
        ServiceEntry)
        ensures
            e == (ServiceEntry { sid, session_access, security_level, handler }),
    {
        ServiceEntry { sid, session_access, security_level, handler }
    }
}

/// Where the data of a readable identifier comes from.
#[derive(Copy, Clone, Debug, PartialEq, Eq, Structural)]
pub enum DidSource {
    /// The byte of the active session.
    ActiveSession,
}

/// An identifier that can be read.
#[derive(Copy, Clone, Debug, PartialEq, Eq, Structural)]
pub struct DidReadEntry {
    pub did: u16,
    pub session_access: u8,
    pub security_level: u8,
    pub source: DidSource,
}

/// Where the data of a writable identifier goes.
#[derive(Copy, Clone, Debug, PartialEq, Eq, Structural)]
pub enum DidTarget {
    /// The key material of the three security levels.
    KeyMaterial,
}

/// An identifier that can be written.
#[derive(Copy, Clone, Debug, PartialEq, Eq, Structural)]
pub struct DidWriteEntry {
    pub did: u16,
    pub session_access: u8,
    pub security_level: u8,
    pub target: DidTarget,
}

/// What a routine does.
#[derive(Copy, Clone, Debug, PartialEq, Eq, Structural)]
pub enum Routine {
    /// Nothing; the result is empty.
    Noop,
    /// Reports with one byte 0x00 that the preconditions are met.
    CheckPreconditions,
}

/// A routine that can be started, stopped or asked for its result.
#[derive(Copy, Clone, Debug, PartialEq, Eq, Structural)]
pub struct RoutineEntry {
    pub rid: u16,
    pub session_access: u8,
    pub security_level: u8,
    pub routine: Routine,
}

/// The configuration, with the queue of unfinished work.
pub struct UdsConfig {
    pub services: Vec<ServiceEntry>,
    pub read_dids: Vec<DidReadEntry>,
    pub write_dids: Vec<DidWriteEntry>,
    pub routines_start: Vec<RoutineEntry>,
    pub routines_stop: Vec<RoutineEntry>,
    pub routines_result: Vec<RoutineEntry>,
    pub pending_queue: [Option<PendingJob>; 4],
    /// How long a request may stay unanswered before the client is told to
    /// wait.
    pub p2_server_ms: u32,
    /// How long the client waits once it has been told to.
    pub p2_star_ms: u32,
    /// Key material, one block for each security level. The key derivation
    /// works on 32 bits: its mask is the first four bytes of the block, most
    /// significant first.
    pub key_masks: [AesBlock; 3],
    /// The key material has been replaced and not been saved yet.
    pub key_material_changed: bool,
    /// Whether a soft reset is supported besides the hard one.
    pub soft_reset: bool,
    /// Whether the application wants to know of a session being entered.
    pub on_default_session_enter: bool,
    pub on_programming_session_enter: bool,
    pub on_extended_session_enter: bool,
}

/// `UdsConfig` with its tables as sequences.
#[verifier::ext_equal]
pub struct ConfigModel {
    pub services: Seq<ServiceEntry>,
    pub read_dids: Seq<DidReadEntry>,
    pub write_dids: Seq<DidWriteEntry>,
    pub routines_start: Seq<RoutineEntry>,
    pub routines_stop: Seq<RoutineEntry>,
    pub routines_result: Seq<RoutineEntry>,
    pub queue: Seq<Option<PendingJob>>,
    pub p2_server_ms: u32,
    pub p2_star_ms: u32,
    /// The three blocks one after the other.
    pub key_masks: Seq<u8>,
    pub key_material_changed: bool,
    pub soft_reset: bool,
    pub on_default_session_enter: bool,
    pub on_programming_session_enter: bool,
    pub on_extended_session_enter: bool,
}

/// The bytes of three blocks, one after the other.
pub open spec fn material(blocks: Seq<AesBlock>) -> Seq<u8> {
    blocks[0]@ + blocks[1]@ + blocks[2]@
}

impl View for UdsConfig {
    type V = ConfigModel;

    open spec fn view(&self) -> ConfigModel {
        ConfigModel {
            services: self.services@,
            read_dids: self.read_dids@,
            write_dids: self.write_dids@,
            routines_start: self.routines_start@,
            routines_stop: self.routines_stop@,
            routines_result: self.routines_result@,
            queue: self.pending_queue@,
            p2_server_ms: self.p2_server_ms,
            p2_star_ms: self.p2_star_ms,
            key_masks: material(self.key_masks@),
            key_material_changed: self.key_material_changed,
            soft_reset: self.soft_reset,
            on_default_session_enter: self.on_default_session_enter,
            on_programming_session_enter: self.on_programming_session_enter,
            on_extended_session_enter: self.on_extended_session_enter,
        }
    }
}

/// The mask that a block of key material starts with.
pub open spec fn leading_mask(block: Seq<u8>) -> u32 {
    bytes::le_u32(seq![block[3], block[2], block[1], block[0]])
}

impl ConfigModel {
    /// The mask of the key derivation for a security level.
    pub open spec fn level_mask(self, sal: int) -> u32 {
        leading_mask(self.key_masks.skip(16 * (sal - 1)))
    }

    /// Whether the application wants to know that `session` was entered.
    pub open spec fn announces(self, session: Session) -> bool {
        match session {
            Session::Default => self.on_default_session_enter,
            Session::Programming => self.on_programming_session_enter,
            Session::Extended => self.on_extended_session_enter,
        }
    }

    /// No work is queued.
    pub open spec fn drained(self) -> bool {
        forall|i: int| 0 <= i < self.queue.len() ==> #[trigger] self.queue[i] is None
    }
}

/// The mask of the key derivation for a security level.
pub fn level_mask(config: &UdsConfig, sal: u8) -> (mask: u32)
    requires
        1 <= sal <= 3,
    ensures
        mask == config@.level_mask(sal as int),
{
    let block = config.key_masks[(sal - 1) as usize].0;
    let ghost rest = config@.key_masks.skip(16 * (sal - 1));
    assert(rest[0] == block@[0] && rest[1] == block@[1] && rest[2] == block@[2] && rest[3]
        == block@[3]);
    let mask: u32 = bytes::u32_from_le([block[3], block[2], block[1], block[0]]);
    assert([block[3], block[2], block[1], block[0]]@ =~= seq![rest[3], rest[2], rest[1], rest[0]]);
    mask
}

/// The bit that stands for a session in an access mask.
pub open spec fn mask_of(session: Session) -> u8 {
    match session {
        Session::Default => 1,
        Session::Programming => 2,
        Session::Extended => 4,
    }
}

/// Whether an access mask admits a session: its bit is set, or the mask is 0.
pub open spec fn admits(access: u8, session: Session) -> bool {
    access == 0 || (access / mask_of(session)) % 2 == 1
}

/// The bit that stands for `s` in an access mask.
pub fn session_bit(s: Session) -> (bit: u8)
    ensures
        bit == mask_of(s),
{
    let shift: u8 = s.as_u8() - 1;
    assert(1u8 << 0u8 == 1 && 1u8 << 1u8 == 2 && 1u8 << 2u8 == 4) by (bit_vector);
    1u8 << shift
}

/// Whether the access mask `access` admits `state_session`.
pub fn session_allowed(state_session: Session, access: u8) -> (allowed: bool)
    ensures
        allowed == admits(access, state_session),
{
    if access == 0 {
        return true;
    }
    let bit: u8 = session_bit(state_session);
    assert(((access & 1) != 0) == ((access / 1) % 2 == 1)) by (bit_vector);
    assert(((access & 2) != 0) == ((access / 2) % 2 == 1)) by (bit_vector);
    assert(((access & 4) != 0) == ((access / 4) % 2 == 1)) by (bit_vector);
    (access & bit) != 0
}

/// Whether a security level is at least `required`.
pub fn security_allowed(state_security: SecurityLevel, required: u8) -> (allowed: bool)
    ensures
        allowed == (state_security.rank() >= required),
{
    state_security.as_u8() >= required
}

/// The first service with the id `sid`.
pub open spec fn service_of(table: Seq<ServiceEntry>, sid: u8) -> Option<ServiceEntry>
    decreases table.len(),
{
    if table.len() == 0 {
        None
    } else if table[0].sid == sid {
        Some(table[0])
    } else {
        service_of(table.skip(1), sid)
    }
}

/// The first readable identifier `did`.
pub open spec fn read_did_of(table: Seq<DidReadEntry>, did: u16) -> Option<DidReadEntry>
    decreases table.len(),
{
    if table.len() == 0 {
        None
    } else if table[0].did == did {
        Some(table[0])
    } else {
        read_did_of(table.skip(1), did)
    }
}

/// The first writable identifier `did`.
pub open spec fn write_did_of(table: Seq<DidWriteEntry>, did: u16) -> Option<DidWriteEntry>
    decreases table.len(),
{
    if table.len() == 0 {
        None
    } else if table[0].did == did {
        Some(table[0])
    } else {
        write_did_of(table.skip(1), did)
    }
}

/// The first routine `rid`.
pub open spec fn routine_of(table: Seq<RoutineEntry>, rid: u16) -> Option<RoutineEntry>
    decreases table.len(),
{
    if table.len() == 0 {
        None
    } else if table[0].rid == rid {
        Some(table[0])
    } else {
        routine_of(table.skip(1), rid)
    }
}

pub fn find_service(table: &Vec<ServiceEntry>, sid: u8) -> (r: Option<ServiceEntry>)
    ensures
        r == service_of(table@, sid),
{
    let mut i: usize = 0;
    assert(table@.skip(0) =~= table@);
    while i < table.len()
        invariant
            i <= table@.len(),
            service_of(table@, sid) == service_of(table@.skip(i as int), sid),
        decreases table.len() - i,
    {
        if table[i].sid == sid {
            return Some(table[i]);
        }
        assert(table@.skip(i as int).skip(1) =~= table@.skip(i + 1));
        i = i + 1;
    }
    None
}

pub fn find_read_did(table: &Vec<DidReadEntry>, did: u16) -> (r: Option<DidReadEntry>)
    ensures
        r == read_did_of(table@, did),
{
    let mut i: usize = 0;
    assert(table@.skip(0) =~= table@);
    while i < table.len()
        invariant
            i <= table@.len(),
            read_did_of(table@, did) == read_did_of(table@.skip(i as int), did),
        decreases table.len() - i,
    {
        if table[i].did == did {
            return Some(table[i]);
        }
        assert(table@.skip(i as int).skip(1) =~= table@.skip(i + 1));
        i = i + 1;
    }
    None
}

pub fn find_write_did(table: &Vec<DidWriteEntry>, did: u16) -> (r: Option<DidWriteEntry>)
    ensures
        r == write_did_of(table@, did),
{
    let mut i: usize = 0;
    assert(table@.skip(0) =~= table@);
    while i < table.len()
        invariant
            i <= table@.len(),
            write_did_of(table@, did) == write_did_of(table@.skip(i as int), did),
        decreases table.len() - i,
    {
        if table[i].did == did {
            return Some(table[i]);
        }
        assert(table@.skip(i as int).skip(1) =~= table@.skip(i + 1));
        i = i + 1;
    }
    None
}

pub fn find_routine(table: &Vec<RoutineEntry>, rid: u16) -> (r: Option<RoutineEntry>)
    ensures
        r == routine_of(table@, rid),
{
    let mut i: usize = 0;
    assert(table@.skip(0) =~= table@);
    while i < table.len()
        invariant
            i <= table@.len(),
            routine_of(table@, rid) == routine_of(table@.skip(i as int), rid),
        decreases table.len() - i,
    {
        if table[i].rid == rid {
            return Some(table[i]);
        }
        assert(table@.skip(i as int).skip(1) =~= table@.skip(i + 1));
        i = i + 1;
    }
    None
}

/// The key material if it has been replaced since it was last saved; it
/// then counts as saved.
pub fn take_changed_key_material(config: &mut UdsConfig) -> (keys: Option<[AesBlock; 3]>)
    ensures
        final(config)@ == (ConfigModel { key_material_changed: false, ..old(config)@ }),
        match keys {
            Some(blocks) => old(config)@.key_material_changed && material(blocks@)
                == old(config)@.key_masks,
            None => !old(config)@.key_material_changed,
        },
{
    let changed = config.key_material_changed;
    config.key_material_changed = false;
    if changed {
        Some(config.key_masks)
    } else {
        None
    }
}

/// Bit 0 of an access mask admits the default session, bit 1 the programming
/// session and bit 2 the extended one; the mask 0 admits all.
pub proof fn law_access_masks(access: u8)
    ensures
        admits(access, Session::Default) <==> access == 0 || access % 2 == 1,
        admits(access, Session::Programming) <==> access == 0 || (access / 2) % 2 == 1,
        admits(access, Session::Extended) <==> access == 0 || (access / 4) % 2 == 1,
{
}

/// A service is found exactly if the table has it, and is then the first entry
/// with its id.
pub proof fn law_first_service_is_found(table: Seq<ServiceEntry>, sid: u8, i: int)
    requires
        0 <= i < table.len(),
        table[i].sid == sid,
        forall|j: int| 0 <= j < i ==> #[trigger] table[j].sid != sid,
    ensures
        service_of(table, sid) == Some(table[i]),
    decreases i,
{
    if i > 0 {
        assert(table[0].sid != sid);
        let rest = table.skip(1);
        assert(rest[i - 1] == table[i]);
        assert forall|j: int| 0 <= j < i - 1 implies #[trigger] rest[j].sid != sid by {
            assert(table[j + 1].sid != sid);
        }
        law_first_service_is_found(rest, sid, i - 1);
    }
}

/// The same of the identifiers that can be read.
pub proof fn law_first_read_did_is_found(table: Seq<DidReadEntry>, did: u16, i: int)
    requires
        0 <= i < table.len(),
        table[i].did == did,
        forall|j: int| 0 <= j < i ==> #[trigger] table[j].did != did,
    ensures
        read_did_of(table, did) == Some(table[i]),
    decreases i,
{
    if i > 0 {
        assert(table[0].did != did);
        let rest = table.skip(1);
        assert(rest[i - 1] == table[i]);
        assert forall|j: int| 0 <= j < i - 1 implies #[trigger] rest[j].did != did by {
            assert(table[j + 1].did != did);
        }
        law_first_read_did_is_found(rest, did, i - 1);
    }
}

/// The same of the identifiers that can be written.
pub proof fn law_first_write_did_is_found(table: Seq<DidWriteEntry>, did: u16, i: int)
    requires
        0 <= i < table.len(),
        table[i].did == did,
        forall|j: int| 0 <= j < i ==> #[trigger] table[j].did != did,
    ensures
        write_did_of(table, did) == Some(table[i]),
    decreases i,
{
    if i > 0 {
        assert(table[0].did != did);
        let rest = table.skip(1);
        assert(rest[i - 1] == table[i]);
        assert forall|j: int| 0 <= j < i - 1 implies #[trigger] rest[j].did != did by {
            assert(table[j + 1].did != did);
        }
        law_first_write_did_is_found(rest, did, i - 1);
    }
}

/// The same of the routines.
pub proof fn law_first_routine_is_found(table: Seq<RoutineEntry>, rid: u16, i: int)
    requires
        0 <= i < table.len(),
        table[i].rid == rid,
        forall|j: int| 0 <= j < i ==> #[trigger] table[j].rid != rid,
    ensures
        routine_of(table, rid) == Some(table[i]),
    decreases i,
{
    if i > 0 {
        assert(table[0].rid != rid);
        let rest = table.skip(1);
        assert(rest[i - 1] == table[i]);
        assert forall|j: int| 0 <= j < i - 1 implies #[trigger] rest[j].rid != rid by {
            assert(table[j + 1].rid != rid);
        }
        law_first_routine_is_found(rest, rid, i - 1);
    }
}

/// What a table does not have is not found in it.
pub proof fn law_missing_entries_are_not_found(
    services: Seq<ServiceEntry>,
    reads: Seq<DidReadEntry>,
    writes: Seq<DidWriteEntry>,
    routines: Seq<RoutineEntry>,
    sid: u8,
    id: u16,
)
    requires
        forall|j: int| 0 <= j < services.len() ==> #[trigger] services[j].sid != sid,
        forall|j: int| 0 <= j < reads.len() ==> #[trigger] reads[j].did != id,
        forall|j: int| 0 <= j < writes.len() ==> #[trigger] writes[j].did != id,
        forall|j: int| 0 <= j < routines.len() ==> #[trigger] routines[j].rid != id,
    ensures
        service_of(services, sid) is None,
        read_did_of(reads, id) is None,
        write_did_of(writes, id) is None,
        routine_of(routines, id) is None,
    decreases services.len() + reads.len() + writes.len() + routines.len(),
{
    if services.len() + reads.len() + writes.len() + routines.len() > 0 {
        let a = if services.len() > 0 {
            services.skip(1)
        } else {
            services
        };
        let b = if reads.len() > 0 {
            reads.skip(1)
        } else {
            reads
        };
        let c = if writes.len() > 0 {
            writes.skip(1)
        } else {
            writes
        };
        let d = if routines.len() > 0 {
            routines.skip(1)
        } else {
            routines
        };
        assert forall|j: int| 0 <= j < a.len() implies #[trigger] a[j].sid != sid by {
            assert(services[j + services.len() - a.len()].sid != sid);
        }
        assert forall|j: int| 0 <= j < b.len() implies #[trigger] b[j].did != id by {
            assert(reads[j + reads.len() - b.len()].did != id);
        }
        assert forall|j: int| 0 <= j < c.len() implies #[trigger] c[j].did != id by {
            assert(writes[j + writes.len() - c.len()].did != id);
        }
        assert forall|j: int| 0 <= j < d.len() implies #[trigger] d[j].rid != id by {
            assert(routines[j + routines.len() - d.len()].rid != id);
        }
        law_missing_entries_are_not_found(a, b, c, d, sid, id);
        if services.len() > 0 {
            assert(services[0].sid != sid);
        }
        if reads.len() > 0 {
            assert(reads[0].did != id);
        }
        if writes.len() > 0 {
            assert(writes[0].did != id);
        }
        if routines.len() > 0 {
            assert(routines[0].rid != id);
        }
    }
}

} // verus!
