//! Configuration of a diagnostic server with the hard reset only and without
//! writable identifiers.

use vstd::prelude::*;

use crate::bytes;
use crate::uds;
use crate::uds::config;
use crate::uds::config::ConfigModel;
use crate::uds::config::DidWriteEntry;
use crate::uds::config::UdsConfig;
use crate::uds::state::UdsModel;
use crate::uds::static_config;

verus! {

/// Sessions in which a reset is allowed: Default and Programming.
pub const RESET_ACCESS: u8 = 0b011;

/// The configuration with nothing queued.
pub open spec fn basic() -> ConfigModel {
    ConfigModel {
        services: static_config::services(RESET_ACCESS),
        write_dids: Seq::empty(),
        soft_reset: false,
        ..static_config::standard()
    }
}

/// The table of writable identifiers, which is empty.
pub fn empty_write_dids() -> (table: Vec<DidWriteEntry>)
    ensures
        table@ == Seq::<DidWriteEntry>::empty(),
{
    Vec::new()
}

pub fn uds_config() -> (c: UdsConfig)
    ensures
        c@ == basic(),
{
    let c = UdsConfig {
        services: static_config::service_table(RESET_ACCESS),
        read_dids: static_config::read_did_table(),
        write_dids: empty_write_dids(),
        routines_start: static_config::dependency_table(),
        routines_stop: static_config::dependency_table(),
        routines_result: static_config::precondition_table(),
        pending_queue: [None, None, None, None],
        p2_server_ms: 50,
        p2_star_ms: 5000,
        key_masks: static_config::key_material(),
        key_material_changed: false,
        soft_reset: false,
        on_default_session_enter: false,
        on_programming_session_enter: false,
        on_extended_session_enter: false,
    };
    assert(c@ =~= basic());
    c
}

/// With this configuration nothing can be written, only the hard reset is known,
/// and there is no reset in the extended session.
pub proof fn law_basic_configuration(s: UdsModel, c: ConfigModel, request: Seq<u8>, now_ms: u32)
    requires
        c.services == basic().services,
        c.write_dids == basic().write_dids,
        c.soft_reset == basic().soft_reset,
        !s.tx_disabled,
        request.len() >= 2,
        request[0] == 0x11 || (request[0] == 0x2E && request.len() >= 3),
    ensures
        uds::dispatched(s, c, request, now_ms).1 == c,
        ({
            let after = uds::dispatched(s, c, request, now_ms).0;
            if request[0] == 0x2E {
                after.response == seq![0x7Fu8, 0x2E, 0x31]
            } else if s.session is Extended {
                after.response == seq![0x7Fu8, 0x11, 0x7F]
            } else if request.len() != 2 {
                after.response == seq![0x7Fu8, 0x11, 0x13]
            } else if request[1] == 0x01 {
                after.response == seq![0x51u8, 0x01] && after.reset_requested
            } else {
                after.response == seq![0x7Fu8, 0x11, 0x12] && after.reset_requested
                    == s.reset_requested
            }
        }),
{
    static_config::law_services_are_found(0b011, request[0]);
    assert(c.services == static_config::services(0b011));
    if request[0] == 0x2E {
        let did = bytes::le_u16(request[1], request[2]);
        assert(config::write_did_of(c.write_dids, did) is None);
    }
}

} // verus!
