//! Frame identifiers of diagnostic requests and responses (ISO 14229-3).

use vstd::prelude::*;

verus! {

/// Request to every node.
pub const COB_ID_FUNCTIONAL_REQUEST: u16 = 0x7DF;

/// Request to this node.
pub const COB_ID_PHYSICAL_REQUEST: u16 = 0x7E0;

/// Response of this node: its request identifier plus 8.
pub const COB_ID_PHYSICAL_RESPONSE: u16 = 0x7E8;

/// Whether `id` is that of a request to this node or to every node.
pub fn is_uds_request_id(id: u16) -> (b: bool)
    ensures
        b == (id == COB_ID_FUNCTIONAL_REQUEST || id == COB_ID_PHYSICAL_REQUEST),
{
    id == COB_ID_FUNCTIONAL_REQUEST || id == COB_ID_PHYSICAL_REQUEST
}

/// The identifier to respond on, whatever the request came on.
pub fn response_id_for_request(_request_id: u16) -> (id: u16)
    ensures
        id == COB_ID_PHYSICAL_RESPONSE,
{
    COB_ID_PHYSICAL_RESPONSE
}

} // verus!
