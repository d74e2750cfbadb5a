//! 0x2E WriteDataByIdentifier.
//!
//! ```text
//! [0x2E, did_lo, did_hi, data...] -> [0x6E, did_lo, did_hi]
//! ```

use vstd::prelude::*;
use vstd::slice::slice_subrange;

use crate::bytes;
use crate::uds::config;
use crate::uds::config::ConfigModel;
use crate::uds::config::DidTarget;
use crate::uds::config::UdsConfig;
use crate::uds::crypto::AesBlock;
use crate::uds::nrc::Nrc;
use crate::uds::state;
use crate::uds::state::UdsModel;
use crate::uds::state::UdsState;

verus! {

pub const SID: u8 = 0x2E;

/// Bytes of key material: three blocks.
pub const KEY_MATERIAL_SIZE: usize = 48;

/// Whether `block` is made of zeros only.
pub open spec fn all_zero(block: Seq<u8>) -> bool {
    forall|i: int| 0 <= i < block.len() ==> #[trigger] block[i] == 0
}

/// Whether `data` is accepted as key material: 48 bytes, no block of which
/// is all zero.
pub open spec fn key_material_verdict(data: Seq<u8>) -> Result<(), Nrc> {
    if data.len() != KEY_MATERIAL_SIZE {
        Err(Nrc::IncorrectMessageLengthOrInvalidFormat)
    } else if all_zero(data.subrange(0, 16)) || all_zero(data.subrange(16, 32)) || all_zero(
        data.subrange(32, 48),
    ) {
        Err(Nrc::RequestOutOfRange)
    } else {
        Ok(())
    }
}

/// The configuration after `data` was written to `target`, if it was.
pub open spec fn stored(c: ConfigModel, target: DidTarget, data: Seq<u8>) -> Result<
    ConfigModel,
    Nrc,
> {
    match target {
        DidTarget::KeyMaterial => match key_material_verdict(data) {
            Ok(()) => Ok(ConfigModel { key_masks: data, key_material_changed: true, ..c }),
            Err(nrc) => Err(nrc),
        },
    }
}

/// What the request comes to, before anything is stored: the identifier's
/// target, or the reason for a refusal.
pub open spec fn target_of(s: UdsModel, c: ConfigModel, req: Seq<u8>) -> Result<DidTarget, Nrc> {
    if req.len() < 3 {
        Err(Nrc::IncorrectMessageLengthOrInvalidFormat)
    } else {
        match config::write_did_of(c.write_dids, bytes::le_u16(req[1], req[2])) {
            None => Err(Nrc::RequestOutOfRange),
            Some(entry) => if !config::admits(entry.session_access, s.session) {
                Err(Nrc::ServiceNotSupportedInActiveSession)
            } else if s.security.rank() < entry.security_level {
                Err(Nrc::SecurityAccessDenied)
            } else {
                Ok(entry.target)
            },
        }
    }
}

/// State and configuration after the request.
pub open spec fn handled(s: UdsModel, c: ConfigModel, req: Seq<u8>) -> (UdsModel, ConfigModel) {
    match target_of(s, c, req) {
        Err(nrc) => (s.refused(SID, nrc), c),
        Ok(target) => match stored(c, target, req.skip(3)) {
            Err(nrc) => (s.refused(SID, nrc), c),
            Ok(after) => (s.replied(seq![0x6Eu8, req[1], req[2]]), after),
        },
    }
}

/// The 16 bytes of `data` from `start` on.
fn block_at(data: &[u8], start: usize) -> (block: [u8; 16])
    requires
        start + 16 <= data.len(),
    ensures
        block@ == data@.subrange(start as int, start + 16),
{
    let mut block: [u8; 16] = [0; 16];
    let mut i: usize = 0;
    while i < 16
        invariant
            i <= 16,
            start + 16 <= data.len(),
            forall|j: int| 0 <= j < i ==> #[trigger] block@[j] == data@[start + j],
        decreases 16 - i,
    {
        block[i] = data[start + i];
        i = i + 1;
    }
    assert(block@ =~= data@.subrange(start as int, start + 16));
    block
}

fn is_all_zero(block: &[u8; 16]) -> (b: bool)
    ensures
        b == all_zero(block@),
{
    let mut i: usize = 0;
    while i < 16
        invariant
            i <= 16,
            forall|j: int| 0 <= j < i ==> #[trigger] block@[j] == 0,
        decreases 16 - i,
    {
        if block[i] != 0 {
            return false;
        }
        i = i + 1;
    }
    true
}

/// Replaces the key material of the three security levels, from which
/// SecurityAccess derives its keys, and marks it to be saved.
pub fn write_key_masks(config: &mut UdsConfig, data: &[u8]) -> (r: Result<(), Nrc>)
    ensures
        r == key_material_verdict(data@),
        final(config)@ == match stored(old(config)@, DidTarget::KeyMaterial, data@) {
            Ok(after) => after,
            Err(_) => old(config)@,
        },
{
    if data.len() != KEY_MATERIAL_SIZE {
        return Err(Nrc::IncorrectMessageLengthOrInvalidFormat);
    }
    let sal1 = block_at(data, 0);
    let sal2 = block_at(data, 16);
    let sal3 = block_at(data, 32);
    if is_all_zero(&sal1) || is_all_zero(&sal2) || is_all_zero(&sal3) {
        return Err(Nrc::RequestOutOfRange);
    }
    config.key_masks = [
        AesBlock::from_bytes(sal1),
        AesBlock::from_bytes(sal2),
        AesBlock::from_bytes(sal3),
    ];
    config.key_material_changed = true;
    assert(config@.key_masks =~= data@);
    Ok(())
}

pub fn handle(state: &mut UdsState, config: &mut UdsConfig, req: &[u8])
    ensures
        (final(state)@, final(config)@) == handled(old(state)@, old(config)@, req@),
{
    if req.len() < 3 {
        state::store_negative(state, SID, Nrc::IncorrectMessageLengthOrInvalidFormat);
        return;
    }
    let did: u16 = bytes::u16_from_le(req[1], req[2]);
    match config::find_write_did(&config.write_dids, did) {
        None => {
            state::store_negative(state, SID, Nrc::RequestOutOfRange);
        },
        Some(entry) => {
            if !config::session_allowed(state.session, entry.session_access) {
                state::store_negative(state, SID, Nrc::ServiceNotSupportedInActiveSession);
                return;
            }
            if !config::security_allowed(state.security, entry.security_level) {
                state::store_negative(state, SID, Nrc::SecurityAccessDenied);
                return;
            }
            let data = slice_subrange(req, 3, req.len());
            assert(data@ =~= req@.skip(3));
            let r = match entry.target {
                DidTarget::KeyMaterial => write_key_masks(config, data),
            };
            match r {
                Ok(()) => {
                    state::store_response(state, &[0x6E, req[1], req[2]]);
                },
                Err(nrc) => {
                    state::store_negative(state, SID, nrc);
                },
            }
        },
    }
}

/// A refused write leaves the configuration as it was.
pub proof fn law_refused_write_changes_nothing(s: UdsModel, c: ConfigModel, req: Seq<u8>)
    requires
        handled(s, c, req).0.response[0] == 0x7F,
    ensures
        handled(s, c, req).1 == c,
{
}

/// Accepted key material is kept as it was sent and is due to be saved.
pub proof fn law_accepted_key_material_is_kept(s: UdsModel, c: ConfigModel, req: Seq<u8>)
    requires
        handled(s, c, req).0.response == seq![0x6Eu8, req[1], req[2]],
    ensures
        handled(s, c, req).1.key_masks == req.skip(3),
        handled(s, c, req).1.key_material_changed,
{
}

/// The handler changes neither the request in flight nor the pending work,
/// and keeps the buffers within their limits.
pub proof fn lemma_keeps(s: UdsModel, c: ConfigModel, req: Seq<u8>)
    requires
        s.wf(),
    ensures
        handled(s, c, req).0.wf(),
        handled(s, c, req).0.request == s.request,
        handled(s, c, req).0.state == s.state,
{
}

} // verus!
