//! The command that restarts the controller into its boot loader.

use vstd::prelude::*;

use crate::shell::text;

verus! {

/// What the command answers. The flag tells the boot loader to wait for an
/// image.
pub open spec fn answer(flag_set: bool) -> Seq<char> {
    if flag_set {
        "Rebooting to OTA bootloader, send y-modem...\r\n"@
    } else {
        "ota_update: flag set failed, aborting\r\n"@
    }
}

/// The answer of the command and whether the controller is to be reset,
/// given whether the flag could be set.
pub fn run_ota_update(flag_set: bool) -> (r: (Vec<u8>, bool))
    ensures
        r.0@ == text::utf8(answer(flag_set)),
        r.1 == flag_set,
{
    let mut out: Vec<u8> = Vec::new();
    if flag_set {
        text::push_str(&mut out, "Rebooting to OTA bootloader, send y-modem...\r\n");
    } else {
        text::push_str(&mut out, "ota_update: flag set failed, aborting\r\n");
    }
    assert(out@ =~= text::utf8(answer(flag_set)));
    (out, flag_set)
}

/// The command restarts the controller exactly if the flag could be set, and says
/// which it was.
pub proof fn law_answers(flag_set: bool)
    ensures
        flag_set ==> answer(flag_set) == "Rebooting to OTA bootloader, send y-modem...\r\n"@,
        !flag_set ==> answer(flag_set) == "ota_update: flag set failed, aborting\r\n"@,
{
}

} // verus!
