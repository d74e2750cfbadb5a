//! What the commands of the interactive command line say and do. The
//! command line itself takes care of reading them.

use vstd::prelude::*;

use crate::shell::commands;
use crate::shell::commands::Effect;
use crate::shell::text;

verus! {

/// A command, without the numbers of `spin`.
#[derive(Copy, Clone, Debug, PartialEq, Eq, Structural)]
pub enum ShellCommand {
    Help,
    Version,
    Info,
    Reboot,
    Spin,
    Stop,
}

/// What a command answers, `spin` apart.
pub open spec fn output_of(cmd: ShellCommand, version: Seq<char>) -> Seq<u8> {
    match cmd {
        ShellCommand::Help => text::utf8("Type <command> -h for help on a specific command\r\n"@),
        ShellCommand::Version => text::utf8(version) + text::utf8("\r\n"@),
        ShellCommand::Info => commands::info_output(),
        ShellCommand::Reboot => text::utf8("Rebooting...\r\n"@),
        ShellCommand::Spin => Seq::empty(),
        ShellCommand::Stop => text::utf8("stop ok\r\n"@),
    }
}

/// What a command does besides answering.
pub open spec fn effect_of(cmd: ShellCommand) -> Effect {
    match cmd {
        ShellCommand::Reboot => Effect::Reboot,
        ShellCommand::Spin => Effect::Spin,
        ShellCommand::Stop => Effect::Stop,
        _ => Effect::Nothing,
    }
}

/// The answer of a command and what it does. `version` is that of the
/// firmware.
pub fn process(cmd: ShellCommand, version: &str) -> (r: (Vec<u8>, Effect))
    ensures
        r.0@ == output_of(cmd, version@),
        r.1 == effect_of(cmd),
{
    let mut out: Vec<u8> = Vec::new();
    let effect = match cmd {
        ShellCommand::Help => {
            text::push_str(&mut out, "Type <command> -h for help on a specific command\r\n");
            Effect::Nothing
        },
        ShellCommand::Version => {
            text::push_str(&mut out, version);
            text::push_str(&mut out, "\r\n");
            Effect::Nothing
        },
        ShellCommand::Info => {
            commands::write_info(&mut out);
            Effect::Nothing
        },
        ShellCommand::Reboot => {
            text::push_str(&mut out, "Rebooting...\r\n");
            Effect::Reboot
        },
        ShellCommand::Spin => Effect::Spin,
        ShellCommand::Stop => {
            text::push_str(&mut out, "stop ok\r\n");
            Effect::Stop
        },
    };
    assert(out@ =~= output_of(cmd, version@));
    (out, effect)
}

/// Whether the motor is started for the numbers of `spin`, and with which
/// voltage.
#[derive(Copy, Clone, Debug, PartialEq, Eq, Structural)]
pub enum SpinVerdict {
    NotFinite,
    NegativeVoltage,
    /// Start with the largest voltage instead of the one asked for.
    Clamped,
    Accepted,
}

/// What is decided on the numbers of `spin`.
pub open spec fn verdict(finite: bool, voltage_negative: bool, voltage_too_high: bool) -> SpinVerdict {
    if !finite {
        SpinVerdict::NotFinite
    } else if voltage_negative {
        SpinVerdict::NegativeVoltage
    } else if voltage_too_high {
        SpinVerdict::Clamped
    } else {
        SpinVerdict::Accepted
    }
}

/// The motor is started exactly for finite numbers with a voltage that is not
/// negative, and with the largest voltage where the one asked for is too high.
pub proof fn law_spin_verdicts(finite: bool, voltage_negative: bool, voltage_too_high: bool)
    ensures
        ({
            let v = verdict(finite, voltage_negative, voltage_too_high);
            &&& v is Accepted <==> finite && !voltage_negative && !voltage_too_high
            &&& v is Clamped <==> finite && !voltage_negative && voltage_too_high
            &&& v is NotFinite <==> !finite
        }),
{
}

/// `reboot` resets, `stop` stops and `spin` spins; no other command does
/// anything but answer.
pub proof fn law_effects_of_commands(cmd: ShellCommand)
    ensures
        cmd is Reboot <==> effect_of(cmd) is Reboot,
        cmd is Stop <==> effect_of(cmd) is Stop,
        cmd is Spin <==> effect_of(cmd) is Spin,
        cmd is Help || cmd is Version || cmd is Info ==> effect_of(cmd) is Nothing,
{
}

/// What the commands answer.
pub proof fn law_answers_of_commands(cmd: ShellCommand, version: Seq<char>)
    ensures
        cmd is Help ==> output_of(cmd, version) == text::utf8(
            "Type <command> -h for help on a specific command\r\n"@,
        ),
        cmd is Version ==> output_of(cmd, version) == text::utf8(version) + text::utf8("\r\n"@),
        cmd is Reboot ==> output_of(cmd, version) == text::utf8("Rebooting...\r\n"@),
        cmd is Stop ==> output_of(cmd, version) == text::utf8("stop ok\r\n"@),
        cmd is Spin ==> output_of(cmd, version).len() == 0,
        cmd is Info ==> output_of(cmd, version) == commands::output_of(
            commands::CmdModel::Info,
            version,
        ),
{
}

/// Decides on the numbers of `spin` from what they are compared with 0 and
/// with the largest voltage.
pub fn check_spin(finite: bool, voltage_negative: bool, voltage_too_high: bool) -> (v: SpinVerdict)
    ensures
        v == verdict(finite, voltage_negative, voltage_too_high),
{
    if !finite {
        SpinVerdict::NotFinite
    } else if voltage_negative {
        SpinVerdict::NegativeVoltage
    } else if voltage_too_high {
        SpinVerdict::Clamped
    } else {
        SpinVerdict::Accepted
    }
}

impl SpinVerdict {
    pub open spec fn answer(self) -> Seq<char> {
        match self {
            SpinVerdict::NotFinite => "spin: freq/voltage must be finite\r\n"@,
            SpinVerdict::NegativeVoltage => "spin: voltage must be \u{2265} 0; ignored\r\n"@,
            SpinVerdict::Clamped => "spin: voltage clamped to MAX_OPENLOOP_V\r\nspin ok\r\n"@,
            SpinVerdict::Accepted => "spin ok\r\n"@,
        }
    }

    /// What `spin` answers.
    pub fn message(self) -> (s: &'static str)
        ensures
            s@ == self.answer(),
    {
        match self {
            SpinVerdict::NotFinite => "spin: freq/voltage must be finite\r\n",
            SpinVerdict::NegativeVoltage => "spin: voltage must be \u{2265} 0; ignored\r\n",
            SpinVerdict::Clamped => "spin: voltage clamped to MAX_OPENLOOP_V\r\nspin ok\r\n",
            SpinVerdict::Accepted => "spin ok\r\n",
        }
    }
}

/// What `spin` answers says what came of it.
pub proof fn law_answers_of_spin(v: SpinVerdict)
    ensures
        v is NotFinite ==> v.answer() == "spin: freq/voltage must be finite\r\n"@,
        v is NegativeVoltage ==> v.answer() == "spin: voltage must be \u{2265} 0; ignored\r\n"@,
        v is Clamped ==> v.answer() == "spin: voltage clamped to MAX_OPENLOOP_V\r\nspin ok\r\n"@,
        v is Accepted ==> v.answer() == "spin ok\r\n"@,
{
}

} // verus!
