use foc_rust::commands::ota::run_ota_update;
use foc_rust::commands::shell as cli;
use foc_rust::shell::commands::{check_spin, exec_cmd, parse_cmd, parse_decimal, Cmd, Decimal, Effect, SpinVerdict};
use foc_rust::shell::task::{prompt_bytes, EditStep, LineEditor};
use foc_rust::shell::text;

fn type_all(e: &mut LineEditor, bytes: &[u8]) -> Vec<u8> {
    let mut out = Vec::new();
    for &b in bytes {
        match e.on_byte(b) {
            EditStep::Echo(echo) => out.extend(echo),
            other => panic!("{:?}", other),
        }
    }
    out
}

fn parse(line: &str) -> Cmd {
    parse_cmd(line.as_bytes(), line.len())
}

fn number(text: &str) -> Option<Decimal> {
    let chars: Vec<char> = text.chars().collect();
    parse_decimal(&chars)
}

#[test]
fn typing_appends_and_echoes() {
    let mut e = LineEditor::new();
    assert_eq!(type_all(&mut e, b"abc"), b"abc".to_vec());
    assert_eq!(e.line, b"abc".to_vec());
    assert_eq!(e.pos, 3);
}

#[test]
fn typing_in_the_middle_redraws() {
    let mut e = LineEditor::new();
    type_all(&mut e, b"ac");
    assert!(matches!(e.on_byte(0x1b), EditStep::ReadEscape));
    assert_eq!(e.on_escape(b"[D"), b"\x1b[D".to_vec());
    assert_eq!(type_all(&mut e, b"b"), b"bc\x08".to_vec());
    assert_eq!(e.line, b"abc".to_vec());
    assert_eq!(e.pos, 2);
    assert_eq!(e.on_escape(b"[C"), b"\x1b[C".to_vec());
    assert_eq!(e.pos, 3);
    assert_eq!(e.on_escape(b"[C"), Vec::<u8>::new());
    assert_eq!(e.on_escape(b"[A"), Vec::<u8>::new());
    assert_eq!(e.on_escape(b"["), Vec::<u8>::new());
    assert_eq!(e.on_escape(b"OD"), Vec::<u8>::new());
}

#[test]
fn backspace_removes_before_the_cursor() {
    let mut e = LineEditor::new();
    assert_eq!(type_all(&mut e, &[0x08]), Vec::<u8>::new());
    type_all(&mut e, b"abc");
    e.on_escape(b"[D");
    assert_eq!(type_all(&mut e, &[0x7f]), b"c \x08\x08".to_vec());
    assert_eq!(e.line, b"ac".to_vec());
    assert_eq!(e.pos, 1);
}

#[test]
fn backspace_undoes_typing() {
    let mut e = LineEditor::new();
    type_all(&mut e, b"spin");
    e.on_escape(b"[D");
    type_all(&mut e, b"x\x08");
    assert_eq!(e.line, b"spin".to_vec());
    assert_eq!(e.pos, 3);
}

#[test]
fn full_line_takes_no_more() {
    let mut e = LineEditor::new();
    type_all(&mut e, &[b'a'; 64]);
    assert_eq!(type_all(&mut e, b"b"), Vec::<u8>::new());
    assert_eq!(e.line.len(), 64);
}

#[test]
fn control_characters_are_ignored() {
    let mut e = LineEditor::new();
    assert_eq!(type_all(&mut e, &[0x00, 0x09, 0x80, 0xFF]), Vec::<u8>::new());
    assert_eq!(e.line.len(), 0);
    assert_eq!(type_all(&mut e, b" ~"), b" ~".to_vec());
}

#[test]
fn enter_runs_the_line() {
    let mut e = LineEditor::new();
    assert_eq!(type_all(&mut e, b"\r"), prompt_bytes());
    assert_eq!(prompt_bytes(), b"\r\n> ".to_vec());
    type_all(&mut e, b"help");
    match e.on_byte(b'\n') {
        EditStep::Run(line) => assert_eq!(line, b"help".to_vec()),
        other => panic!("{:?}", other),
    }
    assert_eq!((e.line.len(), e.pos), (0, 0));
}

#[test]
fn command_words() {
    assert!(matches!(parse("help"), Cmd::Help));
    assert!(matches!(parse("?"), Cmd::Help));
    assert!(matches!(parse("version"), Cmd::Version));
    assert!(matches!(parse("ver"), Cmd::Version));
    assert!(matches!(parse("info"), Cmd::Info));
    assert!(matches!(parse("reboot now"), Cmd::Reboot));
    assert!(matches!(parse("  stop\t"), Cmd::Stop));
    assert!(matches!(parse("\u{2003}stop\u{3000}"), Cmd::Stop));
    assert!(matches!(parse("stop\tnow"), Cmd::Unknown));
    assert!(matches!(parse("halt"), Cmd::Unknown));
    assert!(matches!(parse(""), Cmd::Unknown));
    assert!(matches!(parse("   "), Cmd::Unknown));
    assert!(matches!(parse_cmd(&[0xFF, 0xFE], 2), Cmd::Unknown));
    assert!(matches!(parse_cmd(b"stopped", 4), Cmd::Stop));
}

#[test]
fn spin_command() {
    match parse("spin 10 2.50") {
        Cmd::Spin { freq_hz, voltage } => {
            assert_eq!((freq_hz.negative, freq_hz.int_part, freq_hz.frac.len()), (false, 10, 0));
            assert_eq!((voltage.negative, voltage.int_part), (false, 2));
            assert_eq!(voltage.frac, vec![5, 0]);
        }
        other => panic!("{:?}", other),
    }
    assert!(matches!(parse("spin  1\t2  3"), Cmd::Spin { .. }));
    assert!(matches!(parse("spin"), Cmd::Unknown));
    assert!(matches!(parse("spin 1"), Cmd::Unknown));
    assert!(matches!(parse("spin 1 x"), Cmd::Unknown));
    assert!(matches!(parse("spin x 1"), Cmd::Unknown));
}

#[test]
fn decimal_numbers() {
    let d = number("-12.034").unwrap();
    assert_eq!((d.negative, d.int_part), (true, 12));
    assert_eq!(d.frac, vec![0, 3, 4]);
    assert_eq!(number("99999999999").unwrap().int_part, u32::MAX);
    assert_eq!(number("4294967295").unwrap().int_part, u32::MAX);
    assert_eq!(number("4294967294").unwrap().int_part, u32::MAX - 1);
    assert_eq!(number("-").unwrap().int_part, 0);
    assert_eq!(number(".5").unwrap().frac, vec![5]);
    assert!(number(".").is_some());
    assert!(number("").is_none());
    assert!(number("1e3").is_none());
    assert!(number("1.2.3").is_none());
    assert!(number("+1").is_none());
    assert!(number("\u{0661}").is_none());
}

#[test]
fn command_answers() {
    let run = |line: &str| {
        let (out, effect) = exec_cmd(&parse(line), "1.2.3");
        (String::from_utf8(out).unwrap(), effect)
    };
    assert_eq!(run("ver"), ("1.2.3\r\n".to_string(), Effect::Nothing));
    assert_eq!(run("stop"), ("stop ok\r\n".to_string(), Effect::Stop));
    assert_eq!(run("reboot"), ("Rebooting...\r\n".to_string(), Effect::Reboot));
    assert_eq!(run("nope"), ("unknown command\r\n".to_string(), Effect::Nothing));
    assert_eq!(run("spin 1 2"), (String::new(), Effect::Spin));
    assert_eq!(
        run("info").0,
        "B-G431B-ESC1\r\nSTM32G431CBU6\r\n  flash: 128 KB\r\n  sram:  32 KB\r\n"
    );
    let help = run("help").0;
    assert_eq!(help.lines().count(), 6);
    assert!(help.starts_with("help | ?       list commands\r\nversion | ver  firmware version\r\n"));
    assert!(help.ends_with("spin <hz> <v>  open-loop spin\r\nstop           stop spin\r\n"));
}

#[test]
fn spin_verdicts() {
    assert_eq!(check_spin(false, true, true), SpinVerdict::NotFinite);
    assert_eq!(check_spin(true, true, true), SpinVerdict::NegativeFrequency);
    assert_eq!(check_spin(true, false, true), SpinVerdict::NegativeVoltage);
    assert_eq!(check_spin(true, false, false), SpinVerdict::Accepted);
    assert_eq!(SpinVerdict::NotFinite.message(), "spin: values must be finite\r\n");
    assert_eq!(SpinVerdict::NegativeFrequency.message(), "spin: freq must be >= 0\r\n");
    assert_eq!(SpinVerdict::NegativeVoltage.message(), "spin: voltage must be >= 0\r\n");
    assert_eq!(SpinVerdict::Accepted.message(), "spin ok\r\n");
}

#[test]
fn command_line_answers() {
    let run = |cmd| {
        let (out, effect) = cli::process(cmd, "1.2.3");
        (String::from_utf8(out).unwrap(), effect)
    };
    assert_eq!(
        run(cli::ShellCommand::Help),
        ("Type <command> -h for help on a specific command\r\n".to_string(), Effect::Nothing)
    );
    assert_eq!(run(cli::ShellCommand::Version).0, "1.2.3\r\n");
    assert_eq!(run(cli::ShellCommand::Info).0.lines().count(), 4);
    assert_eq!(run(cli::ShellCommand::Reboot).1, Effect::Reboot);
    assert_eq!(run(cli::ShellCommand::Spin), (String::new(), Effect::Spin));
    assert_eq!(run(cli::ShellCommand::Stop), ("stop ok\r\n".to_string(), Effect::Stop));
    assert_eq!(cli::check_spin(false, true, true), cli::SpinVerdict::NotFinite);
    assert_eq!(cli::check_spin(true, true, true), cli::SpinVerdict::NegativeVoltage);
    assert_eq!(cli::check_spin(true, false, true), cli::SpinVerdict::Clamped);
    assert_eq!(cli::check_spin(true, false, false), cli::SpinVerdict::Accepted);
    assert_eq!(
        cli::SpinVerdict::NegativeVoltage.message(),
        "spin: voltage must be \u{2265} 0; ignored\r\n"
    );
    assert_eq!(
        cli::SpinVerdict::Clamped.message(),
        "spin: voltage clamped to MAX_OPENLOOP_V\r\nspin ok\r\n"
    );
    assert_eq!(cli::SpinVerdict::NotFinite.message(), "spin: freq/voltage must be finite\r\n");
    assert_eq!(cli::SpinVerdict::Accepted.message(), "spin ok\r\n");
}

#[test]
fn decimal_output() {
    for n in [0u32, 7, 10, 128, 1_000_000, u32::MAX] {
        let mut out = Vec::new();
        text::write_u32(&mut out, n);
        assert_eq!(String::from_utf8(out).unwrap(), format!("{}", n));
    }
    let mut out = vec![b'x'];
    text::push_str(&mut out, "yz");
    assert_eq!(out, b"xyz".to_vec());
}

#[test]
fn boot_loader_command() {
    let (out, reset) = run_ota_update(true);
    assert_eq!(out, b"Rebooting to OTA bootloader, send y-modem...\r\n".to_vec());
    assert!(reset);
    let (out, reset) = run_ota_update(false);
    assert_eq!(out, b"ota_update: flag set failed, aborting\r\n".to_vec());
    assert!(!reset);
}

#[test]
fn arrows_undo_each_other() {
    let mut e = LineEditor::new();
    type_all(&mut e, b"stop");
    e.on_escape(b"[D");
    e.on_escape(b"[D");
    let pos = e.pos;
    e.on_escape(b"[D");
    e.on_escape(b"[C");
    assert_eq!((e.pos, e.line.clone()), (pos, b"stop".to_vec()));
}

#[test]
fn screen_shows_what_is_typed() {
    let mut e = LineEditor::new();
    let mut screen = Vec::new();
    let mut cursor = 0;
    let mut out = type_all(&mut e, b"sin");
    out.extend(e.on_escape(b"[D"));
    out.extend(e.on_escape(b"[D"));
    out.extend(type_all(&mut e, b"p"));
    let mut i = 0;
    while i < out.len() {
        match out[i] {
            0x08 => cursor -= 1,
            0x1b => {
                assert_eq!(out[i + 1], b'[');
                match out[i + 2] {
                    b'D' => cursor -= 1,
                    _ => cursor += 1,
                }
                i += 2;
            }
            b => {
                if cursor == screen.len() {
                    screen.push(b);
                } else {
                    screen[cursor] = b;
                }
                cursor += 1;
            }
        }
        i += 1;
    }
    assert_eq!(screen, b"spin".to_vec());
    assert_eq!(cursor, e.pos);
}

#[test]
fn backspace_leaves_the_screen() {
    let mut e = LineEditor::new();
    type_all(&mut e, b"spin");
    e.on_escape(b"[D");
    let mut screen = b"spin ".to_vec();
    let mut cursor = 3;
    for b in type_all(&mut e, &[0x08]) {
        if b == 0x08 {
            cursor -= 1;
        } else {
            screen[cursor] = b;
            cursor += 1;
        }
    }
    assert_eq!(e.line, b"spn".to_vec());
    assert_eq!((screen, cursor), (b"spin ".to_vec(), 3));
}
