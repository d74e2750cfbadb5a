//! The commands of the shell: reading a line, and what each command says
//! and does.

use vstd::prelude::*;

use crate::bsp;
use crate::shell::text;

verus! {

/// A decimal number as typed: sign, whole part (the largest `u32` if it is
/// larger), and the digits behind the point.
#[derive(Debug)]
pub struct Decimal {
    pub negative: bool,
    pub int_part: u32,
    pub frac: Vec<u8>,
}

/// `Decimal` with the digits as a sequence.
#[verifier::ext_equal]
pub struct DecimalModel {
    pub negative: bool,
    pub int_part: u32,
    pub frac: Seq<u8>,
}

impl View for Decimal {
    type V = DecimalModel;

    open spec fn view(&self) -> DecimalModel {
        DecimalModel { negative: self.negative, int_part: self.int_part, frac: self.frac@ }
    }
}

/// A command.
#[derive(Debug)]
pub enum Cmd {
    Help,
    Version,
    Info,
    Reboot,
    Spin { freq_hz: Decimal, voltage: Decimal },
    Stop,
    Unknown,
}

/// `Cmd` with its numbers as models.
#[verifier::ext_equal]
pub enum CmdModel {
    Help,
    Version,
    Info,
    Reboot,
    Spin { freq_hz: DecimalModel, voltage: DecimalModel },
    Stop,
    Unknown,
}

impl View for Cmd {
    type V = CmdModel;

    open spec fn view(&self) -> CmdModel {
        match self {
            Cmd::Help => CmdModel::Help,
            Cmd::Version => CmdModel::Version,
            Cmd::Info => CmdModel::Info,
            Cmd::Reboot => CmdModel::Reboot,
            Cmd::Spin { freq_hz, voltage } => CmdModel::Spin {
                freq_hz: freq_hz@,
                voltage: voltage@,
            },
            Cmd::Stop => CmdModel::Stop,
            Cmd::Unknown => CmdModel::Unknown,
        }
    }
}

/// Characters that count as white space (the Unicode property White_Space).
pub open spec fn is_white(c: char) -> bool {
    let v = c as u32;
    0x09 <= v <= 0x0D || v == 0x20 || v == 0x85 || v == 0xA0 || v == 0x1680 || 0x2000 <= v <= 0x200A
        || v == 0x2028 || v == 0x2029 || v == 0x202F || v == 0x205F || v == 0x3000
}

pub open spec fn is_digit(c: char) -> bool {
    '0' <= c && c <= '9'
}

/// First index from `i` on that is not white, or the length.
pub open spec fn white_end(s: Seq<char>, i: int) -> int
    decreases s.len() - i,
{
    if 0 <= i < s.len() && is_white(s[i]) {
        white_end(s, i + 1)
    } else {
        i
    }
}

/// First index from `i` on that is white, or the length.
pub open spec fn word_end(s: Seq<char>, i: int) -> int
    decreases s.len() - i,
{
    if 0 <= i < s.len() && !is_white(s[i]) {
        word_end(s, i + 1)
    } else {
        i
    }
}

/// First index from `i` on that is no digit, or the length.
pub open spec fn digits_end(s: Seq<char>, i: int) -> int
    decreases s.len() - i,
{
    if 0 <= i < s.len() && is_digit(s[i]) {
        digits_end(s, i + 1)
    } else {
        i
    }
}

/// First index from `i` on that holds a space, or the length.
pub open spec fn space_at(s: Seq<char>, i: int) -> int
    decreases s.len() - i,
{
    if 0 <= i < s.len() && s[i] != ' ' {
        space_at(s, i + 1)
    } else {
        i
    }
}

/// Length of `s` without the white space at its end.
pub open spec fn text_len(s: Seq<char>) -> int
    decreases s.len(),
{
    if s.len() > 0 && is_white(s.last()) {
        text_len(s.drop_last())
    } else {
        s.len() as int
    }
}

/// `s` without white space at its start and end.
pub open spec fn trimmed(s: Seq<char>) -> Seq<char> {
    let rest = s.skip(white_end(s, 0));
    rest.take(text_len(rest))
}

/// Values of a row of digits.
pub open spec fn digit_values(s: Seq<char>) -> Seq<u8> {
    Seq::new(s.len(), |i: int| (s[i] as u32 - 0x30) as u8)
}

/// The number that a row of digit values stands for.
pub open spec fn value_of(digits: Seq<u8>) -> nat
    decreases digits.len(),
{
    if digits.len() == 0 {
        0
    } else {
        10 * value_of(digits.drop_last()) + digits.last() as nat
    }
}

/// `n`, or the largest `u32` if `n` is larger.
pub open spec fn saturated(n: nat) -> u32 {
    if n <= u32::MAX {
        n as u32
    } else {
        u32::MAX
    }
}

/// The number that a word spells: an optional minus sign, digits, and
/// optionally a point and digits. There may be no digits at all.
pub open spec fn decimal_of(s: Seq<char>) -> Option<DecimalModel> {
    let negative = s[0] == '-';
    let start: int = if negative {
        1
    } else {
        0
    };
    let point = digits_end(s, start);
    let int_part = saturated(value_of(digit_values(s.subrange(start, point))));
    if s.len() == 0 {
        None
    } else if point < s.len() && s[point] == '.' {
        if digits_end(s, point + 1) == s.len() {
            Some(
                DecimalModel {
                    negative,
                    int_part,
                    frac: digit_values(s.subrange(point + 1, s.len() as int)),
                },
            )
        } else {
            None
        }
    } else if point == s.len() {
        Some(DecimalModel { negative, int_part, frac: Seq::empty() })
    } else {
        None
    }
}

/// The first word of `s` from `i` on, and where it ends, if there is one.
pub open spec fn next_word(s: Seq<char>, i: int) -> Option<(Seq<char>, int)> {
    let start = white_end(s, i);
    let end = word_end(s, start);
    if start < s.len() {
        Some((s.subrange(start, end), end))
    } else {
        None
    }
}

/// The command `spin`, from the words behind it. Words behind the second are
/// ignored.
pub open spec fn spin_of(args: Seq<char>) -> CmdModel {
    match next_word(args, 0) {
        None => CmdModel::Unknown,
        Some((first, end)) => match decimal_of(first) {
            None => CmdModel::Unknown,
            Some(freq_hz) => match next_word(args, end) {
                None => CmdModel::Unknown,
                Some((second, _)) => match decimal_of(second) {
                    None => CmdModel::Unknown,
                    Some(voltage) => CmdModel::Spin { freq_hz, voltage },
                },
            },
        },
    }
}

/// The command that a line of characters is.
pub open spec fn command_of(line: Seq<char>) -> CmdModel {
    let s = trimmed(line);
    let end = space_at(s, 0);
    let word = s.take(end);
    let args = if end < s.len() {
        trimmed(s.skip(end + 1))
    } else {
        Seq::empty()
    };
    if s.len() == 0 {
        CmdModel::Unknown
    } else if word == "help"@ || word == "?"@ {
        CmdModel::Help
    } else if word == "version"@ || word == "ver"@ {
        CmdModel::Version
    } else if word == "info"@ {
        CmdModel::Info
    } else if word == "reboot"@ {
        CmdModel::Reboot
    } else if word == "stop"@ {
        CmdModel::Stop
    } else if word == "spin"@ {
        spin_of(args)
    } else {
        CmdModel::Unknown
    }
}

/// The command that a line of bytes is. Bytes that are no UTF-8 are no
/// command.
pub open spec fn command_in(line: Seq<u8>) -> CmdModel {
    if vstd::utf8::valid_utf8(line) {
        command_of(vstd::utf8::decode_utf8(line))
    } else {
        CmdModel::Unknown
    }
}

/// Calls `std::str::from_utf8`.
///
/// Taken on trust: there is a text exactly when the bytes are valid UTF-8,
/// and its UTF-8 bytes are the given ones.
#[verifier::external_body]
fn text_in(bytes: &[u8]) -> (r: Option<&str>)
    ensures
        match r {
            Some(s) => vstd::utf8::valid_utf8(bytes@) && vstd::utf8::encode_utf8(s@) == bytes@,
            None => !vstd::utf8::valid_utf8(bytes@),
        },
{
    std::str::from_utf8(bytes).ok()
}

/// The characters of a text.
fn chars_of(s: &str) -> (chars: Vec<char>)
    ensures
        chars@ == s@,
{
    let len: usize = s.unicode_len();
    let mut chars: Vec<char> = Vec::new();
    let mut i: usize = 0;
    while i < len
        invariant
            i <= len,
            len == s@.len(),
            chars@ == s@.take(i as int),
        decreases len - i,
    {
        chars.push(s.get_char(i));
        i = i + 1;
        assert(chars@ =~= s@.take(i as int));
    }
    assert(chars@ =~= s@);
    chars
}

fn is_whitespace(c: char) -> (b: bool)
    ensures
        b == is_white(c),
{
    let v: u32 = c as u32;
    (0x09 <= v && v <= 0x0D) || v == 0x20 || v == 0x85 || v == 0xA0 || v == 0x1680 || (0x2000 <= v
        && v <= 0x200A) || v == 0x2028 || v == 0x2029 || v == 0x202F || v == 0x205F || v == 0x3000
}

fn skip_white(s: &[char], from: usize) -> (end: usize)
    requires
        from <= s@.len(),
    ensures
        end == white_end(s@, from as int),
        from <= end <= s@.len(),
{
    let mut i: usize = from;
    while i < s.len() && is_whitespace(s[i])
        invariant
            from <= i <= s@.len(),
            white_end(s@, from as int) == white_end(s@, i as int),
        decreases s.len() - i,
    {
        i = i + 1;
    }
    i
}

fn skip_word(s: &[char], from: usize) -> (end: usize)
    requires
        from <= s@.len(),
    ensures
        end == word_end(s@, from as int),
        from <= end <= s@.len(),
{
    let mut i: usize = from;
    while i < s.len() && !is_whitespace(s[i])
        invariant
            from <= i <= s@.len(),
            word_end(s@, from as int) == word_end(s@, i as int),
        decreases s.len() - i,
    {
        i = i + 1;
    }
    i
}

fn find_space(s: &[char]) -> (end: usize)
    ensures
        end == space_at(s@, 0),
        end <= s@.len(),
{
    let mut i: usize = 0;
    while i < s.len() && s[i] != ' '
        invariant
            i <= s@.len(),
            space_at(s@, 0) == space_at(s@, i as int),
        decreases s.len() - i,
    {
        i = i + 1;
    }
    i
}

fn trim(s: &[char]) -> (r: &[char])
    ensures
        r@ == trimmed(s@),
{
    let start: usize = skip_white(s, 0);
    let rest = vstd::slice::slice_subrange(s, start, s.len());
    assert(rest@ =~= s@.skip(start as int));
    let mut end: usize = rest.len();
    assert(rest@.take(end as int) =~= rest@);
    while end > 0 && is_whitespace(rest[end - 1])
        invariant
            end <= rest@.len(),
            text_len(rest@) == text_len(rest@.take(end as int)),
        decreases end,
    {
        assert(rest@.take(end as int).drop_last() =~= rest@.take(end - 1));
        end = end - 1;
    }
    let r = vstd::slice::slice_subrange(rest, 0, end);
    assert(r@ =~= rest@.take(end as int));
    r
}

fn is_text(s: &[char], literal: &str) -> (b: bool)
    ensures
        b == (s@ == literal@),
{
    let len: usize = literal.unicode_len();
    if s.len() != len {
        return false;
    }
    let mut i: usize = 0;
    while i < len
        invariant
            i <= len,
            len == literal@.len(),
            s@.len() == len,
            forall|j: int| 0 <= j < i ==> #[trigger] s@[j] == literal@[j],
        decreases len - i,
    {
        if s[i] != literal.get_char(i) {
            return false;
        }
        i = i + 1;
    }
    assert(s@ =~= literal@);
    true
}

/// The digits of `s` from `from` on: their values, and where they end.
fn read_digits(s: &[char], from: usize) -> (r: (Vec<u8>, usize))
    requires
        from <= s@.len(),
    ensures
        r.1 == digits_end(s@, from as int),
        from <= r.1 <= s@.len(),
        r.0@ == digit_values(s@.subrange(from as int, r.1 as int)),
        forall|i: int| 0 <= i < r.0@.len() ==> #[trigger] r.0@[i] <= 9,
{
    let mut values: Vec<u8> = Vec::new();
    let mut i: usize = from;
    assert(values@ =~= digit_values(s@.subrange(from as int, i as int)));
    while i < s.len() && '0' <= s[i] && s[i] <= '9'
        invariant
            from <= i <= s@.len(),
            digits_end(s@, from as int) == digits_end(s@, i as int),
            values@ == digit_values(s@.subrange(from as int, i as int)),
            forall|j: int| 0 <= j < values@.len() ==> #[trigger] values@[j] <= 9,
        decreases s.len() - i,
    {
        let v: u32 = s[i] as u32;
        values.push((v - 0x30) as u8);
        i = i + 1;
        assert(values@ =~= digit_values(s@.subrange(from as int, i as int)));
    }
    (values, i)
}

/// The number that digits stand for, or the largest `u32`.
fn saturating_value(digits: &[u8]) -> (v: u32)
    requires
        forall|i: int| 0 <= i < digits@.len() ==> #[trigger] digits@[i] <= 9,
    ensures
        v == saturated(value_of(digits@)),
{
    let mut v: u32 = 0;
    let mut i: usize = 0;
    assert(digits@.take(0) =~= Seq::<u8>::empty());
    while i < digits.len()
        invariant
            i <= digits@.len(),
            forall|j: int| 0 <= j < digits@.len() ==> #[trigger] digits@[j] <= 9,
            v == saturated(value_of(digits@.take(i as int))),
        decreases digits.len() - i,
    {
        let d: u32 = digits[i] as u32;
        let ghost next = digits@.take(i + 1);
        assert(next.drop_last() =~= digits@.take(i as int));
        v = match v.checked_mul(10) {
            Some(tens) => tens.saturating_add(d),
            None => u32::MAX,
        };
        i = i + 1;
    }
    assert(digits@.take(i as int) =~= digits@);
    v
}

/// Reads a decimal number: whole part and optional fraction, no exponent.
pub fn parse_decimal(s: &[char]) -> (r: Option<Decimal>)
    ensures
        match r {
            Some(d) => decimal_of(s@) == Some(d@),
            None => decimal_of(s@) is None,
        },
{
    if s.len() == 0 {
        return None;
    }
    let negative = s[0] == '-';
    let start: usize = if negative { 1 } else { 0 };
    let (digits, point) = read_digits(s, start);
    let int_part: u32 = saturating_value(digits.as_slice());
    if point < s.len() && s[point] == '.' {
        let (frac, end) = read_digits(s, point + 1);
        if end != s.len() {
            return None;
        }
        return Some(Decimal { negative, int_part, frac });
    }
    if point != s.len() {
        return None;
    }
    let d = Decimal { negative, int_part, frac: Vec::new() };
    assert(d.frac@ =~= Seq::<u8>::empty());
    Some(d)
}

/// Reads the two numbers behind `spin`.
fn parse_spin(args: &[char]) -> (cmd: Cmd)
    ensures
        cmd@ == spin_of(args@),
{
    let a: usize = skip_white(args, 0);
    if a >= args.len() {
        return Cmd::Unknown;
    }
    let b: usize = skip_word(args, a);
    let freq_hz = match parse_decimal(vstd::slice::slice_subrange(args, a, b)) {
        Some(d) => d,
        None => {
            return Cmd::Unknown;
        },
    };
    let c: usize = skip_white(args, b);
    if c >= args.len() {
        return Cmd::Unknown;
    }
    let d: usize = skip_word(args, c);
    match parse_decimal(vstd::slice::slice_subrange(args, c, d)) {
        Some(voltage) => Cmd::Spin { freq_hz, voltage },
        None => Cmd::Unknown,
    }
}

/// Reads a line of characters.
pub fn parse_line(line: &[char]) -> (cmd: Cmd)
    ensures
        cmd@ == command_of(line@),
{
    let s = trim(line);
    if s.len() == 0 {
        return Cmd::Unknown;
    }
    let end: usize = find_space(s);
    let word = vstd::slice::slice_subrange(s, 0, end);
    assert(word@ =~= s@.take(end as int));
    if is_text(word, "help") || is_text(word, "?") {
        return Cmd::Help;
    }
    if is_text(word, "version") || is_text(word, "ver") {
        return Cmd::Version;
    }
    if is_text(word, "info") {
        return Cmd::Info;
    }
    if is_text(word, "reboot") {
        return Cmd::Reboot;
    }
    if is_text(word, "stop") {
        return Cmd::Stop;
    }
    if is_text(word, "spin") {
        if end < s.len() {
            let rest = vstd::slice::slice_subrange(s, end + 1, s.len());
            assert(rest@ =~= s@.skip(end + 1));
            return parse_spin(trim(rest));
        }
        let none = vstd::slice::slice_subrange(s, 0, 0);
        assert(none@ =~= Seq::<char>::empty());
        return parse_spin(none);
    }
    Cmd::Unknown
}

/// Reads the command in the first `len` bytes of `buf`.
pub fn parse_cmd(buf: &[u8], len: usize) -> (cmd: Cmd)
    requires
        len <= buf@.len(),
    ensures
        cmd@ == command_in(buf@.take(len as int)),
{
    let input = vstd::slice::slice_subrange(buf, 0, len);
    assert(input@ =~= buf@.take(len as int));
    match text_in(input) {
        Some(s) => {
            proof {
                vstd::utf8::encode_utf8_decode_utf8(s@);
            }
            let chars = chars_of(s);
            parse_line(chars.as_slice())
        },
        None => Cmd::Unknown,
    }
}

/// What a command does besides answering.
#[derive(Copy, Clone, Debug, PartialEq, Eq, Structural)]
pub enum Effect {
    Nothing,
    /// Stop the motor.
    Stop,
    /// Stop the motor and reset the controller.
    Reboot,
    /// Check the numbers of the command and start the motor.
    Spin,
}

pub open spec fn help_text() -> Seq<char> {
    "help | ?       list commands\r\nversion | ver  firmware version\r\ninfo           chip + flash info\r\nreboot         reset MCU\r\nspin <hz> <v>  open-loop spin\r\nstop           stop spin\r\n"@
}

/// Board, controller and memory sizes.
pub open spec fn info_output() -> Seq<u8> {
    text::utf8(bsp::BOARD_NAME@) + text::utf8("\r\n"@) + text::utf8(bsp::BOARD_MCU@) + text::utf8(
        "\r\n  flash: "@,
    ) + text::decimal(bsp::FLASH_SIZE_KB as nat) + text::utf8(" KB\r\n  sram:  "@) + text::decimal(
        bsp::SRAM_SIZE_KB as nat,
    ) + text::utf8(" KB\r\n"@)
}

/// What a command answers, `spin` apart.
pub open spec fn output_of(cmd: CmdModel, version: Seq<char>) -> Seq<u8> {
    match cmd {
        CmdModel::Help => text::utf8(help_text()),
        CmdModel::Version => text::utf8(version) + text::utf8("\r\n"@),
        CmdModel::Info => info_output(),
        CmdModel::Reboot => text::utf8("Rebooting...\r\n"@),
        CmdModel::Spin { .. } => Seq::empty(),
        CmdModel::Stop => text::utf8("stop ok\r\n"@),
        CmdModel::Unknown => text::utf8("unknown command\r\n"@),
    }
}

/// What a command does besides answering.
pub open spec fn effect_of(cmd: CmdModel) -> Effect {
    match cmd {
        CmdModel::Reboot => Effect::Reboot,
        CmdModel::Spin { .. } => Effect::Spin,
        CmdModel::Stop => Effect::Stop,
        _ => Effect::Nothing,
    }
}

/// Appends board, controller and memory sizes.
pub fn write_info(out: &mut Vec<u8>)
    ensures
        final(out)@ == old(out)@ + info_output(),
{
    let ghost start = out@;
    text::push_str(out, bsp::BOARD_NAME);
    text::push_str(out, "\r\n");
    text::push_str(out, bsp::BOARD_MCU);
    text::push_str(out, "\r\n  flash: ");
    text::write_u32(out, bsp::FLASH_SIZE_KB);
    text::push_str(out, " KB\r\n  sram:  ");
    text::write_u32(out, bsp::SRAM_SIZE_KB);
    text::push_str(out, " KB\r\n");
    assert(out@ =~= start + info_output());
}

/// The answer of a command and what it does. `version` is that of the
/// firmware.
pub fn exec_cmd(cmd: &Cmd, version: &str) -> (r: (Vec<u8>, Effect))
    ensures
        r.0@ == output_of(cmd@, version@),
        r.1 == effect_of(cmd@),
{
    let mut out: Vec<u8> = Vec::new();
    let effect = match cmd {
        Cmd::Help => {
            text::push_str(
                &mut out,
                "help | ?       list commands\r\nversion | ver  firmware version\r\ninfo           chip + flash info\r\nreboot         reset MCU\r\nspin <hz> <v>  open-loop spin\r\nstop           stop spin\r\n",
            );
            Effect::Nothing
        },
        Cmd::Version => {
            text::push_str(&mut out, version);
            text::push_str(&mut out, "\r\n");
            Effect::Nothing
        },
        Cmd::Info => {
            write_info(&mut out);
            Effect::Nothing
        },
        Cmd::Reboot => {
            text::push_str(&mut out, "Rebooting...\r\n");
            Effect::Reboot
        },
        Cmd::Spin { .. } => Effect::Spin,
        Cmd::Stop => {
            text::push_str(&mut out, "stop ok\r\n");
            Effect::Stop
        },
        Cmd::Unknown => {
            text::push_str(&mut out, "unknown command\r\n");
            Effect::Nothing
        },
    };
    assert(out@ =~= output_of(cmd@, version@));
    (out, effect)
}

/// Whether the motor is started for the numbers of `spin`.
#[derive(Copy, Clone, Debug, PartialEq, Eq, Structural)]
pub enum SpinVerdict {
    NotFinite,
    NegativeFrequency,
    NegativeVoltage,
    Accepted,
}

/// What is decided on the numbers of `spin`.
pub open spec fn verdict(finite: bool, freq_negative: bool, voltage_negative: bool) -> SpinVerdict {
    if !finite {
        SpinVerdict::NotFinite
    } else if freq_negative {
        SpinVerdict::NegativeFrequency
    } else if voltage_negative {
        SpinVerdict::NegativeVoltage
    } else {
        SpinVerdict::Accepted
    }
}

/// The motor is started exactly for finite numbers neither of which is negative;
/// otherwise the first thing that is wrong is named.
pub proof fn law_spin_verdicts(finite: bool, freq_negative: bool, voltage_negative: bool)
    ensures
        ({
            let v = verdict(finite, freq_negative, voltage_negative);
            &&& v is Accepted <==> finite && !freq_negative && !voltage_negative
            &&& v is NotFinite <==> !finite
            &&& v is NegativeFrequency <==> finite && freq_negative
        }),
{
}

/// Decides on the numbers of `spin` from what they are compared with 0.
pub fn check_spin(finite: bool, freq_negative: bool, voltage_negative: bool) -> (v: SpinVerdict)
    ensures
        v == verdict(finite, freq_negative, voltage_negative),
{
    if !finite {
        SpinVerdict::NotFinite
    } else if freq_negative {
        SpinVerdict::NegativeFrequency
    } else if voltage_negative {
        SpinVerdict::NegativeVoltage
    } else {
        SpinVerdict::Accepted
    }
}

impl SpinVerdict {
    pub open spec fn answer(self) -> Seq<char> {
        match self {
            SpinVerdict::NotFinite => "spin: values must be finite\r\n"@,
            SpinVerdict::NegativeFrequency => "spin: freq must be >= 0\r\n"@,
            SpinVerdict::NegativeVoltage => "spin: voltage must be >= 0\r\n"@,
            SpinVerdict::Accepted => "spin ok\r\n"@,
        }
    }

    /// What `spin` answers.
    pub fn message(self) -> (s: &'static str)
        ensures
            s@ == self.answer(),
    {
        match self {
            SpinVerdict::NotFinite => "spin: values must be finite\r\n",
            SpinVerdict::NegativeFrequency => "spin: freq must be >= 0\r\n",
            SpinVerdict::NegativeVoltage => "spin: voltage must be >= 0\r\n",
            SpinVerdict::Accepted => "spin ok\r\n",
        }
    }
}

} // verus!
