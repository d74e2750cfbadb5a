//! What the shell makes of the lines that are typed.

use vstd::prelude::*;

use crate::shell::commands;
use crate::shell::commands::CmdModel;
use crate::shell::commands::DecimalModel;
use crate::shell::commands::Effect;
use crate::shell::task;
use crate::shell::task::EditModel;
use crate::shell::task::StepModel;
use crate::shell::text;

verus! {

/// White space, as Unicode has it.
pub open spec fn is_blank(c: char) -> bool {
    let v = c as u32;
    ||| v == 0x09 || v == 0x0A || v == 0x0B || v == 0x0C || v == 0x0D || v == 0x20 || v == 0x85
    ||| v == 0xA0 || v == 0x1680 || 0x2000 <= v <= 0x200A || v == 0x2028 || v == 0x2029
    ||| v == 0x202F || v == 0x205F || v == 0x3000
}

/// Nothing but blanks.
pub open spec fn all_blank(s: Seq<char>) -> bool {
    forall|i: int| 0 <= i < s.len() ==> is_blank(#[trigger] s[i])
}

/// Text that starts and ends with characters that are no white space.
pub open spec fn is_solid(s: Seq<char>) -> bool {
    s.len() > 0 && !commands::is_white(s[0]) && !commands::is_white(s.last())
}

/// The digits of a row of digit values.
pub open spec fn digits(values: Seq<u8>) -> Seq<char> {
    Seq::new(values.len(), |i: int| (0x30 + values[i]) as char)
}

/// Values of digits.
pub open spec fn are_digits(values: Seq<u8>) -> bool {
    forall|i: int| 0 <= i < values.len() ==> 0 <= #[trigger] values[i] <= 9
}

/// The number that digits stand for.
pub open spec fn number(values: Seq<u8>) -> int
    decreases values.len(),
{
    if values.len() == 0 {
        0
    } else {
        10 * number(values.drop_last()) + values.last()
    }
}

/// A number as it is written.
pub struct Spelling {
    pub negative: bool,
    pub whole: Seq<u8>,
    pub point: bool,
    pub fraction: Seq<u8>,
}

impl Spelling {
    /// The digits are digits, there are none behind a point that is not there,
    /// and there is something to write.
    pub open spec fn wf(self) -> bool {
        &&& are_digits(self.whole)
        &&& are_digits(self.fraction)
        &&& !self.point ==> self.fraction.len() == 0
        &&& self.negative || self.point || self.whole.len() > 0
    }

    /// The word: a minus sign, the whole part, a point and the fraction.
    pub open spec fn word(self) -> Seq<char> {
        (if self.negative {
            seq!['-']
        } else {
            Seq::empty()
        }) + digits(self.whole) + (if self.point {
            seq!['.'] + digits(self.fraction)
        } else {
            Seq::empty()
        })
    }

    /// What is read: the sign, the whole part up to the largest 32-bit number,
    /// and every digit of the fraction.
    pub open spec fn value(self) -> DecimalModel {
        DecimalModel {
            negative: self.negative,
            int_part: if number(self.whole) <= 0xFFFF_FFFF {
                number(self.whole) as u32
            } else {
                0xFFFF_FFFF
            },
            frac: self.fraction,
        }
    }
}

proof fn lemma_number(values: Seq<u8>)
    requires
        are_digits(values),
    ensures
        number(values) == commands::value_of(values),
        number(values) >= 0,
    decreases values.len(),
{
    if values.len() > 0 {
        assert forall|i: int| 0 <= i < values.drop_last().len() implies 0
            <= #[trigger] values.drop_last()[i] <= 9 by {
            assert(values[i] <= 9);
        }
        lemma_number(values.drop_last());
        assert(values.last() <= 9);
    }
}

proof fn lemma_digits_end(s: Seq<char>, i: int, j: int)
    requires
        0 <= i <= j <= s.len(),
        forall|k: int| i <= k < j ==> commands::is_digit(#[trigger] s[k]),
        j < s.len() ==> !commands::is_digit(s[j]),
    ensures
        commands::digits_end(s, i) == j,
    decreases j - i,
{
    if i < j {
        assert(commands::is_digit(s[i]));
        lemma_digits_end(s, i + 1, j);
    }
}

proof fn lemma_word_end(s: Seq<char>, i: int, j: int)
    requires
        0 <= i <= j <= s.len(),
        forall|k: int| i <= k < j ==> !commands::is_white(#[trigger] s[k]),
        j < s.len() ==> commands::is_white(s[j]),
    ensures
        commands::word_end(s, i) == j,
    decreases j - i,
{
    if i < j {
        assert(!commands::is_white(s[i]));
        lemma_word_end(s, i + 1, j);
    }
}

proof fn lemma_white_end(s: Seq<char>, i: int, j: int)
    requires
        0 <= i <= j <= s.len(),
        forall|k: int| i <= k < j ==> is_blank(#[trigger] s[k]),
        j < s.len() ==> !commands::is_white(s[j]),
    ensures
        commands::white_end(s, i) == j,
    decreases j - i,
{
    if i < j {
        assert(is_blank(s[i]));
        lemma_white_end(s, i + 1, j);
    }
}

proof fn lemma_text_len(s: Seq<char>, n: int)
    requires
        0 <= n <= s.len(),
        n > 0 ==> !commands::is_white(s[n - 1]),
        forall|k: int| n <= k < s.len() ==> is_blank(#[trigger] s[k]),
    ensures
        commands::text_len(s) == n,
    decreases s.len(),
{
    if n < s.len() {
        assert(is_blank(s[s.len() - 1]));
        let t = s.drop_last();
        assert forall|k: int| n <= k < t.len() implies is_blank(#[trigger] t[k]) by {
            assert(is_blank(s[k]));
        }
        lemma_text_len(t, n);
    }
}

proof fn lemma_trimmed(before: Seq<char>, core: Seq<char>, after: Seq<char>)
    requires
        all_blank(before),
        all_blank(after),
        is_solid(core),
    ensures
        commands::trimmed(before + core + after) == core,
{
    let s = before + core + after;
    let n = before.len() as int;
    assert forall|k: int| 0 <= k < n implies is_blank(#[trigger] s[k]) by {
        assert(before[k] == s[k]);
    }
    assert(s[n] == core[0]);
    lemma_white_end(s, 0, n);
    let rest = s.skip(n);
    assert(rest =~= core + after);
    assert forall|k: int| core.len() <= k < rest.len() implies is_blank(#[trigger] rest[k]) by {
        assert(after[k - core.len()] == rest[k]);
    }
    assert(rest[core.len() - 1] == core.last());
    lemma_text_len(rest, core.len() as int);
    assert(rest.take(core.len() as int) =~= core);
}

/// A line without anything but blanks is no command.
pub proof fn law_blank_lines_are_no_command(line: Seq<char>)
    requires
        all_blank(line),
    ensures
        commands::command_of(line) is Unknown,
{
    lemma_white_end(line, 0, line.len() as int);
    let rest = line.skip(line.len() as int);
    assert(rest.len() == 0);
    assert(commands::trimmed(line) =~= Seq::<char>::empty());
}

/// Blanks around a line do not matter.
pub proof fn law_blanks_around_do_not_matter(
    before: Seq<char>,
    line: Seq<char>,
    after: Seq<char>,
)
    requires
        all_blank(before),
        all_blank(after),
        is_solid(line),
    ensures
        commands::command_of(before + line + after) == commands::command_of(line),
{
    lemma_trimmed(before, line, after);
    lemma_trimmed(Seq::empty(), line, Seq::empty());
    assert(Seq::<char>::empty() + line + Seq::<char>::empty() =~= line);
}

proof fn lemma_spelling_is_solid(n: Spelling)
    requires
        n.wf(),
    ensures
        n.word().len() > 0,
        forall|i: int| 0 <= i < n.word().len() ==> !commands::is_white(#[trigger] n.word()[i]),
        is_solid(n.word()),
{
    let w = n.word();
    let s: int = if n.negative {
        1
    } else {
        0
    };
    let p = s + n.whole.len();
    assert forall|i: int| 0 <= i < w.len() implies !commands::is_white(#[trigger] w[i]) by {
        if s <= i < p {
            assert(n.whole[i - s] <= 9);
            assert(w[i] == (0x30 + n.whole[i - s]) as char);
        } else if i > p {
            assert(n.fraction[i - p - 1] <= 9);
            assert(w[i] == (0x30 + n.fraction[i - p - 1]) as char);
        }
    }
    assert(!commands::is_white(w[w.len() - 1]));
}

/// A word that spells a number is read as that number: sign, whole part and
/// every digit of the fraction.
pub proof fn law_numbers_are_read(n: Spelling)
    requires
        n.wf(),
    ensures
        commands::decimal_of(n.word()) == Some(n.value()),
{
    let w = n.word();
    let s: int = if n.negative {
        1
    } else {
        0
    };
    let p = s + n.whole.len();
    lemma_number(n.whole);
    assert forall|k: int| s <= k < p implies commands::is_digit(#[trigger] w[k]) by {
        assert(n.whole[k - s] <= 9);
        assert(w[k] == (0x30 + n.whole[k - s]) as char);
    }
    assert((w[0] == '-') == n.negative) by {
        if !n.negative && n.whole.len() > 0 {
            assert(commands::is_digit(w[0]));
        }
    }
    lemma_digits_end(w, s, p);
    let whole = w.subrange(s, p);
    assert(commands::digit_values(whole) =~= n.whole) by {
        assert forall|i: int| 0 <= i < whole.len() implies commands::digit_values(whole)[i]
            == n.whole[i] by {
            assert(n.whole[i] <= 9);
            assert(whole[i] == (0x30 + n.whole[i]) as char);
        }
    }
    if n.point {
        assert(w[p] == '.');
        assert forall|k: int| p + 1 <= k < w.len() implies commands::is_digit(#[trigger] w[k]) by {
            assert(n.fraction[k - p - 1] <= 9);
            assert(w[k] == (0x30 + n.fraction[k - p - 1]) as char);
        }
        lemma_digits_end(w, p + 1, w.len() as int);
        let frac = w.subrange(p + 1, w.len() as int);
        assert(commands::digit_values(frac) =~= n.fraction) by {
            assert forall|i: int| 0 <= i < frac.len() implies commands::digit_values(frac)[i]
                == n.fraction[i] by {
                assert(n.fraction[i] <= 9);
                assert(frac[i] == (0x30 + n.fraction[i]) as char);
            }
        }
    } else {
        assert(p == w.len());
        assert(n.fraction =~= Seq::<u8>::empty());
    }
}

/// A word is read as a number only if it spells it: a minus sign or none,
/// digits, and optionally a point and digits, up to the end of the word.
pub proof fn law_only_numbers_are_read(w: Seq<char>)
    requires
        commands::decimal_of(w) is Some,
    ensures
        exists|n: Spelling| n.wf() && #[trigger] n.word() == w,
{
    let s: int = if w[0] == '-' {
        1
    } else {
        0
    };
    let p = commands::digits_end(w, s);
    lemma_digits_found(w, s);
    let point = p < w.len();
    let whole = commands::digit_values(w.subrange(s, p));
    let fraction = if point {
        commands::digit_values(w.subrange(p + 1, w.len() as int))
    } else {
        Seq::empty()
    };
    if point {
        lemma_digits_found(w, p + 1);
    }
    let n = Spelling { negative: w[0] == '-', whole, point, fraction };
    assert(n.wf()) by {
        assert forall|i: int| 0 <= i < whole.len() implies 0 <= #[trigger] whole[i] <= 9 by {
            assert(commands::is_digit(w[s + i]));
        }
        assert forall|i: int| 0 <= i < fraction.len() implies 0 <= #[trigger] fraction[i] <= 9 by {
            assert(commands::is_digit(w[p + 1 + i]));
        }
    }
    assert(n.word() =~= w) by {
        assert(n.word().len() == w.len());
        assert forall|i: int| 0 <= i < w.len() implies n.word()[i] == w[i] by {
            if s <= i < p {
                assert(commands::is_digit(w[i]));
                assert(n.word()[i] == (0x30 + whole[i - s]) as char);
                assert(whole[i - s] == (w[i] as u32 - 0x30) as u8);
            } else if i > p {
                assert(commands::is_digit(w[i]));
                assert(n.word()[i] == (0x30 + fraction[i - p - 1]) as char);
                assert(fraction[i - p - 1] == (w[i] as u32 - 0x30) as u8);
            }
        }
    }
}

proof fn lemma_digits_found(s: Seq<char>, i: int)
    requires
        0 <= i <= s.len(),
    ensures
        i <= commands::digits_end(s, i) <= s.len(),
        forall|k: int| i <= k < commands::digits_end(s, i) ==> commands::is_digit(#[trigger] s[k]),
    decreases s.len() - i,
{
    if i < s.len() && commands::is_digit(s[i]) {
        lemma_digits_found(s, i + 1);
    }
}

/// `spin`, a space, and two words that spell numbers are the command to spin
/// with the first as frequency and the second as voltage, however many blanks
/// stand around the words, and whatever follows them behind a blank.
pub proof fn law_spin_takes_its_numbers(
    before: Seq<char>,
    lead: Seq<char>,
    a: Spelling,
    between: Seq<char>,
    b: Spelling,
    more: Seq<char>,
    after: Seq<char>,
)
    requires
        a.wf(),
        b.wf(),
        all_blank(before),
        all_blank(lead),
        all_blank(between),
        between.len() > 0,
        all_blank(after),
        follows(more),
    ensures
        commands::command_of(
            before + (seq!['s', 'p', 'i', 'n', ' '] + lead + a.word() + between + b.word() + more)
                + after,
        ) == (CmdModel::Spin { freq_hz: a.value(), voltage: b.value() }),
{
    lemma_spelling_is_solid(a);
    lemma_spelling_is_solid(b);
    law_numbers_are_read(a);
    law_numbers_are_read(b);
    lemma_spin_line(before, lead, a.word(), between, b.word(), more, after);
    lemma_spin_args(a.word(), between, b.word(), more);
}

/// `spin` with two words that do not both spell numbers is no command, and
/// neither is `spin` with fewer words.
pub proof fn law_spin_needs_two_numbers(
    before: Seq<char>,
    lead: Seq<char>,
    a: Seq<char>,
    between: Seq<char>,
    b: Seq<char>,
    more: Seq<char>,
    after: Seq<char>,
)
    requires
        is_word(a),
        is_word(b),
        !spells_number(a) || !spells_number(b),
        all_blank(before),
        all_blank(lead),
        all_blank(between),
        between.len() > 0,
        all_blank(after),
        follows(more),
    ensures
        commands::command_of(
            before + (seq!['s', 'p', 'i', 'n', ' '] + lead + a + between + b + more) + after,
        ) is Unknown,
        commands::command_of(before + (seq!['s', 'p', 'i', 'n', ' '] + lead + a) + after) is Unknown,
        commands::command_of(before + seq!['s', 'p', 'i', 'n'] + after) is Unknown,
{
    assert(!commands::is_white(a[a.len() - 1]));
    assert(!commands::is_white(b[b.len() - 1]));
    lemma_spin_line(before, lead, a, between, b, more, after);
    lemma_spin_args(a, between, b, more);
    if commands::decimal_of(a) is Some {
        law_only_numbers_are_read(a);
    }
    if commands::decimal_of(b) is Some {
        law_only_numbers_are_read(b);
    }
    let none = Seq::<char>::empty();
    lemma_spin_line(before, lead, a, none, none, none, after);
    assert(seq!['s', 'p', 'i', 'n', ' '] + lead + a + none + none + none =~= seq![
        's',
        'p',
        'i',
        'n',
        ' ',
    ] + lead + a);
    assert(a + none + none + none =~= a);
    lemma_white_end(a, 0, 0);
    lemma_word_end(a, 0, a.len() as int);
    lemma_white_end(a, a.len() as int, a.len() as int);
    let spin = seq!['s', 'p', 'i', 'n'];
    assert(spin[0] == 's' && spin.last() == 'n');
    law_blanks_around_do_not_matter(before, spin, after);
    lemma_trimmed(none, spin, none);
    assert(none + spin + none =~= spin);
    lemma_space_at(spin, 0, 4);
    lemma_words();
    assert(spin.take(4) =~= spin);
    lemma_white_end(none, 0, 0);
}

/// A word: not empty, and without white space.
pub open spec fn is_word(w: Seq<char>) -> bool {
    w.len() > 0 && forall|i: int| 0 <= i < w.len() ==> !commands::is_white(#[trigger] w[i])
}

/// What may follow the words of a command: nothing, or a blank and some text.
pub open spec fn follows(more: Seq<char>) -> bool {
    more.len() == 0 || (is_blank(more[0]) && !commands::is_white(more.last()))
}

/// Whether a word spells a number.
pub open spec fn spells_number(w: Seq<char>) -> bool {
    exists|n: Spelling| n.wf() && #[trigger] n.word() == w
}

proof fn lemma_spin_line(
    before: Seq<char>,
    lead: Seq<char>,
    wa: Seq<char>,
    between: Seq<char>,
    wb: Seq<char>,
    more: Seq<char>,
    after: Seq<char>,
)
    requires
        is_solid(wa),
        is_solid(wb) || (between.len() == 0 && wb.len() == 0 && more.len() == 0),
        all_blank(before),
        all_blank(lead),
        all_blank(after),
        follows(more),
    ensures
        commands::command_of(
            before + (seq!['s', 'p', 'i', 'n', ' '] + lead + wa + between + wb + more) + after,
        ) == commands::spin_of(wa + between + wb + more),
{
    let head = seq!['s', 'p', 'i', 'n', ' '];
    let args = wa + between + wb + more;
    let core = head + lead + wa + between + wb + more;
    let end = if more.len() > 0 {
        more.last()
    } else if wb.len() > 0 {
        wb.last()
    } else {
        wa.last()
    };
    assert(core.last() == end);
    assert(core[0] == 's');
    law_blanks_around_do_not_matter(before, core, after);
    assert(core.take(5) =~= head);
    lemma_spin_word(core);
    assert(core.skip(5) =~= lead + args + Seq::<char>::empty());
    assert(args[0] == wa[0] && args.last() == end);
    lemma_trimmed(lead, args, Seq::empty());
}

proof fn lemma_spin_args(wa: Seq<char>, between: Seq<char>, wb: Seq<char>, more: Seq<char>)
    requires
        is_word(wa),
        is_word(wb),
        between.len() > 0,
        all_blank(between),
        follows(more),
    ensures
        commands::spin_of(wa + between + wb + more) == match (
            commands::decimal_of(wa),
            commands::decimal_of(wb),
        ) {
            (Some(freq_hz), Some(voltage)) => CmdModel::Spin { freq_hz, voltage },
            _ => CmdModel::Unknown,
        },
{
    let args = wa + between + wb + more;
    let n = wa.len() as int;
    let m = n + between.len();
    let p = m + wb.len();
    assert(args[0] == wa[0]);
    assert(!commands::is_white(wa[0]));
    lemma_white_end(args, 0, 0);
    assert forall|k: int| 0 <= k < n implies !commands::is_white(#[trigger] args[k]) by {
        assert(args[k] == wa[k]);
    }
    assert(args[n] == between[0]);
    assert(is_blank(between[0]));
    lemma_word_end(args, 0, n);
    assert(args.subrange(0, n) =~= wa);
    assert forall|k: int| n <= k < m implies is_blank(#[trigger] args[k]) by {
        assert(args[k] == between[k - n]);
    }
    assert(args[m] == wb[0]);
    assert(!commands::is_white(wb[0]));
    lemma_white_end(args, n, m);
    assert forall|k: int| m <= k < p implies !commands::is_white(#[trigger] args[k]) by {
        assert(args[k] == wb[k - m]);
    }
    if more.len() > 0 {
        assert(args[p] == more[0]);
    }
    lemma_word_end(args, m, p);
    assert(args.subrange(m, p) =~= wb);
}

/// The word in front of the first space of `s`.
proof fn lemma_spin_word(s: Seq<char>)
    requires
        s.len() >= 5,
        s.take(5) == seq!['s', 'p', 'i', 'n', ' '],
        is_solid(s),
    ensures
        commands::command_of(s) == commands::spin_of(commands::trimmed(s.skip(5))),
        commands::trimmed(s) == s,
{
    let head = s.take(5);
    assert(head[0] == s[0] && head[1] == s[1] && head[2] == s[2] && head[3] == s[3] && head[4]
        == s[4]);
    lemma_trimmed(Seq::empty(), s, Seq::empty());
    assert(Seq::<char>::empty() + s + Seq::<char>::empty() =~= s);
    lemma_space_at(s, 0, 4);
    reveal_strlit("help");
    reveal_strlit("?");
    reveal_strlit("version");
    reveal_strlit("ver");
    reveal_strlit("info");
    reveal_strlit("reboot");
    reveal_strlit("stop");
    reveal_strlit("spin");
    let word = s.take(4);
    assert(word =~= "spin"@);
    assert(word[0] == 's' && word[1] == 'p' && word.len() == 4);
}

proof fn lemma_space_at(s: Seq<char>, i: int, j: int)
    requires
        0 <= i <= j <= s.len(),
        forall|k: int| i <= k < j ==> #[trigger] s[k] != ' ',
        j < s.len() ==> s[j] == ' ',
    ensures
        commands::space_at(s, i) == j,
    decreases j - i,
{
    if i < j {
        assert(s[i] != ' ');
        lemma_space_at(s, i + 1, j);
    }
}

/// The first word of a line decides on the command: `help` and `?`, `version`
/// and `ver`, `info`, `reboot`, `stop`. What follows them does not matter. Any
/// other word but `spin` is no command.
#[verifier::rlimit(30)]
pub proof fn law_first_word_decides(word: Seq<char>, rest: Seq<char>)
    requires
        is_solid(word),
        forall|k: int| 0 <= k < word.len() ==> #[trigger] word[k] != ' ',
        rest.len() == 0 || (rest[0] == ' ' && !commands::is_white(rest.last())),
        word != seq!['s', 'p', 'i', 'n'],
    ensures
        commands::command_of(word + rest) == if word == seq!['h', 'e', 'l', 'p'] || word == seq![
            '?',
        ] {
            CmdModel::Help
        } else if word == seq!['v', 'e', 'r', 's', 'i', 'o', 'n'] || word == seq!['v', 'e', 'r'] {
            CmdModel::Version
        } else if word == seq!['i', 'n', 'f', 'o'] {
            CmdModel::Info
        } else if word == seq!['r', 'e', 'b', 'o', 'o', 't'] {
            CmdModel::Reboot
        } else if word == seq!['s', 't', 'o', 'p'] {
            CmdModel::Stop
        } else {
            CmdModel::Unknown
        },
{
    let s = word + rest;
    assert(s[0] == word[0]);
    assert(s.last() == if rest.len() > 0 {
        rest.last()
    } else {
        word.last()
    });
    lemma_trimmed(Seq::empty(), s, Seq::empty());
    assert(Seq::<char>::empty() + s + Seq::<char>::empty() =~= s);
    assert forall|k: int| 0 <= k < word.len() implies #[trigger] s[k] != ' ' by {
        assert(s[k] == word[k]);
    }
    lemma_space_at(s, 0, word.len() as int);
    assert(s.take(word.len() as int) =~= word);
    lemma_words();
}

proof fn lemma_words()
    ensures
        "help"@ == seq!['h', 'e', 'l', 'p'],
        "?"@ == seq!['?'],
        "version"@ == seq!['v', 'e', 'r', 's', 'i', 'o', 'n'],
        "ver"@ == seq!['v', 'e', 'r'],
        "info"@ == seq!['i', 'n', 'f', 'o'],
        "reboot"@ == seq!['r', 'e', 'b', 'o', 'o', 't'],
        "stop"@ == seq!['s', 't', 'o', 'p'],
        "spin"@ == seq!['s', 'p', 'i', 'n'],
{
    reveal_strlit("help");
    reveal_strlit("?");
    reveal_strlit("version");
    reveal_strlit("ver");
    reveal_strlit("info");
    reveal_strlit("reboot");
    reveal_strlit("stop");
    reveal_strlit("spin");
    assert("help"@ =~= seq!['h', 'e', 'l', 'p']);
    assert("?"@ =~= seq!['?']);
    assert("version"@ =~= seq!['v', 'e', 'r', 's', 'i', 'o', 'n']);
    assert("ver"@ =~= seq!['v', 'e', 'r']);
    assert("info"@ =~= seq!['i', 'n', 'f', 'o']);
    assert("reboot"@ =~= seq!['r', 'e', 'b', 'o', 'o', 't']);
    assert("stop"@ =~= seq!['s', 't', 'o', 'p']);
    assert("spin"@ =~= seq!['s', 'p', 'i', 'n']);
}

/// The command of a line of bytes is that of the text that they encode; bytes
/// that are no UTF-8 are no command.
pub proof fn law_bytes_are_read_as_text(text: Seq<char>, bytes: Seq<u8>)
    ensures
        commands::command_in(vstd::utf8::encode_utf8(text)) == commands::command_of(text),
        !vstd::utf8::valid_utf8(bytes) ==> commands::command_in(bytes) is Unknown,
{
    vstd::utf8::encode_utf8_valid_utf8(text);
    vstd::utf8::encode_utf8_decode_utf8(text);
}

/// `reboot` resets, `stop` stops and `spin` spins; no other command does
/// anything but answer.
pub proof fn law_effects_of_commands(cmd: CmdModel)
    ensures
        cmd is Reboot <==> commands::effect_of(cmd) is Reboot,
        cmd is Stop <==> commands::effect_of(cmd) is Stop,
        cmd is Spin <==> commands::effect_of(cmd) is Spin,
        commands::effect_of(cmd) == Effect::Nothing || cmd is Reboot || cmd is Stop || cmd is Spin,
{
}

/// A visible character or a space goes in at the cursor, which moves behind it;
/// a full line of 64 characters takes no more.
pub proof fn law_typing_inserts(e: EditModel, b: u8)
    requires
        e.wf(),
        0x20 <= b <= 0x7E,
    ensures
        e.line.len() >= 64 ==> e.typed(b) == (e, StepModel::Echo(Seq::empty())),
        e.line.len() < 64 ==> {
            let after = e.typed(b).0;
            &&& after.line == e.line.take(e.pos) + seq![b] + e.line.skip(e.pos)
            &&& after.pos == e.pos + 1
            &&& e.typed(b).1 is Echo
        },
{
    if e.line.len() < 64 {
        assert(e.typed(b).0.line =~= e.line.take(e.pos) + seq![b] + e.line.skip(e.pos));
    }
}

/// Backspace and delete remove the character before the cursor; at the start of
/// the line they do nothing.
pub proof fn law_backspace_removes(e: EditModel, b: u8)
    requires
        e.wf(),
        b == 0x08 || b == 0x7F,
    ensures
        e.pos == 0 ==> e.typed(b) == (e, StepModel::Echo(Seq::empty())),
        e.pos > 0 ==> {
            let after = e.typed(b).0;
            &&& after.line == e.line.take(e.pos - 1) + e.line.skip(e.pos)
            &&& after.pos == e.pos - 1
            &&& e.typed(b).1 is Echo
        },
{
    if e.pos > 0 {
        assert(e.typed(b).0.line =~= e.line.take(e.pos - 1) + e.line.skip(e.pos));
    }
}

/// A line break runs the line, whole, and empties it; an empty line gets a new
/// prompt. An escape asks for what follows it. Other control bytes, and bytes
/// that are no ASCII, do nothing.
pub proof fn law_control_bytes(e: EditModel, b: u8)
    ensures
        (b == 0x0D || b == 0x0A) && e.line.len() > 0 ==> {
            &&& e.typed(b).1 == StepModel::Run(e.line)
            &&& e.typed(b).0.line.len() == 0
            &&& e.typed(b).0.pos == 0
        },
        (b == 0x0D || b == 0x0A) && e.line.len() == 0 ==> e.typed(b) == (
            e,
            StepModel::Echo(seq![0x0Du8, 0x0A, 0x3E, 0x20]),
        ),
        task::newline() == seq![0x0Du8, 0x0A],
        task::prompt() == seq![0x0Du8, 0x0A, 0x3E, 0x20],
        b == 0x1B ==> e.typed(b) == (e, StepModel::ReadEscape),
        b != 0x0D && b != 0x0A && b != 0x08 && b != 0x1B && (b < 0x20 || b > 0x7F) ==> e.typed(b)
            == (e, StepModel::Echo(Seq::empty())),
{
}

/// `[D` moves the cursor left and `[C` right, as far as the line goes, and the
/// terminal's cursor with it; everything else behind an escape does nothing.
pub proof fn law_arrows_move_the_cursor(e: EditModel, tail: Seq<u8>)
    requires
        e.wf(),
    ensures
        e.escaped(tail).0.line == e.line,
        e.escaped(tail).0.pos == if tail == seq![0x5Bu8, 0x44] && e.pos > 0 {
            e.pos - 1
        } else if tail == seq![0x5Bu8, 0x43] && e.pos < e.line.len() {
            e.pos + 1
        } else {
            e.pos
        },
        e.escaped(tail).1 == if e.escaped(tail).0.pos == e.pos {
            Seq::<u8>::empty()
        } else {
            seq![0x1Bu8] + tail
        },
{
    let left = seq![0x5Bu8, 0x44];
    let right = seq![0x5Bu8, 0x43];
    assert(left[1] != right[1]);
    assert(seq![0x1Bu8] + left =~= seq![0x1Bu8, 0x5B, 0x44]);
    assert(seq![0x1Bu8] + right =~= seq![0x1Bu8, 0x5B, 0x43]);
}

/// The editor after some bytes.
pub open spec fn typed_all(e: EditModel, keys: Seq<u8>) -> EditModel
    decreases keys.len(),
{
    if keys.len() == 0 {
        e
    } else {
        typed_all(e, keys.drop_last()).typed(keys.last()).0
    }
}

/// What is typed on an empty line, up to 64 visible characters and spaces, is
/// what a line break runs.
pub proof fn law_typed_line_is_run(keys: Seq<u8>)
    requires
        0 < keys.len() <= 64,
        forall|i: int| 0 <= i < keys.len() ==> 0x20 <= #[trigger] keys[i] <= 0x7E,
    ensures
        ({
            let empty = EditModel { line: Seq::empty(), pos: 0 };
            typed_all(empty, keys).typed(0x0D).1 == StepModel::Run(keys)
        }),
{
    lemma_line_grows(keys);
}

proof fn lemma_line_grows(keys: Seq<u8>)
    requires
        keys.len() <= 64,
        forall|i: int| 0 <= i < keys.len() ==> 0x20 <= #[trigger] keys[i] <= 0x7E,
    ensures
        typed_all(EditModel { line: Seq::empty(), pos: 0 }, keys) == (EditModel {
            line: keys,
            pos: keys.len() as int,
        }),
    decreases keys.len(),
{
    let empty = EditModel { line: Seq::empty(), pos: 0 };
    if keys.len() == 0 {
        assert(keys =~= Seq::<u8>::empty());
    } else {
        let most = keys.drop_last();
        assert forall|i: int| 0 <= i < most.len() implies 0x20 <= #[trigger] most[i] <= 0x7E by {
            assert(0x20 <= keys[i] <= 0x7E);
        }
        lemma_line_grows(most);
        let e = typed_all(empty, most);
        let b = keys.last();
        assert(0x20 <= keys[keys.len() - 1] <= 0x7E);
        assert(e.typed(b).0.line =~= keys);
    }
}

/// White space is what Unicode has as white space, and digits are the ten of
/// ASCII.
pub proof fn law_white_space(c: char)
    ensures
        commands::is_white(c) <==> is_blank(c),
        commands::is_digit(c) <==> 0x30 <= c as u32 <= 0x39,
{
}

/// Every command but `spin`, which answers for itself, answers with a line.
pub proof fn law_answers_of_commands(cmd: CmdModel, version: Seq<char>)
    ensures
        cmd is Version ==> commands::output_of(cmd, version) == text::utf8(version) + text::utf8(
            "\r\n"@,
        ),
        cmd is Reboot ==> commands::output_of(cmd, version) == text::utf8("Rebooting...\r\n"@),
        cmd is Stop ==> commands::output_of(cmd, version) == text::utf8("stop ok\r\n"@),
        cmd is Unknown ==> commands::output_of(cmd, version) == text::utf8("unknown command\r\n"@),
        cmd is Help ==> commands::output_of(cmd, version) == text::utf8(
            "help | ?       list commands\r\nversion | ver  firmware version\r\ninfo           chip + flash info\r\nreboot         reset MCU\r\nspin <hz> <v>  open-loop spin\r\nstop           stop spin\r\n"@,
        ),
        cmd is Spin ==> commands::output_of(cmd, version).len() == 0,
        cmd is Info ==> commands::output_of(cmd, version) == text::utf8("B-G431B-ESC1"@)
            + text::utf8("\r\n"@) + text::utf8("STM32G431CBU6"@) + text::utf8("\r\n  flash: "@)
            + text::decimal(128) + text::utf8(" KB\r\n  sram:  "@) + text::decimal(32)
            + text::utf8(" KB\r\n"@),
{
}

/// What `spin` answers says what came of it.
pub proof fn law_answers_of_spin(v: commands::SpinVerdict)
    ensures
        v is NotFinite ==> v.answer() == "spin: values must be finite\r\n"@,
        v is NegativeFrequency ==> v.answer() == "spin: freq must be >= 0\r\n"@,
        v is NegativeVoltage ==> v.answer() == "spin: voltage must be >= 0\r\n"@,
        v is Accepted ==> v.answer() == "spin ok\r\n"@,
{
}

} // verus!
