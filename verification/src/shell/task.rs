//! Line editor: the line being typed, the cursor in it, and what to send to
//! the terminal.
//!
//! While characters are typed the terminal shows line and cursor. The echo of
//! a backspace has no cursor step before the redraw: the rest of the line is
//! drawn where it stands already, and the terminal still shows the line and
//! the cursor from before the deletion.

use vstd::prelude::*;
use vstd::slice::slice_subrange;
use vstd::slice::slice_to_vec;

verus! {

/// Longest line.
pub const CMD_BUF_SIZE: usize = 64;

pub const CR: u8 = 0x0D;

pub const LF: u8 = 0x0A;

pub const BACKSPACE: u8 = 0x08;

pub const DELETE: u8 = 0x7F;

pub const ESCAPE: u8 = 0x1B;

pub const SPACE: u8 = 0x20;

/// The line and the place in it where the next character goes.
pub struct LineEditor {
    pub line: Vec<u8>,
    pub pos: usize,
}

/// `LineEditor` with the line as a sequence.
#[verifier::ext_equal]
pub struct EditModel {
    pub line: Seq<u8>,
    pub pos: int,
}

impl View for LineEditor {
    type V = EditModel;

    open spec fn view(&self) -> EditModel {
        EditModel { line: self.line@, pos: self.pos as int }
    }
}

/// What to do after a byte.
#[derive(Debug)]
pub enum EditStep {
    /// Send this to the terminal.
    Echo(Vec<u8>),
    /// Send a line break, run the line, then send the prompt.
    Run(Vec<u8>),
    /// Read up to two more bytes and hand them in.
    ReadEscape,
}

/// `EditStep` with its bytes as sequences.
#[verifier::ext_equal]
pub enum StepModel {
    Echo(Seq<u8>),
    Run(Seq<u8>),
    ReadEscape,
}

impl View for EditStep {
    type V = StepModel;

    open spec fn view(&self) -> StepModel {
        match self {
            EditStep::Echo(bytes) => StepModel::Echo(bytes@),
            EditStep::Run(line) => StepModel::Run(line@),
            EditStep::ReadEscape => StepModel::ReadEscape,
        }
    }
}

/// Line break.
pub open spec fn newline() -> Seq<u8> {
    seq![CR, LF]
}

/// Line break and prompt.
pub open spec fn prompt() -> Seq<u8> {
    seq![CR, LF, 0x3Eu8, SPACE]
}

/// A byte that can stand in a line: a visible ASCII character or a space.
pub open spec fn is_printable(b: u8) -> bool {
    0x20 <= b <= 0x7E
}

/// `n` cursor movements to the left.
pub open spec fn steps_back(n: int) -> Seq<u8> {
    Seq::new(n as nat, |i: int| BACKSPACE)
}

impl EditModel {
    pub open spec fn empty() -> EditModel {
        EditModel { line: Seq::empty(), pos: 0 }
    }

    /// The cursor is in the line or behind it, and the line fits and holds
    /// printable bytes only.
    pub open spec fn wf(self) -> bool {
        &&& 0 <= self.pos <= self.line.len() <= CMD_BUF_SIZE
        &&& forall|i: int| 0 <= i < self.line.len() ==> is_printable(#[trigger] self.line[i])
    }

    /// The character before the cursor is removed; the rest of the line and a
    /// space are drawn from the column of the cursor on, to which it then goes
    /// back.
    pub open spec fn backspaced(self) -> (EditModel, StepModel) {
        if self.pos == 0 {
            (self, StepModel::Echo(Seq::empty()))
        } else {
            let line = self.line.remove(self.pos - 1);
            let pos = self.pos - 1;
            (
                EditModel { line, pos },
                StepModel::Echo(
                    line.skip(pos).push(SPACE) + steps_back(line.len() - pos + 1),
                ),
            )
        }
    }

    /// A character is inserted at the cursor, if it fits; the line from
    /// there on is drawn and the cursor goes back to behind it.
    pub open spec fn inserted(self, b: u8) -> (EditModel, StepModel) {
        if self.line.len() >= CMD_BUF_SIZE {
            (self, StepModel::Echo(Seq::empty()))
        } else {
            let line = self.line.insert(self.pos, b);
            (
                EditModel { line, pos: self.pos + 1 },
                StepModel::Echo(
                    line.skip(self.pos) + steps_back(line.len() - self.pos - 1),
                ),
            )
        }
    }

    /// Editor and step after a byte.
    pub open spec fn typed(self, b: u8) -> (EditModel, StepModel) {
        if b == CR || b == LF {
            if self.line.len() > 0 {
                (EditModel::empty(), StepModel::Run(self.line))
            } else {
                (self, StepModel::Echo(prompt()))
            }
        } else if b == BACKSPACE || b == DELETE {
            self.backspaced()
        } else if b == ESCAPE {
            (self, StepModel::ReadEscape)
        } else if is_printable(b) {
            self.inserted(b)
        } else {
            (self, StepModel::Echo(Seq::empty()))
        }
    }

    /// Editor and output after the bytes behind an escape: `[D` moves the
    /// cursor left and `[C` right, as far as the line goes.
    pub open spec fn escaped(self, tail: Seq<u8>) -> (EditModel, Seq<u8>) {
        if tail == seq![0x5Bu8, 0x44u8] && self.pos > 0 {
            (EditModel { pos: self.pos - 1, ..self }, seq![ESCAPE, 0x5Bu8, 0x44u8])
        } else if tail == seq![0x5Bu8, 0x43u8] && self.pos < self.line.len() {
            (EditModel { pos: self.pos + 1, ..self }, seq![ESCAPE, 0x5Bu8, 0x43u8])
        } else {
            (self, Seq::empty())
        }
    }
}

/// Appends `n` cursor movements to the left.
fn push_steps_back(out: &mut Vec<u8>, n: usize)
    ensures
        final(out)@ == old(out)@ + steps_back(n as int),
{
    let ghost start = out@;
    let mut i: usize = 0;
    assert(start + steps_back(0) =~= start);
    while i < n
        invariant
            i <= n,
            out@ == start + steps_back(i as int),
        decreases n - i,
    {
        out.push(BACKSPACE);
        i = i + 1;
        assert(out@ =~= start + steps_back(i as int));
    }
}

/// The prompt, which also starts a session.
pub fn prompt_bytes() -> (bytes: Vec<u8>)
    ensures
        bytes@ == prompt(),
{
    let bytes: Vec<u8> = vec![CR, LF, 0x3E, SPACE];
    assert(bytes@ =~= prompt());
    bytes
}

/// The line break that comes before the output of a command.
pub fn newline_bytes() -> (bytes: Vec<u8>)
    ensures
        bytes@ == newline(),
{
    let bytes: Vec<u8> = vec![CR, LF];
    assert(bytes@ =~= newline());
    bytes
}

impl LineEditor {
    pub fn new() -> (e: LineEditor)
        ensures
            e@ == EditModel::empty(),
            e@.wf(),
    {
        LineEditor { line: Vec::new(), pos: 0 }
    }

    /// Handles a byte from the terminal.
    pub fn on_byte(&mut self, b: u8) -> (step: EditStep)
        requires
            old(self)@.wf(),
        ensures
            (final(self)@, step@) == old(self)@.typed(b),
            final(self)@.wf(),
    {
        match b {
            CR | LF => {
                if self.line.len() > 0 {
                    let line = slice_to_vec(self.line.as_slice());
                    self.line = Vec::new();
                    self.pos = 0;
                    return EditStep::Run(line);
                }
                EditStep::Echo(prompt_bytes())
            },
            BACKSPACE | DELETE => self.delete_before_cursor(),
            ESCAPE => EditStep::ReadEscape,
            0x20..=0x7E => self.insert_at_cursor(b),
            _ => EditStep::Echo(Vec::new()),
        }
    }

    fn delete_before_cursor(&mut self) -> (step: EditStep)
        requires
            old(self)@.wf(),
        ensures
            (final(self)@, step@) == old(self)@.backspaced(),
            final(self)@.wf(),
    {
        if self.pos == 0 {
            return EditStep::Echo(Vec::new());
        }
        self.pos = self.pos - 1;
        let _removed: u8 = self.line.remove(self.pos);
        let len: usize = self.line.len();
        let mut out = slice_to_vec(slice_subrange(self.line.as_slice(), self.pos, len));
        assert(out@ =~= self.line@.skip(self.pos as int));
        out.push(SPACE);
        push_steps_back(&mut out, len - self.pos + 1);
        EditStep::Echo(out)
    }

    fn insert_at_cursor(&mut self, b: u8) -> (step: EditStep)
        requires
            old(self)@.wf(),
            is_printable(b),
        ensures
            (final(self)@, step@) == old(self)@.inserted(b),
            final(self)@.wf(),
    {
        if self.line.len() >= CMD_BUF_SIZE {
            return EditStep::Echo(Vec::new());
        }
        let at: usize = self.pos;
        self.line.insert(at, b);
        let len: usize = self.line.len();
        let mut out = slice_to_vec(slice_subrange(self.line.as_slice(), at, len));
        assert(out@ =~= self.line@.skip(at as int));
        push_steps_back(&mut out, len - at - 1);
        self.pos = at + 1;
        EditStep::Echo(out)
    }

    /// Handles the bytes behind an escape; returns what to send.
    pub fn on_escape(&mut self, tail: &[u8]) -> (out: Vec<u8>)
        requires
            old(self)@.wf(),
        ensures
            (final(self)@, out@) == old(self)@.escaped(tail@),
            final(self)@.wf(),
    {
        if tail.len() == 2 && tail[0] == 0x5B {
            if tail[1] == 0x44 {
                assert(tail@ =~= seq![0x5Bu8, 0x44u8]);
                if self.pos > 0 {
                    self.pos = self.pos - 1;
                    let out: Vec<u8> = vec![ESCAPE, 0x5B, 0x44];
                    assert(out@ =~= seq![ESCAPE, 0x5Bu8, 0x44u8]);
                    return out;
                }
            } else if tail[1] == 0x43 {
                assert(tail@ =~= seq![0x5Bu8, 0x43u8]);
                if self.pos < self.line.len() {
                    self.pos = self.pos + 1;
                    let out: Vec<u8> = vec![ESCAPE, 0x5B, 0x43];
                    assert(out@ =~= seq![ESCAPE, 0x5Bu8, 0x43u8]);
                    return out;
                }
            }
        }
        Vec::new()
    }
}

/// What a terminal shows behind the prompt: a character for every column,
/// and the column of the cursor.
pub struct Screen {
    pub cells: spec_fn(int) -> u8,
    pub cursor: int,
}

impl Screen {
    /// The screen after one byte: a character is drawn at the cursor, a
    /// backspace moves the cursor left.
    pub open spec fn shown(self, b: u8) -> Screen {
        if b == BACKSPACE {
            Screen { cursor: self.cursor - 1, ..self }
        } else {
            let cells = self.cells;
            let at = self.cursor;
            Screen {
                cells: |i: int|
                    if i == at {
                        b
                    } else {
                        cells(i)
                    },
                cursor: at + 1,
            }
        }
    }

    /// The screen after some bytes.
    pub open spec fn shown_all(self, bytes: Seq<u8>) -> Screen
        decreases bytes.len(),
    {
        if bytes.len() == 0 {
            self
        } else {
            self.shown_all(bytes.drop_last()).shown(bytes.last())
        }
    }

    /// The screen shows the line, blanks behind it, and the cursor in its
    /// place.
    pub open spec fn shows(self, e: EditModel) -> bool {
        &&& self.cursor == e.pos
        &&& forall|i: int| 0 <= i < e.line.len() ==> #[trigger] (self.cells)(i) == e.line[i]
        &&& forall|i: int| i >= e.line.len() ==> #[trigger] (self.cells)(i) == SPACE
    }
}

/// Printable bytes are drawn one after the other.
proof fn lemma_text_is_drawn(s: Screen, text: Seq<u8>)
    requires
        forall|i: int| 0 <= i < text.len() ==> is_printable(#[trigger] text[i]),
    ensures
        ({
            let end = s.shown_all(text);
            &&& end.cursor == s.cursor + text.len()
            &&& forall|i: int|
                #[trigger] (end.cells)(i) == if s.cursor <= i < s.cursor + text.len() {
                    text[i - s.cursor]
                } else {
                    (s.cells)(i)
                }
        }),
    decreases text.len(),
{
    if text.len() > 0 {
        lemma_text_is_drawn(s, text.drop_last());
    }
}

/// Backspaces only move the cursor.
proof fn lemma_steps_back_move(s: Screen, n: nat)
    ensures
        s.shown_all(steps_back(n as int)) == (Screen { cursor: s.cursor - n, ..s }),
    decreases n,
{
    if n > 0 {
        lemma_steps_back_move(s, (n - 1) as nat);
        assert(steps_back(n as int).drop_last() =~= steps_back(n - 1));
    } else {
        assert(steps_back(0) =~= Seq::<u8>::empty());
    }
}

/// Showing two pieces is showing the second after the first.
proof fn lemma_shown_in_pieces(s: Screen, a: Seq<u8>, b: Seq<u8>)
    ensures
        s.shown_all(a + b) == s.shown_all(a).shown_all(b),
    decreases b.len(),
{
    if b.len() == 0 {
        assert(a + b =~= a);
    } else {
        lemma_shown_in_pieces(s, a, b.drop_last());
        assert((a + b).drop_last() =~= a + b.drop_last());
    }
}

/// A terminal that shows the line and the cursor still shows them after a
/// character was typed and the echo was drawn.
pub proof fn law_screen_follows_typing(e: EditModel, s: Screen, b: u8)
    requires
        e.wf(),
        s.shows(e),
        is_printable(b),
    ensures
        ({
            let after = e.typed(b);
            after.1 matches StepModel::Echo(out) && s.shown_all(out).shows(after.0)
        }),
{
    if e.line.len() < CMD_BUF_SIZE {
        let line = e.line.insert(e.pos, b);
        let text = line.skip(e.pos);
        let n = (line.len() - e.pos - 1) as nat;
        assert forall|i: int| 0 <= i < text.len() implies is_printable(#[trigger] text[i]) by {
            assert(text[i] == line[e.pos + i]);
        }
        lemma_text_is_drawn(s, text);
        lemma_steps_back_move(s.shown_all(text), n);
        lemma_shown_in_pieces(s, text, steps_back(n as int));
        let end = s.shown_all(text + steps_back(n as int));
        assert forall|i: int| 0 <= i < line.len() implies #[trigger] (end.cells)(i)
            == line[i] by {
            if i >= e.pos {
                assert(text[i - e.pos] == line[i]);
            }
        }
    }
}

/// The echo of a backspace leaves the terminal as it is: it goes on showing
/// the line and the cursor from before the deletion.
pub proof fn law_screen_stays_on_backspace(e: EditModel, s: Screen, b: u8)
    requires
        e.wf(),
        s.shows(e),
        b == BACKSPACE || b == DELETE,
    ensures
        e.typed(b).1 matches StepModel::Echo(out) && s.shown_all(out).shows(e),
{
    if e.pos > 0 {
        let line = e.line.remove(e.pos - 1);
        let text = line.skip(e.pos - 1).push(SPACE);
        let n = text.len();
        assert forall|i: int| 0 <= i < n implies #[trigger] text[i] == if e.pos + i < e.line.len() {
            e.line[e.pos + i]
        } else {
            SPACE
        } by {}
        lemma_text_is_drawn(s, text);
        lemma_steps_back_move(s.shown_all(text), n);
        lemma_shown_in_pieces(s, text, steps_back(n as int));
    }
}

/// Deleting the character that was just typed restores line and cursor.
pub proof fn law_backspace_undoes_typing(e: EditModel, b: u8)
    requires
        e.wf(),
        e.line.len() < CMD_BUF_SIZE,
        is_printable(b),
    ensures
        e.typed(b).0.typed(BACKSPACE).0 == e,
        e.typed(b).0.typed(DELETE).0 == e,
{
    let after = e.typed(b).0;
    assert(after.line.remove(e.pos) =~= e.line);
}

/// Moving the cursor left and then right, or right and then left, brings it
/// back.
pub proof fn law_arrows_undo_each_other(e: EditModel)
    requires
        e.wf(),
    ensures
        e.pos > 0 ==> e.escaped(seq![0x5Bu8, 0x44u8]).0.escaped(seq![0x5Bu8, 0x43u8]).0 == e,
        e.pos < e.line.len() ==> e.escaped(seq![0x5Bu8, 0x43u8]).0.escaped(
            seq![0x5Bu8, 0x44u8],
        ).0 == e,
{
    let left = seq![0x5Bu8, 0x44u8];
    let right = seq![0x5Bu8, 0x43u8];
    assert(left[1] != right[1]);
}

/// Whatever is typed, the line stays within its limit and printable, and the
/// cursor stays in it or behind it.
pub proof fn law_editor_stays_well_formed(e: EditModel, b: u8, tail: Seq<u8>)
    requires
        e.wf(),
    ensures
        e.typed(b).0.wf(),
        e.escaped(tail).0.wf(),
{
}

/// A full line takes no further character.
pub proof fn law_full_line_ignores_typing(e: EditModel, b: u8)
    requires
        e.wf(),
        e.line.len() == CMD_BUF_SIZE,
        is_printable(b),
    ensures
        e.typed(b) == (e, StepModel::Echo(Seq::empty())),
{
}

} // verus!
