//! Text for a two-row character display, as the commands that put it there.
//!
//! Nothing here touches the display. An [`LcdWriter`] holds the commands of
//! one cycle in order, hands them out one at a time, and takes back whether
//! each succeeded; whoever owns the display performs them. The first
//! failure ends the cycle: nothing more is handed out, and the cycle ends in
//! [`WriteError`].

use vstd::prelude::*;
use vstd::string::*;
use crate::date_time::DateTime;
use crate::rel_time::{clock_text, lemma_clock_text_is_one_line, RelTime, REFERENCE_YEAR};

verus! {

/// The number of character addresses that each display row takes up.
pub const ROW_STRIDE: u8 = 40;

/// The character address at which the second row starts.
pub const SECOND_ROW: u8 = ROW_STRIDE;

/// One operation of the display.
#[derive(Debug, PartialEq, Eq)]
pub enum LcdCommand {
    /// Undo any shift and move the cursor to the first address.
    Reset,
    /// Blank the whole display.
    Clear,
    /// Stop showing the cursor.
    HideCursor,
    /// Stop blinking the cursor.
    StopBlink,
    /// Write the text at the cursor.
    Write(String),
    /// Move the cursor to the character address.
    SetCursorPos(u8),
}

/// What an [`LcdCommand`] says, with its text as a sequence of characters.
pub enum LcdOp {
    Reset,
    Clear,
    HideCursor,
    StopBlink,
    Write(Seq<char>),
    SetCursorPos(u8),
}

impl View for LcdCommand {
    type V = LcdOp;

    open spec fn view(&self) -> LcdOp {
        match self {
            LcdCommand::Reset => LcdOp::Reset,
            LcdCommand::Clear => LcdOp::Clear,
            LcdCommand::HideCursor => LcdOp::HideCursor,
            LcdCommand::StopBlink => LcdOp::StopBlink,
            LcdCommand::Write(text) => LcdOp::Write(text@),
            LcdCommand::SetCursorPos(address) => LcdOp::SetCursorPos(*address),
        }
    }
}

/// The one signal for every failure of the display while text is written.
#[derive(Clone, Copy, Debug, PartialEq, Eq, Structural)]
pub struct WriteError;

/// The commands that bring the display up: reset, clear, cursor hidden,
/// blinking off.
pub open spec fn startup_plan() -> Seq<LcdOp> {
    seq![LcdOp::Reset, LcdOp::Clear, LcdOp::HideCursor, LcdOp::StopBlink]
}

/// The commands that open a cycle: reset and clear, so that nothing of an
/// earlier, longer text stays on the display.
pub open spec fn opening_plan() -> Seq<LcdOp> {
    seq![LcdOp::Reset, LcdOp::Clear]
}

/// The commands that write `text`. With a line feed in it, what stands
/// before the first one is written at the cursor, the cursor moves to the
/// start of the second row, and what stands after that line feed is written
/// there. Without one, the whole text is written at the cursor.
pub open spec fn line_plan(text: Seq<char>) -> Seq<LcdOp> {
    match text.index_of_first('\n') {
        Some(at) => seq![
            LcdOp::Write(text.take(at)),
            LcdOp::SetCursorPos(SECOND_ROW),
            LcdOp::Write(text.skip(at + 1)),
        ],
        None => seq![LcdOp::Write(text)],
    }
}

/// The text is split at its first line feed and nowhere else, and but for
/// that line feed all of it is written: what is written before the cursor
/// moves holds no line feed, and with the line feed and what is written
/// after, it is the text again.
pub proof fn lemma_line_plan_covers_text(text: Seq<char>)
    ensures
        text.contains('\n') ==> exists|head: Seq<char>, tail: Seq<char>|
            {
                &&& #[trigger] (head + seq!['\n'] + tail) == text
                &&& !head.contains('\n')
                &&& line_plan(text) == seq![
                    LcdOp::Write(head),
                    LcdOp::SetCursorPos(SECOND_ROW),
                    LcdOp::Write(tail),
                ]
            },
        !text.contains('\n') ==> line_plan(text) == seq![LcdOp::Write(text)],
{
    text.index_of_first_ensures('\n');
    if let Some(at) = text.index_of_first('\n') {
        let head = text.take(at);
        let tail = text.skip(at + 1);
        assert(head + seq!['\n'] + tail =~= text);
    }
}

/// The commands of one cycle and how far the display has come with them.
pub struct LcdWriter {
    commands: Vec<LcdCommand>,
    sent: usize,
    failed: bool,
}

impl LcdWriter {
    /// All commands of the cycle so far, in order.
    pub closed spec fn plan(self) -> Seq<LcdOp> {
        self.commands@.map_values(|c: LcdCommand| c@)
    }

    /// How many commands of the plan the display has performed.
    pub closed spec fn done(self) -> nat {
        self.sent as nat
    }

    /// Whether a command has failed.
    pub closed spec fn failed(self) -> bool {
        self.failed
    }

    /// The command that is to be performed next, if there is one.
    pub open spec fn pending(self) -> Option<LcdOp> {
        if !self.failed() && self.done() < self.plan().len() {
            Some(self.plan()[self.done() as int])
        } else {
            None
        }
    }

    /// A cycle in which nothing was performed and nothing has failed, with
    /// the commands given.
    fn start(commands: Vec<LcdCommand>) -> (w: Self)
        ensures
            w.plan() == commands@.map_values(|c: LcdCommand| c@),
            w.done() == 0,
            !w.failed(),
    {
        LcdWriter { commands, sent: 0, failed: false }
    }

    /// Adds the commands that write `s` to the cycle, unless it has failed.
    pub fn write_str(&mut self, s: &str) -> (r: Result<(), WriteError>)
        ensures
            r.is_err() == old(self).failed(),
            final(self).failed() == old(self).failed(),
            final(self).done() == old(self).done(),
            final(self).plan() == if old(self).failed() {
                old(self).plan()
            } else {
                old(self).plan() + line_plan(s@)
            },
    {
        if self.failed {
            return Err(WriteError);
        }
        let ghost before = self.plan();
        let length: usize = s.unicode_len();
        let mut at: usize = 0;
        while at < length && s.get_char(at) != '\n'
            invariant
                at <= length == s@.len(),
                forall|j: int| 0 <= j < at ==> s@[j] != '\n',
            decreases length - at,
        {
            at += 1;
        }
        proof {
            s@.index_of_first_ensures('\n');
        }
        if at < length {
            assert(s@.index_of_first('\n') == Some(at as int));
            let head: String = s.substring_char(0, at).to_owned();
            let tail: String = s.substring_char(at + 1, length).to_owned();
            self.commands.push(LcdCommand::Write(head));
            self.commands.push(LcdCommand::SetCursorPos(SECOND_ROW));
            self.commands.push(LcdCommand::Write(tail));
        } else {
            assert(s@.index_of_first('\n') is None);
            self.commands.push(LcdCommand::Write(s.to_owned()));
        }
        assert(self.plan() =~= before + line_plan(s@));
        Ok(())
    }

    /// The command to perform next: the first of the plan that was not
    /// performed, unless one has failed.
    pub fn next_command(&self) -> (r: Option<&LcdCommand>)
        ensures
            r.is_some() == self.pending().is_some(),
            r matches Some(command) ==> self.pending() == Some(command@),
    {
        if !self.failed && self.sent < self.commands.len() {
            Some(&self.commands[self.sent])
        } else {
            None
        }
    }

    /// Takes note of how the pending command went: performed, or failed.
    /// With none pending nothing changes.
    pub fn complete(&mut self, ok: bool)
        ensures
            final(self).plan() == old(self).plan(),
            final(self).done() == if old(self).pending().is_some() && ok {
                old(self).done() + 1
            } else {
                old(self).done()
            },
            final(self).failed() == (old(self).failed() || (old(self).pending().is_some()
                && !ok)),
    {
        if !self.failed && self.sent < self.commands.len() {
            if ok {
                self.sent = self.sent + 1;
            } else {
                self.failed = true;
            }
        }
    }

    /// How the cycle stands: in `WriteError` once a command has failed.
    pub fn finish(&self) -> (r: Result<(), WriteError>)
        ensures
            r.is_err() == self.failed(),
    {
        if self.failed {
            Err(WriteError)
        } else {
            Ok(())
        }
    }
}

/// The display as the commands know it.
#[derive(Clone, Copy, Debug, PartialEq, Eq, Structural)]
pub struct LcdDriver {
    rows: u8,
    cols: u8,
}

impl LcdDriver {
    /// The number of rows of the display.
    pub closed spec fn spec_rows(&self) -> u8 {
        self.rows
    }

    /// The number of characters that a row of the display shows.
    pub closed spec fn spec_cols(&self) -> u8 {
        self.cols
    }

    /// The number of rows of the display.
    #[verifier::when_used_as_spec(spec_rows)]
    pub fn rows(&self) -> (rows: u8)
        ensures
            rows == self.spec_rows(),
    {
        self.rows
    }

    /// The number of characters that a row of the display shows.
    #[verifier::when_used_as_spec(spec_cols)]
    pub fn cols(&self) -> (cols: u8)
        ensures
            cols == self.spec_cols(),
    {
        self.cols
    }

    /// A display of the given size, with the cycle that brings it up.
    pub fn new(rows: u8, cols: u8) -> (r: (Self, LcdWriter))
        ensures
            r.0.rows() == rows,
            r.0.cols() == cols,
            r.1.plan() == startup_plan(),
            r.1.done() == 0,
            !r.1.failed(),
    {
        let mut commands: Vec<LcdCommand> = Vec::new();
        commands.push(LcdCommand::Reset);
        commands.push(LcdCommand::Clear);
        commands.push(LcdCommand::HideCursor);
        commands.push(LcdCommand::StopBlink);
        let writer: LcdWriter = LcdWriter::start(commands);
        assert(writer.plan() =~= startup_plan());
        (LcdDriver { rows, cols }, writer)
    }

    /// A cycle that writes text to the display: it opens with a reset and a
    /// clear.
    pub fn writer(&mut self) -> (w: LcdWriter)
        ensures
            *final(self) == *old(self),
            w.plan() == opening_plan(),
            w.done() == 0,
            !w.failed(),
    {
        let mut commands: Vec<LcdCommand> = Vec::new();
        commands.push(LcdCommand::Reset);
        commands.push(LcdCommand::Clear);
        let writer: LcdWriter = LcdWriter::start(commands);
        assert(writer.plan() =~= opening_plan());
        writer
    }
}

/// The cycle that shows the elapsed time of the timestamp `dt` of the
/// reference year: the display is reset and cleared, and the elapsed time is
/// written as the text of a clock.
pub fn lcd_print_time(lcd: &mut LcdDriver, dt: DateTime) -> (w: LcdWriter)
    requires
        dt.spec_year() == REFERENCE_YEAR,
    ensures
        *final(lcd) == *old(lcd),
        w.plan() == opening_plan() + seq![
            LcdOp::Write(clock_text(RelTime::from_raw(dt).elapsed() as nat)),
        ],
        w.done() == 0,
        !w.failed(),
{
    let mut writer: LcdWriter = lcd.writer();
    let text: String = RelTime::from_raw(dt).to_string();
    proof {
        lemma_clock_text_is_one_line(RelTime::from_raw(dt).elapsed() as nat);
        text@.index_of_first_ensures('\n');
    }
    let _ = writer.write_str(text.as_str());
    writer
}

} // verus!
