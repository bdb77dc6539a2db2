//! The options of a write, and the document that they give.

use crate::byte_string::{bstring_as_bytes, bstring_bytes, bstring_new, bstring_push};
use crate::indent::IndentStyle;
use crate::model::{Bvh, BvhView};
use crate::producer::WriteOptionsIterState;
use crate::terminator::LineTerminator;
use crate::text::{document_lines, terminated};
use bstr::BString;
use vstd::prelude::*;

verus! {

/// How a [`Bvh`] is written.
#[derive(Clone, Debug, PartialEq, Eq, Hash)]
pub struct WriteOptions {
    /// How nested joints are indented.
    pub indent: IndentStyle,
    /// Which line ending closes every line.
    pub line_terminator: LineTerminator,
}

impl Default for WriteOptions {
    /// One tab for each level, and the line ending native to the host.
    fn default() -> (options: Self)
        ensures
            options.indent == IndentStyle::Tabs,
    {
        WriteOptions { indent: IndentStyle::Tabs, line_terminator: LineTerminator::native() }
    }
}

impl WriteOptions {
    /// The lines of the document for `model`, each without its line ending.
    pub open spec fn lines(self, model: BvhView) -> Seq<Seq<u8>> {
        document_lines(self.indent, model)
    }

    /// The document for `model`: every line, followed by the line ending.
    pub open spec fn document(self, model: BvhView) -> Seq<u8> {
        terminated(self.lines(model), self.line_terminator.bytes())
    }

    /// The default options: one tab for each level, and the line ending
    /// native to the host.
    pub fn new() -> (options: Self)
        ensures
            options.indent == IndentStyle::Tabs,
    {
        WriteOptions { indent: IndentStyle::Tabs, line_terminator: LineTerminator::native() }
    }

    /// These options with `indent` in place of their indentation.
    pub fn with_indent(self, indent: IndentStyle) -> (options: Self)
        ensures
            options.indent == indent,
            options.line_terminator == self.line_terminator,
    {
        WriteOptions { indent, line_terminator: self.line_terminator }
    }

    /// These options with `line_terminator` in place of their line ending.
    pub fn with_line_terminator(self, line_terminator: LineTerminator) -> (options: Self)
        ensures
            options.indent == self.indent,
            options.line_terminator == line_terminator,
    {
        WriteOptions { indent: self.indent, line_terminator }
    }

    /// The whole document for `bvh` as one byte string.
    pub fn write_to_string(&self, bvh: &Bvh) -> (out_string: BString)
        ensures
            bstring_bytes(out_string) == self.document(bvh@),
    {
        let mut curr_line = bstring_new();
        let mut out_string = bstring_new();
        let mut iter_state = WriteOptionsIterState::new(bvh);
        let ghost lines = self.lines(bvh@);
        let ghost ending = self.line_terminator.bytes();
        loop
            invariant
                lines == self.lines(bvh@),
                ending == self.line_terminator.bytes(),
                iter_state.valid_for(bvh@),
                iter_state.position(bvh@) <= lines.len(),
                bstring_bytes(out_string) == terminated(
                    lines.take(iter_state.position(bvh@) as int),
                    ending,
                ),
            ensures
                iter_state.position(bvh@) == lines.len(),
                bstring_bytes(out_string) == terminated(
                    lines.take(iter_state.position(bvh@) as int),
                    ending,
                ),
            decreases lines.len() - iter_state.position(bvh@),
        {
            let ghost at = iter_state.position(bvh@) as int;
            let more = self.next_line(bvh, &mut curr_line, &mut iter_state);
            if !more {
                break ;
            }
            bstring_push(&mut out_string, bstring_as_bytes(&curr_line));
            proof {
                assert(lines.take(at + 1).drop_last() =~= lines.take(at));
                assert(bstring_bytes(out_string) =~= terminated(lines.take(at), ending)
                    + lines[at] + ending);
            }
        }
        proof {
            assert(lines.take(lines.len() as int) =~= lines);
        }
        out_string
    }
}

/// Why a write to a sink is given up.
#[derive(Clone, Copy, Debug, PartialEq, Eq)]
pub enum TransferError {
    /// The sink took fewer bytes than the line has.
    DataDropped,
}

impl TransferError {
    /// The error in words.
    pub fn message(&self) -> (text: &'static str)
        ensures
            text@ == "Data has been dropped while writing to file"@,
    {
        "Data has been dropped while writing to file"
    }
}

/// What the sink did since the last step of a write.
#[derive(Clone, Copy, Debug, PartialEq, Eq)]
pub enum SinkEvent {
    /// Nothing yet: the write begins.
    Ready,
    /// It took this many bytes of the line that was sent.
    Accepted(usize),
}

/// What is to be done with the sink next.
#[derive(Clone, Copy, Debug, PartialEq, Eq)]
pub enum SinkAction {
    /// Send the line that the line buffer holds.
    Send,
    /// Every line was sent: flush the sink once, and the write is done.
    Flush,
    /// Give the write up with this error.
    Fail(TransferError),
}

impl SinkEvent {
    /// Whether the sink took fewer or more bytes than the `sent` bytes of the
    /// line.
    pub open spec fn dropped(self, sent: nat) -> bool {
        match self {
            SinkEvent::Ready => false,
            SinkEvent::Accepted(count) => count != sent,
        }
    }
}

impl WriteOptions {
    /// One step of a write to a sink: given what the sink did with the line
    /// in `line`, says what to do next.
    ///
    /// Where the sink did not take the line whole, the write fails, and
    /// nothing is sent again. Otherwise the next line is pulled into `line`
    /// to be sent, or, where no line is left, the sink is to be flushed.
    pub fn next_transfer(
        &self,
        bvh: &Bvh,
        line: &mut BString,
        iter_state: &mut WriteOptionsIterState,
        event: SinkEvent,
    ) -> (action: SinkAction)
        ensures
            event.dropped(bstring_bytes(*old(line)).len()) ==> {
                &&& action == SinkAction::Fail(TransferError::DataDropped)
                &&& *final(iter_state) == *old(iter_state)
                &&& bstring_bytes(*final(line)) == bstring_bytes(*old(line))
            },
            !event.dropped(bstring_bytes(*old(line)).len()) ==> {
                &&& action == SinkAction::Send || action == SinkAction::Flush
                &&& self.pulled(
                    bvh@,
                    *old(iter_state),
                    *final(iter_state),
                    bstring_bytes(*final(line)),
                    action == SinkAction::Send,
                )
            },
    {
        if let SinkEvent::Accepted(count) = event {
            if count != bstring_as_bytes(line).len() {
                return SinkAction::Fail(TransferError::DataDropped);
            }
        }
        if self.next_line(bvh, line, iter_state) {
            SinkAction::Send
        } else {
            SinkAction::Flush
        }
    }
}

} // verus!
