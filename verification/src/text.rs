//! The lines of a BVH document, and the functions that write them.
//!
//! The spec functions say what each line is, without its line ending; the
//! executable functions append exactly those bytes to a byte string.

use crate::byte_string::{bstring_bytes, bstring_push, bstring_push_byte};
use crate::indent::IndentStyle;
use crate::model::{numerals_of, BvhView, ChannelKind, Joint, JointView, Number, OffsetView};
use bstr::BString;
use vstd::prelude::*;
use vstd::string::StringSliceAdditionalSpecFns;

verus! {

/// The decimal digits of `n`, without leading zeros.
pub open spec fn decimal(n: nat) -> Seq<u8>
    decreases n,
{
    if n < 10 {
        seq![(48 + n) as u8]
    } else {
        decimal(n / 10).push((48 + n % 10) as u8)
    }
}

/// The words in order, with one space between two neighbours.
pub open spec fn spaced(words: Seq<Seq<u8>>) -> Seq<u8>
    decreases words.len(),
{
    if words.len() == 0 {
        Seq::empty()
    } else if words.len() == 1 {
        words[0]
    } else {
        spaced(words.drop_last()) + seq![32u8] + words.last()
    }
}

/// What names a joint on its first line: `ROOT` and the name for a joint at
/// depth 0, `End Site` for an end site, `JOINT` and the name for any other.
pub open spec fn header_text(joint: JointView) -> Seq<u8> {
    if joint.depth == 0 {
        "ROOT ".spec_bytes() + joint.name
    } else if joint.is_end_site {
        "End Site".spec_bytes()
    } else {
        "JOINT ".spec_bytes() + joint.name
    }
}

/// `OFFSET` and the three values.
pub open spec fn offset_text(offset: OffsetView) -> Seq<u8> {
    "OFFSET ".spec_bytes() + offset.x + seq![32u8] + offset.y + seq![32u8] + offset.z
}

/// The words of a `CHANNELS` line: the keyword, the number of channels and
/// the word of each channel.
pub open spec fn channel_words(channels: Seq<ChannelKind>) -> Seq<Seq<u8>> {
    seq!["CHANNELS".spec_bytes(), decimal(channels.len())] + channels.map_values(
        |c: ChannelKind| c.token(),
    )
}

/// `CHANNELS`, the number of channels and the word of each channel, with one
/// space between two neighbours.
pub open spec fn channels_text(channels: Seq<ChannelKind>) -> Seq<u8> {
    spaced(channel_words(channels))
}

/// The first line of a joint, indented by the joint's depth.
pub open spec fn header_line(style: IndentStyle, joint: JointView) -> Seq<u8> {
    style.prefix(joint.depth) + header_text(joint)
}

/// The brace that opens the block of a joint at depth `depth`.
pub open spec fn open_line(style: IndentStyle, depth: nat) -> Seq<u8> {
    style.prefix(depth) + seq![123u8]
}

/// The brace that closes the block of a joint at depth `depth`; it stands
/// under the brace that opened the block.
pub open spec fn close_line(style: IndentStyle, depth: nat) -> Seq<u8> {
    style.prefix(depth) + seq![125u8]
}

/// The `OFFSET` line of a joint, one level inside the joint's block.
pub open spec fn offset_line(style: IndentStyle, joint: JointView) -> Seq<u8> {
    style.prefix(joint.depth + 1) + offset_text(joint.offset)
}

/// The `CHANNELS` line of a joint, one level inside the joint's block.
pub open spec fn channels_line(style: IndentStyle, joint: JointView) -> Seq<u8> {
    style.prefix(joint.depth + 1) + channels_text(joint.channels)
}

/// The lines that a joint contributes before any block closes: its first
/// line, the opening brace, the offset and, unless it is an end site, the
/// channels.
pub open spec fn opening_lines(style: IndentStyle, joint: JointView) -> Seq<Seq<u8>> {
    let head = seq![
        header_line(style, joint),
        open_line(style, joint.depth),
        offset_line(style, joint),
    ];
    if joint.is_end_site {
        head
    } else {
        head.push(channels_line(style, joint))
    }
}

/// `count` closing braces, the first at depth `depth`, each next one a level
/// further out.
pub open spec fn closing_lines(style: IndentStyle, depth: nat, count: nat) -> Seq<Seq<u8>> {
    Seq::new(count, |i: int| close_line(style, (depth - i) as nat))
}

impl BvhView {
    /// The number of blocks that close after joint `j`: its own and those of
    /// its ancestors down to the depth of the joint that follows, or none
    /// where the next joint is its child.
    pub open spec fn closers(self, j: int) -> nat {
        let depth = self.joints[j].depth;
        let next = self.depth_after(j);
        if next <= depth {
            (depth + 1 - next) as nat
        } else {
            0
        }
    }

    /// The number of lines that joint `j` contributes before any block
    /// closes.
    pub open spec fn opening_line_count(self, j: int) -> nat {
        if self.joints[j].is_end_site {
            3
        } else {
            4
        }
    }

    /// The number of lines that joint `j` contributes.
    pub open spec fn joint_line_count(self, j: int) -> nat {
        self.opening_line_count(j) + self.closers(j)
    }
}

/// The lines that joint `j` contributes: its own, then the braces that close
/// before the next joint opens.
pub open spec fn joint_lines(style: IndentStyle, model: BvhView, j: int) -> Seq<Seq<u8>> {
    opening_lines(style, model.joints[j]) + closing_lines(
        style,
        model.joints[j].depth,
        model.closers(j),
    )
}

/// The lines of the first `count` joints.
pub open spec fn joints_lines(style: IndentStyle, model: BvhView, count: nat) -> Seq<Seq<u8>>
    decreases count,
{
    if count == 0 {
        Seq::empty()
    } else {
        joints_lines(style, model, (count - 1) as nat) + joint_lines(style, model, count - 1)
    }
}

/// The hierarchy: the keyword, then the lines of every joint.
pub open spec fn hierarchy_lines(style: IndentStyle, model: BvhView) -> Seq<Seq<u8>> {
    seq!["HIERARCHY".spec_bytes()] + joints_lines(style, model, model.joints.len())
}

/// The line that gives the number of frames.
pub open spec fn frame_count_line(model: BvhView) -> Seq<u8> {
    "Frames: ".spec_bytes() + decimal(model.frames.len())
}

/// The line that gives the time between two frames.
pub open spec fn frame_time_line(model: BvhView) -> Seq<u8> {
    "Frame Time: ".spec_bytes() + model.frame_time
}

/// The motion: the keyword, the number of frames, the frame time, then one
/// line of values for each frame.
pub open spec fn motion_lines(model: BvhView) -> Seq<Seq<u8>> {
    seq!["MOTION".spec_bytes(), frame_count_line(model), frame_time_line(model)]
        + model.frames.map_values(|frame: Seq<Seq<u8>>| spaced(frame))
}

/// All lines of the document, hierarchy first, each without its line ending.
pub open spec fn document_lines(style: IndentStyle, model: BvhView) -> Seq<Seq<u8>> {
    hierarchy_lines(style, model) + motion_lines(model)
}

/// The lines in order, each followed by the line ending.
pub open spec fn terminated(lines: Seq<Seq<u8>>, ending: Seq<u8>) -> Seq<u8>
    decreases lines.len(),
{
    if lines.len() == 0 {
        Seq::empty()
    } else {
        terminated(lines.drop_last(), ending) + lines.last() + ending
    }
}

/// Appends the UTF-8 bytes of `text`.
pub(crate) fn push_text(line: &mut BString, text: &str)
    ensures
        bstring_bytes(*final(line)) == bstring_bytes(*old(line)) + text.spec_bytes(),
{
    bstring_push(line, text.as_bytes());
}

/// Appends the decimal digits of `n`.
pub(crate) fn push_decimal(line: &mut BString, n: usize)
    ensures
        bstring_bytes(*final(line)) == bstring_bytes(*old(line)) + decimal(n as nat),
    decreases n,
{
    if n >= 10 {
        push_decimal(line, n / 10);
    }
    let digit: u8 = 48 + (n % 10) as u8;
    bstring_push_byte(line, digit);
}

/// Appends the indentation of a line at depth `depth`.
pub(crate) fn push_indent(line: &mut BString, style: &IndentStyle, depth: usize)
    ensures
        bstring_bytes(*final(line)) == bstring_bytes(*old(line)) + style.prefix(depth as nat),
{
    let unit = style.prefix_chars();
    let mut level: usize = 0;
    while level < depth
        invariant
            level <= depth,
            unit@ == style.unit(),
            bstring_bytes(*line) == bstring_bytes(*old(line)) + style.prefix(level as nat),
        decreases depth - level,
    {
        bstring_push(line, unit.as_slice());
        level += 1;
    }
}

/// Appends the indentation of a line one level below depth `depth`.
pub(crate) fn push_inner_indent(line: &mut BString, style: &IndentStyle, depth: usize)
    ensures
        bstring_bytes(*final(line)) == bstring_bytes(*old(line)) + style.prefix(
            (depth + 1) as nat,
        ),
{
    push_indent(line, style, depth);
    let unit = style.prefix_chars();
    bstring_push(line, unit.as_slice());
}

/// Appends the first line of the joint.
pub(crate) fn push_header(line: &mut BString, style: &IndentStyle, joint: &Joint)
    ensures
        bstring_bytes(*final(line)) == bstring_bytes(*old(line)) + header_line(*style, joint@),
{
    push_indent(line, style, joint.depth);
    if joint.depth == 0 {
        push_text(line, "ROOT ");
        bstring_push(line, joint.name.as_slice());
    } else if joint.is_end_site {
        push_text(line, "End Site");
    } else {
        push_text(line, "JOINT ");
        bstring_push(line, joint.name.as_slice());
    }
}

/// Appends an opening brace at depth `depth`.
pub(crate) fn push_open(line: &mut BString, style: &IndentStyle, depth: usize)
    ensures
        bstring_bytes(*final(line)) == bstring_bytes(*old(line)) + open_line(
            *style,
            depth as nat,
        ),
{
    push_indent(line, style, depth);
    bstring_push_byte(line, 123u8);
}

/// Appends a closing brace at depth `depth`.
pub(crate) fn push_close(line: &mut BString, style: &IndentStyle, depth: usize)
    ensures
        bstring_bytes(*final(line)) == bstring_bytes(*old(line)) + close_line(
            *style,
            depth as nat,
        ),
{
    push_indent(line, style, depth);
    bstring_push_byte(line, 125u8);
}

/// Appends the `OFFSET` line of the joint.
pub(crate) fn push_offset(line: &mut BString, style: &IndentStyle, joint: &Joint)
    ensures
        bstring_bytes(*final(line)) == bstring_bytes(*old(line)) + offset_line(*style, joint@),
{
    push_inner_indent(line, style, joint.depth);
    push_text(line, "OFFSET ");
    bstring_push(line, joint.offset.x.as_bytes());
    bstring_push_byte(line, 32u8);
    bstring_push(line, joint.offset.y.as_bytes());
    bstring_push_byte(line, 32u8);
    bstring_push(line, joint.offset.z.as_bytes());
}

/// Appending a word to one or more words appends a space and the word to
/// their text.
pub proof fn lemma_spaced_push(words: Seq<Seq<u8>>, word: Seq<u8>)
    requires
        words.len() > 0,
    ensures
        spaced(words.push(word)) == spaced(words) + seq![32u8] + word,
{
    assert(words.push(word).drop_last() =~= words);
}

/// Appends the `CHANNELS` line of the joint.
pub(crate) fn push_channels(line: &mut BString, style: &IndentStyle, joint: &Joint)
    ensures
        bstring_bytes(*final(line)) == bstring_bytes(*old(line)) + channels_line(
            *style,
            joint@,
        ),
{
    push_inner_indent(line, style, joint.depth);
    let ghost indented = bstring_bytes(*line);
    let ghost words = channel_words(joint.channels@);
    push_text(line, "CHANNELS");
    bstring_push_byte(line, 32u8);
    push_decimal(line, joint.channels.len());
    proof {
        let keyword = seq!["CHANNELS".spec_bytes()];
        assert(words.take(2) =~= keyword.push(decimal(joint.channels@.len())));
        assert(spaced(keyword) == "CHANNELS".spec_bytes());
        lemma_spaced_push(keyword, decimal(joint.channels@.len()));
    }
    let mut i: usize = 0;
    while i < joint.channels.len()
        invariant
            i <= joint.channels@.len(),
            words == channel_words(joint.channels@),
            bstring_bytes(*line) == indented + spaced(words.take(2 + i)),
        decreases joint.channels@.len() - i,
    {
        bstring_push_byte(line, 32u8);
        push_text(line, joint.channels[i].as_str());
        proof {
            assert(words.take(2 + i + 1) =~= words.take(2 + i).push(joint.channels@[i as int].token()));
            lemma_spaced_push(words.take(2 + i), joint.channels@[i as int].token());
        }
        i += 1;
    }
    proof {
        assert(words.take(2 + i) =~= words);
    }
}

/// Appends the values of a frame, with one space between two neighbours.
pub(crate) fn push_frame(line: &mut BString, frame: &Vec<Number>)
    ensures
        bstring_bytes(*final(line)) == bstring_bytes(*old(line)) + spaced(numerals_of(frame@)),
{
    let ghost words = numerals_of(frame@);
    let mut i: usize = 0;
    while i < frame.len()
        invariant
            i <= frame@.len(),
            words == numerals_of(frame@),
            bstring_bytes(*line) == bstring_bytes(*old(line)) + spaced(words.take(i as int)),
        decreases frame@.len() - i,
    {
        if i > 0 {
            bstring_push_byte(line, 32u8);
        }
        bstring_push(line, frame[i].as_bytes());
        proof {
            assert(words.take(i + 1) =~= words.take(i as int).push(frame@[i as int]@));
            if i > 0 {
                lemma_spaced_push(words.take(i as int), frame@[i as int]@);
            }
        }
        i += 1;
    }
    proof {
        assert(words.take(i as int) =~= words);
    }
}

} // verus!
