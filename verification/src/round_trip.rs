//! Why a written document can be read back in one way only: its lines can be
//! had back from its bytes, and the model from its lines.

use crate::indent::IndentStyle;
use crate::keywords::{
    lemma_channel_words, lemma_channels_keyword, lemma_end_site_keyword,
    lemma_frame_time_keyword, lemma_frames_keyword, lemma_hierarchy_keyword,
    lemma_joint_keyword, lemma_motion_keyword, lemma_offset_keyword, lemma_root_keyword,
};
use crate::braces::{
    is_blank, is_brace_line, lemma_brace_alone, lemma_joint_text_lines, lemma_prefix_is_blank,
    lemma_worded_line,
};
use crate::layout::{lemma_closers_nested, lemma_document_layout, lemma_joint_line_at};
use crate::model::{is_numeral, BvhView, ChannelKind, JointView, OffsetView};
use crate::splitting::{
    are_lines, are_words, lacks, lemma_decimal_digits, lemma_lacks_add, lemma_numeral_bytes,
    lemma_same_head, lemma_spaced_lacks, lemma_spaced_unique,
};
use crate::text::{
    channel_words, channels_line, channels_text, close_line, decimal, document_lines,
    header_line, header_text, hierarchy_lines, joint_lines, joints_lines, lemma_spaced_push,
    motion_lines, offset_line, offset_text, opening_lines, spaced, terminated,
};
use crate::write::WriteOptions;
use vstd::prelude::*;
use vstd::string::StringSliceAdditionalSpecFns;

verus! {

/// The words of a `CHANNELS` line are words, and none holds a line feed.
proof fn lemma_channel_words_are_words(channels: Seq<ChannelKind>)
    ensures
        are_words(channel_words(channels)),
        are_lines(channel_words(channels)),
{
    let words = channel_words(channels);
    lemma_channels_keyword();
    lemma_decimal_digits(channels.len());
    assert forall|i: int| 0 <= i < words.len() implies (#[trigger] words[i]).len() > 0 && lacks(
        words[i],
        32,
    ) && lacks(words[i], 10) by {
        if i >= 2 {
            lemma_channel_words(channels[i - 2]);
        }
    }
}

/// The three values of an offset, joined by spaces, follow the keyword.
proof fn lemma_offset_words(offset: OffsetView)
    ensures
        offset_text(offset) == "OFFSET ".spec_bytes() + spaced(seq![offset.x, offset.y, offset.z]),
{
    let one = seq![offset.x];
    let two = one.push(offset.y);
    assert(spaced(one) == offset.x);
    lemma_spaced_push(one, offset.y);
    lemma_spaced_push(two, offset.z);
    assert(seq![offset.x, offset.y, offset.z] =~= two.push(offset.z));
    assert(offset_text(offset) =~= "OFFSET ".spec_bytes() + spaced(two.push(offset.z)));
}

/// The indentation of a line holds no line feed.
proof fn lemma_prefix_fits(style: IndentStyle, depth: nat)
    ensures
        lacks(style.prefix(depth), 10),
{
    lemma_prefix_is_blank(style, depth);
}

/// No line of a joint holds a line feed, where its name holds none and its
/// offset is made of numerals.
proof fn lemma_joint_lines_fit(style: IndentStyle, model: BvhView, j: int)
    requires
        model.numerals(),
        model.names_fit_lines(),
        0 <= j < model.joints.len(),
    ensures
        are_lines(joint_lines(style, model, j)),
{
    let joint = model.joints[j];
    let outer = style.prefix(joint.depth);
    let inner = style.prefix(joint.depth + 1);
    lemma_prefix_fits(style, joint.depth);
    lemma_prefix_fits(style, joint.depth + 1);
    lemma_root_keyword();
    lemma_end_site_keyword();
    lemma_joint_keyword();
    lemma_offset_keyword();
    assert(lacks(joint.name, 10)) by {
        assert forall|i: int| 0 <= i < joint.name.len() implies #[trigger] joint.name[i] != 10 by {
            assert(model.joints[j].name[i] != 10);
        }
    }
    lemma_lacks_add("ROOT ".spec_bytes(), joint.name, 10);
    lemma_lacks_add("JOINT ".spec_bytes(), joint.name, 10);
    lemma_lacks_add(outer, header_text(joint), 10);
    lemma_lacks_add(outer, seq![123u8], 10);
    assert(joint.offset.well_formed());
    lemma_numeral_bytes(joint.offset.x);
    lemma_numeral_bytes(joint.offset.y);
    lemma_numeral_bytes(joint.offset.z);
    let values = seq![joint.offset.x, joint.offset.y, joint.offset.z];
    lemma_offset_words(joint.offset);
    lemma_spaced_lacks(values, 10);
    lemma_lacks_add("OFFSET ".spec_bytes(), spaced(values), 10);
    lemma_lacks_add(inner, offset_text(joint.offset), 10);
    lemma_channel_words_are_words(joint.channels);
    lemma_spaced_lacks(channel_words(joint.channels), 10);
    lemma_lacks_add(inner, channels_text(joint.channels), 10);
    let lines = joint_lines(style, model, j);
    let opening = opening_lines(style, joint);
    assert forall|i: int| 0 <= i < lines.len() implies lacks(#[trigger] lines[i], 10) by {
        if i >= opening.len() {
            let depth = (joint.depth - (i - opening.len())) as nat;
            assert(lines[i] == close_line(style, depth));
            lemma_prefix_fits(style, depth);
            lemma_lacks_add(style.prefix(depth), seq![125u8], 10);
        }
    }
}

/// No line of the first `count` joints holds a line feed.
proof fn lemma_joints_lines_fit(style: IndentStyle, model: BvhView, count: nat)
    requires
        model.numerals(),
        model.names_fit_lines(),
        count <= model.joints.len(),
    ensures
        are_lines(joints_lines(style, model, count)),
    decreases count,
{
    if count > 0 {
        lemma_joints_lines_fit(style, model, (count - 1) as nat);
        lemma_joint_lines_fit(style, model, count - 1);
    }
}

/// No line of the document holds a line feed, where no name holds one and
/// the numbers are numerals.
pub proof fn lemma_document_lines_fit(style: IndentStyle, model: BvhView)
    requires
        model.numerals(),
        model.names_fit_lines(),
    ensures
        are_lines(document_lines(style, model)),
{
    lemma_joints_lines_fit(style, model, model.joints.len());
    lemma_hierarchy_keyword();
    lemma_motion_keyword();
    lemma_frames_keyword();
    lemma_frame_time_keyword();
    lemma_decimal_digits(model.frames.len());
    lemma_lacks_add("Frames: ".spec_bytes(), decimal(model.frames.len()), 10);
    lemma_numeral_bytes(model.frame_time);
    lemma_lacks_add("Frame Time: ".spec_bytes(), model.frame_time, 10);
    let motion = motion_lines(model);
    assert forall|i: int| 0 <= i < motion.len() implies lacks(#[trigger] motion[i], 10) by {
        if i >= 3 {
            let frame = model.frames[i - 3];
            assert forall|k: int| 0 <= k < frame.len() implies lacks(#[trigger] frame[k], 10) by {
                assert(is_numeral(model.frames[i - 3][k]));
                lemma_numeral_bytes(frame[k]);
            }
            lemma_spaced_lacks(frame, 10);
        }
    }
    let hierarchy = hierarchy_lines(style, model);
    let lines = document_lines(style, model);
    assert forall|i: int| 0 <= i < lines.len() implies lacks(#[trigger] lines[i], 10) by {
        if i == 0 {
        } else if i < hierarchy.len() {
            assert(lines[i] == joints_lines(style, model, model.joints.len())[i - 1]);
        } else {
            assert(lines[i] == motion[i - hierarchy.len()]);
        }
    }
}

/// Two lines differ where, behind their indentation, they begin with
/// different bytes.
proof fn lemma_lines_differ(
    first_indent: Seq<u8>,
    first_text: Seq<u8>,
    second_indent: Seq<u8>,
    second_text: Seq<u8>,
)
    requires
        forall|i: int| 0 <= i < first_indent.len() ==> is_blank(#[trigger] first_indent[i]),
        forall|i: int| 0 <= i < second_indent.len() ==> is_blank(#[trigger] second_indent[i]),
        first_text.len() > 0,
        second_text.len() > 0,
        !is_blank(first_text[0]),
        !is_blank(second_text[0]),
        first_text[0] != second_text[0],
    ensures
        first_indent + first_text != second_indent + second_text,
{
    let first = first_indent + first_text;
    let second = second_indent + second_text;
    if first_indent.len() < second_indent.len() {
        assert(first[first_indent.len() as int] == first_text[0]);
        assert(second[first_indent.len() as int] == second_indent[first_indent.len() as int]);
    } else if second_indent.len() < first_indent.len() {
        assert(second[second_indent.len() as int] == second_text[0]);
        assert(first[second_indent.len() as int] == first_indent[second_indent.len() as int]);
    } else {
        assert(first[first_indent.len() as int] == first_text[0]);
        assert(second[first_indent.len() as int] == second_text[0]);
    }
}

/// The first line of a joint is not the keyword of the motion.
proof fn lemma_header_is_not_motion(style: IndentStyle, joint: JointView)
    ensures
        header_line(style, joint) != "MOTION".spec_bytes(),
{
    lemma_root_keyword();
    lemma_end_site_keyword();
    lemma_joint_keyword();
    lemma_motion_keyword();
    lemma_prefix_is_blank(style, joint.depth);
    let text = header_text(joint);
    assert(text[0] == 82 || text[0] == 69 || text[0] == 74);
    lemma_lines_differ(
        style.prefix(joint.depth),
        text,
        Seq::<u8>::empty(),
        "MOTION".spec_bytes(),
    );
    assert(Seq::<u8>::empty() + "MOTION".spec_bytes() =~= "MOTION".spec_bytes());
}

/// Two joints at the same depth with the same first line have the same name,
/// and either both are end sites or neither is.
proof fn lemma_header_unique(style: IndentStyle, a: JointView, b: JointView)
    requires
        a.depth == b.depth,
        a.is_end_site ==> a.name.len() == 0 && a.depth > 0,
        b.is_end_site ==> b.name.len() == 0 && b.depth > 0,
        header_line(style, a) == header_line(style, b),
    ensures
        a.name == b.name,
        a.is_end_site == b.is_end_site,
{
    lemma_root_keyword();
    lemma_end_site_keyword();
    lemma_joint_keyword();
    lemma_same_head(style.prefix(a.depth), header_text(a), header_text(b));
    if a.depth == 0 {
        lemma_same_head("ROOT ".spec_bytes(), a.name, b.name);
    } else if a.is_end_site && b.is_end_site {
        assert(a.name =~= b.name);
    } else if !a.is_end_site && !b.is_end_site {
        lemma_same_head("JOINT ".spec_bytes(), a.name, b.name);
    } else {
        assert(header_text(a)[0] != header_text(b)[0]);
    }
}

/// Two joints at the same depth with the same `OFFSET` line have the same
/// offset.
proof fn lemma_offset_unique(style: IndentStyle, a: JointView, b: JointView)
    requires
        a.depth == b.depth,
        a.offset.well_formed(),
        b.offset.well_formed(),
        offset_line(style, a) == offset_line(style, b),
    ensures
        a.offset == b.offset,
{
    lemma_same_head(style.prefix(a.depth + 1), offset_text(a.offset), offset_text(b.offset));
    lemma_offset_words(a.offset);
    lemma_offset_words(b.offset);
    let first = seq![a.offset.x, a.offset.y, a.offset.z];
    let second = seq![b.offset.x, b.offset.y, b.offset.z];
    lemma_same_head("OFFSET ".spec_bytes(), spaced(first), spaced(second));
    lemma_numeral_bytes(a.offset.x);
    lemma_numeral_bytes(a.offset.y);
    lemma_numeral_bytes(a.offset.z);
    lemma_numeral_bytes(b.offset.x);
    lemma_numeral_bytes(b.offset.y);
    lemma_numeral_bytes(b.offset.z);
    lemma_spaced_unique(first, second);
    assert(first[0] == second[0] && first[1] == second[1] && first[2] == second[2]);
}

/// Two joints at the same depth with the same `CHANNELS` line have the same
/// channels.
proof fn lemma_channels_unique(style: IndentStyle, a: JointView, b: JointView)
    requires
        a.depth == b.depth,
        channels_line(style, a) == channels_line(style, b),
    ensures
        a.channels == b.channels,
{
    lemma_same_head(
        style.prefix(a.depth + 1),
        channels_text(a.channels),
        channels_text(b.channels),
    );
    let first = channel_words(a.channels);
    let second = channel_words(b.channels);
    lemma_channel_words_are_words(a.channels);
    lemma_channel_words_are_words(b.channels);
    lemma_spaced_unique(first, second);
    assert(a.channels.len() == b.channels.len()) by {
        assert(first.len() == 2 + a.channels.len());
        assert(second.len() == 2 + b.channels.len());
    }
    assert forall|i: int| 0 <= i < a.channels.len() implies a.channels[i] == b.channels[i] by {
        assert(first[2 + i] == a.channels[i].token());
        assert(second[2 + i] == b.channels[i].token());
        lemma_channel_words(a.channels[i]);
        lemma_channel_words(b.channels[i]);
        let word = a.channels[i].token();
        assert(word[0] == b.channels[i].token()[0]);
        assert(word[1] == b.channels[i].token()[1]);
    }
    assert(a.channels =~= b.channels);
}

/// Where two models have the same lines and agree on the lines before joint
/// `j`, the second has a joint `j` if the first has one.
proof fn lemma_joint_present(style: IndentStyle, a: BvhView, b: BvhView, j: nat)
    requires
        document_lines(style, a) == document_lines(style, b),
        j < a.joints.len(),
        j <= b.joints.len(),
        a.lines_before(j) == b.lines_before(j),
    ensures
        j < b.joints.len(),
{
    if j == b.joints.len() {
        lemma_document_layout(style, a);
        lemma_document_layout(style, b);
        lemma_joint_line_at(style, a, j, 0);
        let at = a.joint_start(j) as int;
        assert(document_lines(style, b)[b.hierarchy_line_count() as int] == motion_lines(b)[0]);
        assert(document_lines(style, a)[at] == header_line(style, a.joints[j as int]));
        lemma_header_is_not_motion(style, a.joints[j as int]);
    }
}

/// Where two well-formed models have the same lines and agree on the lines
/// before joint `j` and on its depth, they agree on joint `j`.
proof fn lemma_joint_same(style: IndentStyle, a: BvhView, b: BvhView, j: nat)
    requires
        a.well_formed(),
        b.well_formed(),
        document_lines(style, a) == document_lines(style, b),
        j < a.joints.len(),
        j < b.joints.len(),
        a.lines_before(j) == b.lines_before(j),
        a.joints[j as int].depth == b.joints[j as int].depth,
    ensures
        a.joints[j as int] == b.joints[j as int],
{
    let first = a.joints[j as int];
    let second = b.joints[j as int];
    lemma_joint_line_at(style, a, j, 0);
    lemma_joint_line_at(style, b, j, 0);
    lemma_joint_line_at(style, a, j, 2);
    lemma_joint_line_at(style, b, j, 2);
    assert(joint_lines(style, a, j as int)[0] == header_line(style, first));
    assert(joint_lines(style, b, j as int)[0] == header_line(style, second));
    assert(joint_lines(style, a, j as int)[2] == offset_line(style, first));
    assert(joint_lines(style, b, j as int)[2] == offset_line(style, second));
    assert(a.end_site_closes(j as int));
    assert(b.end_site_closes(j as int));
    lemma_header_unique(style, first, second);
    assert(first.offset.well_formed() && second.offset.well_formed());
    lemma_offset_unique(style, first, second);
    if first.is_end_site {
        assert(first.channels =~= second.channels);
    } else {
        lemma_joint_line_at(style, a, j, 3);
        lemma_joint_line_at(style, b, j, 3);
        assert(joint_lines(style, a, j as int)[3] == channels_line(style, first));
        assert(joint_lines(style, b, j as int)[3] == channels_line(style, second));
        lemma_channels_unique(style, first, second);
    }
}

/// The line behind the last line of joint `j` is no closing brace: it is the
/// first line of the next joint, or the keyword of the motion.
proof fn lemma_line_after_joint(style: IndentStyle, model: BvhView, j: nat)
    requires
        j < model.joints.len(),
    ensures
        model.joint_start(j + 1) < document_lines(style, model).len(),
        !is_brace_line(document_lines(style, model)[model.joint_start(j + 1) as int], 125u8),
{
    lemma_joint_line_at(style, model, j, 0);
    lemma_document_layout(style, model);
    let next = j as int + 1;
    if next < model.joints.len() {
        lemma_joint_line_at(style, model, j + 1, 0);
        assert(joint_lines(style, model, next)[0] == header_line(style, model.joints[next]));
        lemma_joint_text_lines(style, model.joints[next]);
    } else {
        assert(document_lines(style, model)[model.hierarchy_line_count() as int] == motion_lines(
            model,
        )[0]);
        lemma_motion_keyword();
        lemma_worded_line("MOTION".spec_bytes(), 0);
    }
}

/// The lines behind the opening lines of joint `j` are closing braces, as
/// many as blocks close after the joint.
proof fn lemma_closing_line_at(style: IndentStyle, model: BvhView, j: nat, n: nat)
    requires
        j < model.joints.len(),
        n < model.closers(j as int),
    ensures
        model.joint_start(j) + model.opening_line_count(j as int) + n < document_lines(
            style,
            model,
        ).len(),
        is_brace_line(
            document_lines(style, model)[(model.joint_start(j) + model.opening_line_count(
                j as int,
            ) + n) as int],
            125u8,
        ),
{
    let joint = model.joints[j as int];
    let opening = model.opening_line_count(j as int) as int;
    lemma_document_layout(style, model);
    lemma_joint_line_at(style, model, j, opening + n);
    let depth = (joint.depth - n) as nat;
    assert(joint_lines(style, model, j as int)[opening + n] == close_line(style, depth));
    lemma_brace_alone(style, depth);
}

/// Where two models have the same lines and agree on joint `j` and on the
/// lines before it, no fewer blocks close after joint `j` in the first than
/// in the second: else a closing brace of the second would be a line of words
/// in the first.
proof fn lemma_closers_at_least(style: IndentStyle, a: BvhView, b: BvhView, j: nat)
    requires
        document_lines(style, a) == document_lines(style, b),
        j < a.joints.len(),
        j < b.joints.len(),
        a.lines_before(j) == b.lines_before(j),
        a.joints[j as int].is_end_site == b.joints[j as int].is_end_site,
    ensures
        a.closers(j as int) >= b.closers(j as int),
{
    let fewer = a.closers(j as int);
    if fewer < b.closers(j as int) {
        lemma_closing_line_at(style, b, j, fewer);
        lemma_line_after_joint(style, a, j);
        lemma_joint_line_at(style, a, j, 0);
    }
}

/// Two well-formed models with the same lines agree on their first `count`
/// joints, on the lines of these joints, and on the depth at which the next
/// joint begins.
proof fn lemma_joints_unique(style: IndentStyle, a: BvhView, b: BvhView, count: nat)
    requires
        a.well_formed(),
        b.well_formed(),
        document_lines(style, a) == document_lines(style, b),
        count <= a.joints.len(),
    ensures
        count <= b.joints.len(),
        a.lines_before(count) == b.lines_before(count),
        a.open_depth(count) == b.open_depth(count),
        forall|k: int| 0 <= k < count ==> a.joints[k] == b.joints[k],
    decreases count,
{
    if count == 0 {
    } else {
        let j = (count - 1) as nat;
        lemma_joints_unique(style, a, b, j);
        lemma_joint_present(style, a, b, j);
        lemma_closers_nested(a, j as int);
        lemma_closers_nested(b, j as int);
        lemma_joint_same(style, a, b, j);
        lemma_closers_at_least(style, a, b, j);
        lemma_closers_at_least(style, b, a, j);
    }
}

/// Two well-formed models with the same lines are the same model.
pub proof fn lemma_lines_determine_model(style: IndentStyle, a: BvhView, b: BvhView)
    requires
        a.well_formed(),
        b.well_formed(),
        document_lines(style, a) == document_lines(style, b),
    ensures
        a == b,
{
    let lines = document_lines(style, a);
    lemma_joints_unique(style, a, b, a.joints.len());
    lemma_joints_unique(style, b, a, b.joints.len());
    assert(a.joints =~= b.joints);
    lemma_document_layout(style, a);
    lemma_document_layout(style, b);
    let start = a.hierarchy_line_count() as int;
    assert(a.frames.len() == b.frames.len());
    assert(lines[start + 2] == motion_lines(a)[2]);
    assert(lines[start + 2] == motion_lines(b)[2]);
    lemma_same_head("Frame Time: ".spec_bytes(), a.frame_time, b.frame_time);
    assert forall|f: int| 0 <= f < a.frames.len() implies a.frames[f] == b.frames[f] by {
        assert(lines[start + (3 + f)] == motion_lines(a)[3 + f]);
        assert(lines[start + (3 + f)] == motion_lines(b)[3 + f]);
        let first = a.frames[f];
        let second = b.frames[f];
        assert forall|i: int| 0 <= i < first.len() implies (#[trigger] first[i]).len() > 0
            && lacks(first[i], 32) by {
            assert(is_numeral(a.frames[f][i]));
            lemma_numeral_bytes(first[i]);
        }
        assert forall|i: int| 0 <= i < second.len() implies (#[trigger] second[i]).len() > 0
            && lacks(second[i], 32) by {
            assert(is_numeral(b.frames[f][i]));
            lemma_numeral_bytes(second[i]);
        }
        lemma_spaced_unique(first, second);
    }
    assert(a.frames =~= b.frames);
}

/// A text of lines begins with its first line and the line ending.
proof fn lemma_terminated_begins(lines: Seq<Seq<u8>>, ending: Seq<u8>)
    requires
        lines.len() > 0,
    ensures
        terminated(lines, ending).len() >= lines[0].len() + ending.len(),
        terminated(lines, ending).take((lines[0].len() + ending.len()) as int) == lines[0]
            + ending,
    decreases lines.len(),
{
    let text = terminated(lines, ending);
    let head = (lines[0].len() + ending.len()) as int;
    if lines.len() == 1 {
        assert(terminated(lines.drop_last(), ending) =~= Seq::<u8>::empty());
        assert(text.take(head) =~= lines[0] + ending);
    } else {
        lemma_terminated_begins(lines.drop_last(), ending);
        let before = terminated(lines.drop_last(), ending);
        assert(text.take(head) =~= before.take(head));
    }
}

/// Two documents that are the same text have the same line ending: it is
/// what follows the keyword of the hierarchy.
pub proof fn lemma_same_ending(first: WriteOptions, a: BvhView, second: WriteOptions, b: BvhView)
    requires
        first.document(a) == second.document(b),
    ensures
        first.line_terminator == second.line_terminator,
{
    let keyword = "HIERARCHY".spec_bytes();
    let text = first.document(a);
    lemma_hierarchy_keyword();
    lemma_terminated_begins(first.lines(a), first.line_terminator.bytes());
    lemma_terminated_begins(second.lines(b), second.line_terminator.bytes());
    let one = first.line_terminator.bytes();
    let other = second.line_terminator.bytes();
    assert(text.take((keyword.len() + one.len()) as int)[9] == text[9]);
    assert(text.take((keyword.len() + other.len()) as int)[9] == text[9]);
    assert((keyword + one)[9] == one[0]);
    assert((keyword + other)[9] == other[0]);
}

/// Two lines that are the same, and begin with a byte that is no blank behind
/// their indentation, have the same indentation.
proof fn lemma_same_indent(
    first_indent: Seq<u8>,
    first_text: Seq<u8>,
    second_indent: Seq<u8>,
    second_text: Seq<u8>,
)
    requires
        forall|i: int| 0 <= i < first_indent.len() ==> is_blank(#[trigger] first_indent[i]),
        forall|i: int| 0 <= i < second_indent.len() ==> is_blank(#[trigger] second_indent[i]),
        first_text.len() > 0,
        second_text.len() > 0,
        !is_blank(first_text[0]),
        !is_blank(second_text[0]),
        first_indent + first_text == second_indent + second_text,
    ensures
        first_indent == second_indent,
{
    let line = first_indent + first_text;
    let other = second_indent + second_text;
    if first_indent.len() < second_indent.len() {
        assert(line[first_indent.len() as int] == first_text[0]);
        assert(other[first_indent.len() as int] == second_indent[first_indent.len() as int]);
    } else if second_indent.len() < first_indent.len() {
        assert(other[second_indent.len() as int] == second_text[0]);
        assert(line[second_indent.len() as int] == first_indent[second_indent.len() as int]);
    }
    assert(line.take(first_indent.len() as int) =~= first_indent);
    assert(other.take(second_indent.len() as int) =~= second_indent);
}

/// The lines of the first `count` joints depend on the indentation style
/// through the bytes of one level only.
proof fn lemma_joints_lines_by_unit(
    first: IndentStyle,
    second: IndentStyle,
    model: BvhView,
    count: nat,
)
    requires
        first.unit() == second.unit(),
        count <= model.joints.len(),
    ensures
        joints_lines(first, model, count) == joints_lines(second, model, count),
    decreases count,
{
    if count > 0 {
        lemma_joints_lines_by_unit(first, second, model, (count - 1) as nat);
        assert(joint_lines(first, model, count - 1) =~= joint_lines(second, model, count - 1));
    }
}

/// Where two well-formed models have the same lines under two indentation
/// styles, the second model has these lines under the first style too.
pub proof fn lemma_same_style(first: IndentStyle, a: BvhView, second: IndentStyle, b: BvhView)
    requires
        a.nested(),
        b.nested(),
        document_lines(first, a) == document_lines(second, b),
    ensures
        document_lines(first, b) == document_lines(second, b),
{
    lemma_document_layout(first, a);
    lemma_document_layout(second, b);
    if a.joints.len() > 0 && b.joints.len() > 0 {
        lemma_joint_line_at(first, a, 0, 2);
        lemma_joint_line_at(second, b, 0, 2);
        assert(joint_lines(first, a, 0)[2] == offset_line(first, a.joints[0]));
        assert(joint_lines(second, b, 0)[2] == offset_line(second, b.joints[0]));
        lemma_offset_keyword();
        lemma_prefix_is_blank(first, 1);
        lemma_prefix_is_blank(second, 1);
        assert(offset_text(a.joints[0].offset)[0] == 79);
        assert(offset_text(b.joints[0].offset)[0] == 79);
        lemma_same_indent(
            first.prefix(1),
            offset_text(a.joints[0].offset),
            second.prefix(1),
            offset_text(b.joints[0].offset),
        );
        assert(first.prefix(1) =~= first.unit());
        assert(second.prefix(1) =~= second.unit());
        lemma_joints_lines_by_unit(first, second, b, b.joints.len());
    } else if b.joints.len() > 0 {
        lemma_joint_line_at(second, b, 0, 0);
        assert(joint_lines(second, b, 0)[0] == header_line(second, b.joints[0]));
        assert(document_lines(first, a)[a.hierarchy_line_count() as int] == motion_lines(a)[0]);
        lemma_header_is_not_motion(second, b.joints[0]);
    }
}

} // verus!
