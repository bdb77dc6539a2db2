//! The lines that hold a brace alone, and how many of them a run of lines has.

use crate::indent::{repeated, IndentStyle};
use crate::keywords::{
    lemma_channels_keyword, lemma_end_site_keyword, lemma_frame_time_keyword,
    lemma_frames_keyword, lemma_hierarchy_keyword, lemma_joint_keyword, lemma_motion_keyword,
    lemma_offset_keyword, lemma_root_keyword,
};
use crate::layout::lemma_closers_nested;
use crate::model::{BvhView, JointView};
use crate::splitting::lemma_numeral_bytes;
use crate::text::{
    channel_words, channels_line, channels_text, close_line, closing_lines, frame_count_line,
    frame_time_line, header_line, header_text, hierarchy_lines, joint_lines, joints_lines,
    motion_lines, offset_line, offset_text, open_line, opening_lines, spaced,
};
use vstd::prelude::*;
use vstd::string::StringSliceAdditionalSpecFns;

verus! {

/// Whether the byte is a space or a tab.
pub open spec fn is_blank(b: u8) -> bool {
    b == 32 || b == 9
}

/// Whether the line is the brace `brace` alone, behind any indentation.
pub open spec fn is_brace_line(line: Seq<u8>, brace: u8) -> bool {
    &&& line.len() > 0
    &&& line.last() == brace
    &&& forall|i: int| 0 <= i < line.len() - 1 ==> is_blank(#[trigger] line[i])
}

/// The number of lines among `lines` that are the brace `brace` alone.
pub open spec fn brace_lines(lines: Seq<Seq<u8>>, brace: u8) -> nat
    decreases lines.len(),
{
    if lines.len() == 0 {
        0
    } else {
        brace_lines(lines.drop_last(), brace) + if is_brace_line(lines.last(), brace) {
            1nat
        } else {
            0nat
        }
    }
}

/// The number of opening braces among `lines`.
pub open spec fn opening_braces(lines: Seq<Seq<u8>>) -> nat {
    brace_lines(lines, 123u8)
}

/// The number of closing braces among `lines`.
pub open spec fn closing_braces(lines: Seq<Seq<u8>>) -> nat {
    brace_lines(lines, 125u8)
}

/// Counting one line more counts the line where it is such a brace line.
pub proof fn lemma_brace_lines_step(lines: Seq<Seq<u8>>, n: int, brace: u8)
    requires
        0 < n <= lines.len(),
    ensures
        brace_lines(lines.take(n), brace) == brace_lines(lines.take(n - 1), brace)
            + if is_brace_line(lines[n - 1], brace) {
            1nat
        } else {
            0nat
        },
{
    assert(lines.take(n).drop_last() =~= lines.take(n - 1));
}

/// The brace lines of two runs of lines add up.
pub proof fn lemma_brace_lines_add(a: Seq<Seq<u8>>, b: Seq<Seq<u8>>, brace: u8)
    ensures
        brace_lines(a + b, brace) == brace_lines(a, brace) + brace_lines(b, brace),
    decreases b.len(),
{
    if b.len() == 0 {
        assert(a + b =~= a);
    } else {
        assert((a + b).drop_last() =~= a + b.drop_last());
        lemma_brace_lines_add(a, b.drop_last(), brace);
    }
}

/// The brace lines among the first `n` lines of two runs of lines are those
/// of the first run, and of the second as far as `n` reaches into it.
pub proof fn lemma_brace_lines_take(a: Seq<Seq<u8>>, b: Seq<Seq<u8>>, n: int, brace: u8)
    requires
        0 <= n <= a.len() + b.len(),
    ensures
        brace_lines((a + b).take(n), brace) == if n <= a.len() {
            brace_lines(a.take(n), brace)
        } else {
            brace_lines(a, brace) + brace_lines(b.take(n - a.len()), brace)
        },
{
    if n <= a.len() {
        assert((a + b).take(n) =~= a.take(n));
    } else {
        assert((a + b).take(n) =~= a + b.take(n - a.len()));
        lemma_brace_lines_add(a, b.take(n - a.len()), brace);
    }
}

/// All lines of a run hold its brace lines, and no lines hold none.
pub proof fn lemma_brace_lines_whole(a: Seq<Seq<u8>>, brace: u8)
    ensures
        brace_lines(a.take(a.len() as int), brace) == brace_lines(a, brace),
        brace_lines(a.take(0), brace) == 0,
{
    assert(a.take(a.len() as int) =~= a);
    assert(a.take(0) =~= Seq::<Seq<u8>>::empty());
}

/// Blank bytes, written over and over, are blank bytes.
pub proof fn lemma_indentation_is_blank(unit: Seq<u8>, count: nat)
    requires
        forall|i: int| 0 <= i < unit.len() ==> is_blank(#[trigger] unit[i]),
    ensures
        forall|i: int|
            0 <= i < repeated(unit, count).len() ==> is_blank(#[trigger] repeated(unit, count)[i]),
    decreases count,
{
    if count > 0 {
        lemma_indentation_is_blank(unit, (count - 1) as nat);
        let before = repeated(unit, (count - 1) as nat);
        assert forall|i: int| 0 <= i < repeated(unit, count).len() implies is_blank(
            #[trigger] repeated(unit, count)[i],
        ) by {
            if i < before.len() {
                assert(repeated(unit, count)[i] == before[i]);
            } else {
                assert(repeated(unit, count)[i] == unit[i - before.len()]);
            }
        }
    }
}

/// The indentation of a line holds spaces and tabs only.
pub proof fn lemma_prefix_is_blank(style: IndentStyle, depth: nat)
    ensures
        forall|i: int|
            0 <= i < style.prefix(depth).len() ==> is_blank(#[trigger] style.prefix(depth)[i]),
{
    lemma_indentation_is_blank(style.unit(), depth);
}

/// A line with a byte that is neither blank nor a brace is no brace line.
pub proof fn lemma_worded_line(line: Seq<u8>, at: int)
    requires
        0 <= at < line.len(),
        !is_blank(line[at]),
        line[at] != 123,
        line[at] != 125,
    ensures
        !is_brace_line(line, 123u8),
        !is_brace_line(line, 125u8),
{
}

/// A line that holds a brace alone, behind its indentation, is a line of that
/// brace and not of the other.
pub proof fn lemma_brace_alone(style: IndentStyle, depth: nat)
    ensures
        is_brace_line(open_line(style, depth), 123u8),
        !is_brace_line(open_line(style, depth), 125u8),
        is_brace_line(close_line(style, depth), 125u8),
        !is_brace_line(close_line(style, depth), 123u8),
{
    lemma_prefix_is_blank(style, depth);
}

/// Words that are joined by spaces begin with the first byte of the first
/// word.
pub proof fn lemma_spaced_begins(words: Seq<Seq<u8>>)
    requires
        words.len() > 0,
        words[0].len() > 0,
    ensures
        spaced(words).len() > 0,
        spaced(words)[0] == words[0][0],
    decreases words.len(),
{
    if words.len() > 1 {
        lemma_spaced_begins(words.drop_last());
    }
}

/// The lines of a joint that hold words are no brace lines.
pub proof fn lemma_joint_text_lines(style: IndentStyle, joint: JointView)
    ensures
        !is_brace_line(header_line(style, joint), 123u8),
        !is_brace_line(header_line(style, joint), 125u8),
        !is_brace_line(offset_line(style, joint), 123u8),
        !is_brace_line(offset_line(style, joint), 125u8),
        !is_brace_line(channels_line(style, joint), 123u8),
        !is_brace_line(channels_line(style, joint), 125u8),
{
    lemma_root_keyword();
    lemma_end_site_keyword();
    lemma_joint_keyword();
    lemma_offset_keyword();
    lemma_channels_keyword();
    lemma_prefix_is_blank(style, joint.depth);
    lemma_prefix_is_blank(style, joint.depth + 1);
    let outer = style.prefix(joint.depth).len() as int;
    let inner = style.prefix(joint.depth + 1).len() as int;
    assert(header_text(joint)[0] == 82 || header_text(joint)[0] == 69 || header_text(joint)[0]
        == 74);
    lemma_worded_line(header_line(style, joint), outer);
    assert(offset_text(joint.offset)[0] == 79);
    lemma_worded_line(offset_line(style, joint), inner);
    lemma_spaced_begins(channel_words(joint.channels));
    assert(channels_text(joint.channels)[0] == 67);
    lemma_worded_line(channels_line(style, joint), inner);
}

/// Among the first `n` opening lines of a joint, the second is an opening
/// brace and no other line is a brace.
pub proof fn lemma_opening_lines_braces(style: IndentStyle, joint: JointView, n: int)
    requires
        0 <= n <= opening_lines(style, joint).len(),
    ensures
        opening_braces(opening_lines(style, joint).take(n)) == if n >= 2 {
            1nat
        } else {
            0nat
        },
        closing_braces(opening_lines(style, joint).take(n)) == 0,
    decreases n,
{
    let lines = opening_lines(style, joint);
    if n > 0 {
        lemma_opening_lines_braces(style, joint, n - 1);
        lemma_brace_lines_step(lines, n, 123u8);
        lemma_brace_lines_step(lines, n, 125u8);
        lemma_joint_text_lines(style, joint);
        lemma_brace_alone(style, joint.depth);
    } else {
        assert(lines.take(0) =~= Seq::<Seq<u8>>::empty());
    }
}

/// The first `n` of a run of closing lines are closing braces.
pub proof fn lemma_closing_lines_braces(style: IndentStyle, depth: nat, count: nat, n: int)
    requires
        0 <= n <= count <= depth + 1,
    ensures
        opening_braces(closing_lines(style, depth, count).take(n)) == 0,
        closing_braces(closing_lines(style, depth, count).take(n)) == n,
    decreases n,
{
    let lines = closing_lines(style, depth, count);
    if n > 0 {
        lemma_closing_lines_braces(style, depth, count, n - 1);
        lemma_brace_lines_step(lines, n, 123u8);
        lemma_brace_lines_step(lines, n, 125u8);
        lemma_brace_alone(style, (depth - (n - 1)) as nat);
    } else {
        assert(lines.take(0) =~= Seq::<Seq<u8>>::empty());
    }
}

/// Among the first `n` lines of joint `j`, one brace opens from the second
/// line on, and the braces that close are the lines behind the opening lines.
pub proof fn lemma_joint_lines_braces(style: IndentStyle, model: BvhView, j: int, n: int)
    requires
        0 <= j < model.joints.len(),
        0 <= n <= model.joint_line_count(j),
        model.closers(j) <= model.joints[j].depth + 1,
    ensures
        brace_lines(joint_lines(style, model, j).take(n), 123u8) == if n >= 2 {
            1nat
        } else {
            0nat
        },
        brace_lines(joint_lines(style, model, j).take(n), 125u8) == if n
            >= model.opening_line_count(j) {
            n - model.opening_line_count(j)
        } else {
            0
        },
{
    let joint = model.joints[j];
    let opening = opening_lines(style, joint);
    let closing = closing_lines(style, joint.depth, model.closers(j));
    lemma_brace_lines_take(opening, closing, n, 123u8);
    lemma_brace_lines_take(opening, closing, n, 125u8);
    if n <= opening.len() {
        lemma_opening_lines_braces(style, joint, n);
    } else {
        lemma_brace_lines_whole(opening, 123u8);
        lemma_brace_lines_whole(opening, 125u8);
        lemma_opening_lines_braces(style, joint, opening.len() as int);
        lemma_closing_lines_braces(style, joint.depth, model.closers(j), n - opening.len());
    }
}

/// Among the lines of the first `count` joints of a nested skeleton, one
/// brace opens for each joint, and the braces that have not closed yet are
/// those of the blocks still open.
pub proof fn lemma_joints_lines_braces(style: IndentStyle, model: BvhView, count: nat)
    requires
        model.nested(),
        count <= model.joints.len(),
    ensures
        brace_lines(joints_lines(style, model, count), 123u8) == count,
        brace_lines(joints_lines(style, model, count), 125u8) + model.open_depth(count) == count,
    decreases count,
{
    if count == 0 {
    } else {
        let j = count - 1;
        let before = joints_lines(style, model, j as nat);
        let block = joint_lines(style, model, j);
        lemma_joints_lines_braces(style, model, j as nat);
        lemma_closers_nested(model, j);
        lemma_joint_lines_braces(style, model, j, block.len() as int);
        lemma_brace_lines_whole(block, 123u8);
        lemma_brace_lines_whole(block, 125u8);
        lemma_brace_lines_add(before, block, 123u8);
        lemma_brace_lines_add(before, block, 125u8);
    }
}

/// No beginning of the lines of the first `count` joints of a nested
/// skeleton closes more braces than it opens.
pub proof fn lemma_joints_lines_nest(style: IndentStyle, model: BvhView, count: nat, n: int)
    requires
        model.nested(),
        count <= model.joints.len(),
        0 <= n <= joints_lines(style, model, count).len(),
    ensures
        brace_lines(joints_lines(style, model, count).take(n), 125u8) <= brace_lines(
            joints_lines(style, model, count).take(n),
            123u8,
        ),
    decreases count,
{
    if count == 0 {
        lemma_brace_lines_whole(joints_lines(style, model, count), 123u8);
        lemma_brace_lines_whole(joints_lines(style, model, count), 125u8);
    } else {
        let j = count - 1;
        let before = joints_lines(style, model, j as nat);
        let block = joint_lines(style, model, j);
        lemma_brace_lines_take(before, block, n, 123u8);
        lemma_brace_lines_take(before, block, n, 125u8);
        if n <= before.len() {
            lemma_joints_lines_nest(style, model, j as nat, n);
        } else {
            lemma_joints_lines_braces(style, model, j as nat);
            lemma_closers_nested(model, j);
            lemma_joint_lines_braces(style, model, j, n - before.len());
        }
    }
}

/// No line of the motion is a brace, where the numbers are numerals.
pub proof fn lemma_motion_lines_braces(model: BvhView, n: int)
    requires
        model.numerals(),
        0 <= n <= motion_lines(model).len(),
    ensures
        opening_braces(motion_lines(model).take(n)) == 0,
        closing_braces(motion_lines(model).take(n)) == 0,
    decreases n,
{
    let lines = motion_lines(model);
    if n > 0 {
        lemma_motion_lines_braces(model, n - 1);
        lemma_brace_lines_step(lines, n, 123u8);
        lemma_brace_lines_step(lines, n, 125u8);
        let line = lines[n - 1];
        if n == 1 {
            lemma_motion_keyword();
            lemma_worded_line(line, 0);
        } else if n == 2 {
            lemma_frames_keyword();
            assert(frame_count_line(model)[0] == 70);
            lemma_worded_line(line, 0);
        } else if n == 3 {
            lemma_frame_time_keyword();
            assert(frame_time_line(model)[0] == 70);
            lemma_worded_line(line, 0);
        } else {
            let frame = model.frames[n - 4];
            assert(line == spaced(frame));
            if frame.len() > 0 {
                lemma_numeral_bytes(frame[0]);
                lemma_spaced_begins(frame);
                lemma_worded_line(line, 0);
            }
        }
    } else {
        assert(lines.take(0) =~= Seq::<Seq<u8>>::empty());
    }
}

/// No line of the keyword alone is a brace.
pub proof fn lemma_keyword_line_braces(n: int)
    requires
        0 <= n <= 1,
    ensures
        brace_lines(seq!["HIERARCHY".spec_bytes()].take(n), 123u8) == 0,
        brace_lines(seq!["HIERARCHY".spec_bytes()].take(n), 125u8) == 0,
{
    let keyword = seq!["HIERARCHY".spec_bytes()];
    lemma_hierarchy_keyword();
    lemma_worded_line("HIERARCHY".spec_bytes(), 0);
    lemma_brace_lines_whole(keyword, 123u8);
    lemma_brace_lines_whole(keyword, 125u8);
    if n == 1 {
        lemma_brace_lines_step(keyword, 1, 123u8);
        lemma_brace_lines_step(keyword, 1, 125u8);
    }
}

/// Among the first `n` lines of the hierarchy of a nested skeleton, no more
/// braces close than open, and in the whole hierarchy as many close as open.
pub proof fn lemma_hierarchy_lines_nest(style: IndentStyle, model: BvhView, n: int)
    requires
        model.nested(),
        0 <= n <= hierarchy_lines(style, model).len(),
    ensures
        brace_lines(hierarchy_lines(style, model).take(n), 125u8) <= brace_lines(
            hierarchy_lines(style, model).take(n),
            123u8,
        ),
        brace_lines(hierarchy_lines(style, model), 125u8) == brace_lines(
            hierarchy_lines(style, model),
            123u8,
        ),
{
    let keyword = seq!["HIERARCHY".spec_bytes()];
    let joints = joints_lines(style, model, model.joints.len());
    lemma_keyword_line_braces(1);
    lemma_brace_lines_whole(keyword, 123u8);
    lemma_brace_lines_whole(keyword, 125u8);
    lemma_joints_lines_braces(style, model, model.joints.len());
    lemma_brace_lines_add(keyword, joints, 123u8);
    lemma_brace_lines_add(keyword, joints, 125u8);
    lemma_brace_lines_take(keyword, joints, n, 123u8);
    lemma_brace_lines_take(keyword, joints, n, 125u8);
    if n <= 1 {
        lemma_keyword_line_braces(n);
    } else {
        lemma_joints_lines_nest(style, model, model.joints.len(), n - 1);
    }
}

} // verus!
