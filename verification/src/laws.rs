//! What holds of every document: how many lines it has, how its joints are
//! indented, that its braces nest, that its lines run out once and for all,
//! and that it is the document of one model only.

use crate::braces::{
    closing_braces, lemma_brace_lines_add, lemma_brace_lines_take, lemma_brace_lines_whole,
    lemma_hierarchy_lines_nest, lemma_motion_lines_braces, opening_braces,
};
use crate::indent::{repeated, IndentStyle};
use crate::layout::{
    lemma_closers_nested, lemma_document_layout, lemma_joint_line_at, lemma_joints_lines_len,
};
use crate::model::{BvhView, JointView};
use crate::producer::WriteOptionsIterState;
use crate::round_trip::{
    lemma_document_lines_fit, lemma_lines_determine_model, lemma_same_ending, lemma_same_style,
};
use crate::splitting::lemma_terminated_unique;
use crate::text::{
    channels_text, document_lines, header_text, hierarchy_lines, motion_lines, offset_text,
};
use crate::write::WriteOptions;
use vstd::prelude::*;

verus! {

/// The number of lines that a joint has for itself: its first line, the
/// opening brace, the offset, the channels unless it is an end site, and the
/// closing brace.
pub open spec fn own_line_count(joint: JointView) -> nat {
    if joint.is_end_site {
        4
    } else {
        5
    }
}

/// The number of lines that the first `count` joints have for themselves.
pub open spec fn own_lines(joints: Seq<JointView>, count: nat) -> nat
    decreases count,
{
    if count == 0 {
        0
    } else {
        own_lines(joints, (count - 1) as nat) + own_line_count(joints[count - 1])
    }
}

/// Of a nested skeleton, the lines of the first `count` joints are the lines
/// that these joints have for themselves, less one closing brace for each
/// block that is still open.
pub proof fn lemma_lines_before_nested(model: BvhView, count: nat)
    requires
        model.nested(),
        count <= model.joints.len(),
    ensures
        model.lines_before(count) + model.open_depth(count) == own_lines(model.joints, count),
    decreases count,
{
    if count > 0 {
        lemma_lines_before_nested(model, (count - 1) as nat);
        lemma_closers_nested(model, count - 1);
    }
}

/// The hierarchy of a nested skeleton has one line for the keyword and, for
/// each joint, its first line, an opening brace, the offset, the channels
/// unless the joint is an end site, and a closing brace.
pub proof fn lemma_hierarchy_line_count(style: IndentStyle, model: BvhView)
    requires
        model.nested(),
    ensures
        hierarchy_lines(style, model).len() == 1 + own_lines(model.joints, model.joints.len()),
{
    lemma_joints_lines_len(style, model, model.joints.len());
    lemma_lines_before_nested(model, model.joints.len());
}

/// The hierarchy of a skeleton of one joint has a line for the keyword, a line
/// for the root, and the opening brace, the offset, the channels unless the
/// joint is an end site, and the closing brace.
pub proof fn lemma_root_only_line_count(style: IndentStyle, model: BvhView)
    requires
        model.nested(),
        model.joints.len() == 1,
    ensures
        hierarchy_lines(style, model).len() == 1 + 1 + (1 + 1 + (if model.joints[0].is_end_site {
            0int
        } else {
            1int
        }) + 1),
{
    lemma_hierarchy_line_count(style, model);
    assert(own_lines(model.joints, 1) == own_lines(model.joints, 0) + own_line_count(
        model.joints[0],
    ));
}

/// The motion has three lines before the frames and one line for each frame.
pub proof fn lemma_motion_line_count(model: BvhView)
    ensures
        motion_lines(model).len() == 3 + model.frames.len(),
{
}

/// The document has the lines of the hierarchy and those of the motion.
pub proof fn lemma_document_line_count(style: IndentStyle, model: BvhView)
    requires
        model.nested(),
    ensures
        document_lines(style, model).len() == 1 + own_lines(model.joints, model.joints.len())
            + 3 + model.frames.len(),
{
    lemma_hierarchy_line_count(style, model);
}

/// Whatever the names and numbers are, the first line of joint `j` begins
/// with the indentation unit, once for each level of the joint's depth, and
/// goes on with the joint's own text. The braces of its block stand at the
/// same depth, its offset and channels one level deeper.
pub proof fn lemma_joint_indentation(style: IndentStyle, model: BvhView, j: nat)
    requires
        j < model.joints.len(),
    ensures
        ({
            let lines = document_lines(style, model);
            let start = model.joint_start(j) as int;
            let joint = model.joints[j as int];
            &&& start + 3 < lines.len()
            &&& lines[start] == repeated(style.unit(), joint.depth) + header_text(joint)
            &&& lines[start + 1] == repeated(style.unit(), joint.depth) + seq![123u8]
            &&& lines[start + 2] == repeated(style.unit(), joint.depth + 1) + offset_text(
                joint.offset,
            )
            &&& !joint.is_end_site ==> lines[start + 3] == repeated(
                style.unit(),
                joint.depth + 1,
            ) + channels_text(joint.channels)
        }),
{
    lemma_document_layout(style, model);
    lemma_joint_line_at(style, model, j, 0);
    lemma_joint_line_at(style, model, j, 1);
    lemma_joint_line_at(style, model, j, 2);
    if !model.joints[j as int].is_end_site {
        lemma_joint_line_at(style, model, j, 3);
    }
}

/// The braces of a document nest: as many lines close a block as open one,
/// and no beginning of the document closes more blocks than it has opened.
pub proof fn lemma_braces_balance(style: IndentStyle, model: BvhView)
    requires
        model.nested(),
        model.numerals(),
    ensures
        opening_braces(document_lines(style, model)) == closing_braces(
            document_lines(style, model),
        ),
        forall|n: int|
            0 <= n <= document_lines(style, model).len() ==> closing_braces(
                #[trigger] document_lines(style, model).take(n),
            ) <= opening_braces(document_lines(style, model).take(n)),
{
    let lines = document_lines(style, model);
    let hierarchy = hierarchy_lines(style, model);
    let motion = motion_lines(model);
    lemma_hierarchy_lines_nest(style, model, 0);
    lemma_brace_lines_whole(motion, 123u8);
    lemma_brace_lines_whole(motion, 125u8);
    lemma_motion_lines_braces(model, motion.len() as int);
    lemma_brace_lines_add(hierarchy, motion, 123u8);
    lemma_brace_lines_add(hierarchy, motion, 125u8);
    assert forall|n: int| 0 <= n <= lines.len() implies closing_braces(#[trigger] lines.take(n))
        <= opening_braces(lines.take(n)) by {
        lemma_brace_lines_take(hierarchy, motion, n, 123u8);
        lemma_brace_lines_take(hierarchy, motion, n, 125u8);
        if n <= hierarchy.len() {
            lemma_hierarchy_lines_nest(style, model, n);
        } else {
            lemma_motion_lines_braces(model, n - hierarchy.len());
        }
    }
}

/// Once a pull has handed out no line, every later pull hands out none
/// either, and leaves the cursor and the line buffer as the first one did.
pub proof fn lemma_exhaustion_lasts(
    options: WriteOptions,
    model: BvhView,
    start: WriteOptionsIterState,
    after_first: WriteOptionsIterState,
    first_line: Seq<u8>,
    first_more: bool,
    after_second: WriteOptionsIterState,
    second_line: Seq<u8>,
    second_more: bool,
)
    requires
        options.pulled(model, start, after_first, first_line, first_more),
        options.pulled(model, after_first, after_second, second_line, second_more),
        !first_more,
    ensures
        !second_more,
        after_second == start,
        second_line == first_line,
        second_line == Seq::<u8>::empty(),
{
}

/// A document is the document of one well-formed model only: two such models
/// that are written to the same bytes, under whatever options, are the same
/// model. So whatever reads a document back, and finds a well-formed model of
/// which it is the document, finds the model that was written.
pub proof fn lemma_document_determines_model(
    first: WriteOptions,
    a: BvhView,
    second: WriteOptions,
    b: BvhView,
)
    requires
        a.well_formed(),
        b.well_formed(),
        first.document(a) == second.document(b),
    ensures
        a == b,
{
    lemma_same_ending(first, a, second, b);
    lemma_document_lines_fit(first.indent, a);
    lemma_document_lines_fit(second.indent, b);
    lemma_terminated_unique(first.lines(a), second.lines(b), first.line_terminator.bytes());
    lemma_same_style(first.indent, a, second.indent, b);
    lemma_lines_determine_model(first.indent, a, b);
}

} // verus!
