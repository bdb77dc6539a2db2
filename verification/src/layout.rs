//! Where each line of a document lies: the index of a joint's first line, and
//! the lines that stand at given indices.

use crate::indent::IndentStyle;
use crate::model::BvhView;
use crate::text::{
    document_lines, hierarchy_lines, joint_lines, joints_lines, motion_lines,
};
use vstd::prelude::*;

verus! {

impl BvhView {
    /// The number of lines that the first `count` joints contribute together.
    pub open spec fn lines_before(self, count: nat) -> nat
        decreases count,
    {
        if count == 0 {
            0
        } else {
            self.lines_before((count - 1) as nat) + self.joint_line_count(count - 1)
        }
    }

    /// The index, among the lines of the document, of the first line of
    /// joint `j`.
    pub open spec fn joint_start(self, j: nat) -> nat {
        1 + self.lines_before(j)
    }

    /// The number of lines of the hierarchy.
    pub open spec fn hierarchy_line_count(self) -> nat {
        1 + self.lines_before(self.joints.len())
    }

    /// The number of lines of the motion.
    pub open spec fn motion_line_count(self) -> nat {
        3 + self.frames.len()
    }
}

/// A joint contributes as many lines as `joint_line_count` says.
pub proof fn lemma_joint_lines_len(style: IndentStyle, model: BvhView, j: int)
    requires
        0 <= j < model.joints.len(),
    ensures
        joint_lines(style, model, j).len() == model.joint_line_count(j),
{
}

/// The first `count` joints contribute `lines_before(count)` lines.
pub proof fn lemma_joints_lines_len(style: IndentStyle, model: BvhView, count: nat)
    requires
        count <= model.joints.len(),
    ensures
        joints_lines(style, model, count).len() == model.lines_before(count),
    decreases count,
{
    if count > 0 {
        lemma_joints_lines_len(style, model, (count - 1) as nat);
        lemma_joint_lines_len(style, model, count - 1);
    }
}

/// The lines of joint `j` stand together among the lines of the first `count`
/// joints, from index `lines_before(j)` on.
pub proof fn lemma_joint_line_in_prefix(
    style: IndentStyle,
    model: BvhView,
    j: nat,
    i: int,
    count: nat,
)
    requires
        j < count <= model.joints.len(),
        0 <= i < model.joint_line_count(j as int),
    ensures
        model.lines_before(j) + model.joint_line_count(j as int) <= model.lines_before(count),
        joints_lines(style, model, count)[model.lines_before(j) + i] == joint_lines(
            style,
            model,
            j as int,
        )[i],
    decreases count,
{
    lemma_joints_lines_len(style, model, (count - 1) as nat);
    lemma_joint_lines_len(style, model, count - 1);
    if j + 1 < count {
        lemma_joint_line_in_prefix(style, model, j, i, (count - 1) as nat);
    }
}

/// The `i`-th line of joint `j` stands in the document at index
/// `joint_start(j) + i`, inside the hierarchy.
pub proof fn lemma_joint_line_at(style: IndentStyle, model: BvhView, j: nat, i: int)
    requires
        j < model.joints.len(),
        0 <= i < model.joint_line_count(j as int),
    ensures
        model.joint_start(j) + i < model.hierarchy_line_count(),
        model.joint_start(j) + model.joint_line_count(j as int) == model.joint_start(j + 1),
        model.joint_start(j + 1) <= model.hierarchy_line_count(),
        document_lines(style, model)[model.joint_start(j) + i] == joint_lines(
            style,
            model,
            j as int,
        )[i],
{
    lemma_joint_line_in_prefix(style, model, j, i, model.joints.len());
    lemma_joints_lines_len(style, model, model.joints.len());
    lemma_lines_before_grows(model, j + 1, model.joints.len());
}

/// More joints contribute at least as many lines.
pub proof fn lemma_lines_before_grows(model: BvhView, fewer: nat, more: nat)
    requires
        fewer <= more,
    ensures
        model.lines_before(fewer) <= model.lines_before(more),
    decreases more,
{
    if fewer < more {
        lemma_lines_before_grows(model, fewer, (more - 1) as nat);
    }
}

/// The hierarchy and the motion have the lengths that `hierarchy_line_count`
/// and `motion_line_count` say, and the motion follows the hierarchy.
pub proof fn lemma_document_layout(style: IndentStyle, model: BvhView)
    ensures
        hierarchy_lines(style, model).len() == model.hierarchy_line_count(),
        motion_lines(model).len() == model.motion_line_count(),
        document_lines(style, model).len() == model.hierarchy_line_count()
            + model.motion_line_count(),
        forall|i: int|
            0 <= i < model.hierarchy_line_count() ==> #[trigger] document_lines(style, model)[i]
                == hierarchy_lines(style, model)[i],
        forall|i: int|
            0 <= i < model.motion_line_count() ==> document_lines(
                style,
                model,
            )[model.hierarchy_line_count() + i] == #[trigger] motion_lines(model)[i],
{
    lemma_joints_lines_len(style, model, model.joints.len());
}

impl BvhView {
    /// The number of blocks that are open where joint `count` begins: its
    /// depth, or none behind the last joint.
    pub open spec fn open_depth(self, count: nat) -> nat {
        if count < self.joints.len() {
            self.joints[count as int].depth
        } else {
            0
        }
    }
}

/// Of a nested skeleton, the blocks that close after joint `j` are its own
/// and those between its depth and the depth of the next joint.
pub proof fn lemma_closers_nested(model: BvhView, j: int)
    requires
        model.nested(),
        0 <= j < model.joints.len(),
    ensures
        model.closers(j) + model.depth_after(j) == model.joints[j].depth + 1,
        model.open_depth(j as nat) == model.joints[j].depth,
        model.open_depth((j + 1) as nat) == model.depth_after(j),
        model.open_depth(0) == 0,
{
    if j + 1 < model.joints.len() {
        assert(model.depth_after(j) <= model.joints[j].depth + 1);
    }
    if j > 0 {
        assert(model.depth_after(j - 1) == model.joints[j].depth);
    }
}

} // verus!
