//! The producer of lines: a cursor into the document that hands out one line
//! at each pull.

use crate::byte_string::{bstring_bytes, bstring_clear, bstring_push};
use crate::layout::{lemma_document_layout, lemma_joint_line_at};
use crate::model::{Bvh, BvhView};
use crate::text::{
    push_channels, push_close, push_decimal, push_frame, push_header, push_offset, push_open,
    push_text,
};
use crate::write::WriteOptions;
use bstr::BString;
use vstd::prelude::*;

verus! {

/// Which line of the hierarchy comes next.
#[derive(Clone, Copy, Debug, PartialEq, Eq)]
pub enum BoneLine {
    /// The keyword `HIERARCHY`, before the first joint.
    Hierarchy,
    /// The first line of the joint.
    Header,
    /// The brace that opens the joint's block.
    Open,
    /// The joint's offset.
    Offset,
    /// The joint's channels.
    Channels,
    /// A brace that closes a block after the joint.
    Close,
}

/// Which line of the motion comes next.
#[derive(Clone, Copy, Debug, PartialEq, Eq)]
pub enum MotionLine {
    /// The keyword `MOTION`.
    Motion,
    /// The number of frames.
    FrameCount,
    /// The frame time.
    FrameTime,
    /// The values of a frame.
    Values,
}

/// The cursor of a write: which line of the document comes next.
#[derive(Clone, Copy, Debug, PartialEq, Eq)]
pub enum WriteOptionsIterState {
    /// The next line belongs to the hierarchy.
    WriteBones {
        /// The joint that the next line belongs to.
        curr_bone: usize,
        /// Which line of that joint comes next.
        bone_line: BoneLine,
        /// Where `bone_line` is `Close`: the depth of the next closing brace. The
        /// braces still to come after the joint are those from this depth
        /// down to the depth of the joint that follows.
        close_depth: usize,
    },
    /// The next line belongs to the motion.
    WriteMotion {
        /// The frame that the next line of values belongs to.
        curr_frame: usize,
        /// Which line of the motion comes next.
        motion_line: MotionLine,
    },
}

impl WriteOptionsIterState {
    /// Whether the cursor points into the document for `model`, or just
    /// behind its last line.
    pub open spec fn valid_for(self, model: BvhView) -> bool {
        match self {
            WriteOptionsIterState::WriteBones { curr_bone, bone_line, close_depth } => match bone_line {
                BoneLine::Hierarchy => curr_bone == 0,
                BoneLine::Header | BoneLine::Open | BoneLine::Offset => curr_bone
                    < model.joints.len(),
                BoneLine::Channels => curr_bone < model.joints.len()
                    && !model.joints[curr_bone as int].is_end_site,
                BoneLine::Close => curr_bone < model.joints.len() && model.depth_after(
                    curr_bone as int,
                ) <= close_depth <= model.joints[curr_bone as int].depth,
            },
            WriteOptionsIterState::WriteMotion { curr_frame, motion_line } => match motion_line {
                MotionLine::Values => curr_frame <= model.frames.len(),
                _ => curr_frame == 0,
            },
        }
    }

    /// The index, among the lines of the document for `model`, of the line
    /// that comes next; the number of lines where none is left.
    pub open spec fn position(self, model: BvhView) -> nat {
        match self {
            WriteOptionsIterState::WriteBones { curr_bone, bone_line, close_depth } => {
                let start = model.joint_start(curr_bone as nat);
                let joint = model.joints[curr_bone as int];
                match bone_line {
                    BoneLine::Hierarchy => 0,
                    BoneLine::Header => start,
                    BoneLine::Open => start + 1,
                    BoneLine::Offset => start + 2,
                    BoneLine::Channels => start + 3,
                    BoneLine::Close => (start + model.opening_line_count(curr_bone as int)
                        + joint.depth - close_depth) as nat,
                }
            },
            WriteOptionsIterState::WriteMotion { curr_frame, motion_line } => {
                model.hierarchy_line_count() + match motion_line {
                    MotionLine::Motion => 0,
                    MotionLine::FrameCount => 1,
                    MotionLine::FrameTime => 2,
                    MotionLine::Values => 3 + curr_frame as nat,
                }
            },
        }
    }

    /// Whether a pull hands out a line.
    pub open spec fn has_next(self, model: BvhView) -> bool {
        match self {
            WriteOptionsIterState::WriteBones { curr_bone, bone_line, close_depth } => bone_line
                == BoneLine::Hierarchy || curr_bone < model.joints.len(),
            WriteOptionsIterState::WriteMotion { curr_frame, motion_line } => motion_line
                != MotionLine::Values || curr_frame < model.frames.len(),
        }
    }

    /// The cursor at the first line of the document for `bvh`.
    pub fn new(bvh: &Bvh) -> (state: Self)
        ensures
            state == (WriteOptionsIterState::WriteBones {
                curr_bone: 0,
                bone_line: BoneLine::Hierarchy,
                close_depth: 0,
            }),
            state.valid_for(bvh@),
            state.position(bvh@) == 0,
    {
        WriteOptionsIterState::WriteBones {
            curr_bone: 0,
            bone_line: BoneLine::Hierarchy,
            close_depth: 0,
        }
    }

    /// The cursor at the first line of the motion.
    fn motion_start(bvh: &Bvh) -> (state: Self)
        ensures
            state.valid_for(bvh@),
            state.position(bvh@) == bvh@.hierarchy_line_count(),
    {
        WriteOptionsIterState::WriteMotion { curr_frame: 0, motion_line: MotionLine::Motion }
    }

    /// The cursor behind the last line of joint `j`.
    fn after_joint(bvh: &Bvh, j: usize) -> (state: Self)
        requires
            j < bvh@.joints.len(),
        ensures
            state.valid_for(bvh@),
            state.position(bvh@) == bvh@.joint_start((j + 1) as nat),
    {
        let count = bvh.joints.len();
        if j + 1 < count {
            WriteOptionsIterState::WriteBones {
                curr_bone: j + 1,
                bone_line: BoneLine::Header,
                close_depth: 0,
            }
        } else {
            Self::motion_start(bvh)
        }
    }

    /// The cursor behind the opening lines of joint `j`: at the first brace
    /// that closes after it, or at the next joint where none does.
    fn after_opening(bvh: &Bvh, j: usize) -> (state: Self)
        requires
            j < bvh@.joints.len(),
        ensures
            state.valid_for(bvh@),
            state.position(bvh@) == bvh@.joint_start(j as nat) + bvh@.opening_line_count(
                j as int,
            ),
    {
        let depth = bvh.joints[j].depth;
        if depth_after(bvh, j) <= depth {
            WriteOptionsIterState::WriteBones {
                curr_bone: j,
                bone_line: BoneLine::Close,
                close_depth: depth,
            }
        } else {
            Self::after_joint(bvh, j)
        }
    }
}

/// The depth of the joint that follows joint `j`; 0 after the last joint.
fn depth_after(bvh: &Bvh, j: usize) -> (depth: usize)
    requires
        j < bvh@.joints.len(),
    ensures
        depth == bvh@.depth_after(j as int),
{
    let count = bvh.joints.len();
    if j + 1 < count {
        bvh.joints[j + 1].depth
    } else {
        0
    }
}

impl WriteOptions {
    /// What a pull does: with the cursor at `before`, it answers `more`,
    /// leaves `line` in the line buffer and the cursor at `after`.
    ///
    /// Whether a line is left depends on the cursor alone. Where none is, the
    /// buffer is empty and the cursor stays. Where the cursor is valid for
    /// the model, the line is the next line of the document with its line
    /// ending, and the cursor moves behind it.
    pub open spec fn pulled(
        self,
        model: BvhView,
        before: WriteOptionsIterState,
        after: WriteOptionsIterState,
        line: Seq<u8>,
        more: bool,
    ) -> bool {
        &&& more == before.has_next(model)
        &&& !more ==> after == before && line == Seq::<u8>::empty()
        &&& before.valid_for(model) ==> {
            let at = before.position(model);
            &&& after.valid_for(model)
            &&& at <= self.lines(model).len()
            &&& more == (at < self.lines(model).len())
            &&& more ==> line == self.lines(model)[at as int] + self.line_terminator.bytes()
            &&& more ==> after.position(model) == at + 1
        }
    }

    /// Pulls the next line of the document for `bvh` into `line`, with its
    /// line ending, and moves the cursor behind it.
    ///
    /// Returns `true` where a line was left. Otherwise `line` is empty and the
    /// cursor stays as it is, so that every later pull answers the same.
    pub fn next_line(
        &self,
        bvh: &Bvh,
        line: &mut BString,
        iter_state: &mut WriteOptionsIterState,
    ) -> (more: bool)
        ensures
            self.pulled(
                bvh@,
                *old(iter_state),
                *final(iter_state),
                bstring_bytes(*final(line)),
                more,
            ),
    {
        let state = *iter_state;
        let ghost model = bvh@;
        proof {
            lemma_document_layout(self.indent, model);
        }
        bstring_clear(line);
        let next = match state {
            WriteOptionsIterState::WriteBones { curr_bone, bone_line: which, close_depth } => {
                if let BoneLine::Hierarchy = which {
                    push_text(line, "HIERARCHY");
                    if bvh.joints.len() == 0 {
                        WriteOptionsIterState::motion_start(bvh)
                    } else {
                        WriteOptionsIterState::WriteBones {
                            curr_bone: 0,
                            bone_line: BoneLine::Header,
                            close_depth: 0,
                        }
                    }
                } else {
                    if curr_bone >= bvh.joints.len() {
                        return false;
                    }
                    let joint = &bvh.joints[curr_bone];
                    assert(joint@ == model.joints[curr_bone as int]);
                    match which {
                        // The keyword was dealt with above.
                        BoneLine::Hierarchy | BoneLine::Header => {
                            push_header(line, &self.indent, joint);
                            proof {
                                lemma_joint_line_at(self.indent, model, curr_bone as nat, 0);
                            }
                            WriteOptionsIterState::WriteBones {
                                curr_bone,
                                bone_line: BoneLine::Open,
                                close_depth: 0,
                            }
                        },
                        BoneLine::Open => {
                            push_open(line, &self.indent, joint.depth);
                            proof {
                                lemma_joint_line_at(self.indent, model, curr_bone as nat, 1);
                            }
                            WriteOptionsIterState::WriteBones {
                                curr_bone,
                                bone_line: BoneLine::Offset,
                                close_depth: 0,
                            }
                        },
                        BoneLine::Offset => {
                            push_offset(line, &self.indent, joint);
                            proof {
                                lemma_joint_line_at(self.indent, model, curr_bone as nat, 2);
                            }
                            if joint.is_end_site {
                                WriteOptionsIterState::after_opening(bvh, curr_bone)
                            } else {
                                WriteOptionsIterState::WriteBones {
                                    curr_bone,
                                    bone_line: BoneLine::Channels,
                                    close_depth: 0,
                                }
                            }
                        },
                        BoneLine::Channels => {
                            push_channels(line, &self.indent, joint);
                            proof {
                                if !joint.is_end_site {
                                    lemma_joint_line_at(self.indent, model, curr_bone as nat, 3);
                                }
                            }
                            WriteOptionsIterState::after_opening(bvh, curr_bone)
                        },
                        BoneLine::Close => {
                            push_close(line, &self.indent, close_depth);
                            proof {
                                if state.valid_for(model) {
                                    lemma_joint_line_at(
                                        self.indent,
                                        model,
                                        curr_bone as nat,
                                        model.opening_line_count(curr_bone as int) + joint.depth
                                            - close_depth,
                                    );
                                }
                            }
                            if close_depth > depth_after(bvh, curr_bone) {
                                WriteOptionsIterState::WriteBones {
                                    curr_bone,
                                    bone_line: BoneLine::Close,
                                    close_depth: close_depth - 1,
                                }
                            } else {
                                WriteOptionsIterState::after_joint(bvh, curr_bone)
                            }
                        },
                    }
                }
            },
            WriteOptionsIterState::WriteMotion { curr_frame, motion_line: which } => match which {
                MotionLine::Motion => {
                    push_text(line, "MOTION");
                    WriteOptionsIterState::WriteMotion {
                        curr_frame,
                        motion_line: MotionLine::FrameCount,
                    }
                },
                MotionLine::FrameCount => {
                    push_text(line, "Frames: ");
                    push_decimal(line, bvh.frames.len());
                    WriteOptionsIterState::WriteMotion {
                        curr_frame,
                        motion_line: MotionLine::FrameTime,
                    }
                },
                MotionLine::FrameTime => {
                    push_text(line, "Frame Time: ");
                    bstring_push(line, bvh.frame_time.as_bytes());
                    WriteOptionsIterState::WriteMotion {
                        curr_frame,
                        motion_line: MotionLine::Values,
                    }
                },
                MotionLine::Values => {
                    if curr_frame >= bvh.frames.len() {
                        return false;
                    }
                    push_frame(line, &bvh.frames[curr_frame]);
                    WriteOptionsIterState::WriteMotion {
                        curr_frame: curr_frame + 1,
                        motion_line: MotionLine::Values,
                    }
                },
            },
        };
        bstring_push(line, self.line_terminator.as_str().as_bytes());
        *iter_state = next;
        true
    }
}

} // verus!
