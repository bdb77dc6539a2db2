//! The skeleton and its motion, as the writer reads them.
//!
//! The joints of a skeleton stand in one list, in pre-order: a joint comes
//! before its children, and each joint carries its nesting depth. Numbers are
//! held as the decimal numerals that stand in the file.

use vstd::prelude::*;
use vstd::string::StringSliceAdditionalSpecFns;

verus! {

/// One animated degree of freedom of a joint.
#[derive(Clone, Copy, Debug, PartialEq, Eq, Hash)]
pub enum ChannelKind {
    /// The position along the x axis.
    PositionX,
    /// The position along the y axis.
    PositionY,
    /// The position along the z axis.
    PositionZ,
    /// The rotation about the x axis.
    RotationX,
    /// The rotation about the y axis.
    RotationY,
    /// The rotation about the z axis.
    RotationZ,
}

impl ChannelKind {
    /// The word that names the channel in a `CHANNELS` line.
    pub open spec fn token(self) -> Seq<u8> {
        match self {
            ChannelKind::PositionX => "Xposition".spec_bytes(),
            ChannelKind::PositionY => "Yposition".spec_bytes(),
            ChannelKind::PositionZ => "Zposition".spec_bytes(),
            ChannelKind::RotationX => "Xrotation".spec_bytes(),
            ChannelKind::RotationY => "Yrotation".spec_bytes(),
            ChannelKind::RotationZ => "Zrotation".spec_bytes(),
        }
    }

    /// The word that names the channel in a `CHANNELS` line.
    pub fn as_str(&self) -> (text: &'static str)
        ensures
            text.spec_bytes() == self.token(),
    {
        match self {
            ChannelKind::PositionX => "Xposition",
            ChannelKind::PositionY => "Yposition",
            ChannelKind::PositionZ => "Zposition",
            ChannelKind::RotationX => "Xrotation",
            ChannelKind::RotationY => "Yrotation",
            ChannelKind::RotationZ => "Zrotation",
        }
    }
}

/// Whether the byte is an ASCII digit.
pub open spec fn is_digit(b: u8) -> bool {
    48 <= b <= 57
}

/// Whether the bytes are one or more ASCII digits.
pub open spec fn all_digits(s: Seq<u8>) -> bool {
    s.len() > 0 && forall|i: int| 0 <= i < s.len() ==> is_digit(#[trigger] s[i])
}

/// Whether the bytes are digits, or digits, a point and digits.
pub open spec fn is_unsigned_numeral(s: Seq<u8>) -> bool {
    all_digits(s) || exists|k: int|
        0 <= k < s.len() && #[trigger] s[k] == 46 && all_digits(s.take(k)) && all_digits(
            s.skip(k + 1),
        )
}

/// Whether the bytes are a decimal numeral: an optional minus sign, digits,
/// and optionally a point and more digits.
pub open spec fn is_numeral(s: Seq<u8>) -> bool {
    is_unsigned_numeral(s) || (s.len() > 0 && s[0] == 45 && is_unsigned_numeral(s.skip(1)))
}

/// Where digits, a point and digits make up the bytes, the point is the only
/// byte that is no digit, and it stands neither first nor last.
proof fn lemma_point_splits(s: Seq<u8>, k: int)
    requires
        0 <= k < s.len(),
        s[k] == 46,
        all_digits(s.take(k)),
        all_digits(s.skip(k + 1)),
    ensures
        0 < k,
        k + 1 < s.len(),
        forall|i: int| 0 <= i < s.len() && i != k ==> is_digit(#[trigger] s[i]),
{
    assert forall|i: int| 0 <= i < s.len() && i != k implies is_digit(#[trigger] s[i]) by {
        if i < k {
            assert(s.take(k)[i] == s[i]);
        } else {
            assert(s.skip(k + 1)[i - k - 1] == s[i]);
        }
    }
}

/// An unsigned numeral has no byte but digits and one point, and the point
/// stands between digits.
pub proof fn lemma_unsigned_numeral_shape(s: Seq<u8>, at: int)
    requires
        is_unsigned_numeral(s),
        0 <= at < s.len(),
    ensures
        is_digit(s[at]) || s[at] == 46,
        s[at] == 46 ==> 0 < at && at + 1 < s.len() && forall|i: int|
            0 <= i < s.len() && i != at ==> is_digit(#[trigger] s[i]),
{
    if !all_digits(s) {
        let k = choose|k: int|
            0 <= k < s.len() && #[trigger] s[k] == 46 && all_digits(s.take(k)) && all_digits(
                s.skip(k + 1),
            );
        lemma_point_splits(s, k);
    }
}

/// Whether the bytes from `start` on are an unsigned numeral.
fn check_unsigned_numeral(s: &[u8], start: usize) -> (ok: bool)
    requires
        start <= s@.len(),
    ensures
        ok == is_unsigned_numeral(s@.skip(start as int)),
{
    let ghost body = s@.skip(start as int);
    let mut i: usize = start;
    while i < s.len() && 48 <= s[i] && s[i] <= 57
        invariant
            start <= i <= s@.len(),
            body == s@.skip(start as int),
            forall|k: int| 0 <= k < i - start ==> is_digit(#[trigger] body[k]),
        decreases s@.len() - i,
    {
        assert(body[i - start] == s@[i as int]);
        i += 1;
    }
    let ghost dot = i - start;
    if i == s.len() {
        return i > start;
    }
    assert(body[dot] == s@[i as int]);
    if i == start || s[i] != 46 {
        proof {
            if is_unsigned_numeral(body) {
                lemma_unsigned_numeral_shape(body, dot);
            }
        }
        return false;
    }
    let mut j: usize = i + 1;
    while j < s.len() && 48 <= s[j] && s[j] <= 57
        invariant
            i < j <= s@.len(),
            start < i,
            dot == i - start,
            body == s@.skip(start as int),
            body[dot] == 46,
            forall|k: int| 0 <= k < dot ==> is_digit(#[trigger] body[k]),
            forall|k: int| dot < k < j - start ==> is_digit(#[trigger] body[k]),
        decreases s@.len() - j,
    {
        assert(body[j - start] == s@[j as int]);
        j += 1;
    }
    if j == s.len() && j > i + 1 {
        proof {
            assert(all_digits(body.take(dot)));
            assert(all_digits(body.skip(dot + 1)));
        }
        true
    } else {
        proof {
            if is_unsigned_numeral(body) {
                lemma_unsigned_numeral_shape(body, dot);
                if j < s.len() {
                    assert(body[j - start] == s@[j as int]);
                }
            }
        }
        false
    }
}

/// Whether the bytes are a decimal numeral.
pub fn check_numeral(s: &[u8]) -> (ok: bool)
    ensures
        ok == is_numeral(s@),
{
    if s.len() > 0 && s[0] == 45 {
        proof {
            if is_unsigned_numeral(s@) {
                lemma_unsigned_numeral_shape(s@, 0);
            }
        }
        check_unsigned_numeral(s, 1)
    } else {
        proof {
            assert(s@.skip(0) =~= s@);
        }
        check_unsigned_numeral(s, 0)
    }
}

/// A number as it stands in a file: the text of a decimal numeral. A value of
/// floating point is held as the numeral that is written for it.
#[derive(Clone, Debug, PartialEq, Eq, Hash)]
pub struct Number {
    /// The numeral, byte by byte.
    pub text: Vec<u8>,
}

impl View for Number {
    type V = Seq<u8>;

    open spec fn view(&self) -> Seq<u8> {
        self.text@
    }
}

impl Number {
    /// The number with this text, where the text is a decimal numeral.
    pub fn new(text: Vec<u8>) -> (number: Option<Number>)
        ensures
            number.is_some() == is_numeral(text@),
            number.is_some() ==> number.unwrap()@ == text@,
    {
        if check_numeral(text.as_slice()) {
            Some(Number { text })
        } else {
            None
        }
    }

    /// The text of the number.
    pub fn as_bytes(&self) -> (text: &[u8])
        ensures
            text@ == self@,
    {
        self.text.as_slice()
    }
}

/// The position of a joint relative to its parent.
#[derive(Clone, Debug, PartialEq, Eq, Hash)]
pub struct Offset {
    /// Along the x axis.
    pub x: Number,
    /// Along the y axis.
    pub y: Number,
    /// Along the z axis.
    pub z: Number,
}

/// What an [`Offset`] stands for: the three numerals.
pub struct OffsetView {
    pub x: Seq<u8>,
    pub y: Seq<u8>,
    pub z: Seq<u8>,
}

impl View for Offset {
    type V = OffsetView;

    open spec fn view(&self) -> OffsetView {
        OffsetView { x: self.x@, y: self.y@, z: self.z@ }
    }
}

/// One joint of the skeleton, or the end site that closes a chain of joints.
#[derive(Clone, Debug, PartialEq, Eq, Hash)]
pub struct Joint {
    /// The name; an end site has none that is written.
    pub name: Vec<u8>,
    /// The nesting depth: 0 for the root, one more than the parent's otherwise.
    pub depth: usize,
    /// The position relative to the parent.
    pub offset: Offset,
    /// The channels, in the order of their values in a frame.
    pub channels: Vec<ChannelKind>,
    /// Whether this is an end site: a leaf with an offset and no channels.
    pub is_end_site: bool,
}

/// What a [`Joint`] stands for.
pub struct JointView {
    pub name: Seq<u8>,
    pub depth: nat,
    pub offset: OffsetView,
    pub channels: Seq<ChannelKind>,
    pub is_end_site: bool,
}

impl View for Joint {
    type V = JointView;

    open spec fn view(&self) -> JointView {
        JointView {
            name: self.name@,
            depth: self.depth as nat,
            offset: self.offset@,
            channels: self.channels@,
            is_end_site: self.is_end_site,
        }
    }
}

/// A skeleton with its motion.
#[derive(Clone, Debug, PartialEq, Eq, Hash)]
pub struct Bvh {
    /// The joints in pre-order.
    pub joints: Vec<Joint>,
    /// The time between two frames, in seconds.
    pub frame_time: Number,
    /// The frames, each with one value for each channel of the skeleton, joint
    /// by joint.
    pub frames: Vec<Vec<Number>>,
}

/// What a [`Bvh`] stands for.
pub struct BvhView {
    pub joints: Seq<JointView>,
    pub frame_time: Seq<u8>,
    pub frames: Seq<Seq<Seq<u8>>>,
}

/// The numerals of the numbers, in order.
pub open spec fn numerals_of(values: Seq<Number>) -> Seq<Seq<u8>> {
    values.map_values(|n: Number| n@)
}

impl View for Bvh {
    type V = BvhView;

    open spec fn view(&self) -> BvhView {
        BvhView {
            joints: self.joints@.map_values(|j: Joint| j@),
            frame_time: self.frame_time@,
            frames: self.frames@.map_values(|f: Vec<Number>| numerals_of(f@)),
        }
    }
}

/// The number of channels of the first `count` joints together.
pub open spec fn channel_count(joints: Seq<JointView>, count: nat) -> nat
    decreases count,
{
    if count == 0 {
        0
    } else {
        channel_count(joints, (count - 1) as nat) + joints[count - 1].channels.len()
    }
}

impl OffsetView {
    /// Whether the three values are decimal numerals.
    pub open spec fn well_formed(self) -> bool {
        is_numeral(self.x) && is_numeral(self.y) && is_numeral(self.z)
    }
}

impl BvhView {
    /// The depth of the joint that follows joint `j`; 0 after the last joint.
    pub open spec fn depth_after(self, j: int) -> nat {
        if j + 1 < self.joints.len() {
            self.joints[j + 1].depth
        } else {
            0
        }
    }

    /// The number of channels of the whole skeleton.
    pub open spec fn channel_total(self) -> nat {
        channel_count(self.joints, self.joints.len())
    }

    /// The depths are those of a tree in pre-order: the first joint is the
    /// only one at depth 0, and a joint lies at most one level below the joint
    /// before it.
    pub open spec fn nested(self) -> bool {
        &&& self.joints.len() > 0 ==> self.joints[0].depth == 0
        &&& forall|j: int|
            0 <= j && j + 1 < self.joints.len() ==> 1 <= (#[trigger] self.depth_after(j))
                <= self.joints[j].depth + 1
    }

    /// Joint `j`, where it is an end site, has no name and no channels, and is
    /// the last child of its parent: the joint after it, if any, lies above it.
    pub open spec fn end_site_closes(self, j: int) -> bool {
        self.joints[j].is_end_site ==> {
            &&& self.joints[j].name.len() == 0
            &&& self.joints[j].channels.len() == 0
            &&& self.depth_after(j) < self.joints[j].depth
        }
    }

    /// Every end site has no name and no channels, and closes the block of
    /// its parent.
    pub open spec fn end_sites_close(self) -> bool {
        forall|j: int| 0 <= j < self.joints.len() ==> #[trigger] self.end_site_closes(j)
    }

    /// No name holds a line feed.
    pub open spec fn names_fit_lines(self) -> bool {
        forall|j: int, i: int|
            0 <= j < self.joints.len() && 0 <= i < self.joints[j].name.len()
                ==> #[trigger] self.joints[j].name[i] != 10
    }

    /// Every frame holds one value for each channel of the skeleton.
    pub open spec fn frames_complete(self) -> bool {
        forall|f: int|
            0 <= f < self.frames.len() ==> (#[trigger] self.frames[f]).len()
                == self.channel_total()
    }

    /// Every number is a decimal numeral.
    pub open spec fn numerals(self) -> bool {
        &&& is_numeral(self.frame_time)
        &&& forall|j: int|
            0 <= j < self.joints.len() ==> (#[trigger] self.joints[j]).offset.well_formed()
        &&& forall|f: int, i: int|
            0 <= f < self.frames.len() && 0 <= i < self.frames[f].len() ==> is_numeral(
                #[trigger] self.frames[f][i],
            )
    }

    /// The model is one that a BVH file describes.
    pub open spec fn well_formed(self) -> bool {
        &&& self.nested()
        &&& self.end_sites_close()
        &&& self.names_fit_lines()
        &&& self.frames_complete()
        &&& self.numerals()
    }
}

/// More joints have at least as many channels.
proof fn lemma_channel_count_grows(joints: Seq<JointView>, fewer: nat, more: nat)
    requires
        fewer <= more,
    ensures
        channel_count(joints, fewer) <= channel_count(joints, more),
    decreases more,
{
    if fewer < more {
        lemma_channel_count_grows(joints, fewer, (more - 1) as nat);
    }
}

/// Whether every number of the frame is a decimal numeral.
fn check_frame_numerals(frame: &Vec<Number>) -> (ok: bool)
    ensures
        ok == forall|i: int| 0 <= i < frame@.len() ==> is_numeral(#[trigger] numerals_of(frame@)[i]),
{
    let mut i: usize = 0;
    while i < frame.len()
        invariant
            i <= frame@.len(),
            forall|k: int| 0 <= k < i ==> is_numeral(#[trigger] numerals_of(frame@)[k]),
        decreases frame@.len() - i,
    {
        if !check_numeral(frame[i].as_bytes()) {
            assert(!is_numeral(numerals_of(frame@)[i as int]));
            return false;
        }
        i += 1;
    }
    true
}

impl Bvh {
    /// Whether the depths are those of a tree in pre-order.
    fn check_nested(&self) -> (ok: bool)
        ensures
            ok == self@.nested(),
    {
        let ghost model = self@;
        let count = self.joints.len();
        if count == 0 {
            return true;
        }
        if self.joints[0].depth != 0 {
            assert(model.joints[0].depth != 0);
            return false;
        }
        let mut j: usize = 0;
        while j + 1 < count
            invariant
                j < count,
                count == self.joints@.len(),
                model == self@,
                model.joints[0].depth == 0,
                forall|k: int|
                    0 <= k < j ==> 1 <= (#[trigger] model.depth_after(k))
                        <= model.joints[k].depth + 1,
            decreases count - j,
        {
            let depth = self.joints[j + 1].depth;
            assert(model.depth_after(j as int) == depth);
            assert(model.joints[j as int].depth == self.joints@[j as int].depth);
            if depth < 1 || depth - 1 > self.joints[j].depth {
                return false;
            }
            j += 1;
        }
        true
    }

    /// Whether every end site has no name and no channels, and closes its
    /// parent's block.
    fn check_end_sites(&self) -> (ok: bool)
        ensures
            ok == self@.end_sites_close(),
    {
        let ghost model = self@;
        let count = self.joints.len();
        let mut j: usize = 0;
        while j < count
            invariant
                j <= count,
                count == self.joints@.len(),
                model == self@,
                forall|k: int| 0 <= k < j ==> #[trigger] model.end_site_closes(k),
            decreases count - j,
        {
            let joint = &self.joints[j];
            assert(model.joints[j as int] == joint@);
            if joint.is_end_site {
                let next: usize = if j + 1 < count {
                    self.joints[j + 1].depth
                } else {
                    0
                };
                assert(model.depth_after(j as int) == next);
                if joint.name.len() != 0 || joint.channels.len() != 0 || next >= joint.depth {
                    assert(!model.end_site_closes(j as int));
                    return false;
                }
            }
            assert(model.end_site_closes(j as int));
            j += 1;
        }
        true
    }

    /// Whether no name holds a line feed.
    fn check_names(&self) -> (ok: bool)
        ensures
            ok == self@.names_fit_lines(),
    {
        let ghost model = self@;
        let mut j: usize = 0;
        while j < self.joints.len()
            invariant
                j <= self.joints@.len(),
                model == self@,
                forall|k: int, i: int|
                    0 <= k < j && 0 <= i < model.joints[k].name.len()
                        ==> #[trigger] model.joints[k].name[i] != 10,
            decreases self.joints@.len() - j,
        {
            let name = &self.joints[j].name;
            assert(model.joints[j as int].name == name@);
            let mut i: usize = 0;
            while i < name.len()
                invariant
                    i <= name@.len(),
                    j < self.joints@.len(),
                    model == self@,
                    model.joints[j as int].name == name@,
                    forall|k: int| 0 <= k < i ==> #[trigger] model.joints[j as int].name[k] != 10,
                decreases name@.len() - i,
            {
                if name[i] == 10 {
                    assert(model.joints[j as int].name[i as int] == 10);
                    return false;
                }
                i += 1;
            }
            j += 1;
        }
        true
    }

    /// Whether every number of the model is a decimal numeral.
    fn check_numerals(&self) -> (ok: bool)
        ensures
            ok == self@.numerals(),
    {
        let ghost model = self@;
        if !check_numeral(self.frame_time.as_bytes()) {
            return false;
        }
        let mut j: usize = 0;
        while j < self.joints.len()
            invariant
                j <= self.joints@.len(),
                model == self@,
                forall|k: int| 0 <= k < j ==> (#[trigger] model.joints[k]).offset.well_formed(),
            decreases self.joints@.len() - j,
        {
            let offset = &self.joints[j].offset;
            if !(check_numeral(offset.x.as_bytes()) && check_numeral(offset.y.as_bytes())
                && check_numeral(offset.z.as_bytes())) {
                assert(!model.joints[j as int].offset.well_formed());
                return false;
            }
            j += 1;
        }
        let mut f: usize = 0;
        while f < self.frames.len()
            invariant
                f <= self.frames@.len(),
                model == self@,
                forall|k: int, i: int|
                    0 <= k < f && 0 <= i < model.frames[k].len() ==> is_numeral(
                        #[trigger] model.frames[k][i],
                    ),
            decreases self.frames@.len() - f,
        {
            if !check_frame_numerals(&self.frames[f]) {
                assert(model.frames[f as int] == numerals_of(self.frames@[f as int]@));
                return false;
            }
            assert(model.frames[f as int] == numerals_of(self.frames@[f as int]@));
            f += 1;
        }
        true
    }

    /// The number of channels of the whole skeleton, where it fits.
    fn count_channels(&self) -> (total: Option<usize>)
        ensures
            match total {
                Some(total) => total == self@.channel_total(),
                None => self@.channel_total() > usize::MAX,
            },
    {
        let ghost model = self@;
        let mut total: usize = 0;
        let mut j: usize = 0;
        while j < self.joints.len()
            invariant
                j <= self.joints@.len(),
                model == self@,
                total == channel_count(model.joints, j as nat),
            decreases self.joints@.len() - j,
        {
            assert(model.joints[j as int].channels.len() == self.joints@[j as int].channels@.len());
            match total.checked_add(self.joints[j].channels.len()) {
                Some(sum) => {
                    total = sum;
                },
                None => {
                    proof {
                        lemma_channel_count_grows(
                            model.joints,
                            (j + 1) as nat,
                            model.joints.len(),
                        );
                    }
                    return None;
                },
            }
            j += 1;
        }
        Some(total)
    }

    /// Whether every frame holds one value for each channel.
    fn check_frames(&self) -> (ok: bool)
        ensures
            ok == self@.frames_complete(),
    {
        let ghost model = self@;
        match self.count_channels() {
            Some(total) => {
                let mut f: usize = 0;
                while f < self.frames.len()
                    invariant
                        f <= self.frames@.len(),
                        model == self@,
                        total == model.channel_total(),
                        forall|k: int|
                            0 <= k < f ==> (#[trigger] model.frames[k]).len() == total,
                    decreases self.frames@.len() - f,
                {
                    if self.frames[f].len() != total {
                        assert(model.frames[f as int].len() == self.frames@[f as int]@.len());
                        return false;
                    }
                    assert(model.frames[f as int].len() == self.frames@[f as int]@.len());
                    f += 1;
                }
                true
            },
            None => {
                if self.frames.len() > 0 {
                    let first = self.frames[0].len();
                    assert(model.frames[0].len() == first);
                    false
                } else {
                    true
                }
            },
        }
    }

    /// Whether the model is one that a BVH file describes: the depths are
    /// those of a tree in pre-order, an end site has no name and no channels
    /// and closes its parent's block, no name holds a line feed, every frame
    /// holds one value for each channel, and every number is a decimal
    /// numeral.
    pub fn is_well_formed(&self) -> (ok: bool)
        ensures
            ok == self@.well_formed(),
    {
        self.check_nested() && self.check_end_sites() && self.check_names()
            && self.check_frames() && self.check_numerals()
    }
}

} // verus!
