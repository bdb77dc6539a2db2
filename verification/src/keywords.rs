//! The bytes of the fixed words of a BVH document.

use crate::model::ChannelKind;
use vstd::prelude::*;
use vstd::string::*;

verus! {

/// The bytes of `HIERARCHY`.
pub proof fn lemma_hierarchy_keyword()
    ensures
        "HIERARCHY".spec_bytes() == seq![72u8, 73u8, 69u8, 82u8, 65u8, 82u8, 67u8, 72u8, 89u8],
{
    reveal_strlit("HIERARCHY");
    let s = "HIERARCHY";
    assert(s@ =~= seq!['H', 'I', 'E', 'R', 'A', 'R', 'C', 'H', 'Y']);
    assert(is_ascii(s));
    is_ascii_spec_bytes(s);
    assert(s.spec_bytes() =~= seq![72u8, 73u8, 69u8, 82u8, 65u8, 82u8, 67u8, 72u8, 89u8]);
}

/// The bytes of `ROOT` and the space after it.
pub proof fn lemma_root_keyword()
    ensures
        "ROOT ".spec_bytes() == seq![82u8, 79u8, 79u8, 84u8, 32u8],
{
    reveal_strlit("ROOT ");
    let s = "ROOT ";
    assert(s@ =~= seq!['R', 'O', 'O', 'T', ' ']);
    assert(is_ascii(s));
    is_ascii_spec_bytes(s);
    assert(s.spec_bytes() =~= seq![82u8, 79u8, 79u8, 84u8, 32u8]);
}

/// The bytes of `End Site`.
pub proof fn lemma_end_site_keyword()
    ensures
        "End Site".spec_bytes() == seq![69u8, 110u8, 100u8, 32u8, 83u8, 105u8, 116u8, 101u8],
{
    reveal_strlit("End Site");
    let s = "End Site";
    assert(s@ =~= seq!['E', 'n', 'd', ' ', 'S', 'i', 't', 'e']);
    assert(is_ascii(s));
    is_ascii_spec_bytes(s);
    assert(s.spec_bytes() =~= seq![69u8, 110u8, 100u8, 32u8, 83u8, 105u8, 116u8, 101u8]);
}

/// The bytes of `JOINT` and the space after it.
pub proof fn lemma_joint_keyword()
    ensures
        "JOINT ".spec_bytes() == seq![74u8, 79u8, 73u8, 78u8, 84u8, 32u8],
{
    reveal_strlit("JOINT ");
    let s = "JOINT ";
    assert(s@ =~= seq!['J', 'O', 'I', 'N', 'T', ' ']);
    assert(is_ascii(s));
    is_ascii_spec_bytes(s);
    assert(s.spec_bytes() =~= seq![74u8, 79u8, 73u8, 78u8, 84u8, 32u8]);
}

/// The bytes of `OFFSET` and the space after it.
pub proof fn lemma_offset_keyword()
    ensures
        "OFFSET ".spec_bytes() == seq![79u8, 70u8, 70u8, 83u8, 69u8, 84u8, 32u8],
{
    reveal_strlit("OFFSET ");
    let s = "OFFSET ";
    assert(s@ =~= seq!['O', 'F', 'F', 'S', 'E', 'T', ' ']);
    assert(is_ascii(s));
    is_ascii_spec_bytes(s);
    assert(s.spec_bytes() =~= seq![79u8, 70u8, 70u8, 83u8, 69u8, 84u8, 32u8]);
}

/// The bytes of `CHANNELS`.
pub proof fn lemma_channels_keyword()
    ensures
        "CHANNELS".spec_bytes() == seq![67u8, 72u8, 65u8, 78u8, 78u8, 69u8, 76u8, 83u8],
{
    reveal_strlit("CHANNELS");
    let s = "CHANNELS";
    assert(s@ =~= seq!['C', 'H', 'A', 'N', 'N', 'E', 'L', 'S']);
    assert(is_ascii(s));
    is_ascii_spec_bytes(s);
    assert(s.spec_bytes() =~= seq![67u8, 72u8, 65u8, 78u8, 78u8, 69u8, 76u8, 83u8]);
}

/// The bytes of `MOTION`.
pub proof fn lemma_motion_keyword()
    ensures
        "MOTION".spec_bytes() == seq![77u8, 79u8, 84u8, 73u8, 79u8, 78u8],
{
    reveal_strlit("MOTION");
    let s = "MOTION";
    assert(s@ =~= seq!['M', 'O', 'T', 'I', 'O', 'N']);
    assert(is_ascii(s));
    is_ascii_spec_bytes(s);
    assert(s.spec_bytes() =~= seq![77u8, 79u8, 84u8, 73u8, 79u8, 78u8]);
}

/// The bytes of `Frames:` and the space after it.
pub proof fn lemma_frames_keyword()
    ensures
        "Frames: ".spec_bytes() == seq![70u8, 114u8, 97u8, 109u8, 101u8, 115u8, 58u8, 32u8],
{
    reveal_strlit("Frames: ");
    let s = "Frames: ";
    assert(s@ =~= seq!['F', 'r', 'a', 'm', 'e', 's', ':', ' ']);
    assert(is_ascii(s));
    is_ascii_spec_bytes(s);
    assert(s.spec_bytes() =~= seq![70u8, 114u8, 97u8, 109u8, 101u8, 115u8, 58u8, 32u8]);
}

/// The bytes of `Frame Time:` and the space after it.
pub proof fn lemma_frame_time_keyword()
    ensures
        "Frame Time: ".spec_bytes() == seq![
            70u8,
            114u8,
            97u8,
            109u8,
            101u8,
            32u8,
            84u8,
            105u8,
            109u8,
            101u8,
            58u8,
            32u8,
        ],
{
    reveal_strlit("Frame Time: ");
    let s = "Frame Time: ";
    assert(s@ =~= seq!['F', 'r', 'a', 'm', 'e', ' ', 'T', 'i', 'm', 'e', ':', ' ']);
    assert(is_ascii(s));
    is_ascii_spec_bytes(s);
    assert(s.spec_bytes() =~= seq![
        70u8,
        114u8,
        97u8,
        109u8,
        101u8,
        32u8,
        84u8,
        105u8,
        109u8,
        101u8,
        58u8,
        32u8,
    ]);
}

/// The bytes of the word of each channel.
pub proof fn lemma_channel_words(channel: ChannelKind)
    ensures
        channel.token() == match channel {
            ChannelKind::PositionX => seq![
                88u8,
                112u8,
                111u8,
                115u8,
                105u8,
                116u8,
                105u8,
                111u8,
                110u8,
            ],
            ChannelKind::PositionY => seq![
                89u8,
                112u8,
                111u8,
                115u8,
                105u8,
                116u8,
                105u8,
                111u8,
                110u8,
            ],
            ChannelKind::PositionZ => seq![
                90u8,
                112u8,
                111u8,
                115u8,
                105u8,
                116u8,
                105u8,
                111u8,
                110u8,
            ],
            ChannelKind::RotationX => seq![
                88u8,
                114u8,
                111u8,
                116u8,
                97u8,
                116u8,
                105u8,
                111u8,
                110u8,
            ],
            ChannelKind::RotationY => seq![
                89u8,
                114u8,
                111u8,
                116u8,
                97u8,
                116u8,
                105u8,
                111u8,
                110u8,
            ],
            ChannelKind::RotationZ => seq![
                90u8,
                114u8,
                111u8,
                116u8,
                97u8,
                116u8,
                105u8,
                111u8,
                110u8,
            ],
        },
{
    match channel {
        ChannelKind::PositionX => {
            reveal_strlit("Xposition");
            let s = "Xposition";
            assert(s@ =~= seq!['X', 'p', 'o', 's', 'i', 't', 'i', 'o', 'n']);
            assert(is_ascii(s));
            is_ascii_spec_bytes(s);
            assert(s.spec_bytes() =~= seq![
                88u8,
                112u8,
                111u8,
                115u8,
                105u8,
                116u8,
                105u8,
                111u8,
                110u8,
            ]);
        },
        ChannelKind::PositionY => {
            reveal_strlit("Yposition");
            let s = "Yposition";
            assert(s@ =~= seq!['Y', 'p', 'o', 's', 'i', 't', 'i', 'o', 'n']);
            assert(is_ascii(s));
            is_ascii_spec_bytes(s);
            assert(s.spec_bytes() =~= seq![
                89u8,
                112u8,
                111u8,
                115u8,
                105u8,
                116u8,
                105u8,
                111u8,
                110u8,
            ]);
        },
        ChannelKind::PositionZ => {
            reveal_strlit("Zposition");
            let s = "Zposition";
            assert(s@ =~= seq!['Z', 'p', 'o', 's', 'i', 't', 'i', 'o', 'n']);
            assert(is_ascii(s));
            is_ascii_spec_bytes(s);
            assert(s.spec_bytes() =~= seq![
                90u8,
                112u8,
                111u8,
                115u8,
                105u8,
                116u8,
                105u8,
                111u8,
                110u8,
            ]);
        },
        ChannelKind::RotationX => {
            reveal_strlit("Xrotation");
            let s = "Xrotation";
            assert(s@ =~= seq!['X', 'r', 'o', 't', 'a', 't', 'i', 'o', 'n']);
            assert(is_ascii(s));
            is_ascii_spec_bytes(s);
            assert(s.spec_bytes() =~= seq![
                88u8,
                114u8,
                111u8,
                116u8,
                97u8,
                116u8,
                105u8,
                111u8,
                110u8,
            ]);
        },
        ChannelKind::RotationY => {
            reveal_strlit("Yrotation");
            let s = "Yrotation";
            assert(s@ =~= seq!['Y', 'r', 'o', 't', 'a', 't', 'i', 'o', 'n']);
            assert(is_ascii(s));
            is_ascii_spec_bytes(s);
            assert(s.spec_bytes() =~= seq![
                89u8,
                114u8,
                111u8,
                116u8,
                97u8,
                116u8,
                105u8,
                111u8,
                110u8,
            ]);
        },
        ChannelKind::RotationZ => {
            reveal_strlit("Zrotation");
            let s = "Zrotation";
            assert(s@ =~= seq!['Z', 'r', 'o', 't', 'a', 't', 'i', 'o', 'n']);
            assert(is_ascii(s));
            is_ascii_spec_bytes(s);
            assert(s.spec_bytes() =~= seq![
                90u8,
                114u8,
                111u8,
                116u8,
                97u8,
                116u8,
                105u8,
                111u8,
                110u8,
            ]);
        },
    }
}

} // verus!
