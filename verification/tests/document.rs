use bstr::BString;
use bvh_write::{
    Bvh, ChannelKind, IndentStyle, Joint, LineTerminator, Number, Offset, WriteOptions,
    WriteOptionsIterState,
};

fn num(text: &str) -> Number {
    Number::new(text.as_bytes().to_vec()).unwrap()
}

fn offset(x: &str, y: &str, z: &str) -> Offset {
    Offset { x: num(x), y: num(y), z: num(z) }
}

fn six_channels() -> Vec<ChannelKind> {
    vec![
        ChannelKind::PositionX,
        ChannelKind::PositionY,
        ChannelKind::PositionZ,
        ChannelKind::RotationZ,
        ChannelKind::RotationX,
        ChannelKind::RotationY,
    ]
}

fn rotations() -> Vec<ChannelKind> {
    vec![ChannelKind::RotationZ, ChannelKind::RotationX, ChannelKind::RotationY]
}

fn joint(name: &str, depth: usize, at: Offset, channels: Vec<ChannelKind>) -> Joint {
    Joint { name: name.as_bytes().to_vec(), depth, offset: at, channels, is_end_site: false }
}

fn end_site(depth: usize, at: Offset) -> Joint {
    Joint { name: Vec::new(), depth, offset: at, channels: Vec::new(), is_end_site: true }
}

fn frame_of(values: &[&str]) -> Vec<Number> {
    values.iter().map(|v| num(v)).collect()
}

fn hips(frames: Vec<Vec<Number>>) -> Bvh {
    Bvh {
        joints: vec![joint("Hips", 0, offset("0", "0", "0"), six_channels())],
        frame_time: num("0.033333"),
        frames,
    }
}

fn walker() -> Bvh {
    Bvh {
        joints: vec![
            joint("Hips", 0, offset("0", "0", "0"), six_channels()),
            joint("Chest", 1, offset("0", "5.21", "0"), rotations()),
            joint("Head", 2, offset("0", "3.5", "0"), rotations()),
            end_site(3, offset("0", "1", "0")),
            joint("LeftLeg", 1, offset("-1.5", "0", "0"), rotations()),
            end_site(2, offset("0", "-4", "0")),
        ],
        frame_time: num("0.008333"),
        frames: vec![
            frame_of(&[
                "0", "9.5", "0", "0", "0", "0", "1", "2", "3", "4", "5", "6", "-7", "8", "9",
            ]),
            frame_of(&[
                "0.5", "9.5", "0", "0", "0", "0", "1.25", "2", "3", "4", "5", "6", "-7.75", "8",
                "9",
            ]),
        ],
    }
}

fn tabs_unix() -> WriteOptions {
    WriteOptions::new()
        .with_indent(IndentStyle::Tabs)
        .with_line_terminator(LineTerminator::Unix)
}

fn text_of(out: &BString) -> String {
    String::from_utf8(out.as_bytes().to_vec()).unwrap()
}

fn lines_of(options: &WriteOptions, bvh: &Bvh) -> Vec<String> {
    let mut line = BString::new();
    let mut state = WriteOptionsIterState::new(bvh);
    let mut lines = Vec::new();
    while options.next_line(bvh, &mut line, &mut state) {
        lines.push(text_of(&line));
    }
    lines
}

const WALKER_TABS: &str = "HIERARCHY\n\
ROOT Hips\n\
{\n\
\tOFFSET 0 0 0\n\
\tCHANNELS 6 Xposition Yposition Zposition Zrotation Xrotation Yrotation\n\
\tJOINT Chest\n\
\t{\n\
\t\tOFFSET 0 5.21 0\n\
\t\tCHANNELS 3 Zrotation Xrotation Yrotation\n\
\t\tJOINT Head\n\
\t\t{\n\
\t\t\tOFFSET 0 3.5 0\n\
\t\t\tCHANNELS 3 Zrotation Xrotation Yrotation\n\
\t\t\tEnd Site\n\
\t\t\t{\n\
\t\t\t\tOFFSET 0 1 0\n\
\t\t\t}\n\
\t\t}\n\
\t}\n\
\tJOINT LeftLeg\n\
\t{\n\
\t\tOFFSET -1.5 0 0\n\
\t\tCHANNELS 3 Zrotation Xrotation Yrotation\n\
\t\tEnd Site\n\
\t\t{\n\
\t\t\tOFFSET 0 -4 0\n\
\t\t}\n\
\t}\n\
}\n\
MOTION\n\
Frames: 2\n\
Frame Time: 0.008333\n\
0 9.5 0 0 0 0 1 2 3 4 5 6 -7 8 9\n\
0.5 9.5 0 0 0 0 1.25 2 3 4 5 6 -7.75 8 9\n";

#[test]
fn single_root_with_tabs_and_unix_endings() {
    let bvh = hips(vec![frame_of(&["0", "0", "0", "0", "0", "0"])]);
    let out = tabs_unix().write_to_string(&bvh);
    let expected = "HIERARCHY\n\
ROOT Hips\n\
{\n\
\tOFFSET 0 0 0\n\
\tCHANNELS 6 Xposition Yposition Zposition Zrotation Xrotation Yrotation\n\
}\n\
MOTION\n\
Frames: 1\n\
Frame Time: 0.033333\n\
0 0 0 0 0 0\n";
    assert_eq!(text_of(&out), expected);
}

#[test]
fn single_root_with_two_spaces() {
    let bvh = hips(vec![frame_of(&["0", "0", "0", "0", "0", "0"])]);
    let options = tabs_unix().with_indent(IndentStyle::with_spaces(2));
    let out = options.write_to_string(&bvh);
    let expected = "HIERARCHY\n\
ROOT Hips\n\
{\n\
\x20\x20OFFSET 0 0 0\n\
\x20\x20CHANNELS 6 Xposition Yposition Zposition Zrotation Xrotation Yrotation\n\
}\n\
MOTION\n\
Frames: 1\n\
Frame Time: 0.033333\n\
0 0 0 0 0 0\n";
    assert_eq!(text_of(&out), expected);
    let with_tabs = text_of(&tabs_unix().write_to_string(&bvh));
    assert_eq!(with_tabs.replace('\t', "  "), expected);
}

#[test]
fn zero_frames_keep_the_motion_preamble() {
    let bvh = hips(Vec::new());
    let out = tabs_unix().write_to_string(&bvh);
    let expected = "HIERARCHY\n\
ROOT Hips\n\
{\n\
\tOFFSET 0 0 0\n\
\tCHANNELS 6 Xposition Yposition Zposition Zrotation Xrotation Yrotation\n\
}\n\
MOTION\n\
Frames: 0\n\
Frame Time: 0.033333\n";
    assert_eq!(text_of(&out), expected);
    let lines = lines_of(&tabs_unix(), &bvh);
    assert_eq!(lines[lines.len() - 3..], ["MOTION\n", "Frames: 0\n", "Frame Time: 0.033333\n"]);
}

#[test]
fn nested_skeleton_with_tabs() {
    let out = tabs_unix().write_to_string(&walker());
    assert_eq!(text_of(&out), WALKER_TABS);
}

#[test]
fn nested_skeleton_with_windows_endings() {
    let options = tabs_unix().with_line_terminator(LineTerminator::Windows);
    let out = options.write_to_string(&walker());
    assert_eq!(text_of(&out), WALKER_TABS.replace('\n', "\r\n"));
}

#[test]
fn nested_skeleton_without_indentation() {
    let options = tabs_unix().with_indent(IndentStyle::NoIndentation);
    let out = options.write_to_string(&walker());
    assert_eq!(text_of(&out), WALKER_TABS.replace('\t', ""));
}

#[test]
fn nested_skeleton_with_three_spaces() {
    let options = tabs_unix().with_indent(IndentStyle::with_spaces(3));
    let out = options.write_to_string(&walker());
    assert_eq!(text_of(&out), WALKER_TABS.replace('\t', "   "));
}

#[test]
fn spaces_of_width_zero_indent_nothing() {
    let options = tabs_unix().with_indent(IndentStyle::Spaces(0));
    let out = options.write_to_string(&walker());
    assert_eq!(text_of(&out), WALKER_TABS.replace('\t', ""));
}

#[test]
fn pulled_lines_make_up_the_document() {
    let bvh = walker();
    let options = tabs_unix();
    let lines = lines_of(&options, &bvh);
    assert_eq!(lines.concat(), WALKER_TABS);
    assert_eq!(lines.len(), 34);
    assert_eq!(lines[0], "HIERARCHY\n");
    assert_eq!(lines[1], "ROOT Hips\n");
    assert_eq!(lines[29], "MOTION\n");
    for line in &lines {
        assert!(line.ends_with('\n'));
        assert_eq!(line.matches('\n').count(), 1);
    }
}

#[test]
fn line_buffer_is_cleared_at_each_pull() {
    let bvh = walker();
    let options = tabs_unix();
    let mut line = BString::from("left over from an earlier use");
    let mut state = WriteOptionsIterState::new(&bvh);
    assert!(options.next_line(&bvh, &mut line, &mut state));
    assert_eq!(line.as_bytes(), &b"HIERARCHY\n"[..]);
    assert!(options.next_line(&bvh, &mut line, &mut state));
    assert_eq!(line.as_bytes(), &b"ROOT Hips\n"[..]);
}

#[test]
fn exhaustion_is_idempotent() {
    let bvh = walker();
    let options = tabs_unix();
    let mut line = BString::new();
    let mut state = WriteOptionsIterState::new(&bvh);
    let mut pulled = 0;
    while options.next_line(&bvh, &mut line, &mut state) {
        pulled += 1;
    }
    assert_eq!(pulled, 34);
    let at_end = state;
    assert!(line.as_bytes().is_empty());
    for _ in 0..5 {
        assert!(!options.next_line(&bvh, &mut line, &mut state));
        assert_eq!(state, at_end);
        assert!(line.as_bytes().is_empty());
    }
}

#[test]
fn braces_balance_and_nest() {
    for style in [IndentStyle::NoIndentation, IndentStyle::Tabs, IndentStyle::with_spaces(4)] {
        let options = tabs_unix().with_indent(style);
        let mut open = 0usize;
        let mut close = 0usize;
        for line in lines_of(&options, &walker()) {
            match line.trim() {
                "{" => open += 1,
                "}" => close += 1,
                _ => {},
            }
            assert!(close <= open);
        }
        assert_eq!(open, 6);
        assert_eq!(close, 6);
    }
}

#[test]
fn line_counts_follow_the_joints_and_frames() {
    let bvh = walker();
    let lines = lines_of(&tabs_unix(), &bvh);
    let motion_at = lines.iter().position(|line| line == "MOTION\n").unwrap();
    // The keyword, then five lines for each of four joints and four for each
    // of two end sites.
    assert_eq!(motion_at, 1 + 4 * 5 + 2 * 4);
    assert_eq!(lines.len() - motion_at, 3 + bvh.frames.len());

    let single = hips(vec![frame_of(&["0", "0", "0", "0", "0", "0"]); 12]);
    let lines = lines_of(&tabs_unix(), &single);
    let motion_at = lines.iter().position(|line| line == "MOTION\n").unwrap();
    assert_eq!(motion_at, 1 + 1 + (1 + 1 + 1 + 1));
    assert_eq!(lines.len() - motion_at, 3 + 12);
    assert_eq!(lines[motion_at + 1], "Frames: 12\n");
}

#[test]
fn indentation_does_not_depend_on_the_name() {
    let mut bvh = walker();
    bvh.joints[2].name = b"AJointWithAMuchLongerNameThanBefore".to_vec();
    let options = tabs_unix().with_indent(IndentStyle::with_spaces(2));
    let lines = lines_of(&options, &bvh);
    assert_eq!(lines[9], "    JOINT AJointWithAMuchLongerNameThanBefore\n");
    assert_eq!(lines[10], "    {\n");
    assert_eq!(lines[11], "      OFFSET 0 3.5 0\n");
    assert_eq!(lines[13], "      End Site\n");
    assert_eq!(lines[16], "      }\n");
    assert_eq!(lines[17], "    }\n");
    assert_eq!(lines[18], "  }\n");
    assert_eq!(lines[19], "  JOINT LeftLeg\n");
    assert_eq!(lines[28], "}\n");
}

#[test]
fn empty_skeleton_has_keywords_only() {
    let bvh = Bvh { joints: Vec::new(), frame_time: num("1"), frames: Vec::new() };
    let out = tabs_unix().write_to_string(&bvh);
    assert_eq!(text_of(&out), "HIERARCHY\nMOTION\nFrames: 0\nFrame Time: 1\n");
}

#[test]
fn frame_without_values_is_an_empty_line() {
    let bvh = Bvh {
        joints: vec![joint("Hips", 0, offset("0", "0", "0"), Vec::new())],
        frame_time: num("0.5"),
        frames: vec![Vec::new(), Vec::new()],
    };
    let out = tabs_unix().write_to_string(&bvh);
    assert_eq!(
        text_of(&out),
        "HIERARCHY\nROOT Hips\n{\n\tOFFSET 0 0 0\n\tCHANNELS 0\n}\nMOTION\nFrames: 2\nFrame Time: 0.5\n\n\n"
    );
}

#[test]
fn floats_are_written_as_their_shortest_numerals() {
    let values = [0.033333f64, 0.0, -1.5, 100.0, 1e21, 0.1 + 0.2];
    let frame: Vec<Number> =
        values.iter().map(|v| Number::new(format!("{}", v).into_bytes()).unwrap()).collect();
    let bvh = Bvh {
        joints: vec![joint("Hips", 0, offset("0", "0", "0"), six_channels())],
        frame_time: Number::new(format!("{}", 0.008333f32).into_bytes()).unwrap(),
        frames: vec![frame],
    };
    let lines = lines_of(&tabs_unix(), &bvh);
    assert_eq!(lines[8], "Frame Time: 0.008333\n");
    assert_eq!(lines[9], "0.033333 0 -1.5 100 1000000000000000000000 0.30000000000000004\n");
    let read_back: Vec<f64> =
        lines[9].split_whitespace().map(|word| word.parse().unwrap()).collect();
    assert_eq!(read_back, values);
}
