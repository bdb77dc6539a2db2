use bvh_write::model::check_numeral;
use bvh_write::{Bvh, ChannelKind, Joint, Number, Offset};

fn number(text: &str) -> Number {
    Number::new(text.as_bytes().to_vec()).unwrap()
}

fn origin() -> Offset {
    Offset { x: number("0"), y: number("0"), z: number("0") }
}

fn bone(depth: usize, channels: usize) -> Joint {
    Joint {
        name: b"Bone".to_vec(),
        depth,
        offset: origin(),
        channels: vec![ChannelKind::RotationY; channels],
        is_end_site: false,
    }
}

fn tip(depth: usize) -> Joint {
    Joint {
        name: Vec::new(),
        depth,
        offset: origin(),
        channels: Vec::new(),
        is_end_site: true,
    }
}

fn model(joints: Vec<Joint>, frames: Vec<Vec<Number>>) -> Bvh {
    Bvh { joints, frame_time: number("0.01"), frames }
}

#[test]
fn numerals_are_told_from_other_text() {
    for text in ["0", "7", "42", "-0", "-13", "0.033333", "-1.5", "100.25", "007", "1.0"] {
        assert!(check_numeral(text.as_bytes()), "{}", text);
    }
    for text in [
        "", "-", ".", "-.", "1.", ".5", "-.5", "1..2", "1.2.3", "+1", "1e5", "1.5e-3", " 1", "1 ",
        "--1", "1-", "NaN", "inf", "{", "}", "1,5", "0x10",
    ] {
        assert!(!check_numeral(text.as_bytes()), "{}", text);
    }
}

#[test]
fn number_keeps_the_text_of_a_numeral() {
    let n = Number::new(b"-12.5".to_vec()).unwrap();
    assert_eq!(n.as_bytes(), &b"-12.5"[..]);
    assert_eq!(n.text, b"-12.5".to_vec());
    assert_eq!(Number::new(b"12,5".to_vec()), None);
    assert_eq!(Number::new(Vec::new()), None);
}

#[test]
fn channel_words() {
    assert_eq!(ChannelKind::PositionX.as_str(), "Xposition");
    assert_eq!(ChannelKind::PositionY.as_str(), "Yposition");
    assert_eq!(ChannelKind::PositionZ.as_str(), "Zposition");
    assert_eq!(ChannelKind::RotationX.as_str(), "Xrotation");
    assert_eq!(ChannelKind::RotationY.as_str(), "Yrotation");
    assert_eq!(ChannelKind::RotationZ.as_str(), "Zrotation");
}

#[test]
fn well_formed_models() {
    assert!(model(Vec::new(), Vec::new()).is_well_formed());
    assert!(model(vec![bone(0, 6)], Vec::new()).is_well_formed());
    let frame = vec![number("1"); 5];
    let joints = vec![bone(0, 3), bone(1, 1), tip(2), bone(1, 1), bone(2, 0), tip(3)];
    assert!(model(joints, vec![frame.clone(), frame]).is_well_formed());
}

#[test]
fn depths_that_are_no_tree_are_refused() {
    assert!(!model(vec![bone(1, 0)], Vec::new()).is_well_formed());
    assert!(!model(vec![bone(0, 0), bone(0, 0)], Vec::new()).is_well_formed());
    assert!(!model(vec![bone(0, 0), bone(2, 0)], Vec::new()).is_well_formed());
    assert!(!model(vec![bone(0, 0), bone(1, 0), bone(3, 0)], Vec::new()).is_well_formed());
    assert!(model(vec![bone(0, 0), bone(1, 0), bone(2, 0), bone(1, 0)], Vec::new())
        .is_well_formed());
}

#[test]
fn misplaced_end_sites_are_refused() {
    assert!(!model(vec![tip(0)], Vec::new()).is_well_formed());
    assert!(!model(vec![bone(0, 0), tip(1), bone(1, 0)], Vec::new()).is_well_formed());
    assert!(!model(vec![bone(0, 0), tip(1), bone(2, 0)], Vec::new()).is_well_formed());
    let mut with_channels = tip(1);
    with_channels.channels.push(ChannelKind::RotationX);
    assert!(!model(vec![bone(0, 0), with_channels], vec![vec![number("1")]]).is_well_formed());
    assert!(model(vec![bone(0, 0), bone(1, 0), tip(2), bone(1, 0)], Vec::new())
        .is_well_formed());
}

#[test]
fn frames_of_the_wrong_length_are_refused() {
    let joints = vec![bone(0, 2), bone(1, 1)];
    let right = vec![number("1"), number("2"), number("3")];
    let short = vec![number("1"), number("2")];
    let long = vec![number("1"); 4];
    assert!(model(joints.clone(), vec![right.clone()]).is_well_formed());
    assert!(!model(joints.clone(), vec![right.clone(), short]).is_well_formed());
    assert!(!model(joints.clone(), vec![long, right]).is_well_formed());
    assert!(!model(joints, vec![Vec::new()]).is_well_formed());
}

#[test]
fn numbers_that_are_no_numerals_are_refused() {
    let bad = Number { text: b"1e5".to_vec() };
    let mut joints = vec![bone(0, 1)];
    assert!(model(joints.clone(), vec![vec![number("1")]]).is_well_formed());
    assert!(!model(joints.clone(), vec![vec![bad.clone()]]).is_well_formed());
    let mut timed = model(joints.clone(), Vec::new());
    timed.frame_time = bad.clone();
    assert!(!timed.is_well_formed());
    joints[0].offset.y = bad;
    assert!(!model(joints, Vec::new()).is_well_formed());
}

#[test]
fn end_sites_with_a_name_are_refused() {
    let mut named = tip(1);
    named.name = b"Tip".to_vec();
    assert!(!model(vec![bone(0, 0), named], Vec::new()).is_well_formed());
    assert!(model(vec![bone(0, 0), tip(1)], Vec::new()).is_well_formed());
}

#[test]
fn names_with_a_line_feed_are_refused() {
    let mut broken = bone(0, 0);
    broken.name = b"Hi\nps".to_vec();
    assert!(!model(vec![broken], Vec::new()).is_well_formed());
    let mut later = bone(1, 0);
    later.name = b"Chest\n".to_vec();
    assert!(!model(vec![bone(0, 0), later], Vec::new()).is_well_formed());
    let mut spaced = bone(0, 0);
    spaced.name = b"Left Leg".to_vec();
    assert!(model(vec![spaced], Vec::new()).is_well_formed());
}
