use bvh_write::{
    Bvh, ChannelKind, IndentStyle, Joint, LineTerminator, Number, Offset, WriteOptions,
};

fn num(text: &str) -> Number {
    Number::new(text.as_bytes().to_vec()).unwrap()
}

fn channel(word: &str) -> ChannelKind {
    match word {
        "Xposition" => ChannelKind::PositionX,
        "Yposition" => ChannelKind::PositionY,
        "Zposition" => ChannelKind::PositionZ,
        "Xrotation" => ChannelKind::RotationX,
        "Yrotation" => ChannelKind::RotationY,
        "Zrotation" => ChannelKind::RotationZ,
        other => panic!("no channel: {}", other),
    }
}

/// Reads a document back, going by the braces for the depth of each joint.
fn read(text: &str, ending: &str) -> Bvh {
    let mut lines = text.split_terminator(ending).map(|line| line.trim_start());
    assert_eq!(lines.next(), Some("HIERARCHY"));
    let mut joints: Vec<Joint> = Vec::new();
    let mut depth = 0usize;
    let frame_count: usize;
    loop {
        let line = lines.next().unwrap();
        if line == "MOTION" {
            let count = lines.next().unwrap().strip_prefix("Frames: ").unwrap();
            frame_count = count.parse().unwrap();
            break;
        } else if line == "{" {
            depth += 1;
        } else if line == "}" {
            depth -= 1;
        } else if let Some(values) = line.strip_prefix("OFFSET ") {
            let mut values = values.split(' ').map(num);
            joints.last_mut().unwrap().offset = Offset {
                x: values.next().unwrap(),
                y: values.next().unwrap(),
                z: values.next().unwrap(),
            };
        } else if let Some(words) = line.strip_prefix("CHANNELS ") {
            let mut words = words.split(' ');
            let count: usize = words.next().unwrap().parse().unwrap();
            let channels: Vec<ChannelKind> = words.map(channel).collect();
            assert_eq!(channels.len(), count);
            joints.last_mut().unwrap().channels = channels;
        } else {
            let (name, is_end_site) = if line == "End Site" {
                ("", true)
            } else if let Some(name) = line.strip_prefix("ROOT ") {
                (name, false)
            } else {
                (line.strip_prefix("JOINT ").unwrap(), false)
            };
            joints.push(Joint {
                name: name.as_bytes().to_vec(),
                depth,
                offset: Offset { x: num("0"), y: num("0"), z: num("0") },
                channels: Vec::new(),
                is_end_site,
            });
        }
    }
    assert_eq!(depth, 0);
    let frame_time = num(lines.next().unwrap().strip_prefix("Frame Time: ").unwrap());
    let frames: Vec<Vec<Number>> = lines
        .map(|line| if line.is_empty() { Vec::new() } else { line.split(' ').map(num).collect() })
        .collect();
    assert_eq!(frames.len(), frame_count);
    Bvh { joints, frame_time, frames }
}

fn joint(name: &str, depth: usize, at: [&str; 3], channels: &[&str]) -> Joint {
    Joint {
        name: name.as_bytes().to_vec(),
        depth,
        offset: Offset { x: num(at[0]), y: num(at[1]), z: num(at[2]) },
        channels: channels.iter().map(|word| channel(word)).collect(),
        is_end_site: false,
    }
}

fn end_site(depth: usize, at: [&str; 3]) -> Joint {
    Joint { is_end_site: true, ..joint("", depth, at, &[]) }
}

fn models() -> Vec<Bvh> {
    let rotations = ["Zrotation", "Xrotation", "Yrotation"];
    let walker = Bvh {
        joints: vec![
            joint(
                "Hips",
                0,
                ["0", "0", "0"],
                &["Xposition", "Yposition", "Zposition", "Zrotation", "Xrotation", "Yrotation"],
            ),
            joint("Spine", 1, ["0", "5.21", "-0.5"], &rotations),
            joint("Neck", 2, ["0", "12.3", "0"], &rotations),
            joint("Head", 3, ["0", "3.5", "0.25"], &["Yrotation"]),
            end_site(4, ["0", "3.87", "0"]),
            joint("LeftArm", 2, ["3.91", "11", "0"], &rotations),
            end_site(3, ["11.28", "0", "0"]),
            joint("RightArm", 2, ["-3.91", "11", "0"], &rotations),
            end_site(3, ["-11.28", "0", "0"]),
            joint("LeftLeg", 1, ["3.5", "0", "0"], &rotations),
            end_site(2, ["0", "-18.34", "0"]),
        ],
        frame_time: num("0.008333"),
        frames: vec![
            (0..22).map(|i| num(&format!("{}.5", i))).collect(),
            (0..22).map(|i| num(&format!("-{}", i))).collect(),
            (0..22).map(|_| num("0")).collect(),
        ],
    };
    let root_only = Bvh {
        joints: vec![joint("Root", 0, ["1", "2", "3"], &[])],
        frame_time: num("1"),
        frames: vec![Vec::new(); 2],
    };
    let still = Bvh { frames: Vec::new(), ..walker.clone() };
    let empty = Bvh { joints: Vec::new(), frame_time: num("0.5"), frames: Vec::new() };
    vec![walker, root_only, still, empty]
}

fn all_options() -> Vec<WriteOptions> {
    let mut options = Vec::new();
    for indent in [
        IndentStyle::NoIndentation,
        IndentStyle::Tabs,
        IndentStyle::with_spaces(1),
        IndentStyle::with_spaces(4),
    ] {
        for terminator in [LineTerminator::Unix, LineTerminator::Windows] {
            options.push(
                WriteOptions::new().with_indent(indent.clone()).with_line_terminator(terminator),
            );
        }
    }
    options
}

#[test]
fn what_is_written_reads_back_as_the_same_model() {
    for model in models() {
        assert!(model.is_well_formed());
        for options in all_options() {
            let out = options.write_to_string(&model);
            let text = String::from_utf8(out.as_bytes().to_vec()).unwrap();
            let back = read(&text, options.line_terminator.as_str());
            assert_eq!(back, model);
        }
    }
}

#[test]
fn different_models_are_written_differently() {
    let all = models();
    for options in all_options() {
        for (i, first) in all.iter().enumerate() {
            for (k, second) in all.iter().enumerate() {
                let same = options.write_to_string(first).as_bytes()
                    == options.write_to_string(second).as_bytes();
                assert_eq!(same, i == k);
            }
        }
    }
    let options = WriteOptions::new();
    let base = &all[0];
    let mut renamed = base.clone();
    renamed.joints[3].name = b"Skull".to_vec();
    let mut moved = base.clone();
    moved.joints[1].offset.z = num("0.5");
    let mut flatter = base.clone();
    flatter.joints[9].depth = 2;
    flatter.joints[10].depth = 3;
    let mut slower = base.clone();
    slower.frame_time = num("0.016667");
    let mut turned = base.clone();
    turned.joints[3].channels = vec![ChannelKind::RotationX];
    for changed in [renamed, moved, flatter, slower, turned] {
        assert!(changed.is_well_formed());
        assert_ne!(
            options.write_to_string(&changed).as_bytes(),
            options.write_to_string(base).as_bytes()
        );
    }
}
