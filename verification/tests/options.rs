use bstr::{BString, B};
use bvh_write::{
    Bvh, ChannelKind, IndentStyle, Joint, LineTerminator, Number, Offset, SinkAction, SinkEvent,
    TransferError, WriteOptions, WriteOptionsIterState,
};

fn zero() -> Number {
    Number::new(b"0".to_vec()).unwrap()
}

fn root_only() -> Bvh {
    Bvh {
        joints: vec![Joint {
            name: b"Hips".to_vec(),
            depth: 0,
            offset: Offset { x: zero(), y: zero(), z: zero() },
            channels: vec![ChannelKind::RotationX],
            is_end_site: false,
        }],
        frame_time: Number::new(b"0.25".to_vec()).unwrap(),
        frames: vec![vec![zero()]],
    }
}

#[test]
fn with_spaces_of_zero_is_no_indentation() {
    assert_eq!(IndentStyle::with_spaces(0), IndentStyle::NoIndentation);
    assert_eq!(IndentStyle::with_spaces(1), IndentStyle::Spaces(1));
    assert_eq!(IndentStyle::with_spaces(8), IndentStyle::Spaces(8));
}

#[test]
fn default_indentation_is_one_tab() {
    assert_eq!(IndentStyle::default(), IndentStyle::Tabs);
    assert_eq!(WriteOptions::new().indent, IndentStyle::Tabs);
    assert_eq!(WriteOptions::default().indent, IndentStyle::Tabs);
}

#[test]
fn prefix_chars_are_the_unit_of_one_level() {
    assert_eq!(IndentStyle::NoIndentation.prefix_chars(), Vec::<u8>::new());
    assert_eq!(IndentStyle::Tabs.prefix_chars(), vec![b'\t']);
    assert_eq!(IndentStyle::with_spaces(3).prefix_chars(), vec![b' ', b' ', b' ']);
    assert_eq!(IndentStyle::with_spaces(0).prefix_chars(), Vec::<u8>::new());
}

#[test]
fn line_terminators_as_text() {
    assert_eq!(LineTerminator::Unix.as_str(), "\n");
    assert_eq!(LineTerminator::Windows.as_str(), "\r\n");
}

#[test]
fn line_terminators_as_byte_strings() {
    assert_eq!(LineTerminator::Unix.as_bstr().as_bytes(), &b"\n"[..]);
    assert_eq!(LineTerminator::Windows.as_bstr().as_bytes(), &b"\r\n"[..]);
    assert_eq!(LineTerminator::Windows.as_bstr(), B("\r\n"));
}

#[test]
fn native_line_terminator_follows_the_host() {
    assert_eq!(LineTerminator::for_host(true), LineTerminator::Windows);
    assert_eq!(LineTerminator::for_host(false), LineTerminator::Unix);
    let native = LineTerminator::native();
    assert_eq!(native, LineTerminator::for_host(std::path::MAIN_SEPARATOR == '\\'));
    assert_eq!(LineTerminator::default(), native);
    assert_eq!(WriteOptions::new().line_terminator, native);
}

#[test]
fn builders_change_one_option_and_keep_the_other() {
    let options = WriteOptions::new()
        .with_indent(IndentStyle::NoIndentation)
        .with_line_terminator(LineTerminator::Windows);
    assert_eq!(options.indent, IndentStyle::NoIndentation);
    assert_eq!(options.line_terminator, LineTerminator::Windows);
    let other = options.clone().with_indent(IndentStyle::with_spaces(2));
    assert_eq!(other.indent, IndentStyle::Spaces(2));
    assert_eq!(other.line_terminator, LineTerminator::Windows);
    let third = other.clone().with_line_terminator(LineTerminator::Unix);
    assert_eq!(third.indent, IndentStyle::Spaces(2));
    assert_eq!(third.line_terminator, LineTerminator::Unix);
    assert_eq!(options.indent, IndentStyle::NoIndentation);
}

#[test]
fn transfer_sends_every_line_and_then_flushes() {
    let bvh = root_only();
    let options = WriteOptions::new().with_line_terminator(LineTerminator::Unix);
    let mut line = BString::new();
    let mut state = WriteOptionsIterState::new(&bvh);
    let mut event = SinkEvent::Ready;
    let mut sink: Vec<u8> = Vec::new();
    let mut sent = 0;
    loop {
        match options.next_transfer(&bvh, &mut line, &mut state, event) {
            SinkAction::Send => {
                sink.extend_from_slice(line.as_bytes());
                event = SinkEvent::Accepted(line.as_bytes().len());
                sent += 1;
            },
            SinkAction::Flush => break,
            SinkAction::Fail(error) => panic!("{}", error.message()),
        }
    }
    assert_eq!(sent, 10);
    assert_eq!(sink, options.write_to_string(&bvh).as_bytes().to_vec());
    assert_eq!(
        options.next_transfer(&bvh, &mut line, &mut state, SinkEvent::Accepted(0)),
        SinkAction::Flush
    );
}

#[test]
fn transfer_fails_on_a_short_write() {
    let bvh = root_only();
    let options = WriteOptions::new().with_line_terminator(LineTerminator::Unix);
    let mut line = BString::new();
    let mut state = WriteOptionsIterState::new(&bvh);
    assert_eq!(
        options.next_transfer(&bvh, &mut line, &mut state, SinkEvent::Ready),
        SinkAction::Send
    );
    assert_eq!(line.as_bytes(), &b"HIERARCHY\n"[..]);
    let before = state;
    assert_eq!(
        options.next_transfer(&bvh, &mut line, &mut state, SinkEvent::Accepted(9)),
        SinkAction::Fail(TransferError::DataDropped)
    );
    assert_eq!(state, before);
    assert_eq!(line.as_bytes(), &b"HIERARCHY\n"[..]);
    assert_eq!(
        options.next_transfer(&bvh, &mut line, &mut state, SinkEvent::Accepted(11)),
        SinkAction::Fail(TransferError::DataDropped)
    );
    assert_eq!(
        options.next_transfer(&bvh, &mut line, &mut state, SinkEvent::Accepted(10)),
        SinkAction::Send
    );
    assert_eq!(line.as_bytes(), &b"ROOT Hips\n"[..]);
}

#[test]
fn transfer_error_in_words() {
    assert_eq!(
        TransferError::DataDropped.message(),
        "Data has been dropped while writing to file"
    );
}

#[test]
fn cursor_starts_at_the_hierarchy_keyword() {
    let bvh = root_only();
    let mut state = WriteOptionsIterState::new(&bvh);
    let mut line = BString::new();
    let options = WriteOptions::new().with_line_terminator(LineTerminator::Windows);
    assert!(options.next_line(&bvh, &mut line, &mut state));
    assert_eq!(line.as_bytes(), &b"HIERARCHY\r\n"[..]);
}

#[test]
fn cursor_outside_the_model_hands_out_nothing() {
    let bvh = root_only();
    let options = WriteOptions::new();
    let mut line = BString::from("x");
    let mut state = WriteOptionsIterState::WriteBones {
        curr_bone: 7,
        bone_line: bvh_write::BoneLine::Offset,
        close_depth: 0,
    };
    assert!(!options.next_line(&bvh, &mut line, &mut state));
    assert!(line.as_bytes().is_empty());
    let mut state = WriteOptionsIterState::WriteMotion {
        curr_frame: 3,
        motion_line: bvh_write::MotionLine::Values,
    };
    assert!(!options.next_line(&bvh, &mut line, &mut state));
}
