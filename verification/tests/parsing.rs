use babel::commands::segment::{Segment, SegmentType, LATT};
use babel::commands::{Command, ParseError};
use babel::text::to_dec;
use babel::utils::remove_whitespace_comments;

#[test]
fn parse_every_keyword() {
    assert_eq!("sub".parse::<Command>().unwrap(), Command::Subtract);
    assert_eq!("neg".parse::<Command>().unwrap(), Command::Negate);
    assert_eq!("eq".parse::<Command>().unwrap(), Command::Equal);
    assert_eq!("gt".parse::<Command>().unwrap(), Command::GreaterThan);
    assert_eq!("lt".parse::<Command>().unwrap(), Command::LessThan);
    assert_eq!("and".parse::<Command>().unwrap(), Command::And);
    assert_eq!("or".parse::<Command>().unwrap(), Command::Or);
    assert_eq!("not".parse::<Command>().unwrap(), Command::Not);
}

#[test]
fn parse_every_segment() {
    for (kw, kind) in [
        ("argument", SegmentType::LATT(LATT::Argument)),
        ("local", SegmentType::LATT(LATT::Local)),
        ("this", SegmentType::LATT(LATT::This)),
        ("that", SegmentType::LATT(LATT::That)),
        ("static", SegmentType::Static),
        ("constant", SegmentType::Constant),
        ("temp", SegmentType::Temp),
    ] {
        let line = format!("push {kw} 0");
        assert_eq!(
            line.parse::<Command>().unwrap(),
            Command::Push(Segment::new(kind, 0))
        );
    }
    assert_eq!(
        "push pointer 1".parse::<Command>().unwrap(),
        Command::Push(Segment::new(SegmentType::Pointer, 1))
    );
}

#[test]
fn parse_tolerates_extra_whitespace() {
    assert_eq!(
        "   push   constant    5  ".parse::<Command>().unwrap(),
        Command::Push(Segment::new(SegmentType::Constant, 5))
    );
    assert_eq!("\tadd".parse::<Command>().unwrap(), Command::Add);
}

#[test]
fn unknown_keyword_is_invalid_command() {
    match "frobnicate 1 2".parse::<Command>() {
        Err(ParseError::InvalidCommand(m)) => {
            assert_eq!(m, "Not valid: frobnicate 1 2");
        }
        other => panic!("expected an invalid command, got {other:?}"),
    }
}

#[test]
fn unknown_segment_is_invalid_segment() {
    match "push wrong 3".parse::<Command>() {
        Err(ParseError::InvalidSegment(m)) => assert_eq!(m, "wrong"),
        other => panic!("expected an invalid segment, got {other:?}"),
    }
}

#[test]
fn malformed_index_is_invalid_command() {
    assert!(matches!(
        "push constant abc".parse::<Command>(),
        Err(ParseError::InvalidCommand(_))
    ));
    assert!(matches!(
        "push constant".parse::<Command>(),
        Err(ParseError::InvalidCommand(_))
    ));
    assert!(matches!(
        "push constant -3".parse::<Command>(),
        Err(ParseError::InvalidCommand(_))
    ));
    assert!(matches!(
        "push constant 65536".parse::<Command>(),
        Err(ParseError::InvalidCommand(_))
    ));
    assert_eq!(
        "push constant 65535".parse::<Command>().unwrap(),
        Command::Push(Segment::new(SegmentType::Constant, 65535))
    );
}

#[test]
fn unwritable_operands_are_rejected() {
    assert!(matches!(
        "pop constant 5".parse::<Command>(),
        Err(ParseError::InvalidCommand(_))
    ));
    assert!(matches!(
        "push pointer 2".parse::<Command>(),
        Err(ParseError::InvalidCommand(_))
    ));
    assert!(matches!(
        "pop pointer 7".parse::<Command>(),
        Err(ParseError::InvalidCommand(_))
    ));
}

#[test]
fn error_messages_name_the_offender() {
    let cmd_err = "blah".parse::<Command>().unwrap_err();
    assert_eq!(cmd_err.message(), "not a valid command: Not valid: blah");
    let seg_err = "pop nowhere 0".parse::<Command>().unwrap_err();
    assert_eq!(seg_err.message(), "not a valid segment: nowhere");
}

#[test]
fn comment_stripping() {
    assert_eq!(
        remove_whitespace_comments("push constant 7 // seven"),
        Some("push constant 7 ")
    );
    assert_eq!(remove_whitespace_comments("// a comment line"), None);
    assert_eq!(remove_whitespace_comments(""), None);
    assert_eq!(remove_whitespace_comments("add"), Some("add"));
    assert_eq!(remove_whitespace_comments("a/b"), Some("a/b"));
    assert_eq!(remove_whitespace_comments("a//b//c"), Some("a"));
}

#[test]
fn decimal_rendering() {
    assert_eq!(to_dec(0), "0");
    assert_eq!(to_dec(7), "7");
    assert_eq!(to_dec(10), "10");
    assert_eq!(to_dec(12345), "12345");
    assert_eq!(to_dec(65535), "65535");
}

#[test]
fn describe_gives_canonical_source_text() {
    let push: Command = "push this 11".parse().unwrap();
    assert_eq!(push.describe(), "push this 11");
    assert_eq!(Command::GreaterThan.describe(), "gt");
}
