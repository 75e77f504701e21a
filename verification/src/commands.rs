//! The command model: the closed set of virtual-machine operations, their
//! canonical source text, and the parser recognizing that text.

pub mod segment;
pub mod statics;
pub mod temp;

use vstd::prelude::*;

use crate::commands::segment::{segment_of_keyword, Segment, SegmentType, LATT};
use crate::text::{
    all_digits, dec_spec, digits_val, parse_u16, scan_token, skip_ws, str_eq, to_dec, tok_end,
    tok_start,
};

verus! {

/// One virtual-machine operation: a push or pop against a segment slot, one
/// of the seven arithmetic/logical operations, or one of the three
/// order-comparison operations.
#[derive(Debug, Clone, Copy, PartialEq, Eq, Structural)]
pub enum Command {
    Push(Segment),
    Pop(Segment),
    Add,
    Subtract,
    Negate,
    Equal,
    GreaterThan,
    LessThan,
    And,
    Or,
    Not,
}

impl Command {
    /// A command is well formed when its segment reference is, and a pop
    /// never targets the constant segment (constants are not writable; the
    /// parsing boundary rejects such input before the translator sees it).
    pub open spec fn wf(self) -> bool {
        match self {
            Command::Push(s) => s.wf(),
            Command::Pop(s) => s.wf() && !(s.segment is Constant),
            _ => true,
        }
    }

    /// True of the three order-comparison operations, the only commands that
    /// consume a label-counter value.
    pub open spec fn is_comparison(self) -> bool {
        self is Equal || self is GreaterThan || self is LessThan
    }
}

/// The keyword of a command's source form.
pub open spec fn keyword_text(cmd: Command) -> Seq<char> {
    match cmd {
        Command::Push(_) => "push"@,
        Command::Pop(_) => "pop"@,
        Command::Add => "add"@,
        Command::Subtract => "sub"@,
        Command::Negate => "neg"@,
        Command::Equal => "eq"@,
        Command::GreaterThan => "gt"@,
        Command::LessThan => "lt"@,
        Command::And => "and"@,
        Command::Or => "or"@,
        Command::Not => "not"@,
    }
}

/// The keyword of a segment kind's source form.
pub open spec fn segment_keyword_text(k: SegmentType) -> Seq<char> {
    match k {
        SegmentType::LATT(LATT::Local) => "local"@,
        SegmentType::LATT(LATT::Argument) => "argument"@,
        SegmentType::LATT(LATT::This) => "this"@,
        SegmentType::LATT(LATT::That) => "that"@,
        SegmentType::Static => "static"@,
        SegmentType::Constant => "constant"@,
        SegmentType::Pointer => "pointer"@,
        SegmentType::Temp => "temp"@,
    }
}

/// The canonical source text of a command: the keyword alone for the
/// zero-argument operations, or `keyword segment index` for push and pop.
pub open spec fn canon_text_of(cmd: Command) -> Seq<char> {
    match cmd {
        Command::Push(s) => "push "@ + segment_keyword_text(s.segment) + " "@ + dec_spec(
            s.index as nat,
        ),
        Command::Pop(s) => "pop "@ + segment_keyword_text(s.segment) + " "@ + dec_spec(
            s.index as nat,
        ),
        _ => keyword_text(cmd),
    }
}

impl Command {
    /// The canonical source text of this command.
    pub open spec fn canon_text(self) -> Seq<char> {
        canon_text_of(self)
    }

    /// Renders the canonical source text, used by the translator to annotate
    /// each command's output block.
    pub fn describe(&self) -> (r: String)
        ensures
            r@ == self.canon_text(),
    {
        match self {
            Command::Push(s) => {
                let r = "push ".to_owned().concat(segment_keyword(s.segment)).concat(" ").concat(
                    to_dec(s.index as u64).as_str(),
                );
                proof {
                    assert(r@ =~= self.canon_text());
                }
                r
            },
            Command::Pop(s) => {
                let r = "pop ".to_owned().concat(segment_keyword(s.segment)).concat(" ").concat(
                    to_dec(s.index as u64).as_str(),
                );
                proof {
                    assert(r@ =~= self.canon_text());
                }
                r
            },
            Command::Add => "add".to_owned(),
            Command::Subtract => "sub".to_owned(),
            Command::Negate => "neg".to_owned(),
            Command::Equal => "eq".to_owned(),
            Command::GreaterThan => "gt".to_owned(),
            Command::LessThan => "lt".to_owned(),
            Command::And => "and".to_owned(),
            Command::Or => "or".to_owned(),
            Command::Not => "not".to_owned(),
        }
    }
}

/// The source keyword of a segment kind.
pub fn segment_keyword(k: SegmentType) -> (r: &'static str)
    ensures
        r@ == segment_keyword_text(k),
{
    match k {
        SegmentType::LATT(LATT::Local) => "local",
        SegmentType::LATT(LATT::Argument) => "argument",
        SegmentType::LATT(LATT::This) => "this",
        SegmentType::LATT(LATT::That) => "that",
        SegmentType::Static => "static",
        SegmentType::Constant => "constant",
        SegmentType::Pointer => "pointer",
        SegmentType::Temp => "temp",
    }
}

/// A rejected line: an unrecognized command keyword, or a recognized push/pop
/// whose segment keyword is unrecognized.
#[derive(Debug, Clone, PartialEq)]
pub enum ParseError {
    InvalidCommand(String),
    InvalidSegment(String),
}

impl ParseError {
    /// The human-readable description of this error.
    pub fn message(&self) -> (r: String)
        ensures
            match self {
                ParseError::InvalidCommand(t) => r@ == "not a valid command: "@ + t@,
                ParseError::InvalidSegment(t) => r@ == "not a valid segment: "@ + t@,
            },
    {
        match self {
            ParseError::InvalidCommand(t) => "not a valid command: ".to_owned().concat(t.as_str()),
            ParseError::InvalidSegment(t) => "not a valid segment: ".to_owned().concat(t.as_str()),
        }
    }
}

/// The first whitespace-separated token of a line.
pub open spec fn tok1(s: Seq<char>) -> Seq<char> {
    s.subrange(tok_start(s, 0), tok_end(s, tok_start(s, 0)))
}

/// The second whitespace-separated token of a line.
pub open spec fn tok2(s: Seq<char>) -> Seq<char> {
    let b = tok_start(s, tok_end(s, tok_start(s, 0)));
    s.subrange(b, tok_end(s, b))
}

/// The third whitespace-separated token of a line.
pub open spec fn tok3(s: Seq<char>) -> Seq<char> {
    let b1 = tok_start(s, tok_end(s, tok_start(s, 0)));
    let b2 = tok_start(s, tok_end(s, b1));
    s.subrange(b2, tok_end(s, b2))
}

/// The zero-argument command a source keyword denotes, if any.
pub open spec fn keyword_command(t: Seq<char>) -> Option<Command> {
    if t == "add"@ {
        Some(Command::Add)
    } else if t == "sub"@ {
        Some(Command::Subtract)
    } else if t == "eq"@ {
        Some(Command::Equal)
    } else if t == "lt"@ {
        Some(Command::LessThan)
    } else if t == "gt"@ {
        Some(Command::GreaterThan)
    } else if t == "neg"@ {
        Some(Command::Negate)
    } else if t == "not"@ {
        Some(Command::Not)
    } else if t == "or"@ {
        Some(Command::Or)
    } else if t == "and"@ {
        Some(Command::And)
    } else {
        None
    }
}

/// What parsing one line yields: a well-formed command, or one of the two
/// rejection kinds.
pub ghost enum Parsed {
    Cmd(Command),
    BadCommand,
    BadSegment(Seq<char>),
}

/// The parse of one line: the first token selects the command; `push` and
/// `pop` read a segment keyword and a non-negative index that must fit the
/// index type; tokens beyond those consumed are ignored. A pop into the
/// constant segment and a pointer index other than 0/1 are rejected here, so
/// every command this yields is well formed.
pub open spec fn parse_spec(s: Seq<char>) -> Parsed {
    let t1 = tok1(s);
    if t1 == "push"@ || t1 == "pop"@ {
        let t2 = tok2(s);
        let t3 = tok3(s);
        match segment_of_keyword(t2) {
            Some(k) => {
                if all_digits(t3) && digits_val(t3) <= u16::MAX {
                    let seg = Segment { segment: k, index: digits_val(t3) as u16 };
                    let c = if t1 == "push"@ {
                        Command::Push(seg)
                    } else {
                        Command::Pop(seg)
                    };
                    if c.wf() {
                        Parsed::Cmd(c)
                    } else {
                        Parsed::BadCommand
                    }
                } else {
                    Parsed::BadCommand
                }
            },
            None => Parsed::BadSegment(t2),
        }
    } else {
        match keyword_command(t1) {
            Some(c) => Parsed::Cmd(c),
            None => Parsed::BadCommand,
        }
    }
}

impl Command {
    /// Parses one source line into a command.
    ///
    /// Returns the command exactly when `parse_spec` recognizes the line; an
    /// unrecognized first token (or a malformed or unwritable operand) is an
    /// invalid command carrying the whole line, and an unrecognized segment
    /// keyword after `push`/`pop` is an invalid segment carrying that token.
    pub fn parse_line(s: &str) -> (r: Result<Command, ParseError>)
        ensures
            match r {
                Ok(c) => parse_spec(s@) == Parsed::Cmd(c) && c.wf(),
                Err(ParseError::InvalidCommand(m)) => parse_spec(s@) is BadCommand && m@
                    == "Not valid: "@ + s@,
                Err(ParseError::InvalidSegment(m)) => parse_spec(s@) matches Parsed::BadSegment(t)
                    && m@ == t,
            },
    {
        let s1 = skip_ws(s, 0);
        let e1 = scan_token(s, s1);
        let t1 = s.substring_char(s1, e1);
        proof {
            assert(t1@ == tok1(s@));
        }
        let is_push = str_eq(t1, "push");
        let is_pop = str_eq(t1, "pop");
        proof {
            reveal_strlit("push");
            reveal_strlit("pop");
            assert("push"@.len() != "pop"@.len());
        }
        if is_push || is_pop {
            let s2 = skip_ws(s, e1);
            let e2 = scan_token(s, s2);
            let t2 = s.substring_char(s2, e2);
            proof {
                assert(t2@ == tok2(s@));
            }
            match SegmentType::parse_keyword(t2) {
                Some(k) => {
                    let s3 = skip_ws(s, e2);
                    let e3 = scan_token(s, s3);
                    let t3 = s.substring_char(s3, e3);
                    proof {
                        assert(t3@ == tok3(s@));
                    }
                    match parse_u16(t3) {
                        Some(index) => {
                            proof {
                                assert(digits_val(t3@) as u16 == index);
                            }
                            let seg = Segment { segment: k, index };
                            let c = if is_push {
                                Command::Push(seg)
                            } else {
                                Command::Pop(seg)
                            };
                            let is_constant = match k {
                                SegmentType::Constant => true,
                                _ => false,
                            };
                            let is_pointer = match k {
                                SegmentType::Pointer => true,
                                _ => false,
                            };
                            let writable = !(is_pop && is_constant);
                            let pointer_ok = !is_pointer || index <= 1;
                            if writable && pointer_ok {
                                proof {
                                    assert(c.wf());
                                }
                                Ok(c)
                            } else {
                                proof {
                                    assert(parse_spec(s@) is BadCommand);
                                }
                                Err(ParseError::InvalidCommand(invalid_line(s)))
                            }
                        },
                        None => {
                            proof {
                                assert(parse_spec(s@) is BadCommand);
                            }
                            Err(ParseError::InvalidCommand(invalid_line(s)))
                        },
                    }
                },
                None => Err(ParseError::InvalidSegment(t2.to_owned())),
            }
        } else {
            if str_eq(t1, "add") {
                Ok(Command::Add)
            } else if str_eq(t1, "sub") {
                Ok(Command::Subtract)
            } else if str_eq(t1, "eq") {
                Ok(Command::Equal)
            } else if str_eq(t1, "lt") {
                Ok(Command::LessThan)
            } else if str_eq(t1, "gt") {
                Ok(Command::GreaterThan)
            } else if str_eq(t1, "neg") {
                Ok(Command::Negate)
            } else if str_eq(t1, "not") {
                Ok(Command::Not)
            } else if str_eq(t1, "or") {
                Ok(Command::Or)
            } else if str_eq(t1, "and") {
                Ok(Command::And)
            } else {
                proof {
                    assert(parse_spec(s@) is BadCommand);
                }
                Err(ParseError::InvalidCommand(invalid_line(s)))
            }
        }
    }
}

/// The payload of an invalid-command rejection: the whole offending line.
fn invalid_line(s: &str) -> (r: String)
    ensures
        r@ == "Not valid: "@ + s@,
{
    "Not valid: ".to_owned().concat(s)
}

impl core::str::FromStr for Command {
    type Err = ParseError;

    fn from_str(s: &str) -> Result<Self, ParseError> {
        Command::parse_line(s)
    }
}

} // verus!
