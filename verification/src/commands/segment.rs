//! The segment model: the taxonomy of virtual-machine memory segments and the
//! rule mapping each `(segment, index)` pair to a base operand plus offset.
//!
//! The four frame segments (Local/Argument/This/That) share one behavioural
//! family: a named base-pointer register holds the address of slot 0, and
//! accessing index `i` dereferences base-register-value plus `i` (double
//! indirection). `Static` slots are symbols namespaced by the translation
//! unit's basename, `Temp` slots sit at a fixed absolute base address, a
//! `Constant` denotes a literal value, and `Pointer` index 0/1 denote the
//! This/That base registers themselves.

use vstd::prelude::*;

use crate::assembly::{sym, Assembly, Instr};
use crate::commands::ParseError;
use crate::text::{dec_spec, str_eq};

verus! {

/// The segment kind a source keyword denotes, if any.
pub open spec fn segment_of_keyword(t: Seq<char>) -> Option<SegmentType> {
    if t == "argument"@ {
        Some(SegmentType::LATT(LATT::Argument))
    } else if t == "local"@ {
        Some(SegmentType::LATT(LATT::Local))
    } else if t == "static"@ {
        Some(SegmentType::Static)
    } else if t == "constant"@ {
        Some(SegmentType::Constant)
    } else if t == "this"@ {
        Some(SegmentType::LATT(LATT::This))
    } else if t == "that"@ {
        Some(SegmentType::LATT(LATT::That))
    } else if t == "pointer"@ {
        Some(SegmentType::Pointer)
    } else if t == "temp"@ {
        Some(SegmentType::Temp)
    } else {
        None
    }
}

/// The frame-segment family: Local, Argument, This, That.
#[derive(Debug, Clone, Copy, PartialEq, Eq, Structural)]
pub enum LATT {
    Local,
    Argument,
    This,
    That,
}

impl LATT {
    /// The name of the base-pointer register backing this frame segment.
    pub open spec fn base_name(self) -> Seq<char> {
        match self {
            LATT::Local => "LCL"@,
            LATT::Argument => "ARG"@,
            LATT::This => "THIS"@,
            LATT::That => "THAT"@,
        }
    }

    /// The symbolic address load of this frame segment's base register.
    pub fn as_asm(self) -> (r: Assembly)
        ensures
            r@ == sym(self.base_name()),
    {
        match self {
            LATT::Local => Assembly::local(),
            LATT::Argument => Assembly::argument(),
            LATT::This => Assembly::this(),
            LATT::That => Assembly::that(),
        }
    }
}

/// The kinds of virtual-machine memory segment.
#[derive(Debug, Clone, Copy, PartialEq, Eq, Structural)]
pub enum SegmentType {
    LATT(LATT),
    Static,
    Constant,
    Pointer,
    Temp,
}

impl SegmentType {
    /// Recognizes a segment keyword.
    pub fn parse_keyword(t: &str) -> (r: Option<SegmentType>)
        ensures
            r == segment_of_keyword(t@),
    {
        if str_eq(t, "argument") {
            Some(SegmentType::LATT(LATT::Argument))
        } else if str_eq(t, "local") {
            Some(SegmentType::LATT(LATT::Local))
        } else if str_eq(t, "static") {
            Some(SegmentType::Static)
        } else if str_eq(t, "constant") {
            Some(SegmentType::Constant)
        } else if str_eq(t, "this") {
            Some(SegmentType::LATT(LATT::This))
        } else if str_eq(t, "that") {
            Some(SegmentType::LATT(LATT::That))
        } else if str_eq(t, "pointer") {
            Some(SegmentType::Pointer)
        } else if str_eq(t, "temp") {
            Some(SegmentType::Temp)
        } else {
            None
        }
    }
}

impl core::str::FromStr for SegmentType {
    type Err = ParseError;

    fn from_str(s: &str) -> Result<Self, ParseError> {
        match SegmentType::parse_keyword(s) {
            Some(k) => Ok(k),
            None => Err(ParseError::InvalidSegment(s.to_owned())),
        }
    }
}

/// A segment reference: a kind together with a non-negative slot index.
#[derive(Debug, Clone, Copy, PartialEq, Eq, Structural)]
pub struct Segment {
    pub segment: SegmentType,
    pub index: u16,
}

/// The base address of the fixed temp block.
pub const TEMP_BASE: u32 = 5;

/// The symbol backing static slot `index` of the translation unit named
/// `basename`: `basename.index`. Distinct basenames give disjoint symbol
/// sets, and distinct indices give distinct symbols within one unit.
pub open spec fn static_symbol(basename: Seq<char>, index: nat) -> Seq<char> {
    basename + "."@ + dec_spec(index)
}

impl Segment {
    /// A segment reference is well formed when a `Pointer` index is 0 or 1
    /// (denoting the This/That base registers).
    pub open spec fn wf(self) -> bool {
        self.segment is Pointer ==> self.index == 0 || self.index == 1
    }

    pub fn new(segment: SegmentType, index: u16) -> (r: Self)
        ensures
            r.segment == segment,
            r.index == index,
    {
        Self { segment, index }
    }
}

/// The base operand of a resolved segment reference, as an instruction that
/// loads it into the pointer register, and the extra offset a consumer must
/// add before the final dereference (present only for frame segments).
#[derive(Debug, Clone, PartialEq)]
pub struct Resolved {
    pub base: Assembly,
    pub offset: Option<u16>,
}

/// The base operand `resolve` yields for a segment reference.
pub open spec fn resolve_base(s: Segment, basename: Seq<char>) -> Instr {
    match s.segment {
        SegmentType::Constant => Instr::Address(s.index as u32),
        SegmentType::LATT(l) => sym(l.base_name()),
        SegmentType::Static => sym(static_symbol(basename, s.index as nat)),
        SegmentType::Temp => Instr::Address((TEMP_BASE + s.index) as u32),
        SegmentType::Pointer => if s.index == 0 {
            sym("THIS"@)
        } else {
            sym("THAT"@)
        },
    }
}

/// The offset `resolve` yields: frame segments carry their index as an
/// explicit offset over the base register's value; every other kind resolves
/// to its slot (or value) directly.
pub open spec fn resolve_offset(s: Segment) -> Option<u16> {
    match s.segment {
        SegmentType::LATT(_) => Some(s.index),
        _ => None,
    }
}

impl Segment {
    /// Maps this segment reference to its base operand and offset.
    ///
    /// A `Constant` resolves to its value as a literal (no memory location at
    /// all); a frame segment to its base register plus this index as offset
    /// (double indirection); a `Static` slot to the basename-qualified symbol
    /// (single indirection); a `Temp` slot to the literal absolute address
    /// base-plus-index (single indirection); and `Pointer` 0/1 to the
    /// This/That register itself (the register's value is the datum).
    pub fn resolve(&self, basename: &str) -> (r: Resolved)
        requires
            self.wf(),
        ensures
            r.base@ == resolve_base(*self, basename@),
            r.offset == resolve_offset(*self),
    {
        match self.segment {
            SegmentType::Constant => Resolved {
                base: Assembly::Address(self.index as u32),
                offset: None,
            },
            SegmentType::LATT(l) => Resolved { base: l.as_asm(), offset: Some(self.index) },
            SegmentType::Static => Resolved {
                base: crate::commands::statics::var_symbol(self.index, basename),
                offset: None,
            },
            SegmentType::Temp => Resolved {
                base: Assembly::Address(TEMP_BASE + self.index as u32),
                offset: None,
            },
            SegmentType::Pointer => Resolved {
                base: if self.index == 0 {
                    Assembly::this()
                } else {
                    Assembly::that()
                },
                offset: None,
            },
        }
    }
}

} // verus!
