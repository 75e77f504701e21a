//! The instruction algebra: the closed set of emittable assembly forms and
//! their canonical textual rendering.
//!
//! An [`Assembly`] value is one output line: a label definition, a comment, a
//! literal or symbolic address load into the pointer register, or a
//! register-transfer command with an optional destination set, a computation,
//! and an optional jump condition. The mathematical model of an instruction is
//! [`Instr`], which carries names as character sequences.

use vstd::prelude::*;

use crate::text::{dec_spec, to_dec};

verus! {

/// One emittable assembly instruction.
#[derive(Debug, Clone, PartialEq)]
pub enum Assembly {
    /// Defines a symbolic jump target at the current position; rendered `(name)`.
    Label(String),
    /// Non-semantic annotation; rendered `// text`.
    Comment(String),
    /// Load a literal address into the pointer register; rendered `@literal`.
    Address(u32),
    /// Load the address bound to a named symbol; rendered `@name`.
    AddressSymbol(String),
    /// A register-transfer step; rendered `dest=comp;jump` with the optional
    /// parts left out where absent.
    Command { dest: Option<Dest>, comp: Comp, jump: Option<Jump> },
}

/// The non-empty destination sets a command may store its result into:
/// memory-at-pointer (`M`), the accumulator (`D`), the pointer register (`A`),
/// and their combinations.
#[derive(Debug, Clone, Copy, PartialEq, Eq, Structural)]
pub enum Dest {
    M,
    D,
    A,
    DM,
    AM,
    AD,
    ADM,
}

/// The computations the translator emits, over the accumulator register `D`,
/// the pointer register `A`, and the memory cell `M` addressed by `A`.
#[derive(Debug, Clone, Copy, PartialEq, Eq, Structural)]
pub enum Comp {
    Zero,
    A,
    M,
    D,
    Mplus1,
    DplusM,
    DplusA,
    DminusM,
    MminusD,
    Dminus1,
    Mminus1,
    NegateM,
    NotM,
    DandM,
    DorM,
}

/// The jump conditions on a computation's result.
#[derive(Debug, Clone, Copy, PartialEq, Eq, Structural)]
pub enum Jump {
    JLE,
    JEQ,
    JGT,
    JLT,
    JMP,
}

/// The mathematical model of one instruction: the same variants as
/// [`Assembly`], with every name a character sequence.
pub ghost enum Instr {
    Label(Seq<char>),
    Comment(Seq<char>),
    Address(u32),
    AddressSymbol(Seq<char>),
    Command { dest: Option<Dest>, comp: Comp, jump: Option<Jump> },
}

impl View for Assembly {
    type V = Instr;

    open spec fn view(&self) -> Instr {
        match self {
            Assembly::Label(s) => Instr::Label(s@),
            Assembly::Comment(s) => Instr::Comment(s@),
            Assembly::Address(a) => Instr::Address(*a),
            Assembly::AddressSymbol(s) => Instr::AddressSymbol(s@),
            Assembly::Command { dest, comp, jump } => Instr::Command {
                dest: *dest,
                comp: *comp,
                jump: *jump,
            },
        }
    }
}

/// Shorthand for a label-definition instruction.
pub open spec fn lbl(name: Seq<char>) -> Instr {
    Instr::Label(name)
}

/// Shorthand for a comment instruction.
pub open spec fn cmt(text: Seq<char>) -> Instr {
    Instr::Comment(text)
}

/// Shorthand for a symbolic address load.
pub open spec fn sym(name: Seq<char>) -> Instr {
    Instr::AddressSymbol(name)
}

/// Shorthand for an assignment command without a jump.
pub open spec fn asg(dest: Dest, comp: Comp) -> Instr {
    Instr::Command { dest: Some(dest), comp, jump: None }
}

/// Shorthand for a jump command without a destination.
pub open spec fn jmp(comp: Comp, jump: Jump) -> Instr {
    Instr::Command { dest: None, comp, jump: Some(jump) }
}

impl Assembly {
    /// A comment carrying the given text.
    pub fn comment(s: &str) -> (r: Assembly)
        ensures
            r@ == cmt(s@),
    {
        Assembly::Comment(s.to_owned())
    }

    /// A label definition with the given name.
    pub fn label(s: &str) -> (r: Assembly)
        ensures
            r@ == lbl(s@),
    {
        Assembly::Label(s.to_owned())
    }

    /// A symbolic address load of the given name.
    pub fn addr_sym(s: &str) -> (r: Assembly)
        ensures
            r@ == sym(s@),
    {
        Assembly::AddressSymbol(s.to_owned())
    }

    /// The stack-pointer register symbol.
    pub fn sp() -> (r: Assembly)
        ensures
            r@ == sym("SP"@),
    {
        Assembly::addr_sym("SP")
    }

    /// The local-frame base register symbol.
    pub fn local() -> (r: Assembly)
        ensures
            r@ == sym("LCL"@),
    {
        Assembly::addr_sym("LCL")
    }

    /// The argument-frame base register symbol.
    pub fn argument() -> (r: Assembly)
        ensures
            r@ == sym("ARG"@),
    {
        Assembly::addr_sym("ARG")
    }

    /// The first object-pointer base register symbol.
    pub fn this() -> (r: Assembly)
        ensures
            r@ == sym("THIS"@),
    {
        Assembly::addr_sym("THIS")
    }

    /// The second object-pointer base register symbol.
    pub fn that() -> (r: Assembly)
        ensures
            r@ == sym("THAT"@),
    {
        Assembly::addr_sym("THAT")
    }

    /// The scratch register used to stash an address across a pop.
    pub fn reg13() -> (r: Assembly)
        ensures
            r@ == sym("R13"@),
    {
        Assembly::addr_sym("R13")
    }

    /// A reserved scratch register, unused by the translation rules.
    pub fn reg14() -> (r: Assembly)
        ensures
            r@ == sym("R14"@),
    {
        Assembly::addr_sym("R14")
    }

    /// A reserved scratch register, unused by the translation rules.
    pub fn reg15() -> (r: Assembly)
        ensures
            r@ == sym("R15"@),
    {
        Assembly::addr_sym("R15")
    }

    /// An assignment command: store `comp` into every register of `dest`.
    pub fn assign(dest: Dest, comp: Comp) -> (r: Assembly)
        ensures
            r@ == asg(dest, comp),
    {
        Assembly::Command { dest: Some(dest), comp, jump: None }
    }
}

/// The rendering of a destination set, destination letters then `=`.
pub open spec fn dest_text(d: Dest) -> Seq<char> {
    match d {
        Dest::M => "M="@,
        Dest::D => "D="@,
        Dest::A => "A="@,
        Dest::DM => "DM="@,
        Dest::AM => "AM="@,
        Dest::AD => "AD="@,
        Dest::ADM => "ADM="@,
    }
}

/// The rendering of a computation.
pub open spec fn comp_text(c: Comp) -> Seq<char> {
    match c {
        Comp::Zero => "0"@,
        Comp::A => "A"@,
        Comp::M => "M"@,
        Comp::D => "D"@,
        Comp::Mplus1 => "M+1"@,
        Comp::DplusM => "D+M"@,
        Comp::DplusA => "D+A"@,
        Comp::DminusM => "D-M"@,
        Comp::MminusD => "M-D"@,
        Comp::Dminus1 => "D-1"@,
        Comp::Mminus1 => "M-1"@,
        Comp::NegateM => "-M"@,
        Comp::NotM => "!M"@,
        Comp::DandM => "D&M"@,
        Comp::DorM => "D|M"@,
    }
}

/// The rendering of a jump condition, `;` then the condition's name.
pub open spec fn jump_text(j: Jump) -> Seq<char> {
    match j {
        Jump::JLE => ";JLE"@,
        Jump::JEQ => ";JEQ"@,
        Jump::JGT => ";JGT"@,
        Jump::JLT => ";JLT"@,
        Jump::JMP => ";JMP"@,
    }
}

/// The canonical textual form of one instruction. Rendering is pure and
/// total: every constructible value has exactly one textual form.
pub open spec fn render_text(i: Instr) -> Seq<char> {
    match i {
        Instr::Label(s) => seq!['('] + s + seq![')'],
        Instr::Comment(s) => "// "@ + s,
        Instr::Address(a) => seq!['@'] + dec_spec(a as nat),
        Instr::AddressSymbol(s) => seq!['@'] + s,
        Instr::Command { dest, comp, jump } => (match dest {
            Some(d) => dest_text(d),
            None => Seq::empty(),
        }) + comp_text(comp) + (match jump {
            Some(j) => jump_text(j),
            None => Seq::empty(),
        }),
    }
}

impl Dest {
    /// The textual form of this destination set.
    pub fn render(&self) -> (r: String)
        ensures
            r@ == dest_text(*self),
    {
        let s = match self {
            Dest::M => "M=",
            Dest::D => "D=",
            Dest::A => "A=",
            Dest::DM => "DM=",
            Dest::AM => "AM=",
            Dest::AD => "AD=",
            Dest::ADM => "ADM=",
        };
        s.to_owned()
    }
}

impl Comp {
    /// The textual form of this computation.
    pub fn render(&self) -> (r: String)
        ensures
            r@ == comp_text(*self),
    {
        let s = match self {
            Comp::Zero => "0",
            Comp::A => "A",
            Comp::M => "M",
            Comp::D => "D",
            Comp::Mplus1 => "M+1",
            Comp::DplusM => "D+M",
            Comp::DplusA => "D+A",
            Comp::DminusM => "D-M",
            Comp::MminusD => "M-D",
            Comp::Dminus1 => "D-1",
            Comp::Mminus1 => "M-1",
            Comp::NegateM => "-M",
            Comp::NotM => "!M",
            Comp::DandM => "D&M",
            Comp::DorM => "D|M",
        };
        s.to_owned()
    }
}

impl Jump {
    /// The textual form of this jump condition.
    pub fn render(&self) -> (r: String)
        ensures
            r@ == jump_text(*self),
    {
        let s = match self {
            Jump::JLE => ";JLE",
            Jump::JEQ => ";JEQ",
            Jump::JGT => ";JGT",
            Jump::JLT => ";JLT",
            Jump::JMP => ";JMP",
        };
        s.to_owned()
    }
}

impl Assembly {
    /// The canonical textual form of this instruction, one output line.
    pub fn render(&self) -> (r: String)
        ensures
            r@ == render_text(self@),
    {
        match self {
            Assembly::Label(s) => {
                let r = "(".to_owned().concat(s.as_str()).concat(")");
                proof {
                    reveal_strlit("(");
                    reveal_strlit(")");
                    assert(r@ =~= render_text(self@));
                }
                r
            },
            Assembly::Comment(s) => {
                let r = "// ".to_owned().concat(s.as_str());
                r
            },
            Assembly::Address(a) => {
                let num = to_dec(*a as u64);
                let r = "@".to_owned().concat(num.as_str());
                proof {
                    reveal_strlit("@");
                    assert(r@ =~= render_text(self@));
                }
                r
            },
            Assembly::AddressSymbol(s) => {
                let r = "@".to_owned().concat(s.as_str());
                proof {
                    reveal_strlit("@");
                    assert(r@ =~= render_text(self@));
                }
                r
            },
            Assembly::Command { dest, comp, jump } => {
                let mut r = match dest {
                    Some(d) => d.render(),
                    None => String::new(),
                };
                r.append(comp.render().as_str());
                match jump {
                    Some(j) => {
                        r.append(j.render().as_str());
                    },
                    None => {
                        proof {
                            assert(r@ =~= r@ + Seq::<char>::empty());
                        }
                    },
                }
                r
            },
        }
    }
}

} // verus!
