//! The translator: converts one virtual-machine command into an ordered
//! sequence of assembly instructions.
//!
//! [`Babel`] owns the only cross-command state: the monotonically increasing
//! label-disambiguation counter and the per-unit basename used for static
//! symbols. [`Translation`] is one command's output block, built up by the
//! shared push/pop boilerplate helpers; its view is the sequence of
//! instruction models it holds.

use vstd::prelude::*;

use crate::assembly::{asg, cmt, comp_text, jmp, lbl, sym, Assembly, Comp, Dest, Instr, Jump};
use crate::commands::segment::{Segment, SegmentType};
use crate::commands::statics::{pop_static, pop_static_seq, push_static, push_static_seq};
use crate::commands::temp::{pop_temp, pop_temp_seq, push_temp, push_temp_seq};
use crate::commands::Command;
use crate::latt::{pop_latt, pop_latt_seq, push_latt, push_latt_seq};
use crate::pointer::{pop_pointer, pop_pointer_seq, push_pointer, push_pointer_seq};
use crate::text::{dec_spec, to_dec};

verus! {

/// The instruction models of a sequence of assembly values.
pub open spec fn views_of(s: Seq<Assembly>) -> Seq<Instr> {
    s.map_values(|a: Assembly| a@)
}

/// One command's output block, in emission order.
#[derive(Debug, Clone)]
pub struct Translation(pub Vec<Assembly>);

impl View for Translation {
    type V = Seq<Instr>;

    open spec fn view(&self) -> Seq<Instr> {
        views_of(self.0@)
    }
}

/// Read the stack-top value (the slot the stack pointer addresses) into the
/// accumulator.
pub open spec fn sp_to_dreg_seq() -> Seq<Instr> {
    seq![sym("SP"@), asg(Dest::A, Comp::M), asg(Dest::D, Comp::M)]
}

/// Store the accumulator into the slot the stack pointer addresses.
pub open spec fn dreg_to_sp_seq() -> Seq<Instr> {
    seq![sym("SP"@), asg(Dest::A, Comp::M), asg(Dest::M, Comp::D)]
}

/// Increment the stack pointer.
pub open spec fn incr_sp_seq() -> Seq<Instr> {
    seq![sym("SP"@), asg(Dest::M, Comp::Mplus1)]
}

/// Decrement the stack pointer.
pub open spec fn decr_sp_seq() -> Seq<Instr> {
    seq![sym("SP"@), asg(Dest::M, Comp::Mminus1)]
}

/// Stash the accumulator in the scratch register.
pub open spec fn dreg_to_reg13_seq() -> Seq<Instr> {
    seq![sym("R13"@), asg(Dest::M, Comp::D)]
}

/// The terminal halt loop: a label bound to an unconditional jump to itself.
pub open spec fn finish_seq() -> Seq<Instr> {
    seq![lbl("END"@), sym("END"@), jmp(Comp::Zero, Jump::JMP)]
}

/// The in-place block of a unary operation: one comment, then rewrite the
/// stack-top slot with `m_comp` of itself; stack depth is unchanged.
pub open spec fn unary_seq(m_comp: Comp) -> Seq<Instr> {
    seq![
        cmt("Unary "@ + comp_text(m_comp)),
        sym("SP"@),
        asg(Dest::M, Comp::Mminus1),
        asg(Dest::A, Comp::M),
        asg(Dest::M, m_comp),
        sym("SP"@),
        asg(Dest::M, Comp::Mplus1),
    ]
}

/// The block of a binary operation: pop the top value into the accumulator,
/// pop the value beneath it under the pointer register, combine them with
/// `dm_comp` (the accumulator holds the top value, memory the one beneath),
/// and push the single result; net stack effect is one slot less.
pub open spec fn binary_seq(dm_comp: Comp) -> Seq<Instr> {
    seq![
        sym("SP"@),
        asg(Dest::M, Comp::Mminus1),
        asg(Dest::A, Comp::M),
        asg(Dest::D, Comp::M),
        sym("SP"@),
        asg(Dest::M, Comp::Mminus1),
        asg(Dest::A, Comp::M),
        asg(Dest::D, dm_comp),
        sym("SP"@),
        asg(Dest::A, Comp::M),
        asg(Dest::M, Comp::D),
        sym("SP"@),
        asg(Dest::M, Comp::Mplus1),
    ]
}

/// The name of a jump condition, as it appears in generated label names.
pub open spec fn jump_name(j: Jump) -> Seq<char> {
    match j {
        Jump::JLE => "JLE"@,
        Jump::JEQ => "JEQ"@,
        Jump::JGT => "JGT"@,
        Jump::JLT => "JLT"@,
        Jump::JMP => "JMP"@,
    }
}

/// The "true"-branch label of the comparison that took counter value `n`.
pub open spec fn true_label(j: Jump, n: nat) -> Seq<char> {
    jump_name(j) + dec_spec(n)
}

/// The convergence label of the comparison that took counter value `n`.
pub open spec fn after_label(n: nat) -> Seq<char> {
    "AFTER"@ + dec_spec(n)
}

/// The block of a comparison parameterized by the zero-test `jump` that
/// selects the true branch, using counter value `n` for both labels: compute
/// top minus second-from-top into the accumulator, branch to the true label
/// on `jump`, push all-zero-bits (false) and jump to the after label on the
/// fall-through path, push all-one-bits (true) at the true label, and
/// converge; net stack effect is one slot less.
pub open spec fn ord_seq(jump: Jump, n: nat) -> Seq<Instr> {
    seq![
        sym("SP"@),
        asg(Dest::M, Comp::Mminus1),
        asg(Dest::A, Comp::M),
        asg(Dest::D, Comp::M),
        sym("SP"@),
        asg(Dest::M, Comp::Mminus1),
        asg(Dest::A, Comp::M),
        asg(Dest::D, Comp::DminusM),
        sym(true_label(jump, n)),
        jmp(Comp::D, jump),
        Instr::Address(0),
        asg(Dest::D, Comp::A),
        sym("SP"@),
        asg(Dest::A, Comp::M),
        asg(Dest::M, Comp::D),
        sym(after_label(n)),
        jmp(Comp::Zero, Jump::JMP),
        lbl(true_label(jump, n)),
        Instr::Address(0),
        asg(Dest::D, Comp::A),
        sym("SP"@),
        asg(Dest::A, Comp::M),
        asg(Dest::M, Comp::Dminus1),
        lbl(after_label(n)),
        sym("SP"@),
        asg(Dest::M, Comp::Mplus1),
    ]
}

impl Translation {
    /// An empty block.
    pub fn new() -> (r: Self)
        ensures
            r@ == Seq::<Instr>::empty(),
    {
        let r = Translation(Vec::new());
        proof {
            assert(r@ =~= Seq::<Instr>::empty());
        }
        r
    }

    /// Append one instruction.
    pub fn push(&mut self, instruction: Assembly)
        ensures
            final(self)@ == old(self)@.push(instruction@),
    {
        self.0.push(instruction);
        proof {
            assert(self@ =~= old(self)@.push(instruction@));
        }
    }

    /// Append a sequence of instructions in order.
    pub fn with_asm(&mut self, items: Vec<Assembly>)
        ensures
            final(self)@ == old(self)@ + views_of(items@),
    {
        let mut rest = items;
        self.0.append(&mut rest);
        proof {
            assert(self@ =~= old(self)@ + views_of(items@));
        }
    }

    /// Append a comment naming the command being translated.
    pub fn comment(&mut self, cmd: &Command)
        ensures
            final(self)@ == old(self)@.push(cmt(cmd.canon_text())),
    {
        let text = cmd.describe();
        self.push(Assembly::comment(text.as_str()));
    }

    /// Append the read of the stack top into the accumulator.
    pub fn store_sp_to_dreg(&mut self)
        ensures
            final(self)@ == old(self)@ + sp_to_dreg_seq(),
    {
        self.with_asm(
            vec![
                Assembly::sp(),
                Assembly::assign(Dest::A, Comp::M),
                Assembly::assign(Dest::D, Comp::M),
            ],
        );
        proof {
            assert(final(self)@ =~= old(self)@ + sp_to_dreg_seq());
        }
    }

    /// Append the store of the accumulator into the stack-top slot.
    pub fn store_dreg_to_sp(&mut self)
        ensures
            final(self)@ == old(self)@ + dreg_to_sp_seq(),
    {
        self.with_asm(
            vec![
                Assembly::sp(),
                Assembly::assign(Dest::A, Comp::M),
                Assembly::assign(Dest::M, Comp::D),
            ],
        );
        proof {
            assert(final(self)@ =~= old(self)@ + dreg_to_sp_seq());
        }
    }

    /// Append the stack-pointer increment.
    pub fn increment_sp(&mut self)
        ensures
            final(self)@ == old(self)@ + incr_sp_seq(),
    {
        self.with_asm(vec![Assembly::sp(), Assembly::assign(Dest::M, Comp::Mplus1)]);
        proof {
            assert(final(self)@ =~= old(self)@ + incr_sp_seq());
        }
    }

    /// Append the stack-pointer decrement.
    pub fn decrement_sp(&mut self)
        ensures
            final(self)@ == old(self)@ + decr_sp_seq(),
    {
        self.with_asm(vec![Assembly::sp(), Assembly::assign(Dest::M, Comp::Mminus1)]);
        proof {
            assert(final(self)@ =~= old(self)@ + decr_sp_seq());
        }
    }

    /// Append the stash of the accumulator into the scratch register. A pop
    /// into an addressed segment must save the destination address here
    /// before the pointer register is reused to read the stack top.
    pub fn store_dreg_in_reg13(&mut self)
        ensures
            final(self)@ == old(self)@ + dreg_to_reg13_seq(),
    {
        self.with_asm(vec![Assembly::reg13(), Assembly::assign(Dest::M, Comp::D)]);
        proof {
            assert(final(self)@ =~= old(self)@ + dreg_to_reg13_seq());
        }
    }

    /// The terminal block appended once after the last translated command: an
    /// infinite halt loop, so execution never falls off the program's end.
    pub fn finish() -> (r: Self)
        ensures
            r@ == finish_seq(),
    {
        let mut t = Self::new();
        t.with_asm(
            vec![
                Assembly::label("END"),
                Assembly::addr_sym("END"),
                Assembly::Command { dest: None, comp: Comp::Zero, jump: Some(Jump::JMP) },
            ],
        );
        proof {
            assert(t@ =~= finish_seq());
        }
        t
    }

    /// Append the in-place block of a unary operation.
    pub fn unary_asm(&mut self, m_comp: Comp)
        ensures
            final(self)@ == old(self)@ + unary_seq(m_comp),
    {
        let text = "Unary ".to_owned().concat(m_comp.render().as_str());
        self.with_asm(
            vec![
                Assembly::comment(text.as_str()),
                Assembly::sp(),
                Assembly::assign(Dest::M, Comp::Mminus1),
                Assembly::assign(Dest::A, Comp::M),
                Assembly::assign(Dest::M, m_comp),
                Assembly::sp(),
                Assembly::assign(Dest::M, Comp::Mplus1),
            ],
        );
        proof {
            assert(final(self)@ =~= old(self)@ + unary_seq(m_comp));
        }
    }

    /// Append the block of a binary operation.
    pub fn binary_asm(&mut self, dm_comp: Comp)
        ensures
            final(self)@ == old(self)@ + binary_seq(dm_comp),
    {
        self.with_asm(
            vec![
                Assembly::sp(),
                Assembly::assign(Dest::M, Comp::Mminus1),
                Assembly::assign(Dest::A, Comp::M),
                Assembly::assign(Dest::D, Comp::M),
                Assembly::sp(),
                Assembly::assign(Dest::M, Comp::Mminus1),
                Assembly::assign(Dest::A, Comp::M),
                Assembly::assign(Dest::D, dm_comp),
                Assembly::sp(),
                Assembly::assign(Dest::A, Comp::M),
                Assembly::assign(Dest::M, Comp::D),
                Assembly::sp(),
                Assembly::assign(Dest::M, Comp::Mplus1),
            ],
        );
        proof {
            assert(final(self)@ =~= old(self)@ + binary_seq(dm_comp));
        }
    }

    /// Append the block of a comparison selected by `jump`, incrementing the
    /// shared label counter exactly once; both fresh labels are derived from
    /// the incremented value, so no two comparisons in one program share a
    /// label.
    pub fn ord_asm(&mut self, counter: &mut usize, jump: Jump)
        requires
            *old(counter) < usize::MAX,
        ensures
            *final(counter) == *old(counter) + 1,
            final(self)@ == old(self)@ + ord_seq(jump, *final(counter) as nat),
    {
        *counter += 1;
        let n = *counter;
        let jump_text = match jump {
            Jump::JLE => "JLE",
            Jump::JEQ => "JEQ",
            Jump::JGT => "JGT",
            Jump::JLT => "JLT",
            Jump::JMP => "JMP",
        };
        let number = to_dec(n as u64);
        let true_name = jump_text.to_owned().concat(number.as_str());
        let after_name = "AFTER".to_owned().concat(number.as_str());
        proof {
            assert(true_name@ == true_label(jump, n as nat));
            assert(after_name@ == after_label(n as nat));
        }
        self.with_asm(
            vec![
                Assembly::sp(),
                Assembly::assign(Dest::M, Comp::Mminus1),
                Assembly::assign(Dest::A, Comp::M),
                Assembly::assign(Dest::D, Comp::M),
                Assembly::sp(),
                Assembly::assign(Dest::M, Comp::Mminus1),
                Assembly::assign(Dest::A, Comp::M),
                Assembly::assign(Dest::D, Comp::DminusM),
                Assembly::addr_sym(true_name.as_str()),
                Assembly::Command { dest: None, comp: Comp::D, jump: Some(jump) },
                Assembly::Address(0),
                Assembly::assign(Dest::D, Comp::A),
                Assembly::sp(),
                Assembly::assign(Dest::A, Comp::M),
                Assembly::assign(Dest::M, Comp::D),
                Assembly::addr_sym(after_name.as_str()),
                Assembly::Command { dest: None, comp: Comp::Zero, jump: Some(Jump::JMP) },
                Assembly::label(true_name.as_str()),
                Assembly::Address(0),
                Assembly::assign(Dest::D, Comp::A),
                Assembly::sp(),
                Assembly::assign(Dest::A, Comp::M),
                Assembly::assign(Dest::M, Comp::Dminus1),
                Assembly::label(after_name.as_str()),
                Assembly::sp(),
                Assembly::assign(Dest::M, Comp::Mplus1),
            ],
        );
        proof {
            assert(final(self)@ =~= old(self)@ + ord_seq(jump, *counter as nat));
        }
    }
}

/// The block of `push constant x`: load the literal into the accumulator,
/// store to the stack top, increment the stack pointer.
pub open spec fn push_constant_seq(x: u16) -> Seq<Instr> {
    seq![
        Instr::Address(x as u32),
        asg(Dest::D, Comp::A),
        sym("SP"@),
        asg(Dest::A, Comp::M),
        asg(Dest::M, Comp::D),
        sym("SP"@),
        asg(Dest::M, Comp::Mplus1),
    ]
}

/// The instructions a command translates to, after its leading comment.
pub open spec fn body_seq(cmd: Command, counter: nat, basename: Seq<char>) -> Seq<Instr> {
    match cmd {
        Command::Push(s) => match s.segment {
            SegmentType::Pointer => push_pointer_seq(s.index as nat),
            SegmentType::Constant => push_constant_seq(s.index),
            SegmentType::LATT(l) => push_latt_seq(l, s.index as nat),
            SegmentType::Temp => push_temp_seq(s.index as nat),
            SegmentType::Static => push_static_seq(basename, s.index as nat),
        },
        Command::Pop(s) => match s.segment {
            SegmentType::Pointer => pop_pointer_seq(s.index as nat),
            SegmentType::LATT(l) => pop_latt_seq(l, s.index as nat),
            SegmentType::Temp => pop_temp_seq(s.index as nat),
            SegmentType::Static => pop_static_seq(basename, s.index as nat),
            SegmentType::Constant => Seq::empty(),
        },
        Command::Add => seq![cmt("addition"@)] + binary_seq(Comp::DplusM),
        Command::Subtract => seq![cmt("subtract"@)] + binary_seq(Comp::MminusD),
        Command::Equal => seq![cmt("equal"@)] + ord_seq(Jump::JEQ, counter + 1),
        Command::LessThan => seq![cmt("less than"@)] + ord_seq(Jump::JGT, counter + 1),
        Command::GreaterThan => seq![cmt("greater than"@)] + ord_seq(Jump::JLT, counter + 1),
        Command::Negate => seq![cmt("negation"@)] + unary_seq(Comp::NegateM),
        Command::Not => seq![cmt("not"@)] + unary_seq(Comp::NotM),
        Command::And => seq![cmt("and cmd"@)] + binary_seq(Comp::DandM),
        Command::Or => seq![cmt("or cmd"@)] + binary_seq(Comp::DorM),
    }
}

/// The whole output block of one command translated with the given counter
/// and basename: a comment carrying the command's source text, then the
/// command's instructions. Translation is a pure function of these three
/// values, which is what makes the translator deterministic.
pub open spec fn translate_seq(cmd: Command, counter: nat, basename: Seq<char>) -> Seq<Instr> {
    seq![cmt(cmd.canon_text())] + body_seq(cmd, counter, basename)
}

/// The label counter after translating one command: up by one for a
/// comparison, unchanged otherwise.
pub open spec fn next_counter(cmd: Command, counter: nat) -> nat {
    if cmd.is_comparison() {
        counter + 1
    } else {
        counter
    }
}

/// The number of comparison operations in a command sequence.
pub open spec fn cmp_count(cmds: Seq<Command>) -> nat
    decreases cmds.len(),
{
    if cmds.len() == 0 {
        0
    } else {
        (if cmds[0].is_comparison() {
            1nat
        } else {
            0nat
        }) + cmp_count(cmds.skip(1))
    }
}

/// The instruction stream of a whole command sequence, each command's block
/// in source order, the counter threaded through.
pub open spec fn translate_program_seq(
    cmds: Seq<Command>,
    counter: nat,
    basename: Seq<char>,
) -> Seq<Instr>
    decreases cmds.len(),
{
    if cmds.len() == 0 {
        Seq::empty()
    } else {
        translate_seq(cmds[0], counter, basename) + translate_program_seq(
            cmds.skip(1),
            next_counter(cmds[0], counter),
            basename,
        )
    }
}

pub proof fn lemma_cmp_count_push(s: Seq<Command>, x: Command)
    ensures
        cmp_count(s.push(x)) == cmp_count(s) + (if x.is_comparison() {
            1nat
        } else {
            0nat
        }),
    decreases s.len(),
{
    if s.len() == 0 {
        assert(s.push(x)[0] == x);
        assert(s.push(x).skip(1) =~= Seq::<Command>::empty());
        assert(cmp_count(Seq::<Command>::empty()) == 0);
    } else {
        assert(s.push(x)[0] == s[0]);
        assert(s.push(x).skip(1) =~= s.skip(1).push(x));
        lemma_cmp_count_push(s.skip(1), x);
    }
}

/// Extending the command sequence by one command appends that command's block,
/// translated at the accumulated counter.
pub proof fn lemma_translate_program_push(
    s: Seq<Command>,
    x: Command,
    counter: nat,
    basename: Seq<char>,
)
    ensures
        translate_program_seq(s.push(x), counter, basename) == translate_program_seq(
            s,
            counter,
            basename,
        ) + translate_seq(x, counter + cmp_count(s), basename),
    decreases s.len(),
{
    if s.len() == 0 {
        assert(s.push(x)[0] == x);
        assert(s.push(x).skip(1) =~= Seq::<Command>::empty());
        assert(translate_program_seq(
            Seq::<Command>::empty(),
            next_counter(x, counter),
            basename,
        ) == Seq::<Instr>::empty());
        assert(translate_program_seq(s.push(x), counter, basename) =~= translate_program_seq(
            s,
            counter,
            basename,
        ) + translate_seq(x, counter + cmp_count(s), basename));
    } else {
        assert(s.push(x)[0] == s[0]);
        assert(s.push(x).skip(1) =~= s.skip(1).push(x));
        lemma_translate_program_push(s.skip(1), x, next_counter(s[0], counter), basename);
        assert(translate_program_seq(s.push(x), counter, basename) =~= translate_program_seq(
            s,
            counter,
            basename,
        ) + translate_seq(x, counter + cmp_count(s), basename));
    }
}

/// A prefix never holds more comparisons than the whole sequence.
pub proof fn lemma_cmp_count_take_le(cmds: Seq<Command>, i: int)
    requires
        0 <= i <= cmds.len(),
    ensures
        cmp_count(cmds.take(i)) <= cmp_count(cmds),
    decreases cmds.len() - i,
{
    if i == cmds.len() {
        assert(cmds.take(i) =~= cmds);
    } else {
        assert(cmds.take(i + 1) =~= cmds.take(i).push(cmds[i]));
        lemma_cmp_count_push(cmds.take(i), cmds[i]);
        lemma_cmp_count_take_le(cmds, i + 1);
    }
}

/// The translator: one instance per translation unit, owning the unit's
/// label-disambiguation counter and basename.
pub struct Babel {
    /// Counts the comparison operations translated so far; both labels of a
    /// comparison are derived from its incremented value, so labels are
    /// unique across one program.
    pub counter: usize,
    /// The translation unit's basename, fixed at construction and used only
    /// for static-segment symbol naming.
    pub basename: String,
}

impl Babel {
    /// A fresh translator for the unit named `basename`, its counter at zero.
    pub fn empty(basename: &str) -> (r: Self)
        ensures
            r.counter == 0,
            r.basename@ == basename@,
    {
        Babel { counter: 0, basename: basename.to_owned() }
    }

    /// Translates one command into its output block.
    ///
    /// The block is exactly `translate_seq` of the command, the current
    /// counter and the basename; the counter advances by one on a comparison
    /// and is otherwise untouched, and the basename never changes.
    pub fn translate(&mut self, cmd: &Command) -> (r: Translation)
        requires
            cmd.wf(),
            cmd.is_comparison() ==> old(self).counter < usize::MAX,
        ensures
            final(self).basename == old(self).basename,
            final(self).counter as nat == next_counter(*cmd, old(self).counter as nat),
            r@ == translate_seq(*cmd, old(self).counter as nat, old(self).basename@),
    {
        let mut translator = Translation::new();
        translator.comment(cmd);
        match cmd {
            Command::Push(Segment { segment: SegmentType::Pointer, index }) => {
                push_pointer(&mut translator, *index);
            },
            Command::Pop(Segment { segment: SegmentType::Pointer, index }) => {
                pop_pointer(&mut translator, *index);
            },
            Command::Push(Segment { segment: SegmentType::Constant, index: x }) => {
                translator.with_asm(
                    vec![
                        Assembly::Address(*x as u32),
                        Assembly::assign(Dest::D, Comp::A),
                        Assembly::sp(),
                        Assembly::assign(Dest::A, Comp::M),
                        Assembly::assign(Dest::M, Comp::D),
                        Assembly::sp(),
                        Assembly::assign(Dest::M, Comp::Mplus1),
                    ],
                );
                proof {
                    assert(translator@ =~= seq![cmt(cmd.canon_text())] + push_constant_seq(*x));
                }
            },
            Command::Push(Segment { segment: SegmentType::LATT(latt), index }) => {
                push_latt(&mut translator, *latt, *index);
            },
            Command::Pop(Segment { segment: SegmentType::LATT(latt), index }) => {
                pop_latt(&mut translator, *latt, *index);
            },
            Command::Pop(Segment { segment: SegmentType::Temp, index }) => {
                pop_temp(&mut translator, *index);
            },
            Command::Push(Segment { segment: SegmentType::Temp, index }) => {
                push_temp(&mut translator, *index);
            },
            Command::Pop(Segment { segment: SegmentType::Static, index }) => {
                pop_static(&mut translator, *index, self.basename.as_str());
            },
            Command::Push(Segment { segment: SegmentType::Static, index }) => {
                push_static(&mut translator, *index, self.basename.as_str());
            },
            Command::Pop(Segment { segment: SegmentType::Constant, .. }) => {
                proof {
                    assert(false);
                }
            },
            Command::Add => {
                translator.push(Assembly::comment("addition"));
                translator.binary_asm(Comp::DplusM);
            },
            Command::Subtract => {
                translator.push(Assembly::comment("subtract"));
                translator.binary_asm(Comp::MminusD);
            },
            Command::Equal => {
                translator.push(Assembly::comment("equal"));
                translator.ord_asm(&mut self.counter, Jump::JEQ);
            },
            Command::LessThan => {
                translator.push(Assembly::comment("less than"));
                translator.ord_asm(&mut self.counter, Jump::JGT);
            },
            Command::GreaterThan => {
                translator.push(Assembly::comment("greater than"));
                translator.ord_asm(&mut self.counter, Jump::JLT);
            },
            Command::Negate => {
                translator.push(Assembly::comment("negation"));
                translator.unary_asm(Comp::NegateM);
            },
            Command::Not => {
                translator.push(Assembly::comment("not"));
                translator.unary_asm(Comp::NotM);
            },
            Command::And => {
                translator.push(Assembly::comment("and cmd"));
                translator.binary_asm(Comp::DandM);
            },
            Command::Or => {
                translator.push(Assembly::comment("or cmd"));
                translator.binary_asm(Comp::DorM);
            },
        }
        proof {
            assert(translator@ =~= translate_seq(
                *cmd,
                old(self).counter as nat,
                old(self).basename@,
            ));
        }
        translator
    }

    /// Translates a whole command sequence in source order, concatenating the
    /// blocks; the output is `translate_program_seq` of the commands, the
    /// starting counter and the basename, and nothing else — so the stream is
    /// a pure function of those three values.
    pub fn translate_all(&mut self, cmds: &Vec<Command>) -> (r: Vec<Assembly>)
        requires
            forall|i: int| 0 <= i < cmds@.len() ==> (#[trigger] cmds@[i]).wf(),
            old(self).counter + cmp_count(cmds@) <= usize::MAX,
        ensures
            final(self).basename == old(self).basename,
            final(self).counter as nat == old(self).counter + cmp_count(cmds@),
            views_of(r@) == translate_program_seq(
                cmds@,
                old(self).counter as nat,
                old(self).basename@,
            ),
    {
        let ghost c0 = old(self).counter as nat;
        let mut out: Vec<Assembly> = Vec::new();
        proof {
            assert(cmds@.take(0) =~= Seq::<Command>::empty());
            assert(views_of(out@) =~= translate_program_seq(
                cmds@.take(0),
                c0,
                old(self).basename@,
            ));
        }
        let n = cmds.len();
        let mut i: usize = 0;
        while i < n
            invariant
                0 <= i <= n,
                n == cmds@.len(),
                forall|k: int| 0 <= k < cmds@.len() ==> (#[trigger] cmds@[k]).wf(),
                c0 + cmp_count(cmds@) <= usize::MAX,
                c0 == old(self).counter as nat,
                self.basename == old(self).basename,
                self.counter as nat == c0 + cmp_count(cmds@.take(i as int)),
                views_of(out@) == translate_program_seq(
                    cmds@.take(i as int),
                    c0,
                    old(self).basename@,
                ),
            decreases n - i,
        {
            proof {
                lemma_cmp_count_take_le(cmds@, i as int + 1);
                assert(cmds@.take(i as int + 1) =~= cmds@.take(i as int).push(cmds@[i as int]));
                lemma_cmp_count_push(cmds@.take(i as int), cmds@[i as int]);
            }
            let block = self.translate(&cmds[i]);
            let ghost out_before = out@;
            let mut more = block.0;
            out.append(&mut more);
            proof {
                lemma_translate_program_push(cmds@.take(i as int), cmds@[i as int], c0, old(
                    self,
                ).basename@);
                assert(views_of(out@) =~= views_of(out_before) + views_of(block.0@));
                assert(views_of(out@) =~= translate_program_seq(
                    cmds@.take(i as int + 1),
                    c0,
                    old(self).basename@,
                ));
            }
            i = i + 1;
        }
        proof {
            assert(cmds@.take(n as int) =~= cmds@);
        }
        out
    }
}

} // verus!
