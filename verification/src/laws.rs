//! The proved laws of the translator: what the emitted code does to the
//! stack pointer, what the comparisons leave on the stack, how labels stay
//! unique across a program, and why translation is deterministic.

use vstd::prelude::*;

use crate::assembly::{lbl, sym, Instr};
use crate::babel::{
    after_label, cmp_count, finish_seq, jump_name, next_counter, translate_program_seq,
    translate_seq, true_label,
};
use crate::text::{dec_spec, is_digit_char, lemma_dec_chars_are_digits, lemma_dec_injective,
    lemma_dec_len};
use crate::commands::segment::{static_symbol, Segment, SegmentType, LATT};
use crate::commands::Command;
use crate::machine::{
    eval_comp, jump_taken, lookup_spec, run_n, step_spec, w_add, w_sub, MState, TRUE_WORD,
};
use crate::assembly::{Comp, Jump};

verus! {

/// The stack-pointer displacement one command's block causes: one slot gained
/// by a push, one lost by a pop, one lost by a binary or comparison
/// operation, none by a unary operation.
pub open spec fn sp_delta(cmd: Command) -> int {
    match cmd {
        Command::Push(_) => 1,
        Command::Pop(_) => -1,
        Command::Negate | Command::Not => 0,
        _ => -1,
    }
}

/// The zero-test a comparison branches on.
pub open spec fn jump_of(cmd: Command) -> Jump {
    match cmd {
        Command::Equal => Jump::JEQ,
        Command::LessThan => Jump::JGT,
        _ => Jump::JLT,
    }
}

/// The fixed memory cell backing a frame segment's base register.
pub open spec fn reg_of_latt(l: LATT) -> int {
    match l {
        LATT::Local => 1,
        LATT::Argument => 2,
        LATT::This => 3,
        LATT::That => 4,
    }
}

/// The fixed memory cell a pointer-segment index denotes.
pub open spec fn pointer_addr(index: u16) -> int {
    if index == 0 {
        3
    } else {
        4
    }
}

/// The symbol table binds every named register to its fixed cell.
pub open spec fn base_symbols_ok(st: Seq<(Seq<char>, u16)>) -> bool {
    &&& lookup_spec(st, "SP"@) == Some(0u16)
    &&& lookup_spec(st, "LCL"@) == Some(1u16)
    &&& lookup_spec(st, "ARG"@) == Some(2u16)
    &&& lookup_spec(st, "THIS"@) == Some(3u16)
    &&& lookup_spec(st, "THAT"@) == Some(4u16)
    &&& lookup_spec(st, "R13"@) == Some(13u16)
}

/// The slot a segment reference reads or writes, in a given state.
pub open spec fn seg_addr(
    s: Segment,
    basename: Seq<char>,
    st: Seq<(Seq<char>, u16)>,
    m: MState,
) -> int {
    match s.segment {
        SegmentType::Constant => 0,
        SegmentType::LATT(l) => w_add(m.ram[reg_of_latt(l)], s.index) as int,
        SegmentType::Temp => 5 + s.index,
        SegmentType::Static => lookup_spec(st, static_symbol(basename, s.index as nat)).unwrap()
            as int,
        SegmentType::Pointer => pointer_addr(s.index),
    }
}

/// What a segment access needs of the starting state: literal operands in
/// the 15-bit range, the accessed slot inside memory, and (for a write) the
/// slot distinct from the stack-pointer cell, so the segment store cannot
/// alias the stack pointer.
pub open spec fn seg_ready(
    s: Segment,
    write: bool,
    basename: Seq<char>,
    st: Seq<(Seq<char>, u16)>,
    m: MState,
) -> bool {
    match s.segment {
        SegmentType::Constant => s.index < 0x8000,
        SegmentType::LATT(_) => {
            &&& s.index < 0x8000
            &&& seg_addr(s, basename, st, m) < m.ram.len()
            &&& (write ==> seg_addr(s, basename, st, m) != 0)
        },
        SegmentType::Temp => {
            &&& 5 + s.index < 0x8000
            &&& 5 + s.index < m.ram.len()
        },
        SegmentType::Static => {
            &&& lookup_spec(st, static_symbol(basename, s.index as nat)) is Some
            &&& seg_addr(s, basename, st, m) < m.ram.len()
            &&& (write ==> seg_addr(s, basename, st, m) != 0)
        },
        SegmentType::Pointer => true,
    }
}

/// What running one command's block needs of the starting state: the program
/// counter at the block's head, the named registers bound to their cells, the
/// stack pointer above the register and temp block with room for one more
/// slot, the touched segment slot in range, and (for a comparison) the two
/// fresh labels bound to their positions inside the block.
pub open spec fn state_ready(
    cmd: Command,
    counter: nat,
    basename: Seq<char>,
    st: Seq<(Seq<char>, u16)>,
    m: MState,
) -> bool {
    &&& base_symbols_ok(st)
    &&& m.pc == 0
    &&& 16 <= m.ram[0]
    &&& m.ram[0] < 0xFFFF
    &&& m.ram[0] + 1 < m.ram.len()
    &&& match cmd {
        Command::Push(s) => seg_ready(s, false, basename, st, m),
        Command::Pop(s) => seg_ready(s, true, basename, st, m),
        Command::Equal | Command::GreaterThan | Command::LessThan => {
            &&& lookup_spec(st, crate::babel::true_label(jump_of(cmd), counter + 1)) == Some(
                19u16,
            )
            &&& lookup_spec(st, crate::babel::after_label(counter + 1)) == Some(25u16)
        },
        _ => true,
    }
}

/// Takes one step of a bounded run, handing back the next state and fuel.
proof fn advance(
    prog: Seq<Instr>,
    st: Seq<(Seq<char>, u16)>,
    m: MState,
    fuel: nat,
) -> (r: (MState, nat))
    requires
        fuel > 0,
        m.pc < prog.len(),
        step_spec(prog, st, m) is Some,
    ensures
        Some(r.0) == step_spec(prog, st, m),
        r.1 == fuel - 1,
        run_n(prog, st, m, fuel) == run_n(prog, st, r.0, r.1),
{
    (step_spec(prog, st, m).unwrap(), (fuel - 1) as nat)
}

/// Correctness of `push constant x`: the literal lands in the slot the
/// stack pointer addressed, the stack pointer moves up one, and nothing else
/// in memory changes.
pub proof fn lemma_push_constant(
    x: u16,
    counter: nat,
    basename: Seq<char>,
    st: Seq<(Seq<char>, u16)>,
    m: MState,
)
    requires
        x < 0x8000,
        state_ready(
            Command::Push(Segment { segment: SegmentType::Constant, index: x }),
            counter,
            basename,
            st,
            m,
        ),
    ensures
        ({
            let cmd = Command::Push(Segment { segment: SegmentType::Constant, index: x });
            let prog = translate_seq(cmd, counter, basename);
            let out = run_n(prog, st, m, 30);
            &&& out is Some
            &&& out.unwrap().pc == prog.len()
            &&& out.unwrap().ram.len() == m.ram.len()
            &&& out.unwrap().ram[0] as int == m.ram[0] + 1
            &&& out.unwrap().ram == m.ram.update(m.ram[0] as int, x).update(
                0,
                (m.ram[0] + 1) as u16,
            )
        }),
{
    let cmd = Command::Push(Segment { segment: SegmentType::Constant, index: x });
    let prog = translate_seq(cmd, counter, basename);
    let sp = m.ram[0];
    assert(prog.len() == 8);
    let (m1, fuel1) = advance(prog, st, m, 30);
    let (m2, fuel2) = advance(prog, st, m1, fuel1);
    let (m3, fuel3) = advance(prog, st, m2, fuel2);
    let (m4, fuel4) = advance(prog, st, m3, fuel3);
    let (m5, fuel5) = advance(prog, st, m4, fuel4);
    let (m6, fuel6) = advance(prog, st, m5, fuel5);
    let (m7, fuel7) = advance(prog, st, m6, fuel6);
    let (m8, fuel8) = advance(prog, st, m7, fuel7);
    assert(m8.ram[0] == w_add(sp, 1));
    assert(w_add(sp, 1) as int == sp + 1);
    assert(m8.ram =~= m.ram.update(sp as int, x).update(0, (sp + 1) as u16));
    assert(run_n(prog, st, m8, fuel8) == Some(m8));
}

/// Correctness of a push from a single-indirection segment (temp, static,
/// pointer): the value comes straight from the resolved cell, lands in the
/// slot the stack pointer addressed, and the stack pointer moves up one.
pub proof fn lemma_push_single(
    s: Segment,
    counter: nat,
    basename: Seq<char>,
    st: Seq<(Seq<char>, u16)>,
    m: MState,
)
    requires
        s.segment is Temp || s.segment is Static || s.segment is Pointer,
        Command::Push(s).wf(),
        state_ready(Command::Push(s), counter, basename, st, m),
    ensures
        ({
            let prog = translate_seq(Command::Push(s), counter, basename);
            let out = run_n(prog, st, m, 30);
            &&& out is Some
            &&& out.unwrap().pc == prog.len()
            &&& out.unwrap().ram.len() == m.ram.len()
            &&& out.unwrap().ram[0] as int == m.ram[0] + 1
            &&& out.unwrap().ram == m.ram.update(
                m.ram[0] as int,
                m.ram[seg_addr(s, basename, st, m)],
            ).update(0, (m.ram[0] + 1) as u16)
        }),
{
    let cmd = Command::Push(s);
    let prog = translate_seq(cmd, counter, basename);
    let sp = m.ram[0];
    assert(prog.len() == 8);
    let src = seg_addr(s, basename, st, m);
    assert(0 <= src < m.ram.len());
    let (m1, fuel1) = advance(prog, st, m, 30);
    let (m2, fuel2) = advance(prog, st, m1, fuel1);
    let (m3, fuel3) = advance(prog, st, m2, fuel2);
    let (m4, fuel4) = advance(prog, st, m3, fuel3);
    let (m5, fuel5) = advance(prog, st, m4, fuel4);
    let (m6, fuel6) = advance(prog, st, m5, fuel5);
    let (m7, fuel7) = advance(prog, st, m6, fuel6);
    let (m8, fuel8) = advance(prog, st, m7, fuel7);
    assert(m8.ram[0] == w_add(sp, 1));
    assert(w_add(sp, 1) as int == sp + 1);
    assert(m8.ram =~= m.ram.update(sp as int, m.ram[src]).update(0, (sp + 1) as u16));
    assert(run_n(prog, st, m8, fuel8) == Some(m8));
}

/// Correctness of a pop into a single-indirection segment: the stack pointer
/// moves down one and the old stack top lands in the resolved cell.
pub proof fn lemma_pop_single(
    s: Segment,
    counter: nat,
    basename: Seq<char>,
    st: Seq<(Seq<char>, u16)>,
    m: MState,
)
    requires
        s.segment is Temp || s.segment is Static || s.segment is Pointer,
        Command::Pop(s).wf(),
        state_ready(Command::Pop(s), counter, basename, st, m),
    ensures
        ({
            let prog = translate_seq(Command::Pop(s), counter, basename);
            let out = run_n(prog, st, m, 30);
            &&& out is Some
            &&& out.unwrap().pc == prog.len()
            &&& out.unwrap().ram.len() == m.ram.len()
            &&& out.unwrap().ram[0] as int == m.ram[0] - 1
            &&& out.unwrap().ram == m.ram.update(0, (m.ram[0] - 1) as u16).update(
                seg_addr(s, basename, st, m),
                m.ram[m.ram[0] - 1],
            )
        }),
{
    let cmd = Command::Pop(s);
    let prog = translate_seq(cmd, counter, basename);
    let sp = m.ram[0];
    assert(prog.len() == 8);
    let dst = seg_addr(s, basename, st, m);
    assert(0 < dst < m.ram.len());
    let (m1, fuel1) = advance(prog, st, m, 30);
    let (m2, fuel2) = advance(prog, st, m1, fuel1);
    let (m3, fuel3) = advance(prog, st, m2, fuel2);
    assert(m3.ram[0] == w_sub(sp, 1));
    assert(w_sub(sp, 1) as int == sp - 1);
    let (m4, fuel4) = advance(prog, st, m3, fuel3);
    let (m5, fuel5) = advance(prog, st, m4, fuel4);
    let (m6, fuel6) = advance(prog, st, m5, fuel5);
    let (m7, fuel7) = advance(prog, st, m6, fuel6);
    let (m8, fuel8) = advance(prog, st, m7, fuel7);
    assert(m8.ram[0] as int == sp - 1);
    assert(m8.ram =~= m.ram.update(0, (sp - 1) as u16).update(dst, m.ram[sp - 1]));
    assert(run_n(prog, st, m8, fuel8) == Some(m8));
}

/// Correctness of a push from a frame segment: double indirection — the
/// value at base-register-value-plus-index lands in the slot the stack
/// pointer addressed, and the stack pointer moves up one.
pub proof fn lemma_push_latt(
    s: Segment,
    counter: nat,
    basename: Seq<char>,
    st: Seq<(Seq<char>, u16)>,
    m: MState,
)
    requires
        s.segment is LATT,
        state_ready(Command::Push(s), counter, basename, st, m),
    ensures
        ({
            let prog = translate_seq(Command::Push(s), counter, basename);
            let out = run_n(prog, st, m, 30);
            &&& out is Some
            &&& out.unwrap().pc == prog.len()
            &&& out.unwrap().ram.len() == m.ram.len()
            &&& out.unwrap().ram[0] as int == m.ram[0] + 1
            &&& out.unwrap().ram == m.ram.update(
                m.ram[0] as int,
                m.ram[seg_addr(s, basename, st, m)],
            ).update(0, (m.ram[0] + 1) as u16)
        }),
{
    let cmd = Command::Push(s);
    let prog = translate_seq(cmd, counter, basename);
    let sp = m.ram[0];
    assert(prog.len() == 11);
    let target = seg_addr(s, basename, st, m);
    assert(0 <= target < m.ram.len());
    let (m1, fuel1) = advance(prog, st, m, 30);
    let (m2, fuel2) = advance(prog, st, m1, fuel1);
    let (m3, fuel3) = advance(prog, st, m2, fuel2);
    let (m4, fuel4) = advance(prog, st, m3, fuel3);
    let (m5, fuel5) = advance(prog, st, m4, fuel4);
    assert(m5.areg as int == target);
    let (m6, fuel6) = advance(prog, st, m5, fuel5);
    let (m7, fuel7) = advance(prog, st, m6, fuel6);
    let (m8, fuel8) = advance(prog, st, m7, fuel7);
    let (m9, fuel9) = advance(prog, st, m8, fuel8);
    let (m10, fuel10) = advance(prog, st, m9, fuel9);
    let (m11, fuel11) = advance(prog, st, m10, fuel10);
    assert(m11.ram[0] == w_add(sp, 1));
    assert(w_add(sp, 1) as int == sp + 1);
    assert(m11.ram =~= m.ram.update(sp as int, m.ram[target]).update(0, (sp + 1) as u16));
    assert(run_n(prog, st, m11, fuel11) == Some(m11));
}

/// Correctness of a pop into a frame segment: the destination address
/// (base-register-value-plus-index) is stashed in the scratch register before
/// the pointer register is reused to read the stack top; the stack pointer
/// moves down one and the old stack top lands in the destination slot.
pub proof fn lemma_pop_latt(
    s: Segment,
    counter: nat,
    basename: Seq<char>,
    st: Seq<(Seq<char>, u16)>,
    m: MState,
)
    requires
        s.segment is LATT,
        state_ready(Command::Pop(s), counter, basename, st, m),
    ensures
        ({
            let prog = translate_seq(Command::Pop(s), counter, basename);
            let out = run_n(prog, st, m, 30);
            &&& out is Some
            &&& out.unwrap().pc == prog.len()
            &&& out.unwrap().ram.len() == m.ram.len()
            &&& out.unwrap().ram[0] as int == m.ram[0] - 1
            &&& out.unwrap().ram == m.ram.update(
                13,
                seg_addr(s, basename, st, m) as u16,
            ).update(0, (m.ram[0] - 1) as u16).update(
                seg_addr(s, basename, st, m),
                m.ram[m.ram[0] - 1],
            )
        }),
{
    let cmd = Command::Pop(s);
    let prog = translate_seq(cmd, counter, basename);
    let sp = m.ram[0];
    assert(prog.len() == 15);
    let target = seg_addr(s, basename, st, m);
    assert(0 < target < m.ram.len());
    let (m1, fuel1) = advance(prog, st, m, 30);
    let (m2, fuel2) = advance(prog, st, m1, fuel1);
    let (m3, fuel3) = advance(prog, st, m2, fuel2);
    let (m4, fuel4) = advance(prog, st, m3, fuel3);
    let (m5, fuel5) = advance(prog, st, m4, fuel4);
    assert(m5.dreg as int == target);
    let (m6, fuel6) = advance(prog, st, m5, fuel5);
    let (m7, fuel7) = advance(prog, st, m6, fuel6);
    assert(m7.ram[13] as int == target);
    let (m8, fuel8) = advance(prog, st, m7, fuel7);
    let (m9, fuel9) = advance(prog, st, m8, fuel8);
    assert(m9.ram[0] == w_sub(sp, 1));
    assert(w_sub(sp, 1) as int == sp - 1);
    let (m10, fuel10) = advance(prog, st, m9, fuel9);
    let (m11, fuel11) = advance(prog, st, m10, fuel10);
    let (m12, fuel12) = advance(prog, st, m11, fuel11);
    let (m13, fuel13) = advance(prog, st, m12, fuel12);
    let (m14, fuel14) = advance(prog, st, m13, fuel13);
    assert(m14.areg as int == target);
    let (m15, fuel15) = advance(prog, st, m14, fuel14);
    assert(m15.ram[0] as int == sp - 1);
    assert(m15.ram =~= m.ram.update(13, target as u16).update(0, (sp - 1) as u16).update(
        target,
        m.ram[sp - 1],
    ));
    assert(run_n(prog, st, m15, fuel15) == Some(m15));
}

/// The computation a binary operation combines its operands with: the
/// accumulator holds the popped top value, memory the value beneath it, so
/// subtraction is second-from-top minus top.
pub open spec fn binary_comp_of(cmd: Command) -> Comp {
    match cmd {
        Command::Add => Comp::DplusM,
        Command::Subtract => Comp::MminusD,
        Command::And => Comp::DandM,
        _ => Comp::DorM,
    }
}

/// The computation a unary operation rewrites the stack top with.
pub open spec fn unary_comp_of(cmd: Command) -> Comp {
    match cmd {
        Command::Negate => Comp::NegateM,
        _ => Comp::NotM,
    }
}

/// Correctness of a binary operation: two slots consumed, one produced — the
/// combination of the two popped values is written where the lower operand
/// sat, and the stack pointer moves down one net. For subtraction the result
/// is second-from-top minus top, exactly.
pub proof fn lemma_binary(
    cmd: Command,
    counter: nat,
    basename: Seq<char>,
    st: Seq<(Seq<char>, u16)>,
    m: MState,
)
    requires
        cmd is Add || cmd is Subtract || cmd is And || cmd is Or,
        state_ready(cmd, counter, basename, st, m),
    ensures
        ({
            let prog = translate_seq(cmd, counter, basename);
            let out = run_n(prog, st, m, 30);
            &&& out is Some
            &&& out.unwrap().pc == prog.len()
            &&& out.unwrap().ram.len() == m.ram.len()
            &&& out.unwrap().ram[0] as int == m.ram[0] - 1
            &&& out.unwrap().ram == m.ram.update(
                m.ram[0] - 2,
                eval_comp(
                    binary_comp_of(cmd),
                    (m.ram[0] - 2) as u16,
                    m.ram[m.ram[0] - 1],
                    m.ram[m.ram[0] - 2],
                ),
            ).update(0, (m.ram[0] - 1) as u16)
        }),
{
    let prog = translate_seq(cmd, counter, basename);
    let sp = m.ram[0];
    assert(prog.len() == 15);
    let (m1, fuel1) = advance(prog, st, m, 30);
    let (m2, fuel2) = advance(prog, st, m1, fuel1);
    let (m3, fuel3) = advance(prog, st, m2, fuel2);
    let (m4, fuel4) = advance(prog, st, m3, fuel3);
    assert(m4.ram[0] == w_sub(sp, 1));
    assert(w_sub(sp, 1) as int == sp - 1);
    let (m5, fuel5) = advance(prog, st, m4, fuel4);
    let (m6, fuel6) = advance(prog, st, m5, fuel5);
    let (m7, fuel7) = advance(prog, st, m6, fuel6);
    let (m8, fuel8) = advance(prog, st, m7, fuel7);
    assert(m8.ram[0] == w_sub(w_sub(sp, 1), 1));
    assert(w_sub(w_sub(sp, 1), 1) as int == sp - 2);
    let (m9, fuel9) = advance(prog, st, m8, fuel8);
    let (m10, fuel10) = advance(prog, st, m9, fuel9);
    let (m11, fuel11) = advance(prog, st, m10, fuel10);
    let (m12, fuel12) = advance(prog, st, m11, fuel11);
    let (m13, fuel13) = advance(prog, st, m12, fuel12);
    let (m14, fuel14) = advance(prog, st, m13, fuel13);
    let (m15, fuel15) = advance(prog, st, m14, fuel14);
    assert(m15.ram[0] as int == sp - 1);
    assert(m15.ram =~= m.ram.update(
        sp - 2,
        eval_comp(binary_comp_of(cmd), (sp - 2) as u16, m.ram[sp - 1], m.ram[sp - 2]),
    ).update(0, (sp - 1) as u16));
    assert(run_n(prog, st, m15, fuel15) == Some(m15));
}

/// Correctness of a unary operation: the stack top rewritten in place with
/// the operation of itself, the stack pointer back where it started.
pub proof fn lemma_unary(
    cmd: Command,
    counter: nat,
    basename: Seq<char>,
    st: Seq<(Seq<char>, u16)>,
    m: MState,
)
    requires
        cmd is Negate || cmd is Not,
        state_ready(cmd, counter, basename, st, m),
    ensures
        ({
            let prog = translate_seq(cmd, counter, basename);
            let out = run_n(prog, st, m, 30);
            &&& out is Some
            &&& out.unwrap().pc == prog.len()
            &&& out.unwrap().ram.len() == m.ram.len()
            &&& out.unwrap().ram[0] == m.ram[0]
            &&& out.unwrap().ram == m.ram.update(
                m.ram[0] - 1,
                eval_comp(
                    unary_comp_of(cmd),
                    (m.ram[0] - 1) as u16,
                    m.dreg,
                    m.ram[m.ram[0] - 1],
                ),
            )
        }),
{
    let prog = translate_seq(cmd, counter, basename);
    let sp = m.ram[0];
    assert(prog.len() == 9);
    let (m1, fuel1) = advance(prog, st, m, 30);
    let (m2, fuel2) = advance(prog, st, m1, fuel1);
    let (m3, fuel3) = advance(prog, st, m2, fuel2);
    let (m4, fuel4) = advance(prog, st, m3, fuel3);
    let (m5, fuel5) = advance(prog, st, m4, fuel4);
    assert(m5.ram[0] == w_sub(sp, 1));
    assert(w_sub(sp, 1) as int == sp - 1);
    let (m6, fuel6) = advance(prog, st, m5, fuel5);
    let (m7, fuel7) = advance(prog, st, m6, fuel6);
    let (m8, fuel8) = advance(prog, st, m7, fuel7);
    let (m9, fuel9) = advance(prog, st, m8, fuel8);
    assert(m9.ram[0] == w_add(w_sub(sp, 1), 1));
    assert(w_add(w_sub(sp, 1), 1) == sp);
    assert(m9.ram =~= m.ram.update(
        sp - 1,
        eval_comp(unary_comp_of(cmd), (sp - 1) as u16, m.dreg, m.ram[sp - 1]),
    ));
    assert(run_n(prog, st, m9, fuel9) == Some(m9));
}

/// Correctness of a comparison: one slot consumed net, and the slot where
/// the lower operand sat ends holding all-one-bits when the zero-test holds
/// of top-minus-second, all-zero-bits otherwise — never any other value.
#[verifier::rlimit(100)]
pub proof fn lemma_comparison_run(
    cmd: Command,
    counter: nat,
    basename: Seq<char>,
    st: Seq<(Seq<char>, u16)>,
    m: MState,
)
    requires
        cmd.is_comparison(),
        state_ready(cmd, counter, basename, st, m),
    ensures
        ({
            let prog = translate_seq(cmd, counter, basename);
            let out = run_n(prog, st, m, 30);
            let sp = m.ram[0];
            let below = m.ram[sp - 2];
            let top = m.ram[sp - 1];
            &&& out is Some
            &&& out.unwrap().pc == prog.len()
            &&& out.unwrap().ram.len() == m.ram.len()
            &&& out.unwrap().ram[0] as int == sp - 1
            &&& out.unwrap().ram[sp - 2] == (if jump_taken(jump_of(cmd), w_sub(top, below)) {
                TRUE_WORD
            } else {
                0u16
            })
            &&& out.unwrap().ram == m.ram.update(
                sp - 2,
                if jump_taken(jump_of(cmd), w_sub(top, below)) {
                    TRUE_WORD
                } else {
                    0u16
                },
            ).update(0, (sp - 1) as u16)
        }),
{
    let prog = translate_seq(cmd, counter, basename);
    let sp = m.ram[0];
    let below = m.ram[sp - 2];
    let top = m.ram[sp - 1];
    let jump = jump_of(cmd);
    assert(prog.len() == 28);
    let (m1, fuel1) = advance(prog, st, m, 30);
    let (m2, fuel2) = advance(prog, st, m1, fuel1);
    let (m3, fuel3) = advance(prog, st, m2, fuel2);
    let (m4, fuel4) = advance(prog, st, m3, fuel3);
    assert(m4.ram[0] == w_sub(sp, 1));
    assert(w_sub(sp, 1) as int == sp - 1);
    let (m5, fuel5) = advance(prog, st, m4, fuel4);
    let (m6, fuel6) = advance(prog, st, m5, fuel5);
    assert(m6.dreg == top);
    let (m7, fuel7) = advance(prog, st, m6, fuel6);
    let (m8, fuel8) = advance(prog, st, m7, fuel7);
    assert(m8.ram[0] == w_sub(w_sub(sp, 1), 1));
    assert(w_sub(w_sub(sp, 1), 1) as int == sp - 2);
    let (m9, fuel9) = advance(prog, st, m8, fuel8);
    let (m10, fuel10) = advance(prog, st, m9, fuel9);
    assert(m10.dreg == w_sub(top, below));
    let (m11, fuel11) = advance(prog, st, m10, fuel10);
    assert(m11.areg == 19);
    let (m12, fuel12) = advance(prog, st, m11, fuel11);
    if jump_taken(jump, w_sub(top, below)) {
        assert(m12.pc == 19);
        let (m13, fuel13) = advance(prog, st, m12, fuel12);
        let (m14, fuel14) = advance(prog, st, m13, fuel13);
        let (m15, fuel15) = advance(prog, st, m14, fuel14);
        assert(m15.dreg == 0);
        let (m16, fuel16) = advance(prog, st, m15, fuel15);
        let (m17, fuel17) = advance(prog, st, m16, fuel16);
        let (m18, fuel18) = advance(prog, st, m17, fuel17);
        assert(m18.ram[sp - 2] == w_sub(0, 1));
        assert(w_sub(0, 1) == TRUE_WORD);
        let (m19, fuel19) = advance(prog, st, m18, fuel18);
        let (m20, fuel20) = advance(prog, st, m19, fuel19);
        let (m21, fuel21) = advance(prog, st, m20, fuel20);
        assert(m21.ram[0] == w_add(w_sub(w_sub(sp, 1), 1), 1));
        assert(m21.ram[0] as int == sp - 1);
        assert(m21.ram =~= m.ram.update(sp - 2, TRUE_WORD).update(0, (sp - 1) as u16));
        assert(m21.pc == prog.len());
        assert(run_n(prog, st, m21, fuel21) == Some(m21));
    } else {
        assert(m12.pc == 12);
        let (m13, fuel13) = advance(prog, st, m12, fuel12);
        let (m14, fuel14) = advance(prog, st, m13, fuel13);
        assert(m14.dreg == 0);
        let (m15, fuel15) = advance(prog, st, m14, fuel14);
        let (m16, fuel16) = advance(prog, st, m15, fuel15);
        let (m17, fuel17) = advance(prog, st, m16, fuel16);
        assert(m17.ram[sp - 2] == 0);
        let (m18, fuel18) = advance(prog, st, m17, fuel17);
        assert(m18.areg == 25);
        let (m19, fuel19) = advance(prog, st, m18, fuel18);
        assert(m19.pc == 25);
        let (m20, fuel20) = advance(prog, st, m19, fuel19);
        let (m21, fuel21) = advance(prog, st, m20, fuel20);
        let (m22, fuel22) = advance(prog, st, m21, fuel21);
        assert(m22.ram[0] == w_add(w_sub(w_sub(sp, 1), 1), 1));
        assert(m22.ram[0] as int == sp - 1);
        assert(m22.ram =~= m.ram.update(sp - 2, 0u16).update(0, (sp - 1) as u16));
        assert(m22.pc == prog.len());
        assert(run_n(prog, st, m22, fuel22) == Some(m22));
    }
}

/// The stack-depth law: running the block one command translates to, from
/// any ready state, ends past the block with the stack pointer displaced by
/// exactly `sp_delta` of the command — one up for a push, one down for a pop,
/// one down for a binary or comparison operation, unchanged for a unary one —
/// and memory no larger or smaller than before.
pub proof fn lemma_stack_depth(
    cmd: Command,
    counter: nat,
    basename: Seq<char>,
    st: Seq<(Seq<char>, u16)>,
    m: MState,
)
    requires
        cmd.wf(),
        state_ready(cmd, counter, basename, st, m),
    ensures
        ({
            let prog = translate_seq(cmd, counter, basename);
            let out = run_n(prog, st, m, 30);
            &&& out is Some
            &&& out.unwrap().pc == prog.len()
            &&& out.unwrap().ram.len() == m.ram.len()
            &&& out.unwrap().ram[0] as int == m.ram[0] + sp_delta(cmd)
        }),
{
    match cmd {
        Command::Push(s) => match s.segment {
            SegmentType::Constant => lemma_push_constant(s.index, counter, basename, st, m),
            SegmentType::LATT(_) => lemma_push_latt(s, counter, basename, st, m),
            _ => lemma_push_single(s, counter, basename, st, m),
        },
        Command::Pop(s) => match s.segment {
            SegmentType::LATT(_) => lemma_pop_latt(s, counter, basename, st, m),
            _ => lemma_pop_single(s, counter, basename, st, m),
        },
        Command::Add | Command::Subtract | Command::And | Command::Or => lemma_binary(
            cmd,
            counter,
            basename,
            st,
            m,
        ),
        Command::Negate | Command::Not => lemma_unary(cmd, counter, basename, st, m),
        Command::Equal | Command::GreaterThan | Command::LessThan => lemma_comparison_run(
            cmd,
            counter,
            basename,
            st,
            m,
        ),
    }
}

/// The boolean-encoding law: a comparison pushes exactly one of the two
/// literal encodings — all-zero-bits for false, all-one-bits for true — and
/// never any other value; the true encoding lands exactly when the
/// comparison's zero-test holds of top-minus-second. In particular an
/// equality comparison leaves true exactly when the two operands were equal.
pub proof fn lemma_boolean_encoding(
    cmd: Command,
    counter: nat,
    basename: Seq<char>,
    st: Seq<(Seq<char>, u16)>,
    m: MState,
)
    requires
        cmd.is_comparison(),
        state_ready(cmd, counter, basename, st, m),
    ensures
        ({
            let prog = translate_seq(cmd, counter, basename);
            let out = run_n(prog, st, m, 30);
            let sp = m.ram[0];
            let below = m.ram[sp - 2];
            let top = m.ram[sp - 1];
            let result = out.unwrap().ram[sp - 2];
            &&& out is Some
            &&& result == 0 || result == TRUE_WORD
            &&& result == TRUE_WORD <==> jump_taken(jump_of(cmd), w_sub(top, below))
            &&& cmd is Equal ==> (result == TRUE_WORD <==> below == top)
        }),
{
    lemma_comparison_run(cmd, counter, basename, st, m);
    let sp = m.ram[0];
    let below = m.ram[sp - 2];
    let top = m.ram[sp - 1];
    if cmd is Equal {
        assert(w_sub(top, below) == 0 <==> below == top);
    }
}

/// Whether an instruction occurs anywhere in a stream.
pub open spec fn occurs(s: Seq<Instr>, x: Instr) -> bool {
    exists|p: int| 0 <= p < s.len() && s[p] == x
}

/// The instruction occurs exactly once in the stream.
pub open spec fn occurs_once(s: Seq<Instr>, x: Instr) -> bool {
    &&& occurs(s, x)
    &&& forall|p: int, q: int|
        0 <= p < s.len() && 0 <= q < s.len() && s[p] == x && s[q] == x ==> p == q
}

/// The instruction does not occur in the stream.
pub open spec fn occurs_never(s: Seq<Instr>, x: Instr) -> bool {
    forall|p: int| 0 <= p < s.len() ==> s[p] != x
}

proof fn lemma_concat_never(a: Seq<Instr>, b: Seq<Instr>, x: Instr)
    requires
        occurs_never(a, x),
        occurs_never(b, x),
    ensures
        occurs_never(a + b, x),
{
    assert forall|p: int| 0 <= p < (a + b).len() implies (a + b)[p] != x by {
        if p < a.len() {
            assert((a + b)[p] == a[p]);
        } else {
            assert((a + b)[p] == b[p - a.len()]);
        }
    }
}

proof fn lemma_concat_once_left(a: Seq<Instr>, b: Seq<Instr>, x: Instr)
    requires
        occurs_once(a, x),
        occurs_never(b, x),
    ensures
        occurs_once(a + b, x),
{
    let w = choose|p: int| 0 <= p < a.len() && a[p] == x;
    assert((a + b)[w] == x);
    assert forall|p: int, q: int|
        0 <= p < (a + b).len() && 0 <= q < (a + b).len() && (a + b)[p] == x && (a + b)[q]
            == x implies p == q by {
        if p >= a.len() {
            assert((a + b)[p] == b[p - a.len()]);
        }
        if q >= a.len() {
            assert((a + b)[q] == b[q - a.len()]);
        }
        assert((a + b)[p] == a[p]);
        assert((a + b)[q] == a[q]);
    }
}

proof fn lemma_concat_once_right(a: Seq<Instr>, b: Seq<Instr>, x: Instr)
    requires
        occurs_never(a, x),
        occurs_once(b, x),
    ensures
        occurs_once(a + b, x),
{
    let w = choose|p: int| 0 <= p < b.len() && b[p] == x;
    assert((a + b)[a.len() + w] == x);
    assert forall|p: int, q: int|
        0 <= p < (a + b).len() && 0 <= q < (a + b).len() && (a + b)[p] == x && (a + b)[q]
            == x implies p == q by {
        if p < a.len() {
            assert((a + b)[p] == a[p]);
        }
        if q < a.len() {
            assert((a + b)[q] == a[q]);
        }
        assert((a + b)[p] == b[p - a.len()]);
        assert((a + b)[q] == b[q - a.len()]);
    }
}

/// The three jump conditions the comparison codegen uses.
pub open spec fn is_cmp_jump(j: Jump) -> bool {
    j is JEQ || j is JGT || j is JLT
}

/// The shape every generated label name has: at least four characters, the
/// first a 'J' or an 'A', none of them a dot. No fixed register symbol, no
/// static-slot symbol, and no halt label has this shape.
pub open spec fn gen_name_shape(name: Seq<char>) -> bool {
    &&& name.len() >= 4
    &&& (name[0] == 'J' || name[0] == 'A')
    &&& forall|i: int| 0 <= i < name.len() ==> name[i] != '.'
}

proof fn lemma_gen_shape(j: Jump, n: nat)
    requires
        is_cmp_jump(j),
    ensures
        gen_name_shape(true_label(j, n)),
        gen_name_shape(after_label(n)),
{
    reveal_strlit("JEQ");
    reveal_strlit("JGT");
    reveal_strlit("JLT");
    reveal_strlit("AFTER");
    lemma_dec_len(n);
    lemma_dec_chars_are_digits(n);
    let tn = true_label(j, n);
    let an = after_label(n);
    assert(jump_name(j).len() == 3);
    assert(tn[0] == jump_name(j)[0]);
    assert(jump_name(j)[0] == 'J');
    assert forall|i: int| 0 <= i < tn.len() implies tn[i] != '.' by {
        if i < 3 {
            assert(tn[i] == jump_name(j)[i]);
        } else {
            assert(tn[i] == dec_spec(n)[i - 3]);
            assert(is_digit_char(dec_spec(n)[i - 3]));
        }
    }
    assert(an[0] == "AFTER"@[0]);
    assert forall|i: int| 0 <= i < an.len() implies an[i] != '.' by {
        if i < 5 {
            assert(an[i] == "AFTER"@[i]);
        } else {
            assert(an[i] == dec_spec(n)[i - 5]);
            assert(is_digit_char(dec_spec(n)[i - 5]));
        }
    }
}

proof fn lemma_gen_name_not_fixed(name: Seq<char>)
    requires
        gen_name_shape(name),
    ensures
        name != "SP"@,
        name != "LCL"@,
        name != "ARG"@,
        name != "THIS"@,
        name != "THAT"@,
        name != "R13"@,
        name != "END"@,
        forall|b: Seq<char>, i: nat| name != #[trigger] static_symbol(b, i),
{
    reveal_strlit("SP");
    reveal_strlit("LCL");
    reveal_strlit("ARG");
    reveal_strlit("THIS");
    reveal_strlit("THAT");
    reveal_strlit("R13");
    reveal_strlit("END");
    reveal_strlit(".");
    assert forall|b: Seq<char>, i: nat| name != #[trigger] static_symbol(b, i) by {
        if name == static_symbol(b, i) {
            lemma_dec_len(i);
            let k = b.len() as int;
            assert(static_symbol(b, i)[k] == (b + "."@)[k]);
            assert((b + "."@)[k] == "."@[0]);
            assert(name[k] == '.');
        }
    }
}

/// Distinct counter values give distinct label names, the three true-label
/// families never collide with each other or the after-labels, and a name
/// determines its counter value.
pub proof fn lemma_label_names_distinct(j1: Jump, n1: nat, j2: Jump, n2: nat)
    requires
        is_cmp_jump(j1),
        is_cmp_jump(j2),
    ensures
        true_label(j1, n1) == true_label(j2, n2) ==> (j1 == j2 && n1 == n2),
        after_label(n1) == after_label(n2) ==> n1 == n2,
        true_label(j1, n1) != after_label(n2),
{
    reveal_strlit("JEQ");
    reveal_strlit("JGT");
    reveal_strlit("JLT");
    reveal_strlit("AFTER");
    lemma_dec_len(n1);
    lemma_dec_len(n2);
    assert(jump_name(j1).len() == 3);
    assert(jump_name(j2).len() == 3);
    if true_label(j1, n1) == true_label(j2, n2) {
        assert(true_label(j1, n1)[1] == jump_name(j1)[1]);
        assert(true_label(j2, n2)[1] == jump_name(j2)[1]);
        assert(j1 == j2);
        assert(true_label(j1, n1).subrange(3, true_label(j1, n1).len() as int) =~= dec_spec(n1));
        assert(true_label(j2, n2).subrange(3, true_label(j2, n2).len() as int) =~= dec_spec(n2));
        lemma_dec_injective(n1, n2);
    }
    if after_label(n1) == after_label(n2) {
        assert(after_label(n1).subrange(5, after_label(n1).len() as int) =~= dec_spec(n1));
        assert(after_label(n2).subrange(5, after_label(n2).len() as int) =~= dec_spec(n2));
        lemma_dec_injective(n1, n2);
    }
    assert(true_label(j1, n1)[0] == jump_name(j1)[0]);
    assert(after_label(n2)[0] == "AFTER"@[0]);
    assert(true_label(j1, n1)[0] != after_label(n2)[0]);
}

/// No instruction in a non-comparison command's block defines or targets a
/// generated label name.
proof fn lemma_block_never(cmd: Command, c: nat, basename: Seq<char>, name: Seq<char>)
    requires
        !cmd.is_comparison(),
        gen_name_shape(name),
    ensures
        occurs_never(translate_seq(cmd, c, basename), lbl(name)),
        occurs_never(translate_seq(cmd, c, basename), sym(name)),
{
    lemma_gen_name_not_fixed(name);
    let prog = translate_seq(cmd, c, basename);
    assert forall|p: int| 0 <= p < prog.len() implies prog[p] != lbl(name) && prog[p] != sym(
        name,
    ) by {
        match cmd {
            Command::Push(s) => {
                assert(s.segment is LATT ==> sym(name) != prog[1]);
            },
            Command::Pop(s) => {
                assert(s.segment is LATT ==> sym(name) != prog[1]);
            },
            _ => {
            },
        }
    }
}

/// The halt block defines and targets only the halt label, which no generated
/// name equals.
proof fn lemma_finish_never(name: Seq<char>)
    requires
        gen_name_shape(name),
    ensures
        occurs_never(finish_seq(), lbl(name)),
        occurs_never(finish_seq(), sym(name)),
{
    lemma_gen_name_not_fixed(name);
}

/// A comparison block defines each of its two fresh labels exactly once and
/// loads each exactly once as a jump target; no other generated name occurs
/// in it at all.
proof fn lemma_cmp_block(cmd: Command, c: nat, basename: Seq<char>, name: Seq<char>)
    requires
        cmd.is_comparison(),
    ensures
        occurs_once(translate_seq(cmd, c, basename), lbl(true_label(jump_of(cmd), c + 1))),
        occurs_once(translate_seq(cmd, c, basename), sym(true_label(jump_of(cmd), c + 1))),
        occurs_once(translate_seq(cmd, c, basename), lbl(after_label(c + 1))),
        occurs_once(translate_seq(cmd, c, basename), sym(after_label(c + 1))),
        gen_name_shape(name) && name != true_label(jump_of(cmd), c + 1) && name != after_label(
            c + 1,
        ) ==> occurs_never(translate_seq(cmd, c, basename), lbl(name)) && occurs_never(
            translate_seq(cmd, c, basename),
            sym(name),
        ),
{
    let prog = translate_seq(cmd, c, basename);
    let tn = true_label(jump_of(cmd), c + 1);
    let an = after_label(c + 1);
    lemma_label_names_distinct(jump_of(cmd), c + 1, jump_of(cmd), c + 1);
    lemma_gen_shape(jump_of(cmd), c + 1);
    lemma_gen_name_not_fixed(tn);
    lemma_gen_name_not_fixed(an);
    assert(prog.len() == 28);
    assert(prog[19] == lbl(tn));
    assert(prog[10] == sym(tn));
    assert(prog[25] == lbl(an));
    assert(prog[17] == sym(an));
    assert forall|p: int|
        0 <= p < prog.len() && (prog[p] is Label || prog[p] is AddressSymbol) implies (p == 19 || p
        == 25 || p == 10 || p == 17 || prog[p] == sym("SP"@)) by {
    }
    if gen_name_shape(name) && name != tn && name != an {
        lemma_gen_name_not_fixed(name);
    }
}

/// A program whose counter range misses `n` never mentions the labels with
/// counter value `n`.
proof fn lemma_program_never(cmds: Seq<Command>, c: nat, basename: Seq<char>, j: Jump, n: nat)
    requires
        is_cmp_jump(j),
        n <= c || n > c + cmp_count(cmds),
    ensures
        occurs_never(translate_program_seq(cmds, c, basename), lbl(true_label(j, n))),
        occurs_never(translate_program_seq(cmds, c, basename), sym(true_label(j, n))),
        occurs_never(translate_program_seq(cmds, c, basename), lbl(after_label(n))),
        occurs_never(translate_program_seq(cmds, c, basename), sym(after_label(n))),
    decreases cmds.len(),
{
    lemma_gen_shape(j, n);
    let tn = true_label(j, n);
    let an = after_label(n);
    if cmds.len() == 0 {
    } else {
        let head = cmds[0];
        let block = translate_seq(head, c, basename);
        let c1 = next_counter(head, c);
        let rest = translate_program_seq(cmds.skip(1), c1, basename);
        if head.is_comparison() {
            assert(n != c + 1);
            lemma_label_names_distinct(j, n, jump_of(head), c + 1);
            lemma_label_names_distinct(jump_of(head), c + 1, j, n);
            lemma_cmp_block(head, c, basename, tn);
            lemma_cmp_block(head, c, basename, an);
        } else {
            lemma_block_never(head, c, basename, tn);
            lemma_block_never(head, c, basename, an);
        }
        lemma_program_never(cmds.skip(1), c1, basename, j, n);
        lemma_concat_never(block, rest, lbl(tn));
        lemma_concat_never(block, rest, sym(tn));
        lemma_concat_never(block, rest, lbl(an));
        lemma_concat_never(block, rest, sym(an));
    }
}

/// In a whole translated program, the comparison at position `i` owns its two
/// labels: each is defined exactly once and targeted exactly once.
proof fn lemma_program_once(cmds: Seq<Command>, c: nat, basename: Seq<char>, i: int)
    requires
        0 <= i < cmds.len(),
        cmds[i].is_comparison(),
    ensures
        ({
            let n = c + cmp_count(cmds.take(i)) + 1;
            let tn = true_label(jump_of(cmds[i]), n);
            let an = after_label(n);
            let out = translate_program_seq(cmds, c, basename);
            &&& occurs_once(out, lbl(tn))
            &&& occurs_once(out, sym(tn))
            &&& occurs_once(out, lbl(an))
            &&& occurs_once(out, sym(an))
        }),
    decreases i,
{
    let n = c + cmp_count(cmds.take(i)) + 1;
    let tn = true_label(jump_of(cmds[i]), n);
    let an = after_label(n);
    let head = cmds[0];
    let block = translate_seq(head, c, basename);
    let c1 = next_counter(head, c);
    let rest = translate_program_seq(cmds.skip(1), c1, basename);
    lemma_gen_shape(jump_of(cmds[i]), n);
    if i == 0 {
        assert(cmds.take(0) =~= Seq::<Command>::empty());
        assert(cmp_count(Seq::<Command>::empty()) == 0);
        assert(n == c + 1);
        lemma_cmp_block(head, c, basename, tn);
        lemma_program_never(cmds.skip(1), c1, basename, jump_of(head), n);
        lemma_concat_once_left(block, rest, lbl(tn));
        lemma_concat_once_left(block, rest, sym(tn));
        lemma_concat_once_left(block, rest, lbl(an));
        lemma_concat_once_left(block, rest, sym(an));
    } else {
        assert(cmds.take(i)[0] == head);
        assert(cmds.take(i).skip(1) =~= cmds.skip(1).take(i - 1));
        assert(cmds.skip(1)[i - 1] == cmds[i]);
        if head.is_comparison() {
            assert(n == c1 + cmp_count(cmds.skip(1).take(i - 1)) + 1);
            assert(n > c + 1);
            lemma_label_names_distinct(jump_of(cmds[i]), n, jump_of(head), c + 1);
            lemma_label_names_distinct(jump_of(head), c + 1, jump_of(cmds[i]), n);
            lemma_cmp_block(head, c, basename, tn);
            lemma_cmp_block(head, c, basename, an);
        } else {
            assert(n == c1 + cmp_count(cmds.skip(1).take(i - 1)) + 1);
            lemma_block_never(head, c, basename, tn);
            lemma_block_never(head, c, basename, an);
        }
        lemma_program_once(cmds.skip(1), c1, basename, i - 1);
        lemma_concat_once_right(block, rest, lbl(tn));
        lemma_concat_once_right(block, rest, sym(tn));
        lemma_concat_once_right(block, rest, lbl(an));
        lemma_concat_once_right(block, rest, sym(an));
    }
}

/// The label-uniqueness law: in the stream of a whole program translated by a
/// fresh translator — every command's block in source order, the terminal
/// halt block last — the comparison at position `i` takes counter value
/// one-plus-the-comparisons-before-it, its true-branch label and its
/// convergence label are each defined exactly once in the entire stream, and
/// each is loaded as a jump target exactly once. Together with
/// `lemma_label_names_distinct`, a program with `k` comparisons has `k`
/// distinct true-branch labels and `k` distinct convergence labels.
pub proof fn lemma_label_uniqueness(cmds: Seq<Command>, basename: Seq<char>, i: int)
    requires
        0 <= i < cmds.len(),
        cmds[i].is_comparison(),
    ensures
        ({
            let n = cmp_count(cmds.take(i)) + 1;
            let tn = true_label(jump_of(cmds[i]), n);
            let an = after_label(n);
            let out = translate_program_seq(cmds, 0, basename) + finish_seq();
            &&& occurs_once(out, lbl(tn))
            &&& occurs_once(out, sym(tn))
            &&& occurs_once(out, lbl(an))
            &&& occurs_once(out, sym(an))
        }),
{
    let n = cmp_count(cmds.take(i)) + 1;
    let tn = true_label(jump_of(cmds[i]), n);
    let an = after_label(n);
    let body = translate_program_seq(cmds, 0, basename);
    lemma_program_once(cmds, 0, basename, i);
    lemma_gen_shape(jump_of(cmds[i]), n);
    lemma_finish_never(tn);
    lemma_finish_never(an);
    lemma_concat_once_left(body, finish_seq(), lbl(tn));
    lemma_concat_once_left(body, finish_seq(), sym(tn));
    lemma_concat_once_left(body, finish_seq(), lbl(an));
    lemma_concat_once_left(body, finish_seq(), sym(an));
}

/// The determinism law: the translated stream is a function of the command
/// sequence, the starting counter, and the basename alone — nothing else
/// reaches it. Two fresh translators (counter zero) given one command
/// sequence and one basename therefore emit identical streams.
pub proof fn lemma_determinism(
    cmds1: Seq<Command>,
    cmds2: Seq<Command>,
    basename1: Seq<char>,
    basename2: Seq<char>,
)
    requires
        cmds1 == cmds2,
        basename1 == basename2,
    ensures
        translate_program_seq(cmds1, 0, basename1) == translate_program_seq(cmds2, 0, basename2),
{
}

} // verus!
