//! Translation rules for the pointer segment: index 0 and 1 denote the This
//! and That base registers themselves, whose value (not a dereference of it)
//! is the datum.

use vstd::prelude::*;

use crate::assembly::{asg, sym, Assembly, Comp, Dest, Instr};
use crate::babel::{decr_sp_seq, sp_to_dreg_seq, Translation};

verus! {

/// The base register a pointer index denotes: This for 0, That for 1.
pub open spec fn pointee_name(index: nat) -> Seq<char> {
    if index == 0 {
        "THIS"@
    } else {
        "THAT"@
    }
}

/// The block of `push pointer index`: load the register's value directly into
/// the accumulator, store to the stack top, increment the stack pointer.
pub open spec fn push_pointer_seq(index: nat) -> Seq<Instr> {
    seq![
        sym(pointee_name(index)),
        asg(Dest::D, Comp::M),
        sym("SP"@),
        asg(Dest::A, Comp::M),
        asg(Dest::M, Comp::D),
        sym("SP"@),
        asg(Dest::M, Comp::Mplus1),
    ]
}

/// The block of `pop pointer index`: decrement the stack pointer, read the
/// new top into the accumulator, store it into the register itself.
pub open spec fn pop_pointer_seq(index: nat) -> Seq<Instr> {
    decr_sp_seq() + sp_to_dreg_seq() + seq![sym(pointee_name(index)), asg(Dest::M, Comp::D)]
}

pub fn push_pointer(translator: &mut Translation, idx: u16)
    requires
        idx == 0 || idx == 1,
    ensures
        final(translator)@ == old(translator)@ + push_pointer_seq(idx as nat),
{
    let pointee = if idx == 0 {
        Assembly::this()
    } else {
        Assembly::that()
    };
    translator.with_asm(
        vec![
            pointee,
            Assembly::assign(Dest::D, Comp::M),
            Assembly::sp(),
            Assembly::assign(Dest::A, Comp::M),
            Assembly::assign(Dest::M, Comp::D),
            Assembly::sp(),
            Assembly::assign(Dest::M, Comp::Mplus1),
        ],
    );
    proof {
        assert(final(translator)@ =~= old(translator)@ + push_pointer_seq(idx as nat));
    }
}

pub fn pop_pointer(translator: &mut Translation, idx: u16)
    requires
        idx == 0 || idx == 1,
    ensures
        final(translator)@ == old(translator)@ + pop_pointer_seq(idx as nat),
{
    let pointee = if idx == 0 {
        Assembly::this()
    } else {
        Assembly::that()
    };
    translator.decrement_sp();
    translator.store_sp_to_dreg();
    translator.with_asm(vec![pointee, Assembly::assign(Dest::M, Comp::D)]);
    proof {
        assert(final(translator)@ =~= old(translator)@ + pop_pointer_seq(idx as nat));
    }
}

} // verus!
