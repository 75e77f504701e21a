//! Translation rules for the frame segments (Local/Argument/This/That):
//! slots reached by double indirection, the base-pointer register's value
//! plus the slot index.

use vstd::prelude::*;

use crate::assembly::{asg, sym, Assembly, Comp, Dest, Instr};
use crate::babel::{
    decr_sp_seq, dreg_to_reg13_seq, dreg_to_sp_seq, incr_sp_seq, sp_to_dreg_seq, Translation,
};
use crate::commands::segment::LATT;

verus! {

/// The block of `push <frame-segment> index`: compute the slot address as the
/// base register's value plus the index, read the slot into the accumulator,
/// store to the stack top, increment the stack pointer.
pub open spec fn push_latt_seq(latt: LATT, index: nat) -> Seq<Instr> {
    seq![
        sym(latt.base_name()),
        asg(Dest::D, Comp::M),
        Instr::Address(index as u32),
        asg(Dest::A, Comp::DplusA),
        asg(Dest::D, Comp::M),
    ] + dreg_to_sp_seq() + incr_sp_seq()
}

/// The block of `pop <frame-segment> index`: compute the destination slot
/// address and stash it in the scratch register (the pointer register is
/// about to be reused to read the stack top), decrement the stack pointer,
/// read the new top into the accumulator, then store it through the stashed
/// address.
pub open spec fn pop_latt_seq(latt: LATT, index: nat) -> Seq<Instr> {
    seq![
        sym(latt.base_name()),
        asg(Dest::D, Comp::M),
        Instr::Address(index as u32),
        asg(Dest::D, Comp::DplusA),
    ] + dreg_to_reg13_seq() + decr_sp_seq() + sp_to_dreg_seq() + seq![
        sym("R13"@),
        asg(Dest::A, Comp::M),
        asg(Dest::M, Comp::D),
    ]
}

pub fn push_latt(translator: &mut Translation, latt: LATT, index: u16)
    ensures
        final(translator)@ == old(translator)@ + push_latt_seq(latt, index as nat),
{
    let base = latt.as_asm();
    translator.with_asm(
        vec![
            base,
            Assembly::assign(Dest::D, Comp::M),
            Assembly::Address(index as u32),
            Assembly::assign(Dest::A, Comp::DplusA),
            Assembly::assign(Dest::D, Comp::M),
        ],
    );
    translator.store_dreg_to_sp();
    translator.increment_sp();
    proof {
        assert(final(translator)@ =~= old(translator)@ + push_latt_seq(latt, index as nat));
    }
}

pub fn pop_latt(translator: &mut Translation, latt: LATT, index: u16)
    ensures
        final(translator)@ == old(translator)@ + pop_latt_seq(latt, index as nat),
{
    let base = latt.as_asm();
    translator.with_asm(
        vec![
            base,
            Assembly::assign(Dest::D, Comp::M),
            Assembly::Address(index as u32),
            Assembly::assign(Dest::D, Comp::DplusA),
        ],
    );
    translator.store_dreg_in_reg13();
    translator.decrement_sp();
    translator.store_sp_to_dreg();
    translator.with_asm(
        vec![
            Assembly::reg13(),
            Assembly::assign(Dest::A, Comp::M),
            Assembly::assign(Dest::M, Comp::D),
        ],
    );
    proof {
        assert(final(translator)@ =~= old(translator)@ + pop_latt_seq(latt, index as nat));
    }
}

} // verus!
