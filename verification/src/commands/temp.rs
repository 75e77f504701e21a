//! Translation rules for the temp segment: a small fixed block of absolute
//! slots at a known base address, addressed directly with no indirection
//! through a pointer register.

use vstd::prelude::*;

use crate::assembly::{asg, Assembly, Comp, Dest, Instr};
use crate::babel::{decr_sp_seq, dreg_to_sp_seq, incr_sp_seq, sp_to_dreg_seq, Translation};
use crate::commands::segment::TEMP_BASE;

verus! {

/// The block of `push temp index`: read the absolute slot, store to the stack
/// top, increment the stack pointer.
pub open spec fn push_temp_seq(index: nat) -> Seq<Instr> {
    seq![Instr::Address((TEMP_BASE + index) as u32), asg(Dest::D, Comp::M)] + dreg_to_sp_seq()
        + incr_sp_seq()
}

/// The block of `pop temp index`: decrement the stack pointer, read the new
/// top into the accumulator, store it to the absolute slot.
pub open spec fn pop_temp_seq(index: nat) -> Seq<Instr> {
    decr_sp_seq() + sp_to_dreg_seq() + seq![
        Instr::Address((TEMP_BASE + index) as u32),
        asg(Dest::M, Comp::D),
    ]
}

pub fn push_temp(translator: &mut Translation, index: u16)
    ensures
        final(translator)@ == old(translator)@ + push_temp_seq(index as nat),
{
    let temp_loc = TEMP_BASE + index as u32;
    translator.with_asm(vec![Assembly::Address(temp_loc), Assembly::assign(Dest::D, Comp::M)]);
    translator.store_dreg_to_sp();
    translator.increment_sp();
    proof {
        assert(final(translator)@ =~= old(translator)@ + push_temp_seq(index as nat));
    }
}

pub fn pop_temp(translator: &mut Translation, index: u16)
    ensures
        final(translator)@ == old(translator)@ + pop_temp_seq(index as nat),
{
    let temp_loc = TEMP_BASE + index as u32;
    translator.decrement_sp();
    translator.store_sp_to_dreg();
    translator.with_asm(vec![Assembly::Address(temp_loc), Assembly::assign(Dest::M, Comp::D)]);
    proof {
        assert(final(translator)@ =~= old(translator)@ + pop_temp_seq(index as nat));
    }
}

} // verus!
