//! Translation rules for the static segment: slots backed by symbols
//! namespaced by the translation unit's basename, so two units never collide.

use vstd::prelude::*;

use crate::assembly::{asg, sym, Assembly, Comp, Dest, Instr};
use crate::babel::{decr_sp_seq, dreg_to_sp_seq, incr_sp_seq, sp_to_dreg_seq, Translation};
use crate::commands::segment::static_symbol;
use crate::text::to_dec;

verus! {

/// The symbolic address of static slot `index` in the unit named `basename`.
pub fn var_symbol(index: u16, basename: &str) -> (r: Assembly)
    ensures
        r@ == sym(static_symbol(basename@, index as nat)),
{
    let name = basename.to_owned().concat(".").concat(to_dec(index as u64).as_str());
    proof {
        assert(name@ =~= static_symbol(basename@, index as nat));
    }
    Assembly::AddressSymbol(name)
}

/// The block of `push static index`: read the slot through its symbol, store
/// to the stack top, increment the stack pointer.
pub open spec fn push_static_seq(basename: Seq<char>, index: nat) -> Seq<Instr> {
    seq![sym(static_symbol(basename, index)), asg(Dest::D, Comp::M)] + dreg_to_sp_seq()
        + incr_sp_seq()
}

/// The block of `pop static index`: decrement the stack pointer, read the new
/// top into the accumulator, store it through the slot's symbol.
pub open spec fn pop_static_seq(basename: Seq<char>, index: nat) -> Seq<Instr> {
    decr_sp_seq() + sp_to_dreg_seq() + seq![
        sym(static_symbol(basename, index)),
        asg(Dest::M, Comp::D),
    ]
}

pub fn push_static(translator: &mut Translation, index: u16, basename: &str)
    ensures
        final(translator)@ == old(translator)@ + push_static_seq(basename@, index as nat),
{
    let symbol = var_symbol(index, basename);
    translator.with_asm(vec![symbol, Assembly::assign(Dest::D, Comp::M)]);
    translator.store_dreg_to_sp();
    translator.increment_sp();
    proof {
        assert(final(translator)@ =~= old(translator)@ + push_static_seq(
            basename@,
            index as nat,
        ));
    }
}

pub fn pop_static(translator: &mut Translation, index: u16, basename: &str)
    ensures
        final(translator)@ == old(translator)@ + pop_static_seq(basename@, index as nat),
{
    let symbol = var_symbol(index, basename);
    translator.decrement_sp();
    translator.store_sp_to_dreg();
    translator.with_asm(vec![symbol, Assembly::assign(Dest::M, Comp::D)]);
    proof {
        assert(final(translator)@ =~= old(translator)@ + pop_static_seq(basename@, index as nat));
    }
}

} // verus!
