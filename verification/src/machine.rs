//! Semantics of the emitted assembly: a 16-bit accumulator machine with an
//! accumulator register `D`, a pointer register `A`, a word-addressed memory,
//! and a program counter.
//!
//! The spec functions here say what one instruction does and what a bounded
//! run of a program does; [`Machine`] executes the same semantics, so tests
//! can run emitted programs, and the laws of the translator are proved
//! against [`step_spec`] and [`run_n`].

use vstd::prelude::*;

use crate::assembly::{Assembly, Comp, Dest, Instr, Jump};
use crate::babel::views_of;
use crate::text::str_eq;

verus! {

/// One past the largest machine word.
pub const WORD_CARD: u32 = 0x10000;

/// All-one-bits, the boolean-true encoding.
pub const TRUE_WORD: u16 = 0xFFFF;

/// Wrapping 16-bit addition.
pub open spec fn w_add(a: u16, b: u16) -> u16 {
    ((a + b) % (WORD_CARD as int)) as u16
}

/// Wrapping 16-bit subtraction.
pub open spec fn w_sub(a: u16, b: u16) -> u16 {
    ((a + WORD_CARD - b) % (WORD_CARD as int)) as u16
}

/// Wrapping 16-bit two's-complement negation.
pub open spec fn w_neg(a: u16) -> u16 {
    ((WORD_CARD - a) % (WORD_CARD as int)) as u16
}

/// Bitwise 16-bit complement.
pub open spec fn w_not(a: u16) -> u16 {
    (0xFFFF - a) as u16
}

/// Positive as a signed 16-bit word: nonzero with the sign bit clear.
pub open spec fn is_pos(v: u16) -> bool {
    0 < v < 0x8000
}

/// Negative as a signed 16-bit word: the sign bit set.
pub open spec fn is_neg(v: u16) -> bool {
    v >= 0x8000
}

/// The machine state: memory, the two registers, and the program counter.
pub ghost struct MState {
    pub ram: Seq<u16>,
    pub areg: u16,
    pub dreg: u16,
    pub pc: nat,
}

/// The address a symbol-table binds a name to; the first binding wins.
pub open spec fn lookup_spec(entries: Seq<(Seq<char>, u16)>, name: Seq<char>) -> Option<u16>
    decreases entries.len(),
{
    if entries.len() == 0 {
        None
    } else if entries[0].0 == name {
        Some(entries[0].1)
    } else {
        lookup_spec(entries.skip(1), name)
    }
}

/// The value a computation yields from the pointer register `a`, the
/// accumulator `d`, and the addressed memory word `m`.
pub open spec fn eval_comp(c: Comp, a: u16, d: u16, m: u16) -> u16 {
    match c {
        Comp::Zero => 0,
        Comp::A => a,
        Comp::M => m,
        Comp::D => d,
        Comp::Mplus1 => w_add(m, 1),
        Comp::DplusM => w_add(d, m),
        Comp::DplusA => w_add(d, a),
        Comp::DminusM => w_sub(d, m),
        Comp::MminusD => w_sub(m, d),
        Comp::Dminus1 => w_sub(d, 1),
        Comp::Mminus1 => w_sub(m, 1),
        Comp::NegateM => w_neg(m),
        Comp::NotM => w_not(m),
        Comp::DandM => d & m,
        Comp::DorM => d | m,
    }
}

/// Whether a computation reads the addressed memory word.
pub open spec fn comp_reads_m(c: Comp) -> bool {
    match c {
        Comp::M | Comp::Mplus1 | Comp::DplusM | Comp::DminusM | Comp::MminusD | Comp::Mminus1
            | Comp::NegateM | Comp::NotM | Comp::DandM | Comp::DorM => true,
        _ => false,
    }
}

/// Whether a destination set stores into the addressed memory word.
pub open spec fn dest_writes_m(d: Option<Dest>) -> bool {
    match d {
        Some(Dest::M) | Some(Dest::DM) | Some(Dest::AM) | Some(Dest::ADM) => true,
        _ => false,
    }
}

/// Whether a destination set stores into the accumulator.
pub open spec fn dest_writes_d(d: Option<Dest>) -> bool {
    match d {
        Some(Dest::D) | Some(Dest::DM) | Some(Dest::AD) | Some(Dest::ADM) => true,
        _ => false,
    }
}

/// Whether a destination set stores into the pointer register.
pub open spec fn dest_writes_a(d: Option<Dest>) -> bool {
    match d {
        Some(Dest::A) | Some(Dest::AM) | Some(Dest::AD) | Some(Dest::ADM) => true,
        _ => false,
    }
}

/// Whether a jump condition holds of a computed value, read as a signed word.
pub open spec fn jump_taken(j: Jump, v: u16) -> bool {
    match j {
        Jump::JMP => true,
        Jump::JEQ => v == 0,
        Jump::JGT => is_pos(v),
        Jump::JLT => is_neg(v),
        Jump::JLE => v == 0 || is_neg(v),
    }
}

/// One instruction step: labels and comments only advance the program
/// counter; an address load must fit the 15-bit operand range; a symbolic
/// load must resolve in the symbol table; a command reading or writing memory
/// must address an existing word; a taken jump continues at the pointer
/// register's value. A violated condition is a machine fault (`None`).
pub open spec fn step_spec(prog: Seq<Instr>, st: Seq<(Seq<char>, u16)>, m: MState) -> Option<
    MState,
>
    recommends
        m.pc < prog.len(),
{
    match prog[m.pc as int] {
        Instr::Label(_) => Some(MState { ram: m.ram, areg: m.areg, dreg: m.dreg, pc: m.pc + 1 }),
        Instr::Comment(_) => Some(MState { ram: m.ram, areg: m.areg, dreg: m.dreg, pc: m.pc + 1 }),
        Instr::Address(x) => if x < 0x8000 {
            Some(MState { ram: m.ram, areg: x as u16, dreg: m.dreg, pc: m.pc + 1 })
        } else {
            None
        },
        Instr::AddressSymbol(name) => match lookup_spec(st, name) {
            Some(v) => Some(MState { ram: m.ram, areg: v, dreg: m.dreg, pc: m.pc + 1 }),
            None => None,
        },
        Instr::Command { dest, comp, jump } => {
            let needs_m = comp_reads_m(comp) || dest_writes_m(dest);
            if needs_m && m.areg >= m.ram.len() {
                None
            } else {
                let mval = if m.areg < m.ram.len() {
                    m.ram[m.areg as int]
                } else {
                    0
                };
                let v = eval_comp(comp, m.areg, m.dreg, mval);
                let ram1 = if dest_writes_m(dest) {
                    m.ram.update(m.areg as int, v)
                } else {
                    m.ram
                };
                let d1 = if dest_writes_d(dest) {
                    v
                } else {
                    m.dreg
                };
                let a1 = if dest_writes_a(dest) {
                    v
                } else {
                    m.areg
                };
                let taken = match jump {
                    Some(j) => jump_taken(j, v),
                    None => false,
                };
                let pc1 = if taken {
                    a1 as nat
                } else {
                    m.pc + 1
                };
                Some(MState { ram: ram1, areg: a1, dreg: d1, pc: pc1 })
            }
        },
    }
}

/// At most `fuel` steps from `m`: the state reached when the program counter
/// leaves the program or the fuel runs out, or a fault.
pub open spec fn run_n(
    prog: Seq<Instr>,
    st: Seq<(Seq<char>, u16)>,
    m: MState,
    fuel: nat,
) -> Option<MState>
    decreases fuel,
{
    if fuel == 0 || m.pc >= prog.len() {
        Some(m)
    } else {
        match step_spec(prog, st, m) {
            Some(m2) => run_n(prog, st, m2, (fuel - 1) as nat),
            None => None,
        }
    }
}

/// The executable machine.
pub struct Machine {
    pub ram: Vec<u16>,
    pub areg: u16,
    pub dreg: u16,
    pub pc: usize,
}

impl View for Machine {
    type V = MState;

    open spec fn view(&self) -> MState {
        MState { ram: self.ram@, areg: self.areg, dreg: self.dreg, pc: self.pc as nat }
    }
}

/// A name-to-address table: predefined register symbols, label positions,
/// static slots. The first binding of a name wins.
pub struct SymbolTable {
    pub entries: Vec<(String, u16)>,
}

impl View for SymbolTable {
    type V = Seq<(Seq<char>, u16)>;

    open spec fn view(&self) -> Seq<(Seq<char>, u16)> {
        self.entries@.map_values(|p: (String, u16)| (p.0@, p.1))
    }
}

impl SymbolTable {
    /// An empty table.
    pub fn new() -> (r: Self)
        ensures
            r@ == Seq::<(Seq<char>, u16)>::empty(),
    {
        let r = SymbolTable { entries: Vec::new() };
        proof {
            assert(r@ =~= Seq::<(Seq<char>, u16)>::empty());
        }
        r
    }

    /// Binds `name` to `value`, after every existing binding.
    pub fn insert(&mut self, name: String, value: u16)
        ensures
            final(self)@ == old(self)@.push((name@, value)),
    {
        self.entries.push((name, value));
        proof {
            assert(self@ =~= old(self)@.push((self.entries@.last().0@, self.entries@.last().1)));
        }
    }

    /// Looks a name up; the first binding wins.
    pub fn lookup(&self, name: &str) -> (r: Option<u16>)
        ensures
            r == lookup_spec(self@, name@),
    {
        let n = self.entries.len();
        let mut i: usize = 0;
        proof {
            assert(self@.skip(0) =~= self@);
        }
        while i < n
            invariant
                0 <= i <= n,
                n == self.entries@.len(),
                lookup_spec(self@, name@) == lookup_spec(self@.skip(i as int), name@),
            decreases n - i,
        {
            proof {
                assert(self@.skip(i as int)[0] == self@[i as int]);
                assert(self@.skip(i as int).skip(1) =~= self@.skip(i as int + 1));
            }
            if str_eq(self.entries[i].0.as_str(), name) {
                return Some(self.entries[i].1);
            }
            i = i + 1;
        }
        proof {
            assert(self@.skip(i as int) =~= Seq::<(Seq<char>, u16)>::empty());
        }
        None
    }
}

/// Whether a computation reads the addressed memory word.
fn comp_uses_m(c: Comp) -> (r: bool)
    ensures
        r == comp_reads_m(c),
{
    match c {
        Comp::M | Comp::Mplus1 | Comp::DplusM | Comp::DminusM | Comp::MminusD | Comp::Mminus1
            | Comp::NegateM | Comp::NotM | Comp::DandM | Comp::DorM => true,
        _ => false,
    }
}

/// Whether a destination set stores into the addressed memory word.
fn writes_m(d: Option<Dest>) -> (r: bool)
    ensures
        r == dest_writes_m(d),
{
    match d {
        Some(Dest::M) | Some(Dest::DM) | Some(Dest::AM) | Some(Dest::ADM) => true,
        _ => false,
    }
}

/// Whether a destination set stores into the accumulator.
fn writes_d(d: Option<Dest>) -> (r: bool)
    ensures
        r == dest_writes_d(d),
{
    match d {
        Some(Dest::D) | Some(Dest::DM) | Some(Dest::AD) | Some(Dest::ADM) => true,
        _ => false,
    }
}

/// Whether a destination set stores into the pointer register.
fn writes_a(d: Option<Dest>) -> (r: bool)
    ensures
        r == dest_writes_a(d),
{
    match d {
        Some(Dest::A) | Some(Dest::AM) | Some(Dest::AD) | Some(Dest::ADM) => true,
        _ => false,
    }
}

/// Computes one computation's value.
fn eval(c: Comp, a: u16, d: u16, m: u16) -> (r: u16)
    ensures
        r == eval_comp(c, a, d, m),
{
    match c {
        Comp::Zero => 0,
        Comp::A => a,
        Comp::M => m,
        Comp::D => d,
        Comp::Mplus1 => (((m as u32) + 1) % WORD_CARD) as u16,
        Comp::DplusM => (((d as u32) + (m as u32)) % WORD_CARD) as u16,
        Comp::DplusA => (((d as u32) + (a as u32)) % WORD_CARD) as u16,
        Comp::DminusM => (((d as u32) + WORD_CARD - (m as u32)) % WORD_CARD) as u16,
        Comp::MminusD => (((m as u32) + WORD_CARD - (d as u32)) % WORD_CARD) as u16,
        Comp::Dminus1 => (((d as u32) + WORD_CARD - 1) % WORD_CARD) as u16,
        Comp::Mminus1 => (((m as u32) + WORD_CARD - 1) % WORD_CARD) as u16,
        Comp::NegateM => ((WORD_CARD - (m as u32)) % WORD_CARD) as u16,
        Comp::NotM => 0xFFFF - m,
        Comp::DandM => d & m,
        Comp::DorM => d | m,
    }
}

/// Whether a jump condition holds of a value.
fn jump_holds(j: Jump, v: u16) -> (r: bool)
    ensures
        r == jump_taken(j, v),
{
    match j {
        Jump::JMP => true,
        Jump::JEQ => v == 0,
        Jump::JGT => 0 < v && v < 0x8000,
        Jump::JLT => v >= 0x8000,
        Jump::JLE => v == 0 || v >= 0x8000,
    }
}

impl Machine {
    /// A machine with the given memory size, everything zeroed.
    pub fn zeroed(ram_words: usize) -> (r: Machine)
        ensures
            r@.ram.len() == ram_words,
            forall|i: int| 0 <= i < ram_words ==> r@.ram[i] == 0,
            r@.areg == 0,
            r@.dreg == 0,
            r@.pc == 0,
    {
        let mut ram: Vec<u16> = Vec::new();
        let mut i: usize = 0;
        while i < ram_words
            invariant
                i <= ram_words,
                ram@.len() == i,
                forall|j: int| 0 <= j < i ==> ram@[j] == 0,
            decreases ram_words - i,
        {
            ram.push(0);
            i = i + 1;
        }
        Machine { ram, areg: 0, dreg: 0, pc: 0 }
    }

    /// Executes the instruction at the program counter; a fault leaves the
    /// machine unchanged and yields false.
    pub fn step(&mut self, prog: &Vec<Assembly>, st: &SymbolTable) -> (ok: bool)
        requires
            old(self).pc < prog@.len(),
        ensures
            match step_spec(views_of(prog@), st@, old(self)@) {
                Some(m2) => ok && final(self)@ == m2,
                None => !ok && final(self)@ == old(self)@,
            },
    {
        let ghost progv = views_of(prog@);
        let n = prog.len();
        proof {
            assert(self.pc < n);
            assert(progv[self.pc as int] == prog@[self.pc as int]@);
        }
        match &prog[self.pc] {
            Assembly::Label(_) => {
                self.pc = self.pc + 1;
                true
            },
            Assembly::Comment(_) => {
                self.pc = self.pc + 1;
                true
            },
            Assembly::Address(x) => {
                if *x < 0x8000 {
                    self.areg = *x as u16;
                    self.pc = self.pc + 1;
                    true
                } else {
                    false
                }
            },
            Assembly::AddressSymbol(name) => {
                match st.lookup(name.as_str()) {
                    Some(v) => {
                        self.areg = v;
                        self.pc = self.pc + 1;
                        true
                    },
                    None => false,
                }
            },
            Assembly::Command { dest, comp, jump } => {
                let needs_m = comp_uses_m(*comp) || writes_m(*dest);
                let in_range = (self.areg as usize) < self.ram.len();
                if needs_m && !in_range {
                    return false;
                }
                let mval = if in_range {
                    self.ram[self.areg as usize]
                } else {
                    0
                };
                let v = eval(*comp, self.areg, self.dreg, mval);
                if writes_m(*dest) {
                    let a = self.areg as usize;
                    self.ram[a] = v;
                }
                if writes_d(*dest) {
                    self.dreg = v;
                }
                let taken = match jump {
                    Some(j) => jump_holds(*j, v),
                    None => false,
                };
                if writes_a(*dest) {
                    self.areg = v;
                }
                if taken {
                    self.pc = self.areg as usize;
                } else {
                    self.pc = self.pc + 1;
                }
                true
            },
        }
    }

    /// Runs until the program counter leaves the program, a fault occurs, or
    /// `fuel` steps have been taken; true exactly when the program ended
    /// normally within the fuel.
    pub fn run(&mut self, prog: &Vec<Assembly>, st: &SymbolTable, fuel: usize) -> (r: bool)
        ensures
            match run_n(views_of(prog@), st@, old(self)@, fuel as nat) {
                Some(m2) => final(self)@ == m2 && (r <==> m2.pc >= prog@.len()),
                None => !r,
            },
    {
        let ghost progv = views_of(prog@);
        let mut steps: usize = 0;
        while steps < fuel
            invariant
                steps <= fuel,
                progv == views_of(prog@),
                run_n(progv, st@, old(self)@, fuel as nat) == run_n(
                    progv,
                    st@,
                    self@,
                    (fuel - steps) as nat,
                ),
            decreases fuel - steps,
        {
            if self.pc >= prog.len() {
                proof {
                    assert(run_n(progv, st@, self@, (fuel - steps) as nat) == Some(self@));
                }
                return true;
            }
            let ghost before = self@;
            let ghost remaining = (fuel - steps) as nat;
            let ok = self.step(prog, st);
            if !ok {
                proof {
                    assert(run_n(progv, st@, before, remaining) is None);
                }
                return false;
            }
            proof {
                assert(run_n(progv, st@, before, remaining) == run_n(
                    progv,
                    st@,
                    self@,
                    (remaining - 1) as nat,
                ));
            }
            steps = steps + 1;
        }
        proof {
            assert(run_n(progv, st@, self@, 0) == Some(self@));
        }
        self.pc >= prog.len()
    }
}

} // verus!
