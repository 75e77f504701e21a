use babel::assembly::Assembly;
use babel::babel::Babel;
use babel::commands::Command;
use babel::machine::{Machine, SymbolTable};

const SP: u16 = 256;

fn build_table(prog: &[Assembly]) -> SymbolTable {
    let mut table = SymbolTable::new();
    table.insert("SP".to_string(), 0);
    table.insert("LCL".to_string(), 1);
    table.insert("ARG".to_string(), 2);
    table.insert("THIS".to_string(), 3);
    table.insert("THAT".to_string(), 4);
    table.insert("R13".to_string(), 13);
    table.insert("R14".to_string(), 14);
    table.insert("R15".to_string(), 15);
    for (i, a) in prog.iter().enumerate() {
        if let Assembly::Label(name) = a {
            table.insert(name.clone(), i as u16);
        }
    }
    table
}

fn translate(source: &[&str]) -> Vec<Assembly> {
    let cmds: Vec<Command> = source.iter().map(|s| s.parse().unwrap()).collect();
    let mut babel = Babel::empty("Unit");
    babel.translate_all(&cmds)
}

fn fresh_machine() -> Machine {
    let mut m = Machine::zeroed(1024);
    m.ram[0] = SP as u16;
    m
}

#[test]
fn subtract_scenario() {
    // push 7, push 2, subtract: one value on the stack, 7 - 2 = 5,
    // stack pointer up by one net (+1, +1, -1)
    let prog = translate(&["push constant 7", "push constant 2", "sub"]);
    let table = build_table(&prog);
    let mut m = fresh_machine();
    assert!(m.run(&prog, &table, 100));
    assert_eq!(m.ram[0], SP + 1);
    assert_eq!(m.ram[SP as usize], 5);
}

#[test]
fn equal_scenario() {
    // push 5, push 5, eq: a single all-one-bits true value on the stack
    let prog = translate(&["push constant 5", "push constant 5", "eq"]);
    let table = build_table(&prog);
    let mut m = fresh_machine();
    assert!(m.run(&prog, &table, 100));
    assert_eq!(m.ram[0], SP + 1);
    assert_eq!(m.ram[SP as usize], 0xFFFF);
}

#[test]
fn unequal_pushes_all_zero_bits() {
    let prog = translate(&["push constant 5", "push constant 6", "eq"]);
    let table = build_table(&prog);
    let mut m = fresh_machine();
    assert!(m.run(&prog, &table, 100));
    assert_eq!(m.ram[0], SP + 1);
    assert_eq!(m.ram[SP as usize], 0);
}

#[test]
fn comparisons_push_only_boolean_encodings() {
    for (cmd, left, right, expect_true) in [
        ("lt", 3u16, 9u16, true),
        ("lt", 9, 3, false),
        ("gt", 9, 3, true),
        ("gt", 3, 9, false),
        ("eq", 4, 4, true),
    ] {
        let prog = translate(&[
            &format!("push constant {left}"),
            &format!("push constant {right}"),
            cmd,
        ]);
        let table = build_table(&prog);
        let mut m = fresh_machine();
        assert!(m.run(&prog, &table, 100));
        let got = m.ram[SP as usize];
        assert!(got == 0 || got == 0xFFFF);
        assert_eq!(got == 0xFFFF, expect_true);
    }
}

#[test]
fn local_to_temp_scenario() {
    // push local 0, pop temp 0 with Local base register valued B: the value
    // at address B moves to address 5, net stack depth unchanged
    let base: u16 = 300;
    let prog = translate(&["push local 0", "pop temp 0"]);
    let table = build_table(&prog);
    let mut m = fresh_machine();
    m.ram[1] = base;
    m.ram[base as usize] = 1234;
    assert!(m.run(&prog, &table, 100));
    assert_eq!(m.ram[5], 1234);
    assert_eq!(m.ram[0], SP);
    assert_eq!(m.ram[1], base);
    assert_eq!(m.ram[base as usize], 1234);
    assert_eq!(m.ram[2], 0);
    assert_eq!(m.ram[3], 0);
    assert_eq!(m.ram[4], 0);
}

#[test]
fn stack_depth_per_command() {
    // net stack-pointer displacement: +1 per push, -1 per pop, -1 per
    // binary/comparison operation, 0 per unary operation
    let cases: &[(&[&str], i32)] = &[
        (&["push constant 9"], 1),
        (&["push constant 9", "push constant 1", "add"], 1),
        (&["push constant 9", "pop temp 1"], 0),
        (&["push constant 9", "neg"], 1),
        (&["push constant 9", "not"], 1),
        (&["push constant 9", "push constant 1", "and"], 1),
        (&["push constant 9", "push constant 1", "or"], 1),
        (&["push constant 9", "push constant 1", "gt"], 1),
        (&["push constant 9", "push constant 1", "lt"], 1),
        (&["push constant 2", "pop pointer 0"], 0),
        (&["push constant 2", "pop pointer 1"], 0),
        (&["push pointer 0", "push pointer 1"], 2),
        (&["push temp 3", "push static 1", "pop static 2"], 1),
        (&["push argument 2", "pop this 0", "push that 1", "pop argument 0"], 0),
    ];
    for (source, delta) in cases {
        let prog = translate(source);
        let mut table = build_table(&prog);
        // give the two static slots fixed cells, as an assembler would
        table.insert("Unit.1".to_string(), 16);
        table.insert("Unit.2".to_string(), 17);
        let mut m = fresh_machine();
        m.ram[1] = 320;
        m.ram[2] = 340;
        m.ram[3] = 360;
        m.ram[4] = 380;
        assert!(m.run(&prog, &table, 500));
        assert_eq!(m.ram[0] as i32, SP as i32 + delta);
    }
}

#[test]
fn arithmetic_wraps_on_sixteen_bits() {
    let prog = translate(&["push constant 0", "push constant 1", "sub"]);
    let table = build_table(&prog);
    let mut m = fresh_machine();
    assert!(m.run(&prog, &table, 100));
    assert_eq!(m.ram[SP as usize], 0xFFFF);
}

#[test]
fn negate_and_not() {
    let prog = translate(&["push constant 7", "neg"]);
    let table = build_table(&prog);
    let mut m = fresh_machine();
    assert!(m.run(&prog, &table, 100));
    assert_eq!(m.ram[SP as usize], 0u16.wrapping_sub(7));

    let prog2 = translate(&["push constant 0", "not"]);
    let table2 = build_table(&prog2);
    let mut m2 = fresh_machine();
    assert!(m2.run(&prog2, &table2, 100));
    assert_eq!(m2.ram[SP as usize], 0xFFFF);
}

#[test]
fn unresolved_symbol_faults() {
    let prog = vec![Assembly::addr_sym("NOWHERE")];
    let table = SymbolTable::new();
    let mut m = fresh_machine();
    assert!(!m.run(&prog, &table, 10));
}

#[test]
fn halt_loop_spins_until_fuel_runs_out() {
    let finish = babel::babel::Translation::finish();
    let prog = finish.0;
    let table = build_table(&prog);
    let mut m = fresh_machine();
    // the terminal block jumps to itself forever: it never falls off the end
    assert!(!m.run(&prog, &table, 50));
}

#[test]
fn symbol_table_first_binding_wins() {
    let mut table = SymbolTable::new();
    table.insert("X".to_string(), 7);
    table.insert("X".to_string(), 9);
    assert_eq!(table.lookup("X"), Some(7));
    assert_eq!(table.lookup("Y"), None);
}
