use babel::assembly::{Assembly, Comp, Dest, Jump};
use babel::babel::{Babel, Translation};
use babel::commands::segment::{Resolved, Segment, SegmentType, LATT};
use babel::commands::Command;

fn render_all(instructions: &[Assembly]) -> Vec<String> {
    instructions.iter().map(|a| a.render()).collect()
}

#[test]
fn test_display() {
    let res = Dest::M;
    let x = res.render();
    assert_eq!(x, "M=");
}

#[test]
fn test_parse() {
    assert_eq!(
        "push constant 5".parse::<Command>().unwrap(),
        Command::Push(Segment::new(SegmentType::Constant, 5))
    );
    assert_eq!(
        "pop local 7".parse::<Command>().unwrap(),
        Command::Pop(Segment::new(SegmentType::LATT(LATT::Local), 7))
    );
    assert_eq!("add".parse::<Command>().unwrap(), Command::Add);
}

#[test]
fn render_forms() {
    assert_eq!(Assembly::Address(5).render(), "@5");
    assert_eq!(Assembly::label("LOOP").render(), "(LOOP)");
    assert_eq!(Assembly::comment("hi there").render(), "// hi there");
    assert_eq!(Assembly::addr_sym("THAT").render(), "@THAT");
    assert_eq!(Assembly::assign(Dest::D, Comp::DplusM).render(), "D=D+M");
    assert_eq!(
        Assembly::Command { dest: None, comp: Comp::Zero, jump: Some(Jump::JMP) }.render(),
        "0;JMP"
    );
    assert_eq!(Assembly::assign(Dest::M, Comp::NotM).render(), "M=!M");
    assert_eq!(Assembly::assign(Dest::AM, Comp::NegateM).render(), "AM=-M");
    assert_eq!(Assembly::Address(65535).render(), "@65535");
    assert_eq!(Assembly::Address(0).render(), "@0");
}

#[test]
fn resolve_local_is_base_plus_offset() {
    let r = Segment::new(SegmentType::LATT(LATT::Local), 3).resolve("Foo");
    assert_eq!(
        r,
        Resolved { base: Assembly::AddressSymbol("LCL".to_string()), offset: Some(3) }
    );
}

#[test]
fn resolve_temp_is_absolute() {
    let r = Segment::new(SegmentType::Temp, 3).resolve("Foo");
    assert_eq!(r, Resolved { base: Assembly::Address(8), offset: None });
}

#[test]
fn resolve_static_is_namespaced_symbol() {
    let r = Segment::new(SegmentType::Static, 2).resolve("Foo");
    assert_eq!(
        r,
        Resolved { base: Assembly::AddressSymbol("Foo.2".to_string()), offset: None }
    );
}

#[test]
fn resolve_constant_and_pointer() {
    let c = Segment::new(SegmentType::Constant, 42).resolve("Foo");
    assert_eq!(c, Resolved { base: Assembly::Address(42), offset: None });
    let p0 = Segment::new(SegmentType::Pointer, 0).resolve("Foo");
    assert_eq!(
        p0,
        Resolved { base: Assembly::AddressSymbol("THIS".to_string()), offset: None }
    );
    let p1 = Segment::new(SegmentType::Pointer, 1).resolve("Foo");
    assert_eq!(
        p1,
        Resolved { base: Assembly::AddressSymbol("THAT".to_string()), offset: None }
    );
}

#[test]
fn push_constant_block() {
    let mut babel = Babel::empty("Unit");
    let block = babel.translate(&"push constant 5".parse::<Command>().unwrap());
    assert_eq!(
        render_all(&block.0),
        vec![
            "// push constant 5",
            "@5",
            "D=A",
            "@SP",
            "A=M",
            "M=D",
            "@SP",
            "M=M+1",
        ]
    );
}

#[test]
fn push_static_uses_basename() {
    let mut babel = Babel::empty("Foo");
    let block = babel.translate(&"push static 2".parse::<Command>().unwrap());
    let lines = render_all(&block.0);
    assert!(lines.contains(&"@Foo.2".to_string()));
    let mut other = Babel::empty("Bar");
    let block2 = other.translate(&"push static 2".parse::<Command>().unwrap());
    let lines2 = render_all(&block2.0);
    assert!(lines2.contains(&"@Bar.2".to_string()));
    assert!(!lines2.contains(&"@Foo.2".to_string()));
}

#[test]
fn pop_local_uses_scratch_register() {
    let mut babel = Babel::empty("Unit");
    let block = babel.translate(&"pop local 7".parse::<Command>().unwrap());
    assert_eq!(
        render_all(&block.0),
        vec![
            "// pop local 7",
            "@LCL",
            "D=M",
            "@7",
            "D=D+A",
            "@R13",
            "M=D",
            "@SP",
            "M=M-1",
            "@SP",
            "A=M",
            "D=M",
            "@R13",
            "A=M",
            "M=D",
        ]
    );
}

#[test]
fn comparison_labels_are_unique_per_invocation() {
    let mut babel = Babel::empty("Unit");
    let first = render_all(&babel.translate(&Command::Equal).0);
    let second = render_all(&babel.translate(&Command::Equal).0);
    let third = render_all(&babel.translate(&Command::LessThan).0);
    assert!(first.contains(&"@JEQ1".to_string()));
    assert!(first.contains(&"(JEQ1)".to_string()));
    assert!(first.contains(&"@AFTER1".to_string()));
    assert!(first.contains(&"(AFTER1)".to_string()));
    assert!(second.contains(&"(JEQ2)".to_string()));
    assert!(second.contains(&"(AFTER2)".to_string()));
    assert!(!second.contains(&"(JEQ1)".to_string()));
    // less-than branches on a greater-than test of top-minus-second
    assert!(third.contains(&"(JGT3)".to_string()));
    assert!(third.contains(&"(AFTER3)".to_string()));
}

#[test]
fn subtract_combines_below_minus_top() {
    let mut babel = Babel::empty("Unit");
    let lines = render_all(&babel.translate(&Command::Subtract).0);
    assert!(lines.contains(&"D=M-D".to_string()));
    assert!(!lines.contains(&"D=D-M".to_string()));
}

#[test]
fn finish_is_halt_loop() {
    let t = Translation::finish();
    assert_eq!(render_all(&t.0), vec!["(END)", "@END", "0;JMP"]);
}

#[test]
fn translate_all_concatenates_in_order() {
    let cmds: Vec<Command> = vec![
        "push constant 1".parse().unwrap(),
        "push constant 2".parse().unwrap(),
        Command::Add,
    ];
    let mut babel = Babel::empty("Unit");
    let prog = babel.translate_all(&cmds);
    let mut expected: Vec<String> = Vec::new();
    let mut one_by_one = Babel::empty("Unit");
    for c in &cmds {
        expected.extend(render_all(&one_by_one.translate(c).0));
    }
    assert_eq!(render_all(&prog), expected);
}

#[test]
fn fresh_translators_give_identical_output() {
    let source = ["push constant 3", "push local 1", "eq", "gt", "pop temp 4", "lt"];
    let cmds: Vec<Command> = source.iter().map(|s| s.parse().unwrap()).collect();
    let mut first = Babel::empty("Same");
    let mut second = Babel::empty("Same");
    let out1 = render_all(&first.translate_all(&cmds));
    let out2 = render_all(&second.translate_all(&cmds));
    assert_eq!(out1, out2);
    assert_eq!(first.counter, 3);
    assert_eq!(second.counter, 3);
}
