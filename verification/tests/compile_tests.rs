use mblf::codegen::compile;
use mblf::codegen::count_declarations;
use mblf::codegen::Stmt;
use mblf::error::CompileError;

fn declare(name: &str) -> Stmt {
    Stmt::Declare { name: name.to_string() }
}

fn point(name: &str) -> Stmt {
    Stmt::Point { name: name.to_string() }
}

fn point_addr(operand: &str) -> Stmt {
    Stmt::PointAddr { operand: operand.to_string() }
}

fn add(operand: &str) -> Stmt {
    Stmt::Add { operand: operand.to_string() }
}

/// A tiny tape-machine interpreter: runs the emitted text and returns the
/// tape and the final head position.
fn run_tape(prog: &str) -> (Vec<u64>, usize) {
    let code: Vec<char> = prog.chars().collect();
    let mut tape = vec![0u64; 1];
    let mut head: usize = 0;
    let mut pc: usize = 0;
    let mut steps: usize = 0;
    while pc < code.len() {
        steps += 1;
        assert!(steps < 1_000_000, "runaway tape program");
        match code[pc] {
            '<' => head -= 1,
            '>' => {
                head += 1;
                if head == tape.len() {
                    tape.push(0);
                }
            }
            '+' => tape[head] += 1,
            '-' => tape[head] -= 1,
            '[' => {
                if tape[head] == 0 {
                    let mut depth = 1;
                    while depth > 0 {
                        pc += 1;
                        match code[pc] {
                            '[' => depth += 1,
                            ']' => depth -= 1,
                            _ => {}
                        }
                    }
                }
            }
            ']' => {
                if tape[head] != 0 {
                    let mut depth = 1;
                    while depth > 0 {
                        pc -= 1;
                        match code[pc] {
                            ']' => depth += 1,
                            '[' => depth -= 1,
                            _ => {}
                        }
                    }
                }
            }
            _ => {}
        }
        pc += 1;
    }
    (tape, head)
}

#[test]
fn pointer_movement_is_minimal() {
    let program = vec![point_addr("10"), point_addr("3")];
    let out = compile(&program).unwrap();
    assert_eq!(out.as_str(), ">>>>>>>>>><<<<<<<");
    let emitted_after_reaching_ten = &out[10..];
    assert_eq!(emitted_after_reaching_ten.matches('<').count(), 7);
    assert_eq!(emitted_after_reaching_ten.matches('>').count(), 0);
}

#[test]
fn pointing_at_current_address_emits_nothing() {
    let program = vec![point_addr("4"), point_addr("4")];
    assert_eq!(compile(&program).unwrap().as_str(), ">>>>");
}

#[test]
fn duplicate_declaration_fails() {
    let program = vec![declare("x"), declare("x")];
    let e = compile(&program).unwrap_err();
    assert!(matches!(e, CompileError::DuplicateVariable(n) if n == "x"));
}

#[test]
fn deleting_undeclared_variable_fails() {
    let program = vec![Stmt::Delete { name: "y".to_string() }];
    let e = compile(&program).unwrap_err();
    assert!(matches!(e, CompileError::UnknownVariable(n) if n == "y"));
}

#[test]
fn pointing_at_unknown_variable_fails() {
    let program = vec![point("ghostvar")];
    let e = compile(&program).unwrap_err();
    assert!(matches!(e, CompileError::UnknownVariable(n) if n == "ghostvar"));
}

#[test]
fn malformed_constant_fails() {
    let program = vec![add("xyz")];
    let e = compile(&program).unwrap_err();
    assert!(matches!(e, CompileError::MalformedLiteral(t) if t == "xyz"));
}

#[test]
fn redeclaring_a_deleted_name_gets_a_fresh_address() {
    // Addresses are never reused: x is 0, y is 1, and after deleting x the
    // redeclared x is 2, so pointing at it emits two move-rights.
    let program = vec![
        declare("x"),
        declare("y"),
        Stmt::Delete { name: "x".to_string() },
        declare("x"),
        point("x"),
    ];
    assert_eq!(compile(&program).unwrap().as_str(), ">>");
}

#[test]
fn constant_addition_repeats_increment() {
    let program = vec![declare("a"), point("a"), add("4")];
    assert_eq!(compile(&program).unwrap().as_str(), "++++");
}

#[test]
fn quoted_and_hex_constants_drive_repetition() {
    let program = vec![add("\"A\"")];
    assert_eq!(compile(&program).unwrap().as_str(), "+".repeat(65));
    let program = vec![Stmt::Sub { operand: "0x03".to_string() }];
    assert_eq!(compile(&program).unwrap().as_str(), "---");
}

#[test]
fn zero_read_print_and_end_emit_single_idioms() {
    let program = vec![
        Stmt::Zero,
        Stmt::ReadInput,
        Stmt::PrintOutput,
        Stmt::EndOfInput,
    ];
    assert_eq!(compile(&program).unwrap().as_str(), "[-],.\n");
}

#[test]
fn transfer_emits_classic_drain_loop() {
    let program = vec![
        declare("a"),
        declare("b"),
        point("a"),
        add("3"),
        Stmt::AddV { name: "b".to_string() },
    ];
    assert_eq!(compile(&program).unwrap().as_str(), "+++[->+<]");
}

#[test]
fn copy_emits_two_phase_drain_through_temp() {
    let program = vec![
        declare("a"),
        declare("b"),
        point("a"),
        add("2"),
        Stmt::CopyTo { name: "b".to_string() },
    ];
    assert_eq!(
        compile(&program).unwrap().as_str(),
        "++[->+>+<<]>>[-<<+>>]"
    );
}

#[test]
fn marker_return_emits_fixed_walk() {
    let program = vec![
        declare("m"),
        point_addr("3"),
        Stmt::PointMarker { name: "m".to_string() },
        point_addr("1"),
    ];
    // After the marker walk the generator trusts the head to be on m's slot
    // (address 0), so reaching address 1 is one move-right.
    assert_eq!(compile(&program).unwrap().as_str(), ">>><+[-<+]->");
}

#[test]
fn marker_return_to_unknown_variable_fails() {
    let program = vec![Stmt::PointMarker { name: "m".to_string() }];
    let e = compile(&program).unwrap_err();
    assert!(matches!(e, CompileError::UnknownVariable(n) if n == "m"));
}

#[test]
fn user_declared_temp_makes_copy_fail() {
    let program = vec![
        declare("__temp"),
        declare("b"),
        point("__temp"),
        Stmt::CopyTo { name: "b".to_string() },
    ];
    let e = compile(&program).unwrap_err();
    assert!(matches!(e, CompileError::DuplicateVariable(n) if n == "__temp"));
}

#[test]
fn loop_block_compiles_children_in_order() {
    let program = vec![Stmt::LoopBlock {
        body: vec![Stmt::LoopOpen, Stmt::ReadInput, Stmt::LoopClose],
    }];
    assert_eq!(compile(&program).unwrap().as_str(), "[,]");
}

#[test]
fn include_shares_the_compilation_state() {
    // A variable declared inside an included file stays live afterwards and
    // its address continues the including file's numbering.
    let program = vec![
        declare("a"),
        Stmt::Include { body: vec![declare("b"), point("b")] },
        point("a"),
        point("b"),
    ];
    assert_eq!(compile(&program).unwrap().as_str(), "><>");
}

#[test]
fn zero_loop_clears_any_value_and_keeps_the_head() {
    let program = vec![declare("a"), point("a"), add("7"), Stmt::Zero];
    let out = compile(&program).unwrap();
    assert_eq!(out.as_str(), "+++++++[-]");
    let (tape, head) = run_tape(&out);
    assert_eq!(tape[0], 0);
    assert_eq!(head, 0);
}

#[test]
fn copy_is_non_destructive() {
    let program = vec![
        declare("a"),
        point("a"),
        add("5"),
        declare("b"),
        point("a"),
        Stmt::CopyTo { name: "b".to_string() },
    ];
    let (tape, head) = run_tape(&compile(&program).unwrap());
    assert_eq!(tape[0], 5);
    assert_eq!(tape[1], 5);
    assert_eq!(tape[2], 0);
    // The head ends on the retired temporary's slot.
    assert_eq!(head, 2);
}

#[test]
fn transfer_is_destructive() {
    let program = vec![
        declare("a"),
        point("a"),
        add("5"),
        declare("b"),
        point("a"),
        Stmt::AddV { name: "b".to_string() },
    ];
    let (tape, head) = run_tape(&compile(&program).unwrap());
    assert_eq!(tape[0], 0);
    assert_eq!(tape[1], 5);
    assert_eq!(head, 0);
}

#[test]
fn subtracting_transfer_drains_out_of_the_target() {
    let program = vec![
        declare("a"),
        declare("b"),
        point("b"),
        add("9"),
        point("a"),
        add("3"),
        Stmt::SubV { name: "b".to_string() },
    ];
    let (tape, _) = run_tape(&compile(&program).unwrap());
    assert_eq!(tape[0], 0);
    assert_eq!(tape[1], 6);
}

#[test]
fn declarations_are_counted_through_nesting() {
    let program = vec![
        declare("a"),
        Stmt::LoopBlock {
            body: vec![
                Stmt::LoopOpen,
                Stmt::CopyTo { name: "a".to_string() },
                Stmt::LoopClose,
            ],
        },
        Stmt::Include { body: vec![declare("b")] },
    ];
    assert_eq!(count_declarations(&program), Some(3));
}

#[test]
fn any_literal_form_names_an_address() {
    let program = vec![point_addr("0x02")];
    assert_eq!(compile(&program).unwrap().as_str(), ">>");
    let program = vec![point_addr("\"A\""), point_addr("64")];
    assert_eq!(compile(&program).unwrap().as_str(), format!("{}<", ">".repeat(65)));
}

#[test]
fn empty_program_compiles_to_nothing() {
    let program: Vec<Stmt> = vec![];
    assert_eq!(compile(&program).unwrap().as_str(), "");
}
