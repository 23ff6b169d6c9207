use lib::ast::BinOp;
use lib::chunk::NOT_STMT;
use lib::op::Op;
use lib::peephole::optimize;

/// A jump to the next instruction (an `if` without `else`) disappears.
#[test]
fn removes_jump_to_next() {
    let mut code = vec![
        Op::JumpIfFalse(3), // 0
        Op::Nil,            // 1
        Op::Jump(3),        // 2: jumps to the next instruction
        Op::Return,         // 3
    ];
    optimize(&mut code, &mut Vec::new());
    assert_eq!(code.len(), 3);
    // Target 3 is renumbered to 2.
    assert!(matches!(code[0], Op::JumpIfFalse(2)));
    assert!(matches!(code[2], Op::Return));
}

/// A chain of jumps is shortened to its end.
#[test]
fn collapses_jump_chain() {
    let mut code = vec![
        Op::Nil,            // 0
        Op::JumpIfFalse(3), // 1
        Op::Jump(3),        // 2: 3 is JUMP 0, so this goes to 0
        Op::Jump(0),        // 3
        Op::Return,         // 4
    ];
    optimize(&mut code, &mut Vec::new());
    assert!(matches!(code[1], Op::JumpIfFalse(0)));
    assert!(matches!(code[2], Op::Jump(0)));
}

/// The exit of `ForIter` and the handler of `SetupTry` are code indices too.
#[test]
fn remaps_for_iter_exit_and_setup_try_handler() {
    let mut code = vec![
        Op::SetupTry(5),      // 0: handler at 5
        Op::ForIter(0, 1, 5), // 1: exit at 5
        Op::Jump(3),          // 2: removed (to the next instruction)
        Op::Bin(BinOp::Add),  // 3
        Op::Jump(5),          // 4: removed (to the next instruction)
        Op::Return,           // 5: index 3 afterwards
    ];
    optimize(&mut code, &mut Vec::new());
    assert_eq!(code.len(), 4);
    assert!(matches!(code[0], Op::SetupTry(3)), "{code:?}");
    assert!(matches!(code[1], Op::ForIter(0, 1, 3)), "{code:?}");
    assert!(matches!(code[3], Op::Return), "{code:?}");
}

/// A jump to itself does not make the optimiser loop.
#[test]
fn self_jump_terminates() {
    let mut code = vec![Op::Jump(0), Op::Return];
    optimize(&mut code, &mut Vec::new());
    assert!(matches!(code[0], Op::Jump(0)));
}

/// The line table is compacted with the code.
#[test]
fn compacts_stmt_spans_with_code() {
    let mut code = vec![
        Op::Nil,     // 0: statement start (span 7)
        Op::Jump(2), // 1: removed (not a statement start)
        Op::Return,  // 2: statement start (span 9)
    ];
    let mut spans = vec![7, NOT_STMT, 9];
    optimize(&mut code, &mut spans);
    assert_eq!(code.len(), 2);
    assert_eq!(spans, vec![7, 9], "the line table was not compacted with the code");
}

/// A jump that starts a statement (`break`) is kept.
#[test]
fn keeps_jump_that_starts_a_statement() {
    let mut code = vec![
        Op::Nil,     // 0
        Op::Jump(2), // 1: to the next instruction, but a statement start
        Op::Return,  // 2
    ];
    let mut spans = vec![NOT_STMT, 3, NOT_STMT];
    optimize(&mut code, &mut spans);
    assert_eq!(code.len(), 3, "the statement-start jump was removed: {code:?}");
    assert_eq!(spans, vec![NOT_STMT, 3, NOT_STMT]);
}

/// Jumps elsewhere than the next instruction stay; non-jumps keep their order.
#[test]
fn keeps_non_jumps_in_order() {
    let mut code = vec![
        Op::Const(0),       // 0
        Op::JumpIfFalse(4), // 1
        Op::Nil,            // 2
        Op::Jump(5),        // 3: not to the next instruction
        Op::Pop,            // 4
        Op::Return,         // 5
    ];
    optimize(&mut code, &mut Vec::new());
    assert_eq!(code.len(), 6);
    assert!(matches!(code[0], Op::Const(0)));
    assert!(matches!(code[1], Op::JumpIfFalse(4)));
    assert!(matches!(code[3], Op::Jump(5)));
    assert!(matches!(code[5], Op::Return));
}

/// A chain through a removed jump lands on the renumbered end.
#[test]
fn chain_through_removed_jump() {
    let mut code = vec![
        Op::Jump(1), // 0: to the next instruction, removed
        Op::Jump(2), // 1: to the next instruction, removed
        Op::Return,  // 2
    ];
    optimize(&mut code, &mut Vec::new());
    assert_eq!(code.len(), 1);
    assert!(matches!(code[0], Op::Return));
}

/// A final return stays the last instruction when jumps before it go.
#[test]
fn final_return_stays_last() {
    let mut code = vec![
        Op::Jump(1),        // 0: to the next instruction
        Op::Jump(2),        // 1: to the next instruction
        Op::ReturnNil,      // 2
    ];
    let mut spans = vec![NOT_STMT, NOT_STMT, NOT_STMT];
    optimize(&mut code, &mut spans);
    assert_eq!(code.len(), 1);
    assert!(matches!(code[0], Op::ReturnNil));
    assert_eq!(spans, vec![NOT_STMT]);
}

/// Code without unconditional jumps keeps its instructions and line table.
#[test]
fn code_without_jumps_is_left_alone() {
    let mut code = vec![Op::Nil, Op::JumpIfFalse(3), Op::Nil, Op::Return];
    let mut spans = vec![0xffff_fffe, NOT_STMT, 0xffff_fffe, NOT_STMT];
    optimize(&mut code, &mut spans);
    let got: Vec<String> = code.iter().map(|op| format!("{op:?}")).collect();
    assert_eq!(got, ["Nil", "JumpIfFalse(3)", "Nil", "Return"]);
    assert_eq!(spans, vec![0xffff_fffe, NOT_STMT, 0xffff_fffe, NOT_STMT]);
}
