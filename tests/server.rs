use calculadora_distribuida::operator::Operator;
use calculadora_distribuida::protocol::{Message, Operation};
use calculadora_distribuida::server::{handle_line, plan, state_inaccessible, update, Action};

#[test]
fn add_then_get_reports_the_sum() {
    let mut state: i128 = 0;
    assert_eq!(handle_line("OP + 10", &mut state).to_string(), "OK");
    assert_eq!(handle_line("GET", &mut state).to_string(), "VALUE 10");
}

#[test]
fn division_by_zero_leaves_the_accumulator() {
    let mut state: i128 = 0;
    assert_eq!(
        handle_line("OP / 0", &mut state).to_string(),
        "ERROR \"Division by zero\""
    );
    assert_eq!(handle_line("GET", &mut state).to_string(), "VALUE 0");
}

#[test]
fn connection_keeps_going_after_errors() {
    let mut state: i128 = 3;
    assert_eq!(handle_line("OP + 5", &mut state), Message::Ack);
    assert_eq!(
        handle_line("OP + abc", &mut state),
        Message::Error("invalid number".to_string())
    );
    assert_eq!(
        handle_line("OK", &mut state),
        Message::Error("unexpected message".to_string())
    );
    assert_eq!(
        handle_line("VALUE 3", &mut state),
        Message::Error("unexpected message".to_string())
    );
    assert_eq!(handle_line("OP * 2", &mut state), Message::Ack);
    assert_eq!(handle_line("GET", &mut state), Message::Value(16));
    assert_eq!(state, 16);
}

#[test]
fn failed_operation_is_not_committed() {
    let mut state: i128 = i128::MAX;
    let op = Operation {
        op: Operator::Add,
        operand: 1,
    };
    assert_eq!(
        update(&mut state, &op),
        Message::Error("Overflow".to_string())
    );
    assert_eq!(state, i128::MAX);
}

#[test]
fn plan_sorts_requests() {
    assert!(matches!(plan("OP - 4"), Action::Apply(Operation { op: Operator::Sub, operand: 4 })));
    assert!(matches!(plan("GET"), Action::Read));
    match plan("") {
        Action::Answer(m) => assert_eq!(m, Message::Error("empty message".to_string())),
        _ => panic!("an empty line needs no state"),
    }
    assert_eq!(
        state_inaccessible().to_string(),
        "ERROR \"state inaccessible\""
    );
}

#[test]
fn interleaved_increments_sum_up() {
    let connections = 4;
    let per_connection = 25;
    let mut state: i128 = 0;
    for _ in 0..per_connection {
        for _ in 0..connections {
            assert_eq!(handle_line("OP + 1", &mut state), Message::Ack);
        }
    }
    assert_eq!(state, (connections * per_connection) as i128);
}
