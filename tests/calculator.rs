use calculadora_distribuida::calculator::apply_operation;
use calculadora_distribuida::operator::Operator;
use calculadora_distribuida::protocol::Operation;

#[test]
fn test_add_normal() {
    let op = Operation {
        op: Operator::Add,
        operand: 5,
    };
    assert_eq!(apply_operation(10, &op).unwrap(), 15);
}

#[test]
fn test_sub_normal() {
    let op = Operation {
        op: Operator::Sub,
        operand: 3,
    };
    assert_eq!(apply_operation(10, &op).unwrap(), 7);
}

#[test]
fn test_mul_normal() {
    let op = Operation {
        op: Operator::Mul,
        operand: 4,
    };
    assert_eq!(apply_operation(3, &op).unwrap(), 12);
}

#[test]
fn test_div_normal() {
    let op = Operation {
        op: Operator::Div,
        operand: 2,
    };
    assert_eq!(apply_operation(10, &op).unwrap(), 5);
}

#[test]
fn test_div_by_zero() {
    let op = Operation {
        op: Operator::Div,
        operand: 0,
    };
    assert_eq!(apply_operation(10, &op).unwrap_err(), "Division by zero");
}

#[test]
fn test_add_overflow() {
    let op = Operation {
        op: Operator::Add,
        operand: 1,
    };
    assert!(apply_operation(i128::MAX, &op)
        .unwrap_err()
        .contains("Overflow"));
}

#[test]
fn test_sub_underflow() {
    let op = Operation {
        op: Operator::Sub,
        operand: 1,
    };
    assert!(apply_operation(i128::MIN, &op)
        .unwrap_err()
        .contains("Underflow"));
}

#[test]
fn test_mul_overflow() {
    let op = Operation {
        op: Operator::Mul,
        operand: 2,
    };
    assert!(apply_operation(i128::MAX / 2 + 1, &op)
        .unwrap_err()
        .contains("Overflow"));
}

#[test]
fn div_truncates_toward_zero() {
    let op = Operation {
        op: Operator::Div,
        operand: 2,
    };
    assert_eq!(apply_operation(-7, &op).unwrap(), -3);
    assert_eq!(apply_operation(7, &op).unwrap(), 3);
    assert_eq!(apply_operation(i128::MIN, &op).unwrap(), i128::MIN / 2);
}

#[test]
fn div_by_zero_fails_for_every_accumulator() {
    let op = Operation {
        op: Operator::Div,
        operand: 0,
    };
    for c in [0, 1, -1, i128::MAX, i128::MIN] {
        assert_eq!(apply_operation(c, &op).unwrap_err(), "Division by zero");
    }
}

#[test]
fn bounds_overflow_with_any_positive_operand() {
    for x in [1u8, 7, 255] {
        let add = Operation {
            op: Operator::Add,
            operand: x,
        };
        let sub = Operation {
            op: Operator::Sub,
            operand: x,
        };
        assert_eq!(apply_operation(i128::MAX, &add).unwrap_err(), "Overflow");
        assert_eq!(apply_operation(i128::MIN, &sub).unwrap_err(), "Underflow");
    }
}

#[test]
fn mul_below_minimum_is_overflow() {
    let op = Operation {
        op: Operator::Mul,
        operand: 2,
    };
    assert_eq!(apply_operation(i128::MIN, &op).unwrap_err(), "Overflow");
    assert_eq!(apply_operation(-4, &op).unwrap(), -8);
}

#[test]
fn edges_that_still_fit() {
    let add = Operation {
        op: Operator::Add,
        operand: 255,
    };
    let sub = Operation {
        op: Operator::Sub,
        operand: 255,
    };
    let zero = Operation {
        op: Operator::Mul,
        operand: 0,
    };
    assert_eq!(apply_operation(i128::MAX - 255, &add).unwrap(), i128::MAX);
    assert_eq!(apply_operation(i128::MIN + 255, &sub).unwrap(), i128::MIN);
    assert_eq!(apply_operation(i128::MAX, &zero).unwrap(), 0);
}
