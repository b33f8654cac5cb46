use calculadora_distribuida::operator::Operator;
use calculadora_distribuida::protocol::{parse_message, Message, Operation};

#[test]
fn test_parse_get() {
    assert_eq!(parse_message("GET").unwrap(), Message::Get);
}

#[test]
fn test_parse_ok() {
    assert_eq!(parse_message("OK").unwrap(), Message::Ack);
}

#[test]
fn test_parse_op() {
    let msg = parse_message("OP + 5").unwrap();
    assert_eq!(
        msg,
        Message::Op(Operation {
            op: Operator::Add,
            operand: 5
        })
    );
}

#[test]
fn test_parse_op_invalid_operator() {
    assert!(parse_message("OP x 5").is_err());
}

#[test]
fn test_parse_op_invalid_number() {
    assert!(parse_message("OP + 300").is_err());
    assert!(parse_message("OP + abc").is_err());
}

#[test]
fn test_parse_error() {
    let msg = parse_message(r#"ERROR "Algo fallo""#).unwrap();
    assert_eq!(msg, Message::Error("Algo fallo".to_string()));
}

#[test]
fn test_parse_value() {
    let msg = parse_message("VALUE 123").unwrap();
    assert_eq!(msg, Message::Value(123));
}

#[test]
fn test_parse_unknown() {
    assert!(parse_message("XYZ").is_err());
    assert!(parse_message("").is_err());
}

#[test]
fn test_display() {
    let ok = Message::Ack;
    let err = Message::Error("fail".to_string());
    let val = Message::Value(42);

    assert_eq!(ok.to_string(), "OK");
    assert_eq!(err.to_string(), "ERROR \"fail\"");
    assert_eq!(val.to_string(), "VALUE 42");
}

#[test]
fn request_text_round_trips_for_every_operation() {
    for op in [Operator::Add, Operator::Sub, Operator::Mul, Operator::Div] {
        for operand in 0..=255u8 {
            let m = Message::Op(Operation { op, operand });
            let line = m.to_string();
            assert_eq!(parse_message(&line).unwrap(), m);
        }
    }
}

#[test]
fn request_text_is_op_symbol_operand() {
    let m = Message::Op(Operation {
        op: Operator::Mul,
        operand: 17,
    });
    assert_eq!(m.to_string(), "OP * 17");
    assert_eq!(Message::Get.to_string(), "GET");
}

#[test]
fn responses_round_trip() {
    let cases = vec![
        Message::Ack,
        Message::Get,
        Message::Error("".to_string()),
        Message::Error("a \"quoted\" word".to_string()),
        Message::Value(0),
        Message::Value(-1),
        Message::Value(i128::MAX),
        Message::Value(i128::MIN),
    ];
    for m in cases {
        let line = m.to_string();
        assert_eq!(parse_message(&line).unwrap(), m);
    }
}

#[test]
fn value_text_of_extremes() {
    assert_eq!(
        Message::Value(i128::MIN).to_string(),
        "VALUE -170141183460469231731687303715884105728"
    );
    assert_eq!(
        Message::Value(i128::MAX).to_string(),
        "VALUE 170141183460469231731687303715884105727"
    );
    assert_eq!(Message::Value(-305).to_string(), "VALUE -305");
}

#[test]
fn operand_range_edges() {
    assert_eq!(
        parse_message("OP + 256").unwrap_err(),
        "operand out of range"
    );
    assert_eq!(
        parse_message("OP + 65535").unwrap_err(),
        "operand out of range"
    );
    assert_eq!(parse_message("OP + 65536").unwrap_err(), "invalid number");
    assert_eq!(
        parse_message("OP + 255").unwrap(),
        Message::Op(Operation {
            op: Operator::Add,
            operand: 255
        })
    );
    assert_eq!(parse_message("OP + -1").unwrap_err(), "invalid number");
    assert_eq!(
        parse_message("OP / 0").unwrap(),
        Message::Op(Operation {
            op: Operator::Div,
            operand: 0
        })
    );
}

#[test]
fn malformed_lines_fail_to_decode() {
    assert_eq!(parse_message("").unwrap_err(), "empty message");
    assert_eq!(parse_message("  \t ").unwrap_err(), "empty message");
    assert_eq!(parse_message("XYZ").unwrap_err(), "unknown message");
    assert_eq!(parse_message("OP +").unwrap_err(), "invalid OP format");
    assert_eq!(parse_message("OP + 1 2").unwrap_err(), "invalid OP format");
    assert_eq!(parse_message("OP + abc").unwrap_err(), "invalid number");
    assert_eq!(parse_message("OP x 5").unwrap_err(), "invalid operation");
    assert_eq!(parse_message("OP").unwrap_err(), "unknown message");
    assert_eq!(parse_message("get").unwrap_err(), "unknown message");
}

#[test]
fn error_and_value_formats() {
    assert_eq!(
        parse_message("ERROR no quotes").unwrap_err(),
        "invalid ERROR format"
    );
    assert_eq!(
        parse_message("ERROR \"half").unwrap_err(),
        "invalid ERROR format"
    );
    assert_eq!(
        parse_message("ERROR x\"in\"y").unwrap(),
        Message::Error("in".to_string())
    );
    assert_eq!(parse_message("VALUE x").unwrap_err(), "invalid VALUE");
    assert_eq!(parse_message("VALUE -").unwrap_err(), "invalid VALUE");
    assert_eq!(
        parse_message("VALUE 170141183460469231731687303715884105728").unwrap_err(),
        "invalid VALUE"
    );
    assert_eq!(
        parse_message("VALUE -170141183460469231731687303715884105728").unwrap(),
        Message::Value(i128::MIN)
    );
    assert_eq!(parse_message("VALUE   +7  ").unwrap(), Message::Value(7));
}

#[test]
fn surrounding_whitespace_is_ignored() {
    assert_eq!(parse_message("  GET\r\n").unwrap(), Message::Get);
    assert_eq!(
        parse_message("\tOP   -\t 9  ").unwrap(),
        Message::Op(Operation {
            op: Operator::Sub,
            operand: 9
        })
    );
    assert_eq!(parse_message("\u{3000}OK\u{a0}").unwrap(), Message::Ack);
    assert_eq!(parse_message("OP + 007").unwrap(), Message::Op(Operation {
        op: Operator::Add,
        operand: 7
    }));
}
