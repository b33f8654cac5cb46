use calculadora_distribuida::client::{answer_report, final_report, operation_request};

#[test]
fn batch_lines_become_requests() {
    assert_eq!(operation_request("+ 1").unwrap(), "OP + 1");
    assert_eq!(operation_request("  * 3 \n").unwrap(), "OP * 3");
    assert!(operation_request("   ").is_none());
    assert!(operation_request("").is_none());
}

#[test]
fn answers_to_operations() {
    assert!(answer_report("OK\n").is_none());
    assert_eq!(
        answer_report("ERROR \"Overflow\"\n").unwrap(),
        "ERROR \"Overflow\""
    );
    assert_eq!(
        answer_report("VALUE 4").unwrap(),
        "ERROR \"unexpected response: VALUE 4\""
    );
    assert_eq!(answer_report("???").unwrap(), "ERROR \"unknown message\"");
}

#[test]
fn final_value_reports() {
    assert_eq!(final_report("VALUE 42\n").unwrap(), "42");
    assert_eq!(
        final_report("ERROR \"Operacion invalida\"\n").unwrap_err(),
        "ERROR \"Operacion invalida\""
    );
    assert_eq!(
        final_report("OK").unwrap_err(),
        "ERROR \"unexpected response: OK\""
    );
    assert_eq!(final_report("").unwrap_err(), "ERROR \"empty message\"");
}
