use circuit_lang::GateType;
use circuit_lang::Lexer;
use circuit_lang::Parser;
use circuit_lang::Program;
use circuit_lang::TokenKind;

fn parse(src: &str) -> Result<Program, String> {
    let mut lexer = Lexer::new(String::from(src));
    let tokens: Vec<TokenKind> = lexer.tokenize().expect("scan failed");
    let mut parser = Parser::new(tokens);
    parser.parse_program()
}

fn names(v: &[String]) -> Vec<&str> {
    v.iter().map(|s| s.as_str()).collect()
}

#[test]
fn parse_round_trip_shape() {
    let program = parse("INPUTS a, b\nOUTPUTS c\nAND g1 IN(a, b) OUT(c)\n").unwrap();
    assert_eq!(names(&program.inputs), vec!["a", "b"]);
    assert_eq!(names(&program.outputs), vec!["c"]);
    assert_eq!(program.subcircuits.len(), 0);
    assert_eq!(program.components.len(), 1);
    let c = &program.components[0];
    assert_eq!(c.gate_type, GateType::And);
    assert_eq!(c.identifier, String::from("g1"));
    assert_eq!(names(&c.inputs), vec!["a", "b"]);
    assert_eq!(names(&c.outputs), vec!["c"]);
}

#[test]
fn parse_subcircuit_definition_and_call() {
    let src = "SUBCIRCUIT Half\nINPUTS x\nOUTPUTS y\nNOT n1 IN(x) OUT(y)\nEND\nINPUTS a\nOUTPUTS b\nHalf IN(a) OUT(b)\n";
    let program = parse(src).unwrap();
    let half = program.get_subcircuit("Half").expect("Half not in the table");
    assert_eq!(half.name, String::from("Half"));
    assert_eq!(names(&half.inputs), vec!["x"]);
    assert_eq!(names(&half.outputs), vec!["y"]);
    assert_eq!(half.components.len(), 1);
    assert_eq!(half.components[0].gate_type, GateType::Not);
    assert_eq!(program.subcircuits.len(), 1);
    assert_eq!(program.components.len(), 1);
    let call = &program.components[0];
    assert_eq!(call.gate_type, GateType::Subcircuit(String::from("Half")));
    assert_eq!(call.identifier, String::from(""));
    assert_eq!(names(&call.inputs), vec!["a"]);
    assert_eq!(names(&call.outputs), vec!["b"]);
}

#[test]
fn parse_comment_line_is_invisible() {
    let with_comment = parse("# full line comment\nINPUTS a\nOUTPUTS b\nNOT n IN(a) OUT(b)\n");
    let without = parse("INPUTS a\nOUTPUTS b\nNOT n IN(a) OUT(b)\n");
    assert_eq!(with_comment.unwrap(), without.unwrap());
}

#[test]
fn parse_missing_out_reports_the_out_expectation() {
    let err = parse("INPUTS a\nOUTPUTS b\nAND g1 IN(a) (b)\n").unwrap_err();
    assert!(err.contains("Out"), "message was: {}", err);
    assert_eq!(err, String::from("Expected Out, found ParenOpen"));
}

#[test]
fn parse_twice_gives_equal_programs() {
    let src = "SUBCIRCUIT S\nINPUTS p\nOUTPUTS q\nXOR x1 IN(p) OUT(q)\nEND\nINPUTS a, b\nOUTPUTS c\nS IN(a) OUT(c)\nNAND n IN(a, b) OUT(c)\n";
    let first = parse(src).unwrap();
    let second = parse(src).unwrap();
    assert_eq!(first, second);
}

#[test]
fn parse_empty_port_lists() {
    let program = parse("INPUTS\nOUTPUTS\nAND g IN() OUT()\n").unwrap();
    assert_eq!(program.inputs.len(), 0);
    assert_eq!(program.outputs.len(), 0);
    assert_eq!(program.components[0].inputs.len(), 0);
    assert_eq!(program.components[0].outputs.len(), 0);
}

#[test]
fn parse_ports_without_commas() {
    // Commas in the INPUTS/OUTPUTS lists are separators the grammar does
    // not insist on.
    let program = parse("INPUTS a b c\nOUTPUTS d\n").unwrap();
    assert_eq!(names(&program.inputs), vec!["a", "b", "c"]);
    assert_eq!(program.components.len(), 0);
}

#[test]
fn parse_trailing_comma_in_signal_list() {
    let program = parse("INPUTS a\nOUTPUTS b\nOR g IN(a,) OUT(b)\n").unwrap();
    assert_eq!(names(&program.components[0].inputs), vec!["a"]);
}

#[test]
fn parse_every_gate_keyword() {
    let src = "INPUTS a\nOUTPUTS b\nAND g1 IN(a) OUT(b)\nOR g2 IN(a) OUT(b)\nNOT g3 IN(a) OUT(b)\nNAND g4 IN(a) OUT(b)\nNOR g5 IN(a) OUT(b)\nXOR g6 IN(a) OUT(b)\nXNOR g7 IN(a) OUT(b)\n";
    let program = parse(src).unwrap();
    let got: Vec<&GateType> = program.components.iter().map(|c| &c.gate_type).collect();
    assert_eq!(
        got,
        vec![
            &GateType::And,
            &GateType::Or,
            &GateType::Not,
            &GateType::Nand,
            &GateType::Nor,
            &GateType::Xor,
            &GateType::Xnor
        ]
    );
}

#[test]
fn parse_duplicate_subcircuit_name_last_wins() {
    let src = "SUBCIRCUIT S\nINPUTS x\nOUTPUTS y\nEND\nSUBCIRCUIT S\nINPUTS p, q\nOUTPUTS r\nEND\nINPUTS a\nOUTPUTS b\n";
    let program = parse(src).unwrap();
    let s = program.get_subcircuit("S").unwrap();
    assert_eq!(names(&s.inputs), vec!["p", "q"]);
    assert!(program.get_subcircuit("T").is_none());
}

#[test]
fn parse_leading_blank_lines_before_inputs() {
    let program = parse("\n\n\nINPUTS a\nOUTPUTS b\n").unwrap();
    assert_eq!(names(&program.inputs), vec!["a"]);
}

#[test]
fn parse_blank_line_before_outputs_is_an_error() {
    let err = parse("INPUTS a\n\nOUTPUTS b\n").unwrap_err();
    assert_eq!(err, String::from("Expected Outputs, found Newline"));
}

#[test]
fn parse_missing_gate_identifier_is_an_error() {
    let err = parse("INPUTS a\nOUTPUTS b\nAND IN(a) OUT(b)\n").unwrap_err();
    assert_eq!(err, String::from("Expected identifier for component"));
}

#[test]
fn parse_subcircuit_without_name_is_an_error() {
    let err = parse("SUBCIRCUIT\nINPUTS a\nOUTPUTS b\nEND\n").unwrap_err();
    assert_eq!(err, String::from("Expected subcircuit name"));
}

#[test]
fn parse_stray_token_in_inputs_section() {
    let err = parse("INPUTS a (\nOUTPUTS b\n").unwrap_err();
    assert_eq!(err, String::from("Unexpected token in INPUTS section: ParenOpen"));
}

#[test]
fn parse_unterminated_inputs_section() {
    let err = parse("INPUTS a").unwrap_err();
    assert_eq!(err, String::from("Unexpected token in INPUTS section: EOF"));
}

#[test]
fn parse_stray_token_in_component_list() {
    let err = parse("INPUTS a\nOUTPUTS b\n,\n").unwrap_err();
    assert_eq!(err, String::from("Unexpected token in component list: Comma"));
}

#[test]
fn parse_late_subcircuit_is_not_a_definition() {
    // After the first non-subcircuit construct, SUBCIRCUIT is no longer
    // recognised; it lands in the component list and fails there.
    let err = parse("INPUTS a\nOUTPUTS b\nSUBCIRCUIT S\n").unwrap_err();
    assert_eq!(err, String::from("Unexpected token in component list: Subcircuit"));
}

#[test]
fn parse_empty_source_wants_inputs() {
    let err = parse("").unwrap_err();
    assert_eq!(err, String::from("Expected Inputs, found EOF"));
}

#[test]
fn parse_identifier_rendering_in_message() {
    let err = parse("banana\n").unwrap_err();
    assert_eq!(
        err,
        String::from("Expected Inputs, found Identifier(\"banana\")")
    );
}

#[test]
fn parse_subcircuit_call_keeps_identifier_case() {
    let program = parse("INPUTS a\nOUTPUTS b\nMyAdder IN(a) OUT(b)\n").unwrap();
    assert_eq!(
        program.components[0].gate_type,
        GateType::Subcircuit(String::from("MyAdder"))
    );
}
