use minilang::interpreter::Interpreter;
use minilang::parser::Parser;
use minilang::scanner::Tokenizer;
use minilang::token::LiteralValue;

fn run_program(src: &str) -> (Interpreter, Result<(), String>) {
    let mut tokenizer = Tokenizer::new(src);
    let tokens = tokenizer.tokenize().unwrap();
    let mut parser = Parser::new(tokens);
    let stmts = parser.parse().unwrap();
    let mut interpreter = Interpreter::new();
    let outcome = interpreter.interpret(stmts);
    (interpreter, outcome)
}

fn eval_expression(src: &str) -> Result<LiteralValue, String> {
    let mut tokenizer = Tokenizer::new(src);
    let tokens = tokenizer.tokenize().unwrap();
    let mut parser = Parser::new(tokens);
    let expr = parser.expression().unwrap();
    let mut interpreter = Interpreter::new();
    interpreter.evaluate(&expr)
}

#[test]
fn grouping_evaluates_transparently() {
    assert_eq!(eval_expression("(2 + 3)").unwrap(), LiteralValue::Number(5));
}

#[test]
fn equality_across_groups() {
    let mut tokenizer = Tokenizer::new("1 == (2 + 3)");
    let tokens = tokenizer.tokenize().unwrap();
    let mut parser = Parser::new(tokens);
    let expr = parser.expression().unwrap();
    assert_eq!(expr.to_display(), "(== 1 (group (+ 2 3)))");
    let mut interpreter = Interpreter::new();
    assert_eq!(interpreter.evaluate(&expr).unwrap(), LiteralValue::Bool(false));
}

#[test]
fn assignment_chains_to_the_right() {
    let (interpreter, outcome) = run_program("let a; let b; a = b = 5;");
    assert!(outcome.is_ok());
    let a = String::from("a");
    let b = String::from("b");
    assert_eq!(interpreter.lookup(&a).unwrap(), LiteralValue::Number(5));
    assert_eq!(interpreter.lookup(&b).unwrap(), LiteralValue::Number(5));
}

#[test]
fn let_defaults_to_null() {
    let (interpreter, outcome) = run_program("let x; print x;");
    assert!(outcome.is_ok());
    assert_eq!(interpreter.output(), &vec![String::from("null")]);
}

#[test]
fn undefined_variable_read_halts_execution() {
    let (interpreter, outcome) = run_program("let a = 1; print y; print a;");
    assert_eq!(outcome.unwrap_err(), "Undefined variable 'y'");
    assert!(interpreter.output().is_empty());
    let a = String::from("a");
    assert_eq!(interpreter.lookup(&a).unwrap(), LiteralValue::Number(1));
}

#[test]
fn undefined_variable_assignment_fails() {
    let (_, outcome) = run_program("y = 1;");
    assert_eq!(outcome.unwrap_err(), "Undefined variable 'y'");
}

#[test]
fn division_by_zero_is_a_runtime_error() {
    let (_, outcome) = run_program("1 / 0;");
    assert_eq!(outcome.unwrap_err(), "Division by zero");
}

#[test]
fn arithmetic_and_printing() {
    let (interpreter, outcome) = run_program("let x = 2 + 3 * 4; print x; print x - 14;");
    assert!(outcome.is_ok());
    assert_eq!(
        interpreter.output(),
        &vec![String::from("14"), String::from("0")]
    );
}

#[test]
fn unary_minus_and_bang() {
    let (interpreter, outcome) = run_program("print -3; print !0; print !null; print !false;");
    assert!(outcome.is_ok());
    assert_eq!(
        interpreter.output(),
        &vec![
            String::from("-3"),
            String::from("false"),
            String::from("true"),
            String::from("true"),
        ]
    );
}

#[test]
fn string_concatenation() {
    let (interpreter, outcome) = run_program("print \"ab\" + \"cd\";");
    assert!(outcome.is_ok());
    assert_eq!(interpreter.output(), &vec![String::from("abcd")]);
}

#[test]
fn comparisons_need_numbers() {
    let (interpreter, outcome) = run_program("print 1 < 2; print 2 <= 2; print 3 > 4; print 3 >= 4;");
    assert!(outcome.is_ok());
    assert_eq!(
        interpreter.output(),
        &vec![
            String::from("true"),
            String::from("true"),
            String::from("false"),
            String::from("false"),
        ]
    );
    let (_, outcome) = run_program("1 < \"a\";");
    assert_eq!(outcome.unwrap_err(), "Operands must be numbers for '<'");
}

#[test]
fn mixed_operands_fail_with_operator_named() {
    let (_, outcome) = run_program("1 + \"a\";");
    assert_eq!(
        outcome.unwrap_err(),
        "Operands must be two numbers or two strings for '+'"
    );
    let (_, outcome) = run_program("\"a\" - 1;");
    assert_eq!(outcome.unwrap_err(), "Operands must be numbers for '-'");
    let (_, outcome) = run_program("-\"a\";");
    assert_eq!(outcome.unwrap_err(), "Operand must be a number");
}

#[test]
fn equality_is_never_a_type_error() {
    let (interpreter, outcome) = run_program("print 1 == \"1\"; print null == null; print 1 != 2;");
    assert!(outcome.is_ok());
    assert_eq!(
        interpreter.output(),
        &vec![
            String::from("false"),
            String::from("true"),
            String::from("true"),
        ]
    );
}

#[test]
fn redefinition_overwrites() {
    let (interpreter, outcome) = run_program("let x = 1; let x = 2; print x;");
    assert!(outcome.is_ok());
    assert_eq!(interpreter.output(), &vec![String::from("2")]);
}

#[test]
fn assignment_is_an_expression() {
    let (interpreter, outcome) = run_program("let x = 1; print x = 7;");
    assert!(outcome.is_ok());
    assert_eq!(interpreter.output(), &vec![String::from("7")]);
}
