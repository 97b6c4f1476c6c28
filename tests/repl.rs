use c_interpreter::command::{command_src, CommandError, Origin, Step};
use c_interpreter::config::Config;
use c_interpreter::pipeline::{compile_verdict, RunReport};
use c_interpreter::program::{Program, StatementType};
use c_interpreter::repl::{conclude_statement, interpret};

fn ok_report(stdout: &str) -> RunReport {
    RunReport {
        elapsed: "1ms".to_string(),
        status: Some(0),
        stderr: String::new(),
        stdout: stdout.to_string(),
    }
}

#[test]
fn statement_is_trimmed_classified_and_pushed() {
    let mut p = Program::new();
    let mut c = Config::default();
    assert!(matches!(interpret("  int a = 10;  \n", &mut p, &mut c), Step::Run(Origin::Statement)));
    assert_eq!(p.statements, vec!["int a = 10;".to_string()]);
    assert_eq!(p.last_push, Some(StatementType::Stmt));
    assert!(matches!(interpret("#fun void g() {}", &mut p, &mut c), Step::Run(Origin::Statement)));
    assert_eq!(p.functions[1], " void g() {}");
    assert!(matches!(interpret("#define K 2", &mut p, &mut c), Step::Run(Origin::Statement)));
    assert_eq!(p.defines, vec!["#define K 2".to_string()]);
}

#[test]
fn command_line_is_trimmed_and_dispatched() {
    let mut p = Program::new();
    let mut c = Config::default();
    assert!(matches!(interpret("  ~run ", &mut p, &mut c), Step::Run(Origin::Command)));
    assert!(matches!(
        interpret("~nope", &mut p, &mut c),
        Step::Reply(Err(CommandError::NotFound))
    ));
    assert_eq!(p.statements.len(), 0);
}

#[test]
fn argv_set_to_foo_bar_gives_foo_as_first_argument() {
    let mut p = Program::new();
    let mut c = Config::default();
    interpret(
        r#"for (int i = 0; i < argc; i++) {printf("argv[%d] = %s\n", i, argv[i]);}"#,
        &mut p,
        &mut c,
    );
    match interpret("~arg FOO BAR", &mut p, &mut c) {
        Step::Reply(Ok(s)) => assert_eq!(s, "new argv = [FOO BAR]"),
        other => panic!("unexpected {:?}", other),
    }
    let args = p.run_args();
    assert_eq!(args[0], "FOO");
    assert_eq!(args, vec!["FOO".to_string(), "BAR".to_string()]);
}

#[test]
fn seed_program_renders_runnable_main() {
    let p = Program::new();
    let src = p.generate_source_code(false);
    assert!(src.starts_with("#include <stdio.h>\n"));
    assert!(src.ends_with("int main(int argc, char **argv) {\n\n\n    return 0;\n}"));
    assert!(p.run_args().is_empty());
}

#[test]
fn deleting_the_marker_line() {
    let mut p = Program::new();
    let mut c = Config::default();
    interpret("int a = 10;", &mut p, &mut c);
    assert_eq!(conclude_statement(&mut p, &Ok(ok_report(""))).unwrap().contains("[status] \t0"), true);
    interpret(r#"printf("marker:%d\n", a)"#, &mut p, &mut c);
    assert!(conclude_statement(&mut p, &Ok(ok_report("marker:10\n"))).is_ok());
    let index = p.includes.len() + p.defines.len() + p.functions.len() + 1;
    assert_eq!(index, 3);
    match interpret(&format!("~del {}", index), &mut p, &mut c) {
        Step::Reply(Ok(s)) => assert_eq!(s, r#"removed [printf("marker:%d\n", a)]"#),
        other => panic!("unexpected {:?}", other),
    }
    assert!(!p.generate_source_code(false).contains("marker"));
    assert!(matches!(interpret("~run", &mut p, &mut c), Step::Run(Origin::Command)));
}

#[test]
fn compile_error_rolls_back_the_statement() {
    let mut p = Program::new();
    let mut c = Config::default();
    assert!(matches!(interpret("int x = 10", &mut p, &mut c), Step::Run(Origin::Statement)));
    assert!(command_src(&p).unwrap().contains("int x = 10"));
    let diag = "temp.c: In function 'main':\ntemp.c:8:15: error: expected ',' or ';' before 'return'\n";
    let outcome: Result<RunReport, String> = match compile_verdict(diag) {
        Ok(()) => Ok(ok_report("")),
        Err(why) => Err(why),
    };
    assert!(outcome.is_err());
    let why = conclude_statement(&mut p, &outcome).unwrap_err();
    assert!(why.starts_with("Compile Error:\n "));
    assert!(!command_src(&p).unwrap().contains("int x = 10"));
    assert_eq!(p.statements.len(), 0);
    assert_eq!(p.includes.len(), 1);
    assert_eq!(p.functions.len(), 1);
}

#[test]
fn warnings_do_not_roll_back() {
    let mut p = Program::new();
    let mut c = Config::default();
    interpret("int unused = 1;", &mut p, &mut c);
    assert_eq!(compile_verdict("temp.c:8:9: warning: unused variable 'unused'\n"), Ok(()));
    assert!(conclude_statement(&mut p, &Ok(ok_report(""))).is_ok());
    assert_eq!(p.statements, vec!["int unused = 1;".to_string()]);
}
