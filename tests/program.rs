use c_interpreter::common::create_dummy_program;
use c_interpreter::program::{Program, StatementType};

#[test]
fn state_initial() {
    let (mut p, mut _c) = create_dummy_program();

    assert_eq!(p.defines.len(), 1);
    assert_eq!(p.includes.len(), 2);
    assert_eq!(p.statements.len(), 1);
    p.push("int b = 20;", StatementType::Stmt);
    assert_eq!(p.statements.len(), 2);
}

#[test]
fn state_add() {
    let (mut p, mut _c) = create_dummy_program();
    p.push("#include <stddef.h>", StatementType::Inc);
    p.push("#include <stdint.h>", StatementType::Inc);
    p.push("#include <assert.h>", StatementType::Inc);

    p.push("#define X 10", StatementType::Def);
    p.push("#define XX 10", StatementType::Def);
    p.push("#define XXX 10", StatementType::Def);

    p.push("int x = 10;", StatementType::Stmt);
    p.push("int xx = 10;", StatementType::Stmt);
    p.push("int xxx = 10;", StatementType::Stmt);

    assert_eq!(p.defines.len(), 4);
    assert_eq!(p.includes.len(), 5);
    assert_eq!(p.statements.len(), 4);
}

#[test]
fn new_program_is_seeded() {
    let p = Program::new();
    assert_eq!(p.includes, vec!["#include <stdio.h>\n".to_string()]);
    assert_eq!(
        p.functions,
        vec![r#"void test() { printf("Hello C-Interpreter!\n"); }"#.to_string()]
    );
    assert!(p.defines.is_empty());
    assert!(p.statements.is_empty());
    assert_eq!(p.last_push, None);
    assert_eq!(p.argv, "");
}

#[test]
fn seed_renders_exact_source() {
    let p = Program::default();
    let expected = "#include <stdio.h>\n\n\n\n\n\nvoid test() { printf(\"Hello C-Interpreter!\\n\"); }\n\n\nint main(int argc, char **argv) {\n\n\n    return 0;\n}";
    assert_eq!(p.generate_source_code(false), expected);
}

#[test]
fn verbose_render_labels_flat_indices() {
    let (p, _c) = create_dummy_program();
    let expected = "(0)#include <stdio.h>\n\n(1)#include <stdlib.h>\n\n\n(2)#define KB 1024\n\n\n(3)void test() { printf(\"Hello C-Interpreter!\\n\"); }\n\n\nint main(int argc, char **argv) {\n\t(4)int init_value = 10;\n\n\n    return 0;\n}";
    assert_eq!(p.generate_source_code(true), expected);
}

#[test]
fn labels_beyond_nine_have_two_digits() {
    let mut p = Program::new();
    for i in 0..10 {
        p.push(&format!("int v{} = {};", i, i), StatementType::Stmt);
    }
    let src = p.generate_source_code(true);
    assert!(src.contains("\t(11)int v9 = 9;\n"));
    assert!(src.contains("\t(2)int v0 = 0;\n"));
}

#[test]
fn render_twice_is_identical() {
    let (mut p, _c) = create_dummy_program();
    p.push("int q = 1;", StatementType::Stmt);
    assert_eq!(p.generate_source_code(true), p.generate_source_code(true));
    assert_eq!(p.generate_source_code(false), p.generate_source_code(false));
}

#[test]
fn remove_at_takes_the_labelled_line() {
    let (mut base, _c) = create_dummy_program();
    base.push("#fun int sq(int x) { return x * x; }", StatementType::Func);
    base.push("int y = sq(3);", StatementType::Stmt);
    let flat: Vec<String> = base
        .includes
        .iter()
        .chain(base.defines.iter())
        .chain(base.functions.iter())
        .chain(base.statements.iter())
        .cloned()
        .collect();
    for (i, text) in flat.iter().enumerate() {
        let (mut p, _c) = create_dummy_program();
        p.push("#fun int sq(int x) { return x * x; }", StatementType::Func);
        p.push("int y = sq(3);", StatementType::Stmt);
        let label = format!("({}){}\n", i, text);
        assert!(p.generate_source_code(true).contains(&label));
        let removed = p.remove_at(i);
        assert_eq!(removed.as_ref(), Some(text));
        let mut rest = flat.clone();
        rest.remove(i);
        let now: Vec<String> = p
            .includes
            .iter()
            .chain(p.defines.iter())
            .chain(p.functions.iter())
            .chain(p.statements.iter())
            .cloned()
            .collect();
        assert_eq!(now, rest);
    }
}

#[test]
fn remove_at_out_of_range_changes_nothing() {
    let (mut p, _c) = create_dummy_program();
    assert_eq!(p.remove_at(5), None);
    assert_eq!(p.remove_at(usize::MAX), None);
    assert_eq!(p.includes.len() + p.defines.len() + p.functions.len() + p.statements.len(), 5);
}

#[test]
fn function_tag_is_stripped() {
    let mut p = Program::new();
    p.push("#fun void foo() { }", StatementType::Func);
    assert_eq!(p.functions[1], " void foo() { }");
    p.push("#fu", StatementType::Func);
    assert_eq!(p.functions[2], "");
}

#[test]
fn pop_after_push_restores_each_kind() {
    for kind in [StatementType::Inc, StatementType::Def, StatementType::Func, StatementType::Stmt] {
        let (mut p, _c) = create_dummy_program();
        let before = (p.includes.clone(), p.defines.clone(), p.functions.clone(), p.statements.clone());
        p.push("#funxyz", kind);
        p.pop();
        let after = (p.includes.clone(), p.defines.clone(), p.functions.clone(), p.statements.clone());
        assert_eq!(before, after);
        p.pop();
        let again = (p.includes.clone(), p.defines.clone(), p.functions.clone(), p.statements.clone());
        assert_eq!(after, again);
    }
}

#[test]
fn pop_with_nothing_pushed_changes_nothing() {
    let mut p = Program::new();
    p.pop();
    assert_eq!(p.includes.len(), 1);
    assert_eq!(p.functions.len(), 1);
}

#[test]
fn remove_clears_rollback_record() {
    let (mut p, _c) = create_dummy_program();
    p.push("int z = 3;", StatementType::Stmt);
    assert_eq!(p.remove_at(0), Some("#include <stdio.h>\n".to_string()));
    p.pop();
    assert_eq!(p.statements.len(), 2);
}

#[test]
fn classify_by_four_character_tag() {
    assert_eq!(StatementType::classify("#include <math.h>"), StatementType::Inc);
    assert_eq!(StatementType::classify("#define N 3"), StatementType::Def);
    assert_eq!(StatementType::classify("#fun void f() {}"), StatementType::Func);
    assert_eq!(StatementType::classify("int x = 1;"), StatementType::Stmt);
    assert_eq!(StatementType::classify("x;"), StatementType::Stmt);
    assert_eq!(StatementType::classify(""), StatementType::Stmt);
    assert_eq!(StatementType::from("#inc"), StatementType::Inc);
    assert_eq!(StatementType::default(), StatementType::Stmt);
}

#[test]
fn set_argv_and_run_args() {
    let mut p = Program::new();
    p.set_argv("  FOO \t BAR ".to_string());
    assert_eq!(p.argv, "  FOO \t BAR ");
    assert_eq!(p.run_args(), vec!["FOO".to_string(), "BAR".to_string()]);
}
