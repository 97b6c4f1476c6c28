//! A small program to start from: the seeded program with one more include,
//! one macro and one statement, and the default compiler.
use vstd::prelude::*;

use crate::config::Config;
use crate::program::{Program, ProgramView, StatementType};

verus! {

/// The program that `create_dummy_program` builds.
pub open spec fn dummy_program() -> ProgramView {
    ProgramView::seeded().pushed("#include <stdlib.h>"@, StatementType::Inc).pushed(
        "#define KB 1024"@,
        StatementType::Def,
    ).pushed("int init_value = 10;"@, StatementType::Stmt)
}

/// A seeded program with `#include <stdlib.h>`, `#define KB 1024` and
/// `int init_value = 10;` pushed, and `gcc` as the compiler.
pub fn create_dummy_program() -> (r: (Program, Config))
    ensures
        r.0@ == dummy_program(),
        r.1.cc@ == "gcc"@,
{
    let mut p = Program::new();
    p.push("#include <stdlib.h>", StatementType::Inc);
    p.push("#define KB 1024", StatementType::Def);
    p.push("int init_value = 10;", StatementType::Stmt);
    let c = Config { cc: "gcc".to_owned() };
    (p, c)
}

} // verus!
