//! The program model: four ordered sequences of lines, one per kind, the
//! memory of the last push for rollback, and the argument string that the
//! compiled program is run with.
use vstd::prelude::*;

use crate::text::{has_prefix, split_words, views, words};

verus! {

/// The kind of a line, which decides the sequence that it is stored in.
#[derive(Clone, Copy, Debug, PartialEq, Eq, Structural)]
pub enum StatementType {
    /// A statement of the body of `main`.
    Stmt,
    /// A macro definition.
    Def,
    /// An include directive.
    Inc,
    /// A function definition, entered behind a `#fun` tag.
    Func,
}

/// The kind of a line, read from its first four characters.
pub open spec fn kind_of(line: Seq<char>) -> StatementType {
    if line.len() >= 4 && line.take(4) == "#inc"@ {
        StatementType::Inc
    } else if line.len() >= 4 && line.take(4) == "#def"@ {
        StatementType::Def
    } else if line.len() >= 4 && line.take(4) == "#fun"@ {
        StatementType::Func
    } else {
        StatementType::Stmt
    }
}

impl StatementType {
    /// Classifies a line by its first four characters: `#inc`, `#def` and
    /// `#fun` tag includes, macro definitions and functions; anything else,
    /// a shorter line too, is a plain statement.
    pub fn classify(line: &str) -> (r: StatementType)
        ensures
            r == kind_of(line@),
    {
        proof {
            reveal_strlit("#inc");
            reveal_strlit("#def");
            reveal_strlit("#fun");
        }
        if has_prefix(line, "#inc") {
            StatementType::Inc
        } else if has_prefix(line, "#def") {
            StatementType::Def
        } else if has_prefix(line, "#fun") {
            StatementType::Func
        } else {
            StatementType::Stmt
        }
    }
}

impl<'a> From<&'a str> for StatementType {
    fn from(line: &'a str) -> StatementType {
        StatementType::classify(line)
    }
}

impl<'a> vstd::std_specs::convert::FromSpecImpl<&'a str> for StatementType {
    open spec fn obeys_from_spec() -> bool {
        true
    }

    open spec fn from_spec(line: &'a str) -> StatementType {
        kind_of(line@)
    }
}

impl Default for StatementType {
    fn default() -> (r: StatementType)
        ensures
            r == StatementType::Stmt,
    {
        StatementType::Stmt
    }
}

/// The program that is built line by line.
pub struct Program {
    pub statements: Vec<String>,
    pub defines: Vec<String>,
    pub includes: Vec<String>,
    pub functions: Vec<String>,
    /// The kind of the last push that a rollback may still undo: set by
    /// `push`, cleared by `pop` and by `remove_at`, so that a rollback never
    /// removes a line other than the one last pushed.
    pub last_push: Option<StatementType>,
    pub argv: String,
}

/// The mathematical value of a `Program`.
pub ghost struct ProgramView {
    pub includes: Seq<Seq<char>>,
    pub defines: Seq<Seq<char>>,
    pub functions: Seq<Seq<char>>,
    pub statements: Seq<Seq<char>>,
    pub last_push: Option<StatementType>,
    pub argv: Seq<char>,
}

impl View for Program {
    type V = ProgramView;

    open spec fn view(&self) -> ProgramView {
        ProgramView {
            includes: views(self.includes@),
            defines: views(self.defines@),
            functions: views(self.functions@),
            statements: views(self.statements@),
            last_push: self.last_push,
            argv: self.argv@,
        }
    }
}

/// The text that a push of `line` as `kind` stores: a function loses its
/// four-character tag.
pub open spec fn stored_text(line: Seq<char>, kind: StatementType) -> Seq<char> {
    if kind == StatementType::Func {
        if line.len() >= 4 {
            line.skip(4)
        } else {
            seq![]
        }
    } else {
        line
    }
}

/// `s` without its last item, if it has one.
pub open spec fn without_last(s: Seq<Seq<char>>) -> Seq<Seq<char>> {
    if s.len() > 0 {
        s.drop_last()
    } else {
        s
    }
}

/// The include that every new program starts with.
pub open spec fn seed_include() -> Seq<char> {
    "#include <stdio.h>\n"@
}

/// The function that every new program starts with.
pub open spec fn seed_function() -> Seq<char> {
    "void test() { printf(\"Hello C-Interpreter!\\n\"); }"@
}

impl ProgramView {
    /// All lines, numbered from zero: includes, defines, functions, statements.
    pub open spec fn flat(self) -> Seq<Seq<char>> {
        self.includes + self.defines + self.functions + self.statements
    }

    /// The sequence that holds lines of `kind`.
    pub open spec fn seq_of(self, kind: StatementType) -> Seq<Seq<char>> {
        match kind {
            StatementType::Inc => self.includes,
            StatementType::Def => self.defines,
            StatementType::Func => self.functions,
            StatementType::Stmt => self.statements,
        }
    }

    /// `self` with the sequence of `kind` replaced by `s`.
    pub open spec fn with_seq(self, kind: StatementType, s: Seq<Seq<char>>) -> ProgramView {
        match kind {
            StatementType::Inc => ProgramView { includes: s, ..self },
            StatementType::Def => ProgramView { defines: s, ..self },
            StatementType::Func => ProgramView { functions: s, ..self },
            StatementType::Stmt => ProgramView { statements: s, ..self },
        }
    }

    /// The program after a push of `line` as `kind`.
    pub open spec fn pushed(self, line: Seq<char>, kind: StatementType) -> ProgramView {
        ProgramView {
            last_push: Some(kind),
            ..self.with_seq(kind, self.seq_of(kind).push(stored_text(line, kind)))
        }
    }

    /// The program after a rollback: the last line of the sequence that the
    /// last push went to is gone, if that push is still recorded and the
    /// sequence is not empty; the record is cleared.
    pub open spec fn popped(self) -> ProgramView {
        match self.last_push {
            None => self,
            Some(kind) => {
                ProgramView {
                    last_push: None,
                    ..self.with_seq(kind, without_last(self.seq_of(kind)))
                }
            },
        }
    }

    /// The program after removing the line at flat index `i`: the sequence
    /// that holds it is found by subtracting the lengths of the sequences
    /// before it. The rollback record is cleared.
    pub open spec fn removed(self, i: int) -> ProgramView {
        let ni = self.includes.len() as int;
        let nd = self.defines.len() as int;
        let nf = self.functions.len() as int;
        let r = if i < ni {
            ProgramView { includes: self.includes.remove(i), ..self }
        } else if i < ni + nd {
            ProgramView { defines: self.defines.remove(i - ni), ..self }
        } else if i < ni + nd + nf {
            ProgramView { functions: self.functions.remove(i - ni - nd), ..self }
        } else {
            ProgramView { statements: self.statements.remove(i - ni - nd - nf), ..self }
        };
        ProgramView { last_push: None, ..r }
    }

    /// A new program: the standard I/O include and one helper function.
    pub open spec fn seeded() -> ProgramView {
        ProgramView {
            includes: seq![seed_include()],
            defines: seq![],
            functions: seq![seed_function()],
            statements: seq![],
            last_push: None,
            argv: seq![],
        }
    }
}

impl Default for Program {
    fn default() -> (r: Program)
        ensures
            r@ == ProgramView::seeded(),
    {
        let mut includes: Vec<String> = Vec::new();
        includes.push("#include <stdio.h>\n".to_owned());
        let mut functions: Vec<String> = Vec::new();
        functions.push("void test() { printf(\"Hello C-Interpreter!\\n\"); }".to_owned());
        let r = Program {
            statements: Vec::new(),
            defines: Vec::new(),
            includes,
            functions,
            last_push: None,
            argv: String::new(),
        };
        assert(r@.includes =~= ProgramView::seeded().includes);
        assert(r@.functions =~= ProgramView::seeded().functions);
        assert(r@.defines =~= Seq::<Seq<char>>::empty());
        assert(r@.statements =~= Seq::<Seq<char>>::empty());
        r
    }
}

impl Program {
    /// A new program, holding the standard I/O include and one helper
    /// function.
    pub fn new() -> (r: Program)
        ensures
            r@ == ProgramView::seeded(),
    {
        Program::default()
    }

    /// Appends `stmt` to the sequence of `stmt_type` and records the push;
    /// a function's four-character tag is dropped first.
    pub fn push(&mut self, stmt: &str, stmt_type: StatementType)
        ensures
            final(self)@ == old(self)@.pushed(stmt@, stmt_type),
    {
        let ghost before = self@;
        match stmt_type {
            StatementType::Def => {
                self.defines.push(stmt.to_owned());
                assert(self@.defines =~= before.defines.push(stmt@));
            },
            StatementType::Inc => {
                self.includes.push(stmt.to_owned());
                assert(self@.includes =~= before.includes.push(stmt@));
            },
            StatementType::Stmt => {
                self.statements.push(stmt.to_owned());
                assert(self@.statements =~= before.statements.push(stmt@));
            },
            StatementType::Func => {
                let n = stmt.unicode_len();
                let body = if n >= 4 {
                    stmt.substring_char(4, n).to_owned()
                } else {
                    String::new()
                };
                assert(body@ =~= stored_text(stmt@, stmt_type));
                self.functions.push(body);
                assert(self@.functions =~= before.functions.push(body@));
            },
        }
        self.last_push = Some(stmt_type);
        assert(self@ =~= before.pushed(stmt@, stmt_type));
    }

    /// Rolls back the last push: removes the last line of the sequence that
    /// it went to, if that push is still recorded, and clears the record.
    /// Nothing changes when no push is recorded or the sequence is empty.
    pub fn pop(&mut self)
        ensures
            final(self)@ == old(self)@.popped(),
    {
        let ghost before = self@;
        match self.last_push {
            None => {},
            Some(StatementType::Def) => {
                self.defines.pop();
                assert(self@.defines =~= without_last(before.defines));
            },
            Some(StatementType::Inc) => {
                self.includes.pop();
                assert(self@.includes =~= without_last(before.includes));
            },
            Some(StatementType::Stmt) => {
                self.statements.pop();
                assert(self@.statements =~= without_last(before.statements));
            },
            Some(StatementType::Func) => {
                self.functions.pop();
                assert(self@.functions =~= without_last(before.functions));
            },
        }
        self.last_push = None;
        assert(self@ =~= before.popped());
    }

    /// Removes the line at flat index `index` and returns it; `None`, with
    /// nothing changed, when `index` is not below the number of lines.
    pub fn remove_at(&mut self, index: usize) -> (r: Option<String>)
        ensures
            index < old(self)@.flat().len() ==> r is Some && r->0@ == old(self)@.flat()[index as int]
                && final(self)@ == old(self)@.removed(index as int),
            index >= old(self)@.flat().len() ==> r is None && final(self)@ == old(self)@,
    {
        let ghost before = self@;
        let ni = self.includes.len();
        if index < ni {
            let t = self.includes.remove(index);
            self.last_push = None;
            assert(self@.includes =~= before.includes.remove(index as int));
            assert(self@ =~= before.removed(index as int));
            return Some(t);
        }
        let j = index - ni;
        let nd = self.defines.len();
        if j < nd {
            let t = self.defines.remove(j);
            self.last_push = None;
            assert(self@.defines =~= before.defines.remove(j as int));
            assert(self@ =~= before.removed(index as int));
            return Some(t);
        }
        let k = j - nd;
        let nf = self.functions.len();
        if k < nf {
            let t = self.functions.remove(k);
            self.last_push = None;
            assert(self@.functions =~= before.functions.remove(k as int));
            assert(self@ =~= before.removed(index as int));
            return Some(t);
        }
        let m = k - nf;
        if m < self.statements.len() {
            let t = self.statements.remove(m);
            self.last_push = None;
            assert(self@.statements =~= before.statements.remove(m as int));
            assert(self@ =~= before.removed(index as int));
            return Some(t);
        }
        None
    }

    /// Replaces the argument string that the compiled program is run with.
    pub fn set_argv(&mut self, argv: String)
        ensures
            final(self)@ == (ProgramView { argv: argv@, ..old(self)@ }),
    {
        self.argv = argv;
    }

    /// The arguments that the compiled program is run with: the words of the
    /// argument string.
    pub fn run_args(&self) -> (r: Vec<String>)
        ensures
            views(r@) == words(self@.argv),
    {
        split_words(self.argv.as_str())
    }
}

/// A rollback right after a push gives back the program as it was before the
/// push, but for the rollback record, which is then clear.
pub proof fn lemma_rollback_undoes_push(p: ProgramView, line: Seq<char>, kind: StatementType)
    ensures
        p.pushed(line, kind).popped() == (ProgramView { last_push: None, ..p }),
{
    let q = p.pushed(line, kind);
    assert(q.seq_of(kind).drop_last() =~= p.seq_of(kind));
}

/// A rollback with no push recorded changes nothing, so a second rollback
/// changes nothing either.
pub proof fn lemma_rollback_idempotent(p: ProgramView)
    ensures
        p.last_push is None ==> p.popped() == p,
        p.popped().popped() == p.popped(),
{
}

} // verus!
