//! Rendering a program to C source: the four sequences in fixed order inside
//! a template with a `main` that takes `(argc, argv)`, optionally with each
//! line labelled by its flat index.
use vstd::prelude::*;

use crate::program::{Program, ProgramView};
use crate::text::{decimal, push_decimal, views};

verus! {

/// One rendered line: an optional tab, the label `(index)` when `verbose`,
/// the text, and a newline.
pub open spec fn line(text: Seq<char>, index: nat, verbose: bool, tab: bool) -> Seq<char> {
    (if tab { "\t"@ } else { seq![] }) + (if verbose { "("@ + decimal(index) + ")"@ } else { seq![] })
        + text + "\n"@
}

/// The lines of `items`, the first of which has flat index `first`.
pub open spec fn block(items: Seq<Seq<char>>, first: nat, verbose: bool, tab: bool) -> Seq<char>
    decreases items.len(),
{
    if items.len() == 0 {
        seq![]
    } else {
        block(items.drop_last(), first, verbose, tab) + line(
            items.last(),
            (first + items.len() - 1) as nat,
            verbose,
            tab,
        )
    }
}

impl ProgramView {
    /// The C source of the program.
    pub open spec fn render(self, verbose: bool) -> Seq<char> {
        let ni = self.includes.len();
        let nd = self.defines.len();
        let nf = self.functions.len();
        block(self.includes, 0, verbose, false) + "\n\n"@ + block(self.defines, ni, verbose, false)
            + "\n\n"@ + block(self.functions, ni + nd, verbose, false)
            + "\n\nint main(int argc, char **argv) {\n"@ + block(
            self.statements,
            ni + nd + nf,
            verbose,
            true,
        ) + "\n\n    return 0;\n}"@
    }
}

impl ProgramView {
    /// Line `i` of the labelled source: the line at flat index `i` behind
    /// the label `(i)`, indented where it is a statement.
    pub open spec fn labelled_line(self, i: int) -> Seq<char> {
        line(
            self.flat()[i],
            i as nat,
            true,
            i >= self.includes.len() + self.defines.len() + self.functions.len(),
        )
    }
}

/// Appends the lines of `items` to `out`, the first labelled `first`.
fn append_block(out: &mut String, items: &Vec<String>, first: u128, verbose: bool, tab: bool)
    requires
        first + items@.len() <= u128::MAX,
    ensures
        final(out)@ == old(out)@ + block(views(items@), first as nat, verbose, tab),
{
    let ghost start = out@;
    let mut i: usize = 0;
    assert(views(items@).take(0) =~= Seq::<Seq<char>>::empty());
    while i < items.len()
        invariant
            i <= items@.len(),
            first + items@.len() <= u128::MAX,
            out@ == start + block(views(items@).take(i as int), first as nat, verbose, tab),
        decreases items@.len() - i,
    {
        let ghost done = out@;
        if tab {
            out.append("\t");
        }
        if verbose {
            out.append("(");
            push_decimal(out, first + i as u128);
            out.append(")");
        }
        out.append(items[i].as_str());
        out.append("\n");
        let ghost next = views(items@).take(i + 1);
        assert(next.drop_last() =~= views(items@).take(i as int));
        assert(next.last() == items@[i as int]@);
        assert(out@ =~= done + line(items@[i as int]@, (first + i) as nat, verbose, tab));
        i += 1;
    }
    assert(views(items@).take(items@.len() as int) =~= views(items@));
}

impl Program {
    /// Renders the program as C source; when `verbose`, each line is
    /// labelled `(i)` with its flat index, the index that `remove_at` takes.
    pub fn generate_source_code(&self, verbose: bool) -> (r: String)
        ensures
            r@ == self@.render(verbose),
    {
        let ni = self.includes.len() as u128;
        let nd = self.defines.len() as u128;
        let nf = self.functions.len() as u128;
        let ns = self.statements.len() as u128;
        assert(ni + nd + nf + ns <= u128::MAX);
        let mut out = String::new();
        append_block(&mut out, &self.includes, 0, verbose, false);
        out.append("\n\n");
        append_block(&mut out, &self.defines, ni, verbose, false);
        out.append("\n\n");
        append_block(&mut out, &self.functions, ni + nd, verbose, false);
        out.append("\n\nint main(int argc, char **argv) {\n");
        append_block(&mut out, &self.statements, ni + nd + nf, verbose, true);
        out.append("\n\n    return 0;\n}");
        assert(out@ =~= self@.render(verbose));
        out
    }
}

/// A block is the block of the items before `k`, the line of item `k`, and
/// the block of the items after it.
proof fn lemma_block_split(items: Seq<Seq<char>>, first: nat, verbose: bool, tab: bool, k: int)
    requires
        0 <= k < items.len(),
    ensures
        block(items, first, verbose, tab) == block(items.take(k), first, verbose, tab) + line(
            items[k],
            (first + k) as nat,
            verbose,
            tab,
        ) + block(items.skip(k + 1), (first + k + 1) as nat, verbose, tab),
    decreases items.len(),
{
    let rest = items.skip(k + 1);
    if k == items.len() - 1 {
        assert(items.drop_last() =~= items.take(k));
        assert(rest.len() == 0);
    } else {
        let shorter = items.drop_last();
        lemma_block_split(shorter, first, verbose, tab, k);
        assert(shorter.take(k) =~= items.take(k));
        assert(rest.drop_last() =~= shorter.skip(k + 1));
        assert(rest.last() == items.last());
    }
}

/// Whether `x` holds `l` at position `k`.
pub open spec fn found_at(x: Seq<char>, k: int, l: Seq<char>) -> bool {
    0 <= k && k + l.len() <= x.len() && x.subrange(k, k + l.len()) == l
}

/// What `x` holds at `k`, `x + y` and `y + x` hold too, the second shifted.
proof fn lemma_found_within(x: Seq<char>, y: Seq<char>, k: int, l: Seq<char>)
    requires
        found_at(x, k, l),
    ensures
        found_at(x + y, k, l),
        found_at(y + x, y.len() + k, l),
{
    assert((x + y).subrange(k, k + l.len()) =~= l);
    assert((y + x).subrange(y.len() + k, y.len() + k + l.len()) =~= l);
}

/// A block holds the line of item `k` right after the lines before it.
proof fn lemma_block_holds_line(items: Seq<Seq<char>>, first: nat, verbose: bool, tab: bool, k: int)
    requires
        0 <= k < items.len(),
    ensures
        found_at(
            block(items, first, verbose, tab),
            block(items.take(k), first, verbose, tab).len() as int,
            line(items[k], (first + k) as nat, verbose, tab),
        ),
{
    lemma_block_split(items, first, verbose, tab, k);
    let pre = block(items.take(k), first, verbose, tab);
    let mid = line(items[k], (first + k) as nat, verbose, tab);
    let post = block(items.skip(k + 1), (first + k + 1) as nat, verbose, tab);
    assert((pre + mid + post).subrange(pre.len() as int, (pre.len() + mid.len()) as int) =~= mid);
}

/// Removing flat index `i` removes item `i` of the flat sequence.
proof fn lemma_removed_flat(p: ProgramView, i: int)
    requires
        0 <= i < p.flat().len(),
    ensures
        p.removed(i).flat() == p.flat().remove(i),
{
    assert(p.removed(i).flat() =~= p.flat().remove(i));
}

/// Deleting flat index `i` removes exactly the line that the labelled
/// rendering labels `(i)`: the lines after the deletion are the lines before
/// it without line `i`, and the labelled source holds line `i` behind the
/// label `(i)`.
pub proof fn lemma_delete_matches_label(p: ProgramView, i: int)
    requires
        0 <= i < p.flat().len(),
    ensures
        p.removed(i).flat() == p.flat().remove(i),
        exists|k: int| #[trigger] found_at(p.render(true), k, p.labelled_line(i)),
{
    let ni = p.includes.len() as int;
    let nd = p.defines.len() as int;
    let nf = p.functions.len() as int;
    let l = p.labelled_line(i);
    let bi = block(p.includes, 0, true, false);
    let bd = block(p.defines, ni as nat, true, false);
    let bf = block(p.functions, (ni + nd) as nat, true, false);
    let bs = block(p.statements, (ni + nd + nf) as nat, true, true);
    let t1 = "\n\n"@;
    let t3 = "\n\nint main(int argc, char **argv) {\n"@;
    let t4 = "\n\n    return 0;\n}"@;
    lemma_removed_flat(p, i);
    let x1 = bi + t1;
    let x2 = x1 + bd;
    let x3 = x2 + t1;
    let x4 = x3 + bf;
    let x5 = x4 + t3;
    let x6 = x5 + bs;
    assert(p.render(true) == x6 + t4);
    let mut k: int;
    if i < ni {
        lemma_block_holds_line(p.includes, 0, true, false, i);
        k = block(p.includes.take(i), 0, true, false).len() as int;
        lemma_found_within(bi, t1, k, l);
        lemma_found_within(x1, bd, k, l);
        lemma_found_within(x2, t1, k, l);
        lemma_found_within(x3, bf, k, l);
        lemma_found_within(x4, t3, k, l);
        lemma_found_within(x5, bs, k, l);
        lemma_found_within(x6, t4, k, l);
    } else if i < ni + nd {
        let j = i - ni;
        lemma_block_holds_line(p.defines, ni as nat, true, false, j);
        let kb = block(p.defines.take(j), ni as nat, true, false).len() as int;
        lemma_found_within(bd, x1, kb, l);
        k = x1.len() + kb;
        lemma_found_within(x2, t1, k, l);
        lemma_found_within(x3, bf, k, l);
        lemma_found_within(x4, t3, k, l);
        lemma_found_within(x5, bs, k, l);
        lemma_found_within(x6, t4, k, l);
    } else if i < ni + nd + nf {
        let j = i - ni - nd;
        lemma_block_holds_line(p.functions, (ni + nd) as nat, true, false, j);
        let kb = block(p.functions.take(j), (ni + nd) as nat, true, false).len() as int;
        lemma_found_within(bf, x3, kb, l);
        k = x3.len() + kb;
        lemma_found_within(x4, t3, k, l);
        lemma_found_within(x5, bs, k, l);
        lemma_found_within(x6, t4, k, l);
    } else {
        let j = i - ni - nd - nf;
        lemma_block_holds_line(p.statements, (ni + nd + nf) as nat, true, true, j);
        let kb = block(p.statements.take(j), (ni + nd + nf) as nat, true, true).len() as int;
        lemma_found_within(bs, x5, kb, l);
        k = x5.len() + kb;
        lemma_found_within(x6, t4, k, l);
    }
    assert(found_at(p.render(true), k, l));
}

/// Rendering reads the four sequences of lines and nothing else: programs
/// that hold the same lines render alike, whatever their argument strings
/// and rollback records, so rendering twice with no change between gives the
/// same text.
pub proof fn lemma_render_reads_lines_only(a: ProgramView, b: ProgramView, verbose: bool)
    requires
        a.includes == b.includes,
        a.defines == b.defines,
        a.functions == b.functions,
        a.statements == b.statements,
    ensures
        a.render(verbose) == b.render(verbose),
{
}

} // verus!
