use vstd::prelude::*;
use crate::source::{Operand, OperandView, operand, operand_of};

verus! {

/// What `cat` reads, in order, and how it writes.
pub struct CatPlan {
    /// The sources to copy, one after another; every `Stdin` among them is the
    /// same standard input, read on from where the previous one stopped.
    pub sources: Vec<Operand>,
    /// Write and flush one byte at a time instead of through a buffer.
    pub flush_each_byte: bool,
}

/// The sources that the file operands `files` denote: standard input alone
/// when there are none, and otherwise one per operand, in order.
pub open spec fn cat_sources(files: Seq<String>) -> Seq<OperandView> {
    if files.len() == 0 {
        seq![OperandView::Stdin]
    } else {
        Seq::new(files.len(), |i: int| operand_of(files[i]@))
    }
}

/// The views of a sequence of operands.
pub open spec fn views(ops: Seq<Operand>) -> Seq<OperandView> {
    Seq::new(ops.len(), |i: int| ops[i]@)
}

/// Plans a run of `cat` over `files`: which sources to copy, in which order,
/// and whether to copy them byte by byte with a flush after each byte.
pub fn cat(unbuffered: bool, files: &Vec<String>) -> (r: CatPlan)
    ensures
        views(r.sources@) == cat_sources(files@),
        r.flush_each_byte == unbuffered,
{
    let mut sources: Vec<Operand> = Vec::new();
    if files.len() == 0 {
        sources.push(Operand::Stdin);
        proof {
            assert(views(sources@) =~= cat_sources(files@));
        }
        return CatPlan { sources, flush_each_byte: unbuffered };
    }
    let mut i: usize = 0;
    while i < files.len()
        invariant
            i <= files@.len(),
            files@.len() > 0,
            sources@.len() == i,
            forall|k: int| 0 <= k < i ==> sources@[k]@ == operand_of(files@[k]@),
        decreases files@.len() - i,
    {
        let op = operand(files[i].as_str());
        sources.push(op);
        i = i + 1;
    }
    proof {
        assert(views(sources@) =~= cat_sources(files@));
    }
    CatPlan { sources, flush_each_byte: unbuffered }
}

/// Buffered and unbuffered runs over the same operands read the same sources
/// in the same order: the mode changes how output is flushed, not what it holds.
pub proof fn cat_modes_read_same_sources(files: Seq<String>, p: Seq<Operand>, q: Seq<Operand>)
    requires
        views(p) == cat_sources(files),
        views(q) == cat_sources(files),
    ensures
        p.len() == q.len(),
        forall|i: int| 0 <= i < p.len() ==> p[i]@ == q[i]@,
{
    assert(views(p).len() == p.len());
    assert(views(q).len() == q.len());
    assert forall|i: int| 0 <= i < p.len() implies p[i]@ == q[i]@ by {
        assert(views(p)[i] == p[i]@);
        assert(views(q)[i] == q[i]@);
    }
}

} // verus!
