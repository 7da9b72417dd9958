//! Which function owns which region of the source, and what each function
//! holds: its locals, whether it returns, and which of its variables were
//! ever read.

use crate::ast::types::{Func, Ident, Range, Ty};
use std::collections::HashMap;
use std::collections::HashSet;
use vstd::prelude::*;

verus! {

/// The region of the source that a function takes up.
#[derive(Clone, Copy, Debug, PartialEq, Eq, Structural)]
pub struct FuncSpan {
    pub span: Range,
    pub name: Ident,
}

/// No two regions share a position.
pub open spec fn spans_disjoint(spans: Seq<FuncSpan>) -> bool {
    forall|i: int, j: int|
        0 <= i < j < spans.len() ==> (#[trigger] spans[i]).span.disjoint((#[trigger] spans[j]).span)
}

/// The regions stand in the order of their starts.
pub open spec fn spans_sorted(spans: Seq<FuncSpan>) -> bool {
    forall|i: int, j: int|
        0 <= i < j < spans.len() ==> (#[trigger] spans[i]).span.start <= (
        #[trigger] spans[j]).span.start
}

/// The position of the first region that meets `rng`, or `spans.len()`.
pub open spec fn first_clash(spans: Seq<FuncSpan>, rng: Range) -> nat
    decreases spans.len(),
{
    if spans.len() == 0 {
        0
    } else if !spans[0].span.disjoint(rng) {
        0
    } else {
        1 + first_clash(spans.drop_first(), rng)
    }
}

/// The position of the first region that covers `span`, or `spans.len()`.
pub open spec fn first_cover(spans: Seq<FuncSpan>, span: Range) -> nat
    decreases spans.len(),
{
    if spans.len() == 0 {
        0
    } else if spans[0].span.covers(span) {
        0
    } else {
        1 + first_cover(spans.drop_first(), span)
    }
}

/// The position of the first region that starts after `start`, or
/// `spans.len()`.
pub open spec fn first_after(spans: Seq<FuncSpan>, start: usize) -> nat
    decreases spans.len(),
{
    if spans.len() == 0 {
        0
    } else if spans[0].span.start > start {
        0
    } else {
        1 + first_after(spans.drop_first(), start)
    }
}

/// The function that owns `span`: the first whose region covers it.
pub open spec fn spec_owner(spans: Seq<FuncSpan>, span: Range) -> Option<Ident> {
    if first_cover(spans, span) < spans.len() {
        Some(spans[first_cover(spans, span) as int].name)
    } else {
        None
    }
}

/// The place that [`first_clash`] gives is the first place of a region that meets `rng`, if there is one.
pub proof fn lemma_first_clash(spans: Seq<FuncSpan>, rng: Range)
    ensures
        first_clash(spans, rng) <= spans.len(),
        first_clash(spans, rng) < spans.len() ==> !spans[first_clash(spans, rng) as int].span.disjoint(
            rng,
        ),
        forall|j: int| 0 <= j < first_clash(spans, rng) ==> (#[trigger] spans[j]).span.disjoint(rng),
    decreases spans.len(),
{
    if spans.len() == 0 {
    } else if !spans[0].span.disjoint(rng) {
    } else {
        let rest = spans.drop_first();
        lemma_first_clash(rest, rng);
        assert forall|j: int| 0 <= j < first_clash(spans, rng) implies (
        #[trigger] spans[j]).span.disjoint(rng) by {
            if j > 0 {
                assert(spans[j] == rest[j - 1]);
            }
        }
        if first_clash(spans, rng) < spans.len() {
            assert(spans[first_clash(spans, rng) as int] == rest[first_clash(rest, rng) as int]);
        }
    }
}

/// Before the place that [`first_after`] gives no region starts behind `start`, and at it one does, if there is one.
pub proof fn lemma_first_after(spans: Seq<FuncSpan>, start: usize)
    ensures
        first_after(spans, start) <= spans.len(),
        first_after(spans, start) < spans.len() ==> spans[first_after(spans, start) as int].span.start
            > start,
        forall|j: int| 0 <= j < first_after(spans, start) ==> (#[trigger] spans[j]).span.start
            <= start,
    decreases spans.len(),
{
    if spans.len() == 0 {
    } else if spans[0].span.start > start {
    } else {
        let rest = spans.drop_first();
        lemma_first_after(rest, start);
        assert forall|j: int| 0 <= j < first_after(spans, start) implies (
        #[trigger] spans[j]).span.start <= start by {
            if j > 0 {
                assert(spans[j] == rest[j - 1]);
            }
        }
        if first_after(spans, start) < spans.len() {
            assert(spans[first_after(spans, start) as int] == rest[first_after(rest, start) as int]);
        }
    }
}

/// A variable of a function, with the place of its declaration and whether
/// it was ever read.
#[derive(Clone, Copy, Debug, PartialEq, Eq, Structural)]
pub struct UnusedVar {
    /// The function that declares the variable; `None` for a global.
    pub func: Option<Ident>,
    pub ident: Ident,
    pub span: Range,
    pub used: bool,
}

pub struct VarInFunction<'ast> {
    /// The region of each function, in the order of their starts. No two
    /// regions share a position.
    pub func_spans: Vec<FuncSpan>,
    /// The variables of each function: its parameters and its locals.
    pub func_refs: HashMap<usize, HashMap<usize, Ty>>,
    /// Each function by its name.
    pub name_func: HashMap<usize, &'ast Func>,
    /// The functions that hold a return statement.
    pub func_return: HashSet<usize>,
    /// The declared variables, each with the mark that says whether it was
    /// read.
    pub unsed_vars: Vec<UnusedVar>,
}

impl<'ast> VarInFunction<'ast> {
    /// The regions are held in the order of their starts, and no two share a position.
    pub open spec fn wf(self) -> bool {
        spans_disjoint(self.func_spans@) && spans_sorted(self.func_spans@)
    }

    /// No function, no variable.
    pub fn new() -> (r: Self)
        ensures
            r.wf(),
            r.func_spans@.len() == 0,
            r.func_refs@ == Map::<usize, HashMap<usize, Ty>>::empty(),
            r.name_func@ == Map::<usize, &'ast Func>::empty(),
            r.func_return@ == Set::<usize>::empty(),
            r.unsed_vars@.len() == 0,
    {
        VarInFunction {
            func_spans: Vec::new(),
            func_refs: HashMap::new(),
            name_func: HashMap::new(),
            func_return: HashSet::new(),
            unsed_vars: Vec::new(),
        }
    }

    /// The function whose region covers `span`.
    pub fn get_fn_by_span(&self, span: Range) -> (r: Option<Ident>)
        ensures
            r == spec_owner(self.func_spans@, span),
    {
        let mut i: usize = 0;
        assert(self.func_spans@.subrange(0, self.func_spans.len() as int) =~= self.func_spans@);
        while i < self.func_spans.len()
            invariant
                i <= self.func_spans.len(),
                first_cover(self.func_spans@, span) == i + first_cover(
                    self.func_spans@.subrange(i as int, self.func_spans.len() as int),
                    span,
                ),
            decreases self.func_spans.len() - i,
        {
            let ghost rest = self.func_spans@.subrange(i as int, self.func_spans.len() as int);
            assert(rest[0] == self.func_spans@[i as int]);
            if self.func_spans[i].span.contains(&span) {
                return Some(self.func_spans[i].name);
            }
            assert(rest.drop_first() =~= self.func_spans@.subrange(
                i + 1,
                self.func_spans.len() as int,
            ));
            i += 1;
        }
        None
    }

    fn find_clash(&self, rng: Range) -> (r: usize)
        ensures
            r == first_clash(self.func_spans@, rng),
    {
        let ghost spans = self.func_spans@;
        let mut i: usize = 0;
        assert(spans.subrange(0, spans.len() as int) =~= spans);
        while i < self.func_spans.len()
            invariant
                i <= self.func_spans.len(),
                self.func_spans@ == spans,
                first_clash(spans, rng) == i + first_clash(
                    spans.subrange(i as int, spans.len() as int),
                    rng,
                ),
            decreases self.func_spans.len() - i,
        {
            let ghost rest = spans.subrange(i as int, spans.len() as int);
            assert(rest[0] == spans[i as int]);
            if !self.func_spans[i].span.is_disjoint(&rng) {
                return i;
            }
            assert(rest.drop_first() =~= spans.subrange(i + 1, spans.len() as int));
            i += 1;
        }
        i
    }

    fn find_after(&self, start: usize) -> (r: usize)
        ensures
            r == first_after(self.func_spans@, start),
    {
        let ghost spans = self.func_spans@;
        let mut i: usize = 0;
        assert(spans.subrange(0, spans.len() as int) =~= spans);
        while i < self.func_spans.len()
            invariant
                i <= self.func_spans.len(),
                self.func_spans@ == spans,
                first_after(spans, start) == i + first_after(
                    spans.subrange(i as int, spans.len() as int),
                    start,
                ),
            decreases self.func_spans.len() - i,
        {
            let ghost rest = spans.subrange(i as int, spans.len() as int);
            assert(rest[0] == spans[i as int]);
            if self.func_spans[i].span.start > start {
                return i;
            }
            assert(rest.drop_first() =~= spans.subrange(i + 1, spans.len() as int));
            i += 1;
        }
        i
    }

    /// Gives the region `rng` to the function `name`.
    ///
    /// Where `rng` meets the region of a function that is there already,
    /// nothing changes and that function is the result. Else the region is
    /// put in by the order of its start and the result is `None`.
    pub fn insert(&mut self, rng: Range, name: Ident) -> (r: Option<Ident>)
        requires
            old(self).wf(),
        ensures
            final(self).wf(),
            final(self).func_refs == old(self).func_refs,
            final(self).name_func == old(self).name_func,
            final(self).func_return == old(self).func_return,
            final(self).unsed_vars == old(self).unsed_vars,
            match r {
                Some(owner) => {
                    &&& first_clash(old(self).func_spans@, rng) < old(self).func_spans@.len()
                    &&& owner == old(self).func_spans@[first_clash(
                        old(self).func_spans@,
                        rng,
                    ) as int].name
                    &&& final(self).func_spans@ == old(self).func_spans@
                },
                None => {
                    &&& first_clash(old(self).func_spans@, rng) == old(self).func_spans@.len()
                    &&& final(self).func_spans@ == old(self).func_spans@.insert(
                        first_after(old(self).func_spans@, rng.start) as int,
                        FuncSpan { span: rng, name },
                    )
                },
            },
    {
        let clash = self.find_clash(rng);
        proof {
            lemma_first_clash(self.func_spans@, rng);
            lemma_first_after(self.func_spans@, rng.start);
        }
        if clash < self.func_spans.len() {
            return Some(self.func_spans[clash].name);
        }
        let pos = self.find_after(rng.start);
        proof {
            lemma_insert_wf(self.func_spans@, pos as int, FuncSpan { span: rng, name });
        }
        self.func_spans.insert(pos, FuncSpan { span: rng, name });
        None
    }
}

/// Putting a region that meets no other at the place that its start asks for
/// keeps the table in order and its regions apart.
pub proof fn lemma_insert_wf(spans: Seq<FuncSpan>, pos: int, entry: FuncSpan)
    requires
        spans_disjoint(spans),
        spans_sorted(spans),
        0 <= pos <= spans.len(),
        forall|j: int| 0 <= j < spans.len() ==> (#[trigger] spans[j]).span.disjoint(entry.span),
        forall|j: int| 0 <= j < pos ==> (#[trigger] spans[j]).span.start <= entry.span.start,
        pos < spans.len() ==> spans[pos].span.start > entry.span.start,
    ensures
        spans_disjoint(spans.insert(pos, entry)),
        spans_sorted(spans.insert(pos, entry)),
{
    let after = spans.insert(pos, entry);
    assert forall|a: int, b: int| 0 <= a < b < after.len() implies (#[trigger] after[a]).span.disjoint(
        (#[trigger] after[b]).span,
    ) by {
        let oa = if a < pos { a } else { a - 1 };
        let ob = if b < pos { b } else { b - 1 };
        if a == pos {
            assert(after[b] == spans[ob]);
            assert(spans[ob].span.disjoint(entry.span));
        } else if b == pos {
            assert(after[a] == spans[oa]);
            assert(spans[oa].span.disjoint(entry.span));
        } else {
            assert(after[a] == spans[oa]);
            assert(after[b] == spans[ob]);
        }
    }
    assert forall|a: int, b: int| 0 <= a < b < after.len() implies (#[trigger] after[a]).span.start <= (
    #[trigger] after[b]).span.start by {
        let oa = if a < pos { a } else { a - 1 };
        let ob = if b < pos { b } else { b - 1 };
        if a == pos {
            assert(after[b] == spans[ob]);
            if ob > pos {
                assert(spans[pos].span.start <= spans[ob].span.start);
            }
        } else if b == pos {
            assert(after[a] == spans[oa]);
        } else {
            assert(after[a] == spans[oa]);
            assert(after[b] == spans[ob]);
        }
    }
}

/// Any two distinct functions of a well-formed table take up regions that
/// share no position.
pub proof fn lemma_func_spans_disjoint(vars: VarInFunction, i: int, j: int)
    requires
        vars.wf(),
        0 <= i < vars.func_spans@.len(),
        0 <= j < vars.func_spans@.len(),
        i != j,
    ensures
        vars.func_spans@[i].span.disjoint(vars.func_spans@[j].span),
{
    if i < j {
        assert(vars.func_spans@[i].span.disjoint(vars.func_spans@[j].span));
    } else {
        assert(vars.func_spans@[j].span.disjoint(vars.func_spans@[i].span));
    }
}

} // verus!
