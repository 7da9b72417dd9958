//! The table of specialized items: each generic function and each
//! implementation of a trait with the type arguments it is used with, and
//! the name of its copy.

use crate::ast::types::{tys_eq, view_tys, Ident, SpecTy, Ty};
use vstd::prelude::*;

verus! {

/// A specialized item: the item, the type arguments, and the name of the
/// copy.
#[derive(Debug)]
pub struct Instance {
    pub base: Ident,
    pub targs: Vec<Ty>,
    pub name: Ident,
}

/// The model of an [`Instance`].
pub struct InstanceModel {
    pub base: Ident,
    pub targs: Seq<SpecTy>,
    pub name: Ident,
}

impl View for Instance {
    type V = InstanceModel;

    open spec fn view(&self) -> InstanceModel {
        InstanceModel { base: self.base, targs: view_tys(self.targs@), name: self.name }
    }
}

/// The models of a list of instances.
pub open spec fn view_instances(es: Seq<Instance>) -> Seq<InstanceModel> {
    Seq::new(es.len(), |i: int| es[i]@)
}

/// The place of the first instance of `base` with the type arguments
/// `targs`, or `es.len()`.
pub open spec fn find_instance(es: Seq<InstanceModel>, base: Ident, targs: Seq<SpecTy>) -> nat
    decreases es.len(),
{
    if es.len() == 0 {
        0
    } else if es[0].base == base && es[0].targs == targs {
        0
    } else {
        1 + find_instance(es.drop_first(), base, targs)
    }
}

/// The place that [`find_instance`] gives is the first place of a copy of the item for the type arguments, if the table holds one.
pub proof fn lemma_find_instance(es: Seq<InstanceModel>, base: Ident, targs: Seq<SpecTy>)
    ensures
        find_instance(es, base, targs) <= es.len(),
        find_instance(es, base, targs) < es.len() ==> es[find_instance(es, base, targs) as int].base
            == base && es[find_instance(es, base, targs) as int].targs == targs,
        forall|j: int|
            0 <= j < find_instance(es, base, targs) ==> !((#[trigger] es[j]).base == base
                && es[j].targs == targs),
    decreases es.len(),
{
    if es.len() == 0 {
    } else if es[0].base == base && es[0].targs == targs {
    } else {
        let rest = es.drop_first();
        lemma_find_instance(rest, base, targs);
        assert forall|j: int| 0 <= j < find_instance(es, base, targs) implies !((
        #[trigger] es[j]).base == base && es[j].targs == targs) by {
            if j > 0 {
                assert(es[j] == rest[j - 1]);
            }
        }
        if find_instance(es, base, targs) < es.len() {
            assert(es[find_instance(es, base, targs) as int] == rest[find_instance(
                rest,
                base,
                targs,
            ) as int]);
        }
    }
}

/// The name of the copy of `base` for the type arguments `targs`, if the
/// table holds one.
pub open spec fn instance_name(es: Seq<InstanceModel>, base: Ident, targs: Seq<SpecTy>) -> Option<
    Ident,
> {
    if find_instance(es, base, targs) < es.len() {
        Some(es[find_instance(es, base, targs) as int].name)
    } else {
        None
    }
}

/// The table of specialized items.
pub struct MonoNames {
    pub entries: Vec<Instance>,
}

impl View for MonoNames {
    type V = Seq<InstanceModel>;

    open spec fn view(&self) -> Seq<InstanceModel> {
        view_instances(self.entries@)
    }
}

impl MonoNames {
    /// A table without copies.
    pub fn new() -> (r: Self)
        ensures
            r@.len() == 0,
    {
        MonoNames { entries: Vec::new() }
    }

    /// The place of the first instance of `base` with the type arguments
    /// `targs`, or the number of instances.
    pub fn position(&self, base: Ident, targs: &Vec<Ty>) -> (r: usize)
        ensures
            r == find_instance(self@, base, view_tys(targs@)),
            r <= self@.len(),
    {
        let ghost es = self@;
        let mut i: usize = 0;
        assert(es.subrange(0, es.len() as int) =~= es);
        while i < self.entries.len()
            invariant
                i <= self.entries.len(),
                es == self@,
                find_instance(es, base, view_tys(targs@)) == i + find_instance(
                    es.subrange(i as int, es.len() as int),
                    base,
                    view_tys(targs@),
                ),
            decreases self.entries.len() - i,
        {
            let ghost rest = es.subrange(i as int, es.len() as int);
            assert(rest[0] == es[i as int]);
            assert(es[i as int] == self.entries@[i as int]@);
            if self.entries[i].base == base && tys_eq(&self.entries[i].targs, targs) {
                return i;
            }
            assert(rest.drop_first() =~= es.subrange(i + 1, es.len() as int));
            i += 1;
        }
        i
    }

    /// The name of the copy of `base` for the type arguments `targs`, if
    /// the table holds one.
    pub fn lookup(&self, base: Ident, targs: &Vec<Ty>) -> (r: Option<Ident>)
        ensures
            r == instance_name(self@, base, view_tys(targs@)),
    {
        let pos = self.position(base, targs);
        if pos < self.entries.len() {
            assert(self@[pos as int] == self.entries@[pos as int]@);
            Some(self.entries[pos].name)
        } else {
            None
        }
    }
}

} // verus!
