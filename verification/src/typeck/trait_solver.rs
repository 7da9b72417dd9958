//! The trait solver: which traits exist, and which implementation answers a
//! call of a trait's method for a tuple of type arguments.

use crate::ast::types::{seq_has_generics, tys_eq, view_tys, Ident, Impl, SpecTy, Trait, Ty};
use crate::typeck::generic::Node;
use std::collections::HashMap;
use vstd::prelude::*;

verus! {

/// The position of the first implementation in `impls` whose type arguments
/// are `args`, or `impls.len()` if there is none.
pub open spec fn find_impl(impls: Seq<&Impl>, args: Seq<SpecTy>) -> nat
    decreases impls.len(),
{
    if impls.len() == 0 {
        0
    } else if view_tys(impls[0].type_arguments@) == args {
        0
    } else {
        1 + find_impl(impls.drop_first(), args)
    }
}

/// The place that [`find_impl`] gives is the first place of an implementation for the type arguments, if there is one.
pub proof fn lemma_find_impl(impls: Seq<&Impl>, args: Seq<SpecTy>)
    ensures
        find_impl(impls, args) <= impls.len(),
        find_impl(impls, args) < impls.len() ==> view_tys(
            impls[find_impl(impls, args) as int].type_arguments@,
        ) == args,
        forall|j: int|
            0 <= j < find_impl(impls, args) ==> view_tys((#[trigger] impls[j]).type_arguments@)
                != args,
    decreases impls.len(),
{
    if impls.len() == 0 {
    } else if view_tys(impls[0].type_arguments@) == args {
    } else {
        let rest = impls.drop_first();
        lemma_find_impl(rest, args);
        assert forall|j: int| 0 <= j < find_impl(impls, args) implies view_tys(
            (#[trigger] impls[j]).type_arguments@,
        ) != args by {
            if j > 0 {
                assert(impls[j] == rest[j - 1]);
            }
        }
        if find_impl(impls, args) < impls.len() {
            assert(impls[find_impl(impls, args) as int] == rest[find_impl(rest, args) as int]);
        }
    }
}

/// The answer that the implementations `impls` give to a call of the method
/// of trait `name` with the type arguments `args`: the implementation for
/// these arguments if there is one; else, where the arguments depend on type
/// parameters, a wait for them; else the fault.
pub open spec fn solve_in<'ast>(impls: Map<usize, Vec<&'ast Impl>>, name: Ident, args: Seq<SpecTy>) -> Solved<'ast> {
    if !impls.contains_key(name.id) {
        Solved::NoImpls
    } else if find_impl(impls[name.id]@, args) < impls[name.id]@.len() {
        Solved::Impl(impls[name.id]@[find_impl(impls[name.id]@, args) as int])
    } else if seq_has_generics(args) {
        Solved::Dependent
    } else {
        Solved::NotImplemented
    }
}

/// A call of a trait's method whose type arguments depend on type
/// parameters: it is answered when those are known.
#[derive(Debug)]
pub struct ToSolve {
    pub trait_: Ident,
    pub type_args: Vec<Ty>,
    /// The generic items that enclose the call, the outermost first.
    pub stack: Vec<Node>,
}

/// How a call of a trait's method is answered.
pub enum Solved<'ast> {
    /// The implementation for the call's type arguments.
    Impl(&'ast Impl),
    /// No implementation yet: the type arguments depend on type parameters.
    Dependent,
    /// The trait has no implementation for these concrete type arguments.
    NotImplemented,
    /// No trait of that name has an implementation at all.
    NoImpls,
}

pub struct TraitSolve<'ast> {
    /// Each trait by its name.
    pub traits: HashMap<usize, &'ast Trait>,
    /// The implementations of each trait, by the trait's name. No two of one
    /// trait have the same type arguments.
    pub impls: HashMap<usize, Vec<&'ast Impl>>,
    /// The calls that wait for their type parameters.
    pub unsolved: Vec<ToSolve>,
}

impl<'ast> TraitSolve<'ast> {
    /// The implementations recorded for the trait `name`.
    pub open spec fn impls_of(self, name: Ident) -> Seq<&'ast Impl> {
        if self.impls@.contains_key(name.id) {
            self.impls@[name.id]@
        } else {
            Seq::empty()
        }
    }

    /// No two implementations of one trait have the same type arguments, and
    /// every trait that has implementations is declared.
    pub open spec fn wf(self) -> bool {
        &&& forall|k: usize, i: int, j: int|
            #![trigger self.impls@[k]@[i], self.impls@[k]@[j]]
            self.impls@.contains_key(k) && 0 <= i < j < self.impls@[k]@.len() ==> view_tys(
                self.impls@[k]@[i].type_arguments@,
            ) != view_tys(self.impls@[k]@[j].type_arguments@)
        &&& forall|k: usize| #[trigger]
            self.impls@.contains_key(k) ==> self.traits@.contains_key(k)
    }

    /// The answer to a call of the method of trait `name` with the type
    /// arguments `args`.
    pub open spec fn spec_solve(self, name: Ident, args: Seq<SpecTy>) -> Solved<'ast> {
        solve_in(self.impls@, name, args)
    }

    /// A solver without traits.
    pub fn new() -> (r: Self)
        ensures
            r.wf(),
            r.traits@ == Map::<usize, &'ast Trait>::empty(),
            r.impls@ == Map::<usize, Vec<&'ast Impl>>::empty(),
            r.unsolved@.len() == 0,
    {
        TraitSolve { traits: HashMap::new(), impls: HashMap::new(), unsolved: Vec::new() }
    }

    /// Declares a trait. Where a trait of that name is declared already,
    /// nothing changes and that trait is the result.
    pub fn add_trait(&mut self, t: &'ast Trait) -> (r: Option<&'ast Trait>)
        requires
            old(self).wf(),
        ensures
            final(self).wf(),
            final(self).impls == old(self).impls,
            final(self).unsolved == old(self).unsolved,
            match r {
                Some(prev) => old(self).traits@.contains_key(t.ident.id) && prev == old(
                    self,
                ).traits@[t.ident.id] && final(self).traits == old(self).traits,
                None => !old(self).traits@.contains_key(t.ident.id) && final(self).traits@ == old(
                    self,
                ).traits@.insert(t.ident.id, t),
            },
    {
        match self.traits.get(&t.ident.id) {
            Some(prev) => Some(*prev),
            None => {
                self.traits.insert(t.ident.id, t);
                None
            },
        }
    }
}

/// Why an implementation was not taken.
#[derive(Clone, Copy, Debug, PartialEq, Eq, Structural)]
pub enum ImplError {
    /// The implementation names no declared trait.
    NoTrait,
    /// The trait has an implementation for these type arguments already.
    Duplicate,
}

fn position_impl<'ast>(impls: &Vec<&'ast Impl>, args: &Vec<Ty>) -> (r: usize)
    ensures
        r == find_impl(impls@, view_tys(args@)),
{
    let mut i: usize = 0;
    assert(impls@.subrange(0, impls.len() as int) =~= impls@);
    while i < impls.len()
        invariant
            i <= impls.len(),
            find_impl(impls@, view_tys(args@)) == i + find_impl(
                impls@.subrange(i as int, impls.len() as int),
                view_tys(args@),
            ),
        decreases impls.len() - i,
    {
        let ghost rest = impls@.subrange(i as int, impls.len() as int);
        assert(rest[0] == impls@[i as int]);
        if tys_eq(&impls[i].type_arguments, args) {
            return i;
        }
        assert(rest.drop_first() =~= impls@.subrange(i + 1, impls.len() as int));
        i += 1;
    }
    i
}

impl<'ast> TraitSolve<'ast> {
    /// Records an implementation under its trait and type arguments.
    ///
    /// Fails with `NoTrait` where the implementation's path names no declared
    /// trait, and with `Duplicate` where the trait has an implementation for
    /// the same type arguments; then nothing changes.
    pub fn add_impl(&mut self, imp: &'ast Impl) -> (r: Result<(), ImplError>)
        requires
            old(self).wf(),
        ensures
            final(self).wf(),
            final(self).traits == old(self).traits,
            final(self).unsolved == old(self).unsolved,
            match r {
                Ok(()) => {
                    &&& imp.path@.len() > 0
                    &&& old(self).traits@.contains_key(imp.path@.last().id)
                    &&& find_impl(
                        old(self).impls_of(imp.path@.last()),
                        view_tys(imp.type_arguments@),
                    ) == old(self).impls_of(imp.path@.last()).len()
                    &&& final(self).impls_of(imp.path@.last()) == old(self).impls_of(
                        imp.path@.last(),
                    ).push(imp)
                    &&& final(self).impls@.contains_key(imp.path@.last().id)
                    &&& final(self).impls@.remove(imp.path@.last().id) == old(self).impls@.remove(
                        imp.path@.last().id,
                    )
                },
                Err(ImplError::NoTrait) => {
                    &&& final(self).impls == old(self).impls
                    &&& imp.path@.len() == 0 || !old(self).traits@.contains_key(
                        imp.path@.last().id,
                    )
                },
                Err(ImplError::Duplicate) => {
                    &&& final(self).impls == old(self).impls
                    &&& imp.path@.len() > 0
                    &&& old(self).traits@.contains_key(imp.path@.last().id)
                    &&& find_impl(
                        old(self).impls_of(imp.path@.last()),
                        view_tys(imp.type_arguments@),
                    ) < old(self).impls_of(imp.path@.last()).len()
                },
            },
    {
        let name = match imp.path.local_ident() {
            Some(n) => n,
            None => {
                return Err(ImplError::NoTrait);
            },
        };
        if !self.traits.contains_key(&name.id) {
            return Err(ImplError::NoTrait);
        }
        let ghost before = self.impls_of(name);
        let dup = match self.impls.get(&name.id) {
            Some(l) => position_impl(l, &imp.type_arguments) < l.len(),
            None => false,
        };
        if dup {
            return Err(ImplError::Duplicate);
        }
        let mut list: Vec<&'ast Impl> = match self.impls.remove(&name.id) {
            Some(l) => l,
            None => Vec::new(),
        };
        assert(list@ =~= before);
        proof {
            lemma_find_impl(list@, view_tys(imp.type_arguments@));
        }
        list.push(imp);
        self.impls.insert(name.id, list);
        assert(self.impls_of(name) =~= before.push(imp));
        assert(self.impls@.remove(name.id) =~= old(self).impls@.remove(name.id));
        assert forall|k: usize, i: int, j: int|
            #![trigger self.impls@[k]@[i], self.impls@[k]@[j]]
            self.impls@.contains_key(k) && 0 <= i < j < self.impls@[k]@.len() implies view_tys(
            self.impls@[k]@[i].type_arguments@,
        ) != view_tys(self.impls@[k]@[j].type_arguments@) by {
            if k == name.id {
                if j == before.len() {
                    assert(self.impls@[k]@[i] == before[i]);
                } else {
                    assert(self.impls@[k]@[i] == before[i]);
                    assert(self.impls@[k]@[j] == before[j]);
                    assert(before[i] == old(self).impls@[k]@[i]);
                    assert(before[j] == old(self).impls@[k]@[j]);
                }
            } else {
                assert(self.impls@[k] == old(self).impls@[k]);
            }
        }
        Ok(())
    }

    /// The answer to a call of the method of trait `name` with the type
    /// arguments `args`.
    pub fn solve(&self, name: Ident, args: &Vec<Ty>) -> (r: Solved<'ast>)
        ensures
            r == self.spec_solve(name, view_tys(args@)),
    {
        match self.impls.get(&name.id) {
            None => Solved::NoImpls,
            Some(list) => {
                let pos = position_impl(list, args);
                if pos < list.len() {
                    Solved::Impl(list[pos])
                } else if crate::ast::types::any_has_generics(args) {
                    Solved::Dependent
                } else {
                    Solved::NotImplemented
                }
            },
        }
    }

    /// Records a call whose type arguments depend on type parameters, with
    /// the generic items that enclose it.
    pub fn to_solve(&mut self, trait_: Ident, type_args: &Vec<Ty>, stack: Vec<Node>)
        ensures
            final(self).traits == old(self).traits,
            final(self).impls == old(self).impls,
            final(self).unsolved@.len() == old(self).unsolved@.len() + 1,
            final(self).unsolved@.last().trait_ == trait_,
            view_tys(final(self).unsolved@.last().type_args@) == view_tys(type_args@),
            final(self).unsolved@.last().stack == stack,
            final(self).unsolved@.drop_last() == old(self).unsolved@,
    {
        self.unsolved.push(
            ToSolve { trait_, type_args: crate::ast::types::clone_tys(type_args), stack },
        );
        assert(self.unsolved@.drop_last() =~= old(self).unsolved@);
    }
}

} // verus!
