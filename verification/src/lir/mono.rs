//! Monomorphization: which copies of generic items a program needs, and
//! the copies themselves.

use crate::ast::types as ast;
use crate::ast::types::{generic_names, names_of, tys_eq, view_tys, Ident, SpecTy};
use crate::lir::lower::Func;
use crate::lir::lower_expr::{LowerCx, LowerError, Lowering};
use crate::lir::lower_stmt::{func_lowerable, func_lowered};
use crate::typeck::generic::{
    keys_of, ArgKey, ChildModel, GenericArgument, GenericResolver, Node, ParamModel,
    ResolverModel,
};
use crate::ast::symbol::{text_position, Interner};
use crate::lir::instances::{view_instances, Instance, InstanceModel, MonoNames};
use crate::lir::mangle::{mangle, mangled};
use crate::typeck::TyCheckRes;
use vstd::prelude::*;

verus! {

/// The place of the first use under `id` and `k` in `keys[i..]`, or
/// `keys.len()`.
pub open spec fn arg_position(keys: Seq<ArgKey>, id: usize, k: usize, i: nat) -> nat
    decreases keys.len() - i,
{
    if i >= keys.len() {
        keys.len()
    } else if keys[i as int].instance_id == id && keys[i as int].gen_idx == k {
        i
    } else {
        arg_position(keys, id, k, i + 1)
    }
}

/// The type that the use `id` gives to the type parameter at place `k`:
/// that of the first recorded use under `id` and `k`.
pub open spec fn arg_for(keys: Seq<ArgKey>, id: usize, k: usize) -> Option<SpecTy> {
    if arg_position(keys, id, k, 0) < keys.len() {
        Some(keys[arg_position(keys, id, k, 0) as int].ty)
    } else {
        None
    }
}

/// The type arguments of the use `id` of an item with `n` type parameters,
/// in the order of the parameters; `None` where the use gives a parameter
/// no type.
pub open spec fn tuple_for(keys: Seq<ArgKey>, id: usize, n: usize) -> Option<Seq<SpecTy>> {
    if forall|k: usize| k < n ==> (#[trigger] arg_for(keys, id, k)) is Some {
        Some(Seq::new(n as nat, |k: int| arg_for(keys, id, k as usize)->0))
    } else {
        None
    }
}

/// The tuples of type arguments of the uses among the first `upto`
/// recorded uses, each tuple once, in the order in which the uses were
/// recorded.
pub open spec fn tuples(keys: Seq<ArgKey>, n: usize, upto: nat) -> Seq<Seq<SpecTy>>
    decreases upto,
{
    if upto == 0 || upto > keys.len() {
        Seq::empty()
    } else {
        let before = tuples(keys, n, (upto - 1) as nat);
        match tuple_for(keys, keys[upto - 1].instance_id, n) {
            Some(t) => if before.contains(t) {
                before
            } else {
                before.push(t)
            },
            None => before,
        }
    }
}

/// No tuple stands twice among the tuples of the uses.
pub proof fn lemma_tuples_distinct(keys: Seq<ArgKey>, n: usize, upto: nat)
    ensures
        forall|i: int, j: int|
            0 <= i < j < tuples(keys, n, upto).len() ==> tuples(keys, n, upto)[i] != tuples(
                keys,
                n,
                upto,
            )[j],
    decreases upto,
{
    if upto == 0 || upto > keys.len() {
    } else {
        lemma_tuples_distinct(keys, n, (upto - 1) as nat);
        let before = tuples(keys, n, (upto - 1) as nat);
        let now = tuples(keys, n, upto);
        assert forall|i: int, j: int| 0 <= i < j < now.len() implies now[i] != now[j] by {
            if j < before.len() {
            } else {
                assert(before[i] == now[i]);
                assert(before.contains(before[i]));
            }
        }
    }
}

/// The tuple of each recorded use that gives every type parameter a type
/// stands among the tuples of the uses.
pub proof fn lemma_tuples_complete(keys: Seq<ArgKey>, n: usize, upto: nat, j: int)
    requires
        0 <= j < upto <= keys.len(),
        tuple_for(keys, keys[j].instance_id, n) is Some,
    ensures
        tuples(keys, n, upto).contains(tuple_for(keys, keys[j].instance_id, n)->0),
    decreases upto,
{
    let t = tuple_for(keys, keys[j].instance_id, n)->0;
    let before = tuples(keys, n, (upto - 1) as nat);
    let now = tuples(keys, n, upto);
    if j == upto - 1 {
        if before.contains(t) {
        } else {
            assert(now[before.len() as int] == t);
        }
    } else {
        lemma_tuples_complete(keys, n, (upto - 1) as nat, j);
        let k = choose|k: int| 0 <= k < before.len() && before[k] == t;
        assert(now[k] == t);
    }
}

/// The models of a list of tuples.
pub open spec fn view_tuples(ts: Seq<Vec<ast::Ty>>) -> Seq<Seq<SpecTy>> {
    Seq::new(ts.len(), |i: int| view_tys(ts[i]@))
}

fn exec_arg_for(args: &Vec<GenericArgument>, id: usize, k: usize) -> (r: Option<ast::Ty>)
    ensures
        crate::ast::types::view_opt(r) == arg_for(keys_of(args@), id, k),
{
    let ghost keys = keys_of(args@);
    let mut i: usize = 0;
    while i < args.len()
        invariant
            i <= args.len(),
            keys == keys_of(args@),
            arg_position(keys, id, k, 0) == arg_position(keys, id, k, i as nat),
        decreases args.len() - i,
    {
        assert(keys[i as int] == args@[i as int].key());
        if args[i].instance_id == id && args[i].gen_idx == k {
            return Some(args[i].ty.clone());
        }
        i += 1;
    }
    None
}

fn exec_tuple_for(args: &Vec<GenericArgument>, id: usize, n: usize) -> (r: Option<Vec<ast::Ty>>)
    ensures
        (match r {
            Some(v) => Some(view_tys(v@)),
            None => None,
        }) == tuple_for(keys_of(args@), id, n),
{
    let ghost keys = keys_of(args@);
    let mut out: Vec<ast::Ty> = Vec::new();
    let mut k: usize = 0;
    while k < n
        invariant
            k <= n,
            keys == keys_of(args@),
            out@.len() == k,
            forall|j: usize| j < k ==> (#[trigger] arg_for(keys, id, j)) == Some(out@[j as int]@),
        decreases n - k,
    {
        match exec_arg_for(args, id, k) {
            Some(t) => {
                out.push(t);
            },
            None => {
                return None;
            },
        }
        k += 1;
    }
    assert(view_tys(out@) =~= tuple_for(keys, id, n)->0);
    Some(out)
}

/// `true` when `ts` holds the tuple `t`.
pub fn has_tuple(ts: &Vec<Vec<ast::Ty>>, t: &Vec<ast::Ty>) -> (r: bool)
    ensures
        r == view_tuples(ts@).contains(view_tys(t@)),
{
    let mut i: usize = 0;
    while i < ts.len()
        invariant
            i <= ts.len(),
            forall|j: int| 0 <= j < i ==> (#[trigger] view_tuples(ts@)[j]) != view_tys(t@),
        decreases ts.len() - i,
    {
        if tys_eq(&ts[i], t) {
            assert(view_tuples(ts@)[i as int] == view_tys(t@));
            return true;
        }
        i += 1;
    }
    false
}

/// The tuples of type arguments with which an item of `n` type parameters
/// is used, each once.
pub fn instance_tuples(args: &Vec<GenericArgument>, n: usize) -> (r: Vec<Vec<ast::Ty>>)
    ensures
        view_tuples(r@) == tuples(keys_of(args@), n, args@.len()),
{
    let ghost keys = keys_of(args@);
    let mut out: Vec<Vec<ast::Ty>> = Vec::new();
    let mut i: usize = 0;
    assert(view_tuples(out@) =~= tuples(keys, n, 0));
    while i < args.len()
        invariant
            i <= args.len(),
            keys == keys_of(args@),
            view_tuples(out@) == tuples(keys, n, i as nat),
        decreases args.len() - i,
    {
        assert(keys[i as int] == args@[i as int].key());
        match exec_tuple_for(args, args[i].instance_id, n) {
            Some(t) => {
                if !has_tuple(&out, &t) {
                    let ghost before = view_tuples(out@);
                    out.push(t);
                    assert(view_tuples(out@) =~= before.push(view_tys(t@)));
                }
            },
            None => {},
        }
        i += 1;
    }
    out
}

/// An item to be copied: the item and the type arguments of the copy.
#[derive(Debug)]
pub struct Candidate {
    pub base: Ident,
    pub targs: Vec<ast::Ty>,
}

/// The model of a [`Candidate`].
pub struct CandidateModel {
    pub base: Ident,
    pub targs: Seq<SpecTy>,
}

impl View for Candidate {
    type V = CandidateModel;

    open spec fn view(&self) -> CandidateModel {
        CandidateModel { base: self.base, targs: view_tys(self.targs@) }
    }
}

/// The models of a list of candidates.
pub open spec fn view_candidates(cs: Seq<Candidate>) -> Seq<CandidateModel> {
    Seq::new(cs.len(), |i: int| cs[i]@)
}

/// The functions among the first `n` items that depend on a generic item,
/// in the order of their recording.
pub open spec fn child_funcs(children: Seq<ChildModel>, n: nat) -> Seq<Ident>
    decreases n,
{
    if n == 0 || n > children.len() {
        Seq::empty()
    } else {
        match children[n - 1].node {
            Node::Func(g) => child_funcs(children, (n - 1) as nat).push(g),
            _ => child_funcs(children, (n - 1) as nat),
        }
    }
}

/// The children of the generic function `f` that are functions.
pub open spec fn funcs_under(items: Map<Node, ParamModel>, f: Ident) -> Seq<Ident> {
    if items.contains_key(Node::Func(f)) {
        child_funcs(items[Node::Func(f)].children, items[Node::Func(f)].children.len())
    } else {
        Seq::empty()
    }
}

/// `found` with the first `n` of `more` added, each where it is not there
/// yet.
pub open spec fn add_new(found: Seq<Ident>, more: Seq<Ident>, n: nat) -> Seq<Ident>
    decreases n,
{
    if n == 0 || n > more.len() {
        found
    } else {
        let before = add_new(found, more, (n - 1) as nat);
        if before.contains(more[n - 1]) {
            before
        } else {
            before.push(more[n - 1])
        }
    }
}

/// `found` with the function children of its first `n` functions added.
pub open spec fn round(items: Map<Node, ParamModel>, found: Seq<Ident>, n: nat) -> Seq<Ident>
    decreases n,
{
    if n == 0 || n > found.len() {
        found
    } else {
        let before = round(items, found, (n - 1) as nat);
        let more = funcs_under(items, found[n - 1]);
        add_new(before, more, more.len())
    }
}

/// The generic functions that can be reached from `f` over at most `depth`
/// dependencies, `f` first.
pub open spec fn reach(items: Map<Node, ParamModel>, f: Ident, depth: nat) -> Seq<Ident>
    decreases depth,
{
    if depth == 0 {
        seq![f]
    } else {
        let before = reach(items, f, (depth - 1) as nat);
        round(items, before, before.len())
    }
}

fn has_ident(v: &Vec<Ident>, x: Ident) -> (r: bool)
    ensures
        r == v@.contains(x),
{
    let mut i: usize = 0;
    while i < v.len()
        invariant
            i <= v.len(),
            forall|j: int| 0 <= j < i ==> v@[j] != x,
        decreases v.len() - i,
    {
        if v[i] == x {
            return true;
        }
        i += 1;
    }
    false
}

fn exec_funcs_under(res: &GenericResolver, f: Ident) -> (r: Vec<Ident>)
    ensures
        r@ == funcs_under(res@.items, f),
{
    match res.generic_dag().get(&Node::Func(f)) {
        Some(p) => {
            let ghost children = p@.children;
            let mut out: Vec<Ident> = Vec::new();
            let mut i: usize = 0;
            while i < p.children.len()
                invariant
                    i <= p.children.len(),
                    children == p@.children,
                    out@ == child_funcs(children, i as nat),
                decreases p.children.len() - i,
            {
                assert(children[i as int] == p.children@[i as int]@);
                match p.children[i].node {
                    Node::Func(g) => {
                        out.push(g);
                    },
                    _ => {},
                }
                i += 1;
            }
            out
        },
        None => Vec::new(),
    }
}

/// The generic functions that can be reached from `f` over at most `depth`
/// dependencies.
pub fn reachable(res: &GenericResolver, f: Ident, depth: usize) -> (r: Vec<Ident>)
    ensures
        r@ == reach(res@.items, f, depth as nat),
{
    let ghost items = res@.items;
    let mut found: Vec<Ident> = Vec::new();
    found.push(f);
    assert(found@ =~= seq![f]);
    let mut d: usize = 0;
    while d < depth
        invariant
            d <= depth,
            items == res@.items,
            found@ == reach(items, f, d as nat),
        decreases depth - d,
    {
        let ghost start = found@;
        let n = found.len();
        let mut i: usize = 0;
        while i < n
            invariant
                i <= n,
                n == start.len(),
                items == res@.items,
                found@ == round(items, start, i as nat),
                found@.len() >= start.len(),
                found@.subrange(0, start.len() as int) == start,
            decreases n - i,
        {
            assert(found@[i as int] == found@.subrange(0, start.len() as int)[i as int]);
            let more = exec_funcs_under(res, found[i]);
            let ghost before = found@;
            let mut j: usize = 0;
            while j < more.len()
                invariant
                    j <= more.len(),
                    found@ == add_new(before, more@, j as nat),
                    found@.len() >= before.len(),
                    found@.subrange(0, before.len() as int) == before,
                decreases more.len() - j,
            {
                if !has_ident(&found, more[j]) {
                    let ghost prev = found@;
                    found.push(more[j]);
                    assert(found@.subrange(0, before.len() as int) =~= prev.subrange(
                        0,
                        before.len() as int,
                    ));
                }
                j += 1;
            }
            assert(found@.subrange(0, start.len() as int) =~= before.subrange(
                0,
                start.len() as int,
            ));
            i += 1;
        }
        d += 1;
    }
    found
}

/// The first `n` functions of `bases`, each with the type arguments `t`.
pub open spec fn row(bases: Seq<Ident>, t: Seq<SpecTy>, n: nat) -> Seq<CandidateModel>
    decreases n,
{
    if n == 0 || n > bases.len() {
        Seq::empty()
    } else {
        row(bases, t, (n - 1) as nat).push(CandidateModel { base: bases[n - 1], targs: t })
    }
}

/// Each function of `bases` with each of the first `n` tuples of `ts`:
/// tuple by tuple, and function by function for each tuple.
pub open spec fn product(bases: Seq<Ident>, ts: Seq<Seq<SpecTy>>, n: nat) -> Seq<CandidateModel>
    decreases n,
{
    if n == 0 || n > ts.len() {
        Seq::empty()
    } else {
        product(bases, ts, (n - 1) as nat) + row(bases, ts[n - 1], bases.len())
    }
}

/// The copies that a declaration asks for: an implementation of a trait
/// asks for one under the trait's name and its type arguments; a generic
/// function asks for one of itself and of each generic function that can
/// be reached from it, for each tuple of type arguments it is used with.
pub open spec fn decl_candidates(res: ResolverModel, depth: nat, d: ast::Decl) -> Seq<CandidateModel> {
    match d {
        ast::Decl::Impl(imp) => if imp.path@.len() > 0 {
            seq![CandidateModel { base: imp.path@.last(), targs: view_tys(imp.type_arguments@) }]
        } else {
            Seq::empty()
        },
        ast::Decl::Func(f) => if f.generics@.len() > 0 {
            let ts = tuples(
                res.resolved_of(Node::Func(f.ident)),
                f.generics@.len() as usize,
                res.resolved_of(Node::Func(f.ident)).len(),
            );
            product(reach(res.items, f.ident, depth), ts, ts.len())
        } else {
            Seq::empty()
        },
        _ => Seq::empty(),
    }
}

/// The copies that the first `n` declarations ask for.
pub open spec fn all_candidates(res: ResolverModel, depth: nat, decls: Seq<ast::Declaration>, n: nat) -> Seq<CandidateModel>
    decreases n,
{
    if n == 0 || n > decls.len() {
        Seq::empty()
    } else {
        all_candidates(res, depth, decls, (n - 1) as nat) + decl_candidates(
            res,
            depth,
            decls[n - 1].val,
        )
    }
}

/// The first `n` candidates, each once.
pub open spec fn dedup(cs: Seq<CandidateModel>, n: nat) -> Seq<CandidateModel>
    decreases n,
{
    if n == 0 || n > cs.len() {
        Seq::empty()
    } else {
        let before = dedup(cs, (n - 1) as nat);
        if before.contains(cs[n - 1]) {
            before
        } else {
            before.push(cs[n - 1])
        }
    }
}

/// No candidate stands twice among deduplicated candidates.
pub proof fn lemma_dedup_distinct(cs: Seq<CandidateModel>, n: nat)
    ensures
        forall|i: int, j: int|
            0 <= i < j < dedup(cs, n).len() ==> dedup(cs, n)[i] != dedup(cs, n)[j],
    decreases n,
{
    if n == 0 || n > cs.len() {
    } else {
        lemma_dedup_distinct(cs, (n - 1) as nat);
        let before = dedup(cs, (n - 1) as nat);
        let now = dedup(cs, n);
        assert forall|i: int, j: int| 0 <= i < j < now.len() implies now[i] != now[j] by {
            if j < before.len() {
            } else {
                assert(before[i] == now[i]);
                assert(before.contains(before[i]));
            }
        }
    }
}

/// Each of the first `n` candidates stands among the deduplicated
/// candidates.
pub proof fn lemma_dedup_complete(cs: Seq<CandidateModel>, n: nat, j: int)
    requires
        0 <= j < n <= cs.len(),
    ensures
        dedup(cs, n).contains(cs[j]),
    decreases n,
{
    let before = dedup(cs, (n - 1) as nat);
    let now = dedup(cs, n);
    if j == n - 1 {
        if before.contains(cs[j]) {
        } else {
            assert(now[before.len() as int] == cs[j]);
        }
    } else {
        lemma_dedup_complete(cs, (n - 1) as nat, j);
        let k = choose|k: int| 0 <= k < before.len() && before[k] == cs[j];
        assert(now[k] == cs[j]);
    }
}

fn has_candidate(cs: &Vec<Candidate>, base: Ident, targs: &Vec<ast::Ty>) -> (r: bool)
    ensures
        r == view_candidates(cs@).contains(CandidateModel { base, targs: view_tys(targs@) }),
{
    let ghost want = CandidateModel { base, targs: view_tys(targs@) };
    let mut i: usize = 0;
    while i < cs.len()
        invariant
            i <= cs.len(),
            want == (CandidateModel { base, targs: view_tys(targs@) }),
            forall|j: int| 0 <= j < i ==> (#[trigger] view_candidates(cs@)[j]) != want,
        decreases cs.len() - i,
    {
        assert(view_candidates(cs@)[i as int] == cs@[i as int]@);
        if cs[i].base == base && tys_eq(&cs[i].targs, targs) {
            return true;
        }
        i += 1;
    }
    false
}

/// The copies that a list of declarations asks for, in the order of the
/// declarations, before any is taken out for standing twice.
fn raw_candidates<'ast>(tcxt: &TyCheckRes<'ast>, items: &Vec<ast::Declaration>, depth: usize) -> (r:
    Vec<Candidate>)
    ensures
        view_candidates(r@) == all_candidates(
            tcxt.generic_res@,
            depth as nat,
            items@,
            items@.len(),
        ),
{
    let ghost res = tcxt.generic_res@;
    let mut out: Vec<Candidate> = Vec::new();
    let mut i: usize = 0;
    assert(view_candidates(out@) =~= all_candidates(res, depth as nat, items@, 0));
    while i < items.len()
        invariant
            i <= items.len(),
            res == tcxt.generic_res@,
            view_candidates(out@) == all_candidates(res, depth as nat, items@, i as nat),
        decreases items.len() - i,
    {
        let ghost before = view_candidates(out@);
        let ghost want = decl_candidates(res, depth as nat, items@[i as int].val);
        match &items[i].val {
            ast::Decl::Impl(imp) => {
                match imp.path.local_ident() {
                    Some(name) => {
                        out.push(
                            Candidate {
                                base: name,
                                targs: crate::ast::types::clone_tys(&imp.type_arguments),
                            },
                        );
                        assert(view_candidates(out@) =~= before + want);
                    },
                    None => {
                        assert(view_candidates(out@) =~= before + want);
                    },
                }
            },
            ast::Decl::Func(f) => {
                if f.generics.len() > 0 {
                    let none: Vec<GenericArgument> = Vec::new();
                    let args: &Vec<GenericArgument> = match tcxt.generic_res.resolved(
                        &Node::Func(f.ident),
                    ) {
                        Some(a) => a,
                        None => &none,
                    };
                    assert(keys_of(args@) =~= res.resolved_of(Node::Func(f.ident)));
                    let ts = instance_tuples(args, f.generics.len());
                    let bases = reachable(&tcxt.generic_res, f.ident, depth);
                    let ghost sts = view_tuples(ts@);
                    let mut t: usize = 0;
                    assert(view_candidates(out@) =~= before + product(bases@, sts, 0));
                    while t < ts.len()
                        invariant
                            t <= ts.len(),
                            sts == view_tuples(ts@),
                            view_candidates(out@) == before + product(bases@, sts, t as nat),
                        decreases ts.len() - t,
                    {
                        let ghost at_row = view_candidates(out@);
                        let mut g: usize = 0;
                        assert(view_candidates(out@) =~= at_row + row(bases@, sts[t as int], 0));
                        while g < bases.len()
                            invariant
                                g <= bases.len(),
                                t < ts.len(),
                                sts == view_tuples(ts@),
                                view_candidates(out@) == at_row + row(
                                    bases@,
                                    sts[t as int],
                                    g as nat,
                                ),
                            decreases bases.len() - g,
                        {
                            let ghost prev = view_candidates(out@);
                            out.push(
                                Candidate {
                                    base: bases[g],
                                    targs: crate::ast::types::clone_tys(&ts[t]),
                                },
                            );
                            assert(view_candidates(out@) =~= prev.push(
                                CandidateModel { base: bases@[g as int], targs: sts[t as int] },
                            ));
                            assert(view_candidates(out@) =~= at_row + row(
                                bases@,
                                sts[t as int],
                                (g + 1) as nat,
                            ));
                            g += 1;
                        }
                        assert(view_candidates(out@) =~= before + product(
                            bases@,
                            sts,
                            (t + 1) as nat,
                        ));
                        t += 1;
                    }
                } else {
                    assert(view_candidates(out@) =~= before + want);
                }
            },
            _ => {
                assert(view_candidates(out@) =~= before + want);
            },
        }
        i += 1;
    }
    out
}

/// The copies that a list of declarations asks for, each once.
pub fn candidates<'ast>(tcxt: &TyCheckRes<'ast>, items: &Vec<ast::Declaration>, depth: usize) -> (r:
    Vec<Candidate>)
    ensures
        view_candidates(r@) == dedup(
            all_candidates(tcxt.generic_res@, depth as nat, items@, items@.len()),
            all_candidates(tcxt.generic_res@, depth as nat, items@, items@.len()).len(),
        ),
{
    let raw = raw_candidates(tcxt, items, depth);
    let ghost all = view_candidates(raw@);
    let mut out: Vec<Candidate> = Vec::new();
    let mut i: usize = 0;
    assert(view_candidates(out@) =~= dedup(all, 0));
    while i < raw.len()
        invariant
            i <= raw.len(),
            all == view_candidates(raw@),
            view_candidates(out@) == dedup(all, i as nat),
        decreases raw.len() - i,
    {
        assert(all[i as int] == raw@[i as int]@);
        if !has_candidate(&out, raw[i].base, &raw[i].targs) {
            let ghost before = view_candidates(out@);
            out.push(
                Candidate { base: raw[i].base, targs: crate::ast::types::clone_tys(&raw[i].targs) },
            );
            assert(view_candidates(out@) =~= before.push(all[i as int]));
        }
        i += 1;
    }
    out
}

/// The table of copies and the table of names that go together.
pub struct Built {
    pub tbl: Seq<InstanceModel>,
    pub names: Seq<Seq<char>>,
}

/// `true` when a copy in `tbl` has the name `id`.
pub open spec fn name_taken(tbl: Seq<InstanceModel>, id: nat) -> bool {
    exists|k: int| 0 <= k < tbl.len() && (#[trigger] tbl[k]).name.id == id
}

/// The tables after the first `n` candidates are named. The name of a copy
/// is the mangled name of its item and type arguments, with the names as
/// they are in `names0`. A candidate whose name is a name of `names0`, or
/// the name of a copy that is in the table already, gets no copy.
pub open spec fn build(names0: Seq<Seq<char>>, cs: Seq<CandidateModel>, n: nat) -> Built
    decreases n,
{
    if n == 0 || n > cs.len() {
        Built { tbl: Seq::empty(), names: names0 }
    } else {
        let b = build(names0, cs, (n - 1) as nat);
        let text = mangled(cs[n - 1].base, cs[n - 1].targs, names0);
        let id = text_position(b.names, text);
        let names = if id < b.names.len() {
            b.names
        } else {
            b.names.push(text)
        };
        if id < names0.len() || name_taken(b.tbl, id) {
            Built { tbl: b.tbl, names }
        } else {
            Built {
                tbl: b.tbl.push(
                    InstanceModel {
                        base: cs[n - 1].base,
                        targs: cs[n - 1].targs,
                        name: Ident { id: id as usize },
                    },
                ),
                names,
            }
        }
    }
}

/// What holds of the tables that [`build`] makes: the table of names holds
/// what it held and maybe more; the name of each copy is in it, and is the
/// mangled name of the copy's item and type arguments; no two copies have
/// one name; and each copy is the copy of a candidate.
pub open spec fn built_ok(names0: Seq<Seq<char>>, cs: Seq<CandidateModel>, b: Built) -> bool {
    &&& names0.len() <= b.names.len()
    &&& b.names.subrange(0, names0.len() as int) == names0
    &&& forall|k: int|
        0 <= k < b.tbl.len() ==> names0.len() <= (#[trigger] b.tbl[k]).name.id < b.names.len()
            && b.names[b.tbl[k].name.id as int] == mangled(b.tbl[k].base, b.tbl[k].targs, names0)
    &&& forall|i: int, j: int|
        0 <= i < j < b.tbl.len() ==> (#[trigger] b.tbl[i]).name != (#[trigger] b.tbl[j]).name
    &&& forall|k: int|
        0 <= k < b.tbl.len() ==> cs.contains(
            CandidateModel { base: (#[trigger] b.tbl[k]).base, targs: b.tbl[k].targs },
        )
}

/// What [`build`] makes is as [`built_ok`] says.
pub proof fn lemma_build_ok(names0: Seq<Seq<char>>, cs: Seq<CandidateModel>, n: nat)
    requires
        n <= cs.len(),
        names0.len() < usize::MAX,
        build(names0, cs, n).names.len() <= usize::MAX,
    ensures
        built_ok(names0, cs, build(names0, cs, n)),
    decreases n,
{
    if n == 0 {
        assert(names0.subrange(0, names0.len() as int) =~= names0);
    } else {
        let b = build(names0, cs, (n - 1) as nat);
        let now = build(names0, cs, n);
        let text = mangled(cs[n - 1].base, cs[n - 1].targs, names0);
        let id = text_position(b.names, text);
        crate::ast::symbol::lemma_text_position(b.names, text);
        assert(b.names.len() <= now.names.len());
        lemma_build_ok(names0, cs, (n - 1) as nat);
        assert(now.names.subrange(0, names0.len() as int) =~= b.names.subrange(
            0,
            names0.len() as int,
        ));
        assert forall|k: int| 0 <= k < now.tbl.len() implies names0.len() <= (
        #[trigger] now.tbl[k]).name.id < now.names.len() && now.names[now.tbl[k].name.id as int]
            == mangled(
            now.tbl[k].base,
            now.tbl[k].targs,
            names0,
        ) by {
            if k < b.tbl.len() {
                assert(now.tbl[k] == b.tbl[k]);
                assert(now.names[b.tbl[k].name.id as int] == b.names[b.tbl[k].name.id as int]);
            } else {
                assert(now.tbl[k].name.id == id);
            }
        }
        assert forall|i: int, j: int| 0 <= i < j < now.tbl.len() implies (
        #[trigger] now.tbl[i]).name != (#[trigger] now.tbl[j]).name by {
            if j < b.tbl.len() {
                assert(now.tbl[i] == b.tbl[i]);
                assert(now.tbl[j] == b.tbl[j]);
            } else {
                assert(now.tbl[i] == b.tbl[i]);
                assert(!name_taken(b.tbl, id));
                assert(now.tbl[j].name.id == id);
            }
        }
        assert forall|k: int| 0 <= k < now.tbl.len() implies cs.contains(
            CandidateModel { base: (#[trigger] now.tbl[k]).base, targs: now.tbl[k].targs },
        ) by {
            if k < b.tbl.len() {
                assert(now.tbl[k] == b.tbl[k]);
            } else {
                assert(cs[n - 1] == CandidateModel {
                    base: now.tbl[k].base,
                    targs: now.tbl[k].targs,
                });
            }
        }
    }
}

/// The table of names that [`build`] makes holds at least what it held
/// after fewer candidates.
pub proof fn lemma_build_names_grow(names0: Seq<Seq<char>>, cs: Seq<CandidateModel>, n: nat, m: nat)
    requires
        n <= m <= cs.len(),
    ensures
        build(names0, cs, n).names.len() <= build(names0, cs, m).names.len(),
    decreases m - n,
{
    if n < m {
        lemma_build_names_grow(names0, cs, n, (m - 1) as nat);
    }
}

fn has_name(entries: &Vec<Instance>, id: Ident) -> (r: bool)
    ensures
        r == name_taken(view_instances(entries@), id.id as nat),
{
    let mut i: usize = 0;
    while i < entries.len()
        invariant
            i <= entries.len(),
            forall|j: int| 0 <= j < i ==> (#[trigger] view_instances(entries@)[j]).name.id != id.id,
        decreases entries.len() - i,
    {
        assert(view_instances(entries@)[i as int] == entries@[i as int]@);
        if entries[i].name == id {
            return true;
        }
        i += 1;
    }
    false
}

/// Names the copies that `cands` asks for, and puts the names into the
/// table of names.
///
/// The name of a copy is the mangled name of its item and type arguments,
/// with the names as `symbols` holds them at the call. Where two
/// candidates have one name, the first gets the copy.
pub fn build_names(cands: &Vec<Candidate>, symbols: &mut Interner) -> (r: MonoNames)
    requires
        old(symbols).wf(),
        old(symbols)@.len() < usize::MAX,
    ensures
        final(symbols).wf(),
        r@ == build(old(symbols)@, view_candidates(cands@), cands@.len()).tbl,
        final(symbols)@ == build(old(symbols)@, view_candidates(cands@), cands@.len()).names,
        built_ok(
            old(symbols)@,
            view_candidates(cands@),
            build(old(symbols)@, view_candidates(cands@), cands@.len()),
        ),
{
    let ghost names0 = symbols@;
    let ghost cs = view_candidates(cands@);
    let mut texts: Vec<String> = Vec::new();
    let mut i: usize = 0;
    while i < cands.len()
        invariant
            i <= cands.len(),
            *symbols == *old(symbols),
            names0 == symbols@,
            cs == view_candidates(cands@),
            texts@.len() == i,
            forall|j: int| 0 <= j < i ==> (#[trigger] texts@[j])@ == mangled(
                cs[j].base,
                cs[j].targs,
                names0,
            ),
        decreases cands.len() - i,
    {
        assert(cs[i as int] == cands@[i as int]@);
        texts.push(mangle(cands[i].base, &cands[i].targs, symbols));
        i += 1;
    }
    let mut out = MonoNames::new();
    let first_new = symbols.names.len();
    assert(first_new == names0.len());
    let mut k: usize = 0;
    assert(out@ =~= build(names0, cs, 0).tbl);
    while k < cands.len()
        invariant
            k <= cands.len(),
            symbols.wf(),
            names0 == old(symbols)@,
            first_new == names0.len(),
            cs == view_candidates(cands@),
            texts@.len() == cands@.len(),
            forall|j: int| 0 <= j < cands@.len() ==> (#[trigger] texts@[j])@ == mangled(
                cs[j].base,
                cs[j].targs,
                names0,
            ),
            out@ == build(names0, cs, k as nat).tbl,
            symbols@ == build(names0, cs, k as nat).names,
        decreases cands.len() - k,
    {
        assert(cs[k as int] == cands@[k as int]@);
        let ghost before = out@;
        let id = symbols.intern(texts[k].clone());
        if id.id >= first_new && !has_name(&out.entries, id) {
            out.entries.push(
                Instance {
                    base: cands[k].base,
                    targs: crate::ast::types::clone_tys(&cands[k].targs),
                    name: id,
                },
            );
            assert(out@ =~= before.push(
                InstanceModel { base: cs[k as int].base, targs: cs[k as int].targs, name: id },
            ));
        }
        k += 1;
    }
    let held = symbols.names.len();
    proof {
        assert(symbols@.len() == held);
        lemma_build_ok(names0, cs, cands@.len() as nat);
    }
    out
}

/// The places of the copies of the item `f` among the first `n` copies of
/// the table, in order.
pub open spec fn copies_of(tbl: Seq<InstanceModel>, f: Ident, n: nat) -> Seq<int>
    decreases n,
{
    if n == 0 || n > tbl.len() {
        Seq::empty()
    } else if tbl[n - 1].base == f {
        copies_of(tbl, f, (n - 1) as nat).push(n - 1)
    } else {
        copies_of(tbl, f, (n - 1) as nat)
    }
}

/// The places that [`copies_of`] gives are places of copies of `f`, in
/// rising order, and every copy of `f` is among them.
pub proof fn lemma_copies_of(tbl: Seq<InstanceModel>, f: Ident, n: nat)
    requires
        n <= tbl.len(),
    ensures
        forall|j: int|
            0 <= j < copies_of(tbl, f, n).len() ==> 0 <= (#[trigger] copies_of(tbl, f, n)[j]) < n
                && tbl[copies_of(tbl, f, n)[j]].base == f,
        forall|i: int, j: int|
            0 <= i < j < copies_of(tbl, f, n).len() ==> copies_of(tbl, f, n)[i] < copies_of(
                tbl,
                f,
                n,
            )[j],
        forall|k: int| 0 <= k < n && (#[trigger] tbl[k]).base == f ==> copies_of(tbl, f, n).contains(k),
    decreases n,
{
    if n > 0 {
        lemma_copies_of(tbl, f, (n - 1) as nat);
        let before = copies_of(tbl, f, (n - 1) as nat);
        let now = copies_of(tbl, f, n);
        assert forall|k: int| 0 <= k < n && (#[trigger] tbl[k]).base == f implies now.contains(k) by {
            if k == n - 1 {
                assert(now[before.len() as int] == k);
            } else {
                let w = choose|w: int| 0 <= w < before.len() && before[w] == k;
                assert(now[w] == k);
            }
        }
    }
}

/// What lowering reads for the copy `entry` of the function `f`.
pub open spec fn copy_cx<'ast>(cx: LowerCx<'ast>, f: ast::Func, entry: InstanceModel) -> LowerCx<'ast> {
    LowerCx { params: generic_names(f.generics@), args: entry.targs, ..cx }
}

/// `true` when each copy of `f` in the table can be lowered.
pub open spec fn copies_lowerable(cx: LowerCx, f: ast::Func) -> bool {
    forall|j: int|
        0 <= j < copies_of(cx.tbl, f.ident, cx.tbl.len()).len() ==> func_lowerable(
            copy_cx(cx, f, cx.tbl[#[trigger] copies_of(cx.tbl, f.ident, cx.tbl.len())[j]]),
            f,
        )
}

/// `true` when `rs` holds the copies of `f`, lowered: one for each copy of
/// `f` in the table, in the order of the table, each under the copy's name
/// and with the copy's type arguments put in.
pub open spec fn copies_lowered(cx: LowerCx, f: ast::Func, rs: Seq<Func>) -> bool {
    &&& rs.len() == copies_of(cx.tbl, f.ident, cx.tbl.len()).len()
    &&& forall|j: int|
        0 <= j < rs.len() ==> func_lowered(
            copy_cx(cx, f, cx.tbl[copies_of(cx.tbl, f.ident, cx.tbl.len())[j]]),
            f,
            cx.tbl[copies_of(cx.tbl, f.ident, cx.tbl.len())[j]].name,
            #[trigger] rs[j],
        )
}

/// The copy `entry` of the generic function `func`, lowered: the
/// function under the copy's name, with the copy's type arguments in place
/// of the function's type parameters.
pub fn sub_mono_generic<'a, 'ast>(
    tcxt: &'a TyCheckRes<'ast>,
    names: &'a MonoNames,
    func: &ast::Func,
    entry: &'a Instance,
    fuel: usize,
) -> (r: Result<Func, LowerError>)
    ensures
        r is Ok == func_lowerable(copy_cx(base_cx(*tcxt, *names, fuel as nat), *func, entry@), *func),
        r matches Ok(x) ==> func_lowered(
            copy_cx(base_cx(*tcxt, *names, fuel as nat), *func, entry@),
            *func,
            entry.name,
            x,
        ),
{
    let params = names_of(&func.generics);
    let cx = Lowering { tcxt, names, params: &params, args: &entry.targs, fuel };
    assert(cx@ == copy_cx(base_cx(*tcxt, *names, fuel as nat), *func, entry@));
    Func::lower(&cx, func, entry.name)
}

/// What lowering reads outside any copy, with the table of copies `tbl`.
pub open spec fn program_cx<'ast>(tcxt: TyCheckRes<'ast>, tbl: Seq<InstanceModel>, fuel: nat) -> LowerCx<'ast> {
    LowerCx {
        env: tcxt.env(),
        types: tcxt.types(),
        call_targs: crate::typeck::infer::view_found(tcxt.call_ty_args@),
        tbl,
        params: Seq::empty(),
        args: Seq::empty(),
        fuel,
    }
}

/// What lowering reads outside any copy.
pub open spec fn base_cx<'ast>(tcxt: TyCheckRes<'ast>, names: MonoNames, fuel: nat) -> LowerCx<'ast> {
    program_cx(tcxt, names@, fuel)
}

impl<'ast> TyCheckRes<'ast> {
    /// The copies of the generic function `func`, lowered: one for each
    /// copy of the function in the table of copies.
    pub fn mono_func(&self, names: &MonoNames, func: &ast::Func, fuel: usize) -> (r: Result<
        Vec<Func>,
        LowerError,
    >)
        ensures
            r is Ok == copies_lowerable(base_cx(*self, *names, fuel as nat), *func),
            r matches Ok(v) ==> copies_lowered(base_cx(*self, *names, fuel as nat), *func, v@),
    {
        let ghost cx = base_cx(*self, *names, fuel as nat);
        let ghost tbl = names@;
        let mut out: Vec<Func> = Vec::new();
        let mut k: usize = 0;
        while k < names.entries.len()
            invariant
                k <= names.entries.len(),
                cx == base_cx(*self, *names, fuel as nat),
                tbl == names@,
                out@.len() == copies_of(tbl, func.ident, k as nat).len(),
                forall|j: int|
                    0 <= j < copies_of(tbl, func.ident, k as nat).len() ==> func_lowerable(
                        copy_cx(cx, *func, tbl[#[trigger] copies_of(tbl, func.ident, k as nat)[j]]),
                        *func,
                    ),
                forall|j: int|
                    0 <= j < out@.len() ==> func_lowered(
                        copy_cx(cx, *func, tbl[copies_of(tbl, func.ident, k as nat)[j]]),
                        *func,
                        tbl[copies_of(tbl, func.ident, k as nat)[j]].name,
                        #[trigger] out@[j],
                    ),
            decreases names.entries.len() - k,
        {
            assert(tbl[k as int] == names.entries@[k as int]@);
            let ghost before = copies_of(tbl, func.ident, k as nat);
            if names.entries[k].base == func.ident {
                match sub_mono_generic(self, names, func, &names.entries[k], fuel) {
                    Ok(f) => {
                        out.push(f);
                        proof {
                            let now = copies_of(tbl, func.ident, (k + 1) as nat);
                            assert(now == before.push(k as int));
                            assert forall|j: int| 0 <= j < now.len() implies func_lowerable(
                                copy_cx(cx, *func, tbl[#[trigger] now[j]]),
                                *func,
                            ) by {
                                if j < before.len() {
                                    assert(now[j] == before[j]);
                                }
                            }
                            assert forall|j: int| 0 <= j < out@.len() implies func_lowered(
                                copy_cx(cx, *func, tbl[now[j]]),
                                *func,
                                tbl[now[j]].name,
                                #[trigger] out@[j],
                            ) by {
                                if j < before.len() {
                                    assert(now[j] == before[j]);
                                }
                            }
                        }
                    },
                    Err(err) => {
                        proof {
                            lemma_copies_of(tbl, func.ident, tbl.len());
                            let all = copies_of(tbl, func.ident, tbl.len());
                            assert(all.contains(k as int));
                            let w = choose|w: int| 0 <= w < all.len() && all[w] == k as int;
                            assert(!func_lowerable(copy_cx(cx, *func, tbl[all[w]]), *func));
                        }
                        return Err(err);
                    },
                }
            }
            k += 1;
        }
        Ok(out)
    }
}

} // verus!
