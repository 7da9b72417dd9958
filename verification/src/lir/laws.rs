//! What holds of the copies in a lowered program: each copy whose item is
//! declared is emitted once, under its own name, and each use of a generic
//! function asks for a copy.

use crate::ast::types as ast;
use crate::ast::types::{view_tys, Ident, SpecTy};
use crate::lir::instances::{find_instance, lemma_find_instance, InstanceModel};
use crate::lir::items::{as_funcs, decl_len, decl_lowered, impl_name, items_lowered, total_len};
use crate::lir::lower::Item;
use crate::lir::lower_expr::LowerCx;
use crate::lir::mangle::mangled;
use crate::lir::mono::{
    add_new, all_candidates, build, copies_of, decl_candidates, dedup, lemma_build_ok,
    lemma_copies_of, lemma_dedup_complete, lemma_tuples_complete, name_taken, product, reach,
    round, row, tuple_for, tuples, Built, CandidateModel,
};
use crate::ast::symbol::{lemma_text_position, text_position};
use crate::typeck::generic::{Node, ParamModel, ResolverModel};
use vstd::prelude::*;

verus! {

/// `true` when the item at the place `p` of `out` is a function with the
/// name `name`.
pub open spec fn named_at(out: Seq<Item>, name: Ident, p: int) -> bool {
    0 <= p < out.len() && (out[p] matches Item::Func(r) && r.ident == name)
}

/// `true` when the declaration `d` declares the item of the copy `e`: a
/// generic function of that name, or an implementation of the trait of
/// that name for the copy's type arguments.
pub open spec fn provides(d: ast::Decl, e: InstanceModel) -> bool {
    match d {
        ast::Decl::Func(f) => f.generics@.len() > 0 && f.ident == e.base,
        ast::Decl::Impl(imp) => imp.path@.len() > 0 && imp.path@.last() == e.base && view_tys(
            imp.type_arguments@,
        ) == e.targs,
        _ => false,
    }
}

/// `true` when the names of the copies in `tbl` are none of the first
/// `first_new` names, no two copies have one name, and no two copies are
/// copies of one item for the same type arguments.
pub open spec fn copies_ok(first_new: nat, tbl: Seq<InstanceModel>) -> bool {
    &&& forall|k: int| 0 <= k < tbl.len() ==> (#[trigger] tbl[k]).name.id >= first_new
    &&& forall|i: int, j: int|
        0 <= i < j < tbl.len() ==> (#[trigger] tbl[i]).name != (#[trigger] tbl[j]).name
    &&& forall|i: int, j: int|
        0 <= i < j < tbl.len() ==> !((#[trigger] tbl[i]).base == (#[trigger] tbl[j]).base
            && tbl[i].targs == tbl[j].targs)
}

/// `true` when the functions of `decls` that are not generic have names
/// among the first `first_new` names.
pub open spec fn plain_names_old(first_new: nat, decls: Seq<ast::Declaration>) -> bool {
    forall|i: int|
        0 <= i < decls.len() ==> ((#[trigger] decls[i]).val matches ast::Decl::Func(f)
            ==> f.generics@.len() > 0 || f.ident.id < first_new)
}

/// `true` when at most one declaration of `decls` declares the item of the
/// copy `e`.
pub open spec fn provided_once(decls: Seq<ast::Declaration>, e: InstanceModel) -> bool {
    forall|i: int, j: int|
        0 <= i < decls.len() && 0 <= j < decls.len() && provides((#[trigger] decls[i]).val, e)
            && provides((#[trigger] decls[j]).val, e) ==> i == j
}

/// The declaration among the first `n` whose items hold the place `p` of
/// the lowered program.
pub open spec fn owner(cx: LowerCx, decls: Seq<ast::Declaration>, n: nat, p: int) -> nat
    decreases n,
{
    if n == 0 {
        0
    } else if p >= total_len(cx, decls, (n - 1) as nat) {
        (n - 1) as nat
    } else {
        owner(cx, decls, (n - 1) as nat, p)
    }
}

/// The items of the declaration that [`owner`] gives hold the place `p`.
pub proof fn lemma_owner(cx: LowerCx, decls: Seq<ast::Declaration>, n: nat, p: int)
    requires
        n <= decls.len(),
        0 <= p < total_len(cx, decls, n),
    ensures
        owner(cx, decls, n, p) < n,
        total_len(cx, decls, owner(cx, decls, n, p)) <= p < total_len(
            cx,
            decls,
            owner(cx, decls, n, p) + 1,
        ),
    decreases n,
{
    if n > 0 && p < total_len(cx, decls, (n - 1) as nat) {
        lemma_owner(cx, decls, (n - 1) as nat, p);
    }
}

/// In a lowered program the items of the declaration `i` stand behind
/// those of the declarations before it, and are what the declaration
/// lowers to.
pub proof fn lemma_part(cx: LowerCx, decls: Seq<ast::Declaration>, n: nat, out: Seq<Item>, i: nat)
    requires
        i < n <= decls.len(),
        items_lowered(cx, decls, n, out),
    ensures
        out.len() == total_len(cx, decls, n),
        total_len(cx, decls, i + 1) == total_len(cx, decls, i) + decl_len(cx, decls[i as int].val),
        total_len(cx, decls, i + 1) <= out.len(),
        decl_lowered(
            cx,
            decls[i as int].val,
            out.subrange(total_len(cx, decls, i) as int, total_len(cx, decls, i + 1) as int),
        ),
    decreases n,
{
    let k = total_len(cx, decls, (n - 1) as nat);
    if i == n - 1 {
    } else {
        let head = out.subrange(0, k as int);
        lemma_part(cx, decls, (n - 1) as nat, head, i);
        assert(head.subrange(
            total_len(cx, decls, i) as int,
            total_len(cx, decls, i + 1) as int,
        ) =~= out.subrange(total_len(cx, decls, i) as int, total_len(cx, decls, i + 1) as int));
    }
}

/// Where a function of a lowered program has the name of the copy `k`,
/// the declaration that it comes from declares the copy's item; and the
/// function stands, among the items of that declaration, where the copy
/// stands among the copies of the item.
pub proof fn lemma_named_origin(
    cx: LowerCx,
    decls: Seq<ast::Declaration>,
    out: Seq<Item>,
    first_new: nat,
    k: int,
    p: int,
)
    requires
        items_lowered(cx, decls, decls.len(), out),
        copies_ok(first_new, cx.tbl),
        plain_names_old(first_new, decls),
        0 <= k < cx.tbl.len(),
        named_at(out, cx.tbl[k].name, p),
    ensures
        owner(cx, decls, decls.len(), p) < decls.len(),
        provides(decls[owner(cx, decls, decls.len(), p) as int].val, cx.tbl[k]),
        total_len(cx, decls, owner(cx, decls, decls.len(), p)) <= p,
        decls[owner(cx, decls, decls.len(), p) as int].val is Impl ==> p == total_len(
            cx,
            decls,
            owner(cx, decls, decls.len(), p),
        ),
        decls[owner(cx, decls, decls.len(), p) as int].val matches ast::Decl::Func(f) ==> p
            - total_len(cx, decls, owner(cx, decls, decls.len(), p)) < copies_of(
            cx.tbl,
            f.ident,
            cx.tbl.len(),
        ).len() && copies_of(cx.tbl, f.ident, cx.tbl.len())[p - total_len(
            cx,
            decls,
            owner(cx, decls, decls.len(), p),
        )] == k,
{
    let n = decls.len();
    let tbl = cx.tbl;
    if n == 0 {
        assert(out.len() == 0);
    } else {
        lemma_part(cx, decls, n, out, (n - 1) as nat);
        lemma_owner(cx, decls, n, p);
        let i = owner(cx, decls, n, p);
        lemma_part(cx, decls, n, out, i);
        let lo = total_len(cx, decls, i) as int;
        let hi = total_len(cx, decls, i + 1) as int;
        let part = out.subrange(lo, hi);
        let pj = p - lo;
        assert(part[pj] == out[p]);
        assert(decls[i as int] == decls[i as int]);
        match decls[i as int].val {
            ast::Decl::Func(f) => {
                if f.generics@.len() == 0 {
                    assert(part[0]->Func_0.ident == f.ident);
                    assert(tbl[k].name.id >= first_new);
                    assert(false);
                } else {
                    let c = copies_of(tbl, f.ident, tbl.len());
                    lemma_copies_of(tbl, f.ident, tbl.len());
                    let rs = as_funcs(part)->0;
                    assert(rs[pj] == part[pj]->Func_0);
                    let m = c[pj];
                    assert(rs[pj].ident == tbl[m].name);
                    assert(tbl[m].name == tbl[k].name);
                    if m < k {
                        assert(tbl[m].name != tbl[k].name);
                    }
                    if k < m {
                        assert(tbl[k].name != tbl[m].name);
                    }
                }
            },
            ast::Decl::Impl(imp) => {
                assert(impl_name(cx, imp) is Some);
                let m = find_instance(tbl, imp.path@.last(), view_tys(imp.type_arguments@)) as int;
                lemma_find_instance(tbl, imp.path@.last(), view_tys(imp.type_arguments@));
                assert(part[0]->Func_0.ident == tbl[m].name);
                if m < k {
                    assert(tbl[m].name != tbl[k].name);
                }
                if k < m {
                    assert(tbl[k].name != tbl[m].name);
                }
            },
            ast::Decl::Const(_) => {
                assert(part[0] is Const);
            },
            _ => {},
        }
    }
}

/// Each copy whose item is declared stands in the lowered program exactly
/// once: where one declaration, and no other, declares the item of the
/// copy `k` of the table, exactly one function of the lowered program has
/// the copy's name.
pub proof fn lemma_copy_emitted_once(
    cx: LowerCx,
    decls: Seq<ast::Declaration>,
    out: Seq<Item>,
    first_new: nat,
    k: int,
    i: int,
)
    requires
        items_lowered(cx, decls, decls.len(), out),
        copies_ok(first_new, cx.tbl),
        plain_names_old(first_new, decls),
        0 <= k < cx.tbl.len(),
        0 <= i < decls.len(),
        provides(decls[i].val, cx.tbl[k]),
        provided_once(decls, cx.tbl[k]),
    ensures
        exists|p: int| named_at(out, cx.tbl[k].name, p),
        forall|p: int, q: int|
            named_at(out, cx.tbl[k].name, p) && named_at(out, cx.tbl[k].name, q) ==> p == q,
{
    let n = decls.len();
    let tbl = cx.tbl;
    lemma_part(cx, decls, n, out, i as nat);
    let lo = total_len(cx, decls, i as nat) as int;
    let hi = total_len(cx, decls, (i + 1) as nat) as int;
    let part = out.subrange(lo, hi);
    match decls[i].val {
        ast::Decl::Func(f) => {
            let c = copies_of(tbl, f.ident, tbl.len());
            lemma_copies_of(tbl, f.ident, tbl.len());
            assert(c.contains(k));
            let j = choose|j: int| 0 <= j < c.len() && c[j] == k;
            let rs = as_funcs(part)->0;
            assert(part[j] is Func);
            assert(rs[j] == part[j]->Func_0);
            assert(part[j] == out[lo + j]);
            assert(rs[j].ident == tbl[c[j]].name);
            assert(named_at(out, tbl[k].name, lo + j));
        },
        ast::Decl::Impl(imp) => {
            let m = find_instance(tbl, imp.path@.last(), view_tys(imp.type_arguments@)) as int;
            lemma_find_instance(tbl, imp.path@.last(), view_tys(imp.type_arguments@));
            if m > k {
                assert(!(tbl[k].base == imp.path@.last() && tbl[k].targs == view_tys(
                    imp.type_arguments@,
                )));
            }
            if m < k {
                assert(!(tbl[m].base == tbl[k].base && tbl[m].targs == tbl[k].targs));
            }
            assert(m == k);
            assert(part[0] == out[lo]);
            assert(named_at(out, tbl[k].name, lo));
        },
        _ => {},
    }
    assert forall|p: int, q: int|
        named_at(out, tbl[k].name, p) && named_at(out, tbl[k].name, q) implies p == q by {
        lemma_named_origin(cx, decls, out, first_new, k, p);
        lemma_named_origin(cx, decls, out, first_new, k, q);
        let ip = owner(cx, decls, n, p) as int;
        let iq = owner(cx, decls, n, q) as int;
        assert(provides(decls[ip].val, tbl[k]));
        assert(provides(decls[iq].val, tbl[k]));
        assert(ip == iq);
        match decls[ip].val {
            ast::Decl::Func(f) => {
                let c = copies_of(tbl, f.ident, tbl.len());
                lemma_copies_of(tbl, f.ident, tbl.len());
                let a = p - total_len(cx, decls, ip as nat);
                let b = q - total_len(cx, decls, ip as nat);
                if a < b {
                    assert(c[a] < c[b]);
                }
                if b < a {
                    assert(c[b] < c[a]);
                }
            },
            _ => {},
        }
    }
}


/// The first `n` candidates hold the item and the type arguments of each
/// copy that [`build`] makes of them.
pub proof fn lemma_build_origin(names0: Seq<Seq<char>>, cs: Seq<CandidateModel>, n: nat)
    requires
        n <= cs.len(),
    ensures
        forall|k: int|
            0 <= k < build(names0, cs, n).tbl.len() ==> exists|c: int|
                0 <= c < n && (#[trigger] cs[c]).base == (#[trigger] build(names0, cs, n).tbl[k]).base
                    && cs[c].targs == build(names0, cs, n).tbl[k].targs,
    decreases n,
{
    if n > 0 {
        lemma_build_origin(names0, cs, (n - 1) as nat);
        let b = build(names0, cs, (n - 1) as nat);
        let now = build(names0, cs, n);
        assert forall|k: int| 0 <= k < now.tbl.len() implies exists|c: int|
            0 <= c < n && (#[trigger] cs[c]).base == (#[trigger] now.tbl[k]).base && cs[c].targs
                == now.tbl[k].targs by {
            if k < b.tbl.len() {
                assert(now.tbl[k] == b.tbl[k]);
                let c = choose|c: int|
                    0 <= c < n - 1 && (#[trigger] cs[c]).base == b.tbl[k].base && cs[c].targs
                        == b.tbl[k].targs;
                assert(cs[c].base == now.tbl[k].base);
            } else {
                assert(cs[n - 1].base == now.tbl[k].base);
            }
        }
    }
}

/// Where no candidate stands twice, the copies that [`build`] makes have
/// new names, each its own, and no item has two copies for the same type
/// arguments.
pub proof fn lemma_build_copies_ok(names0: Seq<Seq<char>>, cs: Seq<CandidateModel>, n: nat)
    requires
        n <= cs.len(),
        names0.len() < usize::MAX,
        build(names0, cs, n).names.len() <= usize::MAX,
        forall|a: int, b: int|
            0 <= a < b < cs.len() ==> !((#[trigger] cs[a]).base == (#[trigger] cs[b]).base
                && cs[a].targs == cs[b].targs),
    ensures
        copies_ok(names0.len(), build(names0, cs, n).tbl),
    decreases n,
{
    lemma_build_ok(names0, cs, n);
    if n > 0 {
        crate::lir::mono::lemma_build_names_grow(names0, cs, (n - 1) as nat, n);
        lemma_build_copies_ok(names0, cs, (n - 1) as nat);
        lemma_build_origin(names0, cs, (n - 1) as nat);
        let b = build(names0, cs, (n - 1) as nat);
        let now = build(names0, cs, n);
        assert forall|i: int, j: int| 0 <= i < j < now.tbl.len() implies !((
        #[trigger] now.tbl[i]).base == (#[trigger] now.tbl[j]).base && now.tbl[i].targs
            == now.tbl[j].targs) by {
            assert(now.tbl[i] == b.tbl[i]);
            if j < b.tbl.len() {
                assert(now.tbl[j] == b.tbl[j]);
            } else {
                let c = choose|c: int|
                    0 <= c < n - 1 && (#[trigger] cs[c]).base == b.tbl[i].base && cs[c].targs
                        == b.tbl[i].targs;
                assert(!(cs[c].base == cs[n - 1].base && cs[c].targs == cs[n - 1].targs));
            }
        }
    }
}

/// `true` when `names` holds the text `text`.
pub open spec fn holds_text(names: Seq<Seq<char>>, text: Seq<char>) -> bool {
    exists|a: int| 0 <= a < names.len() && #[trigger] names[a] == text
}

/// `true` when a copy in the tables `b` has the name with the text `text`,
/// and that text is the mangled name of the copy's item and type arguments.
pub open spec fn copy_named(names0: Seq<Seq<char>>, b: Built, text: Seq<char>) -> bool {
    exists|k: int|
        0 <= k < b.tbl.len() && (#[trigger] b.tbl[k]).name.id < b.names.len()
            && b.names[b.tbl[k].name.id as int] == text && mangled(
            b.tbl[k].base,
            b.tbl[k].targs,
            names0,
        ) == text
}

/// Each candidate gets a copy under its mangled name, unless that name was
/// a name before the copies were named: the table then holds a copy whose
/// name is the candidate's mangled name.
pub proof fn lemma_candidate_named(names0: Seq<Seq<char>>, cs: Seq<CandidateModel>, n: nat, j: int)
    requires
        0 <= j < n <= cs.len(),
        names0.len() < usize::MAX,
        build(names0, cs, n).names.len() <= usize::MAX,
    ensures
        holds_text(names0, mangled(cs[j].base, cs[j].targs, names0)) || copy_named(
            names0,
            build(names0, cs, n),
            mangled(cs[j].base, cs[j].targs, names0),
        ),
    decreases n,
{
    let text = mangled(cs[j].base, cs[j].targs, names0);
    let b = build(names0, cs, (n - 1) as nat);
    let now = build(names0, cs, n);
    crate::lir::mono::lemma_build_names_grow(names0, cs, (n - 1) as nat, n);
    lemma_build_ok(names0, cs, (n - 1) as nat);
    lemma_build_ok(names0, cs, n);
    if j == n - 1 {
        let id = text_position(b.names, text);
        lemma_text_position(b.names, text);
        assert(now.names[id as int] == text);
        if id < names0.len() {
            assert(b.names.subrange(0, names0.len() as int)[id as int] == b.names[id as int]);
            assert(names0[id as int] == text);
        } else if name_taken(b.tbl, id) {
            let k = choose|k: int| 0 <= k < b.tbl.len() && (#[trigger] b.tbl[k]).name.id == id;
            assert(now.tbl[k] == b.tbl[k]);
            assert(now.names[now.tbl[k].name.id as int] == text);
        } else {
            let k = b.tbl.len() as int;
            assert(now.tbl[k].name.id == id);
            assert(now.names[now.tbl[k].name.id as int] == text);
        }
    } else {
        lemma_candidate_named(names0, cs, (n - 1) as nat, j);
        if !holds_text(names0, text) {
            let k = choose|k: int|
                0 <= k < b.tbl.len() && (#[trigger] b.tbl[k]).name.id < b.names.len()
                    && b.names[b.tbl[k].name.id as int] == text && mangled(
                    b.tbl[k].base,
                    b.tbl[k].targs,
                    names0,
                ) == text;
            assert(now.tbl[k] == b.tbl[k]);
            assert(now.names[b.tbl[k].name.id as int] == b.names[b.tbl[k].name.id as int]);
        }
    }
}

/// What was found stays in front when more is added.
pub proof fn lemma_add_new_first(found: Seq<Ident>, more: Seq<Ident>, n: nat)
    requires
        found.len() > 0,
    ensures
        add_new(found, more, n).len() > 0,
        add_new(found, more, n)[0] == found[0],
    decreases n,
{
    if n == 0 || n > more.len() {
    } else {
        lemma_add_new_first(found, more, (n - 1) as nat);
    }
}

/// The first function stays in front through a round.
pub proof fn lemma_round_first(items: Map<Node, ParamModel>, found: Seq<Ident>, n: nat)
    requires
        found.len() > 0,
    ensures
        round(items, found, n).len() > 0,
        round(items, found, n)[0] == found[0],
    decreases n,
{
    if n == 0 || n > found.len() {
    } else {
        lemma_round_first(items, found, (n - 1) as nat);
        let before = round(items, found, (n - 1) as nat);
        let more = crate::lir::mono::funcs_under(items, found[n - 1]);
        lemma_add_new_first(before, more, more.len());
    }
}

/// A function is the first of those that can be reached from it.
pub proof fn lemma_reach_first(items: Map<Node, ParamModel>, f: Ident, depth: nat)
    ensures
        reach(items, f, depth).len() > 0,
        reach(items, f, depth)[0] == f,
    decreases depth,
{
    if depth > 0 {
        lemma_reach_first(items, f, (depth - 1) as nat);
        let before = reach(items, f, (depth - 1) as nat);
        lemma_round_first(items, before, before.len());
    }
}

/// A row holds each of its functions with the row's type arguments.
pub proof fn lemma_row_has(bases: Seq<Ident>, t: Seq<SpecTy>, n: nat, b: int)
    requires
        0 <= b < n <= bases.len(),
    ensures
        row(bases, t, n).contains(CandidateModel { base: bases[b], targs: t }),
    decreases n,
{
    let now = row(bases, t, n);
    let before = row(bases, t, (n - 1) as nat);
    if b == n - 1 {
        assert(now[before.len() as int] == CandidateModel { base: bases[b], targs: t });
    } else {
        lemma_row_has(bases, t, (n - 1) as nat, b);
        let k = choose|k: int|
            0 <= k < before.len() && before[k] == (CandidateModel { base: bases[b], targs: t });
        assert(now[k] == before[k]);
    }
}

/// The rows of a product hold each function with each tuple.
pub proof fn lemma_product_has(bases: Seq<Ident>, ts: Seq<Seq<SpecTy>>, n: nat, a: int, b: int)
    requires
        0 <= a < n <= ts.len(),
        0 <= b < bases.len(),
    ensures
        product(bases, ts, n).contains(CandidateModel { base: bases[b], targs: ts[a] }),
    decreases n,
{
    let want = CandidateModel { base: bases[b], targs: ts[a] };
    let before = product(bases, ts, (n - 1) as nat);
    let last = row(bases, ts[n - 1], bases.len());
    let now = product(bases, ts, n);
    if a == n - 1 {
        lemma_row_has(bases, ts[a], bases.len(), b);
        let k = choose|k: int| 0 <= k < last.len() && last[k] == want;
        assert(now[before.len() + k] == want);
    } else {
        lemma_product_has(bases, ts, (n - 1) as nat, a, b);
        let k = choose|k: int| 0 <= k < before.len() && before[k] == want;
        assert(now[k] == want);
    }
}

/// What a declaration asks for is among what the declarations ask for.
pub proof fn lemma_all_candidates_has(
    res: ResolverModel,
    depth: nat,
    decls: Seq<ast::Declaration>,
    n: nat,
    i: int,
    c: CandidateModel,
)
    requires
        0 <= i < n <= decls.len(),
        decl_candidates(res, depth, decls[i].val).contains(c),
    ensures
        all_candidates(res, depth, decls, n).contains(c),
    decreases n,
{
    let before = all_candidates(res, depth, decls, (n - 1) as nat);
    let last = decl_candidates(res, depth, decls[n - 1].val);
    let now = all_candidates(res, depth, decls, n);
    if i == n - 1 {
        let k = choose|k: int| 0 <= k < last.len() && last[k] == c;
        assert(now[before.len() + k] == c);
    } else {
        lemma_all_candidates_has(res, depth, decls, (n - 1) as nat, i, c);
        let k = choose|k: int| 0 <= k < before.len() && before[k] == c;
        assert(now[k] == c);
    }
}

/// Each use of a declared generic function asks for a copy: where the
/// recorded use `j` of the generic function `f` gives each type parameter
/// of `f` a type, the candidates hold `f` with those type arguments.
pub proof fn lemma_use_is_candidate(
    res: ResolverModel,
    depth: nat,
    decls: Seq<ast::Declaration>,
    i: int,
    f: ast::Func,
    j: int,
)
    requires
        0 <= i < decls.len(),
        decls[i].val == ast::Decl::Func(f),
        f.generics@.len() > 0,
        0 <= j < res.resolved_of(Node::Func(f.ident)).len(),
        tuple_for(
            res.resolved_of(Node::Func(f.ident)),
            res.resolved_of(Node::Func(f.ident))[j].instance_id,
            f.generics@.len() as usize,
        ) is Some,
    ensures
        dedup(
            all_candidates(res, depth, decls, decls.len()),
            all_candidates(res, depth, decls, decls.len()).len(),
        ).contains(
            CandidateModel {
                base: f.ident,
                targs: tuple_for(
                    res.resolved_of(Node::Func(f.ident)),
                    res.resolved_of(Node::Func(f.ident))[j].instance_id,
                    f.generics@.len() as usize,
                )->0,
            },
        ),
{
    let keys = res.resolved_of(Node::Func(f.ident));
    let n = f.generics@.len() as usize;
    let t = tuple_for(keys, keys[j].instance_id, n)->0;
    let ts = tuples(keys, n, keys.len());
    lemma_tuples_complete(keys, n, keys.len(), j);
    let a = choose|a: int| 0 <= a < ts.len() && ts[a] == t;
    let bases = reach(res.items, f.ident, depth);
    lemma_reach_first(res.items, f.ident, depth);
    lemma_product_has(bases, ts, ts.len(), a, 0);
    let want = CandidateModel { base: f.ident, targs: t };
    assert(decl_candidates(res, depth, decls[i].val).contains(want));
    lemma_all_candidates_has(res, depth, decls, decls.len(), i, want);
    let all = all_candidates(res, depth, decls, decls.len());
    let k = choose|k: int| 0 <= k < all.len() && all[k] == want;
    lemma_dedup_complete(all, all.len(), k);
}

/// The copies that are named for a program have new names, each its own,
/// and no item has two copies for the same type arguments: the candidates
/// of a program stand once each, and [`build`] keeps that.
pub proof fn lemma_program_copies_ok(
    res: ResolverModel,
    depth: nat,
    decls: Seq<ast::Declaration>,
    names0: Seq<Seq<char>>,
)
    requires
        names0.len() < usize::MAX,
        build(
            names0,
            dedup(
                all_candidates(res, depth, decls, decls.len()),
                all_candidates(res, depth, decls, decls.len()).len(),
            ),
            dedup(
                all_candidates(res, depth, decls, decls.len()),
                all_candidates(res, depth, decls, decls.len()).len(),
            ).len(),
        ).names.len() <= usize::MAX,
    ensures
        copies_ok(
            names0.len(),
            build(
                names0,
                dedup(
                    all_candidates(res, depth, decls, decls.len()),
                    all_candidates(res, depth, decls, decls.len()).len(),
                ),
                dedup(
                    all_candidates(res, depth, decls, decls.len()),
                    all_candidates(res, depth, decls, decls.len()).len(),
                ).len(),
            ).tbl,
        ),
{
    let all = all_candidates(res, depth, decls, decls.len());
    let cs = dedup(all, all.len());
    crate::lir::mono::lemma_dedup_distinct(all, all.len());
    assert forall|a: int, b: int| 0 <= a < b < cs.len() implies !((#[trigger] cs[a]).base == (
    #[trigger] cs[b]).base && cs[a].targs == cs[b].targs) by {
        assert(cs[a] != cs[b]);
    }
    lemma_build_copies_ok(names0, cs, cs.len());
}


/// The copies of a lowered program, in one statement. A program is lowered
/// with the table of copies that [`build`] makes of its candidates, the
/// names `names0` being the names known before. Then for each copy `k` of
/// the table whose item one declaration, and no other, declares: exactly
/// one function of the lowered program has the copy's name; the name is
/// none of the names known before; and its text is the mangled name of the
/// copy's item and type arguments.
pub proof fn lemma_each_copy_once(
    cx: LowerCx,
    res: ResolverModel,
    depth: nat,
    decls: Seq<ast::Declaration>,
    names0: Seq<Seq<char>>,
    out: Seq<Item>,
    k: int,
    i: int,
)
    requires
        names0.len() < usize::MAX,
        build(
            names0,
            dedup(
                all_candidates(res, depth, decls, decls.len()),
                all_candidates(res, depth, decls, decls.len()).len(),
            ),
            dedup(
                all_candidates(res, depth, decls, decls.len()),
                all_candidates(res, depth, decls, decls.len()).len(),
            ).len(),
        ).names.len() <= usize::MAX,
        cx.tbl == build(
            names0,
            dedup(
                all_candidates(res, depth, decls, decls.len()),
                all_candidates(res, depth, decls, decls.len()).len(),
            ),
            dedup(
                all_candidates(res, depth, decls, decls.len()),
                all_candidates(res, depth, decls, decls.len()).len(),
            ).len(),
        ).tbl,
        items_lowered(cx, decls, decls.len(), out),
        plain_names_old(names0.len(), decls),
        0 <= k < cx.tbl.len(),
        0 <= i < decls.len(),
        provides(decls[i].val, cx.tbl[k]),
        provided_once(decls, cx.tbl[k]),
    ensures
        exists|p: int| named_at(out, cx.tbl[k].name, p),
        forall|p: int, q: int|
            named_at(out, cx.tbl[k].name, p) && named_at(out, cx.tbl[k].name, q) ==> p == q,
        cx.tbl[k].name.id >= names0.len(),
        mangled(cx.tbl[k].base, cx.tbl[k].targs, names0) == build(
            names0,
            dedup(
                all_candidates(res, depth, decls, decls.len()),
                all_candidates(res, depth, decls, decls.len()).len(),
            ),
            dedup(
                all_candidates(res, depth, decls, decls.len()),
                all_candidates(res, depth, decls, decls.len()).len(),
            ).len(),
        ).names[cx.tbl[k].name.id as int],
{
    let all = all_candidates(res, depth, decls, decls.len());
    let cs = dedup(all, all.len());
    lemma_program_copies_ok(res, depth, decls, names0);
    lemma_build_ok(names0, cs, cs.len());
    lemma_copy_emitted_once(cx, decls, out, names0.len(), k, i);
}

/// Each use of a declared generic function has a copy: where the recorded
/// use `j` of the generic function `f` gives each type parameter a type,
/// the table that [`build`] makes of the program's candidates holds a copy
/// whose name is the mangled name of `f` and those type arguments, unless
/// that name was a name of the program before.
pub proof fn lemma_use_has_copy(
    res: ResolverModel,
    depth: nat,
    decls: Seq<ast::Declaration>,
    names0: Seq<Seq<char>>,
    i: int,
    f: ast::Func,
    j: int,
)
    requires
        names0.len() < usize::MAX,
        build(
            names0,
            dedup(
                all_candidates(res, depth, decls, decls.len()),
                all_candidates(res, depth, decls, decls.len()).len(),
            ),
            dedup(
                all_candidates(res, depth, decls, decls.len()),
                all_candidates(res, depth, decls, decls.len()).len(),
            ).len(),
        ).names.len() <= usize::MAX,
        0 <= i < decls.len(),
        decls[i].val == ast::Decl::Func(f),
        f.generics@.len() > 0,
        0 <= j < res.resolved_of(Node::Func(f.ident)).len(),
        tuple_for(
            res.resolved_of(Node::Func(f.ident)),
            res.resolved_of(Node::Func(f.ident))[j].instance_id,
            f.generics@.len() as usize,
        ) is Some,
    ensures
        ({
            let text = mangled(
                f.ident,
                tuple_for(
                    res.resolved_of(Node::Func(f.ident)),
                    res.resolved_of(Node::Func(f.ident))[j].instance_id,
                    f.generics@.len() as usize,
                )->0,
                names0,
            );
            holds_text(names0, text) || copy_named(
                names0,
                build(
                    names0,
                    dedup(
                        all_candidates(res, depth, decls, decls.len()),
                        all_candidates(res, depth, decls, decls.len()).len(),
                    ),
                    dedup(
                        all_candidates(res, depth, decls, decls.len()),
                        all_candidates(res, depth, decls, decls.len()).len(),
                    ).len(),
                ),
                text,
            )
        }),
{
    let all = all_candidates(res, depth, decls, decls.len());
    let cs = dedup(all, all.len());
    lemma_use_is_candidate(res, depth, decls, i, f, j);
    let want = CandidateModel {
        base: f.ident,
        targs: tuple_for(
            res.resolved_of(Node::Func(f.ident)),
            res.resolved_of(Node::Func(f.ident))[j].instance_id,
            f.generics@.len() as usize,
        )->0,
    };
    let c = choose|c: int| 0 <= c < cs.len() && cs[c] == want;
    lemma_candidate_named(names0, cs, cs.len(), c);
}

/// The signature of a lowered function holds no type parameter: the
/// function has none left, and the type of its result and the type of each
/// of its parameters denote types without one.
pub proof fn lemma_signature_plain(cx: LowerCx, f: ast::Func, name: Ident, r: crate::lir::lower::Func)
    requires
        crate::lir::lower_stmt::func_lowerable(cx, f),
        crate::lir::lower_stmt::func_lowered(cx, f, name, r),
    ensures
        r.generics@.len() == 0,
        !r.ret@.has_generics(),
        forall|i: int| 0 <= i < r.params@.len() ==> !(#[trigger] r.params@[i]).ty@.has_generics(),
{
    crate::lir::lower::lemma_lowered_view(cx.env, cx.fuel, cx.inst(f.ret@), r.ret);
    assert forall|i: int| 0 <= i < r.params@.len() implies !(#[trigger] r.params@[i]).ty@.has_generics() by {
        crate::lir::lower::lemma_lowered_view(
            cx.env,
            cx.fuel,
            crate::lir::lower_stmt::inst_param_tys(cx, f)[i],
            r.params@[i].ty,
        );
    }
}

/// The type that a lowered expression carries holds no type parameter.
pub proof fn lemma_carried_plain(cx: LowerCx, e: ast::Expression, ty: crate::lir::lower::Ty)
    requires
        cx.typed(e),
        cx.carried(e, ty),
    ensures
        !ty@.has_generics(),
{
    crate::lir::lower::lemma_lowered_view(cx.env, cx.fuel, cx.ty_at(e)->0, ty);
}

} // verus!
