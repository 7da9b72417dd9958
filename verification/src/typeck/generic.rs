//! The generic resolver: which items declare type parameters, which items
//! depend on them, and with which concrete types each parameter was used.

use crate::ast::types::{Ident, Path, SpecTy, Ty};
use core::hash::BuildHasherDefault;
use rustc_hash::FxHashMap;
use rustc_hash::FxHasher;
use vstd::prelude::*;

verus! {

/// The hasher of `rustc_hash`; nothing is known of a value of it.
#[verifier::external_type_specification]
#[verifier::external_body]
pub struct ExFxHasher(FxHasher);

/// The builder that makes a hasher by `Default`; nothing is known of a value
/// of it.
#[verifier::reject_recursive_types(H)]
#[verifier::external_type_specification]
#[verifier::external_body]
pub struct ExBuildHasherDefault<H>(BuildHasherDefault<H>);

/// `HashMap::insert` on a map that hashes with `FxHasher`: the map holds `v`
/// at `k` afterwards and is otherwise as before; the result is what stood at
/// `k` before, if anything did.
#[verifier::external_body]
fn fx_insert<V>(m: &mut FxHashMap<usize, V>, k: usize, v: V) -> (r: Option<V>)
    ensures
        final(m)@ == old(m)@.insert(k, v),
        r == (if old(m)@.contains_key(k) {
            Some(old(m)@[k])
        } else {
            None
        }),
{
    m.insert(k, v)
}

/// `HashMap::get` on a map that hashes with `FxHasher`: the value at `k`, if
/// the map holds one.
#[verifier::external_body]
fn fx_get<V>(m: &FxHashMap<usize, V>, k: usize) -> (r: Option<&V>)
    ensures
        r == (if m@.contains_key(k) {
            Some(&m@[k])
        } else {
            None
        }),
{
    m.get(&k)
}

/// `HashMap::remove` on a map that hashes with `FxHasher`: the map holds
/// nothing at `k` afterwards and is otherwise as before; the result is what
/// stood at `k` before, if anything did.
#[verifier::external_body]
fn fx_remove<V>(m: &mut FxHashMap<usize, V>, k: usize) -> (r: Option<V>)
    ensures
        final(m)@ == old(m)@.remove(k),
        r == (if old(m)@.contains_key(k) {
            Some(old(m)@[k])
        } else {
            None
        }),
{
    m.remove(&k)
}

/// A generic-bearing item, as a vertex of the dependency graph.
#[derive(Clone, Copy, Debug, PartialEq, Eq, Structural)]
pub enum Node {
    Func(Ident),
    Trait(Ident),
    Enum(Ident),
    Struct(Ident),
    Builtin(Ident),
}

impl Node {
    /// The name of the item.
    pub open spec fn spec_name(self) -> Ident {
        match self {
            Node::Func(s) => s,
            Node::Trait(s) => s,
            Node::Enum(s) => s,
            Node::Struct(s) => s,
            Node::Builtin(s) => s,
        }
    }

    /// The item's name.
    pub fn name(&self) -> (r: Ident)
        ensures
            r == self.spec_name(),
    {
        match self {
            Node::Func(s) => *s,
            Node::Trait(s) => *s,
            Node::Enum(s) => *s,
            Node::Struct(s) => *s,
            Node::Builtin(s) => *s,
        }
    }
}

/// A table keyed by [`Node`]: one hash map for each kind of item, keyed by
/// the item's name.
pub struct NodeMap<V> {
    funcs: FxHashMap<usize, V>,
    traits: FxHashMap<usize, V>,
    enums: FxHashMap<usize, V>,
    structs: FxHashMap<usize, V>,
    builtins: FxHashMap<usize, V>,
}

impl<V> NodeMap<V> {
    /// The table that holds the nodes of this kind.
    pub closed spec fn table(self, node: Node) -> Map<usize, V> {
        match node {
            Node::Func(_) => self.funcs@,
            Node::Trait(_) => self.traits@,
            Node::Enum(_) => self.enums@,
            Node::Struct(_) => self.structs@,
            Node::Builtin(_) => self.builtins@,
        }
    }

    /// The table as a map.
    pub closed spec fn model(self) -> Map<Node, V> {
        Map::new(
            |n: Node| self.table(n).contains_key(n.spec_name().id),
            |n: Node| self.table(n)[n.spec_name().id],
        )
    }

    /// An empty value.
    pub fn new() -> (r: Self)
        ensures
            r.model() == Map::<Node, V>::empty(),
    {
        let r = NodeMap {
            funcs: FxHashMap::default(),
            traits: FxHashMap::default(),
            enums: FxHashMap::default(),
            structs: FxHashMap::default(),
            builtins: FxHashMap::default(),
        };
        assert(r.model() =~= Map::<Node, V>::empty());
        r
    }

    /// The value held for `node`.
    pub fn get(&self, node: &Node) -> (r: Option<&V>)
        ensures
            r == (if self.model().contains_key(*node) {
                Some(&self.model()[*node])
            } else {
                None
            }),
    {
        match node {
            Node::Func(i) => fx_get(&self.funcs, i.id),
            Node::Trait(i) => fx_get(&self.traits, i.id),
            Node::Enum(i) => fx_get(&self.enums, i.id),
            Node::Struct(i) => fx_get(&self.structs, i.id),
            Node::Builtin(i) => fx_get(&self.builtins, i.id),
        }
    }

    /// `true` when a value is held for `node`.
    pub fn contains(&self, node: &Node) -> (r: bool)
        ensures
            r == self.model().contains_key(*node),
    {
        self.get(node).is_some()
    }

    /// Holds `v` for `node`; the result is what was held before.
    pub fn insert(&mut self, node: Node, v: V) -> (r: Option<V>)
        ensures
            final(self).model() == old(self).model().insert(node, v),
            r == (if old(self).model().contains_key(node) {
                Some(old(self).model()[node])
            } else {
                None
            }),
    {
        let r = match node {
            Node::Func(i) => fx_insert(&mut self.funcs, i.id, v),
            Node::Trait(i) => fx_insert(&mut self.traits, i.id, v),
            Node::Enum(i) => fx_insert(&mut self.enums, i.id, v),
            Node::Struct(i) => fx_insert(&mut self.structs, i.id, v),
            Node::Builtin(i) => fx_insert(&mut self.builtins, i.id, v),
        };
        assert(self.model() =~= old(self).model().insert(node, v));
        r
    }

    /// Holds nothing for `node` any more; the result is what was held.
    pub fn remove(&mut self, node: &Node) -> (r: Option<V>)
        ensures
            final(self).model() == old(self).model().remove(*node),
            r == (if old(self).model().contains_key(*node) {
                Some(old(self).model()[*node])
            } else {
                None
            }),
    {
        let r = match node {
            Node::Func(i) => fx_remove(&mut self.funcs, i.id),
            Node::Trait(i) => fx_remove(&mut self.traits, i.id),
            Node::Enum(i) => fx_remove(&mut self.enums, i.id),
            Node::Struct(i) => fx_remove(&mut self.structs, i.id),
            Node::Builtin(i) => fx_remove(&mut self.builtins, i.id),
        };
        assert(self.model() =~= old(self).model().remove(*node));
        r
    }
}

/// The model of an optional trait bound.
pub open spec fn view_bound(b: Option<Path>) -> Option<Seq<Ident>> {
    match b {
        Some(p) => Some(p@),
        None => None,
    }
}

fn clone_bound(b: &Option<Path>) -> (r: Option<Path>)
    ensures
        view_bound(r) == view_bound(*b),
{
    match b {
        Some(p) => Some(p.clone()),
        None => None,
    }
}

/// What identifies one recorded use of a type parameter: the concrete type,
/// the parameter's index and the id of the use.
pub struct ArgKey {
    pub ty: SpecTy,
    pub gen_idx: usize,
    pub instance_id: usize,
}

/// A concrete type with which a type parameter was instantiated.
#[derive(Debug)]
pub struct GenericArgument {
    pub ty: Ty,
    /// The ids of the expressions that witness the use.
    pub exprs: Vec<usize>,
    /// The index of the parameter among the item's parameters: in `<T, U, V>`
    /// `T` is 0, `U` is 1 and `V` is 2.
    pub gen_idx: usize,
    /// The id of the use; the arguments of one use share it.
    pub instance_id: usize,
}

impl GenericArgument {
    /// What identifies the use: the type, the parameter and the id.
    pub open spec fn key(self) -> ArgKey {
        ArgKey { ty: self.ty@, gen_idx: self.gen_idx, instance_id: self.instance_id }
    }
}

/// The keys of a list of recorded arguments.
pub open spec fn keys_of(args: Seq<GenericArgument>) -> Seq<ArgKey> {
    Seq::new(args.len(), |i: int| args[i].key())
}

/// A generic item that depends on a parameter of another.
#[derive(Debug)]
pub struct Child {
    pub node: Node,
    pub ident: Ident,
    pub bound: Option<Path>,
}

/// The model of a [`Child`].
pub struct ChildModel {
    pub node: Node,
    pub ident: Ident,
    pub bound: Option<Seq<Ident>>,
}

impl View for Child {
    type V = ChildModel;

    open spec fn view(&self) -> ChildModel {
        ChildModel { node: self.node, ident: self.ident, bound: view_bound(self.bound) }
    }
}

/// The type parameters that an item declares and the items that depend on
/// them.
pub struct GenericParam {
    /// Each declared parameter's name with its bound, if it has one.
    pub generics: FxHashMap<usize, Option<Path>>,
    /// The items that depend on this one; one entry for each recorded use.
    pub children: Vec<Child>,
}

/// The model of a [`GenericParam`].
pub struct ParamModel {
    pub generics: Map<usize, Option<Seq<Ident>>>,
    pub children: Seq<ChildModel>,
}

impl ParamModel {
    /// The model that holds nothing.
    pub open spec fn empty() -> ParamModel {
        ParamModel { generics: Map::empty(), children: Seq::empty() }
    }
}

impl View for GenericParam {
    type V = ParamModel;

    open spec fn view(&self) -> ParamModel {
        ParamModel {
            generics: self.generics@.map_values(|b: Option<Path>| view_bound(b)),
            children: Seq::new(self.children@.len(), |i: int| self.children@[i]@),
        }
    }
}

impl GenericParam {
    /// An empty value.
    pub fn new() -> (r: Self)
        ensures
            r@ == ParamModel::empty(),
    {
        let r = GenericParam { generics: FxHashMap::default(), children: Vec::new() };
        assert(r@.generics =~= Map::empty());
        assert(r@.children =~= Seq::empty());
        r
    }

    /// Declares the parameter `id` with its bound.
    pub fn insert_generic(&mut self, id: Ident, bound: Option<Path>)
        ensures
            final(self)@ == (ParamModel {
                generics: old(self)@.generics.insert(id.id, view_bound(bound)),
                children: old(self)@.children,
            }),
    {
        fx_insert(&mut self.generics, id.id, bound);
        assert(self@.generics =~= old(self)@.generics.insert(id.id, view_bound(bound)));
        assert(self@.children =~= old(self)@.children);
    }

    /// The items that depend on this one, in the order of their recording.
    pub fn child_iter(&self) -> (r: Vec<Node>)
        ensures
            r@.len() == self@.children.len(),
            forall|i: int| 0 <= i < r@.len() ==> r@[i] == (#[trigger] self@.children[i]).node,
    {
        let mut out: Vec<Node> = Vec::new();
        let mut i: usize = 0;
        while i < self.children.len()
            invariant
                i <= self.children.len(),
                out@.len() == i,
                forall|j: int| 0 <= j < i ==> out@[j] == self.children@[j].node,
            decreases self.children.len() - i,
        {
            out.push(self.children[i].node);
            i += 1;
        }
        out
    }

    fn push_child(&mut self, node: Node, ident: Ident, bound: Option<Path>)
        ensures
            final(self)@ == (ParamModel {
                generics: old(self)@.generics,
                children: old(self)@.children.push(
                    ChildModel { node, ident, bound: view_bound(bound) },
                ),
            }),
    {
        self.children.push(Child { node, ident, bound });
        assert(self@.generics =~= old(self)@.generics);
        assert(self@.children =~= old(self)@.children.push(
            ChildModel { node, ident, bound: view_bound(bound) },
        ));
    }
}

/// The model of the resolver: for each generic item what it declares and
/// what depends on it, and for each item the uses recorded for it.
pub struct ResolverModel {
    pub items: Map<Node, ParamModel>,
    pub resolved: Map<Node, Seq<ArgKey>>,
}

impl ResolverModel {
    /// The model that holds nothing.
    pub open spec fn empty() -> ResolverModel {
        ResolverModel { items: Map::empty(), resolved: Map::empty() }
    }

    /// The uses recorded for `node`.
    pub open spec fn resolved_of(self, node: Node) -> Seq<ArgKey> {
        if self.resolved.contains_key(node) {
            self.resolved[node]
        } else {
            Seq::empty()
        }
    }

    /// Every recorded type is concrete.
    pub open spec fn all_concrete(self) -> bool {
        forall|n: Node, i: int|
            #![trigger self.resolved[n][i]]
            self.resolved.contains_key(n) && 0 <= i < self.resolved[n].len()
                ==> self.resolved[n][i].ty.is_concrete()
    }

    /// The model after the parameter `id` is declared for `node`.
    pub open spec fn declare(self, node: Node, id: Ident, bound: Option<Seq<Ident>>) -> ResolverModel {
        let p = if self.items.contains_key(node) {
            self.items[node]
        } else {
            ParamModel::empty()
        };
        ResolverModel {
            items: self.items.insert(
                node,
                ParamModel { generics: p.generics.insert(id.id, bound), children: p.children },
            ),
            resolved: self.resolved,
        }
    }

    /// `true` when a dependency can be recorded for `stack`: the stack holds
    /// two items at least and its first is a generic item.
    pub open spec fn can_push_child(self, stack: Seq<Node>) -> bool {
        stack.len() >= 2 && self.items.contains_key(stack[0])
    }

    /// The model after the second item of `stack` is recorded as depending
    /// on the parameter `id` of the first; the model itself where that
    /// cannot be recorded.
    pub open spec fn push_child(self, stack: Seq<Node>, id: Ident, bound: Option<Seq<Ident>>) -> ResolverModel {
        if self.can_push_child(stack) {
            let p = self.items[stack[0]];
            ResolverModel {
                items: self.items.insert(
                    stack[0],
                    ParamModel {
                        generics: p.generics,
                        children: p.children.push(ChildModel { node: stack[1], ident: id, bound }),
                    },
                ),
                resolved: self.resolved,
            }
        } else {
            self
        }
    }

    /// The uses of one item after `key` is recorded: a use that is there
    /// already is not recorded again.
    pub open spec fn record_one(uses: Seq<ArgKey>, key: ArgKey) -> Seq<ArgKey> {
        if uses.contains(key) {
            uses
        } else {
            uses.push(key)
        }
    }

    /// The model after `key` is recorded for every item of `stack`.
    pub open spec fn record(self, stack: Seq<Node>, key: ArgKey) -> ResolverModel {
        ResolverModel {
            items: self.items,
            resolved: Map::new(
                |n: Node| self.resolved.contains_key(n) || stack.contains(n),
                |n: Node|
                    if stack.contains(n) {
                        Self::record_one(self.resolved_of(n), key)
                    } else {
                        self.resolved[n]
                    },
            ),
        }
    }
}

/// The generic resolver.
pub struct GenericResolver {
    /// For each item the concrete types its parameters were used with.
    pub node_resolved: NodeMap<Vec<GenericArgument>>,
    /// For each generic item its parameters and the items that depend on
    /// them.
    pub item_generics: NodeMap<GenericParam>,
}

impl View for GenericResolver {
    type V = ResolverModel;

    open spec fn view(&self) -> ResolverModel {
        ResolverModel {
            items: self.item_generics.model().map_values(|p: GenericParam| p@),
            resolved: self.node_resolved.model().map_values(
                |a: Vec<GenericArgument>| keys_of(a@),
            ),
        }
    }
}

impl GenericResolver {
    /// An empty value.
    pub fn new() -> (r: Self)
        ensures
            r@ == ResolverModel::empty(),
    {
        let r = GenericResolver { node_resolved: NodeMap::new(), item_generics: NodeMap::new() };
        assert(r@.items =~= Map::empty());
        assert(r@.resolved =~= Map::empty());
        r
    }

    /// The uses recorded for `node`, if there are any.
    pub fn resolved(&self, node: &Node) -> (r: Option<&Vec<GenericArgument>>)
        ensures
            match r {
                Some(a) => self@.resolved.contains_key(*node) && keys_of(a@)
                    == self@.resolved[*node],
                None => !self@.resolved.contains_key(*node),
            },
    {
        self.node_resolved.get(node)
    }

    /// The table of generic items.
    pub fn generic_dag(&self) -> (r: &NodeMap<GenericParam>)
        ensures
            *r == self.item_generics,
    {
        &self.item_generics
    }

    /// `true` when `node` declares type parameters.
    pub fn has_generics(&self, node: &Node) -> (r: bool)
        ensures
            r == self@.items.contains_key(*node),
    {
        self.item_generics.contains(node)
    }

    fn declare(&mut self, node: &Node, id: Ident, bound: Option<Path>)
        ensures
            final(self)@ == old(self)@.declare(*node, id, view_bound(bound)),
    {
        let mut p = match self.item_generics.remove(node) {
            Some(p) => p,
            None => GenericParam::new(),
        };
        p.insert_generic(id, bound);
        self.item_generics.insert(*node, p);
        assert(self@.items =~= old(self)@.declare(*node, id, view_bound(bound)).items);
        assert(self@.resolved =~= old(self)@.resolved);
    }

    /// Records that the second item of `stack` depends on the parameter `id`
    /// of the first. `None` where the stack holds fewer than two items or
    /// its first is not a generic item.
    pub fn push_generic_child(&mut self, stack: &Vec<Node>, id: Ident, bound: Option<Path>) -> (r:
        Option<()>)
        ensures
            final(self)@ == old(self)@.push_child(stack@, id, view_bound(bound)),
            r is Some == old(self)@.can_push_child(stack@),
    {
        if stack.len() < 2 {
            return None;
        }
        let first = stack[0];
        let second = stack[1];
        match self.item_generics.remove(&first) {
            Some(mut p) => {
                p.push_child(second, id, bound);
                self.item_generics.insert(first, p);
                assert(self@.items =~= old(self)@.push_child(stack@, id, view_bound(bound)).items);
                assert(self@.resolved =~= old(self)@.resolved);
                Some(())
            },
            None => {
                assert(self.item_generics.model() =~= old(self).item_generics.model());
                None
            },
        }
    }
}

/// The model after the first `n` types of `tys` have been walked by
/// [`spec_collect_params`].
pub open spec fn spec_collect_params_seq(m: ResolverModel, node: Node, tys: Seq<SpecTy>, n: nat) -> ResolverModel
    decreases tys, n,
{
    if n == 0 || n > tys.len() {
        m
    } else {
        spec_collect_params(
            spec_collect_params_seq(m, node, tys, (n - 1) as nat),
            node,
            tys[n - 1],
        )
    }
}

/// The model after the type parameters that occur in `ty` are declared for
/// `node`. The walk goes through the type arguments of structs and enums and
/// through the parameters of a function signature, and takes the signature's
/// result where it is a type parameter itself.
pub open spec fn spec_collect_params(m: ResolverModel, node: Node, ty: SpecTy) -> ResolverModel
    decreases ty, 0nat,
{
    match ty {
        SpecTy::Generic { ident, bound } => m.declare(node, ident, bound),
        SpecTy::Struct { gen, .. } => spec_collect_params_seq(m, node, gen, gen.len()),
        SpecTy::Enum { gen, .. } => spec_collect_params_seq(m, node, gen, gen.len()),
        SpecTy::Func { ret, params, .. } => {
            let m1 = if *ret is Generic {
                spec_collect_params(m, node, *ret)
            } else {
                m
            };
            spec_collect_params_seq(m1, node, params, params.len())
        },
        _ => m,
    }
}

/// The model after the first `n` types of `tys` have been walked by
/// [`spec_collect_usage`].
pub open spec fn spec_collect_usage_seq(
    m: ResolverModel,
    tys: Seq<SpecTy>,
    n: nat,
    instance_id: usize,
    gen_idx: usize,
    stack: Seq<Node>,
) -> ResolverModel
    decreases tys, n,
{
    if n == 0 || n > tys.len() {
        m
    } else {
        spec_collect_usage(
            spec_collect_usage_seq(m, tys, (n - 1) as nat, instance_id, gen_idx, stack),
            tys[n - 1],
            instance_id,
            gen_idx,
            stack,
        )
    }
}

/// The model after a use of `ty` at a site is recorded, where `stack` holds
/// the generic items that enclose the site, the outermost first.
///
/// - A type parameter: the second item of the stack is recorded as
///   depending on this parameter of the first.
/// - A struct or an enum in whose type arguments a type parameter occurs:
///   each type argument is walked with the struct or enum on top of the
///   stack.
/// - An array, a pointer or a dereference layer: the type under it is
///   walked.
/// - Any other concrete type: the type is recorded for every item of the
///   stack under `instance_id` and `gen_idx`.
/// - A type that is neither: nothing is recorded.
pub open spec fn spec_collect_usage(
    m: ResolverModel,
    ty: SpecTy,
    instance_id: usize,
    gen_idx: usize,
    stack: Seq<Node>,
) -> ResolverModel
    decreases ty, 0nat,
{
    match ty {
        SpecTy::Generic { ident, bound } => m.push_child(stack, ident, bound),
        SpecTy::Array { ty: t, .. } => spec_collect_usage(m, *t, instance_id, gen_idx, stack),
        SpecTy::Ptr(t) => spec_collect_usage(m, *t, instance_id, gen_idx, stack),
        SpecTy::Ref(t) => spec_collect_usage(m, *t, instance_id, gen_idx, stack),
        SpecTy::Struct { ident, gen } => if crate::ast::types::seq_has_generics(gen) {
            spec_collect_usage_seq(
                m,
                gen,
                gen.len(),
                instance_id,
                gen_idx,
                stack.push(Node::Struct(ident)),
            )
        } else if ty.is_concrete() {
            m.record(stack, ArgKey { ty, gen_idx, instance_id })
        } else {
            m
        },
        SpecTy::Enum { ident, gen } => if crate::ast::types::seq_has_generics(gen) {
            spec_collect_usage_seq(
                m,
                gen,
                gen.len(),
                instance_id,
                gen_idx,
                stack.push(Node::Enum(ident)),
            )
        } else if ty.is_concrete() {
            m.record(stack, ArgKey { ty, gen_idx, instance_id })
        } else {
            m
        },
        SpecTy::Func { .. } => m,
        SpecTy::Path(_) => m,
        _ => m.record(stack, ArgKey { ty, gen_idx, instance_id }),
    }
}

/// Recording a concrete type keeps every recorded type concrete.
pub proof fn lemma_record_concrete(m: ResolverModel, stack: Seq<Node>, key: ArgKey)
    requires
        m.all_concrete(),
        key.ty.is_concrete(),
    ensures
        m.record(stack, key).all_concrete(),
{
    let r = m.record(stack, key);
    assert forall|n: Node, i: int|
        #![trigger r.resolved[n][i]]
        r.resolved.contains_key(n) && 0 <= i < r.resolved[n].len() implies r.resolved[n][i].ty.is_concrete() by {
        if stack.contains(n) {
            let uses = m.resolved_of(n);
            if i < uses.len() {
                assert(r.resolved[n][i] == m.resolved[n][i]);
            }
        } else {
            assert(r.resolved[n][i] == m.resolved[n][i]);
        }
    }
}

/// Walking a use keeps every recorded type concrete.
pub proof fn lemma_collect_usage_concrete(
    m: ResolverModel,
    ty: SpecTy,
    instance_id: usize,
    gen_idx: usize,
    stack: Seq<Node>,
)
    requires
        m.all_concrete(),
    ensures
        spec_collect_usage(m, ty, instance_id, gen_idx, stack).all_concrete(),
    decreases ty, 0nat,
{
    match ty {
        SpecTy::Generic { ident, bound } => {},
        SpecTy::Array { ty: t, .. } => lemma_collect_usage_concrete(m, *t, instance_id, gen_idx, stack),
        SpecTy::Ptr(t) => lemma_collect_usage_concrete(m, *t, instance_id, gen_idx, stack),
        SpecTy::Ref(t) => lemma_collect_usage_concrete(m, *t, instance_id, gen_idx, stack),
        SpecTy::Struct { ident, gen } => if crate::ast::types::seq_has_generics(gen) {
            lemma_collect_usage_seq_concrete(
                m,
                gen,
                gen.len(),
                instance_id,
                gen_idx,
                stack.push(Node::Struct(ident)),
            );
        } else if ty.is_concrete() {
            lemma_record_concrete(m, stack, ArgKey { ty, gen_idx, instance_id });
        },
        SpecTy::Enum { ident, gen } => if crate::ast::types::seq_has_generics(gen) {
            lemma_collect_usage_seq_concrete(
                m,
                gen,
                gen.len(),
                instance_id,
                gen_idx,
                stack.push(Node::Enum(ident)),
            );
        } else if ty.is_concrete() {
            lemma_record_concrete(m, stack, ArgKey { ty, gen_idx, instance_id });
        },
        SpecTy::Func { .. } => {},
        SpecTy::Path(_) => {},
        _ => {
            lemma_record_concrete(m, stack, ArgKey { ty, gen_idx, instance_id });
        },
    }
}

/// Walking the uses of a list keeps every recorded type concrete.
pub proof fn lemma_collect_usage_seq_concrete(
    m: ResolverModel,
    tys: Seq<SpecTy>,
    n: nat,
    instance_id: usize,
    gen_idx: usize,
    stack: Seq<Node>,
)
    requires
        m.all_concrete(),
    ensures
        spec_collect_usage_seq(m, tys, n, instance_id, gen_idx, stack).all_concrete(),
    decreases tys, n,
{
    if n == 0 || n > tys.len() {
    } else {
        lemma_collect_usage_seq_concrete(m, tys, (n - 1) as nat, instance_id, gen_idx, stack);
        lemma_collect_usage_concrete(
            spec_collect_usage_seq(m, tys, (n - 1) as nat, instance_id, gen_idx, stack),
            tys[n - 1],
            instance_id,
            gen_idx,
            stack,
        );
    }
}

fn clone_ids(v: &Vec<usize>) -> (r: Vec<usize>)
    ensures
        r@ == v@,
{
    let mut out: Vec<usize> = Vec::new();
    let mut i: usize = 0;
    while i < v.len()
        invariant
            i <= v.len(),
            out@ == v@.subrange(0, i as int),
        decreases v.len() - i,
    {
        out.push(v[i]);
        i += 1;
    }
    assert(out@ == v@);
    out
}

/// `true` when `args` holds a use of `ty` under `gen_idx` and `instance_id`.
fn has_key(args: &Vec<GenericArgument>, ty: &Ty, gen_idx: usize, instance_id: usize) -> (r: bool)
    ensures
        r == keys_of(args@).contains(ArgKey { ty: ty@, gen_idx, instance_id }),
{
    let ghost key = ArgKey { ty: ty@, gen_idx, instance_id };
    let mut i: usize = 0;
    while i < args.len()
        invariant
            i <= args.len(),
            key == (ArgKey { ty: ty@, gen_idx, instance_id }),
            forall|j: int| 0 <= j < i ==> (#[trigger] keys_of(args@)[j]) != key,
        decreases args.len() - i,
    {
        let a = &args[i];
        if a.gen_idx == gen_idx && a.instance_id == instance_id && a.ty.is_ty_eq(ty) {
            assert(keys_of(args@)[i as int] == key);
            return true;
        }
        i += 1;
    }
    false
}

impl GenericResolver {
    fn record_for(&mut self, node: Node, ty: &Ty, instance_id: usize, gen_idx: usize, exprs: &Vec<usize>)
        ensures
            final(self)@.items == old(self)@.items,
            final(self)@.resolved == old(self)@.resolved.insert(
                node,
                ResolverModel::record_one(
                    old(self)@.resolved_of(node),
                    ArgKey { ty: ty@, gen_idx, instance_id },
                ),
            ),
    {
        let ghost key = ArgKey { ty: ty@, gen_idx, instance_id };
        let mut args = match self.node_resolved.remove(&node) {
            Some(a) => a,
            None => Vec::new(),
        };
        assert(keys_of(args@) =~= old(self)@.resolved_of(node));
        if !has_key(&args, ty, gen_idx, instance_id) {
            let ghost before = args@;
            args.push(GenericArgument { ty: ty.clone(), exprs: clone_ids(exprs), gen_idx, instance_id });
            assert(keys_of(args@) =~= keys_of(before).push(key));
        }
        self.node_resolved.insert(node, args);
        assert(self@.items =~= old(self)@.items);
        assert(self@.resolved =~= old(self)@.resolved.insert(
            node,
            ResolverModel::record_one(old(self)@.resolved_of(node), key),
        ));
    }

    /// Records the concrete type `ty` for every item of `stack`, the
    /// innermost first.
    pub fn push_resolved_child(
        &mut self,
        stack: &Vec<Node>,
        ty: &Ty,
        instance_id: usize,
        gen_idx: usize,
        exprs: &Vec<usize>,
    )
        ensures
            final(self)@ == old(self)@.record(stack@, ArgKey { ty: ty@, gen_idx, instance_id }),
    {
        let ghost key = ArgKey { ty: ty@, gen_idx, instance_id };
        let ghost m0 = self@;
        let mut i: usize = stack.len();
        while i > 0
            invariant
                i <= stack.len(),
                key == (ArgKey { ty: ty@, gen_idx, instance_id }),
                self@.items == m0.items,
                forall|n: Node|
                    #![trigger self@.resolved.contains_key(n)]
                    self@.resolved.contains_key(n) <==> (m0.resolved.contains_key(n) || stack@.subrange(
                        i as int,
                        stack.len() as int,
                    ).contains(n)),
                forall|n: Node|
                    #![trigger self@.resolved[n]]
                    self@.resolved.contains_key(n) ==> self@.resolved[n] == (if stack@.subrange(
                        i as int,
                        stack.len() as int,
                    ).contains(n) {
                        ResolverModel::record_one(m0.resolved_of(n), key)
                    } else {
                        m0.resolved[n]
                    }),
            decreases i,
        {
            i -= 1;
            let node = stack[i];
            let ghost before = self@;
            let ghost done = stack@.subrange(i + 1, stack.len() as int);
            let ghost now = stack@.subrange(i as int, stack.len() as int);
            self.record_for(node, ty, instance_id, gen_idx, exprs);
            proof {
                assert(now[0] == node);
                assert forall|n: Node|
                    #![trigger now.contains(n)]
                    #![trigger done.contains(n)]
                    now.contains(n) <==> (n == node || done.contains(n)) by {
                    if done.contains(n) {
                        let k = choose|k: int| 0 <= k < done.len() && done[k] == n;
                        assert(now[k + 1] == n);
                    }
                    if now.contains(n) && n != node {
                        let k = choose|k: int| 0 <= k < now.len() && now[k] == n;
                        assert(done[k - 1] == n);
                    }
                }
                let uses = m0.resolved_of(node);
                let one = ResolverModel::record_one(uses, key);
                if !uses.contains(key) {
                    assert(uses.push(key)[uses.len() as int] == key);
                }
                assert(one.contains(key));
                assert(ResolverModel::record_one(one, key) == one);
                assert forall|n: Node|
                    #![trigger self@.resolved.contains_key(n)]
                    self@.resolved.contains_key(n) <==> (m0.resolved.contains_key(n)
                        || now.contains(n)) by {
                    assert(self@.resolved.contains_key(n) <==> (n == node
                        || before.resolved.contains_key(n)));
                    assert(now.contains(n) <==> (n == node || done.contains(n)));
                }
            }
        }
        proof {
            assert(stack@.subrange(0, stack.len() as int) =~= stack@);
            assert(self@.resolved =~= m0.record(stack@, key).resolved);
        }
    }
}

impl GenericResolver {
    fn collect_params_seq(&mut self, node: &Node, tys: &Vec<Ty>)
        ensures
            final(self)@ == spec_collect_params_seq(
                old(self)@,
                *node,
                crate::ast::types::view_tys(tys@),
                tys@.len(),
            ),
        decreases tys,
    {
        let mut i: usize = 0;
        while i < tys.len()
            invariant
                i <= tys.len(),
                self@ == spec_collect_params_seq(
                    old(self)@,
                    *node,
                    crate::ast::types::view_tys(tys@),
                    i as nat,
                ),
            decreases tys.len() - i,
        {
            self.collect_generic_params(node, &tys[i]);
            i += 1;
        }
    }

    /// Declares for `node` the type parameters that occur in `ty`.
    pub fn collect_generic_params(&mut self, node: &Node, ty: &Ty)
        ensures
            final(self)@ == spec_collect_params(old(self)@, *node, ty@),
        decreases ty,
    {
        match ty {
            Ty::Generic { ident, bound } => {
                self.declare(node, *ident, clone_bound(bound));
            },
            Ty::Struct { gen, .. } => {
                self.collect_params_seq(node, gen);
            },
            Ty::Enum { gen, .. } => {
                self.collect_params_seq(node, gen);
            },
            Ty::Func { ret, params, .. } => {
                if let Ty::Generic { .. } = &**ret {
                    self.collect_generic_params(node, ret);
                }
                self.collect_params_seq(node, params);
            },
            _ => {},
        }
    }

    fn collect_usage_seq(
        &mut self,
        tys: &Vec<Ty>,
        instance_id: usize,
        gen_idx: usize,
        exprs: &Vec<usize>,
        stack: &mut Vec<Node>,
    )
        ensures
            final(self)@ == spec_collect_usage_seq(
                old(self)@,
                crate::ast::types::view_tys(tys@),
                tys@.len(),
                instance_id,
                gen_idx,
                old(stack)@,
            ),
            final(stack)@ == old(stack)@,
        decreases tys,
    {
        let mut i: usize = 0;
        while i < tys.len()
            invariant
                i <= tys.len(),
                stack@ == old(stack)@,
                self@ == spec_collect_usage_seq(
                    old(self)@,
                    crate::ast::types::view_tys(tys@),
                    i as nat,
                    instance_id,
                    gen_idx,
                    old(stack)@,
                ),
            decreases tys.len() - i,
        {
            self.collect_generic_usage(&tys[i], instance_id, gen_idx, exprs, stack);
            i += 1;
        }
    }

    /// Records a use of `ty` at a site: the dependencies it makes between
    /// generic items, and the concrete types it gives to the items of
    /// `stack`. The stack is left as it was.
    pub fn collect_generic_usage(
        &mut self,
        ty: &Ty,
        instance_id: usize,
        gen_idx: usize,
        exprs: &Vec<usize>,
        stack: &mut Vec<Node>,
    )
        ensures
            final(self)@ == spec_collect_usage(
                old(self)@,
                ty@,
                instance_id,
                gen_idx,
                old(stack)@,
            ),
            final(stack)@ == old(stack)@,
        decreases ty,
    {
        match ty {
            Ty::Generic { ident, bound } => {
                self.push_generic_child(stack, *ident, clone_bound(bound));
            },
            Ty::Array { ty: t, .. } => {
                self.collect_generic_usage(t, instance_id, gen_idx, exprs, stack);
            },
            Ty::Ptr(t) => {
                self.collect_generic_usage(t, instance_id, gen_idx, exprs, stack);
            },
            Ty::Ref(t) => {
                self.collect_generic_usage(t, instance_id, gen_idx, exprs, stack);
            },
            Ty::Struct { ident, gen } => {
                if crate::ast::types::any_has_generics(gen) {
                    stack.push(Node::Struct(*ident));
                    self.collect_usage_seq(gen, instance_id, gen_idx, exprs, stack);
                    stack.pop();
                    assert(stack@ =~= old(stack)@);
                } else if ty.is_concrete() {
                    self.push_resolved_child(stack, ty, instance_id, gen_idx, exprs);
                }
            },
            Ty::Enum { ident, gen } => {
                if crate::ast::types::any_has_generics(gen) {
                    stack.push(Node::Enum(*ident));
                    self.collect_usage_seq(gen, instance_id, gen_idx, exprs, stack);
                    stack.pop();
                    assert(stack@ =~= old(stack)@);
                } else if ty.is_concrete() {
                    self.push_resolved_child(stack, ty, instance_id, gen_idx, exprs);
                }
            },
            Ty::Func { .. } => {},
            Ty::Path(_) => {},
            _ => {
                self.push_resolved_child(stack, ty, instance_id, gen_idx, exprs);
            },
        }
    }
}

/// The model after the first `n` type arguments of one use are recorded,
/// each under its place in the list.
pub open spec fn spec_record_args(
    m: ResolverModel,
    targs: Seq<SpecTy>,
    n: nat,
    instance_id: usize,
    stack: Seq<Node>,
) -> ResolverModel
    decreases n,
{
    if n == 0 || n > targs.len() || n > usize::MAX {
        m
    } else {
        spec_collect_usage(
            spec_record_args(m, targs, (n - 1) as nat, instance_id, stack),
            targs[n - 1],
            instance_id,
            (n - 1) as usize,
            stack,
        )
    }
}

/// Recording the type arguments of a use keeps every recorded type
/// concrete.
pub proof fn lemma_record_args_concrete(
    m: ResolverModel,
    targs: Seq<SpecTy>,
    n: nat,
    instance_id: usize,
    stack: Seq<Node>,
)
    requires
        m.all_concrete(),
    ensures
        spec_record_args(m, targs, n, instance_id, stack).all_concrete(),
    decreases n,
{
    if n == 0 || n > targs.len() || n > usize::MAX {
    } else {
        lemma_record_args_concrete(m, targs, (n - 1) as nat, instance_id, stack);
        lemma_collect_usage_concrete(
            spec_record_args(m, targs, (n - 1) as nat, instance_id, stack),
            targs[n - 1],
            instance_id,
            (n - 1) as usize,
            stack,
        );
    }
}

impl GenericResolver {
    /// Records the type arguments of one use of a generic item, each under
    /// its place in the list, for the items of `stack`.
    pub fn record_args(
        &mut self,
        targs: &Vec<Ty>,
        instance_id: usize,
        exprs: &Vec<usize>,
        stack: &mut Vec<Node>,
    )
        ensures
            final(self)@ == spec_record_args(
                old(self)@,
                crate::ast::types::view_tys(targs@),
                targs@.len(),
                instance_id,
                old(stack)@,
            ),
            final(stack)@ == old(stack)@,
            old(self)@.all_concrete() ==> final(self)@.all_concrete(),
    {
        let mut i: usize = 0;
        while i < targs.len()
            invariant
                i <= targs.len(),
                stack@ == old(stack)@,
                self@ == spec_record_args(
                    old(self)@,
                    crate::ast::types::view_tys(targs@),
                    i as nat,
                    instance_id,
                    old(stack)@,
                ),
            decreases targs.len() - i,
        {
            self.collect_generic_usage(&targs[i], instance_id, i, exprs, stack);
            i += 1;
        }
        proof {
            if old(self)@.all_concrete() {
                lemma_record_args_concrete(
                    old(self)@,
                    crate::ast::types::view_tys(targs@),
                    targs@.len(),
                    instance_id,
                    old(stack)@,
                );
            }
        }
    }
}

} // verus!
