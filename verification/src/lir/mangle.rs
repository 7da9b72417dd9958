//! The names of specialized functions: the function's own name followed by
//! the canonical text of each type argument.

use crate::ast::symbol::Interner;
use crate::ast::types::{view_tys, Ident, SpecTy, Ty};
use vstd::prelude::*;
use vstd::string::StringExecFns;

verus! {

/// The character of the digit `d`.
pub open spec fn digit(d: nat) -> char {
    if d == 0 {
        '0'
    } else if d == 1 {
        '1'
    } else if d == 2 {
        '2'
    } else if d == 3 {
        '3'
    } else if d == 4 {
        '4'
    } else if d == 5 {
        '5'
    } else if d == 6 {
        '6'
    } else if d == 7 {
        '7'
    } else if d == 8 {
        '8'
    } else {
        '9'
    }
}

/// The decimal digits of `n`, without leading zeros.
pub open spec fn decimal(n: nat) -> Seq<char>
    decreases n,
{
    if n < 10 {
        seq![digit(n)]
    } else {
        decimal(n / 10).push(digit(n % 10))
    }
}

/// The text of the name `id` in the table `names`.
pub open spec fn name_text(names: Seq<Seq<char>>, id: Ident) -> Seq<char> {
    if id.id < names.len() {
        names[id.id as int]
    } else {
        Seq::empty()
    }
}

/// The texts of the types `tys[i..]`, each followed by a comma but the last.
pub open spec fn list_text(tys: Seq<SpecTy>, names: Seq<Seq<char>>, i: nat) -> Seq<char>
    decreases tys, tys.len() - i,
{
    if i >= tys.len() {
        Seq::empty()
    } else if i + 1 == tys.len() {
        type_text(tys[i as int], names)
    } else {
        type_text(tys[i as int], names) + seq![','] + list_text(tys, names, i + 1)
    }
}

/// The texts of the segments `segs[i..]` of a path, each preceded by `::`.
pub open spec fn path_text(segs: Seq<Ident>, names: Seq<Seq<char>>, i: nat) -> Seq<char>
    decreases segs.len() - i,
{
    if i >= segs.len() {
        Seq::empty()
    } else {
        seq![':', ':'] + name_text(names, segs[i as int]) + path_text(segs, names, i + 1)
    }
}

/// The canonical text of a type. It holds no white space, and a reader can
/// tell from the front of the text where the type ends:
///
/// - `int`, `float`, `char`, `bool`, `string`, `void`;
/// - `&T` for a pointer, `*T` for a dereference layer;
/// - `[n;T]` for an array of `n` items;
/// - `structN<T,U>` and `enumN<T,U>` for a struct or an enum named `N`;
/// - `<N>` for a type parameter, `fnN<T,U>->R` for a function signature and
///   `::a::b` for an unresolved path.
pub open spec fn type_text(t: SpecTy, names: Seq<Seq<char>>) -> Seq<char>
    decreases t, 0nat,
{
    match t {
        SpecTy::Int => seq!['i', 'n', 't'],
        SpecTy::Float => seq!['f', 'l', 'o', 'a', 't'],
        SpecTy::Char => seq!['c', 'h', 'a', 'r'],
        SpecTy::Bool => seq!['b', 'o', 'o', 'l'],
        SpecTy::String => seq!['s', 't', 'r', 'i', 'n', 'g'],
        SpecTy::Void => seq!['v', 'o', 'i', 'd'],
        SpecTy::Ptr(x) => seq!['&'] + type_text(*x, names),
        SpecTy::Ref(x) => seq!['*'] + type_text(*x, names),
        SpecTy::Array { size, ty } => seq!['['] + decimal(size as nat) + seq![';'] + type_text(
            *ty,
            names,
        ) + seq![']'],
        SpecTy::Struct { ident, gen } => seq!['s', 't', 'r', 'u', 'c', 't'] + name_text(
            names,
            ident,
        ) + seq!['<'] + list_text(gen, names, 0) + seq!['>'],
        SpecTy::Enum { ident, gen } => seq!['e', 'n', 'u', 'm'] + name_text(names, ident) + seq![
            '<',
        ] + list_text(gen, names, 0) + seq!['>'],
        SpecTy::Generic { ident, .. } => seq!['<'] + name_text(names, ident) + seq!['>'],
        SpecTy::Func { ident, ret, params } => seq!['f', 'n'] + name_text(names, ident) + seq![
            '<',
        ] + list_text(params, names, 0) + seq!['>', '-', '>'] + type_text(*ret, names),
        SpecTy::Path(segs) => path_text(segs, names, 0),
    }
}

/// The texts of the types `targs[i..]`, each preceded by `@`.
pub open spec fn args_text(targs: Seq<SpecTy>, names: Seq<Seq<char>>, i: nat) -> Seq<char>
    decreases targs.len() - i,
{
    if i >= targs.len() {
        Seq::empty()
    } else {
        seq!['@'] + type_text(targs[i as int], names) + args_text(targs, names, i + 1)
    }
}

/// The name of the copy of the item `base` for the type arguments `targs`:
/// the item's name, and for each type argument `@` and its canonical text.
pub open spec fn mangled(base: Ident, targs: Seq<SpecTy>, names: Seq<Seq<char>>) -> Seq<char> {
    name_text(names, base) + args_text(targs, names, 0)
}

fn digit_str(d: usize) -> (r: &'static str)
    requires
        d < 10,
    ensures
        r@ == seq![digit(d as nat)],
{
    proof {
        reveal_strlit("0");
        reveal_strlit("1");
        reveal_strlit("2");
        reveal_strlit("3");
        reveal_strlit("4");
        reveal_strlit("5");
        reveal_strlit("6");
        reveal_strlit("7");
        reveal_strlit("8");
        reveal_strlit("9");
    }
    let r = if d == 0 {
        "0"
    } else if d == 1 {
        "1"
    } else if d == 2 {
        "2"
    } else if d == 3 {
        "3"
    } else if d == 4 {
        "4"
    } else if d == 5 {
        "5"
    } else if d == 6 {
        "6"
    } else if d == 7 {
        "7"
    } else if d == 8 {
        "8"
    } else {
        "9"
    };
    assert(r@ =~= seq![digit(d as nat)]);
    r
}

/// Writes the decimal digits of `n` behind `out`.
pub fn push_decimal(n: usize, out: &mut String)
    ensures
        final(out)@ == old(out)@ + decimal(n as nat),
    decreases n,
{
    if n >= 10 {
        push_decimal(n / 10, out);
        out.append(digit_str(n % 10));
        assert(out@ =~= old(out)@ + decimal(n as nat));
    } else {
        out.append(digit_str(n));
    }
}

fn push_name(names: &Interner, id: Ident, out: &mut String)
    ensures
        final(out)@ == old(out)@ + name_text(names@, id),
{
    match names.name(id) {
        Some(s) => {
            out.append(s.as_str());
        },
        None => {
            assert(out@ =~= old(out)@ + Seq::<char>::empty());
        },
    }
}

fn push_list(tys: &Vec<Ty>, names: &Interner, out: &mut String)
    ensures
        final(out)@ == old(out)@ + list_text(view_tys(tys@), names@, 0),
    decreases tys,
{
    let ghost all = view_tys(tys@);
    let mut i: usize = 0;
    while i < tys.len()
        invariant
            i <= tys.len(),
            all == view_tys(tys@),
            out@ + list_text(all, names@, i as nat) == old(out)@ + list_text(all, names@, 0),
        decreases tys.len() - i,
    {
        let ghost before = out@;
        push_type_text(&tys[i], names, out);
        if i + 1 < tys.len() {
            proof {
                reveal_strlit(",");
            }
            out.append(",");
            assert(out@ + list_text(all, names@, (i + 1) as nat) =~= before + list_text(
                all,
                names@,
                i as nat,
            ));
        } else {
            assert(out@ + list_text(all, names@, (i + 1) as nat) =~= before + list_text(
                all,
                names@,
                i as nat,
            ));
        }
        i += 1;
    }
    assert(out@ + list_text(all, names@, i as nat) =~= out@);
}

fn push_path(segs: &Vec<Ident>, names: &Interner, out: &mut String)
    ensures
        final(out)@ == old(out)@ + path_text(segs@, names@, 0),
{
    let mut i: usize = 0;
    while i < segs.len()
        invariant
            i <= segs.len(),
            out@ + path_text(segs@, names@, i as nat) == old(out)@ + path_text(segs@, names@, 0),
        decreases segs.len() - i,
    {
        let ghost before = out@;
        proof {
            reveal_strlit("::");
        }
        out.append("::");
        push_name(names, segs[i], out);
        assert(out@ + path_text(segs@, names@, (i + 1) as nat) =~= before + path_text(
            segs@,
            names@,
            i as nat,
        ));
        i += 1;
    }
    assert(out@ + path_text(segs@, names@, i as nat) =~= out@);
}

/// Writes the canonical text of `ty` behind `out`.
pub fn push_type_text(ty: &Ty, names: &Interner, out: &mut String)
    ensures
        final(out)@ == old(out)@ + type_text(ty@, names@),
    decreases ty,
{
    proof {
        reveal_strlit("int");
        reveal_strlit("float");
        reveal_strlit("char");
        reveal_strlit("bool");
        reveal_strlit("string");
        reveal_strlit("void");
        reveal_strlit("&");
        reveal_strlit("*");
        reveal_strlit("[");
        reveal_strlit(";");
        reveal_strlit("]");
        reveal_strlit("struct");
        reveal_strlit("enum");
        reveal_strlit("<");
        reveal_strlit(">");
        reveal_strlit("fn");
        reveal_strlit(">->");
    }
    match ty {
        Ty::Int => {
            out.append("int");
            assert(out@ =~= old(out)@ + type_text(ty@, names@));
        },
        Ty::Float => {
            out.append("float");
            assert(out@ =~= old(out)@ + type_text(ty@, names@));
        },
        Ty::Char => {
            out.append("char");
            assert(out@ =~= old(out)@ + type_text(ty@, names@));
        },
        Ty::Bool => {
            out.append("bool");
            assert(out@ =~= old(out)@ + type_text(ty@, names@));
        },
        Ty::String => {
            out.append("string");
            assert(out@ =~= old(out)@ + type_text(ty@, names@));
        },
        Ty::Void => {
            out.append("void");
            assert(out@ =~= old(out)@ + type_text(ty@, names@));
        },
        Ty::Ptr(x) => {
            out.append("&");
            push_type_text(x, names, out);
            assert(out@ =~= old(out)@ + type_text(ty@, names@));
        },
        Ty::Ref(x) => {
            out.append("*");
            push_type_text(x, names, out);
            assert(out@ =~= old(out)@ + type_text(ty@, names@));
        },
        Ty::Array { size, ty: x } => {
            out.append("[");
            push_decimal(*size, out);
            out.append(";");
            push_type_text(x, names, out);
            out.append("]");
            assert(out@ =~= old(out)@ + type_text(ty@, names@));
        },
        Ty::Struct { ident, gen } => {
            out.append("struct");
            push_name(names, *ident, out);
            out.append("<");
            push_list(gen, names, out);
            out.append(">");
            assert(out@ =~= old(out)@ + type_text(ty@, names@));
        },
        Ty::Enum { ident, gen } => {
            out.append("enum");
            push_name(names, *ident, out);
            out.append("<");
            push_list(gen, names, out);
            out.append(">");
            assert(out@ =~= old(out)@ + type_text(ty@, names@));
        },
        Ty::Generic { ident, .. } => {
            out.append("<");
            push_name(names, *ident, out);
            out.append(">");
            assert(out@ =~= old(out)@ + type_text(ty@, names@));
        },
        Ty::Func { ident, ret, params } => {
            out.append("fn");
            push_name(names, *ident, out);
            out.append("<");
            push_list(params, names, out);
            out.append(">->");
            push_type_text(ret, names, out);
            assert(out@ =~= old(out)@ + type_text(ty@, names@));
        },
        Ty::Path(p) => {
            push_path(&p.segs, names, out);
        },
    }
}

/// The name of the copy of the item `base` for the type arguments `targs`.
pub fn mangle(base: Ident, targs: &Vec<Ty>, names: &Interner) -> (r: String)
    ensures
        r@ == mangled(base, view_tys(targs@), names@),
{
    let ghost all = view_tys(targs@);
    let mut out = String::new();
    push_name(names, base, &mut out);
    assert(out@ =~= name_text(names@, base));
    let mut i: usize = 0;
    while i < targs.len()
        invariant
            i <= targs.len(),
            all == view_tys(targs@),
            out@ + args_text(all, names@, i as nat) == mangled(base, all, names@),
        decreases targs.len() - i,
    {
        let ghost before = out@;
        proof {
            reveal_strlit("@");
        }
        out.append("@");
        push_type_text(&targs[i], names, &mut out);
        assert(out@ + args_text(all, names@, (i + 1) as nat) =~= before + args_text(
            all,
            names@,
            i as nat,
        ));
        i += 1;
    }
    assert(out@ + args_text(all, names@, i as nat) =~= out@);
    out
}

} // verus!
