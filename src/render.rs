use vstd::prelude::*;
use vstd::string::*;
use crate::model::{
    AssocItemConstraint, AssocItemConstraintKind, GenericArg, GenericArgs, GenericBound,
    GenericParamDef, GenericParamDefKind, Generics, PathRef, Term, TraitBoundModifier, Type,
};
use crate::text::{join, join_strings, views};

verus! {

// ---------------------------------------------------------------------------
// What each type expression and generic list renders as.
// ---------------------------------------------------------------------------

pub open spec fn type_text(t: Type) -> Seq<char>
    decreases t,
{
    match t {
        Type::ResolvedPath(p) => path_text(p),
        Type::Primitive(p) => p@,
        Type::Tuple(ts) => "("@ + join(type_texts(ts@), ", "@) + ")"@,
        Type::Slice(b) => "["@ + type_text(*b) + "]"@,
        Type::Array { type_, len } => "["@ + type_text(*type_) + "; "@ + len@ + "]"@,
        Type::BorrowedRef { lifetime, is_mutable, type_ } => "&"@ + match lifetime {
            Some(l) => l@ + " "@,
            None => Seq::empty(),
        } + (if is_mutable {
            "mut "@
        } else {
            Seq::empty()
        }) + type_text(*type_),
        Type::RawPointer { is_mutable, type_ } => "*"@ + (if is_mutable {
            "mut "@
        } else {
            "const "@
        }) + type_text(*type_),
        Type::Generic(n) => n@,
        Type::ImplTrait(bs) => "impl "@ + join(bound_texts(bs@), " + "@),
        Type::DynTrait { lifetime, traits } => "dyn "@ + match lifetime {
            Some(l) => l@ + " + "@,
            None => Seq::empty(),
        } + join(path_texts(traits@), " + "@),
        Type::Other => "_"@,
    }
}

pub open spec fn path_text(p: PathRef) -> Seq<char>
    decreases p,
{
    match p.args {
        None => p.path@,
        Some(a) => p.path@ + args_text(*a),
    }
}

pub open spec fn args_text(a: GenericArgs) -> Seq<char>
    decreases a,
{
    match a {
        GenericArgs::AngleBracketed { args, constraints } => {
            if args.len() == 0 && constraints.len() == 0 {
                Seq::empty()
            } else {
                "<"@ + join(arg_texts(args@) + constraint_texts(constraints@), ", "@) + ">"@
            }
        },
        GenericArgs::Parenthesized { inputs, output } => "("@ + join(type_texts(inputs@), ", "@)
            + ")"@ + match output {
            Some(o) => " -> "@ + type_text(*o),
            None => Seq::empty(),
        },
        GenericArgs::ReturnTypeNotation => "(..)"@,
    }
}

pub open spec fn arg_text(g: GenericArg) -> Seq<char>
    decreases g,
{
    match g {
        GenericArg::Lifetime(l) => l@,
        GenericArg::Type(t) => type_text(t),
        GenericArg::Const(c) => "const "@ + c@,
        GenericArg::Infer => "_"@,
    }
}

pub open spec fn constraint_text(c: AssocItemConstraint) -> Seq<char>
    decreases c,
{
    match c.binding {
        AssocItemConstraintKind::Equality(term) => c.name@ + " = "@ + match term {
            Term::Type(t) => type_text(t),
            Term::Constant(e) => e@,
        },
        AssocItemConstraintKind::Constraint(bs) => c.name@ + ": "@ + join(bound_texts(bs@), " + "@),
    }
}

pub open spec fn modifier_text(m: TraitBoundModifier) -> Seq<char> {
    match m {
        TraitBoundModifier::Plain => Seq::empty(),
        TraitBoundModifier::Maybe => "?"@,
        TraitBoundModifier::MaybeConst => "~const "@,
    }
}

pub open spec fn bound_text(b: GenericBound) -> Seq<char>
    decreases b,
{
    match b {
        GenericBound::TraitBound { trait_, generic_params, modifier } => (if generic_params.len()
            == 0 {
            Seq::empty()
        } else {
            "for<"@ + join(binder_texts(generic_params@), ", "@) + "> "@
        }) + modifier_text(modifier) + path_text(trait_),
        GenericBound::Outlives(l) => l@,
        GenericBound::Use(names) => "use<"@ + join(views(names@), ", "@) + ">"@,
    }
}

/// A lifetime parameter: its name, then what it outlives, if anything.
pub open spec fn lifetime_param_text(name: Seq<char>, outlives: Seq<String>) -> Seq<char> {
    if outlives.len() == 0 {
        name
    } else {
        name + ": "@ + join(views(outlives), " + "@)
    }
}

/// A parameter of a higher-ranked `for<..>` binder.
pub open spec fn binder_text(p: GenericParamDef) -> Seq<char> {
    match p.kind {
        GenericParamDefKind::Lifetime { outlives } => lifetime_param_text(p.name@, outlives@),
        _ => p.name@,
    }
}

/// A declared generic parameter (never called on a synthetic one).
pub open spec fn param_text(p: GenericParamDef) -> Seq<char>
    decreases p,
{
    match p.kind {
        GenericParamDefKind::Lifetime { outlives } => lifetime_param_text(p.name@, outlives@),
        GenericParamDefKind::Type { bounds, default, is_synthetic } => p.name@ + (if bounds.len()
            == 0 {
            Seq::empty()
        } else {
            ": "@ + join(bound_texts(bounds@), " + "@)
        }) + match default {
            Some(t) => " = "@ + type_text(t),
            None => Seq::empty(),
        },
        GenericParamDefKind::Const { type_, default } => "const "@ + p.name@ + ": "@ + type_text(
            type_,
        ) + match default {
            Some(d) => " = "@ + d@,
            None => Seq::empty(),
        },
    }
}

pub open spec fn is_synthetic(p: GenericParamDef) -> bool {
    match p.kind {
        GenericParamDefKind::Type { is_synthetic, .. } => is_synthetic,
        _ => false,
    }
}

/// The generic parameter list: `<..>` over the parameters that are not synthetic,
/// or nothing when there are none.
pub open spec fn generics_text(g: Generics) -> Seq<char> {
    let ps = param_texts(g.params@);
    if ps.len() == 0 {
        Seq::empty()
    } else {
        "<"@ + join(ps, ", "@) + ">"@
    }
}

pub open spec fn type_texts(ts: Seq<Type>) -> Seq<Seq<char>>
    decreases ts,
{
    if ts.len() == 0 {
        Seq::empty()
    } else {
        type_texts(ts.drop_last()).push(type_text(ts.last()))
    }
}

pub open spec fn path_texts(ps: Seq<PathRef>) -> Seq<Seq<char>>
    decreases ps,
{
    if ps.len() == 0 {
        Seq::empty()
    } else {
        path_texts(ps.drop_last()).push(path_text(ps.last()))
    }
}

pub open spec fn arg_texts(gs: Seq<GenericArg>) -> Seq<Seq<char>>
    decreases gs,
{
    if gs.len() == 0 {
        Seq::empty()
    } else {
        arg_texts(gs.drop_last()).push(arg_text(gs.last()))
    }
}

pub open spec fn constraint_texts(cs: Seq<AssocItemConstraint>) -> Seq<Seq<char>>
    decreases cs,
{
    if cs.len() == 0 {
        Seq::empty()
    } else {
        constraint_texts(cs.drop_last()).push(constraint_text(cs.last()))
    }
}

pub open spec fn bound_texts(bs: Seq<GenericBound>) -> Seq<Seq<char>>
    decreases bs,
{
    if bs.len() == 0 {
        Seq::empty()
    } else {
        bound_texts(bs.drop_last()).push(bound_text(bs.last()))
    }
}

pub open spec fn binder_texts(ps: Seq<GenericParamDef>) -> Seq<Seq<char>>
    decreases ps.len(),
{
    if ps.len() == 0 {
        Seq::empty()
    } else {
        binder_texts(ps.drop_last()).push(binder_text(ps.last()))
    }
}

/// The rendered parameters, synthetic ones left out.
pub open spec fn param_texts(ps: Seq<GenericParamDef>) -> Seq<Seq<char>>
    decreases ps,
{
    if ps.len() == 0 {
        Seq::empty()
    } else if is_synthetic(ps.last()) {
        param_texts(ps.drop_last())
    } else {
        param_texts(ps.drop_last()).push(param_text(ps.last()))
    }
}

// ---------------------------------------------------------------------------
// Rendering.
// ---------------------------------------------------------------------------

/// Renders a type expression; shapes without a textual form render as `_`.
pub fn format_type(t: &Type) -> (r: String)
    ensures
        r@ == type_text(*t),
    decreases t, 0nat,
{
    let mut s = String::new();
    match t {
        Type::ResolvedPath(p) => {
            s = format_path_like(p);
        },
        Type::Primitive(p) => {
            s = p.clone();
        },
        Type::Tuple(ts) => {
            let parts = format_types(ts);
            s.append("(");
            s.append(join_strings(&parts, ", ").as_str());
            s.append(")");
        },
        Type::Slice(b) => {
            s.append("[");
            s.append(format_type(b).as_str());
            s.append("]");
        },
        Type::Array { type_, len } => {
            s.append("[");
            s.append(format_type(type_).as_str());
            s.append("; ");
            s.append(len.as_str());
            s.append("]");
        },
        Type::BorrowedRef { lifetime, is_mutable, type_ } => {
            s.append("&");
            match lifetime {
                Some(l) => {
                    s.append(l.as_str());
                    s.append(" ");
                },
                None => {},
            }
            if *is_mutable {
                s.append("mut ");
            }
            s.append(format_type(type_).as_str());
        },
        Type::RawPointer { is_mutable, type_ } => {
            s.append("*");
            if *is_mutable {
                s.append("mut ");
            } else {
                s.append("const ");
            }
            s.append(format_type(type_).as_str());
        },
        Type::Generic(n) => {
            s = n.clone();
        },
        Type::ImplTrait(bs) => {
            let parts = format_bounds(bs);
            s.append("impl ");
            s.append(join_strings(&parts, " + ").as_str());
        },
        Type::DynTrait { lifetime, traits } => {
            s.append("dyn ");
            match lifetime {
                Some(l) => {
                    s.append(l.as_str());
                    s.append(" + ");
                },
                None => {},
            }
            let parts = format_paths(traits);
            s.append(join_strings(&parts, " + ").as_str());
        },
        Type::Other => {
            s.append("_");
        },
    }
    s
}

fn format_types(ts: &Vec<Type>) -> (r: Vec<String>)
    ensures
        views(r@) == type_texts(ts@),
    decreases ts, 1nat,
{
    let mut r: Vec<String> = Vec::new();
    let mut i: usize = 0;
    while i < ts.len()
        invariant
            i <= ts.len(),
            views(r@) == type_texts(ts@.subrange(0, i as int)),
        decreases ts.len() - i,
    {
        let s = format_type(&ts[i]);
        proof {
            assert(ts@.subrange(0, i + 1).drop_last() =~= ts@.subrange(0, i as int));
        }
        r.push(s);
        proof {
            assert(views(r@) =~= type_texts(ts@.subrange(0, i + 1)));
        }
        i = i + 1;
    }
    proof {
        assert(ts@.subrange(0, ts@.len() as int) =~= ts@);
    }
    r
}

/// Renders a path with its generic arguments, if any.
pub fn format_path_like(p: &PathRef) -> (r: String)
    ensures
        r@ == path_text(*p),
    decreases p, 0nat,
{
    let mut s = p.path.clone();
    match &p.args {
        Some(a) => {
            s.append(format_generic_args(a).as_str());
        },
        None => {},
    }
    s
}

fn format_paths(ps: &Vec<PathRef>) -> (r: Vec<String>)
    ensures
        views(r@) == path_texts(ps@),
    decreases ps, 1nat,
{
    let mut r: Vec<String> = Vec::new();
    let mut i: usize = 0;
    while i < ps.len()
        invariant
            i <= ps.len(),
            views(r@) == path_texts(ps@.subrange(0, i as int)),
        decreases ps.len() - i,
    {
        let s = format_path_like(&ps[i]);
        proof {
            assert(ps@.subrange(0, i + 1).drop_last() =~= ps@.subrange(0, i as int));
        }
        r.push(s);
        proof {
            assert(views(r@) =~= path_texts(ps@.subrange(0, i + 1)));
        }
        i = i + 1;
    }
    proof {
        assert(ps@.subrange(0, ps@.len() as int) =~= ps@);
    }
    r
}

fn format_generic_args(a: &GenericArgs) -> (r: String)
    ensures
        r@ == args_text(*a),
    decreases a, 0nat,
{
    let mut s = String::new();
    match a {
        GenericArgs::AngleBracketed { args, constraints } => {
            if args.len() > 0 || constraints.len() > 0 {
                let mut parts = format_arg_list(args);
                let mut more = format_constraints(constraints);
                proof {
                    assert(views(parts@ + more@) =~= views(parts@) + views(more@));
                }
                parts.append(&mut more);
                s.append("<");
                s.append(join_strings(&parts, ", ").as_str());
                s.append(">");
            }
        },
        GenericArgs::Parenthesized { inputs, output } => {
            let parts = format_types(inputs);
            s.append("(");
            s.append(join_strings(&parts, ", ").as_str());
            s.append(")");
            match output {
                Some(o) => {
                    s.append(" -> ");
                    s.append(format_type(o).as_str());
                },
                None => {},
            }
        },
        GenericArgs::ReturnTypeNotation => {
            s.append("(..)");
        },
    }
    s
}

fn format_generic_arg(g: &GenericArg) -> (r: String)
    ensures
        r@ == arg_text(*g),
    decreases g, 0nat,
{
    match g {
        GenericArg::Lifetime(l) => l.clone(),
        GenericArg::Type(t) => format_type(t),
        GenericArg::Const(c) => {
            let mut s = String::from_str("const ");
            s.append(c.as_str());
            s
        },
        GenericArg::Infer => String::from_str("_"),
    }
}

fn format_arg_list(gs: &Vec<GenericArg>) -> (r: Vec<String>)
    ensures
        views(r@) == arg_texts(gs@),
    decreases gs, 1nat,
{
    let mut r: Vec<String> = Vec::new();
    let mut i: usize = 0;
    while i < gs.len()
        invariant
            i <= gs.len(),
            views(r@) == arg_texts(gs@.subrange(0, i as int)),
        decreases gs.len() - i,
    {
        let s = format_generic_arg(&gs[i]);
        proof {
            assert(gs@.subrange(0, i + 1).drop_last() =~= gs@.subrange(0, i as int));
        }
        r.push(s);
        proof {
            assert(views(r@) =~= arg_texts(gs@.subrange(0, i + 1)));
        }
        i = i + 1;
    }
    proof {
        assert(gs@.subrange(0, gs@.len() as int) =~= gs@);
    }
    r
}

fn format_constraint(c: &AssocItemConstraint) -> (r: String)
    ensures
        r@ == constraint_text(*c),
    decreases c, 0nat,
{
    let mut s = c.name.clone();
    match &c.binding {
        AssocItemConstraintKind::Equality(term) => {
            s.append(" = ");
            match term {
                Term::Type(t) => {
                    s.append(format_type(t).as_str());
                },
                Term::Constant(e) => {
                    s.append(e.as_str());
                },
            }
        },
        AssocItemConstraintKind::Constraint(bs) => {
            let parts = format_bounds(bs);
            s.append(": ");
            s.append(join_strings(&parts, " + ").as_str());
        },
    }
    s
}

fn format_constraints(cs: &Vec<AssocItemConstraint>) -> (r: Vec<String>)
    ensures
        views(r@) == constraint_texts(cs@),
    decreases cs, 1nat,
{
    let mut r: Vec<String> = Vec::new();
    let mut i: usize = 0;
    while i < cs.len()
        invariant
            i <= cs.len(),
            views(r@) == constraint_texts(cs@.subrange(0, i as int)),
        decreases cs.len() - i,
    {
        let s = format_constraint(&cs[i]);
        proof {
            assert(cs@.subrange(0, i + 1).drop_last() =~= cs@.subrange(0, i as int));
        }
        r.push(s);
        proof {
            assert(views(r@) =~= constraint_texts(cs@.subrange(0, i + 1)));
        }
        i = i + 1;
    }
    proof {
        assert(cs@.subrange(0, cs@.len() as int) =~= cs@);
    }
    r
}

/// Renders one bound: a trait bound with its binder and modifier, a lifetime,
/// or a precise-capturing list.
pub fn format_generic_bound(b: &GenericBound) -> (r: String)
    ensures
        r@ == bound_text(*b),
    decreases b, 0nat,
{
    match b {
        GenericBound::TraitBound { trait_, generic_params, modifier } => {
            let mut s = String::new();
            if generic_params.len() > 0 {
                let parts = format_binder_params(generic_params);
                s.append("for<");
                s.append(join_strings(&parts, ", ").as_str());
                s.append("> ");
            }
            match modifier {
                TraitBoundModifier::Plain => {},
                TraitBoundModifier::Maybe => {
                    s.append("?");
                },
                TraitBoundModifier::MaybeConst => {
                    s.append("~const ");
                },
            }
            s.append(format_path_like(trait_).as_str());
            s
        },
        GenericBound::Outlives(l) => l.clone(),
        GenericBound::Use(names) => format_precise_capturing_args(names),
    }
}

fn format_bounds(bs: &Vec<GenericBound>) -> (r: Vec<String>)
    ensures
        views(r@) == bound_texts(bs@),
    decreases bs, 1nat,
{
    let mut r: Vec<String> = Vec::new();
    let mut i: usize = 0;
    while i < bs.len()
        invariant
            i <= bs.len(),
            views(r@) == bound_texts(bs@.subrange(0, i as int)),
        decreases bs.len() - i,
    {
        let s = format_generic_bound(&bs[i]);
        proof {
            assert(bs@.subrange(0, i + 1).drop_last() =~= bs@.subrange(0, i as int));
        }
        r.push(s);
        proof {
            assert(views(r@) =~= bound_texts(bs@.subrange(0, i + 1)));
        }
        i = i + 1;
    }
    proof {
        assert(bs@.subrange(0, bs@.len() as int) =~= bs@);
    }
    r
}

/// Renders a `use<..>` precise-capturing bound.
pub fn format_precise_capturing_args(names: &Vec<String>) -> (r: String)
    ensures
        r@ == "use<"@ + join(views(names@), ", "@) + ">"@,
{
    let mut s = String::from_str("use<");
    s.append(join_strings(names, ", ").as_str());
    s.append(">");
    s
}

fn format_lifetime_param(name: &String, outlives: &Vec<String>) -> (r: String)
    ensures
        r@ == lifetime_param_text(name@, outlives@),
{
    let mut s = name.clone();
    if outlives.len() > 0 {
        s.append(": ");
        s.append(join_strings(outlives, " + ").as_str());
    }
    s
}

fn format_binder_params(ps: &Vec<GenericParamDef>) -> (r: Vec<String>)
    ensures
        views(r@) == binder_texts(ps@),
{
    let mut r: Vec<String> = Vec::new();
    let mut i: usize = 0;
    while i < ps.len()
        invariant
            i <= ps.len(),
            views(r@) == binder_texts(ps@.subrange(0, i as int)),
        decreases ps.len() - i,
    {
        let p = &ps[i];
        let s = match &p.kind {
            GenericParamDefKind::Lifetime { outlives } => format_lifetime_param(&p.name, outlives),
            _ => p.name.clone(),
        };
        proof {
            assert(ps@.subrange(0, i + 1).drop_last() =~= ps@.subrange(0, i as int));
        }
        r.push(s);
        proof {
            assert(views(r@) =~= binder_texts(ps@.subrange(0, i + 1)));
        }
        i = i + 1;
    }
    proof {
        assert(ps@.subrange(0, ps@.len() as int) =~= ps@);
    }
    r
}

fn format_param(p: &GenericParamDef) -> (r: String)
    ensures
        r@ == param_text(*p),
    decreases p, 0nat,
{
    match &p.kind {
        GenericParamDefKind::Lifetime { outlives } => format_lifetime_param(&p.name, outlives),
        GenericParamDefKind::Type { bounds, default, is_synthetic } => {
            let mut s = p.name.clone();
            if bounds.len() > 0 {
                let parts = format_bounds(bounds);
                s.append(": ");
                s.append(join_strings(&parts, " + ").as_str());
            }
            match default {
                Some(t) => {
                    s.append(" = ");
                    s.append(format_type(t).as_str());
                },
                None => {},
            }
            s
        },
        GenericParamDefKind::Const { type_, default } => {
            let mut s = String::from_str("const ");
            s.append(p.name.as_str());
            s.append(": ");
            s.append(format_type(type_).as_str());
            match default {
                Some(d) => {
                    s.append(" = ");
                    s.append(d.as_str());
                },
                None => {},
            }
            s
        },
    }
}

fn format_params(ps: &Vec<GenericParamDef>) -> (r: Vec<String>)
    ensures
        views(r@) == param_texts(ps@),
    decreases ps, 1nat,
{
    let mut r: Vec<String> = Vec::new();
    let mut i: usize = 0;
    while i < ps.len()
        invariant
            i <= ps.len(),
            views(r@) == param_texts(ps@.subrange(0, i as int)),
        decreases ps.len() - i,
    {
        proof {
            assert(ps@.subrange(0, i + 1).drop_last() =~= ps@.subrange(0, i as int));
        }
        let p = &ps[i];
        let skip = match &p.kind {
            GenericParamDefKind::Type { is_synthetic, .. } => *is_synthetic,
            _ => false,
        };
        if !skip {
            let s = format_param(p);
            r.push(s);
            proof {
                assert(views(r@) =~= param_texts(ps@.subrange(0, i + 1)));
            }
        }
        i = i + 1;
    }
    proof {
        assert(ps@.subrange(0, ps@.len() as int) =~= ps@);
    }
    r
}

/// Renders a generic parameter list, or nothing when every parameter is
/// synthetic or there are none.
pub fn format_generics(g: &Generics) -> (r: String)
    ensures
        r@ == generics_text(*g),
{
    let parts = format_params(&g.params);
    if parts.len() == 0 {
        return String::new();
    }
    let mut s = String::from_str("<");
    s.append(join_strings(&parts, ", ").as_str());
    s.append(">");
    s
}

} // verus!
