use vstd::prelude::*;
use crate::class::{Class, Context};
use crate::fragment::{Frag, SpanToken, frags_of, one, push_tok};
use crate::tree::{Crate, Generics, Item, ItemKind, ModPath, PathSegment, Ty, ViewItem, ViewItemKind, ViewPath};

verus! {

broadcast use vstd::std_specs::vec::group_vec_axioms, vstd::seq::group_seq_axioms;

/// An operator fragment.
pub open spec fn op(s: Seq<char>) -> Seq<Frag> {
    one(Class::Operator, s)
}

/// A keyword fragment.
pub open spec fn kw(s: Seq<char>) -> Seq<Frag> {
    one(Class::Keyword, s)
}

/// A leading `::` for a global path.
pub open spec fn global_frags(global: bool) -> Seq<Frag> {
    if global {
        op("::"@)
    } else {
        Seq::empty()
    }
}

/// Names of class `c`, with a comma between each two.
pub open spec fn names_frags(c: Class, names: Seq<String>) -> Seq<Frag>
    decreases names.len(),
{
    if names.len() == 0 {
        Seq::empty()
    } else if names.len() == 1 {
        one(c, names[0]@)
    } else {
        names_frags(c, names.drop_last()) + op(","@) + one(c, names.last()@)
    }
}

/// A non-empty list of names alternates name and comma: exactly one comma
/// between each two names, none before the first or after the last.
pub proof fn lemma_separator_policy(c: Class, names: Seq<String>)
    requires
        names.len() > 0,
    ensures
        names_frags(c, names).len() == 2 * names.len() - 1,
        forall|i: int| 0 <= i < names.len() ==> names_frags(c, names)[2 * i] == (c, #[trigger] names[i]@),
        forall|i: int|
            0 <= i < names.len() - 1 ==> #[trigger] names_frags(c, names)[2 * i + 1] == (Class::Operator, ","@),
    decreases names.len(),
{
    if names.len() > 1 {
        let init = names.drop_last();
        lemma_separator_policy(c, init);
        let f = names_frags(c, names);
        let g = names_frags(c, init);
        assert(f == g + op(","@) + one(c, names.last()@));
        assert forall|i: int| 0 <= i < names.len() implies f[2 * i] == (c, #[trigger] names[i]@) by {
            if i < names.len() - 1 {
                assert(init[i] == names[i]);
                assert(f[2 * i] == g[2 * i]);
            }
        }
        assert forall|i: int| 0 <= i < names.len() - 1 implies #[trigger] f[2 * i + 1] == (
            Class::Operator,
            ","@,
        ) by {
            if i < names.len() - 2 {
                assert(f[2 * i + 1] == g[2 * i + 1]);
            }
        }
    }
}

/// Plain path segments, each followed by `::`.
pub open spec fn prefix_frags(ids: Seq<Seq<char>>) -> Seq<Frag>
    decreases ids.len(),
{
    if ids.len() == 0 {
        Seq::empty()
    } else {
        prefix_frags(ids.drop_last()) + one(Class::Default, ids.last()) + op("::"@)
    }
}

/// The identifiers of type path segments.
pub open spec fn seg_ids(segs: Seq<PathSegment>) -> Seq<Seq<char>> {
    segs.map_values(|s: PathSegment| s.identifier@)
}

/// The texts of a list of strings.
pub open spec fn str_ids(segs: Seq<String>) -> Seq<Seq<char>> {
    segs.map_values(|s: String| s@)
}

/// The class of a named type in the given context.
pub open spec fn type_class(ctx: Context) -> Class {
    match ctx {
        Context::Declaration => Class::TyDecl,
        Context::Reference => Class::Type,
    }
}

/// The class of a lifetime parameter in the given context.
pub open spec fn lifetime_class(ctx: Context) -> Class {
    match ctx {
        Context::Declaration => Class::LifeTimeDecl,
        Context::Reference => Class::LifeTime,
    }
}

/// The class of a type parameter in the given context.
pub open spec fn gen_class(ctx: Context) -> Class {
    match ctx {
        Context::Declaration => Class::GenDecl,
        Context::Reference => Class::Gen,
    }
}

/// Fragments of a parameter list: nothing at all when it has no lifetime and
/// no type parameter.
pub open spec fn generics_frags(g: Generics, ctx: Context) -> Seq<Frag> {
    let lts = g.lifetimes@;
    let tps = g.ty_params@;
    if lts.len() == 0 && tps.len() == 0 {
        Seq::empty()
    } else {
        op("<"@) + names_frags(lifetime_class(ctx), lts) + (if lts.len() > 0 && tps.len() > 0 {
            op(","@)
        } else {
            Seq::empty()
        }) + names_frags(gen_class(ctx), tps) + op(">"@)
    }
}

/// A parameter list with no lifetime and no type parameter gives no
/// fragment at all, in particular no angle bracket.
pub proof fn lemma_empty_generics_omitted(g: Generics, ctx: Context)
    requires
        g.lifetimes@.len() == 0,
        g.ty_params@.len() == 0,
    ensures
        generics_frags(g, ctx) == Seq::<Frag>::empty(),
{
}

/// Fragments of a type in the given context. Only the last segment of a path
/// depends on the context; what is nested in a type is a reference.
pub open spec fn ty_frags(t: Ty, ctx: Context) -> Seq<Frag>
    decreases t, 0int,
{
    match t {
        Ty::Vec(b) => op("["@) + ty_frags(*b, Context::Reference) + op("]"@),
        Ty::FixedLengthVec(b, n) => op("["@) + ty_frags(*b, Context::Reference) + op(","@) + op(
            ".."@,
        ) + one(Class::NumberLit, n@) + op("]"@),
        Ty::Path(p) => {
            let segs = p.segments@;
            global_frags(p.global) + if segs.len() == 0 {
                Seq::empty()
            } else {
                let last = segs.last();
                let args = last.types@;
                prefix_frags(seg_ids(segs.drop_last())) + one(type_class(ctx), last.identifier@)
                    + if args.len() == 0 {
                    Seq::empty()
                } else {
                    op("<"@) + args_frags(args, args.len() as int) + op(">"@)
                }
            }
        },
        Ty::Verbatim(s) => one(Class::Default, s@),
    }
}

/// The first `k` type arguments, each a reference, with a comma between each
/// two.
pub open spec fn args_frags(tys: Seq<Ty>, k: int) -> Seq<Frag>
    decreases tys, k,
{
    if k <= 0 || k > tys.len() {
        Seq::empty()
    } else if k == 1 {
        ty_frags(tys[0], Context::Reference)
    } else {
        args_frags(tys, k - 1) + op(","@) + ty_frags(tys[k - 1], Context::Reference)
    }
}

/// Appends names of class `c`, with a comma between each two.
pub fn push_names(out: &mut Vec<SpanToken>, c: Class, names: &Vec<String>)
    ensures
        frags_of(final(out)@) == frags_of(old(out)@) + names_frags(c, names@),
{
    let ghost start = frags_of(out@);
    let mut k: usize = 0;
    assert(names@.take(0).len() == 0);
    assert(start + Seq::<Frag>::empty() =~= start);
    while k < names.len()
        invariant
            k <= names@.len(),
            frags_of(out@) == start + names_frags(c, names@.take(k as int)),
        decreases names@.len() - k,
    {
        let ghost before = frags_of(out@);
        if k > 0 {
            push_tok(out, Class::Operator, ",");
        }
        push_tok(out, c, names[k].as_str());
        proof {
            let t = names@.take(k + 1);
            assert(t.drop_last() =~= names@.take(k as int));
            assert(t.last() == names@[k as int]);
            if k == 0 {
                assert(t[0] == names@[0]);
                assert(frags_of(out@) =~= start + names_frags(c, t));
            } else {
                assert(frags_of(out@) =~= start + names_frags(c, t));
            }
        }
        k += 1;
    }
    assert(names@.take(k as int) =~= names@);
}

/// Appends the first `upto` segments of a module path, each followed by `::`.
pub fn push_prefix_strs(out: &mut Vec<SpanToken>, segs: &Vec<String>, upto: usize)
    requires
        upto <= segs@.len(),
    ensures
        frags_of(final(out)@) == frags_of(old(out)@) + prefix_frags(str_ids(segs@.take(upto as int))),
{
    let ghost start = frags_of(out@);
    let mut k: usize = 0;
    assert(str_ids(segs@.take(0)).len() == 0);
    assert(start + Seq::<Frag>::empty() =~= start);
    while k < upto
        invariant
            upto <= segs@.len(),
            k <= upto,
            frags_of(out@) == start + prefix_frags(str_ids(segs@.take(k as int))),
        decreases upto - k,
    {
        push_tok(out, Class::Default, segs[k].as_str());
        push_tok(out, Class::Operator, "::");
        proof {
            let t = str_ids(segs@.take(k + 1));
            assert(t.drop_last() =~= str_ids(segs@.take(k as int)));
            assert(t.last() == segs@[k as int]@);
            assert(frags_of(out@) =~= start + prefix_frags(t));
        }
        k += 1;
    }
}

/// Appends the first `upto` segments of a type path, each followed by `::`.
pub fn push_prefix_segs(out: &mut Vec<SpanToken>, segs: &Vec<PathSegment>, upto: usize)
    requires
        upto <= segs@.len(),
    ensures
        frags_of(final(out)@) == frags_of(old(out)@) + prefix_frags(seg_ids(segs@.take(upto as int))),
{
    let ghost start = frags_of(out@);
    let mut k: usize = 0;
    assert(seg_ids(segs@.take(0)).len() == 0);
    assert(start + Seq::<Frag>::empty() =~= start);
    while k < upto
        invariant
            upto <= segs@.len(),
            k <= upto,
            frags_of(out@) == start + prefix_frags(seg_ids(segs@.take(k as int))),
        decreases upto - k,
    {
        push_tok(out, Class::Default, segs[k].identifier.as_str());
        push_tok(out, Class::Operator, "::");
        proof {
            let t = seg_ids(segs@.take(k + 1));
            assert(t.drop_last() =~= seg_ids(segs@.take(k as int)));
            assert(t.last() == segs@[k as int].identifier@);
            assert(frags_of(out@) =~= start + prefix_frags(t));
        }
        k += 1;
    }
}

/// Appends a parameter list, classified by the context.
pub fn classify_generics(g: &Generics, ctx: Context, out: &mut Vec<SpanToken>)
    ensures
        frags_of(final(out)@) == frags_of(old(out)@) + generics_frags(*g, ctx),
{
    let ghost start = frags_of(out@);
    let nl = g.lifetimes.len();
    let nt = g.ty_params.len();
    if nl == 0 && nt == 0 {
        assert(start + Seq::<Frag>::empty() =~= start);
        return;
    }
    let (lc, gc) = match ctx {
        Context::Declaration => (Class::LifeTimeDecl, Class::GenDecl),
        Context::Reference => (Class::LifeTime, Class::Gen),
    };
    push_tok(out, Class::Operator, "<");
    let ghost a = frags_of(out@);
    push_names(out, lc, &g.lifetimes);
    let ghost b = frags_of(out@);
    if nl > 0 && nt > 0 {
        push_tok(out, Class::Operator, ",");
    }
    let ghost c = frags_of(out@);
    assert(c == b + (if nl > 0 && nt > 0 { op(","@) } else { Seq::<Frag>::empty() })) by {
        assert(b + Seq::<Frag>::empty() =~= b);
    }
    push_names(out, gc, &g.ty_params);
    push_tok(out, Class::Operator, ">");
    assert(frags_of(out@) =~= start + generics_frags(*g, ctx));
}

/// Attribute fragments, one per attribute.
pub open spec fn attrs_frags(attrs: Seq<String>) -> Seq<Frag>
    decreases attrs.len(),
{
    if attrs.len() == 0 {
        Seq::empty()
    } else {
        attrs_frags(attrs.drop_last()) + one(Class::Attribute, attrs.last()@)
    }
}

/// `pub` where the item is public.
pub open spec fn vis_frags(public: bool) -> Seq<Frag> {
    if public {
        kw("pub"@)
    } else {
        Seq::empty()
    }
}

/// A module path with every segment followed by `::`.
pub open spec fn mod_prefix_frags(p: ModPath) -> Seq<Frag> {
    global_frags(p.global) + prefix_frags(str_ids(p.segments@))
}

/// Fragments of what an import brings into scope: the names it introduces
/// are declarations, the path before them plain segments.
pub open spec fn view_path_frags(vp: ViewPath) -> Seq<Frag> {
    match vp {
        ViewPath::Simple(p, rename) => {
            let segs = p.segments@;
            global_frags(p.global) + if segs.len() == 0 {
                Seq::empty()
            } else {
                prefix_frags(str_ids(segs.drop_last())) + match rename {
                    None => one(Class::UseDecl, segs.last()@),
                    Some(r) => one(Class::Default, segs.last()@) + kw("as"@) + one(
                        Class::UseDecl,
                        r@,
                    ),
                }
            }
        },
        ViewPath::Glob(p) => mod_prefix_frags(p) + one(Class::UseDecl, "*"@),
        ViewPath::List(p, names) => mod_prefix_frags(p) + op("{"@) + names_frags(
            Class::UseDecl,
            names@,
        ) + op("}"@),
    }
}

/// Fragments of an import or crate reference.
pub open spec fn view_item_frags(v: ViewItem) -> Seq<Frag> {
    attrs_frags(v.attrs@) + vis_frags(v.public) + match v.node {
        ViewItemKind::ExternCrate(name) => kw("extern"@) + kw("crate"@) + one(
            Class::CrateDecl,
            name@,
        ) + op(";"@),
        ViewItemKind::Use(vp) => kw("use"@) + view_path_frags(vp) + op(";"@),
    }
}

/// Fragments of an item. A type alias declares its name and its parameters;
/// its body is a reference.
pub open spec fn item_frags(i: Item) -> Seq<Frag> {
    attrs_frags(i.attrs@) + vis_frags(i.public) + match i.node {
        ItemKind::Ty(t, g) => kw("type"@) + one(Class::TyDecl, i.ident@) + generics_frags(
            g,
            Context::Declaration,
        ) + op("="@) + ty_frags(t, Context::Reference) + op(";"@),
        ItemKind::Verbatim(s) => one(Class::Default, s@),
    }
}

/// Fragments of a list of imports, in order.
pub open spec fn view_items_frags(vs: Seq<ViewItem>) -> Seq<Frag>
    decreases vs.len(),
{
    if vs.len() == 0 {
        Seq::empty()
    } else {
        view_items_frags(vs.drop_last()) + view_item_frags(vs.last())
    }
}

/// Fragments of a list of items, in order.
pub open spec fn items_frags(is: Seq<Item>) -> Seq<Frag>
    decreases is.len(),
{
    if is.len() == 0 {
        Seq::empty()
    } else {
        items_frags(is.drop_last()) + item_frags(is.last())
    }
}

/// Fragments of a compilation unit: its imports, then its items.
pub open spec fn crate_frags(c: Crate) -> Seq<Frag> {
    view_items_frags(c.view_items@) + items_frags(c.items@)
}

/// Appends the fragments of a type in the given context.
#[verifier::rlimit(60)]
pub fn classify_ty(t: &Ty, ctx: Context, out: &mut Vec<SpanToken>)
    ensures
        frags_of(final(out)@) == frags_of(old(out)@) + ty_frags(*t, ctx),
    decreases t, 0int,
{
    let ghost start = frags_of(out@);
    match t {
        Ty::Vec(b) => {
            push_tok(out, Class::Operator, "[");
            classify_ty(b, Context::Reference, out);
            push_tok(out, Class::Operator, "]");
            assert(frags_of(out@) =~= start + ty_frags(*t, ctx));
        },
        Ty::FixedLengthVec(b, n) => {
            push_tok(out, Class::Operator, "[");
            classify_ty(b, Context::Reference, out);
            push_tok(out, Class::Operator, ",");
            push_tok(out, Class::Operator, "..");
            push_tok(out, Class::NumberLit, n.as_str());
            push_tok(out, Class::Operator, "]");
            assert(frags_of(out@) =~= start + ty_frags(*t, ctx));
        },
        Ty::Path(p) => {
            if p.global {
                push_tok(out, Class::Operator, "::");
            }
            let ghost g = frags_of(out@);
            assert(g == start + global_frags(p.global)) by {
                assert(start + Seq::<Frag>::empty() =~= start);
            }
            let n = p.segments.len();
            if n == 0 {
                assert(frags_of(out@) =~= start + ty_frags(*t, ctx));
                return;
            }
            push_prefix_segs(out, &p.segments, n - 1);
            assert(p.segments@.take(n - 1) =~= p.segments@.drop_last());
            let last = &p.segments[n - 1];
            let cls = match ctx {
                Context::Declaration => Class::TyDecl,
                Context::Reference => Class::Type,
            };
            push_tok(out, cls, last.identifier.as_str());
            let ghost h = frags_of(out@);
            let m = last.types.len();
            if m == 0 {
                assert(frags_of(out@) =~= start + ty_frags(*t, ctx));
                return;
            }
            push_tok(out, Class::Operator, "<");
            let ghost a = frags_of(out@);
            let mut k: usize = 0;
            while k < m
                invariant
                    *t == Ty::Path(*p),
                    n == p.segments@.len(),
                    n > 0,
                    *last == p.segments@[n - 1],
                    m == last.types@.len(),
                    k <= m,
                    frags_of(out@) == a + args_frags(last.types@, k as int),
                decreases m - k,
            {
                if k > 0 {
                    push_tok(out, Class::Operator, ",");
                }
                proof {
                    vstd::std_specs::vec::axiom_vec_index_decreases(p.segments, n - 1);
                    vstd::std_specs::vec::axiom_vec_index_decreases(last.types, k as int);
                    let tp = (*t)->Path_0;
                    assert(decreases_to!(*t => tp));
                    assert(decreases_to!(tp => tp.segments));
                    assert(tp.segments == p.segments);
                    assert(decreases_to!(p.segments => *last));
                    assert(decreases_to!(*last => last.types));
                    assert(decreases_to!(last.types => last.types@[k as int]));
                    assert(decreases_to!(*t => last.types@[k as int]));
                }
                classify_ty(&last.types[k], Context::Reference, out);
                assert(frags_of(out@) =~= a + args_frags(last.types@, k + 1));
                k += 1;
            }
            push_tok(out, Class::Operator, ">");
            assert(frags_of(out@) =~= start + ty_frags(*t, ctx));
        },
        Ty::Verbatim(s) => {
            push_tok(out, Class::Default, s.as_str());
            assert(frags_of(out@) =~= start + ty_frags(*t, ctx));
        },
    }
}

/// Appends one attribute fragment per attribute.
pub fn push_attrs(out: &mut Vec<SpanToken>, attrs: &Vec<String>)
    ensures
        frags_of(final(out)@) == frags_of(old(out)@) + attrs_frags(attrs@),
{
    let ghost start = frags_of(out@);
    let mut k: usize = 0;
    assert(start + Seq::<Frag>::empty() =~= start);
    assert(attrs@.take(0).len() == 0);
    while k < attrs.len()
        invariant
            k <= attrs@.len(),
            frags_of(out@) == start + attrs_frags(attrs@.take(k as int)),
        decreases attrs@.len() - k,
    {
        push_tok(out, Class::Attribute, attrs[k].as_str());
        proof {
            let t = attrs@.take(k + 1);
            assert(t.drop_last() =~= attrs@.take(k as int));
            assert(t.last() == attrs@[k as int]);
            assert(frags_of(out@) =~= start + attrs_frags(t));
        }
        k += 1;
    }
    assert(attrs@.take(k as int) =~= attrs@);
}

/// Appends `pub` where `public` holds.
pub fn push_vis(out: &mut Vec<SpanToken>, public: bool)
    ensures
        frags_of(final(out)@) == frags_of(old(out)@) + vis_frags(public),
{
    if public {
        push_tok(out, Class::Keyword, "pub");
    } else {
        assert(frags_of(out@) + Seq::<Frag>::empty() =~= frags_of(out@));
    }
}

/// Appends a leading `::` where `global` holds.
pub fn push_global(out: &mut Vec<SpanToken>, global: bool)
    ensures
        frags_of(final(out)@) == frags_of(old(out)@) + global_frags(global),
{
    if global {
        push_tok(out, Class::Operator, "::");
    } else {
        assert(frags_of(out@) + Seq::<Frag>::empty() =~= frags_of(out@));
    }
}

/// Appends the fragments of what an import brings into scope.
pub fn classify_view_path(vp: &ViewPath, out: &mut Vec<SpanToken>)
    ensures
        frags_of(final(out)@) == frags_of(old(out)@) + view_path_frags(*vp),
{
    let ghost start = frags_of(out@);
    match vp {
        ViewPath::Simple(p, rename) => {
            push_global(out, p.global);
            let n = p.segments.len();
            if n == 0 {
                assert(frags_of(out@) =~= start + view_path_frags(*vp));
                return;
            }
            push_prefix_strs(out, &p.segments, n - 1);
            assert(p.segments@.take(n - 1) =~= p.segments@.drop_last());
            match rename {
                None => {
                    push_tok(out, Class::UseDecl, p.segments[n - 1].as_str());
                },
                Some(r) => {
                    push_tok(out, Class::Default, p.segments[n - 1].as_str());
                    push_tok(out, Class::Keyword, "as");
                    push_tok(out, Class::UseDecl, r.as_str());
                },
            }
            assert(frags_of(out@) =~= start + view_path_frags(*vp));
        },
        ViewPath::Glob(p) => {
            push_global(out, p.global);
            push_prefix_strs(out, &p.segments, p.segments.len());
            assert(p.segments@.take(p.segments@.len() as int) =~= p.segments@);
            push_tok(out, Class::UseDecl, "*");
            assert(frags_of(out@) =~= start + view_path_frags(*vp));
        },
        ViewPath::List(p, names) => {
            push_global(out, p.global);
            push_prefix_strs(out, &p.segments, p.segments.len());
            assert(p.segments@.take(p.segments@.len() as int) =~= p.segments@);
            push_tok(out, Class::Operator, "{");
            push_names(out, Class::UseDecl, names);
            push_tok(out, Class::Operator, "}");
            assert(frags_of(out@) =~= start + view_path_frags(*vp));
        },
    }
}

/// Appends the fragments of an import or crate reference.
pub fn classify_view_item(v: &ViewItem, out: &mut Vec<SpanToken>)
    ensures
        frags_of(final(out)@) == frags_of(old(out)@) + view_item_frags(*v),
{
    let ghost start = frags_of(out@);
    push_attrs(out, &v.attrs);
    push_vis(out, v.public);
    match &v.node {
        ViewItemKind::ExternCrate(name) => {
            push_tok(out, Class::Keyword, "extern");
            push_tok(out, Class::Keyword, "crate");
            push_tok(out, Class::CrateDecl, name.as_str());
            push_tok(out, Class::Operator, ";");
        },
        ViewItemKind::Use(vp) => {
            push_tok(out, Class::Keyword, "use");
            classify_view_path(vp, out);
            push_tok(out, Class::Operator, ";");
        },
    }
    assert(frags_of(out@) =~= start + view_item_frags(*v));
}

/// Appends the fragments of an item.
pub fn classify_item(i: &Item, out: &mut Vec<SpanToken>)
    ensures
        frags_of(final(out)@) == frags_of(old(out)@) + item_frags(*i),
{
    let ghost start = frags_of(out@);
    push_attrs(out, &i.attrs);
    push_vis(out, i.public);
    match &i.node {
        ItemKind::Ty(t, g) => {
            push_tok(out, Class::Keyword, "type");
            push_tok(out, Class::TyDecl, i.ident.as_str());
            classify_generics(g, Context::Declaration, out);
            push_tok(out, Class::Operator, "=");
            classify_ty(t, Context::Reference, out);
            push_tok(out, Class::Operator, ";");
        },
        ItemKind::Verbatim(s) => {
            push_tok(out, Class::Default, s.as_str());
        },
    }
    assert(frags_of(out@) =~= start + item_frags(*i));
}

/// The fragments of a compilation unit, in source order.
pub fn classify_crate(c: &Crate) -> (r: Vec<SpanToken>)
    ensures
        frags_of(r@) == crate_frags(*c),
{
    let mut out: Vec<SpanToken> = Vec::new();
    let mut k: usize = 0;
    assert(frags_of(out@) =~= Seq::<Frag>::empty());
    assert(c.view_items@.take(0).len() == 0);
    while k < c.view_items.len()
        invariant
            k <= c.view_items@.len(),
            frags_of(out@) == view_items_frags(c.view_items@.take(k as int)),
        decreases c.view_items@.len() - k,
    {
        classify_view_item(&c.view_items[k], &mut out);
        proof {
            let t = c.view_items@.take(k + 1);
            assert(t.drop_last() =~= c.view_items@.take(k as int));
            assert(t.last() == c.view_items@[k as int]);
        }
        k += 1;
    }
    assert(c.view_items@.take(k as int) =~= c.view_items@);
    let ghost mid = frags_of(out@);
    let mut j: usize = 0;
    assert(mid + Seq::<Frag>::empty() =~= mid);
    assert(c.items@.take(0).len() == 0);
    while j < c.items.len()
        invariant
            j <= c.items@.len(),
            frags_of(out@) == mid + items_frags(c.items@.take(j as int)),
        decreases c.items@.len() - j,
    {
        classify_item(&c.items[j], &mut out);
        proof {
            let t = c.items@.take(j + 1);
            assert(t.drop_last() =~= c.items@.take(j as int));
            assert(t.last() == c.items@[j as int]);
            assert(frags_of(out@) =~= mid + items_frags(t));
        }
        j += 1;
    }
    assert(c.items@.take(j as int) =~= c.items@);
    out
}

} // verus!
