//! Where an attribute stands in a tree, and what the walk makes of a use
//! of a class wherever it stands.

use crate::mapping::lookup;
use crate::rewrite::{
    class_attribute, finish_stmts, kept, lemma_rewrite_attrs_each, lemma_rewrite_exprs_each,
    lemma_rewrite_props_each, lemma_rewrite_stmts_each, prune, rewrite_attr, rewrite_attrs,
    rewrite_element, rewrite_expr, rewrite_exprs, rewrite_prop, rewrite_props, rewrite_stmt,
    rewrite_stmts, rewrite_var_decl, with_fallback, StyleContext,
};
use crate::syntax::{
    ExprView, JsxAttrNameView, JsxAttrValueView, JsxAttrView, JsxElementView, MemberPropView,
    ModuleItemView, PropertyView, StmtView, VarDeclView,
};
use vstd::prelude::*;

verus! {

pub open spec fn prop_holds(a: JsxAttrView, p: MemberPropView) -> bool
    decreases p,
{
    match p {
        MemberPropView::Computed(e) => expr_holds(a, *e),
        _ => false,
    }
}

/// The attribute stands in one of the expressions, at any depth.
pub open spec fn exprs_hold(a: JsxAttrView, es: Seq<ExprView>) -> bool
    decreases es,
{
    exists|i: int| 0 <= i < es.len() && expr_holds(a, #[trigger] es[i])
}

/// The attribute stands in the expression, at any depth.
pub open spec fn expr_holds(a: JsxAttrView, e: ExprView) -> bool
    decreases e,
{
    match e {
        ExprView::Ident(_) => false,
        ExprView::Str(_) => false,
        ExprView::Member { obj, prop } => expr_holds(a, *obj) || prop_holds(a, prop),
        ExprView::Template { quasis, exprs } => exprs_hold(a, exprs),
        ExprView::Object { props } => exists|i: int|
            0 <= i < props.len() && expr_holds(a, (#[trigger] props[i]).value),
        ExprView::Arrow { params, body } => expr_holds(a, *body),
        ExprView::Function { params, body } => list_holds(a, body),
        ExprView::Element(el) => element_holds(a, el),
        ExprView::Other { operands } => exprs_hold(a, operands),
    }
}

/// The attribute is `x` or stands in the value of `x`, at any depth.
pub open spec fn attr_holds(a: JsxAttrView, x: JsxAttrView) -> bool
    decreases x,
{
    x == a || match x.value {
        Some(JsxAttrValueView::Container(e)) => expr_holds(a, e),
        Some(JsxAttrValueView::Element(el)) => element_holds(a, el),
        _ => false,
    }
}

/// The attribute stands in the element, at any depth.
pub open spec fn element_holds(a: JsxAttrView, el: JsxElementView) -> bool
    decreases el,
{
    (exists|i: int| 0 <= i < el.attrs.len() && attr_holds(a, #[trigger] el.attrs[i]))
        || exprs_hold(a, el.children)
}

pub open spec fn var_decl_holds(a: JsxAttrView, d: VarDeclView) -> bool
    decreases d,
{
    match d.init {
        Some(e) => expr_holds(a, e),
        None => false,
    }
}

/// The attribute stands in the statement, at any depth.
pub open spec fn stmt_holds(a: JsxAttrView, s: StmtView) -> bool
    decreases s,
{
    match s {
        StmtView::Empty => false,
        StmtView::Expr(e) => expr_holds(a, e),
        StmtView::Var(d) => var_decl_holds(a, d),
        StmtView::Return(None) => false,
        StmtView::Return(Some(e)) => expr_holds(a, e),
        StmtView::Block(stmts) => list_holds(a, stmts),
        StmtView::Other { exprs, stmts } => exprs_hold(a, exprs) || list_holds(a, stmts),
    }
}

/// The attribute stands in one of the statements, at any depth.
pub open spec fn list_holds(a: JsxAttrView, stmts: Seq<StmtView>) -> bool
    decreases stmts,
{
    exists|i: int| 0 <= i < stmts.len() && stmt_holds(a, #[trigger] stmts[i])
}

/// The attribute stands in the module item, at any depth.
pub open spec fn item_holds(a: JsxAttrView, item: ModuleItemView) -> bool {
    match item {
        ModuleItemView::Import(_) => false,
        ModuleItemView::Export(decl) => var_decl_holds(a, decl),
        ModuleItemView::Stmt(stmt) => stmt_holds(a, stmt),
    }
}

/// The class attribute whose value is the member access `binding.key`.
pub open spec fn class_use(binding: Seq<char>, key: Seq<char>) -> JsxAttrView {
    JsxAttrView {
        name: JsxAttrNameView::Ident(class_attribute()),
        value: Some(
            JsxAttrValueView::Container(
                ExprView::Member {
                    obj: Box::new(ExprView::Ident(binding)),
                    prop: MemberPropView::Ident(key),
                },
            ),
        ),
    }
}

/// The class attribute whose value is the string `name`.
pub open spec fn class_name(name: Seq<char>) -> JsxAttrView {
    JsxAttrView {
        name: JsxAttrNameView::Ident(class_attribute()),
        value: Some(JsxAttrValueView::Str(name)),
    }
}

/// What a lemma of this file assumes: the style object is bound to
/// `binding`, and the table holds the class `key`.
pub open spec fn resolvable(ctx: StyleContext, binding: Seq<char>, key: Seq<char>) -> bool {
    ctx.binding == Some(binding) && lookup(ctx.entries, key) is Some
}

/// The class attribute that the use `binding.key` becomes.
pub open spec fn resolved(ctx: StyleContext, key: Seq<char>) -> JsxAttrView {
    class_name(lookup(ctx.entries, key)->Some_0.name)
}

proof fn lemma_prop_site(ctx: StyleContext, binding: Seq<char>, key: Seq<char>, p: MemberPropView)
    requires
        resolvable(ctx, binding, key),
        prop_holds(class_use(binding, key), p),
        rewrite_prop(ctx, p) is Ok,
    ensures
        prop_holds(resolved(ctx, key), rewrite_prop(ctx, p)->Ok_0.0),
    decreases p, 0nat,
{
    match p {
        MemberPropView::Computed(e) => lemma_resolved_in_expr(ctx, binding, key, *e),
        _ => {},
    }
}

proof fn lemma_exprs_site(ctx: StyleContext, binding: Seq<char>, key: Seq<char>, es: Seq<ExprView>)
    requires
        resolvable(ctx, binding, key),
        exprs_hold(class_use(binding, key), es),
        rewrite_exprs(ctx, es, es.len()) is Ok,
    ensures
        exprs_hold(resolved(ctx, key), rewrite_exprs(ctx, es, es.len())->Ok_0.0),
    decreases es, 0nat,
{
    let out = rewrite_exprs(ctx, es, es.len())->Ok_0.0;
    let i = choose|i: int|
        0 <= i < es.len() && expr_holds(class_use(binding, key), #[trigger] es[i]);
    lemma_rewrite_exprs_each(ctx, es, es.len());
    assert(rewrite_expr(ctx, es[i]) is Ok);
    lemma_resolved_in_expr(ctx, binding, key, es[i]);
    assert(expr_holds(resolved(ctx, key), out[i]));
}

proof fn lemma_props_site(
    ctx: StyleContext,
    binding: Seq<char>,
    key: Seq<char>,
    ps: Seq<PropertyView>,
)
    requires
        resolvable(ctx, binding, key),
        exists|i: int|
            0 <= i < ps.len() && expr_holds(class_use(binding, key), (#[trigger] ps[i]).value),
        rewrite_props(ctx, ps, ps.len()) is Ok,
    ensures
        exists|i: int|
            0 <= i < rewrite_props(ctx, ps, ps.len())->Ok_0.0.len() && expr_holds(
                resolved(ctx, key),
                (#[trigger] rewrite_props(ctx, ps, ps.len())->Ok_0.0[i]).value,
            ),
    decreases ps, 0nat,
{
    let out = rewrite_props(ctx, ps, ps.len())->Ok_0.0;
    let i = choose|i: int|
        0 <= i < ps.len() && expr_holds(class_use(binding, key), (#[trigger] ps[i]).value);
    lemma_rewrite_props_each(ctx, ps, ps.len());
    assert(rewrite_expr(ctx, ps[i].value) is Ok);
    lemma_resolved_in_expr(ctx, binding, key, ps[i].value);
    assert(expr_holds(resolved(ctx, key), out[i].value));
}

/// Where a use of a class of the table stands in an expression, at any
/// depth, the class attribute with the scoped name stands in what the walk
/// gives.
pub proof fn lemma_resolved_in_expr(
    ctx: StyleContext,
    binding: Seq<char>,
    key: Seq<char>,
    e: ExprView,
)
    requires
        resolvable(ctx, binding, key),
        expr_holds(class_use(binding, key), e),
        rewrite_expr(ctx, e) is Ok,
    ensures
        expr_holds(resolved(ctx, key), rewrite_expr(ctx, e)->Ok_0.0),
    decreases e, 0nat,
{
    match e {
        ExprView::Ident(_) => {},
        ExprView::Str(_) => {},
        ExprView::Member { obj, prop } => {
            if expr_holds(class_use(binding, key), *obj) {
                lemma_resolved_in_expr(ctx, binding, key, *obj);
            } else {
                lemma_prop_site(ctx, binding, key, prop);
            }
        },
        ExprView::Template { quasis, exprs } => lemma_exprs_site(ctx, binding, key, exprs),
        ExprView::Object { props } => lemma_props_site(ctx, binding, key, props),
        ExprView::Arrow { params, body } => lemma_resolved_in_expr(ctx, binding, key, *body),
        ExprView::Function { params, body } => lemma_resolved_in_list(ctx, binding, key, body),
        ExprView::Element(el) => lemma_element_site(ctx, binding, key, el),
        ExprView::Other { operands } => lemma_exprs_site(ctx, binding, key, operands),
    }
}

/// Whether the expression is the access of a member by name on a name.
pub open spec fn is_member_of_name(e: ExprView) -> bool {
    e matches ExprView::Member { obj, prop } && *obj is Ident && prop is Ident
}

/// An expression that the walk turns into the access of a member by name
/// on a name is itself such an access, and holds no attribute.
proof fn lemma_member_access_holds_nothing(ctx: StyleContext, a: JsxAttrView, e: ExprView)
    requires
        rewrite_expr(ctx, e) is Ok,
    ensures
        is_member_of_name(rewrite_expr(ctx, e)->Ok_0.0) ==> !expr_holds(a, e),
{
    match e {
        ExprView::Member { obj, prop } => {
            let obj2 = rewrite_expr(ctx, *obj)->Ok_0.0;
            let prop2 = rewrite_prop(ctx, prop)->Ok_0.0;
            assert(rewrite_expr(ctx, *obj) is Ok && rewrite_prop(ctx, prop) is Ok);
            assert(rewrite_expr(ctx, e)->Ok_0.0 == ExprView::Member {
                obj: Box::new(obj2),
                prop: prop2,
            });
            if obj2 is Ident && prop2 is Ident {
                assert(*obj is Ident);
                assert(prop is Ident);
                assert(!expr_holds(a, *obj));
                assert(!prop_holds(a, prop));
            }
        },
        _ => {},
    }
}

proof fn lemma_attr_site(ctx: StyleContext, binding: Seq<char>, key: Seq<char>, x: JsxAttrView)
    requires
        resolvable(ctx, binding, key),
        attr_holds(class_use(binding, key), x),
        rewrite_attr(ctx, x) is Ok,
    ensures
        attr_holds(resolved(ctx, key), rewrite_attr(ctx, x)->Ok_0.0),
    decreases x, 0nat,
{
    if x == class_use(binding, key) {
    } else {
        match x.value {
            Some(JsxAttrValueView::Container(e)) => {
                lemma_resolved_in_expr(ctx, binding, key, e);
                // What holds an attribute is no bare member access, so the
                // attribute around it is no use of a class and keeps its
                // value.
                lemma_member_access_holds_nothing(ctx, class_use(binding, key), e);
            },
            Some(JsxAttrValueView::Element(el)) => lemma_element_site(ctx, binding, key, el),
            _ => {},
        }
    }
}

proof fn lemma_element_site(
    ctx: StyleContext,
    binding: Seq<char>,
    key: Seq<char>,
    el: JsxElementView,
)
    requires
        resolvable(ctx, binding, key),
        element_holds(class_use(binding, key), el),
        rewrite_element(ctx, el) is Ok,
    ensures
        element_holds(resolved(ctx, key), rewrite_element(ctx, el)->Ok_0.0),
    decreases el, 0nat,
{
    let site = class_use(binding, key);
    if exists|i: int| 0 <= i < el.attrs.len() && attr_holds(site, #[trigger] el.attrs[i]) {
        let i = choose|i: int| 0 <= i < el.attrs.len() && attr_holds(site, #[trigger] el.attrs[i]);
        let attrs = rewrite_attrs(ctx, el.attrs, el.attrs.len())->Ok_0.0;
        lemma_rewrite_attrs_each(ctx, el.attrs, el.attrs.len());
        assert(rewrite_attr(ctx, el.attrs[i]) is Ok);
        lemma_attr_site(ctx, binding, key, el.attrs[i]);
        let el2 = rewrite_element(ctx, el)->Ok_0.0;
        assert(el2.attrs == attrs);
        assert(attr_holds(resolved(ctx, key), el2.attrs[i]));
    } else {
        lemma_exprs_site(ctx, binding, key, el.children);
    }
}

/// Where a use of a class of the table stands in the value that a
/// variable is declared with, at any depth, the class attribute with the
/// scoped name stands in what the walk gives.
pub proof fn lemma_resolved_in_var_decl(
    ctx: StyleContext,
    binding: Seq<char>,
    key: Seq<char>,
    d: VarDeclView,
)
    requires
        resolvable(ctx, binding, key),
        var_decl_holds(class_use(binding, key), d),
        rewrite_var_decl(ctx, d) is Ok,
    ensures
        var_decl_holds(resolved(ctx, key), rewrite_var_decl(ctx, d)->Ok_0.0),
    decreases d, 0nat,
{
    match d.init {
        Some(e) => lemma_resolved_in_expr(ctx, binding, key, e),
        None => {},
    }
}

/// Where a use of a class of the table stands in a statement, at any
/// depth, the class attribute with the scoped name stands in what the walk
/// gives.
pub proof fn lemma_resolved_in_stmt(
    ctx: StyleContext,
    binding: Seq<char>,
    key: Seq<char>,
    s: StmtView,
)
    requires
        resolvable(ctx, binding, key),
        stmt_holds(class_use(binding, key), s),
        rewrite_stmt(ctx, s) is Ok,
    ensures
        stmt_holds(resolved(ctx, key), rewrite_stmt(ctx, s)->Ok_0.0),
    decreases s, 0nat,
{
    match s {
        StmtView::Empty => {},
        StmtView::Expr(e) => lemma_resolved_in_expr(ctx, binding, key, e),
        StmtView::Var(d) => lemma_resolved_in_var_decl(ctx, binding, key, d),
        StmtView::Return(None) => {},
        StmtView::Return(Some(e)) => lemma_resolved_in_expr(ctx, binding, key, e),
        StmtView::Block(stmts) => lemma_resolved_in_list(ctx, binding, key, stmts),
        StmtView::Other { exprs, stmts } => {
            if exprs_hold(class_use(binding, key), exprs) {
                lemma_exprs_site(ctx, binding, key, exprs);
            } else {
                lemma_stmts_site(ctx, binding, key, stmts);
            }
        },
    }
}

proof fn lemma_stmts_site(
    ctx: StyleContext,
    binding: Seq<char>,
    key: Seq<char>,
    stmts: Seq<StmtView>,
)
    requires
        resolvable(ctx, binding, key),
        list_holds(class_use(binding, key), stmts),
        rewrite_stmts(ctx, stmts, stmts.len()) is Ok,
    ensures
        list_holds(resolved(ctx, key), rewrite_stmts(ctx, stmts, stmts.len())->Ok_0.0),
    decreases stmts, 0nat,
{
    let out = rewrite_stmts(ctx, stmts, stmts.len())->Ok_0.0;
    let i = choose|i: int|
        0 <= i < stmts.len() && stmt_holds(class_use(binding, key), #[trigger] stmts[i]);
    lemma_rewrite_stmts_each(ctx, stmts, stmts.len());
    assert(rewrite_stmt(ctx, stmts[i]) is Ok);
    lemma_resolved_in_stmt(ctx, binding, key, stmts[i]);
    assert(stmt_holds(resolved(ctx, key), out[i]));
}

/// Where a use of a class of the table stands in a statement list, at any
/// depth, the class attribute with the scoped name stands in the list that
/// the transform gives.
pub proof fn lemma_resolved_in_list(
    ctx: StyleContext,
    binding: Seq<char>,
    key: Seq<char>,
    stmts: Seq<StmtView>,
)
    requires
        resolvable(ctx, binding, key),
        list_holds(class_use(binding, key), stmts),
        finish_stmts(ctx, stmts) is Ok,
    ensures
        list_holds(resolved(ctx, key), finish_stmts(ctx, stmts)->Ok_0),
    decreases stmts, 1nat,
{
    let site = class_use(binding, key);
    let walked = rewrite_stmts(ctx, stmts, stmts.len())->Ok_0;
    let full = with_fallback(ctx.entries, walked.0, walked.1);
    let out = prune(full);
    lemma_stmts_site(ctx, binding, key, stmts);
    let i = choose|i: int|
        0 <= i < walked.0.len() && stmt_holds(resolved(ctx, key), #[trigger] walked.0[i]);
    lemma_rewrite_stmts_each(ctx, stmts, stmts.len());
    assert(full[i] == walked.0[i]);
    assert(stmt_holds(resolved(ctx, key), full[i]));
    assert(kept()(full[i]));
    full.lemma_filter_contains(kept(), i);
    let k = choose|k: int| 0 <= k < out.len() && out[k] == full[i];
    assert(stmt_holds(resolved(ctx, key), out[k]));
}

} // verus!
