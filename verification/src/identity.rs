//! Where nothing is bound to a style object, the walk changes nothing in a
//! tree that has no empty statement in a list and no class attribute that
//! asks for the fallback object.

use crate::filter::lemma_filter_keeps_all;
use crate::loader::TransformErrorView;
use crate::rewrite::{
    finish_stmts, kept, rewrite_attr, rewrite_attrs, rewrite_element, rewrite_expr,
    rewrite_exprs, rewrite_prop, rewrite_props, rewrite_stmt, rewrite_stmts, rewrite_var_decl,
    Rewritten, StyleContext,
};
use crate::shape::{
    attr_has, element_has, expr_has, exprs_have, lemma_list_holds_stmts, list_has, prop_has,
    stmt_fits, stmt_has, stmts_have, var_decl_has, Shape,
};
use crate::syntax::{
    ExprView, JsxAttrValueView, JsxAttrView, JsxElementView, MemberPropView, PropertyView,
    StmtView, VarDeclView,
};
use vstd::prelude::*;

verus! {

proof fn lemma_prop_unchanged(ctx: StyleContext, p: MemberPropView)
    requires
        ctx.binding is None,
        prop_has(Shape::Pruned, p),
        prop_has(Shape::Plain, p),
    ensures
        rewrite_prop(ctx, p) == Rewritten::<MemberPropView>::Ok((p, false)),
    decreases p, 0nat,
{
    match p {
        MemberPropView::Computed(e) => lemma_expr_unchanged(ctx, *e),
        _ => {},
    }
}

proof fn lemma_exprs_unchanged(ctx: StyleContext, es: Seq<ExprView>, n: nat)
    requires
        ctx.binding is None,
        exprs_have(Shape::Pruned, es),
        exprs_have(Shape::Plain, es),
        n <= es.len(),
    ensures
        rewrite_exprs(ctx, es, n) == Rewritten::<Seq<ExprView>>::Ok((es.take(n as int), false)),
    decreases es, n,
{
    if n == 0 {
        assert(es.take(0) =~= Seq::empty());
    } else {
        lemma_exprs_unchanged(ctx, es, (n - 1) as nat);
        lemma_expr_unchanged(ctx, es[n - 1]);
        assert(es.take(n - 1).push(es[n - 1]) =~= es.take(n as int));
    }
}

proof fn lemma_props_unchanged(ctx: StyleContext, ps: Seq<PropertyView>, n: nat)
    requires
        ctx.binding is None,
        forall|i: int| 0 <= i < ps.len() ==> expr_has(Shape::Pruned, (#[trigger] ps[i]).value),
        forall|i: int| 0 <= i < ps.len() ==> expr_has(Shape::Plain, (#[trigger] ps[i]).value),
        n <= ps.len(),
    ensures
        rewrite_props(ctx, ps, n) == Rewritten::<Seq<PropertyView>>::Ok((ps.take(n as int), false)),
    decreases ps, n,
{
    if n == 0 {
        assert(ps.take(0) =~= Seq::empty());
    } else {
        lemma_props_unchanged(ctx, ps, (n - 1) as nat);
        lemma_expr_unchanged(ctx, ps[n - 1].value);
        assert(ps.take(n - 1).push(ps[n - 1]) =~= ps.take(n as int));
    }
}

/// The walk leaves such an expression as it is and asks for no fallback
/// object.
pub proof fn lemma_expr_unchanged(ctx: StyleContext, e: ExprView)
    requires
        ctx.binding is None,
        expr_has(Shape::Pruned, e),
        expr_has(Shape::Plain, e),
    ensures
        rewrite_expr(ctx, e) == Rewritten::<ExprView>::Ok((e, false)),
    decreases e, 0nat,
{
    match e {
        ExprView::Ident(_) => {},
        ExprView::Str(_) => {},
        ExprView::Member { obj, prop } => {
            lemma_expr_unchanged(ctx, *obj);
            lemma_prop_unchanged(ctx, prop);
        },
        ExprView::Template { quasis, exprs } => {
            lemma_exprs_unchanged(ctx, exprs, exprs.len());
            assert(exprs.take(exprs.len() as int) =~= exprs);
        },
        ExprView::Object { props } => {
            lemma_props_unchanged(ctx, props, props.len());
            assert(props.take(props.len() as int) =~= props);
        },
        ExprView::Arrow { params, body } => lemma_expr_unchanged(ctx, *body),
        ExprView::Function { params, body } => lemma_list_unchanged(ctx, body),
        ExprView::Element(el) => lemma_element_unchanged(ctx, el),
        ExprView::Other { operands } => {
            lemma_exprs_unchanged(ctx, operands, operands.len());
            assert(operands.take(operands.len() as int) =~= operands);
        },
    }
}

proof fn lemma_attr_unchanged(ctx: StyleContext, a: JsxAttrView)
    requires
        ctx.binding is None,
        attr_has(Shape::Pruned, a),
        attr_has(Shape::Plain, a),
    ensures
        rewrite_attr(ctx, a) == Rewritten::<JsxAttrView>::Ok((a, false)),
    decreases a, 0nat,
{
    match a.value {
        Some(JsxAttrValueView::Container(e)) => lemma_expr_unchanged(ctx, e),
        Some(JsxAttrValueView::Element(el)) => lemma_element_unchanged(ctx, el),
        _ => {},
    }
}

proof fn lemma_attrs_unchanged(ctx: StyleContext, attrs: Seq<JsxAttrView>, n: nat)
    requires
        ctx.binding is None,
        forall|i: int| 0 <= i < attrs.len() ==> attr_has(Shape::Pruned, #[trigger] attrs[i]),
        forall|i: int| 0 <= i < attrs.len() ==> attr_has(Shape::Plain, #[trigger] attrs[i]),
        n <= attrs.len(),
    ensures
        rewrite_attrs(ctx, attrs, n) == Rewritten::<Seq<JsxAttrView>>::Ok(
            (attrs.take(n as int), false),
        ),
    decreases attrs, n,
{
    if n == 0 {
        assert(attrs.take(0) =~= Seq::empty());
    } else {
        lemma_attrs_unchanged(ctx, attrs, (n - 1) as nat);
        lemma_attr_unchanged(ctx, attrs[n - 1]);
        assert(attrs.take(n - 1).push(attrs[n - 1]) =~= attrs.take(n as int));
    }
}

proof fn lemma_element_unchanged(ctx: StyleContext, el: JsxElementView)
    requires
        ctx.binding is None,
        element_has(Shape::Pruned, el),
        element_has(Shape::Plain, el),
    ensures
        rewrite_element(ctx, el) == Rewritten::<JsxElementView>::Ok((el, false)),
    decreases el, 0nat,
{
    lemma_attrs_unchanged(ctx, el.attrs, el.attrs.len());
    assert(el.attrs.take(el.attrs.len() as int) =~= el.attrs);
    lemma_exprs_unchanged(ctx, el.children, el.children.len());
    assert(el.children.take(el.children.len() as int) =~= el.children);
}

/// The walk leaves such a declaration as it is and asks for no fallback
/// object.
pub proof fn lemma_var_decl_unchanged(ctx: StyleContext, d: VarDeclView)
    requires
        ctx.binding is None,
        var_decl_has(Shape::Pruned, d),
        var_decl_has(Shape::Plain, d),
    ensures
        rewrite_var_decl(ctx, d) == Rewritten::<VarDeclView>::Ok((d, false)),
    decreases d, 0nat,
{
    match d.init {
        Some(e) => lemma_expr_unchanged(ctx, e),
        None => {},
    }
}

/// The walk leaves such a statement as it is and asks for no fallback
/// object.
pub proof fn lemma_stmt_unchanged(ctx: StyleContext, s: StmtView)
    requires
        ctx.binding is None,
        stmt_has(Shape::Pruned, s),
        stmt_has(Shape::Plain, s),
    ensures
        rewrite_stmt(ctx, s) == Rewritten::<StmtView>::Ok((s, false)),
    decreases s, 0nat,
{
    match s {
        StmtView::Empty => {},
        StmtView::Expr(e) => lemma_expr_unchanged(ctx, e),
        StmtView::Var(d) => lemma_var_decl_unchanged(ctx, d),
        StmtView::Return(None) => {},
        StmtView::Return(Some(e)) => lemma_expr_unchanged(ctx, e),
        StmtView::Block(stmts) => lemma_list_unchanged(ctx, stmts),
        StmtView::Other { exprs, stmts } => {
            lemma_exprs_unchanged(ctx, exprs, exprs.len());
            assert(exprs.take(exprs.len() as int) =~= exprs);
            lemma_stmts_unchanged(ctx, stmts, stmts.len());
            assert(stmts.take(stmts.len() as int) =~= stmts);
        },
    }
}

proof fn lemma_stmts_unchanged(ctx: StyleContext, stmts: Seq<StmtView>, n: nat)
    requires
        ctx.binding is None,
        stmts_have(Shape::Pruned, stmts),
        stmts_have(Shape::Plain, stmts),
        n <= stmts.len(),
    ensures
        rewrite_stmts(ctx, stmts, n) == Rewritten::<Seq<StmtView>>::Ok(
            (stmts.take(n as int), false),
        ),
    decreases stmts, n,
{
    if n == 0 {
        assert(stmts.take(0) =~= Seq::empty());
    } else {
        lemma_stmts_unchanged(ctx, stmts, (n - 1) as nat);
        lemma_stmt_unchanged(ctx, stmts[n - 1]);
        assert(stmts.take(n - 1).push(stmts[n - 1]) =~= stmts.take(n as int));
    }
}

/// The transform leaves such a statement list as it is.
pub proof fn lemma_list_unchanged(ctx: StyleContext, stmts: Seq<StmtView>)
    requires
        ctx.binding is None,
        list_has(Shape::Pruned, stmts),
        list_has(Shape::Plain, stmts),
    ensures
        finish_stmts(ctx, stmts) == Ok::<Seq<StmtView>, TransformErrorView>(stmts),
    decreases stmts, stmts.len() + 1,
{
    lemma_list_holds_stmts(Shape::Pruned, stmts);
    lemma_list_holds_stmts(Shape::Plain, stmts);
    lemma_stmts_unchanged(ctx, stmts, stmts.len());
    assert(stmts.take(stmts.len() as int) =~= stmts);
    assert forall|i: int| 0 <= i < stmts.len() implies kept()(stmts[i]) by {
        assert(stmt_fits(Shape::Pruned, stmts[i]));
    }
    lemma_filter_keeps_all(stmts, kept());
}

} // verus!
