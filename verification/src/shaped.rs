//! The shapes of what the transform gives: it has no empty statement in any
//! list, and it is plain where what was given is plain.

use crate::filter::lemma_filter_members;
use crate::mapping::Entries;
use crate::rewrite::{
    fallback_decl, finish_stmts, kept, lemma_rewrite_attrs_each, lemma_rewrite_exprs_each,
    lemma_rewrite_props_each, lemma_rewrite_stmts_each, prune, rewrite_attr, rewrite_attrs,
    rewrite_element, rewrite_expr, rewrite_exprs, rewrite_prop, rewrite_props, rewrite_stmt,
    rewrite_stmts, rewrite_var_decl, with_fallback, StyleContext,
};
use crate::shape::{
    attr_has, element_has, expr_has, exprs_have, lemma_list_holds_stmts, list_has, prop_has,
    stmt_fits, stmt_has, stmts_have, var_decl_has, Shape,
};
use crate::syntax::{
    ExprView, JsxAttrValueView, JsxAttrView, JsxElementView, MemberPropView, PropertyView,
    StmtView, VarDeclView,
};
use vstd::prelude::*;

verus! {

/// The fallback declaration has both shapes: it holds no statement list and
/// no attribute.
pub proof fn lemma_fallback_decl_shape(shape: Shape, entries: Entries)
    ensures
        stmt_has(shape, fallback_decl(entries)),
        !(fallback_decl(entries) is Empty),
{
    let object = fallback_decl(entries)->Var_0.init->Some_0;
    assert(expr_has(shape, object)) by {
        assert forall|i: int| 0 <= i < object->Object_props.len() implies expr_has(
            shape,
            (#[trigger] object->Object_props[i]).value,
        ) by {}
    }
}

/// The walk gives a member access for a member access, and for nothing
/// else.
proof fn lemma_rewrite_keeps_member(ctx: StyleContext, e: ExprView)
    ensures
        rewrite_expr(ctx, e) matches Ok(out) ==> (out.0 is Member <==> e is Member),
{
}

proof fn lemma_prop_comes_out(shape: Shape, ctx: StyleContext, p: MemberPropView)
    requires
        shape is Plain ==> prop_has(Shape::Plain, p),
    ensures
        rewrite_prop(ctx, p) matches Ok(out) ==> prop_has(shape, out.0),
    decreases p, 0nat,
{
    match p {
        MemberPropView::Computed(e) => lemma_expr_comes_out(shape, ctx, *e),
        _ => {},
    }
}

proof fn lemma_exprs_come_out(shape: Shape, ctx: StyleContext, es: Seq<ExprView>)
    requires
        shape is Plain ==> exprs_have(Shape::Plain, es),
    ensures
        rewrite_exprs(ctx, es, es.len()) matches Ok(out) ==> exprs_have(shape, out.0),
    decreases es, 0nat,
{
    if rewrite_exprs(ctx, es, es.len()) is Ok {
        let out = rewrite_exprs(ctx, es, es.len())->Ok_0.0;
        lemma_rewrite_exprs_each(ctx, es, es.len());
        assert forall|i: int| 0 <= i < out.len() implies expr_has(
            shape,
            #[trigger] out[i],
        ) by {
            assert(rewrite_expr(ctx, es[i]) is Ok);
            lemma_expr_comes_out(shape, ctx, es[i]);
        }
    }
}

proof fn lemma_props_come_out(shape: Shape, ctx: StyleContext, ps: Seq<PropertyView>)
    requires
        shape is Plain ==> forall|i: int|
            0 <= i < ps.len() ==> expr_has(Shape::Plain, (#[trigger] ps[i]).value),
    ensures
        rewrite_props(ctx, ps, ps.len()) matches Ok(out) ==> forall|i: int|
            0 <= i < out.0.len() ==> expr_has(shape, (#[trigger] out.0[i]).value),
    decreases ps, 0nat,
{
    if rewrite_props(ctx, ps, ps.len()) is Ok {
        let out = rewrite_props(ctx, ps, ps.len())->Ok_0.0;
        lemma_rewrite_props_each(ctx, ps, ps.len());
        assert forall|i: int| 0 <= i < out.len() implies expr_has(
            shape,
            (#[trigger] out[i]).value,
        ) by {
            assert(rewrite_expr(ctx, ps[i].value) is Ok);
            lemma_expr_comes_out(shape, ctx, ps[i].value);
        }
    }
}

/// The expression that a walk gives has no empty statement in any list,
/// and is plain where the expression that was given is plain.
pub proof fn lemma_expr_comes_out(shape: Shape, ctx: StyleContext, e: ExprView)
    requires
        shape is Plain ==> expr_has(Shape::Plain, e),
    ensures
        rewrite_expr(ctx, e) matches Ok(out) ==> expr_has(shape, out.0),
    decreases e, 0nat,
{
    match e {
        ExprView::Ident(_) => {},
        ExprView::Str(_) => {},
        ExprView::Member { obj, prop } => {
            lemma_expr_comes_out(shape, ctx, *obj);
            lemma_prop_comes_out(shape, ctx, prop);
        },
        ExprView::Template { quasis, exprs } => lemma_exprs_come_out(shape, ctx, exprs),
        ExprView::Object { props } => lemma_props_come_out(shape, ctx, props),
        ExprView::Arrow { params, body } => lemma_expr_comes_out(shape, ctx, *body),
        ExprView::Function { params, body } => lemma_list_comes_out(shape, ctx, body),
        ExprView::Element(el) => lemma_element_comes_out(shape, ctx, el),
        ExprView::Other { operands } => lemma_exprs_come_out(shape, ctx, operands),
    }
}

proof fn lemma_attr_comes_out(shape: Shape, ctx: StyleContext, a: JsxAttrView)
    requires
        shape is Plain ==> attr_has(Shape::Plain, a),
    ensures
        rewrite_attr(ctx, a) matches Ok(out) ==> attr_has(shape, out.0),
    decreases a, 0nat,
{
    match a.value {
        Some(JsxAttrValueView::Container(e)) => {
            lemma_expr_comes_out(shape, ctx, e);
            lemma_rewrite_keeps_member(ctx, e);
        },
        Some(JsxAttrValueView::Element(el)) => lemma_element_comes_out(shape, ctx, el),
        _ => {},
    }
}

proof fn lemma_element_comes_out(shape: Shape, ctx: StyleContext, el: JsxElementView)
    requires
        shape is Plain ==> element_has(Shape::Plain, el),
    ensures
        rewrite_element(ctx, el) matches Ok(out) ==> element_has(shape, out.0),
    decreases el, 0nat,
{
    if rewrite_element(ctx, el) is Ok {
        let attrs = rewrite_attrs(ctx, el.attrs, el.attrs.len())->Ok_0.0;
        lemma_rewrite_attrs_each(ctx, el.attrs, el.attrs.len());
        assert forall|i: int| 0 <= i < attrs.len() implies attr_has(
            shape,
            #[trigger] attrs[i],
        ) by {
            assert(rewrite_attr(ctx, el.attrs[i]) is Ok);
            lemma_attr_comes_out(shape, ctx, el.attrs[i]);
        }
        lemma_exprs_come_out(shape, ctx, el.children);
    }
}

/// The declaration that a walk gives has no empty statement in any list,
/// and is plain where the declaration that was given is plain.
pub proof fn lemma_var_decl_comes_out(shape: Shape, ctx: StyleContext, d: VarDeclView)
    requires
        shape is Plain ==> var_decl_has(Shape::Plain, d),
    ensures
        rewrite_var_decl(ctx, d) matches Ok(out) ==> var_decl_has(shape, out.0),
    decreases d, 0nat,
{
    match d.init {
        Some(e) => lemma_expr_comes_out(shape, ctx, e),
        None => {},
    }
}

/// The statement that a walk gives has no empty statement in any list
/// below it, and is plain where the statement that was given is plain.
pub proof fn lemma_stmt_comes_out(shape: Shape, ctx: StyleContext, s: StmtView)
    requires
        shape is Plain ==> stmt_has(Shape::Plain, s),
    ensures
        rewrite_stmt(ctx, s) matches Ok(out) ==> stmt_has(shape, out.0),
    decreases s, 0nat,
{
    match s {
        StmtView::Empty => {},
        StmtView::Expr(e) => lemma_expr_comes_out(shape, ctx, e),
        StmtView::Var(d) => lemma_var_decl_comes_out(shape, ctx, d),
        StmtView::Return(None) => {},
        StmtView::Return(Some(e)) => lemma_expr_comes_out(shape, ctx, e),
        StmtView::Block(stmts) => lemma_list_comes_out(shape, ctx, stmts),
        StmtView::Other { exprs, stmts } => {
            lemma_exprs_come_out(shape, ctx, exprs);
            lemma_stmts_come_out(shape, ctx, stmts);
        },
    }
}

proof fn lemma_stmts_come_out(shape: Shape, ctx: StyleContext, stmts: Seq<StmtView>)
    requires
        shape is Plain ==> stmts_have(Shape::Plain, stmts),
    ensures
        rewrite_stmts(ctx, stmts, stmts.len()) matches Ok(out) ==> stmts_have(shape, out.0),
    decreases stmts, 0nat,
{
    if rewrite_stmts(ctx, stmts, stmts.len()) is Ok {
        let out = rewrite_stmts(ctx, stmts, stmts.len())->Ok_0.0;
        lemma_rewrite_stmts_each(ctx, stmts, stmts.len());
        assert forall|i: int| 0 <= i < out.len() implies stmt_has(
            shape,
            #[trigger] out[i],
        ) by {
            assert(rewrite_stmt(ctx, stmts[i]) is Ok);
            lemma_stmt_comes_out(shape, ctx, stmts[i]);
        }
    }
}

/// The statement list that the transform gives holds no empty statement,
/// and none in any list below it; it is plain where the list that was
/// given is plain.
pub proof fn lemma_list_comes_out(shape: Shape, ctx: StyleContext, stmts: Seq<StmtView>)
    requires
        shape is Plain ==> list_has(Shape::Plain, stmts),
    ensures
        finish_stmts(ctx, stmts) matches Ok(out) ==> list_has(shape, out),
    decreases stmts, 1nat,
{
    if finish_stmts(ctx, stmts) is Ok {
        let walked = rewrite_stmts(ctx, stmts, stmts.len())->Ok_0;
        let full = with_fallback(ctx.entries, walked.0, walked.1);
        let out = prune(full);
        lemma_rewrite_stmts_each(ctx, stmts, stmts.len());
        if shape is Plain {
            lemma_list_holds_stmts(Shape::Plain, stmts);
        }
        lemma_stmts_come_out(shape, ctx, stmts);
        lemma_fallback_decl_shape(shape, ctx.entries);
        assert forall|i: int| 0 <= i < full.len() implies stmt_has(
            shape,
            #[trigger] full[i],
        ) by {
            if i < stmts.len() {
                assert(full[i] == walked.0[i]);
            }
        }
        assert forall|k: int| 0 <= k < out.len() implies stmt_fits(
            shape,
            #[trigger] out[k],
        ) && stmt_has(shape, out[k]) by {
            lemma_filter_members(full, kept(), k);
        }
    }
}

} // verus!
