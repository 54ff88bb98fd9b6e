//! Properties of a syntax tree that hold at every node of it.

use crate::rewrite::classify;
use crate::syntax::{
    ExprView, JsxAttrValueView, JsxAttrView, JsxElementView, MemberPropView, ModuleItemView,
    ModuleView, StmtView, VarDeclView,
};
use vstd::prelude::*;

verus! {

/// A property of a tree that the transform leaves behind or leaves alone.
pub ghost enum Shape {
    /// No statement list holds an empty statement.
    Pruned,
    /// No class attribute has a value that asks for the fallback object
    /// in a module that binds no style object: each is a member access,
    /// or no expression.
    Plain,
}

/// Whether the attribute itself, apart from what lies below it, has the
/// shape.
pub open spec fn attr_fits(shape: Shape, a: JsxAttrView) -> bool {
    shape is Plain ==> !(classify(None, a) is Unrecognized)
}

/// Whether the statement may stand in a statement list of the shape.
pub open spec fn stmt_fits(shape: Shape, s: StmtView) -> bool {
    shape is Pruned ==> !(s is Empty)
}

pub open spec fn prop_has(shape: Shape, p: MemberPropView) -> bool
    decreases p,
{
    match p {
        MemberPropView::Computed(e) => expr_has(shape, *e),
        _ => true,
    }
}

/// Every expression of the list has the shape.
pub open spec fn exprs_have(shape: Shape, es: Seq<ExprView>) -> bool
    decreases es,
{
    forall|i: int| 0 <= i < es.len() ==> expr_has(shape, #[trigger] es[i])
}

/// The expression has the shape at every node.
pub open spec fn expr_has(shape: Shape, e: ExprView) -> bool
    decreases e,
{
    match e {
        ExprView::Ident(_) => true,
        ExprView::Str(_) => true,
        ExprView::Member { obj, prop } => expr_has(shape, *obj) && prop_has(shape, prop),
        ExprView::Template { quasis, exprs } => exprs_have(shape, exprs),
        ExprView::Object { props } => forall|i: int|
            0 <= i < props.len() ==> expr_has(shape, (#[trigger] props[i]).value),
        ExprView::Arrow { params, body } => expr_has(shape, *body),
        ExprView::Function { params, body } => list_has(shape, body),
        ExprView::Element(el) => element_has(shape, el),
        ExprView::Other { operands } => exprs_have(shape, operands),
    }
}

/// The attribute has the shape, with all that lies below it.
pub open spec fn attr_has(shape: Shape, a: JsxAttrView) -> bool
    decreases a,
{
    &&& attr_fits(shape, a)
    &&& match a.value {
        Some(JsxAttrValueView::Container(e)) => expr_has(shape, e),
        Some(JsxAttrValueView::Element(el)) => element_has(shape, el),
        _ => true,
    }
}

/// The element has the shape at every node.
pub open spec fn element_has(shape: Shape, el: JsxElementView) -> bool
    decreases el,
{
    &&& forall|i: int| 0 <= i < el.attrs.len() ==> attr_has(shape, #[trigger] el.attrs[i])
    &&& exprs_have(shape, el.children)
}

/// The declaration has the shape at every node.
pub open spec fn var_decl_has(shape: Shape, d: VarDeclView) -> bool
    decreases d,
{
    match d.init {
        Some(e) => expr_has(shape, e),
        None => true,
    }
}

/// The statement has the shape at every node below it.
pub open spec fn stmt_has(shape: Shape, s: StmtView) -> bool
    decreases s,
{
    match s {
        StmtView::Empty => true,
        StmtView::Expr(e) => expr_has(shape, e),
        StmtView::Var(d) => var_decl_has(shape, d),
        StmtView::Return(None) => true,
        StmtView::Return(Some(e)) => expr_has(shape, e),
        StmtView::Block(stmts) => list_has(shape, stmts),
        StmtView::Other { exprs, stmts } => exprs_have(shape, exprs) && stmts_have(shape, stmts),
    }
}

/// Every statement of the list has the shape at every node below it.
pub open spec fn stmts_have(shape: Shape, stmts: Seq<StmtView>) -> bool
    decreases stmts,
{
    forall|i: int| 0 <= i < stmts.len() ==> stmt_has(shape, #[trigger] stmts[i])
}

/// The statement list has the shape: each of its statements may stand in
/// it and has the shape.
pub open spec fn list_has(shape: Shape, stmts: Seq<StmtView>) -> bool
    decreases stmts,
{
    forall|i: int|
        0 <= i < stmts.len() ==> stmt_fits(shape, #[trigger] stmts[i]) && stmt_has(shape, stmts[i])
}

/// A statement list of a shape holds statements of the shape.
pub proof fn lemma_list_holds_stmts(shape: Shape, stmts: Seq<StmtView>)
    requires
        list_has(shape, stmts),
    ensures
        stmts_have(shape, stmts),
{
}

/// The module item has the shape. Of the pruned shape is no empty
/// statement; every import has both shapes.
pub open spec fn item_has(shape: Shape, item: ModuleItemView) -> bool {
    match item {
        ModuleItemView::Import(decl) => true,
        ModuleItemView::Export(decl) => var_decl_has(shape, decl),
        ModuleItemView::Stmt(stmt) => stmt_fits(shape, stmt) && stmt_has(shape, stmt),
    }
}

/// The module has the shape at every node.
pub open spec fn module_has(shape: Shape, module: ModuleView) -> bool {
    forall|i: int| 0 <= i < module.body.len() ==> item_has(shape, #[trigger] module.body[i])
}

} // verus!
