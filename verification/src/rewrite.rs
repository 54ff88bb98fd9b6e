//! What the transform does to each kind of node, stated over the values of
//! the syntax tree.
//!
//! A walk visits the nodes below a node before the node itself. Within one
//! module item the class-name table and the style binding do not change, so
//! the walk below an item is a function of the two: it gives the rewritten
//! node and whether some class-name attribute had a value that could not be
//! resolved, or the first failure.

use crate::loader::TransformErrorView;
use crate::mapping::{lookup, Entries};
use crate::syntax::{
    ExprView, JsxAttrNameView, JsxAttrValueView, JsxAttrView, JsxElementView, MemberPropView,
    PropertyView, StmtView, VarDeclView, VarKind,
};
use vstd::prelude::*;

verus! {

/// What a walk below a module item reads: the entries of the class-name
/// table, none before a stylesheet import was resolved, and the name that
/// the style object is bound to.
pub ghost struct StyleContext {
    pub entries: Entries,
    pub binding: Option<Seq<char>>,
}

/// The rewritten node and whether a fallback object is needed for it, or
/// the failure that ended the walk.
pub type Rewritten<T> = Result<(T, bool), TransformErrorView>;

/// The name of the attribute that holds an element's classes.
pub open spec fn class_attribute() -> Seq<char> {
    "className"@
}

/// The name that the fallback object is bound to.
pub open spec fn fallback_name() -> Seq<char> {
    "_styles"@
}

/// What the value of an attribute is to the transform.
pub ghost enum ClassNameUsageView {
    /// Not a use of the style object: the attribute is not the class
    /// attribute, its value is no expression, or the expression is a member
    /// access on something else than the style object.
    Untouched,
    /// `binding.key`: the class `key` of the stylesheet.
    Lookup { key: Seq<char> },
    /// An expression from which no single class can be read.
    Unrecognized,
}

/// Classifies the attribute `attr` of a module whose style object is bound
/// to `binding`.
pub open spec fn classify(binding: Option<Seq<char>>, attr: JsxAttrView) -> ClassNameUsageView {
    if attr.name == JsxAttrNameView::Ident(class_attribute()) {
        match attr.value {
            Some(JsxAttrValueView::Container(ExprView::Member { obj, prop })) => {
                if *obj matches ExprView::Ident(name) && binding == Some(name) {
                    match prop {
                        MemberPropView::Ident(key) => ClassNameUsageView::Lookup { key },
                        _ => ClassNameUsageView::Unrecognized,
                    }
                } else {
                    ClassNameUsageView::Untouched
                }
            },
            Some(JsxAttrValueView::Container(_)) => ClassNameUsageView::Unrecognized,
            _ => ClassNameUsageView::Untouched,
        }
    } else {
        ClassNameUsageView::Untouched
    }
}

/// What the transform decides of an attribute once the nodes below it
/// have been visited: the text that replaces its value, if any, and
/// whether it asks for the fallback object. A use of a class of the
/// stylesheet is replaced by the scoped name of the class, and fails where
/// the table lacks the class; an unrecognized value stays and asks for the
/// fallback object.
pub open spec fn replacement(ctx: StyleContext, attr: JsxAttrView) -> Rewritten<Option<Seq<char>>> {
    match classify(ctx.binding, attr) {
        ClassNameUsageView::Untouched => Ok((None, false)),
        ClassNameUsageView::Unrecognized => Ok((None, true)),
        ClassNameUsageView::Lookup { key } => match lookup(ctx.entries, key) {
            Some(export) => Ok((Some(export.name), false)),
            None => Err(TransformErrorView::UnresolvedClassKey { key }),
        },
    }
}

/// What the transform does to an attribute once the nodes below it have
/// been visited: where a text replaces its value, the value becomes that
/// text as a string.
pub open spec fn resolve_attr(ctx: StyleContext, attr: JsxAttrView) -> Rewritten<JsxAttrView> {
    match replacement(ctx, attr) {
        Ok((Some(name), raised)) => Ok(
            (JsxAttrView { name: attr.name, value: Some(JsxAttrValueView::Str(name)) }, raised),
        ),
        Ok((None, raised)) => Ok((attr, raised)),
        Err(x) => Err(x),
    }
}

/// The declaration that exposes the whole class-name table at run time: a
/// constant bound to an object literal with one property for each entry, in
/// the order of the table.
pub open spec fn fallback_decl(entries: Entries) -> StmtView {
    StmtView::Var(
        VarDeclView {
            kind: VarKind::Const,
            name: fallback_name(),
            init: Some(
                ExprView::Object {
                    props: Seq::new(
                        entries.len(),
                        |i: int|
                            PropertyView {
                                key: entries[i].0,
                                value: ExprView::Str(entries[i].1.name),
                            },
                    ),
                },
            ),
        },
    )
}

/// Which statements stay in a list: those that are not empty.
pub open spec fn kept() -> spec_fn(StmtView) -> bool {
    |s: StmtView| !(s is Empty)
}

/// The statements of `stmts` that are not empty, in their order.
pub open spec fn prune(stmts: Seq<StmtView>) -> Seq<StmtView> {
    stmts.filter(kept())
}

/// The visited statements of a list with the fallback declaration behind
/// them where the list needs it.
pub open spec fn with_fallback(entries: Entries, stmts: Seq<StmtView>, needed: bool) -> Seq<
    StmtView,
> {
    if needed {
        stmts.push(fallback_decl(entries))
    } else {
        stmts
    }
}

pub open spec fn rewrite_prop(ctx: StyleContext, p: MemberPropView) -> Rewritten<MemberPropView>
    decreases p, 0nat,
{
    match p {
        MemberPropView::Computed(e) => match rewrite_expr(ctx, *e) {
            Ok((e2, raised)) => Ok((MemberPropView::Computed(Box::new(e2)), raised)),
            Err(x) => Err(x),
        },
        _ => Ok((p, false)),
    }
}

/// The walk over the first `n` expressions of `es`, from the left.
pub open spec fn rewrite_exprs(ctx: StyleContext, es: Seq<ExprView>, n: nat) -> Rewritten<
    Seq<ExprView>,
>
    decreases es, n,
{
    if n == 0 || n > es.len() {
        Ok((Seq::empty(), false))
    } else {
        match rewrite_exprs(ctx, es, (n - 1) as nat) {
            Err(x) => Err(x),
            Ok((before, raised)) => match rewrite_expr(ctx, es[n - 1]) {
                Err(x) => Err(x),
                Ok((e, r)) => Ok((before.push(e), raised || r)),
            },
        }
    }
}

/// The walk over the first `n` properties of `ps`, from the left.
pub open spec fn rewrite_props(ctx: StyleContext, ps: Seq<PropertyView>, n: nat) -> Rewritten<
    Seq<PropertyView>,
>
    decreases ps, n,
{
    if n == 0 || n > ps.len() {
        Ok((Seq::empty(), false))
    } else {
        match rewrite_props(ctx, ps, (n - 1) as nat) {
            Err(x) => Err(x),
            Ok((before, raised)) => match rewrite_expr(ctx, ps[n - 1].value) {
                Err(x) => Err(x),
                Ok((e, r)) => Ok(
                    (before.push(PropertyView { key: ps[n - 1].key, value: e }), raised || r),
                ),
            },
        }
    }
}

/// The walk over an expression.
pub open spec fn rewrite_expr(ctx: StyleContext, e: ExprView) -> Rewritten<ExprView>
    decreases e, 0nat,
{
    match e {
        ExprView::Ident(_) => Ok((e, false)),
        ExprView::Str(_) => Ok((e, false)),
        ExprView::Member { obj, prop } => match rewrite_expr(ctx, *obj) {
            Err(x) => Err(x),
            Ok((obj2, r1)) => match rewrite_prop(ctx, prop) {
                Err(x) => Err(x),
                Ok((prop2, r2)) => Ok(
                    (ExprView::Member { obj: Box::new(obj2), prop: prop2 }, r1 || r2),
                ),
            },
        },
        ExprView::Template { quasis, exprs } => match rewrite_exprs(ctx, exprs, exprs.len()) {
            Err(x) => Err(x),
            Ok((exprs2, r)) => Ok((ExprView::Template { quasis, exprs: exprs2 }, r)),
        },
        ExprView::Object { props } => match rewrite_props(ctx, props, props.len()) {
            Err(x) => Err(x),
            Ok((props2, r)) => Ok((ExprView::Object { props: props2 }, r)),
        },
        ExprView::Arrow { params, body } => match rewrite_expr(ctx, *body) {
            Err(x) => Err(x),
            Ok((body2, r)) => Ok((ExprView::Arrow { params, body: Box::new(body2) }, r)),
        },
        ExprView::Function { params, body } => match finish_stmts(ctx, body) {
            Err(x) => Err(x),
            Ok(body2) => Ok((ExprView::Function { params, body: body2 }, false)),
        },
        ExprView::Element(el) => match rewrite_element(ctx, el) {
            Err(x) => Err(x),
            Ok((el2, r)) => Ok((ExprView::Element(el2), r)),
        },
        ExprView::Other { operands } => match rewrite_exprs(ctx, operands, operands.len()) {
            Err(x) => Err(x),
            Ok((operands2, r)) => Ok((ExprView::Other { operands: operands2 }, r)),
        },
    }
}

/// The walk over an attribute: first over its value, then the attribute
/// itself is resolved.
pub open spec fn rewrite_attr(ctx: StyleContext, a: JsxAttrView) -> Rewritten<JsxAttrView>
    decreases a, 0nat,
{
    match a.value {
        Some(JsxAttrValueView::Container(e)) => match rewrite_expr(ctx, e) {
            Err(x) => Err(x),
            Ok((e2, r1)) => match resolve_attr(
                ctx,
                JsxAttrView { name: a.name, value: Some(JsxAttrValueView::Container(e2)) },
            ) {
                Err(x) => Err(x),
                Ok((a2, r2)) => Ok((a2, r1 || r2)),
            },
        },
        Some(JsxAttrValueView::Element(el)) => match rewrite_element(ctx, el) {
            Err(x) => Err(x),
            Ok((el2, r)) => Ok(
                (JsxAttrView { name: a.name, value: Some(JsxAttrValueView::Element(el2)) }, r),
            ),
        },
        _ => Ok((a, false)),
    }
}

/// The walk over the first `n` attributes of `attrs`, from the left.
pub open spec fn rewrite_attrs(ctx: StyleContext, attrs: Seq<JsxAttrView>, n: nat) -> Rewritten<
    Seq<JsxAttrView>,
>
    decreases attrs, n,
{
    if n == 0 || n > attrs.len() {
        Ok((Seq::empty(), false))
    } else {
        match rewrite_attrs(ctx, attrs, (n - 1) as nat) {
            Err(x) => Err(x),
            Ok((before, raised)) => match rewrite_attr(ctx, attrs[n - 1]) {
                Err(x) => Err(x),
                Ok((a, r)) => Ok((before.push(a), raised || r)),
            },
        }
    }
}

/// The walk over an element: its attributes, then its children.
pub open spec fn rewrite_element(ctx: StyleContext, el: JsxElementView) -> Rewritten<
    JsxElementView,
>
    decreases el, 0nat,
{
    match rewrite_attrs(ctx, el.attrs, el.attrs.len()) {
        Err(x) => Err(x),
        Ok((attrs, r1)) => match rewrite_exprs(ctx, el.children, el.children.len()) {
            Err(x) => Err(x),
            Ok((children, r2)) => Ok(
                (JsxElementView { name: el.name, attrs, children }, r1 || r2),
            ),
        },
    }
}

/// The walk over a variable declaration.
pub open spec fn rewrite_var_decl(ctx: StyleContext, d: VarDeclView) -> Rewritten<VarDeclView>
    decreases d, 0nat,
{
    match d.init {
        None => Ok((d, false)),
        Some(e) => match rewrite_expr(ctx, e) {
            Err(x) => Err(x),
            Ok((e2, r)) => Ok((VarDeclView { kind: d.kind, name: d.name, init: Some(e2) }, r)),
        },
    }
}

/// The walk over a statement. A block is a statement list of its own: what
/// it needs is settled within it and does not reach the list around it.
pub open spec fn rewrite_stmt(ctx: StyleContext, s: StmtView) -> Rewritten<StmtView>
    decreases s, 0nat,
{
    match s {
        StmtView::Empty => Ok((s, false)),
        StmtView::Expr(e) => match rewrite_expr(ctx, e) {
            Err(x) => Err(x),
            Ok((e2, r)) => Ok((StmtView::Expr(e2), r)),
        },
        StmtView::Var(d) => match rewrite_var_decl(ctx, d) {
            Err(x) => Err(x),
            Ok((d2, r)) => Ok((StmtView::Var(d2), r)),
        },
        StmtView::Return(None) => Ok((s, false)),
        StmtView::Return(Some(e)) => match rewrite_expr(ctx, e) {
            Err(x) => Err(x),
            Ok((e2, r)) => Ok((StmtView::Return(Some(e2)), r)),
        },
        StmtView::Block(stmts) => match finish_stmts(ctx, stmts) {
            Err(x) => Err(x),
            Ok(stmts2) => Ok((StmtView::Block(stmts2), false)),
        },
        StmtView::Other { exprs, stmts } => match rewrite_exprs(ctx, exprs, exprs.len()) {
            Err(x) => Err(x),
            Ok((exprs2, r1)) => match rewrite_stmts(ctx, stmts, stmts.len()) {
                Err(x) => Err(x),
                Ok((stmts2, r2)) => Ok(
                    (StmtView::Other { exprs: exprs2, stmts: stmts2 }, r1 || r2),
                ),
            },
        },
    }
}

/// The walk over the first `n` statements of `stmts`, from the left.
pub open spec fn rewrite_stmts(ctx: StyleContext, stmts: Seq<StmtView>, n: nat) -> Rewritten<
    Seq<StmtView>,
>
    decreases stmts, n,
{
    if n == 0 || n > stmts.len() {
        Ok((Seq::empty(), false))
    } else {
        match rewrite_stmts(ctx, stmts, (n - 1) as nat) {
            Err(x) => Err(x),
            Ok((before, raised)) => match rewrite_stmt(ctx, stmts[n - 1]) {
                Err(x) => Err(x),
                Ok((s, r)) => Ok((before.push(s), raised || r)),
            },
        }
    }
}

/// The transform of a statement list: its statements are visited in order;
/// where one of them needs the fallback object, its declaration is put
/// behind them; then the empty statements are dropped.
pub open spec fn finish_stmts(ctx: StyleContext, stmts: Seq<StmtView>) -> Result<
    Seq<StmtView>,
    TransformErrorView,
>
    decreases stmts, stmts.len() + 1,
{
    match rewrite_stmts(ctx, stmts, stmts.len()) {
        Err(x) => Err(x),
        Ok((visited, needed)) => Ok(prune(with_fallback(ctx.entries, visited, needed))),
    }
}

/// A walk over a list that has failed within its first `k` nodes fails in
/// the same way on every longer part of the list.
pub proof fn lemma_rewrite_exprs_failed(ctx: StyleContext, es: Seq<ExprView>, k: nat, n: nat)
    requires
        k <= n <= es.len(),
        rewrite_exprs(ctx, es, k) is Err,
    ensures
        rewrite_exprs(ctx, es, n) == rewrite_exprs(ctx, es, k),
    decreases n,
{
    if k < n {
        lemma_rewrite_exprs_failed(ctx, es, k, (n - 1) as nat);
    }
}

/// As `lemma_rewrite_exprs_failed`, for the properties of an object
/// literal.
pub proof fn lemma_rewrite_props_failed(ctx: StyleContext, ps: Seq<PropertyView>, k: nat, n: nat)
    requires
        k <= n <= ps.len(),
        rewrite_props(ctx, ps, k) is Err,
    ensures
        rewrite_props(ctx, ps, n) == rewrite_props(ctx, ps, k),
    decreases n,
{
    if k < n {
        lemma_rewrite_props_failed(ctx, ps, k, (n - 1) as nat);
    }
}

/// As `lemma_rewrite_exprs_failed`, for the attributes of an element.
pub proof fn lemma_rewrite_attrs_failed(ctx: StyleContext, attrs: Seq<JsxAttrView>, k: nat, n: nat)
    requires
        k <= n <= attrs.len(),
        rewrite_attrs(ctx, attrs, k) is Err,
    ensures
        rewrite_attrs(ctx, attrs, n) == rewrite_attrs(ctx, attrs, k),
    decreases n,
{
    if k < n {
        lemma_rewrite_attrs_failed(ctx, attrs, k, (n - 1) as nat);
    }
}

/// As `lemma_rewrite_exprs_failed`, for the statements of a list.
pub proof fn lemma_rewrite_stmts_failed(ctx: StyleContext, stmts: Seq<StmtView>, k: nat, n: nat)
    requires
        k <= n <= stmts.len(),
        rewrite_stmts(ctx, stmts, k) is Err,
    ensures
        rewrite_stmts(ctx, stmts, n) == rewrite_stmts(ctx, stmts, k),
    decreases n,
{
    if k < n {
        lemma_rewrite_stmts_failed(ctx, stmts, k, (n - 1) as nat);
    }
}

/// A walk over the first `n` expressions of a list that succeeds has
/// walked over each of them alone with success, and holds what those walks
/// gave, in their order.
pub proof fn lemma_rewrite_exprs_each(ctx: StyleContext, es: Seq<ExprView>, n: nat)
    requires
        n <= es.len(),
        rewrite_exprs(ctx, es, n) is Ok,
    ensures
        rewrite_exprs(ctx, es, n)->Ok_0.0.len() == n,
        forall|i: int|
            0 <= i < n ==> ({
                let one = #[trigger] rewrite_expr(ctx, es[i]);
                &&& one is Ok
                &&& rewrite_exprs(ctx, es, n)->Ok_0.0[i] == one->Ok_0.0
                &&& one->Ok_0.1 ==> rewrite_exprs(ctx, es, n)->Ok_0.1
            }),
    decreases n,
{
    if n > 0 {
        lemma_rewrite_exprs_each(ctx, es, (n - 1) as nat);
    }
}

/// As `lemma_rewrite_exprs_each`, for the properties of an object literal.
pub proof fn lemma_rewrite_props_each(ctx: StyleContext, ps: Seq<PropertyView>, n: nat)
    requires
        n <= ps.len(),
        rewrite_props(ctx, ps, n) is Ok,
    ensures
        rewrite_props(ctx, ps, n)->Ok_0.0.len() == n,
        forall|i: int|
            0 <= i < n ==> ({
                let one = #[trigger] rewrite_expr(ctx, ps[i].value);
                &&& one is Ok
                &&& rewrite_props(ctx, ps, n)->Ok_0.0[i] == (PropertyView {
                    key: ps[i].key,
                    value: one->Ok_0.0,
                })
                &&& one->Ok_0.1 ==> rewrite_props(ctx, ps, n)->Ok_0.1
            }),
    decreases n,
{
    if n > 0 {
        lemma_rewrite_props_each(ctx, ps, (n - 1) as nat);
    }
}

/// As `lemma_rewrite_exprs_each`, for the attributes of an element.
pub proof fn lemma_rewrite_attrs_each(ctx: StyleContext, attrs: Seq<JsxAttrView>, n: nat)
    requires
        n <= attrs.len(),
        rewrite_attrs(ctx, attrs, n) is Ok,
    ensures
        rewrite_attrs(ctx, attrs, n)->Ok_0.0.len() == n,
        forall|i: int|
            0 <= i < n ==> ({
                let one = #[trigger] rewrite_attr(ctx, attrs[i]);
                &&& one is Ok
                &&& rewrite_attrs(ctx, attrs, n)->Ok_0.0[i] == one->Ok_0.0
                &&& one->Ok_0.1 ==> rewrite_attrs(ctx, attrs, n)->Ok_0.1
            }),
    decreases n,
{
    if n > 0 {
        lemma_rewrite_attrs_each(ctx, attrs, (n - 1) as nat);
    }
}

/// As `lemma_rewrite_exprs_each`, for the statements of a list.
pub proof fn lemma_rewrite_stmts_each(ctx: StyleContext, stmts: Seq<StmtView>, n: nat)
    requires
        n <= stmts.len(),
        rewrite_stmts(ctx, stmts, n) is Ok,
    ensures
        rewrite_stmts(ctx, stmts, n)->Ok_0.0.len() == n,
        forall|i: int|
            0 <= i < n ==> ({
                let one = #[trigger] rewrite_stmt(ctx, stmts[i]);
                &&& one is Ok
                &&& rewrite_stmts(ctx, stmts, n)->Ok_0.0[i] == one->Ok_0.0
                &&& one->Ok_0.1 ==> rewrite_stmts(ctx, stmts, n)->Ok_0.1
            }),
    decreases n,
{
    if n > 0 {
        lemma_rewrite_stmts_each(ctx, stmts, (n - 1) as nat);
    }
}

} // verus!
