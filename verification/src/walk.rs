//! The walk below a module item: every node is visited after the nodes
//! below it, class-name attributes are resolved, and each statement list is
//! settled once its statements have been visited.

use crate::loader::{TransformError, TransformErrorView};
use crate::rewrite::{
    fallback_decl, fallback_name, finish_stmts, kept, lemma_rewrite_attrs_failed,
    lemma_rewrite_exprs_failed, lemma_rewrite_props_failed, lemma_rewrite_stmts_failed, prune,
    replacement, resolve_attr, rewrite_attr, rewrite_attrs, rewrite_element, rewrite_expr,
    rewrite_exprs, rewrite_prop, rewrite_props, rewrite_stmt, rewrite_stmts, rewrite_var_decl,
    with_fallback, Rewritten,
};
use crate::syntax::{
    expr_view, exprs_view, stmts_view, Expr, ExprView, JsxAttr, JsxAttrValue, JsxAttrView,
    JsxElement, MemberProp, Property, PropertyView, Stmt, StmtView, VarDecl, VarKind,
};
use crate::visitor::{ClassNameUsage, TransformVisitor};
use vstd::prelude::*;

verus! {

/// The value of what a walk returned.
pub open spec fn viewed<T: View>(r: Result<(T, bool), TransformError>) -> Rewritten<T::V> {
    match r {
        Ok((node, raised)) => Ok((node@, raised)),
        Err(x) => Err(x@),
    }
}

/// The value of what a walk over a list returned, where `view` gives the
/// value of the list.
pub open spec fn viewed_with<T, V>(
    r: Result<(T, bool), TransformError>,
    view: spec_fn(T) -> V,
) -> Rewritten<V> {
    match r {
        Ok((nodes, raised)) => Ok((view(nodes), raised)),
        Err(x) => Err(x@),
    }
}

/// The values of a list of properties.
pub open spec fn props_view(ps: Seq<Property>) -> Seq<PropertyView> {
    Seq::new(ps.len(), |i: int| ps[i]@)
}

/// The values of a list of attributes.
pub open spec fn attrs_view(attrs: Seq<JsxAttr>) -> Seq<JsxAttrView> {
    Seq::new(attrs.len(), |i: int| attrs[i]@)
}

impl TransformVisitor {
    /// Walks over what a member access selects.
    pub fn walk_prop(&self, prop: MemberProp) -> (r: Result<(MemberProp, bool), TransformError>)
        ensures
            viewed(r) == rewrite_prop(self@.context(), prop@),
        decreases prop, 0nat,
    {
        match prop {
            MemberProp::Computed(e) => {
                let (e2, raised) = self.walk_expr(*e)?;
                Ok((MemberProp::Computed(Box::new(e2)), raised))
            },
            other => Ok((other, false)),
        }
    }

    /// Walks over the expressions of a list, from the left.
    pub fn walk_exprs(&self, es: Vec<Expr>) -> (r: Result<(Vec<Expr>, bool), TransformError>)
        ensures
            viewed_with(r, |out: Vec<Expr>| exprs_view(out@)) == rewrite_exprs(
                self@.context(),
                exprs_view(es@),
                es@.len(),
            ),
        decreases es, 0nat,
    {
        let ghost ctx = self@.context();
        let ghost items = es@;
        let ghost all = exprs_view(es@);
        let mut out: Vec<Expr> = Vec::new();
        let mut raised = false;
        proof {
            assert(exprs_view(out@) =~= Seq::empty());
        }
        for e in it: es
            invariant
                it.seq() == items,
                all == exprs_view(items),
                ctx == self@.context(),
                forall|i: int| 0 <= i < items.len() ==> decreases_to!(es => items[i]),
                out@.len() == it.index(),
                rewrite_exprs(ctx, all, it.index() as nat) == Rewritten::<Seq<ExprView>>::Ok(
                    (exprs_view(out@), raised),
                ),
        {
            let ghost before = out@;
            let ghost index = out@.len();
            match self.walk_expr(e) {
                Ok((e2, r)) => {
                    out.push(e2);
                    raised = raised || r;
                    proof {
                        assert(exprs_view(out@) =~= exprs_view(before).push(e2@));
                    }
                },
                Err(x) => {
                    proof {
                        lemma_rewrite_exprs_failed(ctx, all, index + 1, all.len());
                    }
                    return Err(x);
                },
            }
        }
        Ok((out, raised))
    }

    /// Walks over the properties of an object literal, from the left.
    pub fn walk_props(&self, ps: Vec<Property>) -> (r: Result<
        (Vec<Property>, bool),
        TransformError,
    >)
        ensures
            viewed_with(r, |out: Vec<Property>| props_view(out@)) == rewrite_props(
                self@.context(),
                props_view(ps@),
                ps@.len(),
            ),
        decreases ps, 0nat,
    {
        let ghost ctx = self@.context();
        let ghost items = ps@;
        let ghost all = props_view(ps@);
        let mut out: Vec<Property> = Vec::new();
        let mut raised = false;
        proof {
            assert(props_view(out@) =~= Seq::empty());
        }
        for p in it: ps
            invariant
                it.seq() == items,
                all == props_view(items),
                ctx == self@.context(),
                forall|i: int| 0 <= i < items.len() ==> decreases_to!(ps => items[i]),
                out@.len() == it.index(),
                rewrite_props(ctx, all, it.index() as nat) == Rewritten::<Seq<PropertyView>>::Ok(
                    (props_view(out@), raised),
                ),
        {
            let ghost before = out@;
            let ghost index = out@.len();
            let Property { key, value } = p;
            match self.walk_expr(value) {
                Ok((value2, r)) => {
                    let visited = Property { key, value: value2 };
                    out.push(visited);
                    raised = raised || r;
                    proof {
                        assert(props_view(out@) =~= props_view(before).push(visited@));
                    }
                },
                Err(x) => {
                    proof {
                        lemma_rewrite_props_failed(ctx, all, index + 1, all.len());
                    }
                    return Err(x);
                },
            }
        }
        Ok((out, raised))
    }

    /// Walks over an expression.
    pub fn walk_expr(&self, e: Expr) -> (r: Result<(Expr, bool), TransformError>)
        ensures
            viewed(r) == rewrite_expr(self@.context(), e@),
        decreases e, 0nat,
    {
        match e {
            Expr::Ident(name) => Ok((Expr::Ident(name), false)),
            Expr::Str(value) => Ok((Expr::Str(value), false)),
            Expr::Member { obj, prop } => {
                let (obj2, r1) = self.walk_expr(*obj)?;
                let (prop2, r2) = self.walk_prop(prop)?;
                Ok((Expr::Member { obj: Box::new(obj2), prop: prop2 }, r1 || r2))
            },
            Expr::Template { quasis, exprs } => {
                let (exprs2, raised) = self.walk_exprs(exprs)?;
                Ok((Expr::Template { quasis, exprs: exprs2 }, raised))
            },
            Expr::Object { props } => {
                proof {
                    assert(e@->Object_props =~= props_view(props@));
                }
                let (props2, raised) = self.walk_props(props)?;
                let out = Expr::Object { props: props2 };
                proof {
                    assert(out@->Object_props =~= props_view(props2@));
                }
                Ok((out, raised))
            },
            Expr::Arrow { params, body } => {
                let (body2, raised) = self.walk_expr(*body)?;
                Ok((Expr::Arrow { params, body: Box::new(body2) }, raised))
            },
            Expr::Function { params, body } => {
                let body2 = self.visit_mut_stmts(body)?;
                Ok((Expr::Function { params, body: body2 }, false))
            },
            Expr::Element(element) => {
                let (element2, raised) = self.walk_element(element)?;
                Ok((Expr::Element(element2), raised))
            },
            Expr::Other { operands } => {
                let (operands2, raised) = self.walk_exprs(operands)?;
                Ok((Expr::Other { operands: operands2 }, raised))
            },
        }
    }

    /// Decides what becomes of an attribute whose value has been visited:
    /// the text that replaces its value, if any, and whether it asks for
    /// the fallback object.
    pub fn replacement(&self, attr: &JsxAttr) -> (r: Result<(Option<String>, bool), TransformError>)
        ensures
            viewed_with(
                r,
                |name: Option<String>|
                    match name {
                        Some(n) => Some(n@),
                        None => None,
                    },
            ) == replacement(self@.context(), attr@),
    {
        match self.classify(attr) {
            ClassNameUsage::Untouched => Ok((None, false)),
            ClassNameUsage::Unrecognized => Ok((None, true)),
            ClassNameUsage::Lookup { key } => {
                let found = match self.style_mapping() {
                    Some(table) => table.get(key.as_str()),
                    None => None,
                };
                match found {
                    Some(export) => Ok((Some(export.name.clone()), false)),
                    None => Err(TransformError::UnresolvedClassKey { key }),
                }
            },
        }
    }

    /// Resolves an attribute whose value has been visited: a use of a class
    /// of the stylesheet becomes the scoped name of the class.
    pub fn resolve_attr(&self, attr: JsxAttr) -> (r: Result<(JsxAttr, bool), TransformError>)
        ensures
            viewed(r) == resolve_attr(self@.context(), attr@),
    {
        match self.replacement(&attr)? {
            (Some(name), raised) => Ok(
                (JsxAttr { name: attr.name, value: Some(JsxAttrValue::Str(name)) }, raised),
            ),
            (None, raised) => Ok((attr, raised)),
        }
    }

    /// Walks over an attribute: first over its value, then the attribute
    /// itself is resolved.
    pub fn walk_attr(&self, attr: JsxAttr) -> (r: Result<(JsxAttr, bool), TransformError>)
        ensures
            viewed(r) == rewrite_attr(self@.context(), attr@),
        decreases attr, 0nat,
    {
        let JsxAttr { name, value } = attr;
        match value {
            Some(JsxAttrValue::Container(e)) => {
                let (e2, r1) = self.walk_expr(e)?;
                let visited = JsxAttr { name, value: Some(JsxAttrValue::Container(e2)) };
                let (resolved, r2) = self.resolve_attr(visited)?;
                Ok((resolved, r1 || r2))
            },
            Some(JsxAttrValue::Element(element)) => {
                let (element2, raised) = self.walk_element(element)?;
                Ok((JsxAttr { name, value: Some(JsxAttrValue::Element(element2)) }, raised))
            },
            other => Ok((JsxAttr { name, value: other }, false)),
        }
    }

    /// Walks over the attributes of an element, from the left.
    pub fn walk_attrs(&self, attrs: Vec<JsxAttr>) -> (r: Result<
        (Vec<JsxAttr>, bool),
        TransformError,
    >)
        ensures
            viewed_with(r, |out: Vec<JsxAttr>| attrs_view(out@)) == rewrite_attrs(
                self@.context(),
                attrs_view(attrs@),
                attrs@.len(),
            ),
        decreases attrs, 0nat,
    {
        let ghost ctx = self@.context();
        let ghost items = attrs@;
        let ghost all = attrs_view(attrs@);
        let mut out: Vec<JsxAttr> = Vec::new();
        let mut raised = false;
        proof {
            assert(attrs_view(out@) =~= Seq::empty());
        }
        for a in it: attrs
            invariant
                it.seq() == items,
                all == attrs_view(items),
                ctx == self@.context(),
                forall|i: int| 0 <= i < items.len() ==> decreases_to!(attrs => items[i]),
                out@.len() == it.index(),
                rewrite_attrs(ctx, all, it.index() as nat) == Rewritten::<Seq<JsxAttrView>>::Ok(
                    (attrs_view(out@), raised),
                ),
        {
            let ghost before = out@;
            let ghost index = out@.len();
            match self.walk_attr(a) {
                Ok((a2, r)) => {
                    out.push(a2);
                    raised = raised || r;
                    proof {
                        assert(attrs_view(out@) =~= attrs_view(before).push(a2@));
                    }
                },
                Err(x) => {
                    proof {
                        lemma_rewrite_attrs_failed(ctx, all, index + 1, all.len());
                    }
                    return Err(x);
                },
            }
        }
        Ok((out, raised))
    }

    /// Walks over an element: its attributes, then its children.
    pub fn walk_element(&self, element: JsxElement) -> (r: Result<
        (JsxElement, bool),
        TransformError,
    >)
        ensures
            viewed(r) == rewrite_element(self@.context(), element@),
        decreases element, 0nat,
    {
        let JsxElement { name, attrs, children } = element;
        proof {
            assert(element@.attrs =~= attrs_view(attrs@));
        }
        let (attrs2, r1) = self.walk_attrs(attrs)?;
        let (children2, r2) = self.walk_exprs(children)?;
        let out = JsxElement { name, attrs: attrs2, children: children2 };
        proof {
            assert(out@.attrs =~= attrs_view(attrs2@));
        }
        Ok((out, r1 || r2))
    }

    /// Walks over a variable declaration.
    pub fn walk_var_decl(&self, decl: VarDecl) -> (r: Result<(VarDecl, bool), TransformError>)
        ensures
            viewed(r) == rewrite_var_decl(self@.context(), decl@),
        decreases decl, 0nat,
    {
        let VarDecl { kind, name, init } = decl;
        match init {
            None => Ok((VarDecl { kind, name, init: None }, false)),
            Some(e) => {
                let (e2, raised) = self.walk_expr(e)?;
                Ok((VarDecl { kind, name, init: Some(e2) }, raised))
            },
        }
    }

    /// Walks over a statement.
    pub fn walk_stmt(&self, stmt: Stmt) -> (r: Result<(Stmt, bool), TransformError>)
        ensures
            viewed(r) == rewrite_stmt(self@.context(), stmt@),
        decreases stmt, 0nat,
    {
        match stmt {
            Stmt::Empty => Ok((Stmt::Empty, false)),
            Stmt::Expr(e) => {
                let (e2, raised) = self.walk_expr(e)?;
                Ok((Stmt::Expr(e2), raised))
            },
            Stmt::Var(decl) => {
                let (decl2, raised) = self.walk_var_decl(decl)?;
                Ok((Stmt::Var(decl2), raised))
            },
            Stmt::Return(None) => Ok((Stmt::Return(None), false)),
            Stmt::Return(Some(e)) => {
                let (e2, raised) = self.walk_expr(e)?;
                Ok((Stmt::Return(Some(e2)), raised))
            },
            Stmt::Block(stmts) => {
                let stmts2 = self.visit_mut_stmts(stmts)?;
                Ok((Stmt::Block(stmts2), false))
            },
            Stmt::Other { exprs, stmts } => {
                let (exprs2, r1) = self.walk_exprs(exprs)?;
                let (stmts2, r2) = self.walk_stmts(stmts)?;
                Ok((Stmt::Other { exprs: exprs2, stmts: stmts2 }, r1 || r2))
            },
        }
    }

    /// Walks over the statements of a list, from the left.
    pub fn walk_stmts(&self, stmts: Vec<Stmt>) -> (r: Result<(Vec<Stmt>, bool), TransformError>)
        ensures
            viewed_with(r, |out: Vec<Stmt>| stmts_view(out@)) == rewrite_stmts(
                self@.context(),
                stmts_view(stmts@),
                stmts@.len(),
            ),
        decreases stmts, 0nat,
    {
        let ghost ctx = self@.context();
        let ghost items = stmts@;
        let ghost all = stmts_view(stmts@);
        let mut out: Vec<Stmt> = Vec::new();
        let mut raised = false;
        proof {
            assert(stmts_view(out@) =~= Seq::empty());
        }
        for s in it: stmts
            invariant
                it.seq() == items,
                all == stmts_view(items),
                ctx == self@.context(),
                forall|i: int| 0 <= i < items.len() ==> decreases_to!(stmts => items[i]),
                out@.len() == it.index(),
                rewrite_stmts(ctx, all, it.index() as nat) == Rewritten::<Seq<StmtView>>::Ok(
                    (stmts_view(out@), raised),
                ),
        {
            let ghost before = out@;
            let ghost index = out@.len();
            match self.walk_stmt(s) {
                Ok((s2, r)) => {
                    out.push(s2);
                    raised = raised || r;
                    proof {
                        assert(stmts_view(out@) =~= stmts_view(before).push(s2@));
                    }
                },
                Err(x) => {
                    proof {
                        lemma_rewrite_stmts_failed(ctx, all, index + 1, all.len());
                    }
                    return Err(x);
                },
            }
        }
        Ok((out, raised))
    }

    /// The properties of the fallback object: for each entry of the
    /// class-name table its class name and the scoped name of the class, in
    /// the order of the table.
    pub fn fallback_properties(&self) -> (pairs: Vec<(String, String)>)
        ensures
            pairs@.len() == self@.context().entries.len(),
            forall|i: int|
                0 <= i < pairs@.len() ==> (#[trigger] pairs@[i]).0@ == self@.context().entries[i].0
                    && pairs@[i].1@ == self@.context().entries[i].1.name,
    {
        let ghost entries = self@.context().entries;
        let mut pairs: Vec<(String, String)> = Vec::new();
        match self.style_mapping() {
            Some(table) => {
                let mut i: usize = 0;
                while i < table.len()
                    invariant
                        table@ == entries,
                        i <= entries.len(),
                        pairs@.len() == i,
                        forall|k: int|
                            0 <= k < i ==> (#[trigger] pairs@[k]).0@ == entries[k].0 && pairs@[k].1@
                                == entries[k].1.name,
                    decreases entries.len() - i,
                {
                    pairs.push((table.key_at(i).clone(), table.export_at(i).name.clone()));
                    i += 1;
                }
            },
            None => {},
        }
        pairs
    }

    /// The declaration that exposes the whole class-name table at run time.
    pub fn fallback_object(&self) -> (decl: Stmt)
        ensures
            decl@ == fallback_decl(self@.context().entries),
    {
        let ghost entries = self@.context().entries;
        let pairs = self.fallback_properties();
        let ghost given = pairs@;
        let mut props: Vec<Property> = Vec::new();
        for pair in it: pairs
            invariant
                it.seq() == given,
                given.len() == entries.len(),
                forall|i: int|
                    0 <= i < given.len() ==> (#[trigger] given[i]).0@ == entries[i].0 && given[i].1@
                        == entries[i].1.name,
                props@.len() == it.index(),
                forall|k: int|
                    0 <= k < props@.len() ==> (#[trigger] props@[k])@ == (PropertyView {
                        key: entries[k].0,
                        value: ExprView::Str(entries[k].1.name),
                    }),
        {
            let (key, name) = pair;
            props.push(Property { key, value: Expr::Str(name) });
        }
        let ghost listed = props@;
        let object = Expr::Object { props };
        proof {
            assert(listed.len() == entries.len());
            assert(object@ == ExprView::Object { props: props_view(listed) }) by {
                assert(expr_view(object)->Object_props =~= props_view(listed));
            }
            assert(props_view(listed) =~= Seq::new(
                entries.len(),
                |i: int|
                    PropertyView { key: entries[i].0, value: ExprView::Str(entries[i].1.name) },
            ));
        }
        let decl = VarDecl {
            kind: VarKind::Const,
            name: fallback_object_name(),
            init: Some(object),
        };
        proof {
            assert(decl@.init == Some(object@));
        }
        Stmt::Var(decl)
    }

    /// Visits the statements of a list in order and, where one of them
    /// needs the fallback object, puts its declaration behind them.
    pub fn visit_mut_stmt_like(&self, stmts: Vec<Stmt>) -> (r: Result<Vec<Stmt>, TransformError>)
        ensures
            match r {
                Ok(out) => rewrite_stmts(self@.context(), stmts_view(stmts@), stmts@.len())
                    matches Ok(visited) && stmts_view(out@) == with_fallback(
                    self@.context().entries,
                    visited.0,
                    visited.1,
                ),
                Err(x) => rewrite_stmts(self@.context(), stmts_view(stmts@), stmts@.len())
                    == Rewritten::<Seq<StmtView>>::Err(x@),
            },
        decreases stmts, 1nat,
    {
        let (mut stmts_updated, needed) = self.walk_stmts(stmts)?;
        if needed {
            let ghost before = stmts_updated@;
            let style_object = self.fallback_object();
            stmts_updated.push(style_object);
            proof {
                assert(stmts_view(stmts_updated@) =~= stmts_view(before).push(style_object@));
            }
        }
        Ok(stmts_updated)
    }

    /// Transforms a statement list: visits its statements, adds the
    /// fallback declaration where it is needed, and drops the empty
    /// statements.
    pub fn visit_mut_stmts(&self, stmts: Vec<Stmt>) -> (r: Result<Vec<Stmt>, TransformError>)
        ensures
            match r {
                Ok(out) => finish_stmts(self@.context(), stmts_view(stmts@)) == Ok::<
                    Seq<StmtView>,
                    TransformErrorView,
                >(stmts_view(out@)),
                Err(x) => finish_stmts(self@.context(), stmts_view(stmts@)) == Err::<
                    Seq<StmtView>,
                    TransformErrorView,
                >(x@),
            },
        decreases stmts, 2nat,
    {
        let visited = self.visit_mut_stmt_like(stmts)?;
        Ok(prune_stmts(visited))
    }
}

/// The name that the fallback object is bound to.
pub fn fallback_object_name() -> (name: String)
    ensures
        name@ == fallback_name(),
{
    "_styles".to_owned()
}

/// Drops the empty statements of a list; the others keep their order.
pub fn prune_stmts(stmts: Vec<Stmt>) -> (out: Vec<Stmt>)
    ensures
        stmts_view(out@) == prune(stmts_view(stmts@)),
{
    let ghost items = stmts@;
    let ghost all = stmts_view(stmts@);
    let mut out: Vec<Stmt> = Vec::new();
    proof {
        assert(all.take(0) =~= Seq::<StmtView>::empty());
        reveal(Seq::filter);
        assert(stmts_view(out@) =~= prune(all.take(0)));
    }
    for s in it: stmts
        invariant
            it.seq() == items,
            all == stmts_view(items),
            stmts_view(out@) == prune(all.take(it.index() as int)),
    {
        let ghost before = out@;
        let ghost index = it.index() as int;
        proof {
            assert(all.take(index + 1) =~= all.take(index).push(all[index]));
            all.take(index).lemma_filter_push(all[index], kept());
        }
        match s {
            Stmt::Empty => {},
            other => {
                out.push(other);
                proof {
                    assert(stmts_view(out@) =~= stmts_view(before).push(other@));
                }
            },
        }
    }
    proof {
        assert(all.take(all.len() as int) =~= all);
    }
    out
}

} // verus!
