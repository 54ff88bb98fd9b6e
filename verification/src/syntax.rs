//! The syntax tree that the transform works on: the nodes that it reads,
//! and around them as much of a module's structure as it walks through.
//!
//! Each type has a mathematical value, its view, over which the contracts of
//! the transform are stated.

use vstd::prelude::*;

verus! {

/// How an import binds a name.
#[derive(Debug, PartialEq, Eq)]
pub enum ImportSpecifier {
    /// `import local from "..."`
    Default { local: String },
    /// `import { local } from "..."`
    Named { local: String },
    /// `import * as local from "..."`
    Namespace { local: String },
}

pub ghost enum ImportSpecifierView {
    Default { local: Seq<char> },
    Named { local: Seq<char> },
    Namespace { local: Seq<char> },
}

impl View for ImportSpecifier {
    type V = ImportSpecifierView;

    open spec fn view(&self) -> ImportSpecifierView {
        match self {
            ImportSpecifier::Default { local } => ImportSpecifierView::Default { local: local@ },
            ImportSpecifier::Named { local } => ImportSpecifierView::Named { local: local@ },
            ImportSpecifier::Namespace { local } => ImportSpecifierView::Namespace {
                local: local@,
            },
        }
    }
}

/// An import declaration: the source it imports from and the names it
/// binds.
#[derive(Debug, PartialEq, Eq)]
pub struct ImportDecl {
    pub src: String,
    pub specifiers: Vec<ImportSpecifier>,
}

pub ghost struct ImportDeclView {
    pub src: Seq<char>,
    pub specifiers: Seq<ImportSpecifierView>,
}

impl View for ImportDecl {
    type V = ImportDeclView;

    open spec fn view(&self) -> ImportDeclView {
        ImportDeclView {
            src: self.src@,
            specifiers: self.specifiers@.map_values(|s: ImportSpecifier| s@),
        }
    }
}

/// The name of a JSX attribute.
#[derive(Debug, PartialEq, Eq)]
pub enum JsxAttrName {
    /// `name`
    Ident(String),
    /// `ns:name`
    Namespaced { ns: String, name: String },
}

pub ghost enum JsxAttrNameView {
    Ident(Seq<char>),
    Namespaced { ns: Seq<char>, name: Seq<char> },
}

impl View for JsxAttrName {
    type V = JsxAttrNameView;

    open spec fn view(&self) -> JsxAttrNameView {
        match self {
            JsxAttrName::Ident(name) => JsxAttrNameView::Ident(name@),
            JsxAttrName::Namespaced { ns, name } => JsxAttrNameView::Namespaced {
                ns: ns@,
                name: name@,
            },
        }
    }
}

/// The keyword of a variable declaration.
#[derive(Clone, Copy, Debug, PartialEq, Eq)]
pub enum VarKind {
    Var,
    Let,
    Const,
}

/// What a member access selects.
#[derive(Debug, PartialEq, Eq)]
pub enum MemberProp {
    /// `obj.name`
    Ident(String),
    /// `obj.#name`
    Private(String),
    /// `obj[expr]`
    Computed(Box<Expr>),
}

/// A property of an object literal.
#[derive(Debug, PartialEq, Eq)]
pub struct Property {
    pub key: String,
    pub value: Expr,
}

/// An expression.
#[allow(inconsistent_fields)]
#[derive(Debug, PartialEq, Eq)]
pub enum Expr {
    /// A reference to a name.
    Ident(String),
    /// A string literal.
    Str(String),
    /// `obj.prop`, `obj.#prop` or `obj[prop]`
    Member { obj: Box<Expr>, prop: MemberProp },
    /// A template literal: one more piece of text than interpolated
    /// expressions.
    Template { quasis: Vec<String>, exprs: Vec<Expr> },
    /// An object literal.
    Object { props: Vec<Property> },
    /// A function whose body is an expression.
    Arrow { params: Vec<String>, body: Box<Expr> },
    /// A function whose body is a list of statements.
    Function { params: Vec<String>, body: Vec<Stmt> },
    /// A JSX element.
    Element(JsxElement),
    /// Any other expression, with the expressions directly below it.
    Other { operands: Vec<Expr> },
}

/// The value of a JSX attribute.
#[derive(Debug, PartialEq, Eq)]
pub enum JsxAttrValue {
    /// `name="text"`
    Str(String),
    /// `name={expr}`
    Container(Expr),
    /// `name={}`
    EmptyContainer,
    /// `name=<element/>`
    Element(JsxElement),
}

/// A JSX attribute.
#[derive(Debug, PartialEq, Eq)]
pub struct JsxAttr {
    pub name: JsxAttrName,
    pub value: Option<JsxAttrValue>,
}

/// A JSX element with its attributes and what stands between its tags.
#[derive(Debug, PartialEq, Eq)]
pub struct JsxElement {
    pub name: String,
    pub attrs: Vec<JsxAttr>,
    pub children: Vec<Expr>,
}

/// The declaration of one variable.
#[derive(Debug, PartialEq, Eq)]
pub struct VarDecl {
    pub kind: VarKind,
    pub name: String,
    pub init: Option<Expr>,
}

/// A statement.
#[derive(Debug, PartialEq, Eq)]
pub enum Stmt {
    /// `;`
    Empty,
    /// An expression as a statement.
    Expr(Expr),
    /// A variable declaration.
    Var(VarDecl),
    /// `return` with or without a value.
    Return(Option<Expr>),
    /// `{ ... }`
    Block(Vec<Stmt>),
    /// Any other statement, with the expressions and the statements
    /// directly below it. The statements are no statement list: each
    /// stands alone, as the branches of an `if` do.
    Other { exprs: Vec<Expr>, stmts: Vec<Stmt> },
}

/// An item at the top level of a module.
#[derive(Debug, PartialEq, Eq)]
pub enum ModuleItem {
    /// An import declaration.
    Import(ImportDecl),
    /// An exported variable declaration.
    Export(VarDecl),
    /// A statement.
    Stmt(Stmt),
}

/// A module: its items in source order.
#[derive(Debug, PartialEq, Eq)]
pub struct Module {
    pub body: Vec<ModuleItem>,
}

pub ghost enum MemberPropView {
    Ident(Seq<char>),
    Private(Seq<char>),
    Computed(Box<ExprView>),
}

pub ghost struct PropertyView {
    pub key: Seq<char>,
    pub value: ExprView,
}

#[allow(inconsistent_fields)]
pub ghost enum ExprView {
    Ident(Seq<char>),
    Str(Seq<char>),
    Member { obj: Box<ExprView>, prop: MemberPropView },
    Template { quasis: Seq<Seq<char>>, exprs: Seq<ExprView> },
    Object { props: Seq<PropertyView> },
    Arrow { params: Seq<Seq<char>>, body: Box<ExprView> },
    Function { params: Seq<Seq<char>>, body: Seq<StmtView> },
    Element(JsxElementView),
    Other { operands: Seq<ExprView> },
}

pub ghost enum JsxAttrValueView {
    Str(Seq<char>),
    Container(ExprView),
    EmptyContainer,
    Element(JsxElementView),
}

pub ghost struct JsxAttrView {
    pub name: JsxAttrNameView,
    pub value: Option<JsxAttrValueView>,
}

pub ghost struct JsxElementView {
    pub name: Seq<char>,
    pub attrs: Seq<JsxAttrView>,
    pub children: Seq<ExprView>,
}

pub ghost struct VarDeclView {
    pub kind: VarKind,
    pub name: Seq<char>,
    pub init: Option<ExprView>,
}

pub ghost enum StmtView {
    Empty,
    Expr(ExprView),
    Var(VarDeclView),
    Return(Option<ExprView>),
    Block(Seq<StmtView>),
    Other { exprs: Seq<ExprView>, stmts: Seq<StmtView> },
}

pub ghost enum ModuleItemView {
    Import(ImportDeclView),
    Export(VarDeclView),
    Stmt(StmtView),
}

pub ghost struct ModuleView {
    pub body: Seq<ModuleItemView>,
}

/// The value of a member selector.
pub open spec fn prop_view(p: MemberProp) -> MemberPropView
    decreases p,
{
    match p {
        MemberProp::Ident(name) => MemberPropView::Ident(name@),
        MemberProp::Private(name) => MemberPropView::Private(name@),
        MemberProp::Computed(e) => MemberPropView::Computed(Box::new(expr_view(*e))),
    }
}

/// The values of a list of expressions.
pub open spec fn exprs_view(es: Seq<Expr>) -> Seq<ExprView>
    decreases es,
{
    Seq::new(
        es.len(),
        |i: int|
            if 0 <= i < es.len() {
                expr_view(es[i])
            } else {
                arbitrary()
            },
    )
}

/// The values of a list of statements.
pub open spec fn stmts_view(ss: Seq<Stmt>) -> Seq<StmtView>
    decreases ss,
{
    Seq::new(
        ss.len(),
        |i: int|
            if 0 <= i < ss.len() {
                stmt_view(ss[i])
            } else {
                arbitrary()
            },
    )
}

/// The value of an expression.
pub open spec fn expr_view(e: Expr) -> ExprView
    decreases e,
{
    match e {
        Expr::Ident(name) => ExprView::Ident(name@),
        Expr::Str(value) => ExprView::Str(value@),
        Expr::Member { obj, prop } => ExprView::Member {
            obj: Box::new(expr_view(*obj)),
            prop: prop_view(prop),
        },
        Expr::Template { quasis, exprs } => ExprView::Template {
            quasis: quasis.deep_view(),
            exprs: exprs_view(exprs@),
        },
        Expr::Object { props } => ExprView::Object {
            props: Seq::new(
                props@.len(),
                |i: int|
                    if 0 <= i < props@.len() {
                        PropertyView { key: props@[i].key@, value: expr_view(props@[i].value) }
                    } else {
                        arbitrary()
                    },
            ),
        },
        Expr::Arrow { params, body } => ExprView::Arrow {
            params: params.deep_view(),
            body: Box::new(expr_view(*body)),
        },
        Expr::Function { params, body } => ExprView::Function {
            params: params.deep_view(),
            body: stmts_view(body@),
        },
        Expr::Element(element) => ExprView::Element(element_view(element)),
        Expr::Other { operands } => ExprView::Other { operands: exprs_view(operands@) },
    }
}

/// The value of a JSX element.
pub open spec fn element_view(el: JsxElement) -> JsxElementView
    decreases el,
{
    JsxElementView {
        name: el.name@,
        attrs: Seq::new(
            el.attrs@.len(),
            |i: int|
                if 0 <= i < el.attrs@.len() {
                    attr_view(el.attrs@[i])
                } else {
                    arbitrary()
                },
        ),
        children: exprs_view(el.children@),
    }
}

/// The value of what a JSX attribute is set to.
pub open spec fn attr_value_view(v: JsxAttrValue) -> JsxAttrValueView
    decreases v,
{
    match v {
        JsxAttrValue::Str(text) => JsxAttrValueView::Str(text@),
        JsxAttrValue::Container(e) => JsxAttrValueView::Container(expr_view(e)),
        JsxAttrValue::EmptyContainer => JsxAttrValueView::EmptyContainer,
        JsxAttrValue::Element(el) => JsxAttrValueView::Element(element_view(el)),
    }
}

/// The value of a JSX attribute.
pub open spec fn attr_view(a: JsxAttr) -> JsxAttrView
    decreases a,
{
    JsxAttrView {
        name: a.name@,
        value: match a.value {
            None => None,
            Some(v) => Some(attr_value_view(v)),
        },
    }
}

/// The value of a variable declaration.
pub open spec fn var_decl_view(d: VarDecl) -> VarDeclView
    decreases d,
{
    VarDeclView {
        kind: d.kind,
        name: d.name@,
        init: match d.init {
            None => None,
            Some(e) => Some(expr_view(e)),
        },
    }
}

/// The value of a statement.
pub open spec fn stmt_view(s: Stmt) -> StmtView
    decreases s,
{
    match s {
        Stmt::Empty => StmtView::Empty,
        Stmt::Expr(e) => StmtView::Expr(expr_view(e)),
        Stmt::Var(d) => StmtView::Var(var_decl_view(d)),
        Stmt::Return(None) => StmtView::Return(None),
        Stmt::Return(Some(e)) => StmtView::Return(Some(expr_view(e))),
        Stmt::Block(stmts) => StmtView::Block(stmts_view(stmts@)),
        Stmt::Other { exprs, stmts } => StmtView::Other {
            exprs: exprs_view(exprs@),
            stmts: stmts_view(stmts@),
        },
    }
}

impl View for MemberProp {
    type V = MemberPropView;

    open spec fn view(&self) -> MemberPropView {
        prop_view(*self)
    }
}

impl View for Property {
    type V = PropertyView;

    open spec fn view(&self) -> PropertyView {
        PropertyView { key: self.key@, value: expr_view(self.value) }
    }
}

impl View for Expr {
    type V = ExprView;

    open spec fn view(&self) -> ExprView {
        expr_view(*self)
    }
}

impl View for JsxAttrValue {
    type V = JsxAttrValueView;

    open spec fn view(&self) -> JsxAttrValueView {
        attr_value_view(*self)
    }
}

impl View for JsxAttr {
    type V = JsxAttrView;

    open spec fn view(&self) -> JsxAttrView {
        attr_view(*self)
    }
}

impl View for JsxElement {
    type V = JsxElementView;

    open spec fn view(&self) -> JsxElementView {
        element_view(*self)
    }
}

impl View for VarDecl {
    type V = VarDeclView;

    open spec fn view(&self) -> VarDeclView {
        var_decl_view(*self)
    }
}

impl View for Stmt {
    type V = StmtView;

    open spec fn view(&self) -> StmtView {
        stmt_view(*self)
    }
}

impl View for ModuleItem {
    type V = ModuleItemView;

    open spec fn view(&self) -> ModuleItemView {
        match self {
            ModuleItem::Import(decl) => ModuleItemView::Import(decl@),
            ModuleItem::Export(decl) => ModuleItemView::Export(decl@),
            ModuleItem::Stmt(stmt) => ModuleItemView::Stmt(stmt@),
        }
    }
}

/// The values of a list of module items.
pub open spec fn items_view(items: Seq<ModuleItem>) -> Seq<ModuleItemView> {
    items.map_values(|item: ModuleItem| item@)
}

impl View for Module {
    type V = ModuleView;

    open spec fn view(&self) -> ModuleView {
        ModuleView { body: items_view(self.body@) }
    }
}

} // verus!
