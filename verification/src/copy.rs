//! Copies of syntax trees.

use crate::syntax::{
    exprs_view, stmts_view, Expr, ImportDecl, ImportSpecifier, JsxAttr, JsxAttrName,
    JsxAttrValue, JsxElement, MemberProp, Module, ModuleItem, Property, Stmt, VarDecl,
};
use vstd::prelude::*;

verus! {

/// A copy of a list of texts.
pub fn clone_strings(texts: &Vec<String>) -> (copy: Vec<String>)
    ensures
        copy.deep_view() == texts.deep_view(),
{
    let mut copy: Vec<String> = Vec::new();
    let mut i: usize = 0;
    while i < texts.len()
        invariant
            i <= texts@.len(),
            copy@.len() == i,
            forall|k: int| 0 <= k < i ==> copy@[k]@ == texts@[k]@,
        decreases texts.len() - i,
    {
        copy.push(texts[i].clone());
        i += 1;
    }
    proof {
        assert(copy.deep_view() =~= texts.deep_view());
    }
    copy
}

fn clone_exprs(es: &Vec<Expr>) -> (copy: Vec<Expr>)
    ensures
        exprs_view(copy@) == exprs_view(es@),
    decreases es,
{
    let mut copy: Vec<Expr> = Vec::new();
    let mut i: usize = 0;
    while i < es.len()
        invariant
            i <= es@.len(),
            copy@.len() == i,
            forall|k: int| 0 <= k < i ==> copy@[k]@ == es@[k]@,
        decreases es.len() - i,
    {
        copy.push(es[i].clone());
        i += 1;
    }
    proof {
        assert(exprs_view(copy@) =~= exprs_view(es@));
    }
    copy
}

fn clone_stmts(stmts: &Vec<Stmt>) -> (copy: Vec<Stmt>)
    ensures
        stmts_view(copy@) == stmts_view(stmts@),
    decreases stmts,
{
    let mut copy: Vec<Stmt> = Vec::new();
    let mut i: usize = 0;
    while i < stmts.len()
        invariant
            i <= stmts@.len(),
            copy@.len() == i,
            forall|k: int| 0 <= k < i ==> copy@[k]@ == stmts@[k]@,
        decreases stmts.len() - i,
    {
        copy.push(stmts[i].clone());
        i += 1;
    }
    proof {
        assert(stmts_view(copy@) =~= stmts_view(stmts@));
    }
    copy
}

impl Clone for ImportSpecifier {
    fn clone(&self) -> (copy: ImportSpecifier)
        ensures
            copy@ == self@,
    {
        match self {
            ImportSpecifier::Default { local } => ImportSpecifier::Default { local: local.clone() },
            ImportSpecifier::Named { local } => ImportSpecifier::Named { local: local.clone() },
            ImportSpecifier::Namespace { local } => ImportSpecifier::Namespace {
                local: local.clone(),
            },
        }
    }
}

impl Clone for ImportDecl {
    fn clone(&self) -> (copy: ImportDecl)
        ensures
            copy@ == self@,
    {
        let mut specifiers: Vec<ImportSpecifier> = Vec::new();
        let mut i: usize = 0;
        while i < self.specifiers.len()
            invariant
                i <= self.specifiers@.len(),
                specifiers@.len() == i,
                forall|k: int| 0 <= k < i ==> specifiers@[k]@ == self.specifiers@[k]@,
            decreases self.specifiers.len() - i,
        {
            specifiers.push(self.specifiers[i].clone());
            i += 1;
        }
        let copy = ImportDecl { src: self.src.clone(), specifiers };
        proof {
            assert(copy@.specifiers =~= self@.specifiers);
        }
        copy
    }
}

impl Clone for JsxAttrName {
    fn clone(&self) -> (copy: JsxAttrName)
        ensures
            copy@ == self@,
    {
        match self {
            JsxAttrName::Ident(name) => JsxAttrName::Ident(name.clone()),
            JsxAttrName::Namespaced { ns, name } => JsxAttrName::Namespaced {
                ns: ns.clone(),
                name: name.clone(),
            },
        }
    }
}

impl Clone for MemberProp {
    fn clone(&self) -> (copy: MemberProp)
        ensures
            copy@ == self@,
        decreases self,
    {
        match self {
            MemberProp::Ident(name) => MemberProp::Ident(name.clone()),
            MemberProp::Private(name) => MemberProp::Private(name.clone()),
            MemberProp::Computed(e) => MemberProp::Computed(Box::new((**e).clone())),
        }
    }
}

impl Clone for Expr {
    fn clone(&self) -> (copy: Expr)
        ensures
            copy@ == self@,
        decreases self,
    {
        match self {
            Expr::Ident(name) => Expr::Ident(name.clone()),
            Expr::Str(value) => Expr::Str(value.clone()),
            Expr::Member { obj, prop } => Expr::Member {
                obj: Box::new((**obj).clone()),
                prop: prop.clone(),
            },
            Expr::Template { quasis, exprs } => Expr::Template {
                quasis: clone_strings(quasis),
                exprs: clone_exprs(exprs),
            },
            Expr::Object { props } => {
                let mut copy: Vec<Property> = Vec::new();
                let mut i: usize = 0;
                while i < props.len()
                    invariant
                        i <= props@.len(),
                        copy@.len() == i,
                        forall|k: int| 0 <= k < i ==> copy@[k]@ == props@[k]@,
                        forall|k: int| 0 <= k < props@.len() ==> decreases_to!(self => props@[k]),
                    decreases props.len() - i,
                {
                    copy.push(props[i].clone());
                    i += 1;
                }
                let object = Expr::Object { props: copy };
                proof {
                    assert(object@->Object_props =~= self@->Object_props);
                }
                object
            },
            Expr::Arrow { params, body } => Expr::Arrow {
                params: clone_strings(params),
                body: Box::new((**body).clone()),
            },
            Expr::Function { params, body } => Expr::Function {
                params: clone_strings(params),
                body: clone_stmts(body),
            },
            Expr::Element(element) => Expr::Element(element.clone()),
            Expr::Other { operands } => Expr::Other { operands: clone_exprs(operands) },
        }
    }
}

impl Clone for Property {
    fn clone(&self) -> (copy: Property)
        ensures
            copy@ == self@,
        decreases self,
    {
        Property { key: self.key.clone(), value: self.value.clone() }
    }
}

impl Clone for JsxAttrValue {
    fn clone(&self) -> (copy: JsxAttrValue)
        ensures
            copy@ == self@,
        decreases self,
    {
        match self {
            JsxAttrValue::Str(text) => JsxAttrValue::Str(text.clone()),
            JsxAttrValue::Container(e) => JsxAttrValue::Container(e.clone()),
            JsxAttrValue::EmptyContainer => JsxAttrValue::EmptyContainer,
            JsxAttrValue::Element(element) => JsxAttrValue::Element(element.clone()),
        }
    }
}

impl Clone for JsxAttr {
    fn clone(&self) -> (copy: JsxAttr)
        ensures
            copy@ == self@,
        decreases self,
    {
        let value = match &self.value {
            None => None,
            Some(value) => Some(value.clone()),
        };
        JsxAttr { name: self.name.clone(), value }
    }
}

impl Clone for JsxElement {
    fn clone(&self) -> (copy: JsxElement)
        ensures
            copy@ == self@,
        decreases self,
    {
        let mut attrs: Vec<JsxAttr> = Vec::new();
        let mut i: usize = 0;
        while i < self.attrs.len()
            invariant
                i <= self.attrs@.len(),
                attrs@.len() == i,
                forall|k: int| 0 <= k < i ==> attrs@[k]@ == self.attrs@[k]@,
            decreases self.attrs.len() - i,
        {
            attrs.push(self.attrs[i].clone());
            i += 1;
        }
        let copy = JsxElement {
            name: self.name.clone(),
            attrs,
            children: clone_exprs(&self.children),
        };
        proof {
            assert(copy@.attrs =~= self@.attrs);
        }
        copy
    }
}

impl Clone for VarDecl {
    fn clone(&self) -> (copy: VarDecl)
        ensures
            copy@ == self@,
        decreases self,
    {
        VarDecl {
            kind: self.kind,
            name: self.name.clone(),
            init: match &self.init {
                None => None,
                Some(e) => Some(e.clone()),
            },
        }
    }
}

impl Clone for Stmt {
    fn clone(&self) -> (copy: Stmt)
        ensures
            copy@ == self@,
        decreases self,
    {
        match self {
            Stmt::Empty => Stmt::Empty,
            Stmt::Expr(e) => Stmt::Expr(e.clone()),
            Stmt::Var(decl) => Stmt::Var(decl.clone()),
            Stmt::Return(None) => Stmt::Return(None),
            Stmt::Return(Some(e)) => Stmt::Return(Some(e.clone())),
            Stmt::Block(stmts) => Stmt::Block(clone_stmts(stmts)),
            Stmt::Other { exprs, stmts } => Stmt::Other {
                exprs: clone_exprs(exprs),
                stmts: clone_stmts(stmts),
            },
        }
    }
}

impl Clone for ModuleItem {
    fn clone(&self) -> (copy: ModuleItem)
        ensures
            copy@ == self@,
    {
        match self {
            ModuleItem::Import(decl) => ModuleItem::Import(decl.clone()),
            ModuleItem::Export(decl) => ModuleItem::Export(decl.clone()),
            ModuleItem::Stmt(stmt) => ModuleItem::Stmt(stmt.clone()),
        }
    }
}

impl Clone for Module {
    fn clone(&self) -> (copy: Module)
        ensures
            copy@ == self@,
    {
        let mut body: Vec<ModuleItem> = Vec::new();
        let mut i: usize = 0;
        while i < self.body.len()
            invariant
                i <= self.body@.len(),
                body@.len() == i,
                forall|k: int| 0 <= k < i ==> body@[k]@ == self.body@[k]@,
            decreases self.body.len() - i,
        {
            body.push(self.body[i].clone());
            i += 1;
        }
        let copy = Module { body };
        proof {
            assert(copy@.body =~= self@.body);
        }
        copy
    }
}

} // verus!
