//! The visitor: the state of one walk over a module, and the walk itself.

use crate::loader::{
    files_view, get_css_module_mapping, MappingFile, TransformError, TransformErrorView,
};
use crate::mapping::CssModuleExports;
use crate::module::{
    commit, default_binding, finish_items, kept_item, lemma_visit_items_failed,
    lemma_visit_items_step, needs_mapping, prune_items, resolve_import, settle_import,
    transform, visit_item, visit_items, TransformVisitorView,
};
use crate::rewrite::{classify, replacement, rewrite_attr, ClassNameUsageView};
use crate::syntax::{
    expr_view, items_view, prop_view, Expr, ExprView, ImportDecl, ImportSpecifier, JsxAttr,
    JsxAttrName, JsxAttrValue, MemberProp, Module, ModuleItem, ModuleItemView, Stmt,
};
use crate::text::{is_stylesheet_path, same_text};
use vstd::prelude::*;

verus! {

/// The state of one walk over a module. A visitor serves one module and is
/// not used again.
#[derive(Debug, PartialEq, Eq)]
pub struct TransformVisitor {
    /// The class-name table of the stylesheet import that was resolved
    /// last.
    css_module_map: Option<CssModuleExports>,
    /// The name that the module binds the style object to.
    style_import_name: Option<String>,
    /// Whether the statement list that is being walked needs the fallback
    /// object.
    should_create_mapped_class_obj: bool,
}

impl View for TransformVisitor {
    type V = TransformVisitorView;

    closed spec fn view(&self) -> TransformVisitorView {
        TransformVisitorView {
            css_module_map: match self.css_module_map {
                Some(table) => Some(table@),
                None => None,
            },
            style_import_name: match self.style_import_name {
                Some(name) => Some(name@),
                None => None,
            },
            should_create_mapped_class_obj: self.should_create_mapped_class_obj,
        }
    }
}

/// The value of what a visit returned.
pub open spec fn outcome<T: View>(r: Result<T, TransformError>) -> Result<
    T::V,
    TransformErrorView,
> {
    match r {
        Ok(node) => Ok(node@),
        Err(x) => Err(x@),
    }
}

/// What the value of an attribute is to the transform.
#[derive(Debug, PartialEq, Eq)]
pub enum ClassNameUsage {
    /// Not a use of the style object.
    Untouched,
    /// A use of the class `key` of the stylesheet.
    Lookup { key: String },
    /// An expression from which no single class can be read.
    Unrecognized,
}

impl View for ClassNameUsage {
    type V = ClassNameUsageView;

    open spec fn view(&self) -> ClassNameUsageView {
        match self {
            ClassNameUsage::Untouched => ClassNameUsageView::Untouched,
            ClassNameUsage::Lookup { key } => ClassNameUsageView::Lookup { key: key@ },
            ClassNameUsage::Unrecognized => ClassNameUsageView::Unrecognized,
        }
    }
}

impl ModuleItem {
    /// The item that stands for a visited import, where `bound` tells
    /// whether the import bound a name before it was visited: an empty
    /// statement where the visit has cleared its specifiers, else the
    /// import.
    pub fn from_visited_import(bound: bool, visited: ImportDecl) -> (item: ModuleItem)
        ensures
            item@ == settle_import(bound, visited@),
    {
        if bound && visited.specifiers.is_empty() {
            ModuleItem::Stmt(Stmt::Empty)
        } else {
            ModuleItem::Import(visited)
        }
    }
}

impl ImportDecl {
    /// Whether the import binds a name.
    pub fn binds_names(&self) -> (b: bool)
        ensures
            b == (self@.specifiers.len() > 0),
    {
        !self.specifiers.is_empty()
    }

    /// Whether the import is one that the transform resolves: it binds a
    /// name and its source is a CSS module.
    pub fn needs_mapping(&self) -> (b: bool)
        ensures
            b == needs_mapping(self@),
    {
        self.binds_names() && is_stylesheet_path(self.src.as_str())
    }
}

impl TransformVisitor {
    /// The visitor at the start of a walk: no table, no binding, no need
    /// for the fallback object.
    pub fn new() -> (visitor: TransformVisitor)
        ensures
            visitor@ == TransformVisitorView::fresh(),
    {
        TransformVisitor {
            css_module_map: None,
            style_import_name: None,
            should_create_mapped_class_obj: false,
        }
    }

    /// The class-name table of the stylesheet import that was resolved
    /// last.
    pub fn style_mapping(&self) -> (table: Option<&CssModuleExports>)
        ensures
            match table {
                Some(t) => self@.css_module_map == Some(t@),
                None => self@.css_module_map is None,
            },
    {
        self.css_module_map.as_ref()
    }

    /// The name that the module binds the style object to.
    pub fn style_binding_name(&self) -> (name: Option<&String>)
        ensures
            match name {
                Some(n) => self@.style_import_name == Some(n@),
                None => self@.style_import_name is None,
            },
    {
        self.style_import_name.as_ref()
    }

    /// Whether the statement list that is being walked needs the fallback
    /// object.
    pub fn needs_fallback_object(&self) -> (needed: bool)
        ensures
            needed == self@.should_create_mapped_class_obj,
    {
        self.should_create_mapped_class_obj
    }

    /// Whether `name` is the name that the style object is bound to.
    fn is_style_binding(&self, name: &String) -> (b: bool)
        ensures
            b == (self@.style_import_name == Some(name@)),
    {
        match &self.style_import_name {
            Some(binding) => same_text(binding.as_str(), name.as_str()),
            None => false,
        }
    }

    /// Classifies an attribute whose value has been visited.
    pub fn classify(&self, attr: &JsxAttr) -> (usage: ClassNameUsage)
        ensures
            usage@ == classify(self@.style_import_name, attr@),
    {
        let is_class = match &attr.name {
            JsxAttrName::Ident(name) => same_text(name.as_str(), "className"),
            JsxAttrName::Namespaced { .. } => false,
        };
        if !is_class {
            return ClassNameUsage::Untouched;
        }
        match &attr.value {
            Some(JsxAttrValue::Container(e)) => match e {
                Expr::Member { obj, prop } => {
                    proof {
                        assert(e@ == ExprView::Member {
                            obj: Box::new(expr_view(**obj)),
                            prop: prop_view(*prop),
                        });
                    }
                    let on_binding = match &**obj {
                        Expr::Ident(name) => self.is_style_binding(name),
                        _ => false,
                    };
                    if on_binding {
                        match prop {
                            MemberProp::Ident(key) => ClassNameUsage::Lookup { key: key.clone() },
                            _ => ClassNameUsage::Unrecognized,
                        }
                    } else {
                        ClassNameUsage::Untouched
                    }
                },
                _ => ClassNameUsage::Unrecognized,
            },
            _ => ClassNameUsage::Untouched,
        }
    }

    /// Opens a statement list: what the list around needs is handed out to
    /// be kept, and the visitor starts to note what this list needs.
    pub fn enter_statement_list(&mut self) -> (around: bool)
        ensures
            around == old(self)@.should_create_mapped_class_obj,
            final(self)@ == (TransformVisitorView {
                should_create_mapped_class_obj: false,
                ..old(self)@
            }),
    {
        let around = self.should_create_mapped_class_obj;
        self.should_create_mapped_class_obj = false;
        around
    }

    /// Closes a statement list whose statements have been visited, and
    /// tells whether the fallback declaration is to be put behind them.
    /// The visitor goes back to what the list around needs, which `around`
    /// holds.
    pub fn leave_statement_list(&mut self, around: bool) -> (needed: bool)
        ensures
            needed == old(self)@.should_create_mapped_class_obj,
            final(self)@ == (TransformVisitorView {
                should_create_mapped_class_obj: around,
                ..old(self)@
            }),
    {
        let needed = self.should_create_mapped_class_obj;
        self.should_create_mapped_class_obj = around;
        needed
    }

    /// Visits an import declaration. One that binds no name, or whose
    /// source is no CSS module, is returned as it is. Of any other the
    /// class-name table is loaded from `files` and kept, the name of its
    /// default specifier becomes the style binding, and the declaration is
    /// returned without specifiers.
    pub fn visit_mut_import_decl(&mut self, node: ImportDecl, files: &Vec<MappingFile>) -> (r:
        Result<ImportDecl, TransformError>)
        ensures
            (outcome(r), final(self)@) == resolve_import(files_view(files@), old(self)@, node@),
    {
        if !node.needs_mapping() {
            return Ok(node);
        }
        let table = get_css_module_mapping(node.src.as_str(), files)?;
        self.css_module_map = Some(table);
        let ghost specifiers = node@.specifiers;
        let ghost before = old(self)@.style_import_name;
        let mut i: usize = 0;
        while i < node.specifiers.len()
            invariant
                i <= node.specifiers@.len(),
                specifiers == node@.specifiers,
                self@.style_import_name == default_binding(specifiers, i as nat, before),
                self@.css_module_map == Some(table@),
                self@.should_create_mapped_class_obj == old(self)@.should_create_mapped_class_obj,
            decreases node.specifiers.len() - i,
        {
            match &node.specifiers[i] {
                ImportSpecifier::Default { local } => {
                    self.style_import_name = Some(local.clone());
                },
                _ => {},
            }
            i += 1;
        }
        let cleared = ImportDecl { src: node.src, specifiers: Vec::new() };
        proof {
            assert(cleared@.specifiers =~= Seq::empty());
        }
        Ok(cleared)
    }

    /// Decides what becomes of a JSX attribute whose value has been visited,
    /// and notes what it asks for: the scoped class name that is to replace
    /// the value of a class attribute `binding.key`, if the attribute is
    /// one. The visit fails where the table lacks the class. A class
    /// attribute with another expression as its value gets no replacement,
    /// and the visitor notes that the fallback object is needed.
    pub fn replace_class_name(&mut self, attr: &JsxAttr) -> (r: Result<
        Option<String>,
        TransformError,
    >)
        ensures
            (
                match r {
                    Ok(Some(name)) => Ok(Some(name@)),
                    Ok(None) => Ok(None),
                    Err(x) => Err(x@),
                },
                final(self)@,
            ) == commit(old(self)@, replacement(old(self)@.context(), attr@)),
    {
        let (name, raised) = self.replacement(attr)?;
        if raised {
            self.should_create_mapped_class_obj = true;
        }
        Ok(name)
    }

    /// Visits a JSX attribute: the nodes below it, then the attribute
    /// itself. A class attribute whose value is `binding.key` gets the
    /// scoped name of the class `key` as its value; the visit fails where
    /// the table lacks the class. A class attribute with another expression
    /// as its value stays as it is, and the visitor notes that the fallback
    /// object is needed.
    pub fn visit_mut_jsx_attr(&mut self, attr: JsxAttr) -> (r: Result<JsxAttr, TransformError>)
        ensures
            (outcome(r), final(self)@) == commit(
                old(self)@,
                rewrite_attr(old(self)@.context(), attr@),
            ),
    {
        let (visited, raised) = self.walk_attr(attr)?;
        if raised {
            self.should_create_mapped_class_obj = true;
        }
        Ok(visited)
    }

    /// Visits a module item: what lies below it, then the item itself. An
    /// import whose specifiers the visit has cleared gives way to an empty
    /// statement; every other import stays as it is.
    pub fn visit_mut_module_item(&mut self, node: ModuleItem, files: &Vec<MappingFile>) -> (r:
        Result<ModuleItem, TransformError>)
        ensures
            (outcome(r), final(self)@) == visit_item(files_view(files@), old(self)@, node@),
    {
        reveal(visit_item);
        match node {
            ModuleItem::Import(import) => {
                let bound = import.binds_names();
                let visited = self.visit_mut_import_decl(import, files)?;
                Ok(ModuleItem::from_visited_import(bound, visited))
            },
            ModuleItem::Export(decl) => {
                let (visited, raised) = self.walk_var_decl(decl)?;
                if raised {
                    self.should_create_mapped_class_obj = true;
                }
                Ok(ModuleItem::Export(visited))
            },
            ModuleItem::Stmt(stmt) => {
                let (visited, raised) = self.walk_stmt(stmt)?;
                if raised {
                    self.should_create_mapped_class_obj = true;
                }
                Ok(ModuleItem::Stmt(visited))
            },
        }
    }

    /// Transforms the items of a module: visits them in order, adds the
    /// fallback declaration where it is needed, and drops the empty
    /// statements, among them the imports that were resolved.
    pub fn visit_mut_module_items(
        &mut self,
        stmts: Vec<ModuleItem>,
        files: &Vec<MappingFile>,
    ) -> (r: Result<Vec<ModuleItem>, TransformError>)
        ensures
            (
                match r {
                    Ok(out) => Ok(items_view(out@)),
                    Err(x) => Err(x@),
                },
                final(self)@,
            ) == finish_items(files_view(files@), old(self)@, items_view(stmts@)),
    {
        let around = self.enter_statement_list();
        let ghost inner = self@;
        let ghost items = stmts@;
        let ghost all = items_view(stmts@);
        let ghost fs = files_view(files@);
        let mut stmts_updated: Vec<ModuleItem> = Vec::new();
        proof {
            assert(items_view(stmts_updated@) =~= Seq::empty());
        }
        for stmt in it: stmts
            invariant
                it.seq() == items,
                all == items_view(items),
                fs == files_view(files@),
                around == old(self)@.should_create_mapped_class_obj,
                inner == (TransformVisitorView {
                    should_create_mapped_class_obj: false,
                    ..old(self)@
                }),
                stmts_updated@.len() == it.index(),
                visit_items(fs, inner, all, it.index() as nat) == (
                    Ok::<Seq<ModuleItemView>, TransformErrorView>(items_view(stmts_updated@)),
                    self@,
                ),
        {
            let ghost before = stmts_updated@;
            let ghost index = stmts_updated@.len();
            let ghost state = self@;
            proof {
                assert(all[index as int] == stmt@);
                lemma_visit_items_step(fs, inner, all, index + 1);
            }
            let visit = self.visit_mut_module_item(stmt, files);
            proof {
                assert((outcome(visit), self@) == visit_item(fs, state, all[index as int]));
            }
            match visit {
                Ok(visited) => {
                    stmts_updated.push(visited);
                    proof {
                        assert(items_view(stmts_updated@) =~= items_view(before).push(visited@));
                    }
                },
                Err(x) => {
                    proof {
                        lemma_visit_items_failed(fs, inner, all, index + 1, all.len());
                    }
                    self.should_create_mapped_class_obj = around;
                    return Err(x);
                },
            }
        }
        if self.leave_statement_list(around) {
            let ghost before = stmts_updated@;
            let style_object = ModuleItem::Stmt(self.fallback_object());
            stmts_updated.push(style_object);
            proof {
                assert(items_view(stmts_updated@) =~= items_view(before).push(style_object@));
            }
        }
        Ok(prune_module_items(stmts_updated))
    }
}

/// Drops the empty statements among the items of a module; the other items
/// keep their order.
pub fn prune_module_items(items: Vec<ModuleItem>) -> (out: Vec<ModuleItem>)
    ensures
        items_view(out@) == prune_items(items_view(items@)),
{
    let ghost given = items@;
    let ghost all = items_view(items@);
    let mut out: Vec<ModuleItem> = Vec::new();
    proof {
        assert(all.take(0) =~= Seq::<ModuleItemView>::empty());
        reveal(Seq::filter);
        assert(items_view(out@) =~= prune_items(all.take(0)));
    }
    for item in it: items
        invariant
            it.seq() == given,
            all == items_view(given),
            items_view(out@) == prune_items(all.take(it.index() as int)),
    {
        let ghost before = out@;
        let ghost index = it.index() as int;
        proof {
            assert(all.take(index + 1) =~= all.take(index).push(all[index]));
            all.take(index).lemma_filter_push(all[index], kept_item());
        }
        match item {
            ModuleItem::Stmt(Stmt::Empty) => {},
            other => {
                out.push(other);
                proof {
                    assert(items_view(out@) =~= items_view(before).push(other@));
                }
            },
        }
    }
    proof {
        assert(all.take(all.len() as int) =~= all);
    }
    out
}

/// Transforms a module: removes the imports of CSS modules and replaces
/// the uses of their classes by the scoped class names. `files` are the
/// files below the working directory, in the order of the walk, among which
/// the class-name tables are looked up.
pub fn process_transform(program: Module, files: &Vec<MappingFile>) -> (r: Result<
    Module,
    TransformError,
>)
    ensures
        outcome(r) == transform(files_view(files@), program@),
{
    let mut visitor = TransformVisitor::new();
    let body = visitor.visit_mut_module_items(program.body, files)?;
    Ok(Module { body })
}

} // verus!
