//! What the transform does to a module, stated over the values of the
//! syntax tree and of the visitor.
//!
//! The items of a module are visited in order. The visit of an import of a
//! CSS module changes the state: it loads the class-name table and notes
//! the style binding. Every other item is walked with the state as the
//! items before it left it.

use crate::loader::{load, MappingFileView, TransformErrorView};
use crate::mapping::Entries;
use crate::rewrite::{fallback_decl, rewrite_stmt, rewrite_var_decl, Rewritten, StyleContext};
use crate::syntax::{ImportDeclView, ImportSpecifierView, ModuleItemView, ModuleView, StmtView};
use crate::text::stylesheet_suffix;
use vstd::prelude::*;

verus! {

/// The mathematical value of a visitor: the state of a walk.
pub ghost struct TransformVisitorView {
    pub css_module_map: Option<Entries>,
    pub style_import_name: Option<Seq<char>>,
    pub should_create_mapped_class_obj: bool,
}

impl TransformVisitorView {
    /// What a walk below a module item reads of the state.
    pub open spec fn context(self) -> StyleContext {
        StyleContext {
            entries: match self.css_module_map {
                Some(entries) => entries,
                None => Entries::empty(),
            },
            binding: self.style_import_name,
        }
    }

    /// The state once a walk has reported whether it needs the fallback
    /// object.
    pub open spec fn raise(self, raised: bool) -> TransformVisitorView {
        TransformVisitorView {
            should_create_mapped_class_obj: self.should_create_mapped_class_obj || raised,
            ..self
        }
    }

    /// The state at the start of a walk.
    pub open spec fn fresh() -> TransformVisitorView {
        TransformVisitorView {
            css_module_map: None,
            style_import_name: None,
            should_create_mapped_class_obj: false,
        }
    }
}

/// What a walk below a module item leaves behind: its node, and in the
/// state whether the fallback object is needed. A walk that fails leaves
/// the state as it was.
pub open spec fn commit<V>(v: TransformVisitorView, walked: Rewritten<V>) -> (
    Result<V, TransformErrorView>,
    TransformVisitorView,
) {
    match walked {
        Ok((node, raised)) => (Ok(node), v.raise(raised)),
        Err(x) => (Err(x), v),
    }
}

/// Whether the import is one that the transform resolves: it binds a name
/// and its source is a CSS module.
pub open spec fn needs_mapping(decl: ImportDeclView) -> bool {
    decl.specifiers.len() > 0 && stylesheet_suffix().is_suffix_of(decl.src)
}

/// The name that the last default specifier among the first `n` of
/// `specifiers` binds, or `current` where none of them is a default
/// specifier.
pub open spec fn default_binding(
    specifiers: Seq<ImportSpecifierView>,
    n: nat,
    current: Option<Seq<char>>,
) -> Option<Seq<char>>
    decreases n,
{
    if n == 0 || n > specifiers.len() {
        current
    } else {
        match specifiers[n - 1] {
            ImportSpecifierView::Default { local } => Some(local),
            _ => default_binding(specifiers, (n - 1) as nat, current),
        }
    }
}

/// The visit of an import declaration. One that binds no name, or whose
/// source is no CSS module, stays as it is. Of any other the class-name
/// table is loaded and becomes the table of the walk, the name of its
/// default specifier becomes the style binding, and its specifiers are
/// cleared, which marks it for removal.
pub open spec fn resolve_import(
    files: Seq<MappingFileView>,
    v: TransformVisitorView,
    decl: ImportDeclView,
) -> (Result<ImportDeclView, TransformErrorView>, TransformVisitorView) {
    if !needs_mapping(decl) {
        (Ok(decl), v)
    } else {
        match load(files, decl.src) {
            Err(x) => (Err(x), v),
            Ok(entries) => (
                Ok(ImportDeclView { src: decl.src, specifiers: Seq::empty() }),
                TransformVisitorView {
                    css_module_map: Some(entries),
                    style_import_name: default_binding(
                        decl.specifiers,
                        decl.specifiers.len(),
                        v.style_import_name,
                    ),
                    should_create_mapped_class_obj: v.should_create_mapped_class_obj,
                },
            ),
        }
    }
}

/// The item that stands for a visited import, where `bound` tells whether
/// the import bound a name before it was visited. An import whose list of
/// specifiers the visit has emptied gives way to an empty statement. Every
/// other import stays, also one that never bound a name.
pub open spec fn settle_import(bound: bool, visited: ImportDeclView) -> ModuleItemView {
    if bound && visited.specifiers.len() == 0 {
        ModuleItemView::Stmt(StmtView::Empty)
    } else {
        ModuleItemView::Import(visited)
    }
}

/// Whether the item is an import that the transform resolves and removes:
/// one that binds a name and imports from a CSS module.
pub open spec fn is_resolved_import(item: ModuleItemView) -> bool {
    item matches ModuleItemView::Import(decl) && needs_mapping(decl)
}

/// The visit of a module item.
#[verifier::opaque]
pub open spec fn visit_item(
    files: Seq<MappingFileView>,
    v: TransformVisitorView,
    item: ModuleItemView,
) -> (Result<ModuleItemView, TransformErrorView>, TransformVisitorView) {
    match item {
        ModuleItemView::Import(decl) => {
            let (resolved, after) = resolve_import(files, v, decl);
            match resolved {
                Ok(d) => (Ok(settle_import(decl.specifiers.len() > 0, d)), after),
                Err(x) => (Err(x), after),
            }
        },
        ModuleItemView::Export(decl) => match rewrite_var_decl(v.context(), decl) {
            Ok((d, raised)) => (Ok(ModuleItemView::Export(d)), v.raise(raised)),
            Err(x) => (Err(x), v),
        },
        ModuleItemView::Stmt(stmt) => match rewrite_stmt(v.context(), stmt) {
            Ok((s, raised)) => (Ok(ModuleItemView::Stmt(s)), v.raise(raised)),
            Err(x) => (Err(x), v),
        },
    }
}

/// The visit of the first `n` items of `items`, from the left, with the
/// state behind the last item that was visited.
pub open spec fn visit_items(
    files: Seq<MappingFileView>,
    v: TransformVisitorView,
    items: Seq<ModuleItemView>,
    n: nat,
) -> (Result<Seq<ModuleItemView>, TransformErrorView>, TransformVisitorView)
    decreases n,
{
    if n == 0 || n > items.len() {
        (Ok(Seq::empty()), v)
    } else {
        let (before, v1) = visit_items(files, v, items, (n - 1) as nat);
        match before {
            Err(x) => (Err(x), v1),
            Ok(visited) => {
                let (item, v2) = visit_item(files, v1, items[n - 1]);
                match item {
                    Err(x) => (Err(x), v2),
                    Ok(i) => (Ok(visited.push(i)), v2),
                }
            },
        }
    }
}

/// Which items stay in a module: those that are not an empty statement.
pub open spec fn kept_item() -> spec_fn(ModuleItemView) -> bool {
    |item: ModuleItemView| item != ModuleItemView::Stmt(StmtView::Empty)
}

/// The items of `items` that are not an empty statement, in their order.
pub open spec fn prune_items(items: Seq<ModuleItemView>) -> Seq<ModuleItemView> {
    items.filter(kept_item())
}

/// The visited items of a module with the fallback declaration behind them
/// where the module needs it.
pub open spec fn items_with_fallback(
    entries: Entries,
    items: Seq<ModuleItemView>,
    needed: bool,
) -> Seq<ModuleItemView> {
    if needed {
        items.push(ModuleItemView::Stmt(fallback_decl(entries)))
    } else {
        items
    }
}

/// The transform of the items of a module: they are visited in order;
/// where one of them, outside the statement lists below it, needs the
/// fallback object, its declaration is put behind them, with the table
/// that the walk ended with; then the empty statements are dropped. The
/// need of the list around, which `v` holds, is as before.
pub open spec fn finish_items(
    files: Seq<MappingFileView>,
    v: TransformVisitorView,
    items: Seq<ModuleItemView>,
) -> (Result<Seq<ModuleItemView>, TransformErrorView>, TransformVisitorView) {
    let inner = TransformVisitorView { should_create_mapped_class_obj: false, ..v };
    let (visited, v2) = visit_items(files, inner, items, items.len());
    let after = TransformVisitorView {
        should_create_mapped_class_obj: v.should_create_mapped_class_obj,
        ..v2
    };
    match visited {
        Err(x) => (Err(x), after),
        Ok(list) => (
            Ok(
                prune_items(
                    items_with_fallback(
                        v2.context().entries,
                        list,
                        v2.should_create_mapped_class_obj,
                    ),
                ),
            ),
            after,
        ),
    }
}

/// The transform of a module, where `files` are the files below the
/// working directory.
pub open spec fn transform(files: Seq<MappingFileView>, module: ModuleView) -> Result<
    ModuleView,
    TransformErrorView,
> {
    match finish_items(files, TransformVisitorView::fresh(), module.body).0 {
        Ok(body) => Ok(ModuleView { body }),
        Err(x) => Err(x),
    }
}

/// The visit of the first `n` items continues the visit of the items
/// before the last of them.
pub proof fn lemma_visit_items_step(
    files: Seq<MappingFileView>,
    v: TransformVisitorView,
    items: Seq<ModuleItemView>,
    n: nat,
)
    requires
        0 < n <= items.len(),
    ensures
        visit_items(files, v, items, n) == ({
            let (before, v1) = visit_items(files, v, items, (n - 1) as nat);
            match before {
                Err(x) => (Err::<Seq<ModuleItemView>, TransformErrorView>(x), v1),
                Ok(visited) => {
                    let (item, v2) = visit_item(files, v1, items[n - 1]);
                    match item {
                        Err(x) => (Err::<Seq<ModuleItemView>, TransformErrorView>(x), v2),
                        Ok(i) => (Ok(visited.push(i)), v2),
                    }
                },
            }
        }),
{
}

/// A visit of module items that has failed within the first `k` items
/// stays as it is on every longer part of the list.
pub proof fn lemma_visit_items_failed(
    files: Seq<MappingFileView>,
    v: TransformVisitorView,
    items: Seq<ModuleItemView>,
    k: nat,
    n: nat,
)
    requires
        k <= n <= items.len(),
        visit_items(files, v, items, k).0 is Err,
    ensures
        visit_items(files, v, items, n) == visit_items(files, v, items, k),
    decreases n,
{
    if k < n {
        lemma_visit_items_failed(files, v, items, k, (n - 1) as nat);
    }
}

} // verus!
