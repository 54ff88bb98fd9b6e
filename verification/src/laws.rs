//! What holds of the transform of every module.

use crate::filter::{lemma_filter_keeps_all, lemma_filter_keeps_order, lemma_filter_members};
use crate::identity::{lemma_stmt_unchanged, lemma_var_decl_unchanged};
use crate::loader::{MappingFileView, TransformErrorView};
use crate::mapping::{lookup, Entries};
use crate::shaped::{lemma_fallback_decl_shape, lemma_stmt_comes_out, lemma_var_decl_comes_out};
use crate::rewrite::{
    class_attribute, fallback_decl, finish_stmts, kept, lemma_rewrite_stmts_each, prune,
    rewrite_attr, rewrite_stmt, rewrite_stmts, with_fallback, Rewritten, StyleContext,
};
use crate::shape::{item_has, module_has, Shape};
use crate::sites::{
    class_use, item_holds, lemma_resolved_in_stmt, lemma_resolved_in_var_decl, resolvable,
    resolved,
};
use crate::syntax::{
    ExprView, JsxAttrNameView, JsxAttrValueView, JsxAttrView, MemberPropView, ModuleItemView,
    ModuleView, StmtView,
};
use crate::text::stylesheet_suffix;
use crate::module::{
    is_resolved_import, items_with_fallback, kept_item, prune_items, transform, visit_item,
    visit_items, TransformVisitorView,
};
use vstd::prelude::*;

verus! {

/// Whether the item is an import from a CSS module.
pub open spec fn is_stylesheet_import(item: ModuleItemView) -> bool {
    item matches ModuleItemView::Import(decl) && stylesheet_suffix().is_suffix_of(decl.src)
}

/// Whether the module imports from a CSS module.
pub open spec fn imports_stylesheet(module: ModuleView) -> bool {
    exists|i: int| 0 <= i < module.body.len() && is_stylesheet_import(#[trigger] module.body[i])
}

/// Whether the module holds an import that the transform resolves and
/// removes: one that binds a name and imports from a CSS module.
pub open spec fn resolves_imports(module: ModuleView) -> bool {
    exists|i: int| 0 <= i < module.body.len() && is_resolved_import(#[trigger] module.body[i])
}

proof fn lemma_items_unchanged(
    files: Seq<MappingFileView>,
    v: TransformVisitorView,
    items: Seq<ModuleItemView>,
    n: nat,
)
    requires
        v.style_import_name is None,
        !v.should_create_mapped_class_obj,
        n <= items.len(),
        forall|i: int|
            0 <= i < items.len() ==> item_has(Shape::Pruned, #[trigger] items[i]) && item_has(
                Shape::Plain,
                items[i],
            ) && !is_resolved_import(items[i]),
    ensures
        visit_items(files, v, items, n) == (
            Ok::<Seq<ModuleItemView>, TransformErrorView>(items.take(n as int)),
            v,
        ),
    decreases n,
{
    if n == 0 {
        assert(items.take(0) =~= Seq::empty());
    } else {
        lemma_items_unchanged(files, v, items, (n - 1) as nat);
        let item = items[n - 1];
        assert(item_has(Shape::Pruned, item) && item_has(Shape::Plain, item)
            && !is_resolved_import(item));
        reveal(visit_item);
        match item {
            ModuleItemView::Import(decl) => {},
            ModuleItemView::Export(decl) => lemma_var_decl_unchanged(v.context(), decl),
            ModuleItemView::Stmt(stmt) => lemma_stmt_unchanged(v.context(), stmt),
        }
        assert(visit_item(files, v, item) == (
            Ok::<ModuleItemView, TransformErrorView>(item),
            v,
        ));
        assert(items.take(n - 1).push(item) =~= items.take(n as int));
    }
}

/// The transform changes nothing in a module in which it resolves no
/// import, provided that the module holds nothing that the transform acts
/// on in every module alike: no empty statement in a statement list, and
/// no class attribute whose value is an expression other than a member
/// access. An import that binds no name stays, whatever it imports from.
pub proof fn lemma_transform_is_identity_where_nothing_resolves(
    files: Seq<MappingFileView>,
    module: ModuleView,
)
    requires
        !resolves_imports(module),
        module_has(Shape::Pruned, module),
        module_has(Shape::Plain, module),
    ensures
        transform(files, module) == Ok::<ModuleView, TransformErrorView>(module),
{
    let items = module.body;
    let fresh = TransformVisitorView::fresh();
    assert forall|i: int| 0 <= i < items.len() implies item_has(
        Shape::Pruned,
        #[trigger] items[i],
    ) && item_has(Shape::Plain, items[i]) && !is_resolved_import(items[i]) by {
        assert(item_has(Shape::Pruned, module.body[i]));
        assert(item_has(Shape::Plain, module.body[i]));
    }
    lemma_items_unchanged(files, fresh, items, items.len());
    assert(items.take(items.len() as int) =~= items);
    assert forall|i: int| 0 <= i < items.len() implies kept_item()(items[i]) by {
        assert(item_has(Shape::Pruned, items[i]));
    }
    lemma_filter_keeps_all(items, kept_item());
}

/// The transform changes nothing in a module that imports from no CSS
/// module, provided that the module holds no empty statement in a
/// statement list and no class attribute whose value is an expression
/// other than a member access.
pub proof fn lemma_transform_is_identity_without_stylesheet(
    files: Seq<MappingFileView>,
    module: ModuleView,
)
    requires
        !imports_stylesheet(module),
        module_has(Shape::Pruned, module),
        module_has(Shape::Plain, module),
    ensures
        transform(files, module) == Ok::<ModuleView, TransformErrorView>(module),
{
    assert forall|i: int| 0 <= i < module.body.len() implies !is_resolved_import(
        #[trigger] module.body[i],
    ) by {
        assert(!is_stylesheet_import(module.body[i]));
    }
    lemma_transform_is_identity_where_nothing_resolves(files, module);
}

proof fn lemma_items_come_out_pruned(
    files: Seq<MappingFileView>,
    v: TransformVisitorView,
    items: Seq<ModuleItemView>,
    n: nat,
)
    requires
        n <= items.len(),
    ensures
        visit_items(files, v, items, n).0 matches Ok(out) ==> out.len() == n && forall|i: int|
            0 <= i < n ==> #[trigger] out[i] == ModuleItemView::Stmt(StmtView::Empty) || (item_has(
                Shape::Pruned,
                out[i],
            ) && !is_resolved_import(out[i])),
    decreases n,
{
    if n > 0 {
        lemma_items_come_out_pruned(files, v, items, (n - 1) as nat);
        let (before, v1) = visit_items(files, v, items, (n - 1) as nat);
        if before is Ok {
            reveal(visit_item);
            match items[n - 1] {
                ModuleItemView::Import(decl) => {},
                ModuleItemView::Export(decl) => lemma_var_decl_comes_out(
                    Shape::Pruned,
                    v1.context(),
                    decl,
                ),
                ModuleItemView::Stmt(stmt) => lemma_stmt_comes_out(
                    Shape::Pruned,
                    v1.context(),
                    stmt,
                ),
            }
        }
    }
}

/// What the transform gives holds no empty statement in any statement
/// list, and no import that the transform resolves: none that binds a name
/// and imports from a CSS module.
pub proof fn lemma_transform_output_is_pruned(files: Seq<MappingFileView>, module: ModuleView)
    requires
        transform(files, module) is Ok,
    ensures
        module_has(Shape::Pruned, transform(files, module)->Ok_0),
        !resolves_imports(transform(files, module)->Ok_0),
{
    let fresh = TransformVisitorView::fresh();
    let (visited, v2) = visit_items(files, fresh, module.body, module.body.len());
    let list = visited->Ok_0;
    let full = items_with_fallback(v2.context().entries, list, v2.should_create_mapped_class_obj);
    let out = prune_items(full);
    assert(transform(files, module)->Ok_0.body == out);
    lemma_items_come_out_pruned(files, fresh, module.body, module.body.len());
    lemma_fallback_decl_shape(Shape::Pruned, v2.context().entries);
    assert forall|k: int| 0 <= k < out.len() implies item_has(Shape::Pruned, #[trigger] out[k])
        && !is_resolved_import(out[k]) by {
        lemma_filter_members(full, kept_item(), k);
        let i = choose|i: int| 0 <= i < full.len() && full[i] == out[k];
        if i < list.len() {
            assert(list[i] == full[i]);
        }
    }
}

/// No stylesheet import that binds a name is left in what the transform
/// gives: each has been resolved and removed. An import that binds no name
/// is not touched, so one from a CSS module may be left.
pub proof fn lemma_no_stylesheet_import_remains(files: Seq<MappingFileView>, module: ModuleView)
    requires
        transform(files, module) is Ok,
    ensures
        forall|i: int|
            0 <= i < transform(files, module)->Ok_0.body.len() ==> ((
            #[trigger] transform(files, module)->Ok_0.body[i]) matches ModuleItemView::Import(decl)
                ==> !(decl.specifiers.len() > 0 && stylesheet_suffix().is_suffix_of(decl.src))),
{
    lemma_transform_output_is_pruned(files, module);
    let out = transform(files, module)->Ok_0;
    assert forall|i: int| 0 <= i < out.body.len() implies ((
    #[trigger] out.body[i]) matches ModuleItemView::Import(decl) ==> !(decl.specifiers.len() > 0
        && stylesheet_suffix().is_suffix_of(decl.src))) by {
        assert(!is_resolved_import(out.body[i]));
    }
}

proof fn lemma_items_stay_plain(
    files: Seq<MappingFileView>,
    v: TransformVisitorView,
    items: Seq<ModuleItemView>,
    n: nat,
)
    requires
        n <= items.len(),
        forall|i: int| 0 <= i < items.len() ==> item_has(Shape::Plain, #[trigger] items[i]),
    ensures
        visit_items(files, v, items, n).0 matches Ok(out) ==> out.len() == n && forall|i: int|
            0 <= i < n ==> item_has(Shape::Plain, #[trigger] out[i]),
    decreases n,
{
    if n > 0 {
        lemma_items_stay_plain(files, v, items, (n - 1) as nat);
        let (before, v1) = visit_items(files, v, items, (n - 1) as nat);
        if before is Ok {
            reveal(visit_item);
            assert(item_has(Shape::Plain, items[n - 1]));
            match items[n - 1] {
                ModuleItemView::Import(decl) => {},
                ModuleItemView::Export(decl) => lemma_var_decl_comes_out(
                    Shape::Plain,
                    v1.context(),
                    decl,
                ),
                ModuleItemView::Stmt(stmt) => lemma_stmt_comes_out(
                    Shape::Plain,
                    v1.context(),
                    stmt,
                ),
            }
        }
    }
}

/// The transform makes no class attribute with a value that is an
/// expression other than a member access: where the module has none, what
/// the transform gives has none.
pub proof fn lemma_transform_keeps_plain(files: Seq<MappingFileView>, module: ModuleView)
    requires
        transform(files, module) is Ok,
        module_has(Shape::Plain, module),
    ensures
        module_has(Shape::Plain, transform(files, module)->Ok_0),
{
    let fresh = TransformVisitorView::fresh();
    let (visited, v2) = visit_items(files, fresh, module.body, module.body.len());
    let list = visited->Ok_0;
    let full = items_with_fallback(v2.context().entries, list, v2.should_create_mapped_class_obj);
    let out = prune_items(full);
    assert(transform(files, module)->Ok_0.body == out);
    assert forall|i: int| 0 <= i < module.body.len() implies item_has(
        Shape::Plain,
        #[trigger] module.body[i],
    ) by {}
    lemma_items_stay_plain(files, fresh, module.body, module.body.len());
    lemma_fallback_decl_shape(Shape::Plain, v2.context().entries);
    assert forall|k: int| 0 <= k < out.len() implies item_has(Shape::Plain, #[trigger] out[k]) by {
        lemma_filter_members(full, kept_item(), k);
        let i = choose|i: int| 0 <= i < full.len() && full[i] == out[k];
        if i < list.len() {
            assert(list[i] == full[i]);
        }
    }
}

/// The transform of what the transform gave changes nothing, whatever
/// files it is given, provided that no class attribute was left with a
/// value that is an expression other than a member access: for such a
/// value each run adds a fallback object.
pub proof fn lemma_transform_is_idempotent(
    files: Seq<MappingFileView>,
    later_files: Seq<MappingFileView>,
    module: ModuleView,
)
    requires
        transform(files, module) is Ok,
        module_has(Shape::Plain, transform(files, module)->Ok_0),
    ensures
        transform(later_files, transform(files, module)->Ok_0) == Ok::<
            ModuleView,
            TransformErrorView,
        >(transform(files, module)->Ok_0),
{
    lemma_transform_output_is_pruned(files, module);
    lemma_transform_is_identity_where_nothing_resolves(
        later_files,
        transform(files, module)->Ok_0,
    );
}

/// The transform of what the transform gave changes nothing, whatever
/// files it is given, where the module holds no class attribute with a
/// value that is an expression other than a member access.
pub proof fn lemma_transform_is_idempotent_on_plain_modules(
    files: Seq<MappingFileView>,
    later_files: Seq<MappingFileView>,
    module: ModuleView,
)
    requires
        transform(files, module) is Ok,
        module_has(Shape::Plain, module),
    ensures
        transform(later_files, transform(files, module)->Ok_0) == Ok::<
            ModuleView,
            TransformErrorView,
        >(transform(files, module)->Ok_0),
{
    lemma_transform_keeps_plain(files, module);
    lemma_transform_is_idempotent(files, later_files, module);
}

/// The statements that the transform keeps in a statement list keep their
/// order: `at` gives, for each place of the pruned list, the place in the
/// visited list that its statement came from, and every statement that is
/// not empty is kept.
pub proof fn lemma_pruning_keeps_statement_order(stmts: Seq<StmtView>) -> (at: Seq<int>)
    ensures
        at.len() == prune(stmts).len(),
        forall|k: int|
            0 <= k < at.len() ==> 0 <= #[trigger] at[k] < stmts.len() && stmts[at[k]] == prune(
                stmts,
            )[k],
        forall|j: int, k: int| 0 <= j < k < at.len() ==> at[j] < at[k],
        forall|i: int|
            0 <= i < stmts.len() && !(#[trigger] stmts[i] is Empty) ==> exists|k: int|
                0 <= k < at.len() && at[k] == i,
{
    let at = lemma_filter_keeps_order(stmts, kept());
    assert forall|i: int| 0 <= i < stmts.len() && !(#[trigger] stmts[i] is Empty) implies exists|
        k: int,
    |
        0 <= k < at.len() && at[k] == i by {
        assert(kept()(stmts[i]));
    }
    at
}

/// As `lemma_pruning_keeps_statement_order`, for the items of a module.
pub proof fn lemma_pruning_keeps_item_order(items: Seq<ModuleItemView>) -> (at: Seq<int>)
    ensures
        at.len() == prune_items(items).len(),
        forall|k: int|
            0 <= k < at.len() ==> 0 <= #[trigger] at[k] < items.len() && items[at[k]]
                == prune_items(items)[k],
        forall|j: int, k: int| 0 <= j < k < at.len() ==> at[j] < at[k],
        forall|i: int|
            0 <= i < items.len() && #[trigger] items[i] != ModuleItemView::Stmt(StmtView::Empty)
                ==> exists|k: int| 0 <= k < at.len() && at[k] == i,
{
    let at = lemma_filter_keeps_order(items, kept_item());
    assert forall|i: int|
        0 <= i < items.len() && #[trigger] items[i] != ModuleItemView::Stmt(
            StmtView::Empty,
        ) implies exists|k: int| 0 <= k < at.len() && at[k] == i by {
        assert(kept_item()(items[i]));
    }
    at
}

/// The fallback declaration of a statement list is its last statement: the
/// list is the visited statements that are not empty, and behind them the
/// declaration where it is needed.
pub proof fn lemma_fallback_declaration_is_last(
    entries: Entries,
    visited: Seq<StmtView>,
    needed: bool,
)
    ensures
        prune(with_fallback(entries, visited, needed)) == if needed {
            prune(visited).push(fallback_decl(entries))
        } else {
            prune(visited)
        },
{
    visited.lemma_filter_push(fallback_decl(entries), kept());
}

/// As `lemma_fallback_declaration_is_last`, for the items of a module.
pub proof fn lemma_fallback_item_is_last(
    entries: Entries,
    visited: Seq<ModuleItemView>,
    needed: bool,
)
    ensures
        prune_items(items_with_fallback(entries, visited, needed)) == if needed {
            prune_items(visited).push(ModuleItemView::Stmt(fallback_decl(entries)))
        } else {
            prune_items(visited)
        },
{
    visited.lemma_filter_push(ModuleItemView::Stmt(fallback_decl(entries)), kept_item());
}

/// A class attribute whose value is `binding.key`, where the style object
/// is bound to `binding` and the table holds `key`, comes out of the walk
/// with the scoped name of the class as its value, and asks for no
/// fallback object.
pub proof fn lemma_class_use_is_resolved(ctx: StyleContext, binding: Seq<char>, key: Seq<char>)
    requires
        ctx.binding == Some(binding),
        lookup(ctx.entries, key) is Some,
    ensures
        rewrite_attr(
            ctx,
            JsxAttrView {
                name: JsxAttrNameView::Ident(class_attribute()),
                value: Some(
                    JsxAttrValueView::Container(
                        ExprView::Member {
                            obj: Box::new(ExprView::Ident(binding)),
                            prop: MemberPropView::Ident(key),
                        },
                    ),
                ),
            },
        ) == Rewritten::<JsxAttrView>::Ok(
            (
                JsxAttrView {
                    name: JsxAttrNameView::Ident(class_attribute()),
                    value: Some(JsxAttrValueView::Str(lookup(ctx.entries, key)->Some_0.name)),
                },
                false,
            ),
        ),
{
}

/// The state in which the item at `index` of the module is visited: the
/// state that the visit of the items before it has left.
pub open spec fn state_before(
    files: Seq<MappingFileView>,
    module: ModuleView,
    index: nat,
) -> TransformVisitorView {
    visit_items(files, TransformVisitorView::fresh(), module.body, index).1
}

proof fn lemma_visit_items_each(
    files: Seq<MappingFileView>,
    v: TransformVisitorView,
    items: Seq<ModuleItemView>,
    n: nat,
)
    requires
        n <= items.len(),
        visit_items(files, v, items, n).0 is Ok,
    ensures
        visit_items(files, v, items, n).0->Ok_0.len() == n,
        forall|i: int|
            0 <= i < n ==> (#[trigger] visit_item(
                files,
                visit_items(files, v, items, i as nat).1,
                items[i],
            )).0 == Ok::<ModuleItemView, TransformErrorView>(
                visit_items(files, v, items, n).0->Ok_0[i],
            ),
    decreases n,
{
    if n > 0 {
        lemma_visit_items_each(files, v, items, (n - 1) as nat);
    }
}

/// Where a use of a class stands in an item of a module, at any depth,
/// and the table that has been loaded when the item is visited holds the
/// class, the class attribute with the scoped name stands in what the
/// transform gives.
pub proof fn lemma_resolved_in_module(
    files: Seq<MappingFileView>,
    module: ModuleView,
    index: int,
    binding: Seq<char>,
    key: Seq<char>,
)
    requires
        transform(files, module) is Ok,
        0 <= index < module.body.len(),
        resolvable(state_before(files, module, index as nat).context(), binding, key),
        item_holds(class_use(binding, key), module.body[index]),
    ensures
        exists|k: int|
            0 <= k < transform(files, module)->Ok_0.body.len() && item_holds(
                resolved(state_before(files, module, index as nat).context(), key),
                #[trigger] transform(files, module)->Ok_0.body[k],
            ),
{
    let fresh = TransformVisitorView::fresh();
    let items = module.body;
    let (visited, v2) = visit_items(files, fresh, items, items.len());
    let list = visited->Ok_0;
    let full = items_with_fallback(v2.context().entries, list, v2.should_create_mapped_class_obj);
    let out = prune_items(full);
    assert(transform(files, module)->Ok_0.body == out);
    let before = state_before(files, module, index as nat);
    let ctx = before.context();
    let wanted = resolved(ctx, key);
    lemma_visit_items_each(files, fresh, items, items.len());
    assert(visit_item(files, before, items[index]).0 == Ok::<ModuleItemView, TransformErrorView>(
        list[index],
    ));
    reveal(visit_item);
    match items[index] {
        ModuleItemView::Import(decl) => {},
        ModuleItemView::Export(decl) => lemma_resolved_in_var_decl(ctx, binding, key, decl),
        ModuleItemView::Stmt(stmt) => lemma_resolved_in_stmt(ctx, binding, key, stmt),
    }
    assert(item_holds(wanted, list[index]));
    assert(full[index] == list[index]);
    assert(kept_item()(full[index]));
    full.lemma_filter_contains(kept_item(), index);
    let k = choose|k: int| 0 <= k < out.len() && out[k] == full[index];
    assert(item_holds(wanted, out[k]));
}

/// An import that the transform does not resolve stays in the module as
/// it is, also one that binds no name: together with
/// `lemma_no_stylesheet_import_remains`, an import is removed if and only
/// if it binds a name and imports from a CSS module, whose table was then
/// loaded.
pub proof fn lemma_other_imports_stay(
    files: Seq<MappingFileView>,
    module: ModuleView,
    index: int,
)
    requires
        transform(files, module) is Ok,
        0 <= index < module.body.len(),
        module.body[index] is Import,
        !is_resolved_import(module.body[index]),
    ensures
        exists|k: int|
            0 <= k < transform(files, module)->Ok_0.body.len() && #[trigger] transform(
                files,
                module,
            )->Ok_0.body[k] == module.body[index],
{
    let fresh = TransformVisitorView::fresh();
    let items = module.body;
    let (visited, v2) = visit_items(files, fresh, items, items.len());
    let list = visited->Ok_0;
    let full = items_with_fallback(v2.context().entries, list, v2.should_create_mapped_class_obj);
    let out = prune_items(full);
    assert(transform(files, module)->Ok_0.body == out);
    lemma_visit_items_each(files, fresh, items, items.len());
    let before = state_before(files, module, index as nat);
    assert(visit_item(files, before, items[index]).0 == Ok::<ModuleItemView, TransformErrorView>(
        list[index],
    ));
    reveal(visit_item);
    assert(list[index] == items[index]);
    assert(full[index] == list[index]);
    assert(kept_item()(full[index]));
    full.lemma_filter_contains(kept_item(), index);
    let k = choose|k: int| 0 <= k < out.len() && out[k] == full[index];
    assert(out[k] == module.body[index]);
}

/// The walk gives an empty statement for an empty statement, and for
/// nothing else.
proof fn lemma_rewrite_keeps_empty(ctx: StyleContext, s: StmtView)
    ensures
        rewrite_stmt(ctx, s) matches Ok(out) ==> (out.0 is Empty <==> s is Empty),
{
}

/// Every item of a module that is no empty statement and no import that
/// the transform resolves is still in what the transform gives, as the
/// visit has left it.
pub proof fn lemma_other_items_stay(files: Seq<MappingFileView>, module: ModuleView, index: int)
    requires
        transform(files, module) is Ok,
        0 <= index < module.body.len(),
        module.body[index] != ModuleItemView::Stmt(StmtView::Empty),
        !is_resolved_import(module.body[index]),
    ensures
        exists|k: int|
            0 <= k < transform(files, module)->Ok_0.body.len() && visit_item(
                files,
                state_before(files, module, index as nat),
                module.body[index],
            ).0 == Ok::<ModuleItemView, TransformErrorView>(
                #[trigger] transform(files, module)->Ok_0.body[k],
            ),
{
    let fresh = TransformVisitorView::fresh();
    let items = module.body;
    let (visited, v2) = visit_items(files, fresh, items, items.len());
    let list = visited->Ok_0;
    let full = items_with_fallback(v2.context().entries, list, v2.should_create_mapped_class_obj);
    let out = prune_items(full);
    assert(transform(files, module)->Ok_0.body == out);
    lemma_visit_items_each(files, fresh, items, items.len());
    let before = state_before(files, module, index as nat);
    assert(visit_item(files, before, items[index]).0 == Ok::<ModuleItemView, TransformErrorView>(
        list[index],
    ));
    reveal(visit_item);
    match items[index] {
        ModuleItemView::Stmt(stmt) => lemma_rewrite_keeps_empty(before.context(), stmt),
        _ => {},
    }
    assert(full[index] == list[index]);
    assert(kept_item()(full[index]));
    full.lemma_filter_contains(kept_item(), index);
    let k = choose|k: int| 0 <= k < out.len() && out[k] == full[index];
    assert(out[k] == list[index]);
}

/// The transform of a statement list keeps the order of its statements:
/// what it gives are the visited statements that are not empty, in the
/// order of the list, and behind them the fallback declaration where the
/// list needs it. `at` gives, for each place before the declaration, the
/// place of the statement that was visited for it.
pub proof fn lemma_statement_list_keeps_order(ctx: StyleContext, stmts: Seq<StmtView>) -> (at: Seq<
    int,
>)
    requires
        finish_stmts(ctx, stmts) is Ok,
    ensures
        rewrite_stmts(ctx, stmts, stmts.len()) is Ok,
        ({
            let out = finish_stmts(ctx, stmts)->Ok_0;
            let needed = rewrite_stmts(ctx, stmts, stmts.len())->Ok_0.1;
            &&& out.len() == at.len() + if needed {
                1int
            } else {
                0int
            }
            &&& needed ==> out.last() == fallback_decl(ctx.entries)
            &&& forall|k: int|
                0 <= k < at.len() ==> 0 <= #[trigger] at[k] < stmts.len() && rewrite_stmt(
                    ctx,
                    stmts[at[k]],
                ) is Ok && out[k] == rewrite_stmt(ctx, stmts[at[k]])->Ok_0.0
            &&& forall|j: int, k: int| 0 <= j < k < at.len() ==> at[j] < at[k]
            &&& forall|i: int|
                0 <= i < stmts.len() && !(rewrite_stmt(ctx, #[trigger] stmts[i])->Ok_0.0 is Empty)
                    ==> exists|k: int| 0 <= k < at.len() && at[k] == i
        }),
{
    let walked = rewrite_stmts(ctx, stmts, stmts.len())->Ok_0;
    lemma_rewrite_stmts_each(ctx, stmts, stmts.len());
    lemma_fallback_declaration_is_last(ctx.entries, walked.0, walked.1);
    let at = lemma_pruning_keeps_statement_order(walked.0);
    assert forall|i: int|
        0 <= i < stmts.len() && !(rewrite_stmt(
            ctx,
            #[trigger] stmts[i],
        )->Ok_0.0 is Empty) implies exists|k: int| 0 <= k < at.len() && at[k] == i by {
        assert(!(walked.0[i] is Empty));
    }
    at
}

/// The transform keeps the order of the items of a module: what it gives
/// are the visited items that are no empty statement, in the order of the
/// module, and behind them the fallback declaration where the module needs
/// it. `at` gives, for each place before the declaration, the place of the
/// item that was visited for it.
pub proof fn lemma_module_keeps_order(files: Seq<MappingFileView>, module: ModuleView) -> (at: Seq<
    int,
>)
    requires
        transform(files, module) is Ok,
    ensures
        ({
            let out = transform(files, module)->Ok_0.body;
            let end = state_before(files, module, module.body.len());
            let needed = end.should_create_mapped_class_obj;
            &&& out.len() == at.len() + if needed {
                1int
            } else {
                0int
            }
            &&& needed ==> out.last() == ModuleItemView::Stmt(fallback_decl(end.context().entries))
            &&& forall|k: int|
                0 <= k < at.len() ==> 0 <= #[trigger] at[k] < module.body.len() && visit_item(
                    files,
                    state_before(files, module, at[k] as nat),
                    module.body[at[k]],
                ).0 == Ok::<ModuleItemView, TransformErrorView>(out[k])
            &&& forall|j: int, k: int| 0 <= j < k < at.len() ==> at[j] < at[k]
        }),
{
    let fresh = TransformVisitorView::fresh();
    let items = module.body;
    let (visited, v2) = visit_items(files, fresh, items, items.len());
    let list = visited->Ok_0;
    lemma_visit_items_each(files, fresh, items, items.len());
    lemma_fallback_item_is_last(v2.context().entries, list, v2.should_create_mapped_class_obj);
    let at = lemma_pruning_keeps_item_order(list);
    assert forall|k: int| 0 <= k < at.len() implies 0 <= #[trigger] at[k] < module.body.len()
        && visit_item(
        files,
        state_before(files, module, at[k] as nat),
        module.body[at[k]],
    ).0 == Ok::<ModuleItemView, TransformErrorView>(transform(files, module)->Ok_0.body[k]) by {
        let i = at[k];
        assert(visit_item(files, visit_items(files, fresh, items, i as nat).1, items[i]).0 == Ok::<
            ModuleItemView,
            TransformErrorView,
        >(list[i]));
    }
    at
}

/// How many of the first `n` items are imports that the transform
/// resolves.
pub open spec fn resolved_imports(items: Seq<ModuleItemView>, n: nat) -> nat
    decreases n,
{
    if n == 0 || n > items.len() {
        0
    } else {
        resolved_imports(items, (n - 1) as nat) + if is_resolved_import(items[n - 1]) {
            1nat
        } else {
            0nat
        }
    }
}

proof fn lemma_visited_items_count(
    files: Seq<MappingFileView>,
    v: TransformVisitorView,
    items: Seq<ModuleItemView>,
    n: nat,
)
    requires
        n <= items.len(),
        visit_items(files, v, items, n).0 is Ok,
        forall|i: int|
            0 <= i < items.len() ==> #[trigger] items[i] != ModuleItemView::Stmt(StmtView::Empty),
    ensures
        resolved_imports(items, n) <= n,
        prune_items(visit_items(files, v, items, n).0->Ok_0).len() == n - resolved_imports(
            items,
            n,
        ),
    decreases n,
{
    reveal(Seq::filter);
    if n > 0 {
        lemma_visited_items_count(files, v, items, (n - 1) as nat);
        let (before, v1) = visit_items(files, v, items, (n - 1) as nat);
        let item = items[n - 1];
        let visited = visit_item(files, v1, item).0->Ok_0;
        assert(visit_items(files, v, items, n).0->Ok_0 == before->Ok_0.push(visited));
        reveal(visit_item);
        assert(item != ModuleItemView::Stmt(StmtView::Empty));
        match item {
            ModuleItemView::Stmt(stmt) => lemma_rewrite_keeps_empty(v1.context(), stmt),
            _ => {},
        }
        assert(kept_item()(visited) <==> !is_resolved_import(item));
        before->Ok_0.lemma_filter_push(visited, kept_item());
    }
}

/// The transform of a module without an empty statement among its items
/// gives as many items as the module has, less the imports that it
/// resolved, and one more where the module needs the fallback
/// declaration.
pub proof fn lemma_module_keeps_count(files: Seq<MappingFileView>, module: ModuleView)
    requires
        transform(files, module) is Ok,
        forall|i: int|
            0 <= i < module.body.len() ==> #[trigger] module.body[i] != ModuleItemView::Stmt(
                StmtView::Empty,
            ),
    ensures
        resolved_imports(module.body, module.body.len()) <= module.body.len(),
        transform(files, module)->Ok_0.body.len() == module.body.len() - resolved_imports(
            module.body,
            module.body.len(),
        ) + if state_before(files, module, module.body.len()).should_create_mapped_class_obj {
            1int
        } else {
            0int
        },
{
    let fresh = TransformVisitorView::fresh();
    let (visited, v2) = visit_items(files, fresh, module.body, module.body.len());
    lemma_visited_items_count(files, fresh, module.body, module.body.len());
    lemma_fallback_item_is_last(
        v2.context().entries,
        visited->Ok_0,
        v2.should_create_mapped_class_obj,
    );
}

/// The transform of a statement list without an empty statement gives as
/// many statements as the list has, and one more where the list needs the
/// fallback declaration.
pub proof fn lemma_statement_list_keeps_count(ctx: StyleContext, stmts: Seq<StmtView>)
    requires
        finish_stmts(ctx, stmts) is Ok,
        forall|i: int| 0 <= i < stmts.len() ==> !(#[trigger] stmts[i] is Empty),
    ensures
        finish_stmts(ctx, stmts)->Ok_0.len() == stmts.len() + if rewrite_stmts(
            ctx,
            stmts,
            stmts.len(),
        )->Ok_0.1 {
            1int
        } else {
            0int
        },
{
    let walked = rewrite_stmts(ctx, stmts, stmts.len())->Ok_0;
    lemma_rewrite_stmts_each(ctx, stmts, stmts.len());
    assert forall|i: int| 0 <= i < walked.0.len() implies kept()(walked.0[i]) by {
        assert(rewrite_stmt(ctx, stmts[i]) is Ok);
        lemma_rewrite_keeps_empty(ctx, stmts[i]);
    }
    lemma_filter_keeps_all(walked.0, kept());
    lemma_fallback_declaration_is_last(ctx.entries, walked.0, walked.1);
}

} // verus!
