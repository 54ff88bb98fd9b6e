//! Compile-time resolution of CSS-module imports.
//!
//! A module that imports a `*.module.css` stylesheet refers to its classes
//! through the imported style object (`styles.button`). Given the table of
//! scoped class names that the stylesheet compiler produced, the transform
//! removes the import and replaces each such reference by the scoped name.
//! Where a class attribute holds an expression from which no single class
//! can be read, the transform leaves it and declares an object with the
//! whole table behind the statements of the list.
//!
//! The transform works on the syntax tree of [`syntax`] and is started with
//! [`visitor::process_transform`]. A host that walks a tree of its own asks
//! the [`visitor::TransformVisitor`] at each node that the transform reads.
//!
//! - [`syntax`]: the syntax tree and its mathematical value; [`copy`]: its
//!   copies.
//! - [`mapping`]: the class-name table of a stylesheet.
//! - [`text`], [`loader`]: which file holds the table of a stylesheet, and
//!   the loading of it from the files that were found.
//! - [`rewrite`], [`module`]: what the transform does, stated over the
//!   values of the tree.
//! - [`walk`], [`visitor`]: the transform.
//! - [`laws`]: what holds of every transform, proved with [`shape`],
//!   [`shaped`], [`sites`], [`identity`] and [`filter`].

pub mod copy;
pub mod filter;
pub mod identity;
pub mod laws;
pub mod loader;
pub mod mapping;
pub mod module;
pub mod rewrite;
pub mod shape;
pub mod shaped;
pub mod sites;
pub mod syntax;
pub mod text;
pub mod visitor;
pub mod walk;
