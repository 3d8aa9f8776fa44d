//! A generic rooted tree with ordered children: building it, attaching
//! subtrees at the root or at a label, counting and listing its nodes, and
//! rendering it as text on one line or as an indented drawing.
//!
//! Every operation is specified against a mathematical model of the tree,
//! [`model::RoseTree`], which is the view of [`tree::Tree`].
//!
//! - `tree`: the stored tree and its structural operations.
//! - `model`: the model and what is counted and listed in it.
//! - `laws`: what attaching at a label does, whatever the tree.
//! - `render`: the compact and the indented rendering.
//! - `prettyprint`: the texts of a label, and those of the integers.
//! - `label`: what holds of labels that copy and compare by value.
//! - `text`: decimal numerals and line breaks.
//! - `linear`: polynomials as labels.
//! - `growth`: the labels by which a tree of polynomials grows.

pub mod growth;
pub mod label;
pub mod laws;
pub mod linear;
pub mod model;
pub mod prettyprint;
pub mod render;
pub mod text;
pub mod tree;
