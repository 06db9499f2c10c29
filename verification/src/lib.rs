//! Chorded, multi-layer kana keyboard layouts: cell classification, grid
//! construction and validation, and the n-gram statistics used to weigh them.
//!
//! The grid has 5 layers of 3 rows of 10 cells. [`cells`] classifies each
//! cell as fixed, blank or free; [`layout`] holds the grid and its three
//! constructors; [`validation`] looks for graphemes that are placed twice;
//! [`corpus`] counts n-grams. [`keypos`] and [`reference`] hold the cost
//! models and the reference layouts that scoring looks things up in.

pub mod cells;
pub mod corpus;
pub mod inventory;
pub mod keypos;
pub mod layout;
pub mod lookup;
pub mod ngram;
pub mod reference;
pub mod render;
pub mod shuffle;
pub mod text;
pub mod tokens;
pub mod validation;
