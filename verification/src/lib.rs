//! Register maps written as spreadsheets, turned into a component
//! description and a register description for viewers.
//!
//! A workbook is read sheet by sheet into tables ([`excel`]); the sheet of
//! each address block is normalised into registers ([`parser`]); the
//! component is put together from them ([`assemble`]); and the component is
//! mapped to either description ([`schema`]).

pub mod assemble;
pub mod error;
pub mod excel;
pub mod outcome;
pub mod parser;
pub mod pattern;
pub mod schema;
pub mod text;
