//! Extraction of structured documentation from annotation comments in
//! SystemVerilog sources: a tag-grammar parser for the comment markup, a
//! document assembler driven by structural events, and a Markdown renderer
//! for the resulting document tree.
#![verifier::loop_isolation(false)]

pub mod comment_parser;
pub mod docgen;
pub mod generator;
pub mod numbered_list;
pub mod text;
