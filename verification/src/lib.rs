//! NMD: a compiler of NMD, a Markdown-like markup language, into HTML.
//!
//! A dossier is a set of NMD documents described by a configuration. A
//! document is loaded into a preamble and chapters of paragraphs (`loader`),
//! parsed with the rules of a codex (`parser`, `document_parsing`), and
//! assembled into an HTML page (`assembler`); `compiler` and `builder` chain
//! these steps, and `watching` decides what a change of files asks for.

// Text, patterns and identifiers.
pub mod text;
pub mod pattern;
pub mod ordering;
pub mod nmd_id;
pub mod reference;
pub mod resource;
pub mod encoding;

// Modifiers, rules and codex.
pub mod modifier;
pub mod standard_text_modifier;
pub mod standard_paragraph_modifier;
pub mod standard_chapter_modifier;
pub mod chapter_modifier;
pub mod text_modifier;
pub mod paragraph_modifier;
pub mod codex_configuration;
pub mod parsing;
pub mod parsing_rule;
pub mod image_rule;
pub mod codex;
pub mod output_format;

// Documents: loading and parsing.
pub mod chapter;
pub mod document;
pub mod loader;
pub mod parser;
pub mod configuration;
pub mod document_parsing;

// Output: pages, compilation, builds.
pub mod html_page;
pub mod assembler;
pub mod compiler;
pub mod builder;
pub mod watching;
