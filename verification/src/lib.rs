//! Building XML documents in memory with quick-xml, with the nesting of elements
//! and the bytes written proved against a model of the document.
pub mod console;
pub mod demo;
pub mod document;
pub mod escaping;
pub mod event;
pub mod markup;
pub mod nesting;
pub mod sessions;
pub mod sink;
