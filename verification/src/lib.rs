//! A reader for Windows Runtime metadata: tables of fixed-width rows over a
//! byte buffer, heaps of strings and blobs, coded indexes, and the model of
//! types, methods and interfaces that is built from them.

pub mod file;
pub mod row;
pub mod reader;
pub mod text;
pub mod flags;
pub mod tables;
pub mod codes;
pub mod method_def;
pub mod type_def;
pub mod type_guid;
pub mod type_kind;
pub mod names;
pub mod method;
pub mod interface;
pub mod types;
