pub mod cli;
pub mod entries;
pub mod go;
pub mod indexer;
pub mod java;
pub mod language;
pub mod markdown;
pub mod pattern;
pub mod python;
pub mod render;
pub mod rust;
pub mod skeleton;
pub mod syntax;
pub mod text;
pub mod trie;
pub mod typescript;
