//! Static analysis of JavaScript ESTree trees: the rules, the tree helpers
//! and the graph algorithms, with their contracts proved by Verus.

pub mod json;
pub mod text;
pub mod collections;
pub mod posix_path;
pub mod patterns;
pub mod estree;
pub mod hex;
pub mod base64;
pub mod deobfuscator;
pub mod obfuscators;
pub mod parser;
pub mod probe;
pub mod probe_runner;
pub mod probes;
pub mod entry_files_analyser;
pub mod inlined;
pub mod pipelines;
pub mod node_counter;
pub mod collectable_set;
pub mod analyse_options;
pub mod ast_analyser;
