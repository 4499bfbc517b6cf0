//! Build-matrix inputs for a continuous-integration tool: which systems a
//! systems-list flake denotes, and which subflakes a project is made of.

pub mod eval;
pub mod json;
pub mod lex;
pub mod registry;
pub mod strings;
pub mod subflakes;
pub mod system_list;
