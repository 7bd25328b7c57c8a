//! Semantic model layer for SysML v2 and KerML.

use vstd::prelude::*;

pub mod assoc;
pub mod assign_user;
pub mod ast;
pub mod cache_format;
pub mod checks;
pub mod claims_laws;
pub mod closures;
pub mod comment;
pub mod compact;
pub mod constraints;
pub mod derive_base;
pub mod derive_lists;
pub mod derive_structure;
pub mod derive_behavior;
pub mod derive_features;
pub mod derive_ends;
pub mod derive_walks;
pub mod derive_names;
pub mod derive_evaluate;
pub mod derived;
pub mod derived_laws;
pub mod derived_words;
pub mod elements;
pub mod heritage;
pub mod derived_table;
pub mod equivalence;
pub mod expose;
pub mod expr_laws;
pub mod expose_laws;
pub mod graph_get;
pub mod accessors;
pub mod apply_ids;
pub mod artifact;
pub mod assign_ids;
pub mod id_names;
pub mod ids;
pub mod implied;
pub mod layered;
pub mod lib_names;
pub mod libcache;
pub mod link_search;
pub mod linker;
pub mod linking;
pub mod linking_laws;
pub mod lookup_laws;
pub mod lower_base;
pub mod lowering_laws;
pub mod lower_body;
pub mod lower_definition;
pub mod lower_detail;
pub mod lower_expr;
pub mod lower_member;
pub mod lower_usage;
mod lower_util;
pub mod metamodel;
pub mod misses;
pub mod model_build;
pub mod names;
pub mod naming_ids;
pub mod navigate;
pub mod props;
pub mod queries;
pub mod refname;
pub mod resolution;
pub mod resolved;
pub mod resolver_base;
pub mod resolver_filter;
pub mod resolver_import;
pub mod resolver_lookup;
pub mod resolver_new;
pub mod resolver_path;
pub mod resolver_verdict;
pub mod resolver_walk;
pub mod rget;
pub mod rgraph;
pub mod rpure;
pub mod rstate;
pub mod satisfaction;
pub mod scope_table;
pub mod shadow;
pub mod shadowing;
pub mod shape;
pub mod state;
pub mod syntax;
pub mod tables;
pub mod text;

verus! {

} // verus!
