//! Lycan: an adaptive graph runtime whose rules are proved.

pub mod arg_laws;
pub mod ast;
pub mod auth_tokens;
pub mod backup;
pub mod binary;
pub mod binary_laws;
pub mod bytes;
pub mod call_laws;
pub mod candidate_laws;
pub mod cap_args;
pub mod cap_calls;
pub mod cap_laws;
pub mod cap_value;
pub mod capabilities;
pub mod capability_list;
pub mod capsule_memory;
pub mod change_detection;
pub mod choice_laws;
pub mod combinatorics;
pub mod combinatorics_laws;
pub mod command_laws;
pub mod commands;
pub mod compiler_laws;
pub mod conformal;
pub mod context;
pub mod decision_laws;
pub mod digest;
pub mod edit_laws;
pub mod ephemeris;
pub mod ephemeris_laws;
pub mod error;
pub mod evolution_laws;
pub mod evolution_loop;
pub mod evolution_report;
pub mod fading_laws;
pub mod feature_laws;
pub mod feature_schema;
pub mod feedback;
pub mod flow_laws;
pub mod format_laws;
pub mod function_laws;
pub mod graph;
pub mod graph_compiler;
pub mod graph_executor;
pub mod graph_laws;
pub mod guard_laws;
pub mod hierarchical;
pub mod hierarchical_feedback;
pub mod hierarchical_json;
pub mod hierarchical_state;
pub mod host_laws;
pub mod inspect;
pub mod json;
pub mod json_path;
pub mod json_text;
pub mod learning;
pub mod learning_config;
pub mod learning_laws;
pub mod learning_memory;
pub mod learning_sections;
pub mod learning_stats;
pub mod linucb;
pub mod loop_laws;
pub mod memory_laws;
pub mod message;
pub mod meta_bandit;
pub mod net_laws;
pub mod node_laws;
pub mod number;
pub mod op_laws;
pub mod ops;
pub mod parse;
pub mod program_edits;
pub mod real_constants;
pub mod report_laws;
pub mod reports;
pub mod run_laws;
pub mod run_model;
pub mod sandbox;
pub mod settings_laws;
pub mod shape_laws;
pub mod slots;
pub mod sorting;
pub mod source_text;
pub mod stats_laws;
pub mod stats_report;
pub mod strings;
pub mod table;
pub mod text;
pub mod text_laws;
pub mod tree_laws;
pub mod values;
pub mod weighing;
pub mod weight_laws;
