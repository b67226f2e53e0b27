//! Verified core of the Aven type checker.
pub mod access;
pub mod alpha;
pub mod annotation_laws;
pub mod annotations;
pub mod arguments;
pub mod arm_laws;
pub mod arms;
pub mod artifacts;
pub mod attachments;
pub mod baked;
pub mod binary_operations;
pub mod bodies;
pub mod builtin_methods;
pub mod call_laws;
pub mod calls;
pub mod check_laws;
pub mod collections;
pub mod comparison;
pub mod comparison_laws;
pub mod comparison_levels;
pub mod comparison_reports;
pub mod comparison_steps;
pub mod comptime_calls;
pub mod conformance;
pub mod declarations;
pub mod diagnostics;
pub mod equality;
pub mod equality_laws;
pub mod equality_levels;
pub mod evaluation_laws;
pub mod expression_rules;
pub mod families;
pub mod family_laws;
pub mod family_levels;
pub mod findings;
pub mod folding;
pub mod folding_laws;
pub mod heads;
pub mod inference;
pub mod inference_laws;
pub mod inherited;
pub mod knowledge;
pub mod lookup;
pub mod match_laws;
pub mod matches;
pub mod member_laws;
pub mod method_calls;
pub mod methods;
pub mod module_laws;
pub mod modules;
pub mod nesting;
pub mod normalize;
pub mod notation;
pub mod obligations;
pub mod operation_laws;
pub mod operator_laws;
pub mod operators;
pub mod owners;
pub mod patterns;
pub mod program_laws;
pub mod providers;
pub mod publication;
pub mod records;
pub mod requirements;
pub mod row_edits;
pub mod reports;
pub mod row_laws;
pub mod rows;
pub mod same;
pub mod scheme_laws;
pub mod schemes;
pub mod span;
pub mod specialization;
pub mod syntax;
pub mod text;
pub mod syntax_laws;
pub mod type_laws;
pub mod type_ops;
pub mod types;
pub mod value_checks;
pub mod value_laws;
pub mod value_levels;
pub mod values;
pub mod writing_laws;
