//! A batch file renamer: plan, check, apply, undo.
//!
//! The crate builds an ordered plan of `(source, destination, action)`
//! records from a directory walk, a matching pattern and a destination
//! template, refuses to run when two records claim one destination or a
//! destination is already taken, applies the plan sequentially with a
//! copy-and-delete fallback for moves, and records every completed action
//! in an undo log whose line format this crate defines and parses itself.

mod checker;
mod collector;
mod logfmt;
mod mover;
mod pattern;
mod template;
mod transform_list;

pub use checker::Problem;
pub use checker::dest_claims;
pub use checker::is_planned_source;
pub use checker::lemma_conflict_flagged;
pub use checker::lemma_existing_flagged;
pub use checker::path_set;
pub use checker::problem_model;
pub use checker::check_list;
pub use checker::has_problems;

pub use collector::collect_files;
pub use collector::filter_matching;
pub use collector::matching_files;
pub use logfmt::encode_model;
pub use logfmt::encode_record;
pub use logfmt::lemma_parse_encode;
pub use logfmt::parse_model;
pub use logfmt::parse_record;
pub use mover::ExecError;
pub use mover::apply_model;
pub use mover::lemma_copy_round_trip;
pub use mover::lemma_move_fallback;
pub use mover::lemma_move_round_trip;
pub use mover::resolve_model;
pub use mover::run_model;
pub use mover::run_model_each;
pub use mover::lemma_run_mixed_fallback;
pub use mover::RunModel;
pub use mover::FsOp;
pub use mover::MemFs;
pub use mover::apply_item;
pub use mover::do_perform;
pub use mover::resolve_op;
pub use mover::perform_checked;
pub use mover::RunOutcome;
pub use pattern::CompiledPattern;
pub use pattern::re_captures;
pub use pattern::re_compiles;
pub use pattern::re_is_match;
pub use template::CtxVal;
pub use template::context_model;
pub use template::lemma_transform_deterministic;
pub use template::render_of;
pub use template::template_compiles;
pub use template::tpl_compiles;
pub use template::transform_model;
pub use template::transform_name;
pub use transform_list::Action;
pub use transform_list::ItemModel;
pub use transform_list::LogError;
pub use transform_list::PlanError;
pub use transform_list::reverse_model;
pub use transform_list::TransformListItem;
pub use transform_list::TransformList;
