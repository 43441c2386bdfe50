//! Span-tree profiling: aggregation of nested timing spans and events into a
//! call tree, with the reductions and text rendering applied before display,
//! and a builder for trace file names.

mod counters;
mod csv_row;
mod fields;
mod filename;
mod graph;
mod laws;
mod linear;
mod log_tree;
mod settings;
mod state;
mod text;

pub use counters::{CounterValue, EventCounts};
pub use csv_row::{timing, LogRow};
pub use fields::{event_signature, CounterVisitor, EventField, EventRecord, FieldValue, WritingFieldVisitor};
pub use filename::{get_git_info, sanitize_filename, FilenameBuilderError, GitInfo, TraceFilenameBuilder, TraceLocation, TraceOverrides};
pub use graph::{execution_percentage, percent_above, percent_below, reduce_children, Config, GraphNode};
pub use laws::{
    lemma_accumulate_chain, lemma_accumulate_leaf, lemma_children_in_exit_order, lemma_combine_associative,
    lemma_combine_commutative,
    lemma_duration_is_time_between_enter_and_exit, lemma_worker_events_go_to_current_span,
};
pub use log_tree::LogTree;
pub use settings::{bool_setting, bool_word, max_rss_mib, RssUnit};
pub use state::State;
pub use text::{decimal, joined};
