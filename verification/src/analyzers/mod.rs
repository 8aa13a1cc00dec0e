//! The analyzers, each a set of rules over a pipeline.
pub mod deployment;
pub mod best_practices;
pub mod flink_checkpoint;
pub mod state;
pub mod shuffle;
pub mod spark_shuffle;
pub mod graph;
pub mod hotkey;
pub mod windowing;
pub mod reliability;
pub mod cost;
pub mod synthesis;
pub mod flink_state;
pub mod flink_watermark;
pub mod spark_join;
pub mod spark_streaming;
pub mod registry;
