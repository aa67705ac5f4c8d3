//! Telemetry history and graph rendering for a small monochrome dashboard.
//!
//! `window` keeps a fixed number of the most recent utilization samples,
//! `graph` turns them into the drawing commands of an area chart, and
//! `bundle` holds the latest readings with that history and lays out their
//! texts.
mod bundle;
mod graph;
mod window;

pub use window::{
    LoadStorage, HISTORY_LEN, LOAD_SCALE, pushed, pushed_all, idle_window, lemma_pushes_keep_length,
    lemma_pushes_keep_latest, lemma_fifo_order,
};
pub use graph::{
    ConfigError, DrawCommand, GraphGeometry, GraphRenderer, Point, clamped, shade, column_commands, columns, graph_commands,
    lemma_boundary_mapping, lemma_monotonic_mapping, lemma_render_repeatable, inside, drawn_inside,
    lemma_chart_stays_in_frame,
};
pub use bundle::{Font, InfoBundle, Label, shows};
