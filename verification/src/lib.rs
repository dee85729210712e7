//! Glucose-monitor export processing: tolerant line parsing, timestamp
//! normalisation and per-day chart composition, with machine-checked contracts.

pub mod text;
pub mod time;
pub mod model;
pub mod parse;
pub mod normalize;
pub mod plot;
pub mod export;
pub mod pipeline;

pub use export::debug_print_file;
pub use model::FsLibreLine;
pub use normalize::{normalize, sort_by_timestamp, split_days, unify_timestamps};
pub use parse::{
    parse_file, parse_id, parse_integer, parse_line, parse_line_with, parse_timestamp, scan_file,
    FieldError,
    FileScan, LineOutcome, LineParseError, LineReport,
};
pub use pipeline::charts;
pub use plot::{build_path, build_title, plot, plot_wrapper, Chart};
pub use time::Timestamp;
