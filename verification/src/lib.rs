//! The engine of a log viewer: it keeps the rows of a log that pass the
//! column filters, a highlighted row and a scroll position over them, and
//! the rows that the user has marked.

pub mod detail_view;
pub mod dispatch;
pub mod filters;
pub mod laws;
pub mod loading_view;
pub mod log_message;
pub mod marks;
pub mod model;
pub mod number;
pub mod reader;
pub mod record;
pub mod table_view;
pub mod text;

pub use filters::{MyFilter, MyFilters};
pub use reader::LogReader;
pub use record::Record;
