//! GPU telemetry display logic: parsing the query tool's output, classifying
//! and rendering readings, and the poll/render/input loop's state machine.
pub mod cycle;
pub mod num;
pub mod query;
pub mod render;

pub use cycle::{InputEvent, LoopEvent, LoopState};
pub use num::Decimal;
pub use query::{Metric, QueryError, QueryOutcome};
pub use render::{Reading, RenderedLine, Style};
