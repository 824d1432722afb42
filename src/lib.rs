//! A sequential plugin pipeline with verified step logic, the conversions
//! between the payload representations its units work on, and the parsers
//! for the invoice and payment documents that feed it.

/// Plain and tagged payloads and the conversions between them.
pub mod payload;
/// The pipeline: unit order, bridging, and fail-fast runs.
pub mod pipeline;
/// Distances in steps or jumps, and walking a list of movers.
pub mod walk;
/// Character-level text operations the parsers are built from.
pub mod text;
/// Invoices and payments.
pub mod models;
/// Reading invoices and payments from document text.
pub mod parse;
