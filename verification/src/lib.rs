//! Settings logic behind the configuration pages of the `ag` admin console:
//! text handling for form fields, the runtime-settings table, the chunker,
//! corpus, embedding and io_uring settings.

pub mod chunker;
pub mod corpus;
pub mod embedding;
pub mod io_uring;
pub mod numbers;
pub mod order;
pub mod overview;
pub mod runtime_settings;
pub mod text;
