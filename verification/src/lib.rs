//! Membership rate computation engine.
//!
//! For a population split into members and non-members of a reference
//! organization, the engine cross-references per-circle roster sheets
//! against a central membership registry and reports what fraction of
//! each circle belongs to the organization.

pub mod calculator;
pub mod cell;
pub mod error;
pub mod export;
pub mod extract;
pub mod numfmt;
pub mod paths;
pub mod registry;
pub mod report;

pub use calculator::collect_outcomes;
pub use cell::Cell;
pub use cell::Sheet;
pub use error::DataError;
pub use extract::extract_registry_records;
pub use extract::Student;
pub use extract::Students;
pub use numfmt::format_rate_label;
pub use numfmt::rate_basis_points;
pub use numfmt::u64_to_dec;
pub use paths::check_excel_file_path;
pub use paths::file_stem;
pub use registry::GakuyukaiMembers;
pub use report::CircleGakuyukaiRates;
pub use report::CircleInfo;
