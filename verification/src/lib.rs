//! Verified core of a loadshedding-calendar generator.
//!
//! Recurring per-area outage schedules (weekly, monthly, or periodic
//! day-cycles) are combined with manually curated national time windows to
//! produce concrete outage intervals.  The calendar arithmetic, recurrence
//! matching, interval generation, overlap validation, assembly and
//! post-filtering are all verified; pattern matching over area names is
//! delegated to the `regex` crate through a small trusted boundary.

pub mod assemble;
pub mod changes;
pub mod dates;
pub mod errors;
pub mod generate;
pub mod outage;
pub mod postfilter;
pub mod schedule;
pub mod text;
pub mod validate;

pub use assemble::calculate_power_outages;
pub use assemble::make_combinations_from_sheddings;
pub use changes::Change;
pub use changes::ManuallyInputSchedule;
pub use changes::RawChange;
pub use changes::RawManuallyInputSchedule;
pub use dates::Date;
pub use dates::DateTime;
pub use dates::TimeOfDay;
pub use errors::ConfigError;
pub use generate::gen_datetimes;
pub use outage::PowerOutage;
pub use schedule::RawMonthlyShedding;
pub use schedule::RawPeriodicShedding;
pub use schedule::RawWeeklyShedding;
pub use schedule::Recurrence;
pub use schedule::RecurringShedding;
pub use validate::ConflictError;
pub use validate::err_if_overlaps;
