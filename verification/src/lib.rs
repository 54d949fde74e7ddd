//! Decides whether a program should be launched on a given day: on working days,
//! skipping weekends and public holidays, and running on transferred working days.
pub mod calendar;
pub mod config;
pub mod decision;
pub mod holidays;
pub mod laws;

pub use calendar::Date;
pub use config::{
    default_missing_policy, looks_like_path, next_config_search, resolve_against, resolve_given,
    AppConfig,
    ConfigSearch,
};
pub use decision::{decide, decide_with_invert, weekday_rule, Decision};
pub use holidays::{HolidayDate, HolidayFile, HolidayIndex, IndexError};
