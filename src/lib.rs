//! Bulk download of historical climate data: one CSV request per month of a
//! range of years, for one station. The library holds the decisions: reading
//! the options, building each request and file name, judging each response,
//! and tracking the run. Network, disk and console are left to the caller.
pub mod config;
pub mod decimal;
pub mod run;
pub mod target;
pub mod text;

pub use config::parse_timeframe;
pub use config::ConfigError;
pub use config::RunConfig;
pub use config::Timeframe;
pub use run::classify;
pub use run::Response;
pub use run::Run;
pub use run::RunStatus;
pub use run::Verdict;
pub use target::fetch_target;
pub use target::file_name;
pub use target::target_path;
pub use target::target_url;
pub use target::FetchTarget;
