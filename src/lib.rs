//! Scheduling core of a load generator: validated run configuration,
//! per-worker client pools, the worker state machine with staggered starts,
//! and aggregation of the reports that workers hand back.

pub mod config;
pub mod worker;
pub mod schedule;
pub mod pool;

pub use config::{read_i64_configuration, Config, ConfigError, ConfigWarning, DocFields, FieldValue, WarningKind};
pub use worker::{start_delay, ContextSeed, Worker, WorkerState, WorkerStep};
pub use schedule::{collect_reports, join, plan_workers};
pub use pool::Pool;
