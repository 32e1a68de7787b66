//! A sensor monitor for the Raspberry Pi: the parsing, history, rate and
//! threshold logic behind its dashboard.
//!
//! Every read goes through [`Probe`], an abstract source that tests replace with
//! canned sysfs and vcgencmd output. A sweep asks the probe and yields a draft
//! whose numbers are [`formula::Formula`]s: the text or the integers that a
//! reading is made of. Evaluating them takes floating-point arithmetic, which is
//! left to the caller; the results come back as bit patterns
//! ([`single::Single`]), and from there on every decision is made here again.
//!
//! - [`text`], [`single`], [`table`], [`formula`]: the basic values
//! - [`sensors`], [`throttle`], [`units`]: what single texts say
//! - [`probe`], [`host`]: what is asked of the machine
//! - [`sweep`], [`snapshot`]: one pass over all sensors, and the rates between
//!   two passes
//! - [`board`], [`views`], [`live`], [`widgets`], [`palette`], [`watch`]: what the
//!   dashboard keeps and shows
//! - [`laws`] and the modules whose names begin with `laws_of_`: what the
//!   operations promise, stated on their inputs and results alone

pub mod board;
pub mod formula;
pub mod host;
pub mod laws;
pub mod laws_of_live;
pub mod laws_of_sensors;
pub mod laws_of_state;
pub mod laws_of_sweeps;
pub mod laws_of_text;
pub mod laws_of_views;
pub mod laws_of_widgets;
pub mod live;
pub mod palette;
pub mod probe;
pub mod sensors;
pub mod single;
pub mod snapshot;
pub mod sweep;
pub mod table;
pub mod text;
pub mod throttle;
pub mod units;
pub mod views;
pub mod watch;
pub mod widgets;

pub use probe::Probe;
pub use sensors::{parse_gencmd_temp, CpuTimes, LOADAVG, MEMINFO, THERMAL_GLOB, VCGENCMD};
pub use snapshot::Snapshot;
pub use sweep::{collect_snapshot, CLOCK_DOMAINS};
pub use throttle::ThrottleState;
pub use units::{Sample, SnapshotError};
