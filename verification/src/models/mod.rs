//! Domain types shared by the simulator, the engine, the data generator and
//! the report.

pub mod psp;
pub mod report;
pub mod routing;
pub mod transaction;
