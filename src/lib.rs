//! Status of compute accelerators: device samples read through the NVML
//! driver library, the processes on each device attributed to host
//! processes (also from inside process namespaces), and a formatted report.
//!
//! - `model`: the records of a query.
//! - `sampler`: sampling each device and gathering a host's samples.
//! - `nsmap`: the mapping from namespace pids to host pids.
//! - `resolve`: the owner and command of a reported pid.
//! - `display`: the report, one line per device.
//! - `text`: decimal numbers, justification and truncation.
use vstd::prelude::*;

pub mod display;
pub mod model;
pub mod nsmap;
pub mod resolve;
pub mod sampler;
pub mod text;

verus! {

} // verus!
