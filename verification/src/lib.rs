//! Scheduling, data-layout and message-framing logic of a CGNE/CGNR image
//! reconstruction service: which job runs next, which system matrix and image
//! geometry a request uses, how CSV data becomes sparse entries, how solver
//! output is laid out as an RGB image, and how messages are framed.

pub mod csv_data;
pub mod dispatch;
pub mod models;
pub mod protocol;
pub mod queue;
pub mod render;
pub mod request_plan;
