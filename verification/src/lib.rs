//! The station-link core of a weather-station bridge: the record model, the
//! command manager, the code router, the sensor catalogue, the link's rate
//! budget and the scheduler's timers, each with a proved contract.

pub mod clock;
pub mod code;
pub mod conf;
pub mod link;
pub mod mqtt;
pub mod publisher;
pub mod scheduler;
pub mod search;
pub mod sensor;
pub mod station;
pub mod stream;
pub mod text;
