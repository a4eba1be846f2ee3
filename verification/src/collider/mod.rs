//! Anomaly classification for the attention "collider".

pub mod anomaly;
pub mod monitor;
