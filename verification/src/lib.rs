//! Verified core logic of a BLE asset tracker: advertisement payloads,
//! scan-report filtering, tag stores and the gateway's update pipeline.
use vstd::prelude::*;

pub mod ad;
pub mod advertiser;
pub mod beacon;
pub mod collections;
pub mod scan;
pub mod scanner;
pub mod tag_store;
pub mod sighting;
pub mod packet;
pub mod gateway;
pub mod battery;
