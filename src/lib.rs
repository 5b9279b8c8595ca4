//! Finds hosts whose MAC address has gone unseen on the switches for a
//! number of months, by joining a switch sighting log with a host inventory.
pub mod chars;
pub mod history;
pub mod inventory;
pub mod laws;
pub mod months;
pub mod report;
pub mod sighting;
