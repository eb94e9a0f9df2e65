//! Data models for the `TopStats` API.
//!
//! This module contains all the types used to represent data from the `TopStats` API,
//! including bots, historical data, rankings, and more.

pub mod bot;
pub mod historical;
pub mod rankings;
pub mod recent;
pub mod timestamp;
pub mod user;
