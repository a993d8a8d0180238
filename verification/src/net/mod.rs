//! Panels that talk to services: a request client and a device browser.

pub mod calendar;
pub mod devices;
pub mod http;
