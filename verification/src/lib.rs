//! A small flight-reservation library: flight, passenger and booking records
//! kept in ordered identifier-keyed stores, with booking and cancellation
//! transactions that keep each flight's seat availability consistent with the
//! set of active bookings.

pub mod bookings;
pub mod entities;
pub mod errors;
pub mod flights;
pub mod ids;
pub mod passengers;
pub mod store;
pub mod system;
pub mod text;
