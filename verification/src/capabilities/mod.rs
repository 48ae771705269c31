//! Editor capabilities offered by the server.

pub mod codelens;
pub mod references;
