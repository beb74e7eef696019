pub mod issues;
pub mod laws;
pub mod pull;
pub mod push;
