//! A cache of weather results keyed by the text that a user searched for, the worker that
//! fills it, and the polling that lets a user interface wait for a result.
pub mod cache;
pub mod dispatcher;
pub mod location;
pub mod worker;
