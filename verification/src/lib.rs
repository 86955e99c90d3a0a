//! Routing of Dart signals to handlers: the rules that decide what a handler's
//! result sends back, which state each route is sealed with, how the signal
//! loop reacts to what it receives, and how middleware tags messages.

pub mod extractor;
pub mod handler;
pub mod into_response;
pub mod router;
pub mod service;
pub mod test_helpers;
