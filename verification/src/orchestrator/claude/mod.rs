//! Model invocations: command arguments, model routing, the event stream and
//! the session result.
pub mod invocation;
pub mod routing;
pub mod schema;
pub mod session;
pub mod stream;
