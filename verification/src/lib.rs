pub mod pattern;
pub mod request;
pub mod response;
pub mod router;
pub mod routing;
pub mod server;
