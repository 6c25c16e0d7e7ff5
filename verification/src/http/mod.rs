//! The HTTP protocol engine: request parsing and response building.

pub mod request;
pub mod response;

pub use request::HttpMethod;
pub use request::HttpRequest;
pub use response::HttpResponse;
