//! HTTP/1.1 message codec: builds request bytes from a URL and options, and
//! parses a server's status line, headers and body into a typed response.

pub mod constants;
pub mod decimal;
pub mod request;
pub mod response;
pub mod results;
pub mod text;
pub mod tokens;
pub mod url_parts;

pub use request::{Request, RequestBuilder};
pub use response::{Response, ResponseBuilder};
pub use results::{CabotError, CabotResult};
