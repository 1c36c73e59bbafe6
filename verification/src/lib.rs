//! Request pipeline of a small HTTP/1.1 server: splitting and decoding the
//! bytes of a request, matching its path against route templates, and
//! encoding the response.

pub mod handlers;
pub mod helper;
pub mod http_error;
pub mod http_path;
pub mod http_request;
pub mod http_response;
pub mod http_version;
pub mod server;
pub mod text;
pub mod text_map;
