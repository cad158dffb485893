//! A small HTTP/1.1 server core: it reads a request out of the bytes that a
//! connection delivered, picks the route and handler for it, and writes
//! responses. Sockets and the accept loop are left to the caller.

pub mod laws;
pub mod request;
pub mod response;
pub mod server;
pub mod strmap;
pub mod text;

pub use request::{Method, Request};
pub use response::Response;
pub use server::{Handler, Outcome, Route, Server};
pub use strmap::StrMap;
