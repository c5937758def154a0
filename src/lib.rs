//! A small HTTP/1.1 client protocol core for a container daemon's control
//! API spoken over a local socket: request formatting, response parsing and
//! body decoding, with their contracts proved.
pub mod client;
pub mod error;
pub mod headers;
pub mod json;
pub mod laws;
pub mod response;
pub mod text;

pub use error::ClientError;
pub use client::{Docker, Method};
pub use headers::Headers;
pub use response::{read_response, DockerResult, Phase, ResponseReader};
