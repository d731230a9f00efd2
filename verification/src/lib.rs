//! Adapter between a cloud gateway's proxy-integration JSON events and a
//! canonical, strongly typed HTTP request/response pair.
//!
//! The crate decodes the gateway's JSON envelope into a [`GatewayRequest`],
//! assembles a canonical [`Request`] carrying query/path/stage maps and a
//! [`RequestContext`], negotiates structured payloads by content type, and
//! encodes a canonical [`Response`] back into the gateway's JSON reply shape.

pub mod b64;
pub mod body;
pub mod ext;
pub mod json;
pub mod request;
pub mod response;
pub mod strmap;
pub mod strutil;

pub use body::Body;
pub use body::EncodeError;
pub use ext::Payload;
pub use ext::PayloadEncoding;
pub use ext::PayloadError;
pub use json::JsonValue;
pub use request::DecodeError;
pub use request::GatewayRequest;
pub use request::Identity;
pub use request::Request;
pub use request::RequestContext;
pub use response::GatewayResponse;
pub use response::IntoResponse;
pub use response::Response;
pub use strmap::StrMap;
pub use strmap::StrMapIter;
