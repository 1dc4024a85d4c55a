//! The signum-style peer-to-peer API: the request shapes it accepts, the
//! info body it sends, and the handler that dispatches between them.

pub mod outgoing_json;
pub mod request_models;
pub mod signum_api_handler;

pub use outgoing_json::OutgoingGetInfoRequest;
pub use outgoing_json::OutgoingJsonBuiler;
pub use signum_api_handler::signum_api_handler;
pub use signum_api_handler::ApiResponse;
