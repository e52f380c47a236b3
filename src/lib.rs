//! The request and response transformations of a reverse proxy: header
//! hygiene, upgrade negotiation, forwarding URL construction and the
//! forwarding chain.
pub mod error;
pub mod forward;
pub mod headers;
pub mod hygiene;
pub mod message;
pub mod request;
pub mod response;
pub mod text;
pub mod upgrade;

pub use error::ProxyError;
pub use forward::forward_uri;
pub use headers::{HeaderSet, HeaderValue};
pub use hygiene::{hop_headers, remove_hop_by_hop, remove_hop_headers};
pub use message::{ForwardedRequest, RequestHead, ResponseHead};
pub use request::{append_forwarded_for, create_proxied_request};
pub use response::{create_proxied_response, finish_call, Reply, SWITCHING_PROTOCOLS};
pub use upgrade::get_upgrade_type;
