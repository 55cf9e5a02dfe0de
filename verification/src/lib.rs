pub mod auth_middleware;
pub mod business_result;
pub mod decimal;
pub mod elasticsearch;
pub mod gatekeeper;
pub mod json;
pub mod metrics;
pub mod parse_request;
pub mod problem;
pub mod retry;
pub mod serde_field_value;
pub mod service_requester;
pub mod status;
pub mod subject;
pub mod text;
pub mod types;
pub mod ws_try;

pub use crate::business_result::{BusinessResult, BusinessResultExt};
pub use crate::parse_request::{
    request_parameter, validate_json, LimitedRaw, LimitedRawConfig, ValidatedJson,
    ValidatedJsonConfig,
};
pub use crate::problem::{Failure, Problem};
pub use crate::service_requester::{
    encode_url_component, ClientRequest, IntoClientRequest, Method, ServiceRequester,
};
