//! Request policy for a media proxy: SSRF address rules, URL checks,
//! header handling and the decisions that shape each proxied response.

pub mod config;
pub mod text;
pub mod ip;
pub mod netrange;
pub mod urlparts;
pub mod policy;
pub mod browsersafe;
pub mod headers;
pub mod request;
pub mod disposition;
pub mod response;
pub mod fetch;
pub mod transform;
pub mod upstream;
pub mod startup;
