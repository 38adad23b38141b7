//! A URL-shortening record store: short codes map to target URLs, with
//! creation and update times and a per-code access counter.

pub mod dtos;
pub mod error;
pub mod laws;
pub mod models;
pub mod service;
pub mod store;
pub mod time;

pub use dtos::{CreateUrlRequest, UpdateUrlRequest, UrlResponse};
pub use error::{ServiceError, StoreFault};
pub use models::{Url, UrlRecord};
pub use service::UrlService;
pub use store::UrlStore;
pub use time::Timestamp;
