//! A minimal S3-compatible object store: the request-signing, naming,
//! listing, multipart and response-rendering logic, with contracts.

pub mod text;
pub mod scan;
pub mod strmap;
pub mod crypto;
pub mod codec;
pub mod xml;
pub mod error;
pub mod auth;
pub mod storage;
pub mod order;
pub mod listing;
pub mod s3;
pub mod responses;
pub mod sync;
pub mod client;
pub mod metrics;
pub mod ui;
pub mod routing;
pub mod config;
pub mod clock;
