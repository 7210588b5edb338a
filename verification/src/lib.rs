//! Client-side logic for the Quandl v3 API of financial and economic datasets:
//! the parameter model of a request, its validation and serialisation into a
//! URL, and the decoding of the two kinds of response (JSON observations and
//! a zipped CSV listing of dataset codes).
//!
//! The HTTP round trip itself is left to the caller: this crate says which URL
//! to fetch and what the bytes that come back mean.

pub mod text;
pub mod error;
pub mod date;
pub mod quandl_request;
pub mod quandl;
pub mod query;
pub mod laws;
pub mod response;
pub mod archive;
pub mod csv;
pub mod requests;

pub use crate::date::Date;
pub use crate::error::QuandlError;
pub use crate::quandl::Quandl;
pub use crate::quandl_request::{Collapse, DateInput, Order, QuandlRequest, Transform};
pub use crate::requests::dataset_list_call::{DatasetCode, DatasetListCall};
