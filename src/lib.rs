//! Fetch-and-compose pipeline: locate a media URL in an API response, decode
//! the fetched image, place an overlay graphic on it and draw a dated caption.
use vstd::prelude::*;

pub mod error;
pub mod json;
pub mod query;
pub mod caption;
pub mod raster;
pub mod compose;
