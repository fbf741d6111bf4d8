//! The requests and records of the image service.

use vstd::prelude::*;

pub mod form;
pub mod format;
pub mod market;
pub mod query;
pub mod response;
pub mod thumbnail_query;
pub mod url;

pub use self::url::UrlBuilder;
pub use format::Format;
pub use market::{Market, ParseMarketError};
pub use query::Query;
pub use response::{Image, Response, Tooltips};
pub use thumbnail_query::{CropMode, ThumbnailParams, ThumbnailQuery};

verus! {

/// The address of the service, against which the links of a record resolve.
pub const BASE_URL: &'static str = "https://www.bing.com/";

/// The endpoint of the image archive.
pub const HP_IMAGE_ARCHIVE_URL: &'static str = "https://www.bing.com/HPImageArchive.aspx";

/// The endpoint of thumbnails.
pub const THUMBNAIL_URL: &'static str = "https://www.bing.com/th";

} // verus!
