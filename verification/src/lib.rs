//! Client-side model of a daily-wallpaper service.
//!
//! - [`id`] and [`copyright`] read the identifiers and the attribution lines
//!   of the service, and write identifiers down again;
//! - [`bing`] holds the markets, the parameters of the requests and the
//!   records of the answers;
//! - [`image`] turns a record of the service into an image of the library;
//! - [`merge`] puts two lists of images together, [`stale`] tells whether a
//!   list is due for a refresh, and [`refresh`] decides, step by step, what a
//!   refresh reads, fetches, writes and reports;
//! - [`store`], [`download`], [`session`] and [`locale`] name files and
//!   addresses, plan downloads, search lists and switch markets.
//!
//! The library neither reads files nor talks to the network: the functions
//! take what was read and say what is to be done.

pub mod bing;
pub mod copyright;
pub mod decimal;
pub mod download;
pub mod error;
pub mod id;
pub mod image;
pub mod locale;
pub mod merge;
pub mod order;
pub mod refresh;
pub mod session;
pub mod stale;
pub mod store;
pub mod text;

pub use copyright::Copyright;
pub use error::ErrorKind;
pub use id::ID;
pub use image::Image;
