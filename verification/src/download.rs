//! Downloads: what is fetched, and under which names it is kept, for an
//! image at a resolution.

use crate::bing::url::{UrlBuilder, UrlBuilderView};
use crate::decimal::{decimal, Number};
use crate::error::ErrorKind;
use crate::id::{IdView, ID};
use crate::store::{cache_key, spec_cache_key};
use vstd::prelude::*;

verus! {

/// What a download needs to know.
#[derive(Debug)]
pub struct Download {
    /// The address from which the image is fetched.
    pub url: String,
    /// The name under which the fetched image is kept in the cache.
    pub cache_key: String,
    /// The file name that is offered for the saved image.
    pub file_name: String,
}

/// The mathematical value of a `Download`.
pub struct DownloadView {
    pub url: Seq<char>,
    pub cache_key: Seq<char>,
    pub file_name: Seq<char>,
}

impl View for Download {
    type V = DownloadView;

    open spec fn view(&self) -> DownloadView {
        DownloadView { url: self.url@, cache_key: self.cache_key@, file_name: self.file_name@ }
    }
}

/// The builder of the address of `id` at a resolution: width and height as
/// asked and no padding, or the identifier alone for the native resolution.
pub open spec fn builder_for(id: Seq<char>, resolution: Option<(u32, u32)>) -> UrlBuilderView {
    match resolution {
        Some((width, height)) => UrlBuilderView {
            id,
            pid: None,
            width: Some(width),
            height: Some(height),
            padding: Some(0),
            crop: None,
        },
        None => UrlBuilderView {
            id,
            pid: None,
            width: None,
            height: None,
            padding: None,
            crop: None,
        },
    }
}

/// The identifier of the image at a resolution: with the width and height
/// asked for, or marked as native.
pub open spec fn id_at(id: IdView, resolution: Option<(u32, u32)>) -> IdView {
    match resolution {
        Some((width, height)) => IdView {
            uhd: false,
            width: Some(decimal(width as nat)),
            height: Some(decimal(height as nat)),
            ..id
        },
        None => IdView { uhd: true, ..id },
    }
}

/// The download of the image `id` at a resolution; an error where `id` is
/// not of the grammar of identifiers or the address cannot be built.
pub open spec fn spec_plan(id: Seq<char>, resolution: Option<(u32, u32)>) -> Result<
    DownloadView,
    ErrorKind,
> {
    match crate::id::spec_parse(id) {
        None => Err(ErrorKind::InvalidId),
        Some(parsed) => match builder_for(id, resolution).address() {
            Err(e) => Err(e),
            Ok(url) => Ok(
                DownloadView {
                    url,
                    cache_key: spec_cache_key(url),
                    file_name: id_at(parsed, resolution).spec_format(),
                },
            ),
        },
    }
}

/// The view of a planned download.
pub open spec fn view_of(r: Result<Download, ErrorKind>) -> Result<DownloadView, ErrorKind> {
    match r {
        Ok(download) => Ok(download@),
        Err(e) => Err(e),
    }
}

/// The download that follows from the identifier read and the address
/// built.
pub fn plan_with(
    parsed: Option<ID>,
    url: Result<String, ErrorKind>,
    resolution: Option<(u32, u32)>,
) -> (r: Result<Download, ErrorKind>)
    ensures
        view_of(r) == match crate::id::view_of(parsed) {
            None => Err(ErrorKind::InvalidId),
            Some(parsed) => match url {
                Err(e) => Err(e),
                Ok(url) => Ok(
                    DownloadView {
                        url: url@,
                        cache_key: spec_cache_key(url@),
                        file_name: id_at(parsed, resolution).spec_format(),
                    },
                ),
            },
        },
{
    let parsed = match parsed {
        Some(parsed) => parsed,
        None => {
            return Err(ErrorKind::InvalidId);
        },
    };
    let url = match url {
        Ok(url) => url,
        Err(e) => {
            return Err(e);
        },
    };
    let mut target = parsed;
    match resolution {
        Some((width, height)) => {
            target.uhd = false;
            target.width = Some(Number::new(width as u64));
            target.height = Some(Number::new(height as u64));
        },
        None => {
            target.uhd = true;
        },
    }
    Ok(Download { cache_key: cache_key(url.as_str()), file_name: target.to_string(), url })
}

/// Plans the download of the image `id`: at `resolution`, given as width
/// and height, without padding; or at native resolution where none is
/// given.
///
/// `ErrorKind::InvalidId` where `id` is not of the grammar of identifiers,
/// `ErrorKind::Encode` where the address cannot be built.
pub fn plan(id: &str, resolution: Option<(u32, u32)>) -> (r: Result<Download, ErrorKind>)
    ensures
        view_of(r) == spec_plan(id@, resolution),
{
    let builder = match resolution {
        Some((width, height)) => UrlBuilder::new(id).width(width).height(height).no_padding(),
        None => UrlBuilder::new(id),
    };
    assert(builder@ == builder_for(id@, resolution));
    plan_with(ID::parse(id), builder.build(), resolution)
}

} // verus!
