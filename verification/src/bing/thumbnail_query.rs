//! The parameters of a thumbnail request.

use crate::bing::form::{
    clone_text, encode, numeral, numeral_string, optional, pairs_view, push_optional, push_pair,
    spec_encode, text, view_of, Pair,
};
use crate::error::ErrorKind;
use vstd::prelude::*;

verus! {

/// Crop mode for thumbnail images.
#[derive(Debug, Clone, Copy, PartialEq, Eq, Structural)]
pub enum CropMode {
    /// Blind Ratio cropping.
    ///
    /// Crops based on simple aspect ratio rules:
    /// - If aspect ratio < requested ratio, crops from the bottom
    /// - If aspect ratio > requested ratio, crops from left and right
    BlindRatio,
    /// Smart Ratio cropping.
    ///
    /// Crops from the center of the image's region of interest outward, maintaining aspect ratio.
    /// Falls back to Blind Ratio if the region of interest cannot be determined.
    SmartRatio,
}

impl CropMode {
    /// The number that stands for the mode in a request.
    pub open spec fn spec_code(self) -> u32 {
        match self {
            CropMode::BlindRatio => 4,
            CropMode::SmartRatio => 7,
        }
    }

    /// The number that stands for the mode in a request.
    pub fn code(&self) -> (c: u32)
        ensures
            c == self.spec_code(),
    {
        match self {
            CropMode::BlindRatio => 4,
            CropMode::SmartRatio => 7,
        }
    }
}

/// The code of an optional crop mode.
pub open spec fn crop_code(crop: Option<CropMode>) -> Option<u32> {
    match crop {
        Some(mode) => Some(mode.spec_code()),
        None => None,
    }
}

/// The code of an optional crop mode.
pub fn crop_code_of(crop: Option<CropMode>) -> (r: Option<u32>)
    ensures
        r == crop_code(crop),
{
    match crop {
        Some(mode) => Some(mode.code()),
        None => None,
    }
}

/// The mathematical value of a `ThumbnailQuery`.
pub struct ThumbnailQueryView {
    pub id: Seq<char>,
    pub pid: Option<Seq<char>>,
    pub width: Option<u32>,
    pub height: Option<u32>,
    pub padding: Option<u32>,
    pub crop: Option<CropMode>,
}

impl ThumbnailQueryView {
    /// The parameters that are sent: `id`, then `pid`, `w`, `h`, `p` and `c`,
    /// each only where it has a value.
    pub open spec fn pairs(self) -> Seq<(Seq<char>, Seq<char>)> {
        seq![("id"@, self.id)] + optional("pid"@, self.pid) + optional("w"@, numeral(self.width))
            + optional("h"@, numeral(self.height)) + optional("p"@, numeral(self.padding))
            + optional("c"@, numeral(crop_code(self.crop)))
    }
}

/// Query parameters for the thumbnail endpoint.
#[derive(Debug)]
pub struct ThumbnailQuery {
    /// Image identifier.
    pub id: String,
    /// Page identifier.
    pub pid: Option<String>,
    /// Width in pixels.
    ///
    /// If only width is specified, the service maintains the aspect ratio.
    pub width: Option<u32>,
    /// Height in pixels.
    ///
    /// If only height is specified, the service maintains the aspect ratio.
    pub height: Option<u32>,
    /// Prevent white padding when the requested size exceeds that of the image.
    ///
    /// Set to `0` to prevent padding.
    pub padding: Option<u32>,
    /// Crop mode.
    pub crop: Option<CropMode>,
}

impl View for ThumbnailQuery {
    type V = ThumbnailQueryView;

    open spec fn view(&self) -> ThumbnailQueryView {
        ThumbnailQueryView {
            id: self.id@,
            pid: text(self.pid),
            width: self.width,
            height: self.height,
            padding: self.padding,
            crop: self.crop,
        }
    }
}

impl Clone for ThumbnailQuery {
    fn clone(&self) -> (r: Self)
        ensures
            r@ == self@,
    {
        ThumbnailQuery {
            id: self.id.clone(),
            pid: clone_text(&self.pid),
            width: self.width,
            height: self.height,
            padding: self.padding,
            crop: self.crop,
        }
    }
}

impl ThumbnailQuery {
    /// The query for the image `id`, with no other parameter.
    pub fn new(id: &str) -> (r: Self)
        ensures
            r@ == (ThumbnailQueryView {
                id: id@,
                pid: None,
                width: None,
                height: None,
                padding: None,
                crop: None,
            }),
    {
        ThumbnailQuery {
            id: id.to_owned(),
            pid: None,
            width: None,
            height: None,
            padding: None,
            crop: None,
        }
    }

    /// The parameters that are sent, in their order.
    pub fn pairs(&self) -> (r: Vec<Pair>)
        ensures
            pairs_view(r@) == self@.pairs(),
    {
        let mut pairs: Vec<Pair> = Vec::new();
        assert(pairs_view(pairs@) =~= Seq::empty());
        push_pair(&mut pairs, "id", self.id.clone());
        assert(pairs_view(pairs@) =~= seq![("id"@, self.id@)]);
        push_optional(&mut pairs, "pid", clone_text(&self.pid));
        push_optional(&mut pairs, "w", numeral_string(self.width));
        push_optional(&mut pairs, "h", numeral_string(self.height));
        push_optional(&mut pairs, "p", numeral_string(self.padding));
        push_optional(&mut pairs, "c", numeral_string(crop_code_of(self.crop)));
        pairs
    }

    /// The query string of the request, or `ErrorKind::Encode` where the
    /// parameters cannot be encoded.
    pub fn encode(&self) -> (r: Result<String, ErrorKind>)
        ensures
            view_of(r) == spec_encode(self@.pairs()),
    {
        encode(&self.pairs())
    }
}

/// Shared builder methods for types that contain thumbnail parameters.
pub trait ThumbnailParams: Sized {
    /// The thumbnail parameters that the value contains.
    spec fn params(&self) -> ThumbnailQueryView;

    fn query_mut(&mut self) -> (q: &mut ThumbnailQuery)
        ensures
            q@ == old(self).params(),
            final(self).params() == final(q)@,
    ;

    fn pid(self, pid: &str) -> (r: Self)
        ensures
            r.params() == (ThumbnailQueryView { pid: Some(pid@), ..self.params() }),
    {
        let mut this = self;
        this.query_mut().pid = Some(pid.to_owned());
        this
    }

    fn pid_option(self, pid: Option<&str>) -> (r: Self)
        ensures
            r.params() == (ThumbnailQueryView {
                pid: match pid {
                    Some(p) => Some(p@),
                    None => None,
                },
                ..self.params()
            }),
    {
        let mut this = self;
        this.query_mut().pid = match pid {
            Some(p) => Some(p.to_owned()),
            None => None,
        };
        this
    }

    fn width(self, width: u32) -> (r: Self)
        ensures
            r.params() == (ThumbnailQueryView { width: Some(width), ..self.params() }),
    {
        let mut this = self;
        this.query_mut().width = Some(width);
        this
    }

    fn width_option(self, width: Option<u32>) -> (r: Self)
        ensures
            r.params() == (ThumbnailQueryView { width, ..self.params() }),
    {
        let mut this = self;
        this.query_mut().width = width;
        this
    }

    fn height(self, height: u32) -> (r: Self)
        ensures
            r.params() == (ThumbnailQueryView { height: Some(height), ..self.params() }),
    {
        let mut this = self;
        this.query_mut().height = Some(height);
        this
    }

    fn height_option(self, height: Option<u32>) -> (r: Self)
        ensures
            r.params() == (ThumbnailQueryView { height, ..self.params() }),
    {
        let mut this = self;
        this.query_mut().height = height;
        this
    }

    /// Prevent white padding when the requested size exceeds that of the image.
    fn no_padding(self) -> (r: Self)
        ensures
            r.params() == (ThumbnailQueryView { padding: Some(0), ..self.params() }),
    {
        let mut this = self;
        this.query_mut().padding = Some(0);
        this
    }

    fn padding_option(self, padding: Option<u32>) -> (r: Self)
        ensures
            r.params() == (ThumbnailQueryView { padding, ..self.params() }),
    {
        let mut this = self;
        this.query_mut().padding = padding;
        this
    }

    fn crop(self, mode: CropMode) -> (r: Self)
        ensures
            r.params() == (ThumbnailQueryView { crop: Some(mode), ..self.params() }),
    {
        let mut this = self;
        this.query_mut().crop = Some(mode);
        this
    }

    fn crop_option(self, mode: Option<CropMode>) -> (r: Self)
        ensures
            r.params() == (ThumbnailQueryView { crop: mode, ..self.params() }),
    {
        let mut this = self;
        this.query_mut().crop = mode;
        this
    }
}

impl ThumbnailParams for ThumbnailQuery {
    open spec fn params(&self) -> ThumbnailQueryView {
        self@
    }

    fn query_mut(&mut self) -> (q: &mut ThumbnailQuery) {
        self
    }
}

} // verus!
