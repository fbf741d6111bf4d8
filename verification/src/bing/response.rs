//! The records of an image archive response, as the service sends them.

use crate::bing::form::{clone_text, text};
use vstd::prelude::*;

verus! {

/// The body of an image archive response.
#[derive(Debug)]
pub struct Response {
    pub images: Vec<Image>,
    pub tooltips: Option<Tooltips>,
}

/// One image of a response. The links are relative to the service's address.
#[derive(Debug)]
pub struct Image {
    pub start_date: String,
    pub full_start_date: String,
    pub end_date: String,
    pub url: String,
    pub url_base: String,
    pub copyright: String,
    pub copyright_link: String,
    pub title: String,
    pub quiz_link: String,
    pub wallpaper: bool,
    pub hash: String,
    pub dark: Option<isize>,
    pub top: Option<isize>,
    pub bottom: Option<isize>,
    /// The hotspots of the image, each as the JSON text that the service
    /// sent for it.
    pub hotspots: Option<Vec<String>>,
}

/// The labels that a response brings for the controls of a viewer.
#[derive(Debug)]
pub struct Tooltips {
    pub loading: Option<String>,
    pub previous: Option<String>,
    pub next: Option<String>,
    pub walle: Option<String>,
    pub walls: Option<String>,
}

/// The characters of each text of a list.
pub open spec fn texts(list: Seq<String>) -> Seq<Seq<char>> {
    list.map_values(|s: String| s@)
}

/// The characters of each text of a list that may be missing.
pub open spec fn optional_texts(list: Option<Vec<String>>) -> Option<Seq<Seq<char>>> {
    match list {
        Some(list) => Some(texts(list@)),
        None => None,
    }
}

/// Two records hold the same: field for field, the texts character for
/// character.
pub open spec fn alike(a: Image, b: Image) -> bool {
    &&& a.start_date@ == b.start_date@
    &&& a.full_start_date@ == b.full_start_date@
    &&& a.end_date@ == b.end_date@
    &&& a.url@ == b.url@
    &&& a.url_base@ == b.url_base@
    &&& a.copyright@ == b.copyright@
    &&& a.copyright_link@ == b.copyright_link@
    &&& a.title@ == b.title@
    &&& a.quiz_link@ == b.quiz_link@
    &&& a.wallpaper == b.wallpaper
    &&& a.hash@ == b.hash@
    &&& a.dark == b.dark
    &&& a.top == b.top
    &&& a.bottom == b.bottom
    &&& optional_texts(a.hotspots) == optional_texts(b.hotspots)
}

/// Two sets of labels hold the same texts.
pub open spec fn same_labels(a: Tooltips, b: Tooltips) -> bool {
    &&& text(a.loading) == text(b.loading)
    &&& text(a.previous) == text(b.previous)
    &&& text(a.next) == text(b.next)
    &&& text(a.walle) == text(b.walle)
    &&& text(a.walls) == text(b.walls)
}

/// A copy of a list of texts.
fn clone_texts(list: &Vec<String>) -> (r: Vec<String>)
    ensures
        texts(r@) == texts(list@),
{
    let mut copy: Vec<String> = Vec::new();
    let mut i: usize = 0;
    assert(texts(copy@) =~= texts(list@).take(0));
    while i < list.len()
        invariant
            i <= list.len(),
            texts(copy@) == texts(list@).take(i as int),
        decreases list.len() - i,
    {
        let ghost before = texts(copy@);
        copy.push(list[i].clone());
        assert(texts(copy@) =~= before.push(list@[i as int]@));
        assert(texts(list@).take(i + 1) =~= texts(list@).take(i as int).push(list@[i as int]@));
        i += 1;
    }
    assert(texts(list@).take(list.len() as int) =~= texts(list@));
    copy
}

impl Clone for Image {
    fn clone(&self) -> (r: Self)
        ensures
            alike(r, *self),
    {
        Image {
            start_date: self.start_date.clone(),
            full_start_date: self.full_start_date.clone(),
            end_date: self.end_date.clone(),
            url: self.url.clone(),
            url_base: self.url_base.clone(),
            copyright: self.copyright.clone(),
            copyright_link: self.copyright_link.clone(),
            title: self.title.clone(),
            quiz_link: self.quiz_link.clone(),
            wallpaper: self.wallpaper,
            hash: self.hash.clone(),
            dark: self.dark,
            top: self.top,
            bottom: self.bottom,
            hotspots: match &self.hotspots {
                Some(list) => Some(clone_texts(list)),
                None => None,
            },
        }
    }
}

impl Clone for Tooltips {
    fn clone(&self) -> (r: Self)
        ensures
            same_labels(r, *self),
    {
        Tooltips {
            loading: clone_text(&self.loading),
            previous: clone_text(&self.previous),
            next: clone_text(&self.next),
            walle: clone_text(&self.walle),
            walls: clone_text(&self.walls),
        }
    }
}

impl Clone for Response {
    fn clone(&self) -> (r: Self)
        ensures
            r.images@.len() == self.images@.len(),
            forall|i: int|
                0 <= i < self.images@.len() ==> alike(#[trigger] r.images@[i], self.images@[i]),
            match (r.tooltips, self.tooltips) {
                (Some(a), Some(b)) => same_labels(a, b),
                (None, None) => true,
                _ => false,
            },
    {
        let mut images: Vec<Image> = Vec::new();
        let mut i: usize = 0;
        while i < self.images.len()
            invariant
                i <= self.images.len(),
                images@.len() == i,
                forall|j: int| 0 <= j < i ==> alike(#[trigger] images@[j], self.images@[j]),
            decreases self.images.len() - i,
        {
            images.push(self.images[i].clone());
            i += 1;
        }
        Response {
            images,
            tooltips: match &self.tooltips {
                Some(tooltips) => Some(tooltips.clone()),
                None => None,
            },
        }
    }
}

} // verus!
