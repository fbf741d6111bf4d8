//! Addresses of thumbnails.

use crate::bing::form::{
    address, clone_text, numeral, numeral_string, optional, pairs_view, push_optional, push_pair,
    spec_address, text, view_of, Pair,
};
use crate::bing::thumbnail_query::{crop_code, crop_code_of, CropMode};
use crate::bing::THUMBNAIL_URL;
use crate::error::ErrorKind;
use vstd::prelude::*;

verus! {

/// The mathematical value of a `UrlBuilder`.
pub struct UrlBuilderView {
    pub id: Seq<char>,
    pub pid: Option<Seq<char>>,
    pub width: Option<u32>,
    pub height: Option<u32>,
    pub padding: Option<u32>,
    pub crop: Option<CropMode>,
}

/// The place of a parameter in the query string of a thumbnail address, by
/// its name; -1 for a name that is never sent.
pub open spec fn rank(name: Seq<char>) -> int {
    if name == "id"@ {
        0
    } else if name == "pid"@ {
        1
    } else if name == "w"@ {
        2
    } else if name == "h"@ {
        3
    } else if name == "p"@ {
        4
    } else if name == "c"@ {
        5
    } else {
        -1
    }
}

/// The names of the parameters are six different texts.
pub proof fn lemma_names_differ()
    ensures
        rank("id"@) == 0,
        rank("pid"@) == 1,
        rank("w"@) == 2,
        rank("h"@) == 3,
        rank("p"@) == 4,
        rank("c"@) == 5,
{
    reveal_strlit("id");
    reveal_strlit("w");
    reveal_strlit("h");
    reveal_strlit("pid");
    reveal_strlit("p");
    reveal_strlit("c");
    assert("w"@[0] == 'w' && "h"@[0] == 'h' && "p"@[0] == 'p' && "c"@[0] == 'c');
    assert("id"@.len() == 2 && "pid"@.len() == 3);
}

impl UrlBuilderView {
    /// The parameters that are sent: `id`, then `pid`, `w`, `h`, `p` and `c`,
    /// each only where it has a value.
    pub open spec fn pairs(self) -> Seq<(Seq<char>, Seq<char>)> {
        seq![("id"@, self.id)] + optional("pid"@, self.pid) + optional("w"@, numeral(self.width))
            + optional("h"@, numeral(self.height)) + optional("p"@, numeral(self.padding))
            + optional("c"@, numeral(crop_code(self.crop)))
    }

    /// The number of optional parameters that have a value.
    pub open spec fn options_set(self) -> nat {
        (if self.width is Some {
            1nat
        } else {
            0nat
        }) + (if self.height is Some {
            1nat
        } else {
            0nat
        }) + (if self.pid is Some {
            1nat
        } else {
            0nat
        }) + (if self.padding is Some {
            1nat
        } else {
            0nat
        }) + (if self.crop is Some {
            1nat
        } else {
            0nat
        })
    }

    /// `name` is the name of a parameter that has a value.
    pub open spec fn is_set(self, name: Seq<char>) -> bool {
        ||| name == "id"@
        ||| name == "pid"@ && self.pid is Some
        ||| name == "w"@ && self.width is Some
        ||| name == "h"@ && self.height is Some
        ||| name == "p"@ && self.padding is Some
        ||| name == "c"@ && self.crop is Some
    }

    /// The address of the thumbnail: the endpoint, a question mark and the
    /// encoded parameters.
    pub open spec fn address(self) -> Result<Seq<char>, ErrorKind> {
        spec_address(THUMBNAIL_URL@, self.pairs())
    }

    /// With an identifier alone, exactly one parameter is sent: `id`.
    pub proof fn lemma_id_alone(self)
        requires
            self.options_set() == 0,
        ensures
            self.pairs() == seq![("id"@, self.id)],
    {
        assert(self.pairs() =~= seq![("id"@, self.id)]);
    }

    /// One parameter is sent for the identifier and one for each option
    /// that has a value; none is sent for an option without one.
    pub proof fn lemma_unset_is_omitted(self)
        ensures
            self.pairs().len() == 1 + self.options_set(),
            forall|i: int|
                0 <= i < self.pairs().len() ==> self.is_set(#[trigger] self.pairs()[i].0),
            forall|name: Seq<char>|
                self.is_set(name) ==> exists|i: int|
                    0 <= i < self.pairs().len() && #[trigger] self.pairs()[i].0 == name,
    {
        let a = seq![("id"@, self.id)];
        let b = optional("pid"@, self.pid);
        let c = optional("w"@, numeral(self.width));
        let d = optional("h"@, numeral(self.height));
        let e = optional("p"@, numeral(self.padding));
        let f = optional("c"@, numeral(crop_code(self.crop)));
        let pairs = self.pairs();
        assert(pairs == a + b + c + d + e + f);
        assert forall|name: Seq<char>| self.is_set(name) implies exists|i: int|
            0 <= i < pairs.len() && #[trigger] pairs[i].0 == name by {
            let i = if name == "id"@ {
                0int
            } else if name == "pid"@ && self.pid is Some {
                a.len() as int
            } else if name == "w"@ && self.width is Some {
                (a + b).len() as int
            } else if name == "h"@ && self.height is Some {
                (a + b + c).len() as int
            } else if name == "p"@ && self.padding is Some {
                (a + b + c + d).len() as int
            } else {
                (a + b + c + d + e).len() as int
            };
            assert(0 <= i < pairs.len() && pairs[i].0 == name);
        }
    }

    /// The parameters are sent in the fixed order `id`, `pid`, `w`, `h`,
    /// `p`, `c`.
    pub proof fn lemma_fixed_order(self)
        ensures
            forall|i: int, j: int|
                0 <= i < j < self.pairs().len() ==> 0 <= rank(#[trigger] self.pairs()[i].0) < rank(
                    #[trigger] self.pairs()[j].0,
                ),
    {
        lemma_names_differ();
        let a = seq![("id"@, self.id)];
        let b = optional("pid"@, self.pid);
        let c = optional("w"@, numeral(self.width));
        let d = optional("h"@, numeral(self.height));
        let e = optional("p"@, numeral(self.padding));
        let f = optional("c"@, numeral(crop_code(self.crop)));
        let pairs = self.pairs();
        assert(pairs == a + b + c + d + e + f);
        let nb = a.len() as int;
        let nc = nb + b.len();
        let nd = nc + c.len();
        let ne = nd + d.len();
        let nf = ne + e.len();
        assert forall|i: int| 0 <= i < pairs.len() implies rank(#[trigger] pairs[i].0) == (if i
            < nb {
            0int
        } else if i < nc {
            1int
        } else if i < nd {
            2int
        } else if i < ne {
            3int
        } else if i < nf {
            4int
        } else {
            5int
        }) by {
            if i < nb {
                assert(pairs[i] == a[i]);
            } else if i < nc {
                assert(pairs[i] == b[i - nb]);
            } else if i < nd {
                assert(pairs[i] == c[i - nc]);
            } else if i < ne {
                assert(pairs[i] == d[i - nd]);
            } else if i < nf {
                assert(pairs[i] == e[i - ne]);
            } else {
                assert(pairs[i] == f[i - nf]);
            }
        }
    }
}

/// Builds the address of a thumbnail from the identifier of an image and the
/// options of the request.
#[derive(Debug)]
pub struct UrlBuilder {
    pub id: String,
    pub pid: Option<String>,
    pub width: Option<u32>,
    pub height: Option<u32>,
    pub padding: Option<u32>,
    pub crop: Option<CropMode>,
}

impl View for UrlBuilder {
    type V = UrlBuilderView;

    open spec fn view(&self) -> UrlBuilderView {
        UrlBuilderView {
            id: self.id@,
            pid: text(self.pid),
            width: self.width,
            height: self.height,
            padding: self.padding,
            crop: self.crop,
        }
    }
}

impl Clone for UrlBuilder {
    fn clone(&self) -> (r: Self)
        ensures
            r@ == self@,
    {
        UrlBuilder {
            id: self.id.clone(),
            pid: clone_text(&self.pid),
            width: self.width,
            height: self.height,
            padding: self.padding,
            crop: self.crop,
        }
    }
}

impl UrlBuilder {
    /// The builder for the image `id`, with no option set.
    pub fn new(id: &str) -> (r: Self)
        ensures
            r@ == (UrlBuilderView {
                id: id@,
                pid: None,
                width: None,
                height: None,
                padding: None,
                crop: None,
            }),
    {
        UrlBuilder {
            id: id.to_owned(),
            width: None,
            height: None,
            pid: None,
            padding: None,
            crop: None,
        }
    }

    /// Asks for a width in pixels.
    pub fn width(self, width: u32) -> (r: Self)
        ensures
            r@ == (UrlBuilderView { width: Some(width), ..self@ }),
    {
        let mut this = self;
        this.width = Some(width);
        this
    }

    /// Asks for a height in pixels.
    pub fn height(self, height: u32) -> (r: Self)
        ensures
            r@ == (UrlBuilderView { height: Some(height), ..self@ }),
    {
        let mut this = self;
        this.height = Some(height);
        this
    }

    /// Names the page that asks.
    pub fn pid(self, pid: &str) -> (r: Self)
        ensures
            r@ == (UrlBuilderView { pid: Some(pid@), ..self@ }),
    {
        let mut this = self;
        this.pid = Some(pid.to_owned());
        this
    }

    /// Asks for a crop mode.
    pub fn crop(self, mode: CropMode) -> (r: Self)
        ensures
            r@ == (UrlBuilderView { crop: Some(mode), ..self@ }),
    {
        let mut this = self;
        this.crop = Some(mode);
        this
    }

    /// Prevents white padding when the requested size exceeds that of the image.
    pub fn no_padding(self) -> (r: Self)
        ensures
            r@ == (UrlBuilderView { padding: Some(0), ..self@ }),
    {
        let mut this = self;
        this.padding = Some(0);
        this
    }

    /// The parameters that are sent, in their order.
    pub fn pairs(&self) -> (r: Vec<Pair>)
        ensures
            pairs_view(r@) == self@.pairs(),
    {
        let mut pairs: Vec<Pair> = Vec::new();
        assert(pairs_view(pairs@) =~= Seq::empty());
        push_pair(&mut pairs, "id", self.id.clone());
        assert(pairs_view(pairs@) =~= seq![("id"@, self.id@)]);
        push_optional(&mut pairs, "pid", clone_text(&self.pid));
        push_optional(&mut pairs, "w", numeral_string(self.width));
        push_optional(&mut pairs, "h", numeral_string(self.height));
        push_optional(&mut pairs, "p", numeral_string(self.padding));
        push_optional(&mut pairs, "c", numeral_string(crop_code_of(self.crop)));
        pairs
    }

    /// Builds the full thumbnail address with its query parameters, or
    /// `ErrorKind::Encode` where the parameters cannot be encoded.
    pub fn build(&self) -> (r: Result<String, ErrorKind>)
        ensures
            view_of(r) == self@.address(),
    {
        address(THUMBNAIL_URL, &self.pairs())
    }
}

} // verus!
