//! Response formats of the image archive endpoint.

use vstd::prelude::*;

verus! {

/// The response format requested from the image archive endpoint.
#[derive(Debug, Clone, Copy, PartialEq, Eq, Structural)]
pub enum Format {
    JSON,
    XML,
    RSS,
    HTML,
}

impl Format {
    /// The value of the `format` query parameter, as characters.
    pub open spec fn spec_code(self) -> Seq<char> {
        match self {
            Format::JSON => seq!['j', 's'],
            Format::XML => seq!['x', 'm', 'l'],
            Format::RSS => seq!['r', 's', 's'],
            Format::HTML => seq!['h', 'p'],
        }
    }

    /// The value of the `format` query parameter.
    pub fn code(&self) -> (s: &'static str)
        ensures
            s@ == self.spec_code(),
    {
        match self {
            Format::JSON => {
                proof { reveal_strlit("js"); }
                assert("js"@ =~= seq!['j', 's']);
                "js"
            },
            Format::XML => {
                proof { reveal_strlit("xml"); }
                assert("xml"@ =~= seq!['x', 'm', 'l']);
                "xml"
            },
            Format::RSS => {
                proof { reveal_strlit("rss"); }
                assert("rss"@ =~= seq!['r', 's', 's']);
                "rss"
            },
            Format::HTML => {
                proof { reveal_strlit("hp"); }
                assert("hp"@ =~= seq!['h', 'p']);
                "hp"
            },
        }
    }
}

} // verus!
