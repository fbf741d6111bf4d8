//! The grammar of attribution lines: a description followed by the
//! attribution in parentheses, as in `Sunrise over the bay (© Jane Doe)`.

use crate::text::{
    chars_of, find_last, is_trimmed, last_index_of, lemma_last_index_is,
    lemma_last_index_of, lemma_leading_spaces_is, lemma_trailing_spaces_is,
    lemma_trim_is_trimmed, string_of, trim, trim_bounds, trim_end, trim_start,
};
use vstd::prelude::*;
use vstd::std_specs::cmp::PartialEqSpecImpl;

verus! {

/// The mathematical value of a `Copyright`.
pub struct CopyrightView {
    pub description: Seq<char>,
    pub copyright: Seq<char>,
}

/// The two parts of an attribution line.
#[derive(Debug)]
pub struct Copyright {
    /// The text before the last parenthesized group, without the white
    /// space around it.
    pub description: String,
    /// The text inside the last parenthesized group.
    pub copyright: String,
}

impl View for Copyright {
    type V = CopyrightView;

    open spec fn view(&self) -> CopyrightView {
        CopyrightView { description: self.description@, copyright: self.copyright@ }
    }
}

impl Clone for Copyright {
    fn clone(&self) -> (r: Self)
        ensures
            r@ == self@,
    {
        Copyright { description: self.description.clone(), copyright: self.copyright.clone() }
    }
}

impl PartialEq for Copyright {
    fn eq(&self, other: &Self) -> (r: bool) {
        self.description == other.description && self.copyright == other.copyright
    }
}

impl PartialEqSpecImpl for Copyright {
    open spec fn obeys_eq_spec() -> bool {
        true
    }

    open spec fn eq_spec(&self, other: &Self) -> bool {
        self@ == other@
    }
}

impl Default for Copyright {
    fn default() -> (r: Self)
        ensures
            r@ == (CopyrightView {
                description: Seq::<char>::empty(),
                copyright: Seq::<char>::empty(),
            }),
    {
        Copyright { description: String::new(), copyright: String::new() }
    }
}

/// The view of an optional attribution.
pub open spec fn view_of(c: Option<Copyright>) -> Option<CopyrightView> {
    match c {
        Some(c) => Some(c@),
        None => None,
    }
}

/// The line ends with a parenthesized group: its last character closes a
/// parenthesis that some character before it opens.
pub open spec fn has_group(s: Seq<char>) -> bool {
    s.len() > 0 && s.last() == ')' && last_index_of(s, '(') is Some
}

/// The parts of an attribution line. The group at the end of the line starts
/// at the last opening parenthesis; what stands inside it is the attribution,
/// and what stands before it, trimmed of white space, the description.
pub open spec fn spec_parse(s: Seq<char>) -> Option<CopyrightView> {
    if has_group(s) {
        let open = last_index_of(s, '(').unwrap();
        Some(
            CopyrightView {
                description: trim(s.take(open)),
                copyright: s.subrange(open + 1, s.len() - 1),
            },
        )
    } else {
        None
    }
}

impl Copyright {
    /// Splits an attribution line into description and attribution. `None`
    /// where the line does not end with a parenthesized group.
    pub fn parse(s: &str) -> (r: Option<Copyright>)
        ensures
            view_of(r) == spec_parse(s@),
            r matches Some(c) ==> is_trimmed(c@.description),
    {
        proof {
            if spec_parse(s@) is Some {
                lemma_parse_is_trimmed(s@);
            }
        }
        let chars = chars_of(s);
        let v = chars.as_slice();
        if v.len() == 0 || v[v.len() - 1] != ')' {
            return None;
        }
        let open = match find_last(v, '(') {
            Some(open) => open,
            None => {
                return None;
            },
        };
        proof {
            lemma_last_index_of(v@, '(');
        }
        let before = vstd::slice::slice_subrange(v, 0, open);
        assert(before@ =~= v@.take(open as int));
        let (start, end) = trim_bounds(before);
        let description = vstd::slice::slice_subrange(before, start, end);
        let inside = vstd::slice::slice_subrange(v, open + 1, v.len() - 1);
        Some(Copyright { description: string_of(description), copyright: string_of(inside) })
    }
}

/// The description that is read is trimmed, and the attribution holds no
/// opening parenthesis.
pub proof fn lemma_parse_is_trimmed(s: Seq<char>)
    requires
        spec_parse(s) is Some,
    ensures
        is_trimmed(spec_parse(s).unwrap().description),
        forall|i: int|
            0 <= i < spec_parse(s).unwrap().copyright.len() ==> spec_parse(
                s,
            ).unwrap().copyright[i] != '(',
{
    lemma_last_index_of(s, '(');
    let open = last_index_of(s, '(').unwrap();
    lemma_trim_is_trimmed(s.take(open));
}

/// A line made of a description, a space and the attribution in parentheses
/// is read as that description and that attribution, where the description
/// is trimmed and the attribution holds no opening parenthesis.
pub proof fn lemma_parse_of_line(description: Seq<char>, copyright: Seq<char>)
    requires
        is_trimmed(description),
        forall|i: int| 0 <= i < copyright.len() ==> copyright[i] != '(',
    ensures
        spec_parse(description + seq![' ', '('] + copyright + seq![')']) == Some(
            CopyrightView { description, copyright },
        ),
{
    let s = description + seq![' ', '('] + copyright + seq![')'];
    let open = description.len() as int + 1;
    assert(s.last() == ')');
    assert(s[open] == '(');
    assert forall|j: int| open < j < s.len() implies s[j] != '(' by {
        if j < s.len() - 1 {
            assert(s[j] == copyright[j - open - 1]);
        }
    }
    lemma_last_index_is(s, '(', open);
    let before = s.take(open);
    assert(before =~= description.push(' '));
    assert(s.subrange(open + 1, s.len() - 1) =~= copyright);
    if description.len() == 0 {
        lemma_leading_spaces_is(before, 1);
        assert(trim_start(before) =~= Seq::<char>::empty());
        assert(trim(before) =~= description);
    } else {
        assert(before[0] == description[0]);
        lemma_leading_spaces_is(before, 0);
        assert(trim_start(before) =~= before);
        assert(before[before.len() - 2] == description.last());
        lemma_trailing_spaces_is(before, 1);
        assert(trim_end(before) =~= description);
    }
}

} // verus!
