//! Line-oriented gemtext parser that yields one page element per line.
//!
//! A simpler reading of the markup than the event parser: each line maps to
//! exactly one element, and the only state between lines is whether a
//! preformatted fence is open. `spec_page_element` states what each line
//! yields.

use vstd::prelude::*;
use crate::text::{
    chars_vec, is_ws, lemma_nonws_prefix_take, lemma_trim_start_skip, spec_is_ws,
    spec_nonws_prefix, spec_trim_start, string_from_range,
};

verus! {

/// What one line of a page is.
#[derive(Debug)]
pub enum PageElement {
    /// A heading line, kept whole.
    Heading(String),
    /// A quote line, kept whole.
    Quote(String),
    /// A line inside a preformatted fence, kept whole.
    Preformatted(String),
    /// A plain text line, kept whole.
    Text(String),
    /// A link: its target, and its label when non-whitespace text follows.
    Link(String, Option<String>),
    /// A fence line itself.
    Empty,
}

/// A page element at the spec level: strings as character sequences.
pub enum PageElementModel {
    Heading(Seq<char>),
    Quote(Seq<char>),
    Preformatted(Seq<char>),
    Text(Seq<char>),
    Link(Seq<char>, Option<Seq<char>>),
    Empty,
}

/// What an element means.
pub open spec fn element_view(e: PageElement) -> PageElementModel {
    match e {
        PageElement::Heading(s) => PageElementModel::Heading(s@),
        PageElement::Quote(s) => PageElementModel::Quote(s@),
        PageElement::Preformatted(s) => PageElementModel::Preformatted(s@),
        PageElement::Text(s) => PageElementModel::Text(s@),
        PageElement::Link(h, l) => PageElementModel::Link(
            h@,
            match l {
                Some(x) => Some(x@),
                None => None,
            },
        ),
        PageElement::Empty => PageElementModel::Empty,
    }
}

/// Whether `s` starts with `p`.
pub open spec fn spec_starts_with(s: Seq<char>, p: Seq<char>) -> bool {
    s.len() >= p.len() && s.take(p.len() as int) == p
}

/// A link line: `=>`, optional whitespace, a possibly empty target, and a
/// label when non-whitespace text follows the target.
pub open spec fn spec_link_parts(line: Seq<char>) -> (Seq<char>, Option<Seq<char>>) {
    let rest = spec_trim_start(line.skip(2));
    let href = spec_nonws_prefix(rest);
    let tail = spec_trim_start(rest.skip(href.len() as int));
    if tail.len() > 0 {
        (href, Some(tail))
    } else {
        (href, None)
    }
}

/// What one line yields: a fence line toggles preformatted mode and yields
/// nothing; inside a fence every line is preformatted; otherwise the first
/// characters decide between heading, quote, link and plain text.
pub open spec fn spec_page_element(inside_pre: bool, line: Seq<char>) -> PageElementModel {
    if spec_starts_with(line, seq!['`', '`', '`']) {
        PageElementModel::Empty
    } else if inside_pre {
        PageElementModel::Preformatted(line)
    } else if line.len() > 0 && line[0] == '#' {
        PageElementModel::Heading(line)
    } else if line.len() > 0 && line[0] == '>' {
        PageElementModel::Quote(line)
    } else if spec_starts_with(line, seq!['=', '>']) {
        let parts = spec_link_parts(line);
        PageElementModel::Link(parts.0, parts.1)
    } else {
        PageElementModel::Text(line)
    }
}

/// Whether preformatted mode is on after the line: a fence line toggles it.
pub open spec fn spec_pre_after(inside_pre: bool, line: Seq<char>) -> bool {
    if spec_starts_with(line, seq!['`', '`', '`']) {
        !inside_pre
    } else {
        inside_pre
    }
}

/// The page-element parser: remembers only whether a fence is open.
pub struct Parser {
    inside_pre: bool,
}

impl Parser {
    /// Whether a preformatted fence is open.
    pub closed spec fn in_pre(&self) -> bool {
        self.inside_pre
    }

    /// A parser outside any fence.
    pub fn new() -> (r: Self)
        ensures
            !r.in_pre(),
    {
        Parser { inside_pre: false }
    }

    /// Parse one line into its element, as `spec_page_element` says, and
    /// track the fence as `spec_pre_after` says.
    pub fn parse_line(&mut self, line: &str) -> (r: PageElement)
        ensures
            element_view(r) == spec_page_element(old(self).in_pre(), line@),
            final(self).in_pre() == spec_pre_after(old(self).in_pre(), line@),
    {
        let v = chars_vec(line);
        let n = v.len();
        if n >= 3 && v[0] == '`' && v[1] == '`' && v[2] == '`' {
            proof {
                assert(line@.take(3) =~= seq!['`', '`', '`']);
            }
            self.inside_pre = !self.inside_pre;
            PageElement::Empty
        } else {
            proof {
                if n >= 3 && spec_starts_with(line@, seq!['`', '`', '`']) {
                    assert(line@.take(3)[0] == '`' && line@.take(3)[1] == '`' && line@.take(3)[2]
                        == '`');
                }
            }
            if self.inside_pre {
                PageElement::Preformatted(line.to_owned())
            } else if n > 0 && v[0] == '#' {
                PageElement::Heading(line.to_owned())
            } else if n > 0 && v[0] == '>' {
                PageElement::Quote(line.to_owned())
            } else if n >= 2 && v[0] == '=' && v[1] == '>' {
                proof {
                    assert(line@.take(2) =~= seq!['=', '>']);
                }
                self.link_line(line, &v)
            } else {
                proof {
                    if n >= 2 && spec_starts_with(line@, seq!['=', '>']) {
                        assert(line@.take(2)[0] == '=' && line@.take(2)[1] == '>');
                    }
                }
                PageElement::Text(line.to_owned())
            }
        }
    }

    /// A line that starts with the link arrow.
    fn link_line(&self, line: &str, v: &Vec<char>) -> (r: PageElement)
        requires
            v@ == line@,
            v@.len() >= 2,
        ensures
            ({
                let parts = spec_link_parts(line@);
                element_view(r) == PageElementModel::Link(parts.0, parts.1)
            }),
    {
        let n = v.len();
        // Whitespace after the arrow, then the target.
        let mut rs: usize = 2;
        while rs < n && is_ws(v[rs])
            invariant
                2 <= rs <= n,
                n == v@.len(),
                forall|j: int| 2 <= j < rs ==> spec_is_ws(#[trigger] v@[j]),
            decreases n - rs,
        {
            rs = rs + 1;
        }
        proof {
            assert(line@.skip(2) =~= line@.subrange(2, n as int));
            lemma_trim_start_skip(line@.skip(2), rs - 2);
            assert(line@.skip(2).skip(rs - 2) =~= line@.subrange(rs as int, n as int));
        }
        let ghost rest = spec_trim_start(line@.skip(2));
        let mut he: usize = rs;
        while he < n && !is_ws(v[he])
            invariant
                rs <= he <= n,
                n == v@.len(),
                forall|j: int| rs <= j < he ==> !spec_is_ws(#[trigger] v@[j]),
            decreases n - he,
        {
            he = he + 1;
        }
        proof {
            lemma_nonws_prefix_take(rest, he - rs);
            assert(rest.take(he - rs) =~= line@.subrange(rs as int, he as int));
            assert(rest.skip(spec_nonws_prefix(rest).len() as int) =~= line@.subrange(
                he as int,
                n as int,
            ));
        }
        let href = string_from_range(v, rs, he);
        let ghost tail0 = rest.skip(spec_nonws_prefix(rest).len() as int);
        let mut ls: usize = he;
        while ls < n && is_ws(v[ls])
            invariant
                he <= ls <= n,
                n == v@.len(),
                forall|j: int| he <= j < ls ==> spec_is_ws(#[trigger] v@[j]),
            decreases n - ls,
        {
            ls = ls + 1;
        }
        proof {
            lemma_trim_start_skip(tail0, ls - he);
            assert(tail0.skip(ls - he) =~= line@.subrange(ls as int, n as int));
        }
        if ls < n {
            let label = string_from_range(v, ls, n);
            PageElement::Link(href, Some(label))
        } else {
            PageElement::Link(href, None)
        }
    }
}

} // verus!
