//! Line-oriented gemtext parser that yields parse events.
//!
//! Each input line appends events to a caller-supplied vector: a start tag,
//! text and an end tag for self-contained lines; a toggle for preformatted
//! fences; raw text inside a fence. The one piece of state carried between
//! lines is the tag stack, and only a preformatted fence ever stays on it.
//! `spec_line_events` and `spec_stack_after` state exactly what one line
//! produces.

use vstd::prelude::*;
use vstd::string::StrSliceExecFns;
use crate::text::{
    chars_vec, is_ws, lemma_count_take_step, lemma_nonws_prefix_take, lemma_trim_end_take,
    lemma_trim_leading_skip, lemma_trim_start_skip, spec_count, spec_is_ws, spec_nonws_prefix,
    spec_trim_end, spec_trim_leading, spec_trim_start, string_from_range,
};

verus! {

/// A markup construct: what a `Start` event opens.
#[derive(Debug, Clone)]
pub enum Tag {
    /// A plain text line.
    Paragraph,
    /// A heading, carrying the count of `#` characters on the line.
    Heading(u8),
    BlockQuote,
    CodeBlock,
    UnorderedList,
    Item,
    /// A link: its target, and its label when one follows.
    Link(String, Option<String>),
}

/// One parse event.
#[derive(Debug, Clone)]
pub enum Event<'a> {
    Start(Tag),
    End,
    Text(&'a str),
    BlankLine,
}

/// A tag at the spec level: strings as character sequences.
pub enum TagModel {
    Paragraph,
    Heading(u8),
    BlockQuote,
    CodeBlock,
    UnorderedList,
    Item,
    Link(Seq<char>, Option<Seq<char>>),
}

/// An event at the spec level.
pub enum EventModel {
    Start(TagModel),
    End,
    Text(Seq<char>),
    BlankLine,
}

/// What a tag means.
pub open spec fn tag_view(t: Tag) -> TagModel {
    match t {
        Tag::Paragraph => TagModel::Paragraph,
        Tag::Heading(l) => TagModel::Heading(l),
        Tag::BlockQuote => TagModel::BlockQuote,
        Tag::CodeBlock => TagModel::CodeBlock,
        Tag::UnorderedList => TagModel::UnorderedList,
        Tag::Item => TagModel::Item,
        Tag::Link(href, label) => TagModel::Link(
            href@,
            match label {
                Some(l) => Some(l@),
                None => None,
            },
        ),
    }
}

/// What an event means.
pub open spec fn event_view(e: Event<'_>) -> EventModel {
    match e {
        Event::Start(t) => EventModel::Start(tag_view(t)),
        Event::End => EventModel::End,
        Event::Text(s) => EventModel::Text(s@),
        Event::BlankLine => EventModel::BlankLine,
    }
}

/// Whether `s` starts with `p`.
pub open spec fn spec_starts_with(s: Seq<char>, p: Seq<char>) -> bool {
    s.len() >= p.len() && s.take(p.len() as int) == p
}

/// Whether the line is blank: nothing but whitespace.
pub open spec fn spec_is_blank(s: Seq<char>) -> bool {
    forall|j: int| 0 <= j < s.len() ==> spec_is_ws(#[trigger] s[j])
}

/// Whether a pending multi-line tag is closed before the line is read: a
/// quote ends at a line that does not continue it, a list at any line.
pub open spec fn spec_should_close(stack: Seq<TagModel>, line: Seq<char>) -> bool {
    (stack.len() > 0 && stack.last() == TagModel::BlockQuote && !(line.len() > 0 && line[0] == '>'))
        || (stack.len() > 0 && stack.last() == TagModel::UnorderedList)
}

/// A link line, already trimmed at the end: `=>`, optional whitespace, a
/// non-empty target, and a label when non-whitespace text follows.
pub open spec fn spec_link_line(t: Seq<char>) -> Option<(Seq<char>, Option<Seq<char>>)> {
    if !spec_starts_with(t, seq!['=', '>']) {
        None
    } else {
        let rest = spec_trim_start(t.skip(2));
        if rest.len() == 0 {
            None
        } else {
            let href = spec_nonws_prefix(rest);
            let tail = rest.skip(href.len() as int);
            if tail.len() == 0 {
                Some((href, None))
            } else {
                Some((href, Some(spec_trim_start(tail))))
            }
        }
    }
}

/// The events a line produces once pending tags are closed, given the
/// stack's top at that point.
pub open spec fn spec_main_events(stack: Seq<TagModel>, line: Seq<char>) -> Seq<EventModel> {
    let parent_code = stack.len() > 0 && stack.last() == TagModel::CodeBlock;
    if spec_starts_with(line, seq!['`', '`', '`']) {
        if parent_code {
            seq![EventModel::End]
        } else {
            seq![EventModel::Start(TagModel::CodeBlock)]
        }
    } else if parent_code {
        seq![EventModel::Text(line)]
    } else if spec_is_blank(line) {
        seq![EventModel::BlankLine]
    } else if line[0] == '#' {
        let t = spec_trim_end(line);
        seq![
            EventModel::Start(TagModel::Heading((spec_count(t, '#') % 256) as u8)),
            EventModel::Text(spec_trim_start(spec_trim_leading(t, '#'))),
            EventModel::End,
        ]
    } else if line[0] == '>' {
        let start: Seq<EventModel> = if stack.len() > 0 && stack.last() == TagModel::BlockQuote {
            seq![]
        } else {
            seq![EventModel::Start(TagModel::BlockQuote)]
        };
        start + seq![EventModel::Text(spec_trim_leading(line, '>'))]
    } else if spec_starts_with(line, seq!['*', ' ']) {
        let start: Seq<EventModel> = if stack.len() > 0 && stack.last()
            == TagModel::UnorderedList {
            seq![]
        } else {
            seq![EventModel::Start(TagModel::UnorderedList)]
        };
        start + seq![
            EventModel::Start(TagModel::Item),
            EventModel::Text(spec_trim_end(line.skip(2))),
            EventModel::End,
        ]
    } else {
        match spec_link_line(spec_trim_end(line)) {
            Some((href, label)) => seq![
                EventModel::Start(TagModel::Link(href, label)),
                EventModel::End,
            ],
            None => seq![
                EventModel::Start(TagModel::Paragraph),
                EventModel::Text(spec_trim_end(line)),
                EventModel::End,
            ],
        }
    }
}

/// The stack once pending tags are closed.
pub open spec fn spec_stack_closed(stack: Seq<TagModel>, line: Seq<char>) -> Seq<TagModel> {
    if spec_should_close(stack, line) {
        stack.drop_last()
    } else {
        stack
    }
}

/// The stack after the line: only a preformatted fence pushes or pops.
pub open spec fn spec_stack_after(stack: Seq<TagModel>, line: Seq<char>) -> Seq<TagModel> {
    let closed = spec_stack_closed(stack, line);
    let parent_code = closed.len() > 0 && closed.last() == TagModel::CodeBlock;
    if spec_starts_with(line, seq!['`', '`', '`']) {
        if parent_code {
            closed.drop_last()
        } else {
            closed.push(TagModel::CodeBlock)
        }
    } else {
        closed
    }
}

/// Every event the line appends: the close of a pending tag, then the
/// line's own events.
pub open spec fn spec_line_events(stack: Seq<TagModel>, line: Seq<char>) -> Seq<EventModel> {
    let close: Seq<EventModel> = if spec_should_close(stack, line) {
        seq![EventModel::End]
    } else {
        seq![]
    };
    close + spec_main_events(spec_stack_closed(stack, line), line)
}

/// The gemtext parser: carries the open-tag stack between lines.
#[derive(Debug, Clone)]
pub struct Parser {
    tag_stack: Vec<Tag>,
}

impl Parser {
    /// The open tags, innermost last.
    pub closed spec fn stack(&self) -> Seq<TagModel> {
        self.tag_stack@.map_values(|t: Tag| tag_view(t))
    }

    /// A parser with nothing open.
    pub fn new() -> (r: Self)
        ensures
            r.stack() == Seq::<TagModel>::empty(),
    {
        let r = Parser { tag_stack: Vec::new() };
        proof {
            assert(r.stack() =~= Seq::<TagModel>::empty());
        }
        r
    }

    /// Parse one line: append exactly the events `spec_line_events` gives
    /// for it to `res`, and leave the stack as `spec_stack_after` says.
    #[verifier::rlimit(100)]
    pub fn parse_line<'a>(&mut self, line: &'a str, res: &mut Vec<Event<'a>>)
        ensures
            final(self).stack() == spec_stack_after(old(self).stack(), line@),
            final(res)@.map_values(|e: Event<'a>| event_view(e)) == old(res)@.map_values(
                |e: Event<'a>| event_view(e),
            ) + spec_line_events(old(self).stack(), line@),
    {
        let ghost stack0 = self.stack();
        let ghost res0 = res@;
        let v = chars_vec(line);
        let n = v.len();

        // Close a pending multi-line tag.
        let depth = self.tag_stack.len();
        let close = if depth > 0 {
            (matches!(&self.tag_stack[depth - 1], Tag::BlockQuote) && !(n > 0 && v[0] == '>'))
                || matches!(&self.tag_stack[depth - 1], Tag::UnorderedList)
        } else {
            false
        };
        if close {
            res.push(Event::End);
            self.tag_stack.pop();
            proof {
                assert(self.stack() =~= stack0.drop_last());
            }
        }
        let ghost closed = self.stack();
        proof {
            assert(closed == spec_stack_closed(stack0, line@));
        }

        let depth = self.tag_stack.len();
        let parent_code = depth > 0 && matches!(&self.tag_stack[depth - 1], Tag::CodeBlock);

        if n >= 3 && v[0] == '`' && v[1] == '`' && v[2] == '`' {
            proof {
                assert(line@.take(3) =~= seq!['`', '`', '`']);
            }
            if parent_code {
                self.tag_stack.pop();
                res.push(Event::End);
                proof {
                    assert(self.stack() =~= closed.drop_last());
                }
            } else {
                self.tag_stack.push(Tag::CodeBlock);
                res.push(Event::Start(Tag::CodeBlock));
                proof {
                    assert(self.stack() =~= closed.push(TagModel::CodeBlock));
                }
            }
        } else {
            proof {
                if n >= 3 && spec_starts_with(line@, seq!['`', '`', '`']) {
                    assert(line@.take(3)[0] == '`' && line@.take(3)[1] == '`' && line@.take(3)[2]
                        == '`');
                }
            }
            if parent_code {
                res.push(Event::Text(line));
            } else {
                // Find the first non-whitespace character.
                let mut w: usize = 0;
                while w < n && is_ws(v[w])
                    invariant
                        w <= n,
                        n == v@.len(),
                        forall|j: int| 0 <= j < w ==> spec_is_ws(#[trigger] v@[j]),
                    decreases n - w,
                {
                    w = w + 1;
                }
                if w == n {
                    res.push(Event::BlankLine);
                } else {
                    proof {
                        assert(!spec_is_blank(line@));
                    }
                    // Trailing whitespace ends here.
                    let mut e: usize = n;
                    while e > 0 && is_ws(v[e - 1])
                        invariant
                            e <= n,
                            n == v@.len(),
                            forall|j: int| e <= j < n ==> spec_is_ws(#[trigger] v@[j]),
                        decreases e,
                    {
                        e = e - 1;
                    }
                    proof {
                        lemma_trim_end_take(line@, e as int);
                    }
                    let ghost t = spec_trim_end(line@);
                    if v[0] == '#' {
                        self.heading_line(line, &v, e, res);
                    } else if v[0] == '>' {
                        let mut g: usize = 0;
                        while g < n && v[g] == '>'
                            invariant
                                g <= n,
                                n == v@.len(),
                                forall|j: int| 0 <= j < g ==> #[trigger] v@[j] == '>',
                            decreases n - g,
                        {
                            g = g + 1;
                        }
                        proof {
                            lemma_trim_leading_skip(line@, '>', g as int);
                            assert(line@.skip(g as int) =~= line@.subrange(g as int, n as int));
                        }
                        let keep_quote = depth > 0 && matches!(
                            &self.tag_stack[depth - 1],
                            Tag::BlockQuote,
                        );
                        if !keep_quote {
                            res.push(Event::Start(Tag::BlockQuote));
                        }
                        res.push(Event::Text(line.substring_char(g, n)));
                    } else if n >= 2 && v[0] == '*' && v[1] == ' ' {
                        proof {
                            assert(line@.take(2) =~= seq!['*', ' ']);
                        }
                        let mut e2: usize = n;
                        while e2 > 2 && is_ws(v[e2 - 1])
                            invariant
                                2 <= e2 <= n || (n < 2 && e2 == n),
                                n == v@.len(),
                                forall|j: int| e2 <= j < n ==> spec_is_ws(#[trigger] v@[j]),
                            decreases e2,
                        {
                            e2 = e2 - 1;
                        }
                        proof {
                            lemma_trim_end_take(line@.skip(2), e2 - 2);
                            assert(line@.skip(2).take(e2 - 2) =~= line@.subrange(2, e2 as int));
                        }
                        let keep_list = depth > 0 && matches!(
                            &self.tag_stack[depth - 1],
                            Tag::UnorderedList,
                        );
                        if !keep_list {
                            res.push(Event::Start(Tag::UnorderedList));
                        }
                        res.push(Event::Start(Tag::Item));
                        res.push(Event::Text(line.substring_char(2, e2)));
                        res.push(Event::End);
                    } else {
                        proof {
                            if n >= 2 && spec_starts_with(line@, seq!['*', ' ']) {
                                assert(line@.take(2)[0] == '*' && line@.take(2)[1] == ' ');
                            }
                        }
                        self.plain_line(line, &v, e, res);
                    }
                }
            }
        }
        proof {
            assert(final(res)@.map_values(|ev: Event<'a>| event_view(ev)) =~= res0.map_values(
                |ev: Event<'a>| event_view(ev),
            ) + spec_line_events(stack0, line@));
        }
    }

    /// A heading line: `line` is non-blank, starts with `#`, and its
    /// trailing whitespace ends at `e`.
    fn heading_line<'a>(&self, line: &'a str, v: &Vec<char>, e: usize, res: &mut Vec<Event<'a>>)
        requires
            v@ == line@,
            0 < e <= v@.len(),
            spec_trim_end(line@) == line@.take(e as int),
            line@[0] == '#',
        ensures
            final(res)@.map_values(|ev: Event<'a>| event_view(ev)) == old(res)@.map_values(
                |ev: Event<'a>| event_view(ev),
            ) + seq![
                EventModel::Start(
                    TagModel::Heading((spec_count(spec_trim_end(line@), '#') % 256) as u8),
                ),
                EventModel::Text(
                    spec_trim_start(spec_trim_leading(spec_trim_end(line@), '#')),
                ),
                EventModel::End,
            ],
    {
        let ghost t = spec_trim_end(line@);
        let n = v.len();
        // Count the pound signs of the whole trimmed line.
        let mut cnt: usize = 0;
        let mut j: usize = 0;
        while j < e
            invariant
                j <= e <= v@.len(),
                v@ == line@,
                spec_trim_end(line@) == line@.take(e as int),
                cnt <= j,
                cnt == spec_count(line@.take(e as int).take(j as int), '#'),
            decreases e - j,
        {
            proof {
                lemma_count_take_step(line@.take(e as int), '#', j as int);
            }
            if v[j] == '#' {
                cnt = cnt + 1;
            }
            j = j + 1;
        }
        proof {
            assert(t.take(e as int) =~= t);
        }
        let lvl: u8 = (cnt % 256) as u8;
        // The heading text: leading pound signs, then whitespace, then it.
        let mut h: usize = 0;
        while h < e && v[h] == '#'
            invariant
                h <= e <= v@.len(),
                v@ == line@,
                forall|j2: int| 0 <= j2 < h ==> #[trigger] v@[j2] == '#',
            decreases e - h,
        {
            h = h + 1;
        }
        let mut w: usize = h;
        while w < e && is_ws(v[w])
            invariant
                h <= w <= e <= v@.len(),
                v@ == line@,
                forall|j2: int| h <= j2 < w ==> spec_is_ws(#[trigger] v@[j2]),
            decreases e - w,
        {
            w = w + 1;
        }
        proof {
            lemma_trim_leading_skip(t, '#', h as int);
            assert(t.skip(h as int) =~= line@.subrange(h as int, e as int));
            lemma_trim_start_skip(t.skip(h as int), w - h);
            assert(t.skip(h as int).skip(w - h) =~= line@.subrange(w as int, e as int));
        }
        res.push(Event::Start(Tag::Heading(lvl)));
        res.push(Event::Text(line.substring_char(w, e)));
        res.push(Event::End);
        proof {
            assert(final(res)@.map_values(|ev: Event<'a>| event_view(ev)) =~= old(
                res,
            )@.map_values(|ev: Event<'a>| event_view(ev)) + seq![
                EventModel::Start(TagModel::Heading((spec_count(t, '#') % 256) as u8)),
                EventModel::Text(spec_trim_start(spec_trim_leading(t, '#'))),
                EventModel::End,
            ]);
        }
    }

    /// A line that is a link or a paragraph: non-blank, with its trailing
    /// whitespace ending at `e`.
    fn plain_line<'a>(&self, line: &'a str, v: &Vec<char>, e: usize, res: &mut Vec<Event<'a>>)
        requires
            v@ == line@,
            0 < e <= v@.len(),
            spec_trim_end(line@) == line@.take(e as int),
        ensures
            final(res)@.map_values(|ev: Event<'a>| event_view(ev)) == old(res)@.map_values(
                |ev: Event<'a>| event_view(ev),
            ) + (match spec_link_line(spec_trim_end(line@)) {
                Some((href, label)) => seq![
                    EventModel::Start(TagModel::Link(href, label)),
                    EventModel::End,
                ],
                None => seq![
                    EventModel::Start(TagModel::Paragraph),
                    EventModel::Text(spec_trim_end(line@)),
                    EventModel::End,
                ],
            }),
    {
        let ghost t = spec_trim_end(line@);
        let is_link_start = e >= 2 && v[0] == '=' && v[1] == '>';
        proof {
            if e >= 2 {
                assert(t.take(2) =~= line@.take(2));
                if spec_starts_with(t, seq!['=', '>']) {
                    assert(t.take(2)[0] == '=' && t.take(2)[1] == '>');
                }
                if is_link_start {
                    assert(t.take(2) =~= seq!['=', '>']);
                }
            }
        }
        if is_link_start {
            // Whitespace after the arrow, then the target.
            let mut rs: usize = 2;
            while rs < e && is_ws(v[rs])
                invariant
                    2 <= rs <= e <= v@.len(),
                    v@ == line@,
                    forall|j: int| 2 <= j < rs ==> spec_is_ws(#[trigger] v@[j]),
                decreases e - rs,
            {
                rs = rs + 1;
            }
            proof {
                assert(t.skip(2) =~= line@.subrange(2, e as int));
                lemma_trim_start_skip(t.skip(2), rs - 2);
                assert(t.skip(2).skip(rs - 2) =~= line@.subrange(rs as int, e as int));
            }
            let ghost rest = spec_trim_start(t.skip(2));
            if rs == e {
                res.push(Event::Start(Tag::Paragraph));
                res.push(Event::Text(line.substring_char(0, e)));
                res.push(Event::End);
            } else {
                let mut he: usize = rs;
                while he < e && !is_ws(v[he])
                    invariant
                        rs <= he <= e <= v@.len(),
                        v@ == line@,
                        forall|j: int| rs <= j < he ==> !spec_is_ws(#[trigger] v@[j]),
                    decreases e - he,
                {
                    he = he + 1;
                }
                proof {
                    lemma_nonws_prefix_take(rest, he - rs);
                    assert(rest.take(he - rs) =~= line@.subrange(rs as int, he as int));
                    assert(rest.skip(spec_nonws_prefix(rest).len() as int) =~= line@.subrange(
                        he as int,
                        e as int,
                    ));
                }
                let href = string_from_range(v, rs, he);
                let ghost tail = rest.skip(spec_nonws_prefix(rest).len() as int);
                if he == e {
                    res.push(Event::Start(Tag::Link(href, None)));
                    res.push(Event::End);
                } else {
                    let mut ls: usize = he;
                    while ls < e && is_ws(v[ls])
                        invariant
                            he <= ls <= e <= v@.len(),
                            v@ == line@,
                            forall|j: int| he <= j < ls ==> spec_is_ws(#[trigger] v@[j]),
                        decreases e - ls,
                    {
                        ls = ls + 1;
                    }
                    proof {
                        lemma_trim_start_skip(tail, ls - he);
                        assert(tail.skip(ls - he) =~= line@.subrange(ls as int, e as int));
                    }
                    let label = string_from_range(v, ls, e);
                    res.push(Event::Start(Tag::Link(href, Some(label))));
                    res.push(Event::End);
                }
            }
        } else {
            res.push(Event::Start(Tag::Paragraph));
            res.push(Event::Text(line.substring_char(0, e)));
            res.push(Event::End);
        }
        proof {
            assert(final(res)@.map_values(|ev: Event<'a>| event_view(ev)) =~= old(
                res,
            )@.map_values(|ev: Event<'a>| event_view(ev)) + (match spec_link_line(t) {
                Some((href, label)) => seq![
                    EventModel::Start(TagModel::Link(href, label)),
                    EventModel::End,
                ],
                None => seq![
                    EventModel::Start(TagModel::Paragraph),
                    EventModel::Text(t),
                    EventModel::End,
                ],
            }));
        }
    }
}

} // verus!
