//! The known-hosts file format: one line per host, `"{host} {fingerprint}\n"`.
//!
//! The durable store keeps its pairs in a plain text file in this shape.
//! `render_known_hosts` produces the full text for a store (used when the
//! file is rewritten after a removal, and line by line for appends);
//! `parse_known_hosts` reads such a text back. Loading is strict: one
//! malformed line fails the whole load. A duplicated host keeps the pair
//! seen last.

use vstd::prelude::*;
use crate::assoc::{spec_insert, unique_keys};
use crate::known_hosts::{Entries, KnownHostsMap, KnownHostsRepo};
use crate::text::{chars_vec, string_from_range};

verus! {

/// Error of the strict loader: a line without the `host SP fingerprint`
/// shape.
#[derive(Debug, Clone, Copy, PartialEq, Eq, Structural)]
pub struct MalformedLine;

/// The index of the first `c` at or after `i` in `s`, if any.
pub open spec fn char_from(s: Seq<char>, c: char, i: int) -> Option<int>
    decreases s.len() - i,
{
    if i < 0 || i >= s.len() {
        None
    } else if s[i] == c {
        Some(i)
    } else {
        char_from(s, c, i + 1)
    }
}

/// A line with a trailing carriage return loses it before parsing.
pub open spec fn spec_strip_cr(line: Seq<char>) -> Seq<char> {
    if line.len() > 0 && line.last() == '\r' {
        line.drop_last()
    } else {
        line
    }
}

/// What one line means: the text before the first space is the host, the
/// text between the first and second space (or the line's end) is the
/// fingerprint; a line without a space is malformed.
pub open spec fn spec_line_entry(raw: Seq<char>) -> Option<(Seq<char>, Seq<char>)> {
    let line = spec_strip_cr(raw);
    match char_from(line, ' ', 0) {
        None => None,
        Some(k) => {
            let host = line.take(k);
            let rest = line.skip(k + 1);
            let sha = match char_from(rest, ' ', 0) {
                Some(m) => rest.take(m),
                None => rest,
            };
            Some((host, sha))
        },
    }
}

/// What a whole file means: its lines' pairs in order, or nothing when any
/// line is malformed. A final newline ends the last line; text after the
/// last newline forms one more line.
pub open spec fn spec_parse_lines(text: Seq<char>) -> Option<Seq<(Seq<char>, Seq<char>)>>
    decreases text.len(),
    via spec_parse_lines_decreases
{
    if text.len() == 0 {
        Some(Seq::empty())
    } else {
        let split = char_from(text, '\n', 0);
        let line = match split {
            Some(k) => text.take(k),
            None => text,
        };
        let rest = match split {
            Some(k) => text.skip(k + 1),
            None => Seq::empty(),
        };
        match spec_line_entry(line) {
            None => None,
            Some(e) => match spec_parse_lines(rest) {
                None => None,
                Some(t) => Some(seq![e] + t),
            },
        }
    }
}

/// The store the parsed pairs build up, inserted in order: a duplicated
/// host keeps the pair seen last.
pub open spec fn spec_entries_of(pairs: Seq<(Seq<char>, Seq<char>)>) -> Entries
    decreases pairs.len(),
{
    if pairs.len() == 0 {
        Seq::empty()
    } else {
        spec_insert(spec_entries_of(pairs.drop_last()), pairs.last().0, pairs.last().1)
    }
}

/// The file text for a store: one `"{host} {fingerprint}\n"` line per pair,
/// in store order.
pub open spec fn spec_render(s: Entries) -> Seq<char>
    decreases s.len(),
{
    if s.len() == 0 {
        Seq::empty()
    } else {
        s[0].0 + seq![' '] + s[0].1 + seq!['\n'] + spec_render(s.drop_first())
    }
}

/// A found index lies between the search start and the end of the text.
proof fn lemma_char_from_bounds(s: Seq<char>, c: char, i: int)
    ensures
        char_from(s, c, i) matches Some(k) ==> i <= k < s.len(),
    decreases s.len() - i,
{
    if !(i < 0 || i >= s.len()) {
        lemma_char_from_bounds(s, c, i + 1);
    }
}

#[via_fn]
proof fn spec_parse_lines_decreases(text: Seq<char>) {
    lemma_char_from_bounds(text, '\n', 0);
}

proof fn lemma_char_from_finds(s: Seq<char>, c: char, i: int, p: int)
    requires
        0 <= i <= p < s.len(),
        s[p] == c,
        forall|j: int| i <= j < p ==> s[j] != c,
    ensures
        char_from(s, c, i) == Some(p),
    decreases p - i,
{
    if i < p {
        lemma_char_from_finds(s, c, i + 1, p);
    }
}

proof fn lemma_char_from_misses(s: Seq<char>, c: char, i: int)
    requires
        forall|j: int| i <= j < s.len() ==> s[j] != c,
    ensures
        char_from(s, c, i) is None,
    decreases s.len() - i,
{
    if !(i < 0 || i >= s.len()) {
        lemma_char_from_misses(s, c, i + 1);
    }
}

/// Parse a line known to span `v[from..to]`.
fn parse_line_range(v: &Vec<char>, from: usize, to: usize) -> (r: Option<(String, String)>)
    requires
        from <= to <= v@.len(),
    ensures
        match spec_line_entry(v@.subrange(from as int, to as int)) {
            Some(e) => r matches Some(p) && p.0@ == e.0 && p.1@ == e.1,
            None => r is None,
        },
{
    let ghost raw = v@.subrange(from as int, to as int);
    let line_end: usize = if to > from && v[to - 1] == '\r' {
        to - 1
    } else {
        to
    };
    let ghost line = v@.subrange(from as int, line_end as int);
    proof {
        assert(spec_strip_cr(raw) =~= line);
    }
    // First space: end of the host field.
    let mut i: usize = from;
    while i < line_end && v[i] != ' '
        invariant
            from <= i <= line_end <= v@.len(),
            forall|j: int| from <= j < i ==> v@[j] != ' ',
        decreases line_end - i,
    {
        i = i + 1;
    }
    if i == line_end {
        proof {
            lemma_char_from_misses(line, ' ', 0);
        }
        return None;
    }
    proof {
        lemma_char_from_finds(line, ' ', 0, i - from);
    }
    let host = string_from_range(v, from, i);
    // Second space, if any: end of the fingerprint field.
    let ghost rest = line.skip(i - from + 1);
    let mut m: usize = i + 1;
    while m < line_end && v[m] != ' '
        invariant
            i + 1 <= m <= line_end <= v@.len() || (i + 1 > line_end && m == i + 1),
            forall|j: int| i + 1 <= j < m ==> v@[j] != ' ',
        decreases line_end - m,
    {
        m = m + 1;
    }
    let sha = string_from_range(v, i + 1, m);
    proof {
        if m < line_end {
            lemma_char_from_finds(rest, ' ', 0, m - i - 1);
            assert(rest.take(m - i - 1) =~= v@.subrange(i + 1, m as int));
        } else {
            lemma_char_from_misses(rest, ' ', 0);
            assert(rest =~= v@.subrange(i + 1, m as int));
        }
        assert(line.take(i - from) =~= v@.subrange(from as int, i as int));
    }
    Some((host, sha))
}

/// Read a known-hosts file back into a store. Strict: any malformed line
/// fails the whole load; a duplicated host keeps the pair seen last.
pub fn parse_known_hosts(text: &str) -> (r: Result<KnownHostsMap, MalformedLine>)
    ensures
        match spec_parse_lines(text@) {
            Some(pairs) => r matches Ok(m) && m.entries() == spec_entries_of(pairs),
            None => r matches Err(MalformedLine),
        },
{
    let v = chars_vec(text);
    let n = v.len();
    let mut map = KnownHostsMap::new();
    let ghost mut acc: Seq<(Seq<char>, Seq<char>)> = Seq::empty();
    let mut i: usize = 0;
    proof {
        assert(spec_entries_of(acc) =~= Seq::<(Seq<char>, Seq<char>)>::empty());
        assert(v@.skip(0) =~= v@);
        match spec_parse_lines(v@.skip(0)) {
            Some(rest) => {
                assert(acc + rest =~= rest);
            },
            None => {},
        }
    }
    while i < n
        invariant
            i <= n,
            n == v@.len(),
            v@ == text@,
            map.entries() == spec_entries_of(acc),
            spec_parse_lines(text@) == (match spec_parse_lines(v@.skip(i as int)) {
                None => None,
                Some(rest) => Some(acc + rest),
            }),
        decreases n - i,
    {
        let ghost remaining = v@.skip(i as int);
        // Find the end of this line.
        let mut k: usize = i;
        while k < n && v[k] != '\n'
            invariant
                i <= k <= n,
                n == v@.len(),
                forall|j: int| i <= j < k ==> v@[j] != '\n',
            decreases n - k,
        {
            k = k + 1;
        }
        let ghost split = char_from(remaining, '\n', 0);
        proof {
            if k < n {
                lemma_char_from_finds(remaining, '\n', 0, k - i);
            } else {
                lemma_char_from_misses(remaining, '\n', 0);
            }
        }
        let entry = parse_line_range(&v, i, k);
        proof {
            if k < n {
                assert(remaining.take(k - i) =~= v@.subrange(i as int, k as int));
            } else {
                assert(remaining =~= v@.subrange(i as int, k as int));
            }
        }
        match entry {
            None => {
                return Err(MalformedLine);
            },
            Some(p) => {
                let ghost e = (p.0@, p.1@);
                map.insert(p.0.as_str(), p.1.as_str());
                proof {
                    assert((acc.push(e)).drop_last() =~= acc);
                    assert(spec_entries_of(acc.push(e)) == spec_insert(
                        spec_entries_of(acc),
                        e.0,
                        e.1,
                    ));
                    if k < n {
                        assert(remaining.skip(k - i + 1) =~= v@.skip(k as int + 1));
                    } else {
                        assert(v@.skip(n as int) =~= Seq::<char>::empty());
                    }
                    acc = acc.push(e);
                    let next: int = if k < n {
                        k + 1
                    } else {
                        n as int
                    };
                    assert(spec_parse_lines(text@) == (match spec_parse_lines(v@.skip(next)) {
                        None => None,
                        Some(rest) => Some(acc + rest),
                    })) by {
                        match spec_parse_lines(v@.skip(next)) {
                            None => {},
                            Some(rest) => {
                                assert(acc.drop_last() + (seq![e] + rest) =~= acc + rest);
                            },
                        }
                    }
                }
                if k < n {
                    i = k + 1;
                } else {
                    i = n;
                }
            },
        }
    }
    proof {
        assert(v@.skip(n as int) =~= Seq::<char>::empty());
        assert(acc + Seq::<(Seq<char>, Seq<char>)>::empty() =~= acc);
    }
    Ok(map)
}

/// Render one `"{host} {fingerprint}\n"` line.
pub fn render_line(host: &str, sha: &str) -> (r: String)
    ensures
        r@ == host@ + seq![' '] + sha@ + seq!['\n'],
{
    proof {
        reveal_strlit(" ");
        reveal_strlit("\n");
    }
    let mut r = host.to_owned();
    r.append(" ");
    r.append(sha);
    r.append("\n");
    proof {
        assert(r@ =~= host@ + seq![' '] + sha@ + seq!['\n']);
    }
    r
}

/// The file text for a whole store, in store order.
pub fn render_known_hosts(repo: &KnownHostsMap) -> (r: String)
    ensures
        r@ == spec_render(repo.entries()),
{
    let pairs = repo.values();
    let n = pairs.len();
    let ghost entries = repo.entries();
    let mut r = String::new();
    let mut i: usize = 0;
    while i < n
        invariant
            i <= n,
            n == pairs@.len(),
            pairs@.map_values(|p: (String, String)| (p.0@, p.1@)) == entries,
            r@ == spec_render(entries.take(i as int)),
        decreases n - i,
    {
        let line = render_line(pairs[i].0.as_str(), pairs[i].1.as_str());
        r.append(line.as_str());
        i = i + 1;
        proof {
            lemma_render_concat(entries.take(i - 1), seq![entries[i - 1]]);
            assert(entries.take(i - 1) + seq![entries[i - 1]] =~= entries.take(i as int));
            assert(seq![entries[i - 1]].drop_first() =~= Seq::<(Seq<char>, Seq<char>)>::empty());
            assert(spec_render(Seq::<(Seq<char>, Seq<char>)>::empty()) =~= Seq::<char>::empty());
            assert(spec_render(seq![entries[i - 1]]) =~= entries[i - 1].0 + seq![' '] + entries[i
                - 1].1 + seq!['\n']);
        }
    }
    proof {
        assert(entries.take(n as int) =~= entries);
    }
    r
}

/// Rendering a concatenation renders the parts one after the other.
proof fn lemma_render_concat(a: Entries, b: Entries)
    ensures
        spec_render(a + b) == spec_render(a) + spec_render(b),
    decreases a.len(),
{
    if a.len() == 0 {
        assert(a + b =~= b);
        assert(spec_render(a) + spec_render(b) =~= spec_render(b));
    } else {
        lemma_render_concat(a.drop_first(), b);
        assert((a + b).drop_first() =~= a.drop_first() + b);
        assert((a + b)[0] == a[0]);
        assert(spec_render(a + b) =~= spec_render(a) + spec_render(b));
    }
}

/// A pair fit to stand in the file: no space or line break in the host or
/// the fingerprint, and no trailing carriage return to lose.
pub open spec fn renderable_pair(host: Seq<char>, sha: Seq<char>) -> bool {
    &&& forall|j: int| 0 <= j < host.len() ==> host[j] != ' ' && host[j] != '\n'
    &&& forall|j: int| 0 <= j < sha.len() ==> sha[j] != ' ' && sha[j] != '\n' && sha[j] != '\r'
}

/// Every pair of the store is fit to stand in the file.
pub open spec fn renderable(s: Entries) -> bool {
    forall|i: int| 0 <= i < s.len() ==> renderable_pair((#[trigger] s[i]).0, s[i].1)
}

/// Durable-store round trip: rendering a store whose hosts are unique and
/// whose pairs are fit for the file, and parsing the text back, returns
/// exactly the store's pairs, and inserting them in order rebuilds exactly
/// that store.
pub proof fn lemma_store_round_trip(s: Entries)
    requires
        unique_keys(s),
        renderable(s),
    ensures
        spec_parse_lines(spec_render(s)) == Some(s),
        spec_entries_of(s) == s,
{
    lemma_parse_render(s);
    lemma_entries_of_unique(s);
}

/// Parsing a rendered store returns its pairs in order.
proof fn lemma_parse_render(s: Entries)
    requires
        renderable(s),
    ensures
        spec_parse_lines(spec_render(s)) == Some(s),
    decreases s.len(),
{
    if s.len() == 0 {
        assert(spec_parse_lines(spec_render(s)) =~= Some(Seq::<(Seq<char>, Seq<char>)>::empty()));
        assert(Seq::<(Seq<char>, Seq<char>)>::empty() =~= s);
    } else {
        let host = s[0].0;
        let sha = s[0].1;
        let text = spec_render(s);
        let line = host + seq![' '] + sha;
        let p = line.len() as int;
        assert(renderable_pair(host, sha));
        // The first newline ends the first line.
        assert(text[p] == '\n');
        assert forall|j: int| 0 <= j < p implies text[j] != '\n' by {
            if j < host.len() {
                assert(text[j] == host[j]);
            } else if j == host.len() {
                assert(text[j] == ' ');
            } else {
                assert(text[j] == sha[j - host.len() - 1]);
            }
        }
        lemma_char_from_finds(text, '\n', 0, p);
        assert(text.take(p) =~= line);
        assert(text.skip(p + 1) =~= spec_render(s.drop_first()));
        // The line parses back to the pair.
        assert(spec_strip_cr(line) =~= line) by {
            if sha.len() > 0 {
                assert(line.last() == sha.last());
            } else {
                assert(line.last() == ' ');
            }
        }
        assert(line[host.len() as int] == ' ');
        assert forall|j: int| 0 <= j < host.len() implies line[j] != ' ' by {
            assert(line[j] == host[j]);
        }
        lemma_char_from_finds(line, ' ', 0, host.len() as int);
        assert(line.take(host.len() as int) =~= host);
        let rest = line.skip(host.len() as int + 1);
        assert(rest =~= sha);
        lemma_char_from_misses(sha, ' ', 0);
        assert(spec_line_entry(line) == Some((host, sha)));
        lemma_parse_render(s.drop_first());
        assert(seq![s[0]] + s.drop_first() =~= s);
    }
}

/// With unique hosts, inserting a store's pairs in order rebuilds it
/// exactly.
proof fn lemma_entries_of_unique(s: Entries)
    requires
        unique_keys(s),
    ensures
        spec_entries_of(s) == s,
    decreases s.len(),
{
    if s.len() > 0 {
        let front = s.drop_last();
        assert(forall|i: int, j: int|
            0 <= i < j < front.len() ==> (#[trigger] front[i]).0 != (#[trigger] front[j]).0);
        lemma_entries_of_unique(front);
        assert(forall|j: int| 0 <= j < front.len() ==> (#[trigger] front[j]).0 != s.last().0);
        crate::assoc::lemma_insert_absent(front, s.last().0, s.last().1);
        assert(front.push((s.last().0, s.last().1)) =~= s);
    }
}

} // verus!
