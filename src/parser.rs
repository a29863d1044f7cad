use vstd::prelude::*;

use crate::text::{
    chars_of, index_of, lemma_index_of_at, lines, starts_with, str_eq, string_of_range, strip_cr, trim,
    trim_range,
};

verus! {

/// A string-to-string mapping kept as a list of entries, where a later entry
/// for a key overrides an earlier one.
#[derive(Debug, Clone)]
pub struct TextMap {
    pub entries: Vec<(String, String)>,
}

/// The mapping that a list of entries denotes: later entries win.
pub open spec fn map_of(es: Seq<(String, String)>) -> Map<Seq<char>, Seq<char>>
    decreases es.len(),
{
    if es.len() == 0 {
        Map::empty()
    } else {
        map_of(es.drop_last()).insert(es.last().0@, es.last().1@)
    }
}

proof fn lemma_map_of_suffix_free(es: Seq<(String, String)>, i: int, k: Seq<char>)
    requires
        0 <= i <= es.len(),
        forall|j: int| i <= j < es.len() ==> es[j].0@ != k,
    ensures
        map_of(es).contains_key(k) == map_of(es.subrange(0, i)).contains_key(k),
        map_of(es).contains_key(k) ==> map_of(es)[k] == map_of(es.subrange(0, i))[k],
    decreases es.len(),
{
    if es.len() > i {
        assert(es.drop_last() =~= es.subrange(0, es.len() - 1));
        assert(es.drop_last().subrange(0, i) =~= es.subrange(0, i));
        lemma_map_of_suffix_free(es.drop_last(), i, k);
    } else {
        assert(es.subrange(0, i) =~= es);
    }
}

impl TextMap {
    pub open spec fn view(&self) -> Map<Seq<char>, Seq<char>> {
        map_of(self.entries@)
    }

    pub fn new() -> (r: TextMap)
        ensures
            r@ == Map::<Seq<char>, Seq<char>>::empty(),
    {
        TextMap { entries: Vec::new() }
    }

    /// Sets the value of `key`, replacing any earlier one.
    pub fn insert(&mut self, key: String, value: String)
        ensures
            final(self)@ == old(self)@.insert(key@, value@),
    {
        self.entries.push((key, value));
        proof {
            assert(self.entries@.drop_last() =~= old(self).entries@);
        }
    }

    /// The value of `key`, if it has one.
    pub fn get(&self, key: &str) -> (r: Option<&String>)
        ensures
            match r {
                Some(v) => self@.contains_key(key@) && self@[key@] == v@,
                None => !self@.contains_key(key@),
            },
    {
        let mut i = self.entries.len();
        while i > 0
            invariant
                i <= self.entries@.len(),
                forall|j: int| i <= j < self.entries@.len() ==> self.entries@[j].0@ != key@,
            decreases i,
        {
            if str_eq(self.entries[i - 1].0.as_str(), key) {
                proof {
                    let es = self.entries@;
                    lemma_map_of_suffix_free(es, i as int, key@);
                    assert(es.subrange(0, i as int).drop_last() =~= es.subrange(0, i - 1));
                }
                return Some(&self.entries[i - 1].1);
            }
            i = i - 1;
        }
        proof {
            lemma_map_of_suffix_free(self.entries@, 0, key@);
            assert(self.entries@.subrange(0, 0) =~= Seq::<(String, String)>::empty());
        }
        None
    }
}

/// The header marker that opens a section line.
pub open spec fn header_mark() -> Seq<char> {
    seq!['#', '#', ' ']
}

/// Whether a line is a frontmatter delimiter.
pub open spec fn is_delim(l: Seq<char>) -> bool {
    trim(l) == seq!['-', '-', '-']
}

/// Index of the first delimiter line at or after `i`, or the number of lines.
pub open spec fn delim_from(ls: Seq<Seq<char>>, i: int) -> int
    decreases ls.len() - i,
{
    if i < 0 || i >= ls.len() {
        ls.len() as int
    } else if is_delim(ls[i]) {
        i
    } else {
        delim_from(ls, i + 1)
    }
}

/// Whether the lines open with a frontmatter block.
pub open spec fn has_front(ls: Seq<Seq<char>>) -> bool {
    ls.len() > 0 && is_delim(ls[0])
}

/// The lines inside the frontmatter block.
pub open spec fn front_lines(ls: Seq<Seq<char>>) -> Seq<Seq<char>> {
    if has_front(ls) {
        ls.subrange(1, delim_from(ls, 1))
    } else {
        Seq::empty()
    }
}

/// Index of the first line after the frontmatter block (and its closing line).
pub open spec fn body_start(ls: Seq<Seq<char>>) -> int {
    if has_front(ls) {
        let c = delim_from(ls, 1);
        if c < ls.len() {
            c + 1
        } else {
            c
        }
    } else {
        0
    }
}

/// One frontmatter line applied to the metadata: split at its first colon,
/// key and value trimmed; a line without a colon is skipped.
pub open spec fn meta_step(m: Map<Seq<char>, Seq<char>>, line: Seq<char>) -> Map<
    Seq<char>,
    Seq<char>,
> {
    let t = trim(line);
    let i = index_of(t, ':');
    if i < t.len() {
        m.insert(trim(t.subrange(0, i)), trim(t.subrange(i + 1, t.len() as int)))
    } else {
        m
    }
}

/// The metadata after the given frontmatter lines.
pub open spec fn meta_scan(ls: Seq<Seq<char>>) -> Map<Seq<char>, Seq<char>>
    decreases ls.len(),
{
    if ls.len() == 0 {
        Map::empty()
    } else {
        meta_step(meta_scan(ls.drop_last()), ls.last())
    }
}

/// State of the section scan: sections found so far, the open section's
/// name, and the text gathered for it.
pub type ScanState = (Map<Seq<char>, Seq<char>>, Option<Seq<char>>, Seq<char>);

/// Records the open section, if any, with its gathered text trimmed.
pub open spec fn close_section(st: ScanState) -> Map<Seq<char>, Seq<char>> {
    match st.1 {
        Some(n) => st.0.insert(n, trim(st.2)),
        None => st.0,
    }
}

/// One body line applied to the section scan: a `## ` line opens a section
/// named by the rest of the line, trimmed; other lines join the open section.
pub open spec fn scan_step(st: ScanState, line: Seq<char>) -> ScanState {
    if starts_with(line, header_mark()) {
        (close_section(st), Some(trim(line.subrange(3, line.len() as int))), Seq::empty())
    } else if st.1 is Some {
        (st.0, st.1, st.2 + line + seq!['\n'])
    } else {
        st
    }
}

/// The scan state after the given lines, from `st`.
pub open spec fn scan_lines(st: ScanState, ls: Seq<Seq<char>>) -> ScanState
    decreases ls.len(),
{
    if ls.len() == 0 {
        st
    } else {
        scan_step(scan_lines(st, ls.drop_last()), ls.last())
    }
}

pub open spec fn scan_init() -> ScanState {
    (Map::empty(), None, Seq::empty())
}

/// The metadata of a document.
pub open spec fn parse_meta(s: Seq<char>) -> Map<Seq<char>, Seq<char>> {
    meta_scan(front_lines(lines(s)))
}

/// The sections of a document, by name.
pub open spec fn parse_sections(s: Seq<char>) -> Map<Seq<char>, Seq<char>> {
    let ls = lines(s);
    close_section(scan_lines(scan_init(), ls.subrange(body_start(ls), ls.len() as int)))
}

/// The text of each line range.
pub open spec fn range_lines(v: Seq<char>, rs: Seq<(usize, usize)>) -> Seq<Seq<char>> {
    Seq::new(rs.len(), |k: int| v.subrange(rs[k].0 as int, rs[k].1 as int))
}

/// Whether every range lies within a text of length `n`.
pub open spec fn ranges_within(rs: Seq<(usize, usize)>, n: nat) -> bool {
    forall|k: int| 0 <= k < rs.len() ==> #[trigger] rs[k].0 <= rs[k].1 <= n
}

/// Splits `v` into lines; each range is that of one line's text.
fn line_ranges(v: &Vec<char>) -> (r: Vec<(usize, usize)>)
    ensures
        range_lines(v@, r@) == lines(v@),
        ranges_within(r@, v@.len()),
{
    let n = v.len();
    let mut r: Vec<(usize, usize)> = Vec::new();
    let mut p: usize = 0;
    proof {
        assert(v@.subrange(0, n as int) =~= v@);
        assert(range_lines(v@, r@) =~= Seq::<Seq<char>>::empty());
        assert(range_lines(v@, r@) + lines(v@) =~= lines(v@));
    }
    while p < n
        invariant
            n == v@.len(),
            p <= n,
            lines(v@) == range_lines(v@, r@) + lines(v@.subrange(p as int, n as int)),
            forall|k: int| 0 <= k < r@.len() ==> #[trigger] r@[k].0 <= r@[k].1 <= v@.len(),
        decreases n - p,
    {
        let mut q = p;
        while q < n && v[q] != '\n'
            invariant
                p <= q <= n,
                n == v@.len(),
                forall|k: int| p <= k < q ==> v@[k] != '\n',
            decreases n - q,
        {
            q = q + 1;
        }
        let ghost t = v@.subrange(p as int, n as int);
        proof {
            lemma_index_of_at(t, '\n', q - p);
        }
        let e = if q < n && q > p && v[q - 1] == '\r' {
            q - 1
        } else {
            q
        };
        let ghost old_r = r@;
        r.push((p, e));
        proof {
            assert forall|k: int| 0 <= k < r@.len() implies #[trigger] r@[k].0 <= r@[k].1 <= v@.len() by {
                if k < old_r.len() {
                    assert(r@[k] == old_r[k]);
                }
            }
            assert(range_lines(v@, r@) =~= range_lines(v@, old_r).push(
                v@.subrange(p as int, e as int),
            ));
        }
        if q < n {
            proof {
                assert(t.subrange(0, q - p) =~= v@.subrange(p as int, q as int));
                assert(t.subrange(q - p + 1, t.len() as int) =~= v@.subrange(q + 1, n as int));
                assert(strip_cr(v@.subrange(p as int, q as int)) =~= v@.subrange(
                    p as int,
                    e as int,
                ));
                assert(lines(t) == seq![v@.subrange(p as int, e as int)] + lines(
                    v@.subrange(q + 1, n as int),
                ));
                assert(range_lines(v@, old_r) + lines(t) =~= range_lines(v@, r@) + lines(
                    v@.subrange(q + 1, n as int),
                ));
            }
            p = q + 1;
        } else {
            proof {
                assert(lines(t) == seq![t]);
                assert(t =~= v@.subrange(p as int, e as int));
                assert(lines(v@.subrange(n as int, n as int)) =~= Seq::<Seq<char>>::empty());
                assert(range_lines(v@, old_r) + lines(t) =~= range_lines(v@, r@) + lines(
                    v@.subrange(n as int, n as int),
                ));
            }
            p = n;
        }
    }
    proof {
        assert(lines(v@.subrange(n as int, n as int)) =~= Seq::<Seq<char>>::empty());
        assert(range_lines(v@, r@) + Seq::<Seq<char>>::empty() =~= range_lines(v@, r@));
    }
    r
}

/// Reads the metadata block and the `## ` sections of a markdown document.
pub struct MarkdownParser<'a> {
    content: &'a str,
}

impl<'a> MarkdownParser<'a> {
    pub closed spec fn content(&self) -> Seq<char> {
        self.content@
    }

    pub fn new(content: &'a str) -> (r: Self)
        ensures
            r.content() == content@,
    {
        MarkdownParser { content }
    }

    /// The metadata and the sections of the document. Malformed parts are
    /// left out rather than reported.
    pub fn parse(&self) -> (r: (TextMap, TextMap))
        ensures
            r.0@ == parse_meta(self.content()),
            r.1@ == parse_sections(self.content()),
    {
        let v = chars_of(self.content);
        let rs = line_ranges(&v);
        let ghost ls = lines(v@);
        let nl = rs.len();
        assert(ls.len() == nl);
        let mut metadata = TextMap::new();
        let mut i: usize = 0;
        if nl > 0 && is_delim_line(&v, rs[0].0, rs[0].1) {
            i = 1;
            while i < nl && !is_delim_line(&v, rs[i].0, rs[i].1)
                invariant
                    1 <= i <= nl,
                    nl == rs@.len(),
                    ls == range_lines(v@, rs@),
                    ls.len() == nl,
                    has_front(ls),
                    ranges_within(rs@, v@.len()),
                    delim_from(ls, 1) == delim_from(ls, i as int),
                    metadata@ == meta_scan(ls.subrange(1, i as int)),
                decreases nl - i,
            {
                let (a, b) = trim_range(&v, rs[i].0, rs[i].1);
                let mut c = a;
                while c < b && v[c] != ':'
                    invariant
                        a <= c <= b <= v@.len(),
                        forall|k: int| a <= k < c ==> v@[k] != ':',
                    decreases b - c,
                {
                    c = c + 1;
                }
                let ghost t = v@.subrange(a as int, b as int);
                proof {
                    lemma_index_of_at(t, ':', c - a);
                    assert(ls.subrange(1, i + 1).drop_last() =~= ls.subrange(1, i as int));
                    assert(ls[i as int] == v@.subrange(rs@[i as int].0 as int, rs@[i as int].1 as int));
                }
                if c < b {
                    let (ka, kb) = trim_range(&v, a, c);
                    let (va, vb) = trim_range(&v, c + 1, b);
                    proof {
                        assert(t.subrange(0, c - a) =~= v@.subrange(a as int, c as int));
                        assert(t.subrange(c - a + 1, t.len() as int) =~= v@.subrange(c + 1, b as int));
                    }
                    metadata.insert(string_of_range(&v, ka, kb), string_of_range(&v, va, vb));
                }
                i = i + 1;
            }
            proof {
                assert(front_lines(ls) == ls.subrange(1, i as int));
            }
            if i < nl {
                i = i + 1;
            }
        } else {
            proof {
                assert(front_lines(ls) =~= Seq::<Seq<char>>::empty());
            }
        }
        let ghost b = i as int;
        assert(b == body_start(ls));
        let mut sections = TextMap::new();
        let mut current: Option<String> = None;
        let mut buf: Vec<char> = Vec::new();
        while i < nl
            invariant
                0 <= b <= i <= nl,
                nl == rs@.len(),
                ls == range_lines(v@, rs@),
                ls.len() == nl,
                ranges_within(rs@, v@.len()),
                ({
                    let st = scan_lines(scan_init(), ls.subrange(b, i as int));
                    &&& sections@ == st.0
                    &&& match current {
                        Some(n) => st.1 == Some(n@),
                        None => st.1 is None,
                    }
                    &&& buf@ == st.2
                }),
            decreases nl - i,
        {
            let (p, q) = rs[i];
            let ghost line = v@.subrange(p as int, q as int);
            let ghost prev = scan_lines(scan_init(), ls.subrange(b, i as int));
            proof {
                assert(ls.subrange(b, i as int + 1).drop_last() =~= ls.subrange(b, i as int));
                assert(ls.subrange(b, i as int + 1).last() == ls[i as int]);
                assert(ls[i as int] == line);
            }
            if q - p >= 3 && v[p] == '#' && v[p + 1] == '#' && v[p + 2] == ' ' {
                proof {
                    assert(line.subrange(0, 3) =~= header_mark());
                    assert(line.subrange(3, line.len() as int) =~= v@.subrange(p + 3, q as int));
                }
                if let Some(name) = current {
                    let (a, z) = trim_range(&buf, 0, buf.len());
                    proof {
                        assert(buf@.subrange(0, buf@.len() as int) =~= buf@);
                    }
                    sections.insert(name, string_of_range(&buf, a, z));
                }
                let (a, z) = trim_range(&v, p + 3, q);
                current = Some(string_of_range(&v, a, z));
                buf = Vec::new();
            } else {
                proof {
                    if line.len() >= 3 {
                        assert(line.subrange(0, 3) != header_mark()) by {
                            assert(line.subrange(0, 3)[0] == v@[p as int]);
                            assert(line.subrange(0, 3)[1] == v@[p + 1]);
                            assert(line.subrange(0, 3)[2] == v@[p + 2]);
                        }
                    }
                }
                if current.is_some() {
                    let mut k = p;
                    while k < q
                        invariant
                            p <= k <= q <= v@.len(),
                            buf@ == prev.2 + v@.subrange(p as int, k as int),
                        decreases q - k,
                    {
                        buf.push(v[k]);
                        k = k + 1;
                        assert(buf@ =~= prev.2 + v@.subrange(p as int, k as int));
                    }
                    buf.push('\n');
                }
            }
            i = i + 1;
        }
        if let Some(name) = current {
            let (a, z) = trim_range(&buf, 0, buf.len());
            proof {
                assert(buf@.subrange(0, buf@.len() as int) =~= buf@);
            }
            sections.insert(name, string_of_range(&buf, a, z));
        }
        proof {
            assert(ls.subrange(b, nl as int) =~= ls.subrange(b, ls.len() as int));
        }
        (metadata, sections)
    }
}

/// A character that may stand in a tag: an ASCII letter or digit, `_` or `-`.
pub open spec fn is_tag_char(c: char) -> bool {
    ('a' <= c && c <= 'z') || ('A' <= c && c <= 'Z') || ('0' <= c && c <= '9') || c == '_' || c
        == '-'
}

/// Number of tag characters in a row from index `i`.
pub open spec fn tag_run(s: Seq<char>, i: int) -> int
    decreases s.len() - i,
{
    if 0 <= i < s.len() && is_tag_char(s[i]) {
        1 + tag_run(s, i + 1)
    } else {
        0
    }
}

/// The tags from index `i` on: each `#` followed by one or more tag
/// characters gives the longest such run; scanning goes on after it.
pub open spec fn tags_from(s: Seq<char>, i: int) -> Seq<Seq<char>>
    decreases s.len() - i,
{
    if i < 0 || i >= s.len() {
        Seq::empty()
    } else if s[i] == '#' && tag_run(s, i + 1) > 0 {
        let e = i + 1 + tag_run(s, i + 1);
        if i < e <= s.len() {
            seq![s.subrange(i + 1, e)] + tags_from(s, e)
        } else {
            Seq::empty()
        }
    } else {
        tags_from(s, i + 1)
    }
}

/// Index of the first `c` at or after `i`, or the length when there is none.
pub open spec fn find_from(s: Seq<char>, i: int, c: char) -> int {
    i + index_of(s.subrange(i, s.len() as int), c)
}

/// The target of a markdown link `[label](target.md)` that opens at index
/// `i`: the label is one or more characters other than `]`, the target one
/// or more characters other than `)` that end in `.md`.
pub open spec fn link_at(s: Seq<char>, i: int) -> Option<(int, int)> {
    if 0 <= i < s.len() && s[i] == '[' {
        let j = find_from(s, i + 1, ']');
        if j > i + 1 && j + 1 < s.len() && s[j + 1] == '(' {
            let k = find_from(s, j + 2, ')');
            if k < s.len() && k - (j + 2) >= 4 && s.subrange(k - 3, k) == seq!['.', 'm', 'd'] {
                Some((j + 2, k))
            } else {
                None
            }
        } else {
            None
        }
    } else {
        None
    }
}

/// The link targets from index `i` on, scanning on after each link.
pub open spec fn links_from(s: Seq<char>, i: int) -> Seq<Seq<char>>
    decreases s.len() - i,
{
    if i < 0 || i >= s.len() {
        Seq::empty()
    } else {
        match link_at(s, i) {
            Some((a, b)) => if i <= b < s.len() {
                seq![s.subrange(a, b)] + links_from(s, b + 1)
            } else {
                Seq::empty()
            },
            None => links_from(s, i + 1),
        }
    }
}

proof fn lemma_tag_run_at(s: Seq<char>, a: int, b: int)
    requires
        0 <= a <= b <= s.len(),
        forall|k: int| a <= k < b ==> is_tag_char(s[k]),
        b == s.len() || !is_tag_char(s[b]),
    ensures
        tag_run(s, a) == b - a,
    decreases b - a,
{
    if a < b {
        lemma_tag_run_at(s, a + 1, b);
    }
}

fn tag_char(c: char) -> (r: bool)
    ensures
        r == is_tag_char(c),
{
    ('a' <= c && c <= 'z') || ('A' <= c && c <= 'Z') || ('0' <= c && c <= '9') || c == '_' || c
        == '-'
}

/// Index of the first `c` in `v` at or after `i`; the length when none.
fn find_char_from(v: &Vec<char>, i: usize, c: char) -> (r: usize)
    requires
        i <= v@.len(),
    ensures
        r == find_from(v@, i as int, c),
        i <= r <= v@.len(),
{
    let mut k = i;
    while k < v.len() && v[k] != c
        invariant
            i <= k <= v@.len(),
            forall|m: int| i <= m < k ==> v@[m] != c,
        decreases v@.len() - k,
    {
        k = k + 1;
    }
    proof {
        let t = v@.subrange(i as int, v@.len() as int);
        assert forall|m: int| 0 <= m < k - i implies t[m] != c by {
            assert(t[m] == v@[i + m]);
        }
        lemma_index_of_at(t, c, k - i);
    }
    k
}

/// Whether `v[k-3..k]` reads `.md`.
fn ends_md(v: &Vec<char>, k: usize) -> (r: bool)
    requires
        3 <= k <= v@.len(),
    ensures
        r == (v@.subrange(k - 3, k as int) == seq!['.', 'm', 'd']),
{
    let r = v[k - 3] == '.' && v[k - 2] == 'm' && v[k - 1] == 'd';
    proof {
        let t = v@.subrange(k - 3, k as int);
        assert(t[0] == v@[k - 3] && t[1] == v@[k - 2] && t[2] == v@[k - 1]);
        if r {
            assert(t =~= seq!['.', 'm', 'd']);
        }
        if t == seq!['.', 'm', 'd'] {
            assert(t[0] == '.' && t[1] == 'm' && t[2] == 'd');
        }
    }
    r
}

impl<'a> MarkdownParser<'a> {
    /// Every tag (`#` and a run of ASCII letters, digits, `_` or `-`) in the
    /// document, in order.
    pub fn extract_tags(&self) -> (r: Vec<String>)
        ensures
            r@.map_values(|t: String| t@) == tags_from(self.content(), 0),
    {
        let v = chars_of(self.content);
        let n = v.len();
        let mut out: Vec<String> = Vec::new();
        let mut i: usize = 0;
        while i < n
            invariant
                n == v@.len(),
                v@ == self.content(),
                i <= n,
                tags_from(v@, 0) == out@.map_values(|t: String| t@) + tags_from(v@, i as int),
            decreases n - i,
        {
            if v[i] == '#' {
                let mut e = i + 1;
                while e < n && tag_char(v[e])
                    invariant
                        i < e <= n,
                        n == v@.len(),
                        forall|k: int| i + 1 <= k < e ==> is_tag_char(v@[k]),
                    decreases n - e,
                {
                    e = e + 1;
                }
                proof {
                    lemma_tag_run_at(v@, i + 1, e as int);
                }
                if e > i + 1 {
                    let ghost o0 = out@.map_values(|t: String| t@);
                    out.push(string_of_range(&v, i + 1, e));
                    assert(out@.map_values(|t: String| t@) =~= o0.push(v@.subrange(i + 1, e as int)));
                    assert(tags_from(v@, 0) =~= out@.map_values(|t: String| t@) + tags_from(v@, e as int));
                    i = e;
                } else {
                    i = i + 1;
                }
            } else {
                i = i + 1;
            }
        }
        assert(tags_from(v@, i as int) =~= Seq::<Seq<char>>::empty());
        assert(out@.map_values(|t: String| t@) + Seq::<Seq<char>>::empty() =~= out@.map_values(|t: String| t@));
        out
    }

    /// The target of every markdown link to a `.md` file in the document,
    /// in order.
    pub fn extract_links(&self) -> (r: Vec<String>)
        ensures
            r@.map_values(|t: String| t@) == links_from(self.content(), 0),
    {
        let v = chars_of(self.content);
        let n = v.len();
        let mut out: Vec<String> = Vec::new();
        let mut i: usize = 0;
        while i < n
            invariant
                n == v@.len(),
                v@ == self.content(),
                i <= n,
                links_from(v@, 0) == out@.map_values(|t: String| t@) + links_from(v@, i as int),
            decreases n - i,
        {
            let mut found = false;
            if v[i] == '[' {
                let j = find_char_from(&v, i + 1, ']');
                if j > i + 1 && j < n - 1 && v[j + 1] == '(' {
                    let k = find_char_from(&v, j + 2, ')');
                    if k < n && k - (j + 2) >= 4 && ends_md(&v, k) {
                        assert(link_at(v@, i as int) == Some((j + 2, k as int)));
                        let ghost o0 = out@.map_values(|t: String| t@);
                        out.push(string_of_range(&v, j + 2, k));
                        assert(out@.map_values(|t: String| t@) =~= o0.push(v@.subrange(j + 2, k as int)));
                        assert(links_from(v@, 0) =~= out@.map_values(|t: String| t@) + links_from(v@, k + 1));
                        i = k + 1;
                        found = true;
                    }
                }
            }
            if !found {
                assert(link_at(v@, i as int) is None);
                i = i + 1;
            }
        }
        assert(links_from(v@, i as int) =~= Seq::<Seq<char>>::empty());
        assert(out@.map_values(|t: String| t@) + Seq::<Seq<char>>::empty() =~= out@.map_values(|t: String| t@));
        out
    }
}

/// Whether `v[lo..hi]` is a frontmatter delimiter line.
fn is_delim_line(v: &Vec<char>, lo: usize, hi: usize) -> (r: bool)
    requires
        lo <= hi <= v@.len(),
    ensures
        r == is_delim(v@.subrange(lo as int, hi as int)),
{
    let (a, b) = trim_range(v, lo, hi);
    let r = b - a == 3 && v[a] == '-' && v[a + 1] == '-' && v[a + 2] == '-';
    proof {
        let t = v@.subrange(a as int, b as int);
        if b - a == 3 {
            assert(t[0] == v@[a as int] && t[1] == v@[a + 1] && t[2] == v@[a + 2]);
            if r {
                assert(t =~= seq!['-', '-', '-']);
            }
        }
        if !r && t.len() == 3 {
            assert(t != seq!['-', '-', '-']) by {
                if t == seq!['-', '-', '-'] {
                    assert(t[0] == '-' && t[1] == '-' && t[2] == '-');
                }
            }
        }
    }
    r
}

} // verus!
