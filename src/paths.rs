use vstd::prelude::*;

use vstd::string::StringExecFns;

use crate::text::{chars_of, lower_of, lowercase, string_from_chars};

verus! {

/// `name` placed below the directory `base`: an absolute `name` stands
/// alone, and no separator is doubled.
pub open spec fn join_path(base: Seq<char>, name: Seq<char>) -> Seq<char> {
    if name.len() > 0 && name[0] == '/' {
        name
    } else if base.len() == 0 {
        name
    } else if base.last() == '/' {
        base + name
    } else {
        base + seq!['/'] + name
    }
}

/// Places `name` below the directory `base`.
pub fn join(base: &str, name: &str) -> (r: String)
    ensures
        r@ == join_path(base@, name@),
{
    let b = chars_of(base);
    let n = chars_of(name);
    if n.len() > 0 && n[0] == '/' {
        return string_from_chars(&n);
    }
    if b.len() == 0 {
        return string_from_chars(&n);
    }
    let mut w = b.clone();
    if b[b.len() - 1] != '/' {
        w.push('/');
    }
    let mut i: usize = 0;
    let ghost w0 = w@;
    while i < n.len()
        invariant
            i <= n@.len(),
            w@ == w0 + n@.subrange(0, i as int),
        decreases n@.len() - i,
    {
        w.push(n[i]);
        i = i + 1;
        assert(w@ =~= w0 + n@.subrange(0, i as int));
    }
    assert(n@.subrange(0, n@.len() as int) =~= n@);
    proof {
        if b@.last() == '/' {
            assert(w0 =~= b@);
        } else {
            assert(w0 =~= b@ + seq!['/']);
        }
    }
    string_from_chars(&w)
}

/// `s` with each space replaced by an underscore.
pub open spec fn underscore_spaces(s: Seq<char>) -> Seq<char> {
    s.map_values(|c: char| if c == ' ' { '_' } else { c })
}

/// The file name of an action's document: spaces as underscores,
/// lowercased, with the `.md` extension.
pub open spec fn action_file_name(title: Seq<char>) -> Seq<char> {
    lower_of(underscore_spaces(title)) + seq!['.', 'm', 'd']
}

pub fn action_file_name_of(title: &str) -> (r: String)
    ensures
        r@ == action_file_name(title@),
{
    let v = chars_of(title);
    let mut w: Vec<char> = Vec::new();
    let mut i: usize = 0;
    while i < v.len()
        invariant
            i <= v@.len(),
            v@ == title@,
            w@ == underscore_spaces(v@.subrange(0, i as int)),
        decreases v@.len() - i,
    {
        let c = v[i];
        w.push(if c == ' ' { '_' } else { c });
        i = i + 1;
        assert(w@ =~= underscore_spaces(v@.subrange(0, i as int)));
    }
    assert(v@.subrange(0, v@.len() as int) =~= v@);
    let s = string_from_chars(&w);
    let mut l = chars_of(lowercase(s.as_str()).as_str());
    let ghost l0 = l@;
    l.push('.');
    l.push('m');
    l.push('d');
    assert(l@ =~= l0 + seq!['.', 'm', 'd']);
    string_from_chars(&l)
}

/// Index of the last `c` in `s`, or -1 when there is none.
pub open spec fn last_index_of(s: Seq<char>, c: char) -> int
    decreases s.len(),
{
    if s.len() == 0 {
        -1
    } else if s.last() == c {
        s.len() - 1
    } else {
        last_index_of(s.drop_last(), c)
    }
}

/// A path without the extension of its last component; a dot that opens
/// the component starts no extension.
pub open spec fn without_extension(p: Seq<char>) -> Seq<char> {
    let d = last_index_of(p, '.');
    let s = last_index_of(p, '/');
    if d > s + 1 {
        p.subrange(0, d)
    } else {
        p
    }
}

proof fn lemma_last_index_of_bounds(s: Seq<char>, c: char)
    ensures
        -1 <= last_index_of(s, c) < s.len(),
        last_index_of(s, c) >= 0 ==> s[last_index_of(s, c)] == c,
        forall|k: int| last_index_of(s, c) < k < s.len() ==> s[k] != c,
    decreases s.len(),
{
    if s.len() > 0 && s.last() != c {
        lemma_last_index_of_bounds(s.drop_last(), c);
        assert forall|k: int| last_index_of(s, c) < k < s.len() implies s[k] != c by {
            if k < s.len() - 1 {
                assert(s[k] == s.drop_last()[k]);
            }
        }
    }
}

proof fn lemma_last_index_of_at(s: Seq<char>, c: char, m: int)
    requires
        -1 <= m < s.len(),
        m >= 0 ==> s[m] == c,
        forall|k: int| m < k < s.len() ==> s[k] != c,
    ensures
        last_index_of(s, c) == m,
    decreases s.len(),
{
    if s.len() > 0 && m < s.len() - 1 {
        assert forall|k: int| m < k < s.drop_last().len() implies s.drop_last()[k] != c by {
            assert(s.drop_last()[k] == s[k]);
        }
        lemma_last_index_of_at(s.drop_last(), c, m);
    }
}

/// One more than the index of the last `c` in `v`; zero when there is none.
fn find_last(v: &Vec<char>, c: char) -> (r: usize)
    ensures
        r == last_index_of(v@, c) + 1,
{
    let mut k: usize = v.len();
    while k > 0 && v[k - 1] != c
        invariant
            k <= v@.len(),
            forall|j: int| k <= j < v@.len() ==> v@[j] != c,
        decreases k,
    {
        k = k - 1;
    }
    proof {
        lemma_last_index_of_at(v@, c, k - 1);
    }
    k
}

/// A path without the extension of its last component.
pub fn strip_extension(p: &str) -> (r: String)
    ensures
        r@ == without_extension(p@),
{
    let v = chars_of(p);
    let d1 = find_last(&v, '.');
    let s1 = find_last(&v, '/');
    proof {
        lemma_last_index_of_bounds(v@, '.');
        lemma_last_index_of_bounds(v@, '/');
    }
    if d1 > 0 && d1 - 1 > s1 {
        let d = d1 - 1;
        let mut w: Vec<char> = Vec::new();
        let mut i: usize = 0;
        while i < d
            invariant
                0 <= d < v@.len(),
                i <= d,
                w@ == v@.subrange(0, i as int),
            decreases d - i,
        {
            w.push(v[i]);
            i = i + 1;
            assert(w@ =~= v@.subrange(0, i as int));
        }
        string_from_chars(&w)
    } else {
        string_from_chars(&v)
    }
}

/// The last component of a path: what follows its last `/`.
pub open spec fn last_component(p: Seq<char>) -> Seq<char> {
    p.subrange(last_index_of(p, '/') + 1, p.len() as int)
}

/// The last component without its extension; a dot that opens the
/// component starts no extension.
pub open spec fn stem_of(p: Seq<char>) -> Seq<char> {
    let c = last_component(p);
    let d = last_index_of(c, '.');
    if d > 0 {
        c.subrange(0, d)
    } else {
        c
    }
}

/// The extension of the last component, if it has one.
pub open spec fn extension_of(p: Seq<char>) -> Option<Seq<char>> {
    let c = last_component(p);
    let d = last_index_of(c, '.');
    if d > 0 {
        Some(c.subrange(d + 1, c.len() as int))
    } else {
        None
    }
}

/// The name of the directory that holds the last component; empty when
/// the path names none.
pub open spec fn parent_name(p: Seq<char>) -> Seq<char> {
    let s = last_index_of(p, '/');
    if s < 0 {
        Seq::empty()
    } else {
        last_component(p.subrange(0, s))
    }
}

/// `t`, or `fallback` when `t` is empty.
pub open spec fn or_else(t: Seq<char>, fallback: Seq<char>) -> Seq<char> {
    if t.len() > 0 {
        t
    } else {
        fallback
    }
}

/// The characters `v[lo..hi]` as a vector.
fn slice_of(v: &Vec<char>, lo: usize, hi: usize) -> (r: Vec<char>)
    requires
        lo <= hi <= v@.len(),
    ensures
        r@ == v@.subrange(lo as int, hi as int),
{
    let mut w: Vec<char> = Vec::new();
    let mut i = lo;
    while i < hi
        invariant
            lo <= i <= hi <= v@.len(),
            w@ == v@.subrange(lo as int, i as int),
        decreases hi - i,
    {
        w.push(v[i]);
        i = i + 1;
        assert(w@ =~= v@.subrange(lo as int, i as int));
    }
    w
}

fn last_component_chars(v: &Vec<char>) -> (r: Vec<char>)
    ensures
        r@ == last_component(v@),
{
    let s1 = find_last(v, '/');
    proof {
        lemma_last_index_of_bounds(v@, '/');
    }
    slice_of(v, s1, v.len())
}

/// The title of the action stored at a path: the file's stem, or
/// `untitled` when it has none.
pub fn action_title_of(path: &str) -> (r: String)
    ensures
        r@ == or_else(stem_of(path@), "untitled"@),
{
    let c = last_component_chars(&chars_of(path));
    let d1 = find_last(&c, '.');
    proof {
        lemma_last_index_of_bounds(c@, '.');
    }
    let stem = if d1 > 1 {
        slice_of(&c, 0, d1 - 1)
    } else {
        c
    };
    if stem.len() > 0 {
        string_from_chars(&stem)
    } else {
        String::from_str("untitled")
    }
}

/// The project of the action stored at a path: the name of the directory
/// that holds the file, or `unknown` when there is none.
pub fn action_project_of(path: &str) -> (r: String)
    ensures
        r@ == or_else(parent_name(path@), "unknown"@),
{
    let v = chars_of(path);
    let s1 = find_last(&v, '/');
    proof {
        lemma_last_index_of_bounds(v@, '/');
    }
    let name = if s1 == 0 {
        Vec::new()
    } else {
        last_component_chars(&slice_of(&v, 0, s1 - 1))
    };
    proof {
        if s1 == 0 {
            assert(name@ =~= parent_name(v@));
        }
    }
    if name.len() > 0 {
        string_from_chars(&name)
    } else {
        String::from_str("unknown")
    }
}

/// Whether a path names a markdown file: its extension is `md`.
pub fn is_markdown_file(path: &str) -> (r: bool)
    ensures
        r == (extension_of(path@) == Some(seq!['m', 'd'])),
{
    let c = last_component_chars(&chars_of(path));
    let d1 = find_last(&c, '.');
    proof {
        lemma_last_index_of_bounds(c@, '.');
    }
    if d1 > 1 {
        let n = c.len();
        let r = n - d1 == 2 && c[d1] == 'm' && c[d1 + 1] == 'd';
        proof {
            let e = c@.subrange(d1 as int, n as int);
            if r {
                assert(e =~= seq!['m', 'd']);
            }
            if e == seq!['m', 'd'] {
                assert(e.len() == 2 && e[0] == 'm' && e[1] == 'd');
                assert(c@[d1 as int] == e[0] && c@[d1 + 1] == e[1]);
            }
        }
        r
    } else {
        false
    }
}

/// Whether a directory entry's name marks it hidden: it opens with a dot.
pub fn is_hidden_name(name: &str) -> (r: bool)
    ensures
        r == (name@.len() > 0 && name@[0] == '.'),
{
    name.unicode_len() > 0 && name.get_char(0) == '.'
}

} // verus!
