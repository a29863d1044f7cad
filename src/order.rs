use vstd::prelude::*;

use crate::action::Action;
use crate::text::chars_of;

verus! {

/// Lexicographic comparison of texts by character code: -1, 0 or 1.
pub open spec fn text_cmp(a: Seq<char>, b: Seq<char>) -> int
    decreases a.len(),
{
    if a.len() == 0 {
        if b.len() == 0 {
            0
        } else {
            -1
        }
    } else if b.len() == 0 {
        1
    } else if (a[0] as int) < (b[0] as int) {
        -1
    } else if (a[0] as int) > (b[0] as int) {
        1
    } else {
        text_cmp(a.drop_first(), b.drop_first())
    }
}

/// Order of actions by project name, then title.
pub open spec fn key_cmp(a: Action, b: Action) -> int {
    let c = text_cmp(a.project@, b.project@);
    if c != 0 {
        c
    } else {
        text_cmp(a.title@, b.title@)
    }
}

pub open spec fn key_le(a: Action, b: Action) -> bool {
    key_cmp(a, b) <= 0
}

/// Whether actions stand in ascending order of project name, then title.
pub open spec fn sorted_by_key(s: Seq<Action>) -> bool {
    forall|i: int, j: int| 0 <= i < j < s.len() ==> key_le(s[i], s[j])
}

proof fn lemma_text_cmp_props(a: Seq<char>, b: Seq<char>)
    ensures
        -1 <= text_cmp(a, b) <= 1,
        text_cmp(a, b) == -text_cmp(b, a),
        text_cmp(a, b) == 0 <==> a == b,
    decreases a.len(),
{
    if a.len() > 0 && b.len() > 0 {
        lemma_text_cmp_props(a.drop_first(), b.drop_first());
        if a[0] == b[0] && a.drop_first() == b.drop_first() {
            assert(a =~= seq![a[0]] + a.drop_first());
            assert(b =~= seq![b[0]] + b.drop_first());
        }
        if a == b {
            assert(a.drop_first() == b.drop_first());
        }
        if (a[0] as int) == (b[0] as int) {
            assert(a[0] == b[0]);
        }
    } else if a.len() == 0 && b.len() == 0 {
        assert(a =~= b);
    }
}

proof fn lemma_text_cmp_trans(a: Seq<char>, b: Seq<char>, c: Seq<char>)
    requires
        text_cmp(a, b) <= 0,
        text_cmp(b, c) <= 0,
    ensures
        text_cmp(a, c) <= 0,
        text_cmp(a, b) < 0 || text_cmp(b, c) < 0 ==> text_cmp(a, c) < 0,
    decreases a.len(),
{
    lemma_text_cmp_props(a, b);
    lemma_text_cmp_props(b, c);
    lemma_text_cmp_props(a, c);
    if a.len() > 0 && b.len() > 0 && c.len() > 0 {
        if a[0] == b[0] && b[0] == c[0] {
            lemma_text_cmp_trans(a.drop_first(), b.drop_first(), c.drop_first());
        }
        if (a[0] as int) == (b[0] as int) {
            assert(a[0] == b[0]);
        }
        if (b[0] as int) == (c[0] as int) {
            assert(b[0] == c[0]);
        }
    }
}

/// The order of actions by key is total and transitive.
pub proof fn lemma_key_order(a: Action, b: Action, c: Action)
    ensures
        key_le(a, b) || key_le(b, a),
        key_le(a, b) && key_le(b, c) ==> key_le(a, c),
        !key_le(a, b) ==> key_le(b, a),
{
    lemma_text_cmp_props(a.project@, b.project@);
    lemma_text_cmp_props(a.title@, b.title@);
    lemma_text_cmp_props(b.project@, c.project@);
    lemma_text_cmp_props(a.project@, c.project@);
    if key_le(a, b) && key_le(b, c) {
        if text_cmp(a.project@, b.project@) <= 0 && text_cmp(b.project@, c.project@) <= 0 {
            lemma_text_cmp_trans(a.project@, b.project@, c.project@);
        }
        if text_cmp(a.project@, b.project@) == 0 && text_cmp(b.project@, c.project@) == 0 {
            lemma_text_cmp_trans(a.title@, b.title@, c.title@);
        }
    }
}

/// Compares two texts by character code.
pub fn compare_text(a: &str, b: &str) -> (r: i8)
    ensures
        r as int == text_cmp(a@, b@),
{
    let x = chars_of(a);
    let y = chars_of(b);
    let mut i: usize = 0;
    proof {
        assert(x@.subrange(0, x@.len() as int) =~= x@);
        assert(y@.subrange(0, y@.len() as int) =~= y@);
    }
    while i < x.len() && i < y.len() && x[i] == y[i]
        invariant
            i <= x@.len(),
            i <= y@.len(),
            text_cmp(x@, y@) == text_cmp(x@.subrange(i as int, x@.len() as int), y@.subrange(i as int, y@.len() as int)),
        decreases x@.len() - i,
    {
        proof {
            let xs = x@.subrange(i as int, x@.len() as int);
            let ys = y@.subrange(i as int, y@.len() as int);
            assert(xs.drop_first() =~= x@.subrange(i + 1, x@.len() as int));
            assert(ys.drop_first() =~= y@.subrange(i + 1, y@.len() as int));
        }
        i = i + 1;
    }
    proof {
        assert(x@.subrange(0, x@.len() as int) =~= x@);
        assert(y@.subrange(0, y@.len() as int) =~= y@);
    }
    let ghost xs = x@.subrange(i as int, x@.len() as int);
    let ghost ys = y@.subrange(i as int, y@.len() as int);
    proof {
        if i < x.len() && i < y.len() {
            assert(xs[0] == x@[i as int] && ys[0] == y@[i as int]);
        }
    }
    if i == x.len() {
        if i == y.len() {
            0
        } else {
            -1
        }
    } else if i == y.len() {
        1
    } else if x[i] < y[i] {
        -1
    } else {
        1
    }
}

/// Compares two actions by project name, then title.
pub fn compare_key(a: &Action, b: &Action) -> (r: i8)
    ensures
        r as int == key_cmp(*a, *b),
{
    let c = compare_text(a.project.as_str(), b.project.as_str());
    if c != 0 {
        c
    } else {
        compare_text(a.title.as_str(), b.title.as_str())
    }
}

} // verus!
