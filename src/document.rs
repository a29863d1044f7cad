use vstd::prelude::*;

use crate::action::{bool_text, render, section_block, sections_text, stamp_text, tag_line, Action};
use crate::action::{entry, meta_priority, meta_status};
use crate::parser::{
    front_lines, meta_scan, meta_step, parse_meta,
    body_start, close_section, delim_from, has_front, header_mark, is_delim, parse_sections,
    scan_init, scan_lines, scan_step, ScanState,
};
use crate::stamp::{no_newline, uuid_text};
use crate::status::status_name;
use crate::text::{
    ascii_lower, is_ws, lemma_index_of_at, lemma_index_of_bounds, lines, nl_index, starts_with,
    strip_cr, trim, trim_end, trim_start,
};

verus! {

/// The pieces of a text between line feeds, each without a carriage return
/// at its end, as they read when a line feed follows the text.
pub open spec fn segs(s: Seq<char>) -> Seq<Seq<char>>
    decreases s.len(),
{
    let i = nl_index(s);
    if 0 <= i < s.len() {
        seq![strip_cr(s.subrange(0, i))] + segs(s.subrange(i + 1, s.len() as int))
    } else {
        seq![strip_cr(s)]
    }
}

/// No piece of the text, read as a line, opens a section.
pub open spec fn no_header_line(s: Seq<char>) -> bool {
    forall|k: int| 0 <= k < segs(s).len() ==> !starts_with(#[trigger] segs(s)[k], header_mark())
}

/// No carriage return in the text is followed by a line feed or ends it.
pub open spec fn no_bare_cr_end(s: Seq<char>) -> bool {
    forall|k: int| 0 <= k < s.len() && #[trigger] s[k] == '\r' ==> k + 1 < s.len() && s[k + 1] != '\n'
}

/// Whether a text is all whitespace.
pub open spec fn all_ws(s: Seq<char>) -> bool {
    forall|k: int| 0 <= k < s.len() ==> is_ws(s[k])
}

/// The lines to which the lines of `ls` add, each with its line feed.
pub open spec fn join(ls: Seq<Seq<char>>) -> Seq<char>
    decreases ls.len(),
{
    if ls.len() == 0 {
        Seq::empty()
    } else {
        join(ls.drop_last()) + ls.last() + seq!['\n']
    }
}

/// A section's content, trimmed, where it is written.
pub open spec fn put(m: Map<Seq<char>, Seq<char>>, name: Seq<char>, c: Option<String>) -> Map<
    Seq<char>,
    Seq<char>,
> {
    match c {
        Some(x) => if x@.len() > 0 {
            m.insert(name, trim(x@))
        } else {
            m
        },
        None => m,
    }
}

/// The sections that an action's document holds, by name.
pub open spec fn written_sections(a: Action) -> Map<Seq<char>, Seq<char>> {
    put(
        put(
            put(
                put(put(Map::empty(), "Notes"@, a.notes), "Statement of Action"@, a.statement_of_action),
                "Statement of Inputs"@,
                a.statement_of_inputs,
            ),
            "Statement of Design"@,
            a.statement_of_design,
        ),
        "Analysis of Impact"@,
        a.analysis_of_impact,
    )
}

/// Whether a section's content reads back as written: no line of it opens
/// a section, and no carriage return ends one of its lines.
pub open spec fn content_safe(c: Option<String>) -> bool {
    match c {
        Some(x) => x@.len() > 0 ==> no_header_line(x@) && no_bare_cr_end(x@),
        None => true,
    }
}

/// Whether an action's document reads back unambiguously: the time stamps
/// are single lines, no line of the title or the tag line opens a
/// section, and every section's content is safe.
pub open spec fn round_trip_safe(a: Action) -> bool {
    &&& no_newline(stamp_text(a.created_at))
    &&& no_newline(stamp_text(a.updated_at))
    &&& no_header_line(seq!['#', ' '] + a.title@)
    &&& no_header_line(tag_line(a))
    &&& content_safe(a.notes)
    &&& content_safe(a.statement_of_action)
    &&& content_safe(a.statement_of_inputs)
    &&& content_safe(a.statement_of_design)
    &&& content_safe(a.analysis_of_impact)
}

proof fn lemma_lines_cat(c: Seq<char>, r: Seq<char>)
    ensures
        lines(c + seq!['\n'] + r) == segs(c) + lines(r),
    decreases c.len(),
{
    let s = c + seq!['\n'] + r;
    lemma_index_of_bounds(c, '\n');
    let i = nl_index(c);
    if i < c.len() {
        assert forall|k: int| 0 <= k < i implies s[k] != '\n' by {
            assert(s[k] == c[k]);
        }
        lemma_index_of_at(s, '\n', i);
        let c1 = c.subrange(i + 1, c.len() as int);
        lemma_lines_cat(c1, r);
        assert(s.subrange(0, i) =~= c.subrange(0, i));
        assert(s.subrange(i + 1, s.len() as int) =~= c1 + seq!['\n'] + r);
        assert(lines(s) =~= seq![strip_cr(c.subrange(0, i))] + (segs(c1) + lines(r)));
    } else {
        assert forall|k: int| 0 <= k < c.len() implies s[k] != '\n' by {
            assert(s[k] == c[k]);
        }
        lemma_index_of_at(s, '\n', c.len() as int);
        assert(s.subrange(0, c.len() as int) =~= c);
        assert(s.subrange(c.len() as int + 1, s.len() as int) =~= r);
    }
}

proof fn lemma_segs_single(c: Seq<char>)
    requires
        no_newline(c),
    ensures
        segs(c) == seq![strip_cr(c)],
{
    lemma_index_of_at(c, '\n', c.len() as int);
}

proof fn lemma_join_cat(a: Seq<Seq<char>>, b: Seq<Seq<char>>)
    ensures
        join(a + b) == join(a) + join(b),
    decreases b.len(),
{
    if b.len() == 0 {
        assert(a + b =~= a);
        assert(join(a) + join(b) =~= join(a));
    } else {
        lemma_join_cat(a, b.drop_last());
        assert((a + b).drop_last() =~= a + b.drop_last());
        assert(join(a + b) =~= join(a) + join(b));
    }
}

proof fn lemma_join_one(x: Seq<char>)
    ensures
        join(seq![x]) == x + seq!['\n'],
{
    assert(seq![x].drop_last() =~= Seq::<Seq<char>>::empty());
    assert(join(Seq::<Seq<char>>::empty()) == Seq::<char>::empty());
    assert(Seq::<char>::empty() + x =~= x);
}

proof fn lemma_scan_one(st: ScanState, l: Seq<char>)
    ensures
        scan_lines(st, seq![l]) == scan_step(st, l),
{
    assert(seq![l].drop_last() =~= Seq::<Seq<char>>::empty());
    assert(scan_lines(st, Seq::<Seq<char>>::empty()) == st);
}

proof fn lemma_join_segs(c: Seq<char>)
    requires
        no_bare_cr_end(c),
    ensures
        join(segs(c)) == c + seq!['\n'],
    decreases c.len(),
{
    lemma_index_of_bounds(c, '\n');
    let i = nl_index(c);
    if i < c.len() {
        let c0 = c.subrange(0, i);
        let c1 = c.subrange(i + 1, c.len() as int);
        assert forall|k: int| 0 <= k < c1.len() && #[trigger] c1[k] == '\r' implies k + 1 < c1.len() && c1[k
            + 1] != '\n' by {
            assert(c1[k] == c[i + 1 + k]);
            assert(c[i + 1 + k + 1] == c1[k + 1]);
        }
        lemma_join_segs(c1);
        if c0.len() > 0 {
            assert(c0.last() == c[i - 1]);
        }
        assert(strip_cr(c0) == c0);
        lemma_join_cat(seq![c0], segs(c1));
        lemma_join_one(c0);
        assert(c =~= c0 + seq!['\n'] + c1);
        assert(join(segs(c)) =~= c + seq!['\n']);
    } else {
        if c.len() > 0 {
            assert(c.last() != '\r');
        }
        assert(strip_cr(c) == c);
        lemma_join_one(c);
    }
}

proof fn lemma_scan_cat(st: ScanState, a: Seq<Seq<char>>, b: Seq<Seq<char>>)
    ensures
        scan_lines(st, a + b) == scan_lines(scan_lines(st, a), b),
    decreases b.len(),
{
    if b.len() == 0 {
        assert(a + b =~= a);
    } else {
        lemma_scan_cat(st, a, b.drop_last());
        assert((a + b).drop_last() =~= a + b.drop_last());
    }
}

/// Lines that open no section leave a scan with no open section as it is.
proof fn lemma_scan_plain_closed(st: ScanState, ls: Seq<Seq<char>>)
    requires
        st.1 is None,
        forall|k: int| 0 <= k < ls.len() ==> !starts_with(#[trigger] ls[k], header_mark()),
    ensures
        scan_lines(st, ls) == st,
    decreases ls.len(),
{
    if ls.len() > 0 {
        lemma_scan_plain_closed(st, ls.drop_last());
    }
}

/// Lines that open no section join the open section's text.
proof fn lemma_scan_plain_open(st: ScanState, ls: Seq<Seq<char>>)
    requires
        st.1 is Some,
        forall|k: int| 0 <= k < ls.len() ==> !starts_with(#[trigger] ls[k], header_mark()),
    ensures
        scan_lines(st, ls) == (st.0, st.1, st.2 + join(ls)),
    decreases ls.len(),
{
    if ls.len() == 0 {
        assert(st.2 + join(ls) =~= st.2);
    } else {
        lemma_scan_plain_open(st, ls.drop_last());
        assert(st.2 + join(ls.drop_last()) + ls.last() + seq!['\n'] =~= st.2 + join(ls));
    }
}

proof fn lemma_trim_start_ws_prefix(w: Seq<char>, y: Seq<char>)
    requires
        all_ws(w),
    ensures
        trim_start(w + y) == trim_start(y),
    decreases w.len(),
{
    if w.len() > 0 {
        assert((w + y).drop_first() =~= w.drop_first() + y);
        lemma_trim_start_ws_prefix(w.drop_first(), y);
    } else {
        assert(w + y =~= y);
    }
}

proof fn lemma_trim_end_ws_suffix(y: Seq<char>, w: Seq<char>)
    requires
        all_ws(w),
    ensures
        trim_end(y + w) == trim_end(y),
    decreases w.len(),
{
    if w.len() > 0 {
        assert((y + w).drop_last() =~= y + w.drop_last());
        assert((y + w).last() == w.last());
        lemma_trim_end_ws_suffix(y, w.drop_last());
    } else {
        assert(y + w =~= y);
    }
}

proof fn lemma_trim_start_all_ws(w: Seq<char>)
    requires
        all_ws(w),
    ensures
        trim_start(w).len() == 0,
    decreases w.len(),
{
    if w.len() > 0 {
        lemma_trim_start_all_ws(w.drop_first());
    }
}

proof fn lemma_trim_start_suffix(c: Seq<char>, w: Seq<char>)
    requires
        all_ws(w),
    ensures
        trim_start(c).len() > 0 ==> trim_start(c + w) == trim_start(c) + w,
        trim_start(c).len() == 0 ==> trim_start(c + w).len() == 0,
    decreases c.len(),
{
    if c.len() == 0 {
        assert(c + w =~= w);
        lemma_trim_start_all_ws(w);
    } else if is_ws(c[0]) {
        assert((c + w).drop_first() =~= c.drop_first() + w);
        lemma_trim_start_suffix(c.drop_first(), w);
    } else {
    }
}

/// Whitespace around a text does not change it once trimmed.
proof fn lemma_trim_padded(w1: Seq<char>, c: Seq<char>, w2: Seq<char>)
    requires
        all_ws(w1),
        all_ws(w2),
    ensures
        trim(w1 + c + w2) == trim(c),
{
    assert(w1 + c + w2 =~= w1 + (c + w2));
    lemma_trim_start_ws_prefix(w1, c + w2);
    lemma_trim_start_suffix(c, w2);
    if trim_start(c).len() > 0 {
        lemma_trim_end_ws_suffix(trim_start(c), w2);
    } else {
        assert(trim_start(c + w2) =~= trim_start(c));
    }
}

/// A text with no whitespace at either end is its own trimmed form.
proof fn lemma_trim_fixed(s: Seq<char>)
    requires
        s.len() > 0,
        !is_ws(s[0]),
        !is_ws(s.last()),
    ensures
        trim(s) == s,
{
}

/// The lines of a section block.
pub open spec fn block_lines(name: Seq<char>, c: Option<String>) -> Seq<Seq<char>> {
    match c {
        Some(x) => if x@.len() > 0 {
            seq![header_mark() + name, Seq::empty()] + segs(x@) + seq![Seq::<char>::empty()]
        } else {
            Seq::empty()
        },
        None => Seq::empty(),
    }
}

/// A written section block reads back as its own lines, and the scan over
/// them records the section.
proof fn lemma_block(st: ScanState, name: Seq<char>, c: Option<String>, rest: Seq<char>)
    requires
        no_newline(name),
        name.len() > 0,
        !is_ws(name[0]),
        !is_ws(name.last()),
        content_safe(c),
        header_mark() + name == "## "@ + name,
    ensures
        lines(section_block(name, c) + rest) == block_lines(name, c) + lines(rest),
        close_section(scan_lines(st, block_lines(name, c))) == put(close_section(st), name, c),
{
    let e = Seq::<char>::empty();
    match c {
        Some(x) => {
            if x@.len() > 0 {
                reveal_strlit("## ");
                reveal_strlit("\n\n");
                let h = header_mark() + name;
                assert(section_block(name, c) + rest =~= h + seq!['\n'] + (e + seq!['\n'] + (x@
                    + seq!['\n'] + (e + seq!['\n'] + rest))));
                lemma_lines_cat(e, rest);
                lemma_lines_cat(x@, e + seq!['\n'] + rest);
                lemma_lines_cat(e, x@ + seq!['\n'] + (e + seq!['\n'] + rest));
                lemma_lines_cat(h, e + seq!['\n'] + (x@ + seq!['\n'] + (e + seq!['\n'] + rest)));
                assert forall|k: int| 0 <= k < h.len() implies h[k] != '\n' by {
                    if k >= 3 {
                        assert(h[k] == name[k - 3]);
                    }
                }
                lemma_segs_single(h);
                lemma_segs_single(e);
                assert(h.last() == name.last());
                assert(strip_cr(h) == h);
                assert(strip_cr(e) == e);
                assert(lines(section_block(name, c) + rest) =~= block_lines(name, c) + lines(rest));
                // the scan
                let b = block_lines(name, c);
                let l0 = seq![h] + seq![e];
                let body = segs(x@);
                assert(b =~= l0 + body + seq![e]);
                lemma_scan_cat(st, l0 + body, seq![e]);
                lemma_scan_cat(st, l0, body);
                lemma_scan_cat(st, seq![h], seq![e]);
                lemma_scan_one(st, h);
                assert(h.subrange(0, 3) =~= header_mark());
                assert(h.subrange(3, h.len() as int) =~= name);
                lemma_trim_fixed(name);
                let s1 = scan_step(st, h);
                assert(s1 == (close_section(st), Some(name), e));
                lemma_scan_one(s1, e);
                let s2 = scan_step(s1, e);
                assert(s2 == (close_section(st), Some(name), e + e + seq!['\n']));
                assert forall|k: int| 0 <= k < body.len() implies !starts_with(
                    #[trigger] body[k],
                    header_mark(),
                ) by {}
                lemma_scan_plain_open(s2, body);
                lemma_join_segs(x@);
                let s3 = scan_lines(s2, body);
                assert(s3.2 =~= seq!['\n'] + x@ + seq!['\n']);
                lemma_scan_one(s3, e);
                let s4 = scan_step(s3, e);
                assert(scan_lines(st, b) == s4);
                assert(s4.2 =~= seq!['\n'] + x@ + seq!['\n', '\n']);
                assert(all_ws(seq!['\n']));
                assert(all_ws(seq!['\n', '\n']));
                lemma_trim_padded(seq!['\n'], x@, seq!['\n', '\n']);
            } else {
                assert(section_block(name, c) + rest =~= rest);
                assert(block_lines(name, c) + lines(rest) =~= lines(rest));
            }
        },
        None => {
            assert(section_block(name, c) + rest =~= rest);
            assert(block_lines(name, c) + lines(rest) =~= lines(rest));
        },
    }
}

proof fn lemma_trim_end_prefix(s: Seq<char>)
    ensures
        trim_end(s).len() <= s.len(),
        trim_end(s) == s.subrange(0, trim_end(s).len() as int),
    decreases s.len(),
{
    if s.len() > 0 && is_ws(s.last()) {
        lemma_trim_end_prefix(s.drop_last());
        assert(s.drop_last().subrange(0, trim_end(s).len() as int) =~= s.subrange(
            0,
            trim_end(s).len() as int,
        ));
    } else {
        assert(s.subrange(0, s.len() as int) =~= s);
    }
}

/// A line that opens with a character other than whitespace or `-` is no
/// frontmatter delimiter, even once a carriage return is taken off its end.
proof fn lemma_not_delim(l: Seq<char>)
    requires
        l.len() >= 2,
        !is_ws(l[0]),
        l[0] != '-',
    ensures
        !is_delim(strip_cr(l)),
{
    let m = strip_cr(l);
    assert(m.len() >= 1 && m[0] == l[0]);
    assert(trim_start(m) == m);
    lemma_trim_end_prefix(m);
    if trim(m) == seq!['-', '-', '-'] {
        assert(trim(m)[0] == m[0]);
    }
}

proof fn lemma_prefixed_single(p: Seq<char>, v: Seq<char>)
    requires
        no_newline(p),
        no_newline(v),
    ensures
        no_newline(p + v),
{
    assert forall|k: int| 0 <= k < (p + v).len() implies (p + v)[k] != '\n' by {
        if k >= p.len() {
            assert((p + v)[k] == v[k - p.len()]);
        }
    }
}

/// The lines of the sections of an action's document.
pub open spec fn all_blocks(a: Action) -> Seq<Seq<char>> {
    block_lines("Notes"@, a.notes) + block_lines("Statement of Action"@, a.statement_of_action)
        + block_lines("Statement of Inputs"@, a.statement_of_inputs) + block_lines(
        "Statement of Design"@,
        a.statement_of_design,
    ) + block_lines("Analysis of Impact"@, a.analysis_of_impact)
}

/// The metadata lines of an action's document, delimiters included.
pub open spec fn meta_lines(a: Action) -> Seq<Seq<char>> {
    let delim = seq!['-', '-', '-'];
    seq![
        delim,
        strip_cr("id: "@ + uuid_text(a.id.value)),
        strip_cr("created_at: "@ + stamp_text(a.created_at)),
        strip_cr("updated_at: "@ + stamp_text(a.updated_at)),
        strip_cr("status: "@ + status_name(a.status)),
        strip_cr("priority: "@ + bool_text(a.priority)),
        delim,
    ]
}

/// The lines of an action's document before its sections, after the
/// metadata.
pub open spec fn head_lines(a: Action) -> Seq<Seq<char>> {
    let e = Seq::<char>::empty();
    seq![e] + segs(seq!['#', ' '] + a.title@) + seq![e] + segs(tag_line(a)) + seq![e]
}

/// A section title fit to stand in a header line.
pub open spec fn title_fit(n: Seq<char>) -> bool {
    &&& no_newline(n)
    &&& n.len() > 0
    &&& !is_ws(n[0])
    &&& !is_ws(n.last())
    &&& header_mark() + n == "## "@ + n
}

proof fn lemma_section_names()
    ensures
        title_fit("Notes"@),
        title_fit("Statement of Action"@),
        title_fit("Statement of Inputs"@),
        title_fit("Statement of Design"@),
        title_fit("Analysis of Impact"@),
{
    reveal_strlit("## ");
    assert(header_mark() =~= "## "@);
    reveal_strlit("Notes");
    reveal_strlit("Statement of Action");
    reveal_strlit("Statement of Inputs");
    reveal_strlit("Statement of Design");
    reveal_strlit("Analysis of Impact");
}

#[verifier::rlimit(100)]
proof fn lemma_sections_part(a: Action)
    requires
        round_trip_safe(a),
    ensures
        lines(sections_text(a)) == all_blocks(a),
        close_section(scan_lines(scan_init(), all_blocks(a))) == written_sections(a),
{
    lemma_section_names();
    let e = Seq::<char>::empty();
    let n1 = "Notes"@;
    let n2 = "Statement of Action"@;
    let n3 = "Statement of Inputs"@;
    let n4 = "Statement of Design"@;
    let n5 = "Analysis of Impact"@;
    let s1 = section_block(n1, a.notes);
    let s2 = section_block(n2, a.statement_of_action);
    let s3 = section_block(n3, a.statement_of_inputs);
    let s4 = section_block(n4, a.statement_of_design);
    let s5 = section_block(n5, a.analysis_of_impact);
    let b1 = block_lines(n1, a.notes);
    let b2 = block_lines(n2, a.statement_of_action);
    let b3 = block_lines(n3, a.statement_of_inputs);
    let b4 = block_lines(n4, a.statement_of_design);
    let b5 = block_lines(n5, a.analysis_of_impact);
    let st0 = scan_init();
    lemma_block(st0, n5, a.analysis_of_impact, e);
    lemma_block(st0, n4, a.statement_of_design, s5);
    lemma_block(st0, n3, a.statement_of_inputs, s4 + s5);
    lemma_block(st0, n2, a.statement_of_action, s3 + s4 + s5);
    lemma_block(st0, n1, a.notes, s2 + s3 + s4 + s5);
    assert(lines(e) == Seq::<Seq<char>>::empty());
    assert(sections_text(a) =~= s1 + (s2 + (s3 + (s4 + (s5 + e)))));
    assert(s4 + (s5 + e) =~= s4 + s5);
    assert(s3 + (s4 + s5) =~= s3 + s4 + s5);
    assert(s2 + (s3 + s4 + s5) =~= s2 + s3 + s4 + s5);
    assert(lines(sections_text(a)) =~= all_blocks(a));
    let t1 = scan_lines(st0, b1);
    let t2 = scan_lines(t1, b2);
    let t3 = scan_lines(t2, b3);
    let t4 = scan_lines(t3, b4);
    lemma_block(t1, n2, a.statement_of_action, e);
    lemma_block(t2, n3, a.statement_of_inputs, e);
    lemma_block(t3, n4, a.statement_of_design, e);
    lemma_block(t4, n5, a.analysis_of_impact, e);
    lemma_scan_cat(st0, b1 + b2 + b3 + b4, b5);
    lemma_scan_cat(st0, b1 + b2 + b3, b4);
    lemma_scan_cat(st0, b1 + b2, b3);
    lemma_scan_cat(st0, b1, b2);
    assert(close_section(st0) =~= Map::<Seq<char>, Seq<char>>::empty());
}

/// The document of an action as its lines joined by line feeds.
pub open spec fn render_shape(a: Action) -> Seq<char> {
    let e = Seq::<char>::empty();
    let nl = seq!['\n'];
    let delim = seq!['-', '-', '-'];
    let id_line = "id: "@ + uuid_text(a.id.value);
    let created_line = "created_at: "@ + stamp_text(a.created_at);
    let updated_line = "updated_at: "@ + stamp_text(a.updated_at);
    let status_line = "status: "@ + status_name(a.status);
    let priority_line = "priority: "@ + bool_text(a.priority);
    let title_line = seq!['#', ' '] + a.title@;
    let tail = e + nl + (title_line + nl + (e + nl + (tag_line(a) + nl + (e + nl + sections_text(a)))));
    delim + nl + (id_line + nl + (created_line + nl + (updated_line + nl + (status_line + nl + (priority_line + nl + (delim + nl + tail))))))
}

#[verifier::rlimit(100)]
proof fn lemma_render_shape(a: Action)
    ensures
        render(a) == render_shape(a),
        no_newline("id: "@),
        no_newline("created_at: "@),
        no_newline("updated_at: "@),
        no_newline("status: "@),
        no_newline("priority: "@),
        no_newline(status_name(a.status)),
        no_newline(bool_text(a.priority)),
{
    reveal_strlit("---\n");
    reveal_strlit("id: ");
    reveal_strlit("\n");
    reveal_strlit("created_at: ");
    reveal_strlit("updated_at: ");
    reveal_strlit("status: ");
    reveal_strlit("priority: ");
    reveal_strlit("---\n\n");
    reveal_strlit("# ");
    reveal_strlit("\n\n");
    reveal_strlit("true");
    reveal_strlit("false");
    assert(render(a) =~= render_shape(a));
}

#[verifier::rlimit(100)]
proof fn lemma_render_lines(a: Action)
    requires
        round_trip_safe(a),
    ensures
        lines(render(a)) == meta_lines(a) + head_lines(a) + lines(sections_text(a)),
{
    lemma_render_shape(a);
    crate::stamp::lemma_uuid_text_single_line(a.id.value);
    let e = Seq::<char>::empty();
    let nl = seq!['\n'];
    let x = uuid_text(a.id.value);
    let delim = seq!['-', '-', '-'];
    let id_line = "id: "@ + x;
    let created_line = "created_at: "@ + stamp_text(a.created_at);
    let updated_line = "updated_at: "@ + stamp_text(a.updated_at);
    let status_line = "status: "@ + status_name(a.status);
    let priority_line = "priority: "@ + bool_text(a.priority);
    let title_line = seq!['#', ' '] + a.title@;
    let tags = tag_line(a);
    let body = sections_text(a);
    let tail = e + nl + (title_line + nl + (e + nl + (tags + nl + (e + nl + body))));
    lemma_lines_cat(e, body);
    lemma_lines_cat(tags, e + nl + body);
    lemma_lines_cat(e, tags + nl + (e + nl + body));
    lemma_lines_cat(title_line, e + nl + (tags + nl + (e + nl + body)));
    lemma_lines_cat(e, title_line + nl + (e + nl + (tags + nl + (e + nl + body))));
    lemma_segs_single(e);
    assert(lines(tail) =~= head_lines(a) + lines(body));
    lemma_lines_cat(delim, tail);
    lemma_lines_cat(priority_line, delim + nl + tail);
    lemma_lines_cat(status_line, priority_line + nl + (delim + nl + tail));
    lemma_lines_cat(updated_line, status_line + nl + (priority_line + nl + (delim + nl + tail)));
    lemma_lines_cat(created_line, updated_line + nl + (status_line + nl + (priority_line + nl + (delim + nl + tail))));
    lemma_lines_cat(id_line, created_line + nl + (updated_line + nl + (status_line + nl + (priority_line + nl + (delim + nl + tail)))));
    lemma_lines_cat(delim, id_line + nl + (created_line + nl + (updated_line + nl + (status_line + nl + (priority_line + nl + (delim + nl + tail))))));
    lemma_prefixed_single("id: "@, x);
    lemma_prefixed_single("created_at: "@, stamp_text(a.created_at));
    lemma_prefixed_single("updated_at: "@, stamp_text(a.updated_at));
    lemma_prefixed_single("status: "@, status_name(a.status));
    lemma_prefixed_single("priority: "@, bool_text(a.priority));
    lemma_segs_single(delim);
    lemma_segs_single(id_line);
    lemma_segs_single(created_line);
    lemma_segs_single(updated_line);
    lemma_segs_single(status_line);
    lemma_segs_single(priority_line);
    assert(strip_cr(delim) == delim);
    assert(lines(render(a)) =~= meta_lines(a) + head_lines(a) + lines(body));
}

/// Facts on the metadata lines: the block opens and closes with a
/// delimiter and holds none between.
proof fn lemma_meta_delims(a: Action, ls: Seq<Seq<char>>)
    requires
        ls.len() >= 7,
        ls.subrange(0, 7) == meta_lines(a),
    ensures
        has_front(ls),
        delim_from(ls, 1) == 6,
        body_start(ls) == 7,
{
    reveal_strlit("id: ");
    reveal_strlit("created_at: ");
    reveal_strlit("updated_at: ");
    reveal_strlit("status: ");
    reveal_strlit("priority: ");
    let delim = seq!['-', '-', '-'];
    let m = meta_lines(a);
    assert forall|k: int| 0 <= k < 7 implies ls[k] == m[k] by {
        assert(ls.subrange(0, 7)[k] == ls[k]);
    }
    assert(trim_start(delim) == delim);
    assert(trim_end(delim) == delim);
    assert(is_delim(delim));
    lemma_not_delim("id: "@ + uuid_text(a.id.value));
    lemma_not_delim("created_at: "@ + stamp_text(a.created_at));
    lemma_not_delim("updated_at: "@ + stamp_text(a.updated_at));
    lemma_not_delim("status: "@ + status_name(a.status));
    lemma_not_delim("priority: "@ + bool_text(a.priority));
    assert(delim_from(ls, 6) == 6);
    assert(delim_from(ls, 5) == 6);
    assert(delim_from(ls, 4) == 6);
    assert(delim_from(ls, 3) == 6);
    assert(delim_from(ls, 2) == 6);
    assert(delim_from(ls, 1) == 6);
}

/// Reading back the document written for an action gives exactly the
/// action's sections that have content, each trimmed, under their titles,
/// and no other section, wherever the document reads back unambiguously.
pub proof fn lemma_sections_round_trip(a: Action)
    requires
        round_trip_safe(a),
    ensures
        parse_sections(render(a)) == written_sections(a),
{
    lemma_sections_part(a);
    lemma_render_lines(a);
    let ls = lines(render(a));
    let bs = all_blocks(a);
    let front = head_lines(a);
    assert(ls.subrange(0, 7) =~= meta_lines(a));
    lemma_meta_delims(a, ls);
    assert(ls.subrange(7, ls.len() as int) =~= front + bs);
    let e = Seq::<char>::empty();
    let title_line = seq!['#', ' '] + a.title@;
    let tags = tag_line(a);
    assert(!starts_with(e, header_mark()));
    assert forall|k: int| 0 <= k < front.len() implies !starts_with(
        #[trigger] front[k],
        header_mark(),
    ) by {
        let n_title = segs(title_line).len() as int;
        let n_tags = segs(tags).len() as int;
        if k == 0 {
        } else if k < 1 + n_title {
            assert(front[k] == segs(title_line)[k - 1]);
        } else if k == 1 + n_title {
        } else if k < 2 + n_title + n_tags {
            assert(front[k] == segs(tags)[k - 2 - n_title]);
        } else {
        }
    }
    lemma_scan_plain_closed(scan_init(), front);
    lemma_scan_cat(scan_init(), front, bs);
}

/// A metadata line `key: value` with both parts free of surrounding
/// whitespace records the value under the key.
proof fn lemma_meta_line(m: Map<Seq<char>, Seq<char>>, k: Seq<char>, v: Seq<char>)
    requires
        k.len() > 0,
        !is_ws(k[0]),
        !is_ws(k.last()),
        forall|i: int| 0 <= i < k.len() ==> k[i] != ':',
        v.len() > 0,
        !is_ws(v[0]),
        !is_ws(v.last()),
    ensures
        meta_step(m, strip_cr(k + seq![':', ' '] + v)) == m.insert(k, v),
{
    let l = k + seq![':', ' '] + v;
    assert(l.last() == v.last());
    assert(strip_cr(l) == l);
    assert(l[0] == k[0]);
    lemma_trim_fixed(l);
    assert forall|i: int| 0 <= i < k.len() implies l[i] != ':' by {
        assert(l[i] == k[i]);
    }
    lemma_index_of_at(l, ':', k.len() as int);
    assert(l.subrange(0, k.len() as int) =~= k);
    lemma_trim_fixed(k);
    assert(l.subrange(k.len() as int + 1, l.len() as int) =~= seq![' '] + v + Seq::<char>::empty());
    assert(all_ws(seq![' ']));
    assert(all_ws(Seq::<char>::empty()));
    lemma_trim_padded(seq![' '], v, Seq::<char>::empty());
    lemma_trim_fixed(v);
}

proof fn lemma_meta_keys(a: Action)
    ensures
        "status: "@ == seq!['s', 't', 'a', 't', 'u', 's'] + seq![':', ' '],
        "priority: "@ == seq!['p', 'r', 'i', 'o', 'r', 'i', 't', 'y'] + seq![':', ' '],
        "status"@ == seq!['s', 't', 'a', 't', 'u', 's'],
        "priority"@ == seq!['p', 'r', 'i', 'o', 'r', 'i', 't', 'y'],
        "true"@ == seq!['t', 'r', 'u', 'e'],
        "false"@ == seq!['f', 'a', 'l', 's', 'e'],
        bool_text(a.priority).len() > 0,
        !is_ws(bool_text(a.priority)[0]),
        !is_ws(bool_text(a.priority).last()),
        status_name(a.status).len() > 0,
        !is_ws(status_name(a.status)[0]),
        !is_ws(status_name(a.status).last()),
        ascii_lower(bool_text(a.priority)) == "true"@ <==> a.priority,
{
    reveal_strlit("status: ");
    reveal_strlit("priority: ");
    reveal_strlit("status");
    reveal_strlit("priority");
    reveal_strlit("true");
    reveal_strlit("false");
    assert("status: "@ =~= seq!['s', 't', 'a', 't', 'u', 's'] + seq![':', ' ']);
    assert("priority: "@ =~= seq!['p', 'r', 'i', 'o', 'r', 'i', 't', 'y'] + seq![':', ' ']);
    assert("status"@ =~= seq!['s', 't', 'a', 't', 'u', 's']);
    assert("priority"@ =~= seq!['p', 'r', 'i', 'o', 'r', 'i', 't', 'y']);
    assert("true"@ =~= seq!['t', 'r', 'u', 'e']);
    assert("false"@ =~= seq!['f', 'a', 'l', 's', 'e']);
    assert(ascii_lower("true"@) =~= "true"@);
    assert(ascii_lower("false"@) =~= "false"@);
    if !a.priority {
        assert("false"@ != "true"@) by {
            assert("false"@.len() != "true"@.len());
        }
    }
}

/// Reading back the metadata of the document written for an action gives
/// its stage and its priority flag, wherever the document reads back
/// unambiguously.
pub proof fn lemma_metadata_round_trip(a: Action)
    requires
        round_trip_safe(a),
    ensures
        meta_status(parse_meta(render(a))) == a.status,
        meta_priority(parse_meta(render(a))) == a.priority,
{
    lemma_render_lines(a);
    let ls = lines(render(a));
    assert(ls.subrange(0, 7) =~= meta_lines(a));
    lemma_meta_delims(a, ls);
    lemma_meta_keys(a);
    let fl = ls.subrange(1, 6);
    assert(front_lines(ls) == fl);
    let ks = seq!['s', 't', 'a', 't', 'u', 's'];
    let kp = seq!['p', 'r', 'i', 'o', 'r', 'i', 't', 'y'];
    assert(fl[3] == strip_cr(ks + seq![':', ' '] + status_name(a.status)));
    assert(fl[4] == strip_cr(kp + seq![':', ' '] + bool_text(a.priority)));
    assert(fl.drop_last() =~= ls.subrange(1, 5));
    assert(fl.drop_last().drop_last() =~= ls.subrange(1, 4));
    let m3 = meta_scan(ls.subrange(1, 4));
    lemma_meta_line(m3, ks, status_name(a.status));
    let m4 = m3.insert(ks, status_name(a.status));
    lemma_meta_line(m4, kp, bool_text(a.priority));
    let m5 = m4.insert(kp, bool_text(a.priority));
    let l5 = ls.subrange(1, 5);
    assert(l5.drop_last() =~= ls.subrange(1, 4));
    assert(l5.last() == fl[3]);
    assert(meta_scan(l5) == m4);
    assert(fl.last() == fl[4]);
    assert(meta_scan(fl) == m5);
    assert(ks != kp);
    assert(entry(m5, "status"@) == Some(status_name(a.status)));
    assert(entry(m5, "priority"@) == Some(bool_text(a.priority)));
    crate::status::lemma_parse_inverts_name(a.status, Seq::empty());
}

} // verus!
