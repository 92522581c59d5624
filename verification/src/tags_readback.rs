//! Reading back the tags written into a domain definition: the metadata that
//! `with_tags` writes holds exactly the tags it was given, as `tags_of` reads them.
use crate::domain::join_lines;
use crate::tags::{
    law_added_tags_are_kept, merged_tags, metadata_closed, metadata_xml, tag_line, tags_in, tags_of, with_tags,
};
use crate::text::{
    contains, find, find_from, lemma_find_from_props, lemma_find_from_shift, lemma_find_from_suffix, occurs_at,
    replace_all,
};
use vstd::prelude::*;

verus! {

/// The characters after the tag lines of the metadata element.
pub open spec fn metadata_tail() -> Seq<char> {
    "\n  </kvm:tags>\n</metadata>"@
}

/// Each tag on a line of its own, every line after a line break.
pub open spec fn tag_lines_after(ts: Seq<Seq<char>>) -> Seq<char>
    decreases ts.len(),
{
    if ts.len() == 0 {
        Seq::empty()
    } else {
        "\n"@ + tag_line(ts[0]) + tag_lines_after(ts.drop_first())
    }
}

/// A tag that can be written and read back: it holds neither a closing tag element nor a
/// closing metadata element.
pub open spec fn tag_writable(t: Seq<char>) -> bool {
    !contains(t, "</kvm:tag>"@) && !contains(t, "</metadata>"@)
}

/// Searching from `from` finds the same as searching from `q` when no position in
/// between starts with the pair of characters that `p` has at offset `k`.
proof fn lemma_skip_by_pair(c: Seq<char>, p: Seq<char>, from: int, q: int, k: int)
    requires
        0 <= from <= q,
        0 <= k,
        k + 1 < p.len(),
        forall|i: int| from + k <= i < q + k && i - k + p.len() <= c.len() ==> !(#[trigger] c[i] == p[k] && c[i + 1] == p[k + 1]),
    ensures
        find_from(c, p, from) == find_from(c, p, q),
{
    assert forall|j: int| from <= j < q implies !occurs_at(c, p, j) by {
        if occurs_at(c, p, j) {
            assert(c[j + k] == c.subrange(j, j + p.len())[k]);
            assert(c[j + k + 1] == c.subrange(j, j + p.len())[k + 1]);
            assert(c.subrange(j, j + p.len())[k] == p[k]);
            assert(c.subrange(j, j + p.len())[k + 1] == p[k + 1]);
        }
    }
    lemma_find_from_shift(c, p, from, q);
}

/// `p` is found where it occurs.
proof fn lemma_found_here(c: Seq<char>, p: Seq<char>, q: int)
    requires
        occurs_at(c, p, q),
    ensures
        find_from(c, p, q) == Some(q),
{
}

/// Searching `a + b` past `a`, which holds no occurrence from `from` on and none that
/// reaches into `b`, is searching `b`.
proof fn lemma_find_past(a: Seq<char>, b: Seq<char>, p: Seq<char>, from: int)
    requires
        0 <= from <= a.len(),
        p.len() > 0,
        find_from(a, p, from) is None,
        b.len() > 0 ==> forall|k: int| 1 <= k < p.len() ==> p[k] != b[0],
    ensures
        find_from(a + b, p, from) == match find_from(b, p, 0) {
            Some(i) => Some(i + a.len()),
            None => None,
        },
{
    let c = a + b;
    lemma_find_from_props(a, p, from);
    assert forall|j: int| from <= j < a.len() implies !occurs_at(c, p, j) by {
        if occurs_at(c, p, j) {
            if j + p.len() <= a.len() {
                assert(c.subrange(j, j + p.len()) =~= a.subrange(j, j + p.len()));
                assert(occurs_at(a, p, j));
            } else {
                let k = a.len() - j;
                assert(c.subrange(j, j + p.len())[k] == c[a.len() as int]);
                assert(c[a.len() as int] == b[0]);
            }
        }
    }
    lemma_find_from_shift(c, p, from, a.len() as int);
    lemma_find_from_suffix(c, p, a.len() as int, 0);
    assert(c.subrange(a.len() as int, c.len() as int) =~= b);
}

/// The tag lines, one more tag at the end.
proof fn lemma_tag_lines_push(a: Seq<Seq<char>>, x: Seq<char>)
    ensures
        tag_lines_after(a.push(x)) == tag_lines_after(a) + "\n"@ + tag_line(x),
    decreases a.len(),
{
    if a.len() == 0 {
        let e = Seq::<Seq<char>>::empty();
        assert(a.push(x).drop_first() =~= e);
        assert(tag_lines_after(e) == Seq::<char>::empty());
        assert(a.push(x)[0] == x);
        assert(tag_lines_after(a.push(x)) == "\n"@ + tag_line(x) + tag_lines_after(e));
        assert(tag_lines_after(a.push(x)) =~= tag_lines_after(a) + "\n"@ + tag_line(x));
    } else {
        lemma_tag_lines_push(a.drop_first(), x);
        assert(a.push(x).drop_first() =~= a.drop_first().push(x));
        assert(tag_lines_after(a.push(x)) =~= tag_lines_after(a) + "\n"@ + tag_line(x));
    }
}

/// The joined tag lines, after a line break, are the tag lines.
proof fn lemma_join_tag_lines(ts: Seq<Seq<char>>)
    requires
        ts.len() >= 1,
    ensures
        "\n"@ + join_lines(ts.map_values(|t: Seq<char>| tag_line(t))) == tag_lines_after(ts),
    decreases ts.len(),
{
    let lines = ts.map_values(|t: Seq<char>| tag_line(t));
    if ts.len() == 1 {
        let e = Seq::<Seq<char>>::empty();
        assert(ts.drop_first() =~= e);
        assert(tag_lines_after(e) == Seq::<char>::empty());
        assert(tag_lines_after(ts) == "\n"@ + tag_line(ts[0]) + tag_lines_after(e));
        assert(lines[0] == tag_line(ts[0]));
        assert(tag_lines_after(ts) =~= "\n"@ + tag_line(ts[0]));
    } else {
        let init = ts.drop_last();
        lemma_join_tag_lines(init);
        assert(lines.drop_last() =~= init.map_values(|t: Seq<char>| tag_line(t)));
        lemma_tag_lines_push(init, ts.last());
        assert(init.push(ts.last()) =~= ts);
        assert("\n"@ + join_lines(lines) =~= ("\n"@ + join_lines(lines.drop_last())) + "\n"@ + lines.last());
    }
}

/// The characters of the metadata element from its opening tag to the line break before
/// the tag lines.
pub open spec fn metadata_head() -> Seq<char> {
    "<metadata>\n  <kvm:tags xmlns:kvm=\"http://kvm-manager.local/metadata\">"@
}

/// The rest of the metadata element after its head: the tag lines and the closing tags.
pub open spec fn metadata_body(ts: Seq<Seq<char>>) -> Seq<char> {
    if ts.len() == 0 {
        "\n"@ + metadata_tail()
    } else {
        tag_lines_after(ts) + metadata_tail()
    }
}

/// The metadata element, indented, is its head and its body.
proof fn lemma_metadata_parts(ts: Seq<Seq<char>>)
    ensures
        metadata_xml(ts) == "  "@ + metadata_head() + metadata_body(ts),
{
    let lit = "  <metadata>\n  <kvm:tags xmlns:kvm=\"http://kvm-manager.local/metadata\">\n"@;
    reveal_strlit("  <metadata>\n  <kvm:tags xmlns:kvm=\"http://kvm-manager.local/metadata\">\n");
    reveal_strlit("<metadata>\n  <kvm:tags xmlns:kvm=\"http://kvm-manager.local/metadata\">");
    reveal_strlit("  ");
    reveal_strlit("\n");
    assert(lit =~= "  "@ + metadata_head() + "\n"@);
    let lines = ts.map_values(|t: Seq<char>| tag_line(t));
    if ts.len() == 0 {
        assert(lines =~= Seq::<Seq<char>>::empty());
        assert(join_lines(lines) =~= Seq::<char>::empty());
        assert(metadata_xml(ts) =~= "  "@ + metadata_head() + metadata_body(ts));
    } else {
        lemma_join_tag_lines(ts);
        assert(metadata_xml(ts) =~= "  "@ + metadata_head() + metadata_body(ts));
    }
}

/// Reading tags from `pos` on is reading them from the text that starts there.
proof fn lemma_tags_in_suffix(s: Seq<char>, pos: int)
    requires
        0 <= pos <= s.len(),
    ensures
        tags_in(s, pos) == tags_in(s.subrange(pos, s.len() as int), 0),
    decreases s.len() - pos,
{
    let s2 = s.subrange(pos, s.len() as int);
    let open = "<kvm:tag>"@;
    let close = "</kvm:tag>"@;
    lemma_find_from_suffix(s, open, pos, 0);
    lemma_find_from_props(s, open, pos);
    match find_from(s, open, pos) {
        Some(t) => {
            lemma_find_from_suffix(s, close, pos, t - pos + 9);
            lemma_find_from_props(s, close, t + 9);
            match find_from(s, close, t + 9) {
                Some(e) => {
                    if e + 10 <= s.len() {
                        assert(s2.subrange(t - pos + 9, e - pos) =~= s.subrange(t + 9, e));
                        lemma_tags_in_suffix(s, e + 10);
                        lemma_tags_in_suffix(s2, e + 10 - pos);
                        assert(s2.subrange(e + 10 - pos, s2.len() as int) =~= s.subrange(e + 10, s.len() as int));
                    }
                },
                None => {},
            }
        },
        None => {},
    }
}

/// Reading tags from `pos` or from `q` is the same when the next opening tag is the same.
proof fn lemma_tags_in_skip(s: Seq<char>, pos: int, q: int)
    requires
        0 <= pos <= q,
        find_from(s, "<kvm:tag>"@, pos) == find_from(s, "<kvm:tag>"@, q),
    ensures
        tags_in(s, pos) == tags_in(s, q),
{
    lemma_find_from_props(s, "<kvm:tag>"@, q);
    match find_from(s, "<kvm:tag>"@, q) {
        Some(t) => {
            lemma_find_from_props(s, "</kvm:tag>"@, t + 9);
        },
        None => {},
    }
}

/// The tag lines and closing tags start with a line break.
proof fn lemma_rest_starts(r: Seq<Seq<char>>, post: Seq<char>)
    ensures
        (tag_lines_after(r) + metadata_tail() + post).len() > 0,
        (tag_lines_after(r) + metadata_tail() + post)[0] == '\n',
{
    reveal_strlit("\n  </kvm:tags>\n</metadata>");
    reveal_strlit("\n");
    if r.len() > 0 {
        assert(tag_lines_after(r)[0] == '\n');
    } else {
        assert(tag_lines_after(r) =~= Seq::<char>::empty());
    }
}

/// The closing tags end with the first closing metadata element.
proof fn lemma_tail_closes(post: Seq<char>)
    ensures
        find_from(metadata_tail() + post, "</metadata>"@, 0) == Some(15int),
{
    reveal_strlit("\n  </kvm:tags>\n</metadata>");
    reveal_strlit("</metadata>");
    let c = metadata_tail() + post;
    let p = "</metadata>"@;
    assert forall|i: int| 1 <= i < 16 && i - 1 + p.len() <= c.len() implies !(#[trigger] c[i] == p[1] && c[i + 1]
        == p[2]) by {
        assert(c[i] == metadata_tail()[i]);
        assert(c[i + 1] == metadata_tail()[i + 1]);
    }
    lemma_skip_by_pair(c, p, 0, 15, 1);
    assert(c.subrange(15, 26) =~= p);
    lemma_found_here(c, p, 15);
}

/// The first closing metadata element after the tag lines is the one of the closing tags.
proof fn lemma_lines_close(ts: Seq<Seq<char>>, post: Seq<char>)
    requires
        forall|i: int| 0 <= i < ts.len() ==> tag_writable(#[trigger] ts[i]),
    ensures
        find_from(tag_lines_after(ts) + metadata_tail() + post, "</metadata>"@, 0) == Some(
            tag_lines_after(ts).len() as int + 15,
        ),
    decreases ts.len(),
{
    let qm = "</metadata>"@;
    if ts.len() == 0 {
        assert(tag_lines_after(ts) =~= Seq::<char>::empty());
        assert(tag_lines_after(ts) + metadata_tail() + post =~= metadata_tail() + post);
        lemma_tail_closes(post);
    } else {
        reveal_strlit("</metadata>");
        reveal_strlit("</kvm:tag>");
        reveal_strlit("    <kvm:tag>");
        reveal_strlit("\n");
        let t0 = ts[0];
        let rest = ts.drop_first();
        assert forall|i: int| 0 <= i < rest.len() implies tag_writable(#[trigger] rest[i]) by {
            assert(rest[i] == ts[i + 1]);
        }
        lemma_lines_close(rest, post);
        lemma_rest_starts(rest, post);
        let x = tag_lines_after(rest) + metadata_tail() + post;
        let q1 = "</kvm:tag>"@;
        let lead = "\n"@ + "    <kvm:tag>"@;
        let c = lead + (t0 + (q1 + x));
        assert(tag_lines_after(ts) + metadata_tail() + post =~= c);
        assert forall|i: int| 0 <= i < 14 && i + qm.len() <= c.len() implies !(#[trigger] c[i] == qm[0] && c[i + 1]
            == qm[1]) by {
            assert(c[i] == lead[i]);
            if i < 13 {
                assert(c[i + 1] == lead[i + 1]);
            }
        }
        lemma_skip_by_pair(c, qm, 0, 14, 0);
        lemma_find_from_suffix(c, qm, 14, 0);
        assert(c.subrange(14, c.len() as int) =~= t0 + (q1 + x));
        assert(find_from(t0, qm, 0) is None);
        lemma_find_past(t0, q1 + x, qm, 0);
        let y = q1 + x;
        assert forall|i: int| 1 <= i < 11 && i - 1 + qm.len() <= y.len() implies !(#[trigger] y[i] == qm[1] && y[i + 1]
            == qm[2]) by {
            if i < 10 {
                assert(y[i] == q1[i]);
                if i < 9 {
                    assert(y[i + 1] == q1[i + 1]);
                }
            } else {
                assert(y[i] == x[0]);
            }
        }
        lemma_skip_by_pair(y, qm, 0, 10, 1);
        lemma_find_from_suffix(y, qm, 10, 0);
        assert(y.subrange(10, y.len() as int) =~= x);
    }
}

/// The first closing metadata element after a body is the body's last one.
proof fn lemma_body_closes(ts: Seq<Seq<char>>, post: Seq<char>)
    requires
        forall|i: int| 0 <= i < ts.len() ==> tag_writable(#[trigger] ts[i]),
    ensures
        find_from(metadata_body(ts) + post, "</metadata>"@, 0) == Some(metadata_body(ts).len() - 11),
{
    reveal_strlit("\n  </kvm:tags>\n</metadata>");
    if ts.len() == 0 {
        reveal_strlit("\n");
        reveal_strlit("</metadata>");
        let c = metadata_body(ts) + post;
        let qm = "</metadata>"@;
        assert(c =~= "\n"@ + (metadata_tail() + post));
        assert forall|i: int| 0 <= i < 1 && i + qm.len() <= c.len() implies !(#[trigger] c[i] == qm[0] && c[i + 1]
            == qm[1]) by {
            assert(c[0] == '\n');
        }
        lemma_skip_by_pair(c, qm, 0, 1, 0);
        lemma_find_from_suffix(c, qm, 1, 0);
        assert(c.subrange(1, c.len() as int) =~= metadata_tail() + post);
        lemma_tail_closes(post);
    } else {
        lemma_lines_close(ts, post);
    }
}

/// The closing tags hold no tag.
proof fn lemma_tail_has_no_tag(lead: Seq<char>)
    requires
        lead == Seq::<char>::empty() || lead == "\n"@,
    ensures
        tags_in(lead + metadata_tail(), 0) == Seq::<Seq<char>>::empty(),
{
    reveal_strlit("\n  </kvm:tags>\n</metadata>");
    reveal_strlit("<kvm:tag>");
    reveal_strlit("\n");
    let c = lead + metadata_tail();
    let p = "<kvm:tag>"@;
    let q = c.len() - 8;
    assert forall|i: int| 7 <= i < q + 7 && i - 7 + p.len() <= c.len() implies !(#[trigger] c[i] == p[7] && c[i + 1]
        == p[8]) by {
        assert(c[i] == metadata_tail()[i - lead.len()]);
    }
    lemma_skip_by_pair(c, p, 0, q, 7);
    assert(find_from(c, p, q) is None);
}

/// The tag lines, followed by the closing tags, hold exactly their tags.
proof fn lemma_lines_read(ts: Seq<Seq<char>>)
    requires
        forall|i: int| 0 <= i < ts.len() ==> tag_writable(#[trigger] ts[i]),
    ensures
        tags_in(tag_lines_after(ts) + metadata_tail(), 0) == ts,
    decreases ts.len(),
{
    if ts.len() == 0 {
        assert(tag_lines_after(ts) =~= Seq::<char>::empty());
        assert(tag_lines_after(ts) + metadata_tail() =~= Seq::<char>::empty() + metadata_tail());
        lemma_tail_has_no_tag(Seq::<char>::empty());
        assert(ts =~= Seq::<Seq<char>>::empty());
    } else {
        reveal_strlit("<kvm:tag>");
        reveal_strlit("</kvm:tag>");
        reveal_strlit("    <kvm:tag>");
        reveal_strlit("\n");
        let t0 = ts[0];
        let rest = ts.drop_first();
        assert forall|i: int| 0 <= i < rest.len() implies tag_writable(#[trigger] rest[i]) by {
            assert(rest[i] == ts[i + 1]);
        }
        lemma_lines_read(rest);
        let x = tag_lines_after(rest) + metadata_tail();
        let open = "<kvm:tag>"@;
        let q1 = "</kvm:tag>"@;
        let lead = "\n"@ + "    <kvm:tag>"@;
        let c = lead + (t0 + (q1 + x));
        assert(tag_lines_after(ts) + metadata_tail() =~= c);
        assert forall|i: int| 0 <= i < 5 && i + open.len() <= c.len() implies !(#[trigger] c[i] == open[0] && c[i + 1]
            == open[1]) by {
            assert(c[i] == lead[i]);
        }
        lemma_skip_by_pair(c, open, 0, 5, 0);
        assert(c.subrange(5, 14) =~= open);
        lemma_found_here(c, open, 5);
        lemma_find_from_suffix(c, q1, 14, 0);
        assert(c.subrange(14, c.len() as int) =~= t0 + (q1 + x));
        assert(find_from(t0, q1, 0) is None);
        lemma_find_past(t0, q1 + x, q1, 0);
        assert((q1 + x).subrange(0, 10) =~= q1);
        lemma_found_here(q1 + x, q1, 0);
        let e: int = 14 + t0.len() as int;
        assert(find_from(c, q1, 14) == Some(e));
        assert(c.subrange(14, e) =~= t0);
        lemma_tags_in_suffix(c, e + 10);
        assert(c.subrange(e + 10, c.len() as int) =~= x);
        assert(tags_in(c, 0) == seq![t0] + tags_in(c, e + 10));
        assert(seq![t0] + rest =~= ts);
    }
}

/// A body holds exactly its tags.
proof fn lemma_body_read(ts: Seq<Seq<char>>)
    requires
        forall|i: int| 0 <= i < ts.len() ==> tag_writable(#[trigger] ts[i]),
    ensures
        tags_in(metadata_body(ts), 0) == ts,
{
    if ts.len() == 0 {
        reveal_strlit("\n");
        lemma_tail_has_no_tag("\n"@);
        assert(ts =~= Seq::<Seq<char>>::empty());
    } else {
        lemma_lines_read(ts);
    }
}

/// A prefix that ends before the first occurrence holds none.
proof fn lemma_prefix_has_none(s: Seq<char>, p: Seq<char>, n: int)
    requires
        0 <= n <= s.len(),
        p.len() > 0,
        match find_from(s, p, 0) {
            Some(i) => n <= i,
            None => true,
        },
    ensures
        find_from(s.subrange(0, n), p, 0) is None,
{
    let a = s.subrange(0, n);
    lemma_find_from_props(s, p, 0);
    lemma_find_from_props(a, p, 0);
    if let Some(j) = find_from(a, p, 0) {
        assert(s.subrange(j, j + p.len()) =~= a.subrange(j, j + p.len()));
        assert(occurs_at(s, p, j));
    }
}

proof fn lemma_body_starts(ts: Seq<Seq<char>>)
    ensures
        metadata_body(ts).len() > 0,
        metadata_body(ts)[0] == '\n',
{
    reveal_strlit("\n");
    if ts.len() > 0 {
        lemma_rest_starts(ts, Seq::<char>::empty());
        assert(tag_lines_after(ts) + metadata_tail() + Seq::<char>::empty() =~= metadata_body(ts));
    }
}

/// The metadata element written after a text without one is the one read back, with its
/// tags.
proof fn lemma_read_back(pre: Seq<char>, post: Seq<char>, ts: Seq<Seq<char>>)
    requires
        find_from(pre, "<metadata>"@, 0) is None,
        forall|i: int| 0 <= i < ts.len() ==> tag_writable(#[trigger] ts[i]),
    ensures
        tags_of(pre + metadata_xml(ts) + post) == ts,
{
    reveal_strlit("<metadata>");
    reveal_strlit("</metadata>");
    reveal_strlit("<kvm:tag>");
    reveal_strlit("  ");
    reveal_strlit("<metadata>\n  <kvm:tags xmlns:kvm=\"http://kvm-manager.local/metadata\">");
    let pm = "<metadata>"@;
    let qm = "</metadata>"@;
    let open = "<kvm:tag>"@;
    let head = metadata_head();
    let body = metadata_body(ts);
    lemma_metadata_parts(ts);
    lemma_body_starts(ts);
    let r = pre + metadata_xml(ts) + post;
    let w = "  "@ + (head + (body + post));
    assert(r =~= pre + w);
    // The opening tag.
    lemma_find_past(pre, w, pm, 0);
    assert forall|i: int| 0 <= i < 2 && i + pm.len() <= w.len() implies !(#[trigger] w[i] == pm[0] && w[i + 1]
        == pm[1]) by {
        assert(w[i] == ' ');
    }
    lemma_skip_by_pair(w, pm, 0, 2, 0);
    assert(w.subrange(2, 12) =~= pm);
    lemma_found_here(w, pm, 2);
    let ms: int = pre.len() as int + 2;
    assert(find(r, pm) == Some(ms));
    // The closing tag.
    lemma_find_from_suffix(r, qm, ms, 0);
    assert(r.subrange(ms, r.len() as int) =~= head + (body + post));
    assert forall|i: int| 0 <= i < head.len() && i + qm.len() <= head.len() implies !(#[trigger] head[i] == qm[0]
        && head[i + 1] == qm[1]) by {}
    lemma_skip_by_pair(head, qm, 0, head.len() as int, 0);
    lemma_find_past(head, body + post, qm, 0);
    lemma_body_closes(ts, post);
    let me: int = ms + head.len() as int + body.len() as int - 11;
    assert(find_from(r, qm, ms) == Some(me));
    let section = r.subrange(ms, me + 11);
    assert(section =~= head + body);
    // The tags.
    let q = head.len() - 8;
    assert forall|i: int| 7 <= i < q + 7 && i - 7 + open.len() <= head.len() implies !(#[trigger] head[i] == open[7]
        && head[i + 1] == open[8]) by {}
    lemma_skip_by_pair(head, open, 0, q, 7);
    assert(find_from(head, open, q) is None);
    lemma_find_past(head, body, open, 0);
    lemma_find_from_suffix(head + body, open, head.len() as int, 0);
    assert((head + body).subrange(head.len() as int, (head + body).len() as int) =~= body);
    lemma_tags_in_skip(head + body, 0, head.len() as int);
    lemma_tags_in_suffix(head + body, head.len() as int);
    lemma_body_read(ts);
}

/// Tags written into a definition are read back as written: after `with_tags(xml, ts)`,
/// `tags_of` gives `ts`. This holds for a definition that has a closed metadata element
/// or a closing domain tag (where the metadata goes), and for tags that hold neither a
/// closing tag element nor a closing metadata element.
pub proof fn law_written_tags_are_read_back(xml: Seq<char>, ts: Seq<Seq<char>>)
    requires
        metadata_closed(xml),
        contains(xml, "<metadata>"@) || contains(xml, "</domain>"@),
        forall|i: int| 0 <= i < ts.len() ==> tag_writable(#[trigger] ts[i]),
    ensures
        tags_of(with_tags(xml, ts)) == ts,
{
    reveal_strlit("<metadata>");
    reveal_strlit("</metadata>");
    reveal_strlit("</domain>");
    let pm = "<metadata>"@;
    let qm = "</metadata>"@;
    let dm = "</domain>"@;
    let m = metadata_xml(ts);
    lemma_find_from_props(xml, pm, 0);
    if contains(xml, pm) {
        let start = find(xml, pm)->0;
        lemma_find_from_props(xml, qm, 0);
        let end = find(xml, qm)->0;
        let pre = xml.subrange(0, start);
        let post = xml.subrange(end + 11, xml.len() as int);
        lemma_prefix_has_none(xml, pm, start);
        lemma_read_back(pre, post, ts);
        assert(with_tags(xml, ts) == pre + m + post);
    } else {
        lemma_find_from_props(xml, dm, 0);
        let d = find(xml, dm)->0;
        let pre = xml.subrange(0, d);
        let post = "\n</domain>"@ + replace_all(xml.subrange(d + 9, xml.len() as int), dm, m + "\n</domain>"@);
        lemma_prefix_has_none(xml, pm, d);
        lemma_read_back(pre, post, ts);
        assert(with_tags(xml, ts) =~= pre + m + post);
    }
}

/// The tags read from a text in which a closing metadata element can only end it are
/// writable.
proof fn lemma_read_tags_writable(s: Seq<char>, pos: int)
    requires
        0 <= pos,
        forall|j: int| 0 <= j && j + 11 < s.len() ==> !occurs_at(s, "</metadata>"@, j),
    ensures
        forall|i: int| 0 <= i < tags_in(s, pos).len() ==> tag_writable(#[trigger] tags_in(s, pos)[i]),
    decreases s.len() - pos,
{
    let open = "<kvm:tag>"@;
    let q1 = "</kvm:tag>"@;
    let qm = "</metadata>"@;
    reveal_strlit("<kvm:tag>");
    reveal_strlit("</kvm:tag>");
    reveal_strlit("</metadata>");
    lemma_find_from_props(s, open, pos);
    if let Some(t) = find_from(s, open, pos) {
        lemma_find_from_props(s, q1, t + 9);
        if let Some(e) = find_from(s, q1, t + 9) {
            if e + 10 > pos && e + 10 <= s.len() {
                let x = s.subrange(t + 9, e);
                lemma_find_from_props(x, q1, 0);
                if let Some(k) = find_from(x, q1, 0) {
                    assert(s.subrange(t + 9 + k, t + 9 + k + 10) =~= x.subrange(k, k + 10));
                    assert(occurs_at(s, q1, t + 9 + k));
                }
                lemma_find_from_props(x, qm, 0);
                if let Some(k) = find_from(x, qm, 0) {
                    assert(s.subrange(t + 9 + k, t + 9 + k + 11) =~= x.subrange(k, k + 11));
                    assert(occurs_at(s, qm, t + 9 + k));
                }
                assert(tag_writable(x));
                lemma_read_tags_writable(s, e + 10);
                let rest = tags_in(s, e + 10);
                assert(tags_in(s, pos) == seq![x] + rest);
                assert forall|i: int| 0 <= i < tags_in(s, pos).len() implies tag_writable(#[trigger] tags_in(s, pos)[i]) by {
                    if i > 0 {
                        assert(tags_in(s, pos)[i] == rest[i - 1]);
                    }
                }
            }
        }
    }
}

/// The tags a definition holds are writable.
proof fn lemma_tags_of_writable(xml: Seq<char>)
    ensures
        forall|i: int| 0 <= i < tags_of(xml).len() ==> tag_writable(#[trigger] tags_of(xml)[i]),
{
    let pm = "<metadata>"@;
    let qm = "</metadata>"@;
    reveal_strlit("</metadata>");
    lemma_find_from_props(xml, pm, 0);
    if let Some(ms) = find(xml, pm) {
        lemma_find_from_props(xml, qm, ms);
        if let Some(me) = find_from(xml, qm, ms) {
            let section = xml.subrange(ms, me + 11);
            assert forall|j: int| 0 <= j && j + 11 < section.len() implies !occurs_at(section, qm, j) by {
                if occurs_at(section, qm, j) {
                    assert(xml.subrange(ms + j, ms + j + 11) =~= section.subrange(j, j + 11));
                    assert(occurs_at(xml, qm, ms + j));
                }
            }
            lemma_read_tags_writable(section, 0);
        }
    }
}

/// Tags added to a definition are read back: after adding `new` to the tags a definition
/// holds, its tags are those it held followed by each new one not among them, for a
/// definition that has a closed metadata element or a closing domain tag and new tags
/// that hold neither a closing tag element nor a closing metadata element.
pub proof fn law_added_tags_are_read_back(xml: Seq<char>, new: Seq<Seq<char>>)
    requires
        metadata_closed(xml),
        contains(xml, "<metadata>"@) || contains(xml, "</domain>"@),
        forall|i: int| 0 <= i < new.len() ==> tag_writable(#[trigger] new[i]),
    ensures
        tags_of(with_tags(xml, merged_tags(tags_of(xml), new))) == merged_tags(tags_of(xml), new),
{
    let old = tags_of(xml);
    let merged = merged_tags(old, new);
    lemma_tags_of_writable(xml);
    law_added_tags_are_kept(old, new);
    assert forall|i: int| 0 <= i < merged.len() implies tag_writable(#[trigger] merged[i]) by {
        assert(merged.contains(merged[i]));
        if old.contains(merged[i]) {
            let j = choose|j: int| 0 <= j < old.len() && old[j] == merged[i];
            assert(tag_writable(old[j]));
        } else {
            let j = choose|j: int| 0 <= j < new.len() && new[j] == merged[i];
            assert(tag_writable(new[j]));
        }
    }
    law_written_tags_are_read_back(xml, merged);
}

} // verus!
