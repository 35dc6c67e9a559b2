//! Handler documentation: the `@`-annotations of a handler's doc comment.
use vstd::prelude::*;
use crate::text::{
    chars_of, string_from_chars, trim, trim_spec, has_prefix, starts_with, sub_vec, join_spec,
    join_chars, strings_to_chars,
};
use crate::parser::views_of;
use crate::openapi::{opt_str_view, pair_views};

verus! {

/// What the doc comment of a handler says for its operation.
pub struct DocAnnotations {
    /// From `@summary`, or the first plain doc line.
    pub summary: Option<String>,
    /// From `@description` (one line each, joined with newlines), or the
    /// remaining plain doc lines.
    pub description: Option<String>,
    /// From `@tag`.
    pub tags: Vec<String>,
    /// From `@security`.
    pub security: Vec<String>,
    /// Whether `@deprecated` occurs.
    pub deprecated: bool,
    /// From `@response <code> <description>`.
    pub responses: Vec<(String, String)>,
}

/// The annotations as plain values.
pub struct DocView {
    pub summary: Option<Seq<char>>,
    pub description: Option<Seq<char>>,
    pub tags: Seq<Seq<char>>,
    pub security: Seq<Seq<char>>,
    pub deprecated: bool,
    pub responses: Seq<(Seq<char>, Seq<char>)>,
}

impl View for DocAnnotations {
    type V = DocView;

    open spec fn view(&self) -> DocView {
        DocView {
            summary: opt_str_view(self.summary),
            description: opt_str_view(self.description),
            tags: views_of(self.tags@),
            security: views_of(self.security@),
            deprecated: self.deprecated,
            responses: pair_views(self.responses@),
        }
    }
}

/// What has been read after some doc lines: the annotations so far, the
/// plain lines, and whether `@summary` / `@description` occurred.
pub struct DocState {
    pub annot: DocView,
    pub plain: Seq<Seq<char>>,
    pub explicit_summary: bool,
    pub explicit_description: bool,
}

pub open spec fn tag_prefix() -> Seq<char> {
    seq!['@', 't', 'a', 'g', ' ']
}

pub open spec fn summary_prefix() -> Seq<char> {
    seq!['@', 's', 'u', 'm', 'm', 'a', 'r', 'y', ' ']
}

pub open spec fn description_prefix() -> Seq<char> {
    seq!['@', 'd', 'e', 's', 'c', 'r', 'i', 'p', 't', 'i', 'o', 'n', ' ']
}

pub open spec fn security_prefix() -> Seq<char> {
    seq!['@', 's', 'e', 'c', 'u', 'r', 'i', 't', 'y', ' ']
}

pub open spec fn deprecated_prefix() -> Seq<char> {
    seq!['@', 'd', 'e', 'p', 'r', 'e', 'c', 'a', 't', 'e', 'd']
}

pub open spec fn response_prefix() -> Seq<char> {
    seq!['@', 'r', 'e', 's', 'p', 'o', 'n', 's', 'e', ' ']
}

/// Index of the first `c` in `s`, or -1.
pub open spec fn find_spec(s: Seq<char>, c: char) -> int
    decreases s.len(),
{
    if s.len() == 0 {
        -1
    } else {
        let r = find_spec(s.drop_last(), c);
        if r >= 0 {
            r
        } else if s.last() == c {
            s.len() - 1
        } else {
            -1
        }
    }
}

pub proof fn lemma_find(s: Seq<char>, c: char)
    ensures
        -1 <= find_spec(s, c) < s.len(),
        find_spec(s, c) >= 0 ==> s[find_spec(s, c)] == c,
        forall|j: int| 0 <= j < s.len() && (find_spec(s, c) < 0 || j < find_spec(s, c)) ==> s[j] != c,
    decreases s.len(),
{
    if s.len() > 0 {
        lemma_find(s.drop_last(), c);
        assert forall|j: int| 0 <= j < s.len() - 1 implies s.drop_last()[j] == s[j] by {}
    }
}

/// `@response` text after the prefix: the code up to the first space and the
/// trimmed rest, or the whole text and an empty description.
pub open spec fn response_spec(rest: Seq<char>) -> (Seq<char>, Seq<char>) {
    let r = trim_spec(rest);
    let i = find_spec(r, ' ');
    if i >= 0 {
        (r.take(i), trim_spec(r.skip(i + 1)))
    } else {
        (r, Seq::<char>::empty())
    }
}

/// One doc line read.
pub open spec fn doc_step(st: DocState, line: Seq<char>) -> DocState {
    let t = trim_spec(line);
    let a = st.annot;
    if t.len() == 0 {
        st
    } else if has_prefix(t, tag_prefix()) {
        DocState { annot: DocView { tags: a.tags.push(trim_spec(t.skip(5))), ..a }, ..st }
    } else if has_prefix(t, summary_prefix()) {
        DocState {
            annot: DocView { summary: Some(trim_spec(t.skip(9))), ..a },
            explicit_summary: true,
            ..st
        }
    } else if has_prefix(t, description_prefix()) {
        let rest = trim_spec(t.skip(13));
        DocState {
            annot: DocView {
                description: match a.description {
                    Some(d) => Some(d + seq!['\n'] + rest),
                    None => Some(rest),
                },
                ..a
            },
            explicit_description: true,
            ..st
        }
    } else if has_prefix(t, security_prefix()) {
        DocState { annot: DocView { security: a.security.push(trim_spec(t.skip(10))), ..a }, ..st }
    } else if has_prefix(t, deprecated_prefix()) {
        DocState { annot: DocView { deprecated: true, ..a }, ..st }
    } else if has_prefix(t, response_prefix()) {
        DocState { annot: DocView { responses: a.responses.push(response_spec(t.skip(10))), ..a }, ..st }
    } else if t[0] != '@' {
        DocState { plain: st.plain.push(t), ..st }
    } else {
        st
    }
}

pub open spec fn empty_doc_state() -> DocState {
    DocState {
        annot: DocView {
            summary: None,
            description: None,
            tags: Seq::empty(),
            security: Seq::empty(),
            deprecated: false,
            responses: Seq::empty(),
        },
        plain: Seq::empty(),
        explicit_summary: false,
        explicit_description: false,
    }
}

/// The doc lines read in order.
pub open spec fn doc_fold(lines: Seq<Seq<char>>) -> DocState
    decreases lines.len(),
{
    if lines.len() == 0 {
        empty_doc_state()
    } else {
        doc_step(doc_fold(lines.drop_last()), lines.last())
    }
}

/// The annotations of a doc comment: without `@summary` the first plain line
/// is the summary; without `@description` the other plain lines, joined with
/// newlines, are the description.
pub open spec fn doc_annotations_spec(lines: Seq<Seq<char>>) -> DocView {
    let st = doc_fold(lines);
    let take_summary = !st.explicit_summary && st.plain.len() > 0;
    let plain = if take_summary { st.plain.drop_first() } else { st.plain };
    let summary = if take_summary { Some(st.plain[0]) } else { st.annot.summary };
    let description = if !st.explicit_description && plain.len() > 0 {
        Some(join_spec(plain, seq!['\n']))
    } else {
        st.annot.description
    };
    DocView { summary, description, ..st.annot }
}

/// The reading state held in executable values.
pub open spec fn state_of(
    summary: Option<String>,
    description: Option<String>,
    tags: Seq<String>,
    security: Seq<String>,
    deprecated: bool,
    responses: Seq<(String, String)>,
    plain: Seq<String>,
    explicit_summary: bool,
    explicit_description: bool,
) -> DocState {
    DocState {
        annot: DocView {
            summary: opt_str_view(summary),
            description: opt_str_view(description),
            tags: views_of(tags),
            security: views_of(security),
            deprecated: deprecated,
            responses: pair_views(responses),
        },
        plain: views_of(plain),
        explicit_summary: explicit_summary,
        explicit_description: explicit_description,
    }
}

/// The text after the first `n` characters, trimmed, as a `String`.
fn trimmed_rest(t: &Vec<char>, n: usize) -> (r: String)
    requires
        n <= t.len(),
    ensures
        r@ == trim_spec(t@.skip(n as int)),
{
    let rest = sub_vec(t, n, t.len());
    assert(rest@ =~= t@.skip(n as int));
    let tr = trim(&rest);
    string_from_chars(tr.as_slice())
}

/// Splits the text after `@response ` into code and description.
fn split_response(rest: &Vec<char>) -> (r: (String, String))
    ensures
        (r.0@, r.1@) == response_spec(rest@),
{
    let t = trim(rest);
    let ghost ts = t@;
    proof {
        lemma_find(ts, ' ');
    }
    let mut i: usize = 0;
    while i < t.len()
        invariant
            i <= t.len(),
            ts == t@,
            ts == trim_spec(rest@),
            forall|j: int| 0 <= j < i ==> ts[j] != ' ',
        decreases t.len() - i,
    {
        proof {
            lemma_find(ts, ' ');
        }
        if t[i] == ' ' {
            assert(find_spec(ts, ' ') == i as int);
            let code = sub_vec(&t, 0, i);
            let desc = trimmed_rest(&t, i + 1);
            assert(code@ =~= ts.take(i as int));
            assert(ts == trim_spec(rest@));
            assert(response_spec(rest@).0 == ts.take(i as int));
            assert(response_spec(rest@).1 == trim_spec(ts.skip(i + 1)));
            return (string_from_chars(code.as_slice()), desc);
        }
        i = i + 1;
    }
    proof {
        lemma_find(ts, ' ');
    }
    assert(find_spec(ts, ' ') < 0);
    (string_from_chars(t.as_slice()), String::new())
}

/// Reads the `@`-annotations of a handler's doc comment, given its doc lines
/// in order:
/// - `@tag Name`, `@security scheme`: one more tag / security requirement;
/// - `@summary text`: the summary (the last one wins);
/// - `@description text`: a description line (several are joined with newlines);
/// - `@deprecated`: marks the operation deprecated;
/// - `@response 404 Not found`: one more response description;
/// - a line not starting with `@`: a plain line. Without `@summary` the first
///   plain line is the summary; without `@description` the other plain lines,
///   joined with newlines, are the description.
///
/// Lines are trimmed; empty lines and unknown `@` annotations are skipped.
pub fn parse_doc_annotations(docs: &[String]) -> (r: DocAnnotations)
    ensures
        r@ == doc_annotations_spec(views_of(docs@)),
{
    let mut summary: Option<String> = None;
    let mut description: Option<String> = None;
    let mut tags: Vec<String> = Vec::new();
    let mut security: Vec<String> = Vec::new();
    let mut deprecated = false;
    let mut responses: Vec<(String, String)> = Vec::new();
    let mut plain: Vec<String> = Vec::new();
    let mut explicit_summary = false;
    let mut explicit_description = false;

    let tag_p = vec!['@', 't', 'a', 'g', ' '];
    let summary_p = vec!['@', 's', 'u', 'm', 'm', 'a', 'r', 'y', ' '];
    let description_p = vec!['@', 'd', 'e', 's', 'c', 'r', 'i', 'p', 't', 'i', 'o', 'n', ' '];
    let security_p = vec!['@', 's', 'e', 'c', 'u', 'r', 'i', 't', 'y', ' '];
    let deprecated_p = vec!['@', 'd', 'e', 'p', 'r', 'e', 'c', 'a', 't', 'e', 'd'];
    let response_p = vec!['@', 'r', 'e', 's', 'p', 'o', 'n', 's', 'e', ' '];
    assert(tag_p@ =~= tag_prefix());
    assert(summary_p@ =~= summary_prefix());
    assert(description_p@ =~= description_prefix());
    assert(security_p@ =~= security_prefix());
    assert(deprecated_p@ =~= deprecated_prefix());
    assert(response_p@ =~= response_prefix());

    let ghost lines = views_of(docs@);
    assert(lines.take(0) =~= Seq::<Seq<char>>::empty());
    assert(views_of(tags@) =~= Seq::<Seq<char>>::empty());
    assert(views_of(security@) =~= Seq::<Seq<char>>::empty());
    assert(views_of(plain@) =~= Seq::<Seq<char>>::empty());
    assert(pair_views(responses@) =~= Seq::<(Seq<char>, Seq<char>)>::empty());
    let mut k: usize = 0;
    while k < docs.len()
        invariant
            k <= docs@.len(),
            lines == views_of(docs@),
            tag_p@ == tag_prefix(),
            summary_p@ == summary_prefix(),
            description_p@ == description_prefix(),
            security_p@ == security_prefix(),
            deprecated_p@ == deprecated_prefix(),
            response_p@ == response_prefix(),
            doc_fold(lines.take(k as int)) == state_of(summary, description, tags@, security@,
                deprecated, responses@, plain@, explicit_summary, explicit_description),
        decreases docs@.len() - k,
    {
        assert(lines.take(k + 1).drop_last() =~= lines.take(k as int));
        assert(lines.take(k + 1).last() == docs@[k as int]@);
        let ghost st0 = state_of(summary, description, tags@, security@, deprecated, responses@,
            plain@, explicit_summary, explicit_description);
        let ghost line = lines[k as int];
        assert(line == docs@[k as int]@);
        assert(doc_fold(lines.take(k + 1)) == doc_step(st0, line));
        let t = trim(&chars_of(docs[k].as_str()));
        let ghost tags0 = tags@;
        let ghost security0 = security@;
        let ghost responses0 = responses@;
        let ghost plain0 = plain@;
        if t.len() == 0 {
        } else if starts_with(&t, &tag_p) {
            let v = trimmed_rest(&t, 5);
            tags.push(v);
            assert(views_of(tags@) =~= views_of(tags0).push(tags@.last()@));
        } else if starts_with(&t, &summary_p) {
            summary = Some(trimmed_rest(&t, 9));
            explicit_summary = true;
        } else if starts_with(&t, &description_p) {
            let rest = trimmed_rest(&t, 13);
            match description {
                Some(d) => {
                    let mut dv = chars_of(d.as_str());
                    dv.push('\n');
                    let joined = crate::text::concat(&dv, &chars_of(rest.as_str()));
                    assert(joined@ =~= d@ + seq!['\n'] + rest@);
                    description = Some(string_from_chars(joined.as_slice()));
                },
                None => {
                    description = Some(rest);
                },
            }
            explicit_description = true;
        } else if starts_with(&t, &security_p) {
            let v = trimmed_rest(&t, 10);
            security.push(v);
            assert(views_of(security@) =~= views_of(security0).push(security@.last()@));
        } else if starts_with(&t, &deprecated_p) {
            deprecated = true;
        } else if starts_with(&t, &response_p) {
            let rest = sub_vec(&t, 10, t.len());
            assert(rest@ =~= t@.skip(10));
            let pair = split_response(&rest);
            responses.push(pair);
            assert(pair_views(responses@) =~= pair_views(responses0).push((pair.0@, pair.1@)));
        } else if t[0] != '@' {
            plain.push(string_from_chars(t.as_slice()));
            assert(views_of(plain@) =~= views_of(plain0).push(t@));
        } else {
        }
        assert(doc_step(st0, line) == state_of(summary, description, tags@, security@, deprecated,
            responses@, plain@, explicit_summary, explicit_description));
        k = k + 1;
    }
    assert(lines.take(docs@.len() as int) =~= lines);
    let take_summary = !explicit_summary && plain.len() > 0;
    if take_summary {
        let ghost p0 = plain@;
        summary = Some(plain.remove(0));
        assert(views_of(plain@) =~= views_of(p0).drop_first());
    }
    if !explicit_description && plain.len() > 0 {
        let parts = strings_to_chars(plain.as_slice());
        assert(parts@.map_values(|x: Vec<char>| x@) =~= views_of(plain@));
        let nl = vec!['\n'];
        let j = join_chars(&parts, &nl);
        assert(nl@ =~= seq!['\n']);
        description = Some(string_from_chars(j.as_slice()));
    }
    DocAnnotations { summary, description, tags, security, deprecated, responses }
}

/// The plain lines of a doc comment, trimmed, in order: the non-empty lines
/// that do not start with `@`.
pub open spec fn plain_doc_lines(lines: Seq<Seq<char>>) -> Seq<Seq<char>>
    decreases lines.len(),
{
    if lines.len() == 0 {
        Seq::empty()
    } else {
        let t = trim_spec(lines.last());
        if t.len() > 0 && t[0] != '@' {
            plain_doc_lines(lines.drop_last()).push(t)
        } else {
            plain_doc_lines(lines.drop_last())
        }
    }
}

/// Some line, trimmed, starts with `prefix`.
pub open spec fn has_line_with(lines: Seq<Seq<char>>, prefix: Seq<char>) -> bool {
    exists|i: int| 0 <= i < lines.len() && has_prefix(#[trigger] trim_spec(lines[i]), prefix)
}

proof fn lemma_has_line_step(lines: Seq<Seq<char>>, prefix: Seq<char>)
    requires
        lines.len() > 0,
    ensures
        has_line_with(lines, prefix) == (has_line_with(lines.drop_last(), prefix)
            || has_prefix(trim_spec(lines.last()), prefix)),
{
    let d = lines.drop_last();
    if has_line_with(lines, prefix) {
        let i = choose|i: int| 0 <= i < lines.len() && has_prefix(#[trigger] trim_spec(lines[i]), prefix);
        if i < lines.len() - 1 {
            assert(d[i] == lines[i]);
        }
    }
    if has_line_with(d, prefix) {
        let i = choose|i: int| 0 <= i < d.len() && has_prefix(#[trigger] trim_spec(d[i]), prefix);
        assert(lines[i] == d[i]);
    }
    if has_prefix(trim_spec(lines.last()), prefix) {
        assert(lines[lines.len() - 1] == lines.last());
    }
}

/// What the line-by-line reading gathers: the plain lines, whether `@summary`
/// and `@description` occur, and no summary or description without them.
proof fn lemma_doc_fold_facts(lines: Seq<Seq<char>>)
    ensures
        doc_fold(lines).plain == plain_doc_lines(lines),
        doc_fold(lines).explicit_summary == has_line_with(lines, summary_prefix()),
        doc_fold(lines).explicit_description == has_line_with(lines, description_prefix()),
        !has_line_with(lines, summary_prefix()) ==> doc_fold(lines).annot.summary.is_none(),
        !has_line_with(lines, description_prefix()) ==> doc_fold(lines).annot.description.is_none(),
    decreases lines.len(),
{
    if lines.len() > 0 {
        lemma_doc_fold_facts(lines.drop_last());
        lemma_has_line_step(lines, summary_prefix());
        lemma_has_line_step(lines, description_prefix());
        let t = trim_spec(lines.last());
        if has_prefix(t, summary_prefix()) {
            assert(t[1] == summary_prefix()[1]);
            assert(!has_prefix(t, tag_prefix()));
        }
        if has_prefix(t, description_prefix()) {
            assert(t[1] == description_prefix()[1]);
            assert(!has_prefix(t, tag_prefix()));
            assert(!has_prefix(t, summary_prefix()));
        }
        if t.len() > 0 && t[0] != '@' {
            assert(!has_prefix(t, tag_prefix()) && !has_prefix(t, summary_prefix()));
            assert(!has_prefix(t, description_prefix()) && !has_prefix(t, security_prefix()));
            assert(!has_prefix(t, deprecated_prefix()) && !has_prefix(t, response_prefix()));
        }
    }
}

/// With an explicit `@summary` and no `@description`, the description is
/// every plain line, joined with newlines (none when there is no plain line):
/// the first plain line is not taken as the summary.
pub proof fn law_doc_description_with_summary(lines: Seq<Seq<char>>)
    requires
        has_line_with(lines, "@summary "@),
        !has_line_with(lines, "@description "@),
    ensures
        doc_annotations_spec(lines).summary.is_some(),
        doc_annotations_spec(lines).description == if plain_doc_lines(lines).len() > 0 {
            Some(join_spec(plain_doc_lines(lines), "\n"@))
        } else {
            None
        },
{
    reveal_strlit("@summary ");
    reveal_strlit("@description ");
    reveal_strlit("\n");
    assert("@summary "@ =~= summary_prefix());
    assert("@description "@ =~= description_prefix());
    assert("\n"@ =~= seq!['\n']);
    lemma_doc_fold_facts(lines);
    lemma_doc_summary_kept(lines);
}

/// An explicit `@summary` is what the fold has read as summary.
proof fn lemma_doc_summary_kept(lines: Seq<Seq<char>>)
    ensures
        has_line_with(lines, summary_prefix()) ==> doc_fold(lines).annot.summary.is_some(),
    decreases lines.len(),
{
    if lines.len() > 0 {
        lemma_doc_summary_kept(lines.drop_last());
        lemma_has_line_step(lines, summary_prefix());
        let t = trim_spec(lines.last());
        if has_prefix(t, summary_prefix()) {
            assert(t[1] == summary_prefix()[1]);
            assert(!has_prefix(t, tag_prefix()));
        }
    }
}

/// Without `@summary` and `@description`, the first plain line is the
/// summary and the other plain lines, joined with newlines, the description
/// (none when there are no such lines).
pub proof fn law_doc_summary_from_plain(lines: Seq<Seq<char>>)
    requires
        !has_line_with(lines, "@summary "@),
        !has_line_with(lines, "@description "@),
    ensures
        doc_annotations_spec(lines).summary == if plain_doc_lines(lines).len() > 0 {
            Some(plain_doc_lines(lines)[0])
        } else {
            None
        },
        doc_annotations_spec(lines).description == if plain_doc_lines(lines).len() > 1 {
            Some(join_spec(plain_doc_lines(lines).drop_first(), "\n"@))
        } else {
            None
        },
{
    reveal_strlit("@summary ");
    reveal_strlit("@description ");
    reveal_strlit("\n");
    assert("@summary "@ =~= summary_prefix());
    assert("@description "@ =~= description_prefix());
    assert("\n"@ =~= seq!['\n']);
    lemma_doc_fold_facts(lines);
}

/// The texts after `prefix` (trimmed) of the lines that, trimmed, start
/// with it, in order.
pub open spec fn annotation_texts(lines: Seq<Seq<char>>, prefix: Seq<char>) -> Seq<Seq<char>>
    decreases lines.len(),
{
    if lines.len() == 0 {
        Seq::empty()
    } else {
        let t = trim_spec(lines.last());
        if has_prefix(t, prefix) {
            annotation_texts(lines.drop_last(), prefix).push(trim_spec(t.skip(prefix.len() as int)))
        } else {
            annotation_texts(lines.drop_last(), prefix)
        }
    }
}

proof fn lemma_doc_fold_annotations(lines: Seq<Seq<char>>)
    ensures
        doc_fold(lines).annot.summary == if annotation_texts(lines, summary_prefix()).len() > 0 {
            Some(annotation_texts(lines, summary_prefix()).last())
        } else {
            None
        },
        doc_fold(lines).annot.description == if annotation_texts(lines, description_prefix()).len() > 0 {
            Some(join_spec(annotation_texts(lines, description_prefix()), seq!['\n']))
        } else {
            None
        },
    decreases lines.len(),
{
    if lines.len() > 0 {
        lemma_doc_fold_annotations(lines.drop_last());
        let t = trim_spec(lines.last());
        if has_prefix(t, summary_prefix()) {
            assert(t[1] == summary_prefix()[1]);
            assert(!has_prefix(t, tag_prefix()));
            assert(!has_prefix(t, description_prefix())) by { assert(t[1] != description_prefix()[1]); }
        }
        if has_prefix(t, description_prefix()) {
            assert(t[1] == description_prefix()[1]);
            assert(!has_prefix(t, tag_prefix()));
            assert(!has_prefix(t, summary_prefix()));
            let a = annotation_texts(lines.drop_last(), description_prefix());
            let b = a.push(trim_spec(t.skip(13)));
            assert(b.drop_last() =~= a);
            assert(b.last() == trim_spec(t.skip(13)));
        }
    }
}

/// An explicit `@summary` gives the summary: the text after the last
/// `@summary `, trimmed. Explicit `@description` lines give the
/// description: their texts, trimmed, joined with newlines; the plain lines
/// then do not count.
pub proof fn law_doc_explicit_annotations(lines: Seq<Seq<char>>)
    ensures
        annotation_texts(lines, "@summary "@).len() > 0 ==> doc_annotations_spec(lines).summary
            == Some(annotation_texts(lines, "@summary "@).last()),
        annotation_texts(lines, "@description "@).len() > 0 ==> doc_annotations_spec(lines).description
            == Some(join_spec(annotation_texts(lines, "@description "@), "\n"@)),
{
    reveal_strlit("@summary ");
    reveal_strlit("@description ");
    reveal_strlit("\n");
    assert("@summary "@ =~= summary_prefix());
    assert("@description "@ =~= description_prefix());
    assert("\n"@ =~= seq!['\n']);
    lemma_doc_fold_annotations(lines);
    lemma_doc_fold_facts(lines);
    lemma_texts_present(lines, summary_prefix());
    lemma_texts_present(lines, description_prefix());
}

proof fn lemma_texts_present(lines: Seq<Seq<char>>, prefix: Seq<char>)
    ensures
        annotation_texts(lines, prefix).len() > 0 <==> has_line_with(lines, prefix),
    decreases lines.len(),
{
    if lines.len() > 0 {
        lemma_texts_present(lines.drop_last(), prefix);
        lemma_has_line_step(lines, prefix);
    }
}

} // verus!
