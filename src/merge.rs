//! Combining two descriptions of the same slot: schemas, media types, responses and whole
//! response sets.
use vstd::prelude::*;
use vstd::string::*;
use crate::bindings::{status_text, status_text_of};
use crate::keyed::{
    has_key, extend, find_key, insert_all, key_index, keys_unique, lemma_key_index_bounds,
    lemma_key_index_found,
};
use schemars::schema::SchemaObject;
use crate::model::{
    blank_response, lemma_view_entries_edit, lemma_view_entries_keys, view_entries, MediaType, MediaTypeView,
    OpenApiError, Response, ResponseEntry, ResponseEntryView, ResponseSet, ResponseSetView,
    ResponseView, SchemaNode,
};
use okapi::openapi3::Example;

verus! {

/// The schema for a slot that two sources describe: the one given, or where both give one,
/// the composite of the two in order.
pub open spec fn either_schema(a: Option<SchemaNode>, b: Option<SchemaNode>) -> Option<SchemaNode> {
    match (a, b) {
        (Some(x), Some(y)) => Some(SchemaNode::AnyOf(Box::new(x), Box::new(y))),
        (Some(x), None) => Some(x),
        (None, y) => y,
    }
}

pub open spec fn either_examples(
    a: Option<Seq<(String, Example)>>,
    b: Option<Seq<(String, Example)>>,
) -> Option<Seq<(String, Example)>> {
    match (a, b) {
        (Some(x), Some(y)) => Some(insert_all(x, y)),
        (Some(x), None) => Some(x),
        (None, y) => y,
    }
}

/// Two media type entries for one content type, combined; the first has priority.
pub open spec fn either_media(a: MediaTypeView, b: MediaTypeView) -> MediaTypeView {
    MediaTypeView {
        schema: either_schema(a.schema, b.schema),
        example: if a.example is Some { a.example } else { b.example },
        examples: either_examples(a.examples, b.examples),
        encoding: insert_all(a.encoding, b.encoding),
        extensions: insert_all(a.extensions, b.extensions),
    }
}

/// The content map after `m` is added under `k`: combined with an entry already there.
pub open spec fn add_media(c: Seq<(String, MediaTypeView)>, k: String, m: MediaTypeView) -> Seq<
    (String, MediaTypeView),
> {
    let j = key_index(c, k@);
    if j >= 0 {
        c.update(j, (c[j].0, either_media(c[j].1, m)))
    } else {
        c.push((k, m))
    }
}

/// The content map after each entry of `d` is added in turn.
pub open spec fn add_all_media(c: Seq<(String, MediaTypeView)>, d: Seq<(String, MediaTypeView)>) -> Seq<
    (String, MediaTypeView),
>
    decreases d.len(),
{
    if d.len() == 0 {
        c
    } else {
        add_media(add_all_media(c, d.drop_last()), d.last().0, d.last().1)
    }
}

/// Two descriptions joined: either one where the other is empty, else both on two lines.
pub open spec fn either_description(a: Seq<char>, b: Seq<char>) -> Seq<char> {
    if a.len() == 0 {
        b
    } else if b.len() == 0 {
        a
    } else {
        a + seq!['\n'] + b
    }
}

/// Two responses for one status, combined; the first has priority.
pub open spec fn either_response(a: ResponseView, b: ResponseView) -> ResponseView {
    ResponseView {
        description: either_description(a.description, b.description),
        content: add_all_media(a.content, b.content),
        headers: insert_all(a.headers, b.headers),
        links: insert_all(a.links, b.links),
        extensions: insert_all(a.extensions, b.extensions),
    }
}

/// The default response of a merged set: the first one given.
pub open spec fn merged_default(a: Option<ResponseEntryView>, b: Option<ResponseEntryView>) -> Option<
    ResponseEntryView,
> {
    if a is Some {
        a
    } else {
        b
    }
}

/// One response of the second set merged into the responses gathered so far; `None` where a
/// response given by reference would have to be altered.
pub open spec fn merge_step(
    acc: Seq<(String, ResponseEntryView)>,
    k: String,
    e: ResponseEntryView,
) -> Option<Seq<(String, ResponseEntryView)>> {
    let j = key_index(acc, k@);
    match e {
        ResponseEntryView::Reference(_) => None,
        ResponseEntryView::Object(eo) => if j >= 0 {
            match acc[j].1 {
                ResponseEntryView::Reference(_) => None,
                ResponseEntryView::Object(so) => Some(
                    acc.update(j, (acc[j].0, ResponseEntryView::Object(either_response(so, eo)))),
                ),
            }
        } else {
            Some(acc.push((k, e)))
        },
    }
}

/// The responses of `b` merged one by one into those of `a`.
pub open spec fn merge_all(a: Seq<(String, ResponseEntryView)>, b: Seq<(String, ResponseEntryView)>) -> Option<
    Seq<(String, ResponseEntryView)>,
>
    decreases b.len(),
{
    if b.len() == 0 {
        Some(a)
    } else {
        match merge_all(a, b.drop_last()) {
            None => None,
            Some(p) => merge_step(p, b.last().0, b.last().1),
        }
    }
}

/// Once a prefix of `b` fails to merge, all of `b` does.
proof fn lemma_merge_all_fails_on(
    a: Seq<(String, ResponseEntryView)>,
    b: Seq<(String, ResponseEntryView)>,
    n: int,
)
    requires
        0 <= n <= b.len(),
        merge_all(a, b.take(n)) is None,
    ensures
        merge_all(a, b) is None,
    decreases b.len() - n,
{
    if n == b.len() {
        assert(b.take(n) =~= b);
    } else {
        assert(b.take(n + 1).drop_last() =~= b.take(n));
        lemma_merge_all_fails_on(a, b, n + 1);
    }
}

/// The schema for a slot that two sources may describe. A single schema is kept as it is;
/// only where both give one is a composite made, holding the two in order.
pub fn accept_either_schema(s1: Option<SchemaNode>, s2: Option<SchemaNode>) -> (r: Option<SchemaNode>)
    ensures
        r == either_schema(s1, s2),
{
    match (s1, s2) {
        (Some(a), Some(b)) => Some(SchemaNode::AnyOf(Box::new(a), Box::new(b))),
        (Some(a), None) => Some(a),
        (None, b) => b,
    }
}

/// Two media type entries for one content type combined into one; `mt1` has priority.
pub fn accept_either_media_type(mt1: MediaType, mt2: MediaType) -> (r: MediaType)
    ensures
        r@ == either_media(mt1@, mt2@),
{
    let schema = accept_either_schema(mt1.schema, mt2.schema);
    let example = match mt1.example {
        Some(x) => Some(x),
        None => mt2.example,
    };
    let examples = match (mt1.examples, mt2.examples) {
        (Some(e1), Some(e2)) => Some(extend(e1, e2)),
        (Some(e), None) => Some(e),
        (None, e) => e,
    };
    MediaType {
        schema,
        example,
        examples,
        encoding: extend(mt1.encoding, mt2.encoding),
        extensions: extend(mt1.extensions, mt2.extensions),
    }
}

/// Adds `media` to a content map under `content_type`; where the map already has an entry
/// for it, the two are combined, the one already there first.
pub fn add_media_type(content: &mut Vec<(String, MediaType)>, content_type: String, media: MediaType)
    ensures
        view_entries(final(content)@) == add_media(view_entries(old(content)@), content_type, media@),
        keys_unique(old(content)@) ==> keys_unique(final(content)@),
{
    proof {
        lemma_view_entries_keys(content@, content_type@);
    }
    match find_key(content, &content_type) {
        Some(j) => {
            let (k0, cur) = content.remove(j);
            let merged = accept_either_media_type(cur, media);
            let ghost before = old(content)@;
            content.insert(j, (k0, merged));
            proof {
                assert(content@ =~= before.update(j as int, (k0, merged)));
                lemma_view_entries_edit(before, j as int, (k0, merged));
                if keys_unique(before) {
                    assert forall|a: int, b: int|
                        0 <= a < content@.len() && 0 <= b < content@.len() && a != b implies
                        #[trigger] content@[a].0@ != #[trigger] content@[b].0@ by {
                        assert(before[a].0@ != before[b].0@);
                    }
                }
            }
        },
        None => {
            let ghost before = content@;
            content.push((content_type, media));
            proof {
                lemma_view_entries_edit(before, 0, (content_type, media));
                lemma_key_index_bounds(before, content_type@);
                if keys_unique(before) {
                    assert forall|a: int, b: int|
                        0 <= a < content@.len() && 0 <= b < content@.len() && a != b implies
                        #[trigger] content@[a].0@ != #[trigger] content@[b].0@ by {
                        if a < before.len() && b < before.len() {
                            assert(before[a].0@ != before[b].0@);
                        } else if a < before.len() {
                            assert(before[a].0@ != content_type@);
                        } else {
                            assert(before[b].0@ != content_type@);
                        }
                    }
                }
            }
        },
    }
}

/// Adds each entry of `extra` to a content map in turn, as `add_media_type` does.
fn add_media_types(content: &mut Vec<(String, MediaType)>, extra: Vec<(String, MediaType)>)
    ensures
        view_entries(final(content)@) == add_all_media(view_entries(old(content)@), view_entries(extra@)),
        keys_unique(old(content)@) ==> keys_unique(final(content)@),
{
    let mut rest = extra;
    let ghost d = view_entries(extra@);
    let ghost c0 = view_entries(content@);
    let ghost u0 = keys_unique(content@);
    let n: usize = rest.len();
    let mut i: usize = 0;
    proof {
        lemma_view_entries_keys(extra@, seq![]);
    }
    while rest.len() > 0
        invariant
            n == d.len(),
            i + rest@.len() == n,
            forall|t: int| 0 <= t < rest@.len() ==> d[i + t] == (#[trigger] rest@[t].0, rest@[t].1@),
            view_entries(content@) == add_all_media(c0, d.take(i as int)),
            u0 ==> keys_unique(content@),
        decreases rest@.len(),
    {
        let ghost r0 = rest@;
        let (k, m) = rest.remove(0);
        proof {
            assert(d.take(i as int + 1).drop_last() =~= d.take(i as int));
            assert(r0[0] == (k, m));
            assert(d[i as int] == (k, m@));
        }
        add_media_type(content, k, m);
        i = i + 1;
        proof {
            assert forall|t: int| 0 <= t < rest@.len() implies d[i + t] == (#[trigger] rest@[t].0, rest@[t].1@) by {
                assert(rest@[t] == r0[t + 1]);
            }
        }
    }
    proof {
        assert(d.take(i as int) =~= d);
    }
}

/// Two responses for one status combined into one; `r1` has priority: its description comes
/// first, and its media types are the first part of each composite. On a header, link or
/// extension key in both, the entry of `r2` is kept.
pub fn produce_either_response(r1: Response, r2: Response) -> (r: Response)
    ensures
        r@ == either_response(r1@, r2@),
        keys_unique(r1.content@) ==> keys_unique(r.content@),
{
    let description = if r1.description.as_str().is_empty() {
        r2.description
    } else if r2.description.as_str().is_empty() {
        r1.description
    } else {
        let mut d = r1.description;
        proof {
            reveal_strlit("\n");
        }
        d.append("\n");
        d.append(r2.description.as_str());
        d
    };
    let mut content = r1.content;
    add_media_types(&mut content, r2.content);
    let r = Response {
        description,
        content,
        headers: extend(r1.headers, r2.headers),
        links: extend(r1.links, r2.links),
        extensions: extend(r1.extensions, r2.extensions),
    };
    proof {
        if r1@.description.len() != 0 && r2@.description.len() != 0 {
            assert(r@.description =~= either_description(r1@.description, r2@.description));
        }
    }
    r
}

/// The response of an entry given in place; a response given by reference cannot be altered.
pub fn ensure_not_ref(response: ResponseEntry) -> (r: Result<Response, OpenApiError>)
    ensures
        response matches ResponseEntry::Object(o) ==> r == Ok::<Response, OpenApiError>(o),
        response is Reference ==> r == Err::<Response, OpenApiError>(OpenApiError::RefResponse),
{
    match response {
        ResponseEntry::Reference(_) => Err(OpenApiError::RefResponse),
        ResponseEntry::Object(o) => Ok(o),
    }
}

/// Merges the responses of the two branches of a fallible result: `r1` for success, `r2` for
/// the error. The default response is the first one given; statuses only in `r2` are added; on
/// a status in both, the two responses are combined with `r1` first. Fails where a response
/// given by reference would have to be altered.
pub fn produce_any_responses(r1: ResponseSet, r2: ResponseSet) -> (r: Result<ResponseSet, OpenApiError>)
    requires
        r1.wf(),
    ensures
        merge_all(r1@.responses, r2@.responses) is None <==> r is Err,
        r is Err ==> r == Err::<ResponseSet, OpenApiError>(OpenApiError::RefResponse),
        r matches Ok(s) ==> {
            &&& s.wf()
            &&& Some(s@.responses) == merge_all(r1@.responses, r2@.responses)
            &&& s@.default == merged_default(r1@.default, r2@.default)
            &&& s@.extensions == insert_all(r1@.extensions, r2@.extensions)
        },
{
    let default = match r1.default {
        Some(d) => Some(d),
        None => r2.default,
    };
    let extensions = extend(r1.extensions, r2.extensions);
    let mut acc = r1.responses;
    let mut rest = r2.responses;
    let ghost a = view_entries(acc@);
    let ghost b = view_entries(rest@);
    let n: usize = rest.len();
    let mut i: usize = 0;
    proof {
        lemma_view_entries_keys(rest@, seq![]);
        assert(a == r1@.responses);
        assert(b == r2@.responses);
    }
    while rest.len() > 0
        invariant
            a == r1@.responses,
            b == r2@.responses,
            n == b.len(),
            i + rest@.len() == n,
            forall|t: int| 0 <= t < rest@.len() ==> b[i + t] == (#[trigger] rest@[t].0, rest@[t].1@),
            merge_all(a, b.take(i as int)) == Some(view_entries(acc@)),
            keys_unique(acc@),
        decreases rest@.len(),
    {
        let ghost r0 = rest@;
        let ghost before = acc@;
        let (k, e) = rest.remove(0);
        proof {
            assert(b.take(i as int + 1).drop_last() =~= b.take(i as int));
            assert(r0[0] == (k, e));
            assert(b[i as int] == (k, e@));
            assert(b.take(i as int + 1).last() == (k, e@));
            lemma_view_entries_keys(acc@, k@);
            lemma_key_index_bounds(acc@, k@);
        }
        let eo = match ensure_not_ref(e) {
            Ok(o) => o,
            Err(err) => {
                proof {
                    assert(merge_step(view_entries(before), k, e@) is None);
                    assert(merge_all(a, b.take(i as int + 1)) is None);
                    lemma_merge_all_fails_on(a, b, i as int + 1);
                }
                return Err(err);
            },
        };
        match find_key(&acc, &k) {
            Some(j) => {
                let (k0, cur) = acc.remove(j);
                let so = match ensure_not_ref(cur) {
                    Ok(o) => o,
                    Err(err) => {
                        proof {
                            assert(view_entries(before)[j as int] == (k0, cur@));
                            assert(merge_step(view_entries(before), k, e@) is None);
                            assert(merge_all(a, b.take(i as int + 1)) is None);
                            lemma_merge_all_fails_on(a, b, i as int + 1);
                        }
                        return Err(err);
                    },
                };
                let merged = produce_either_response(so, eo);
                acc.insert(j, (k0, ResponseEntry::Object(merged)));
                proof {
                    assert(acc@ =~= before.update(j as int, (k0, ResponseEntry::Object(merged))));
                    lemma_view_entries_edit(before, j as int, (k0, ResponseEntry::Object(merged)));
                    assert forall|x: int, y: int|
                        0 <= x < acc@.len() && 0 <= y < acc@.len() && x != y implies
                        #[trigger] acc@[x].0@ != #[trigger] acc@[y].0@ by {
                        assert(before[x].0@ != before[y].0@);
                    }
                }
            },
            None => {
                acc.push((k, ResponseEntry::Object(eo)));
                proof {
                    lemma_view_entries_edit(before, 0, (k, ResponseEntry::Object(eo)));
                    assert forall|x: int, y: int|
                        0 <= x < acc@.len() && 0 <= y < acc@.len() && x != y implies
                        #[trigger] acc@[x].0@ != #[trigger] acc@[y].0@ by {
                        if x < before.len() && y < before.len() {
                            assert(before[x].0@ != before[y].0@);
                        } else if x < before.len() {
                            assert(before[x].0@ != k@);
                        } else {
                            assert(before[y].0@ != k@);
                        }
                    }
                }
            },
        }
        i = i + 1;
        proof {
            assert forall|t: int| 0 <= t < rest@.len() implies b[i + t] == (#[trigger] rest@[t].0, rest@[t].1@) by {
                assert(rest@[t] == r0[t + 1]);
            }
        }
    }
    proof {
        assert(b.take(i as int) =~= b);
    }
    Ok(ResponseSet { default, responses: acc, extensions })
}

/// `new` is `old` with an entry under `k` guaranteed: unchanged where one was there, else
/// with a blank response appended under `k`.
pub open spec fn status_ensured(old: ResponseSetView, k: Seq<char>, new: ResponseSetView) -> bool {
    if key_index(old.responses, k) >= 0 {
        new == old
    } else {
        &&& new.default == old.default
        &&& new.extensions == old.extensions
        &&& new.responses.len() == old.responses.len() + 1
        &&& new.responses.drop_last() == old.responses
        &&& new.responses.last().0@ == k
        &&& new.responses.last().1 == ResponseEntryView::Object(blank_response())
    }
}

/// Makes sure that `responses` has an entry for `status`, adding a blank response where it has
/// none; returns the position of that entry.
pub fn ensure_status_code_exists(responses: &mut ResponseSet, status: u16) -> (r: usize)
    requires
        old(responses).wf(),
    ensures
        final(responses).wf(),
        status_ensured(old(responses)@, status_text_of(status), final(responses)@),
        r < final(responses).responses@.len(),
        r == key_index(final(responses)@.responses, status_text_of(status)),
        final(responses).responses@[r as int].0@ == status_text_of(status),
{
    let k = status_text(status);
    proof {
        lemma_view_entries_keys(responses.responses@, k@);
        lemma_key_index_bounds(responses.responses@, k@);
    }
    match find_key(&responses.responses, &k) {
        Some(j) => j,
        None => {
            let ghost before = responses.responses@;
            let n: usize = responses.responses.len();
            let blank = Response::empty();
            responses.responses.push((k, ResponseEntry::Object(blank)));
            proof {
                lemma_view_entries_edit(before, 0, (k, ResponseEntry::Object(blank)));
                assert(view_entries(responses.responses@).drop_last() =~= view_entries(before));
                assert forall|x: int, y: int|
                    0 <= x < responses.responses@.len() && 0 <= y < responses.responses@.len() && x
                        != y implies #[trigger] responses.responses@[x].0@
                    != #[trigger] responses.responses@[y].0@ by {
                    if x < before.len() && y < before.len() {
                        assert(before[x].0@ != before[y].0@);
                    } else if x < before.len() {
                        assert(before[x].0@ != k@);
                    } else {
                        assert(before[y].0@ != k@);
                    }
                }
                lemma_key_index_found(responses.responses@, k@, before.len() as int);
            }
            n
        },
    }
}

/// `o` with `m` added to its content under `k`.
pub open spec fn with_media(o: ResponseView, k: String, m: MediaTypeView) -> ResponseView {
    ResponseView { content: add_media(o.content, k, m), ..o }
}

/// Whether the response for key `k` of `old` is given by reference.
pub open spec fn is_ref_at(old: ResponseSetView, k: Seq<char>) -> bool {
    let j = key_index(old.responses, k);
    j >= 0 && old.responses[j].1 is Reference
}

/// The responses of `old` after `m` is added under content type `c` to the response for key
/// `k`, which is there and given in place.
pub open spec fn content_added(old: ResponseSetView, k: Seq<char>, c: String, m: MediaTypeView) -> Seq<
    (String, ResponseEntryView),
> {
    let j = key_index(old.responses, k);
    match old.responses[j].1 {
        ResponseEntryView::Object(o) => old.responses.update(
            j,
            (old.responses[j].0, ResponseEntryView::Object(with_media(o, c, m))),
        ),
        ResponseEntryView::Reference(_) => old.responses,
    }
}

/// Adds `media` under `content_type` to the response for `status`, which is created blank
/// where it is missing. Fails, leaving the set as it was, where that response is given by
/// reference.
pub fn add_content_response(
    responses: &mut ResponseSet,
    status: u16,
    content_type: String,
    media: MediaType,
) -> (r: Result<(), OpenApiError>)
    requires
        old(responses).wf(),
    ensures
        final(responses).wf(),
        final(responses)@.default == old(responses)@.default,
        final(responses)@.extensions == old(responses)@.extensions,
        r is Err <==> is_ref_at(old(responses)@, status_text_of(status)),
        r is Err ==> r == Err::<(), OpenApiError>(OpenApiError::RefResponse) && final(responses)@
            == old(responses)@,
        r is Ok ==> {
            let k = status_text_of(status);
            let j = key_index(old(responses)@.responses, k);
            let s = final(responses)@.responses;
            if j >= 0 {
                s == content_added(old(responses)@, k, content_type, media@)
            } else {
                &&& s.len() == old(responses)@.responses.len() + 1
                &&& s.drop_last() == old(responses)@.responses
                &&& s.last().0@ == k
                &&& s.last().1 == ResponseEntryView::Object(with_media(blank_response(), content_type, media@))
            }
        },
{
    let ghost o = old(responses)@;
    let j = ensure_status_code_exists(responses, status);
    let ghost mid = responses.responses@;
    let (k, e) = responses.responses.remove(j);
    proof {
        lemma_view_entries_keys(old(responses).responses@, status_text_of(status));
        lemma_view_entries_keys(mid, status_text_of(status));
        lemma_key_index_bounds(o.responses, status_text_of(status));
    }
    match e {
        ResponseEntry::Reference(x) => {
            responses.responses.insert(j, (k, ResponseEntry::Reference(x)));
            proof {
                assert(responses.responses@ =~= mid);
            }
            Err(OpenApiError::RefResponse)
        },
        ResponseEntry::Object(resp) => {
            let mut resp = resp;
            let ghost rv = resp@;
            add_media_type(&mut resp.content, content_type, media);
            responses.responses.insert(j, (k, ResponseEntry::Object(resp)));
            proof {
                assert(responses.responses@ =~= mid.update(j as int, (k, ResponseEntry::Object(resp))));
                lemma_view_entries_edit(mid, j as int, (k, ResponseEntry::Object(resp)));
                assert(resp@ == with_media(rv, content_type, media@));
                assert forall|x: int, y: int|
                    0 <= x < responses.responses@.len() && 0 <= y < responses.responses@.len() && x
                        != y implies #[trigger] responses.responses@[x].0@
                    != #[trigger] responses.responses@[y].0@ by {
                    assert(mid[x].0@ != mid[y].0@);
                }
                if key_index(o.responses, status_text_of(status)) < 0 {
                    assert(responses@.responses.drop_last() =~= o.responses);
                }
            }
            Ok(())
        },
    }
}

/// The media type entry that holds `schema` and nothing else.
pub open spec fn schema_media(schema: SchemaObject) -> MediaTypeView {
    MediaTypeView {
        schema: Some(SchemaNode::Derived(schema)),
        example: None,
        examples: None,
        encoding: Seq::empty(),
        extensions: Seq::empty(),
    }
}

/// Adds a media type entry holding `schema` under `content_type` to the response for
/// `status`, as `add_content_response` does.
pub fn add_schema_response(
    responses: &mut ResponseSet,
    status: u16,
    content_type: String,
    schema: SchemaObject,
) -> (r: Result<(), OpenApiError>)
    requires
        old(responses).wf(),
    ensures
        final(responses).wf(),
        final(responses)@.default == old(responses)@.default,
        final(responses)@.extensions == old(responses)@.extensions,
        r is Err <==> is_ref_at(old(responses)@, status_text_of(status)),
        r is Err ==> r == Err::<(), OpenApiError>(OpenApiError::RefResponse) && final(responses)@
            == old(responses)@,
        r is Ok ==> {
            let k = status_text_of(status);
            let j = key_index(old(responses)@.responses, k);
            let s = final(responses)@.responses;
            if j >= 0 {
                s == content_added(old(responses)@, k, content_type, schema_media(schema))
            } else {
                &&& s.len() == old(responses)@.responses.len() + 1
                &&& s.drop_last() == old(responses)@.responses
                &&& s.last().0@ == k
                &&& s.last().1 == ResponseEntryView::Object(with_media(blank_response(), content_type, schema_media(schema)))
            }
        },
{
    let media = MediaType {
        schema: Some(SchemaNode::Derived(schema)),
        example: None,
        examples: None,
        encoding: Vec::new(),
        extensions: Vec::new(),
    };
    proof {
        assert(media@ =~= schema_media(schema));
    }
    add_content_response(responses, status, content_type, media)
}

/// Making sure of a status twice leaves the set as making sure of it once does.
pub proof fn law_ensure_status_idempotent(
    s1: ResponseSetView,
    k: Seq<char>,
    s2: ResponseSetView,
    s3: ResponseSetView,
)
    requires
        status_ensured(s1, k, s2),
        status_ensured(s2, k, s3),
    ensures
        s3 == s2,
{
    lemma_key_index_bounds(s1.responses, k);
    lemma_key_index_bounds(s2.responses, k);
    if key_index(s2.responses, k) < 0 {
        assert(s2.responses[s2.responses.len() - 1].0@ != k);
    }
}

/// Whether a merged set has a default response does not depend on the order of the two sets,
/// and picking the default is associative.
pub proof fn law_merged_default(
    a: Option<ResponseEntryView>,
    b: Option<ResponseEntryView>,
    c: Option<ResponseEntryView>,
)
    ensures
        merged_default(a, b) is Some <==> merged_default(b, a) is Some,
        merged_default(a, b) is Some <==> (a is Some || b is Some),
        merged_default(merged_default(a, b), c) == merged_default(a, merged_default(b, c)),
{
}

/// A key is present exactly where some entry has it.
proof fn lemma_has_key_witness<V>(s: Seq<(String, V)>, k: Seq<char>, i: int)
    requires
        0 <= i < s.len(),
        s[i].0@ == k,
    ensures
        has_key(s, k),
{
    lemma_key_index_bounds(s, k);
}

/// Adding one media type entry keeps every content type and adds its own.
proof fn lemma_add_media_keys(c: Seq<(String, MediaTypeView)>, k: String, m: MediaTypeView, q: Seq<char>)
    requires
        has_key(c, q) || q == k@,
    ensures
        has_key(add_media(c, k, m), q),
{
    lemma_key_index_bounds(c, k@);
    lemma_key_index_bounds(c, q);
    let r = add_media(c, k, m);
    if has_key(c, q) {
        let i = key_index(c, q);
        assert(r[i].0@ == q);
        lemma_has_key_witness(r, q, i);
    } else if key_index(c, k@) >= 0 {
        let j = key_index(c, k@);
        assert(r[j].0@ == q);
        lemma_has_key_witness(r, q, j);
    } else {
        assert(r[c.len() as int].0@ == q);
        lemma_has_key_witness(r, q, c.len() as int);
    }
}

/// Combining two content maps keeps every content type of either.
pub proof fn law_content_union(c: Seq<(String, MediaTypeView)>, d: Seq<(String, MediaTypeView)>, q: Seq<char>)
    requires
        has_key(c, q) || has_key(d, q),
    ensures
        has_key(add_all_media(c, d), q),
    decreases d.len(),
{
    if d.len() > 0 {
        let e = d.drop_last();
        lemma_key_index_bounds(d, q);
        if has_key(c, q) || has_key(e, q) {
            law_content_union(c, e, q);
            lemma_add_media_keys(add_all_media(c, e), d.last().0, d.last().1, q);
        } else {
            lemma_key_index_bounds(e, q);
            let i = key_index(d, q);
            if i < d.len() - 1 {
                assert(e[i].0@ == q);
                lemma_has_key_witness(e, q, i);
            }
            lemma_add_media_keys(add_all_media(c, e), d.last().0, d.last().1, q);
        }
    }
}

/// One merge step keeps every status and adds its own.
proof fn lemma_merge_step_keys(
    acc: Seq<(String, ResponseEntryView)>,
    k: String,
    e: ResponseEntryView,
    q: Seq<char>,
)
    requires
        merge_step(acc, k, e) is Some,
        has_key(acc, q) || q == k@,
    ensures
        has_key(merge_step(acc, k, e)->0, q),
{
    lemma_key_index_bounds(acc, k@);
    lemma_key_index_bounds(acc, q);
    let r = merge_step(acc, k, e)->0;
    if has_key(acc, q) {
        let i = key_index(acc, q);
        assert(r[i].0@ == q);
        lemma_has_key_witness(r, q, i);
    } else if key_index(acc, k@) >= 0 {
        let j = key_index(acc, k@);
        assert(r[j].0@ == q);
        lemma_has_key_witness(r, q, j);
    } else {
        assert(r[acc.len() as int].0@ == q);
        lemma_has_key_witness(r, q, acc.len() as int);
    }
}

/// A merged response set keeps every status of both sets.
pub proof fn law_merge_keeps_statuses(
    a: Seq<(String, ResponseEntryView)>,
    b: Seq<(String, ResponseEntryView)>,
    q: Seq<char>,
)
    requires
        merge_all(a, b) is Some,
        has_key(a, q) || has_key(b, q),
    ensures
        has_key(merge_all(a, b)->0, q),
    decreases b.len(),
{
    if b.len() > 0 {
        let e = b.drop_last();
        lemma_key_index_bounds(b, q);
        if has_key(a, q) || has_key(e, q) {
            law_merge_keeps_statuses(a, e, q);
        } else {
            lemma_key_index_bounds(e, q);
            let i = key_index(b, q);
            if i < b.len() - 1 {
                assert(e[i].0@ == q);
                lemma_has_key_witness(e, q, i);
            }
        }
        lemma_merge_step_keys(merge_all(a, e)->0, b.last().0, b.last().1, q);
    }
}

/// Where both sets give a response in place for the same status, the merged response for it
/// is the two combined, success first, so its content types are those of both.
pub proof fn law_merge_combines_common_status(
    a: Seq<(String, ResponseEntryView)>,
    b: Seq<(String, ResponseEntryView)>,
    k: String,
    x: ResponseView,
    y: ResponseView,
)
    requires
        b == seq![(k, ResponseEntryView::Object(y))],
        has_key(a, k@),
        a[key_index(a, k@)].1 == ResponseEntryView::Object(x),
    ensures
        merge_all(a, b) matches Some(s) && s[key_index(a, k@)].1 == ResponseEntryView::Object(
            either_response(x, y),
        ),
        forall|q: Seq<char>| has_key(x.content, q) || has_key(y.content, q) ==> has_key(
            either_response(x, y).content,
            q,
        ),
{
    assert(b.drop_last() =~= Seq::<(String, ResponseEntryView)>::empty());
    assert(merge_all(a, b.drop_last()) == Some(a));
    assert(b.last() == (k, ResponseEntryView::Object(y)));
    lemma_key_index_bounds(a, k@);
    assert(merge_all(a, b) == merge_step(a, k, ResponseEntryView::Object(y)));
    assert forall|q: Seq<char>| has_key(x.content, q) || has_key(y.content, q) implies has_key(
        either_response(x, y).content,
        q,
    ) by {
        law_content_union(x.content, y.content, q);
    }
}

/// Every response of `s` is given in place.
pub open spec fn all_objects(s: Seq<(String, ResponseEntryView)>) -> bool {
    forall|i: int| 0 <= i < s.len() ==> (#[trigger] s[i].1) is Object
}

/// Merging sets whose responses are all given in place succeeds, and gives such a set.
pub proof fn lemma_merge_objects(a: Seq<(String, ResponseEntryView)>, b: Seq<(String, ResponseEntryView)>)
    requires
        all_objects(a),
        all_objects(b),
    ensures
        merge_all(a, b) is Some,
        all_objects(merge_all(a, b)->0),
    decreases b.len(),
{
    if b.len() > 0 {
        let e = b.drop_last();
        assert forall|i: int| 0 <= i < e.len() implies (#[trigger] e[i].1) is Object by {
            assert(e[i] == b[i]);
        }
        lemma_merge_objects(a, e);
        let p = merge_all(a, e)->0;
        let k = b.last().0;
        assert(b.last().1 is Object);
        lemma_key_index_bounds(p, k@);
        let j = key_index(p, k@);
        if j >= 0 {
            assert(p[j].1 is Object);
        }
        let r = merge_all(a, b)->0;
        assert forall|i: int| 0 <= i < r.len() implies (#[trigger] r[i].1) is Object by {
            if i < p.len() && i != j {
                assert(r[i] == p[i]);
            }
        }
    }
}

} // verus!
