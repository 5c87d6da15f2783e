use vstd::prelude::*;
use crate::engine::{shorten_code, shorten_links, shorten_with_codes, texts};
use crate::form::{form_pairs_of, form_url, last_value, multipart_url, multipart_value, shorten_field, MultipartField};
use crate::response::Outcome;
use crate::store::{long_for, opt_text, LinkTable};

verus! {

/// `o` is the outcome of submitting `value` for shortening against `links`
/// with candidate codes `cands`.
pub open spec fn submit_outcome(
    links: Map<Seq<char>, Seq<char>>,
    value: Option<Seq<char>>,
    cands: Seq<Seq<char>>,
    o: Outcome,
) -> bool {
    match value {
        None => o is Unprocessable,
        Some(u) => match shorten_code(links, u, cands) {
            Some(c) => o matches Outcome::Shortened(s) && s.code@ == c && s.created
                == !links.dom().contains(u),
            None => o is Unavailable,
        },
    }
}

/// The links after submitting `value` for shortening.
pub open spec fn submit_links(
    links: Map<Seq<char>, Seq<char>>,
    value: Option<Seq<char>>,
    cands: Seq<Seq<char>>,
) -> Map<Seq<char>, Seq<char>> {
    match value {
        None => links,
        Some(u) => shorten_links(links, u, cands),
    }
}

/// Shortens the submitted URL, if there is one, trying `candidates` as new
/// codes; a submission without a URL is unprocessable.
pub fn submit(table: &mut LinkTable, value: Option<String>, candidates: &Vec<String>) -> (r: Outcome)
    requires
        old(table).wf(),
    ensures
        final(table).wf(),
        final(table)@ == submit_links(old(table)@, opt_text(value), texts(candidates@)),
        submit_outcome(old(table)@, opt_text(value), texts(candidates@), r),
{
    match value {
        Some(url) => match shorten_with_codes(table, url.as_str(), candidates) {
            Ok(s) => Outcome::Shortened(s),
            Err(_) => Outcome::Unavailable,
        },
        None => Outcome::Unprocessable,
    }
}

/// Handles `POST /` with a url-encoded form body.
pub fn handle_form(table: &mut LinkTable, body: &[u8], candidates: &Vec<String>) -> (r: Outcome)
    requires
        old(table).wf(),
    ensures
        final(table).wf(),
        final(table)@ == submit_links(
            old(table)@,
            last_value(form_pairs_of(body@), shorten_field()),
            texts(candidates@),
        ),
        submit_outcome(
            old(table)@,
            last_value(form_pairs_of(body@), shorten_field()),
            texts(candidates@),
            r,
        ),
{
    let value = form_url(body);
    submit(table, value, candidates)
}

/// Handles `POST /` with a multipart body, given its first field.
pub fn handle_multipart(
    table: &mut LinkTable,
    first: Option<MultipartField>,
    candidates: &Vec<String>,
) -> (r: Outcome)
    requires
        old(table).wf(),
    ensures
        final(table).wf(),
        final(table)@ == submit_links(old(table)@, multipart_value(first), texts(candidates@)),
        submit_outcome(old(table)@, multipart_value(first), texts(candidates@), r),
{
    let value = multipart_url(first);
    submit(table, value, candidates)
}

/// Handles `GET /<code>`: a redirect to the stored URL, or not found.
pub fn resolve(table: &LinkTable, code: &str) -> (r: Outcome)
    requires
        table.wf(),
    ensures
        match long_for(table@, code@) {
            Some(u) => r matches Outcome::Redirect(l) && l@ == u,
            None => r is NotFound,
        },
{
    match table.find_by_short_code(code) {
        Some(url) => Outcome::Redirect(url),
        None => Outcome::NotFound,
    }
}

/// A URL sent once as a url-encoded form and once as a multipart field gets
/// one code: with the same candidates both encodings yield the same code,
/// and sending it again in the other encoding returns that code without a
/// new entry.
pub proof fn law_encodings_agree(
    links: Map<Seq<char>, Seq<char>>,
    body: Seq<u8>,
    first: Option<MultipartField>,
    c1: Seq<Seq<char>>,
    c2: Seq<Seq<char>>,
    o1: Outcome,
    o2: Outcome,
    o3: Outcome,
)
    requires
        last_value(form_pairs_of(body), shorten_field()) is Some,
        last_value(form_pairs_of(body), shorten_field()) == multipart_value(first),
        submit_outcome(links, last_value(form_pairs_of(body), shorten_field()), c1, o1),
        submit_outcome(links, multipart_value(first), c1, o2),
        submit_outcome(
            submit_links(links, last_value(form_pairs_of(body), shorten_field()), c1),
            multipart_value(first),
            c2,
            o3,
        ),
        o1 is Shortened,
    ensures
        o2 matches Outcome::Shortened(s2) && s2.code@ == o1->Shortened_0.code@,
        o3 matches Outcome::Shortened(s3) && s3.code@ == o1->Shortened_0.code@ && !s3.created,
        submit_links(
            submit_links(links, last_value(form_pairs_of(body), shorten_field()), c1),
            multipart_value(first),
            c2,
        ) == submit_links(links, last_value(form_pairs_of(body), shorten_field()), c1),
{
    let u = multipart_value(first)->Some_0;
    crate::engine::law_shorten_idempotent(links, u, c1, c2);
}

} // verus!
