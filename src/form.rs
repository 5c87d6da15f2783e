use vstd::prelude::*;
use crate::store::opt_text;

verus! {

/// Name of the form field that carries the URL to shorten.
pub open spec fn shorten_field() -> Seq<char> {
    "shorten"@
}

/// The name/value pairs that a url-encoded form body decodes to, in order.
pub uninterp spec fn form_pairs_of(body: Seq<u8>) -> Seq<(Seq<char>, Seq<char>)>;

/// The characters of each name and value.
pub open spec fn pair_texts(pairs: Seq<(String, String)>) -> Seq<(Seq<char>, Seq<char>)> {
    pairs.map_values(|p: (String, String)| (p.0@, p.1@))
}

/// Relies on `url::form_urlencoded::parse`: it splits the body on `&` and
/// `=` and percent-decodes each name and value, yielding the pairs in
/// order.
#[verifier::external_body]
fn parse_form(body: &[u8]) -> (r: Vec<(String, String)>)
    ensures
        pair_texts(r@) == form_pairs_of(body@),
{
    url::form_urlencoded::parse(body).into_owned().collect()
}

/// The value of the last pair named `key`: a later pair overrides an
/// earlier one, as when the pairs are collected into a map.
pub open spec fn last_value(pairs: Seq<(Seq<char>, Seq<char>)>, key: Seq<char>) -> Option<
    Seq<char>,
>
    decreases pairs.len(),
{
    if pairs.len() == 0 {
        None
    } else if pairs.last().0 == key {
        Some(pairs.last().1)
    } else {
        last_value(pairs.drop_last(), key)
    }
}

/// The value bound to `key` in decoded form pairs.
pub fn form_value(pairs: &Vec<(String, String)>, key: &str) -> (r: Option<String>)
    ensures
        opt_text(r) == last_value(pair_texts(pairs@), key@),
{
    let ghost all = pair_texts(pairs@);
    let wanted = key.to_owned();
    let mut i: usize = pairs.len();
    assert(all.subrange(0, i as int) =~= all);
    while i > 0
        invariant
            i <= pairs@.len(),
            all == pair_texts(pairs@),
            wanted@ == key@,
            last_value(all, key@) == last_value(all.subrange(0, i as int), key@),
        decreases i,
    {
        let ghost prefix = all.subrange(0, i as int);
        i = i - 1;
        let pair = &pairs[i];
        assert(prefix.last() == (pair.0@, pair.1@));
        if pair.0 == wanted {
            assert(last_value(prefix, key@) == Some(pair.1@));
            return Some(pair.1.clone());
        }
        assert(prefix.drop_last() =~= all.subrange(0, i as int));
    }
    None
}

/// The URL to shorten in a url-encoded form body.
pub fn form_url(body: &[u8]) -> (r: Option<String>)
    ensures
        opt_text(r) == last_value(form_pairs_of(body@), shorten_field()),
{
    let pairs = parse_form(body);
    form_value(&pairs, "shorten")
}

/// The first field of a multipart body: its name, if it has one, and its
/// content, if that decodes as text.
pub struct MultipartField {
    pub name: Option<String>,
    pub text: Option<String>,
}

/// The URL to shorten carried by the first field of a multipart body: its
/// text, when the field is named `shorten` and its content is text.
pub open spec fn multipart_value(first: Option<MultipartField>) -> Option<Seq<char>> {
    match first {
        Some(f) => if opt_text(f.name) == Some(shorten_field()) {
            opt_text(f.text)
        } else {
            None
        },
        None => None,
    }
}

/// The URL to shorten in a multipart body, given its first field (`None`
/// when the body has no field or does not parse).
pub fn multipart_url(first: Option<MultipartField>) -> (r: Option<String>)
    ensures
        opt_text(r) == multipart_value(first),
{
    match first {
        Some(f) => {
            let named = match &f.name {
                Some(n) => *n == String::from_str("shorten"),
                None => false,
            };
            if named {
                f.text
            } else {
                None
            }
        },
        None => None,
    }
}

} // verus!
