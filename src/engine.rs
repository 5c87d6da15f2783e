use vstd::prelude::*;
use crate::codegen::{draw_codes, is_code};
use crate::store::{code_taken, codes_unique, long_for, LinkTable};

verus! {

/// How many candidate codes `shorten` tries before giving up.
pub const MAX_ATTEMPTS: usize = 8;

/// The code assigned to a URL, and whether this call created the entry.
pub struct Shortened {
    pub code: String,
    pub created: bool,
}

/// Every candidate code was already taken.
#[derive(Debug, PartialEq, Eq, Structural)]
pub enum ShortenError {
    CollisionExhausted,
}

/// The characters of each string.
pub open spec fn texts(v: Seq<String>) -> Seq<Seq<char>> {
    v.map_values(|s: String| s@)
}

/// The first candidate that no URL holds yet.
pub open spec fn first_free(links: Map<Seq<char>, Seq<char>>, cands: Seq<Seq<char>>) -> Option<
    Seq<char>,
>
    decreases cands.len(),
{
    if cands.len() == 0 {
        None
    } else if !code_taken(links, cands[0]) {
        Some(cands[0])
    } else {
        first_free(links, cands.drop_first())
    }
}

/// The code that shortening `url` yields: the stored one if there is one,
/// else the first free candidate.
pub open spec fn shorten_code(
    links: Map<Seq<char>, Seq<char>>,
    url: Seq<char>,
    cands: Seq<Seq<char>>,
) -> Option<Seq<char>> {
    if links.dom().contains(url) {
        Some(links[url])
    } else {
        first_free(links, cands)
    }
}

/// The links after shortening `url`: a new entry only when `url` was absent
/// and a free candidate was found.
pub open spec fn shorten_links(
    links: Map<Seq<char>, Seq<char>>,
    url: Seq<char>,
    cands: Seq<Seq<char>>,
) -> Map<Seq<char>, Seq<char>> {
    match first_free(links, cands) {
        Some(c) if !links.dom().contains(url) => links.insert(url, c),
        _ => links,
    }
}

/// A free candidate is one of the candidates, and is not taken.
pub proof fn lemma_first_free(links: Map<Seq<char>, Seq<char>>, cands: Seq<Seq<char>>)
    ensures
        first_free(links, cands) matches Some(c) ==> cands.contains(c) && !code_taken(links, c),
    decreases cands.len(),
{
    if cands.len() > 0 && code_taken(links, cands[0]) {
        lemma_first_free(links, cands.drop_first());
        if let Some(c) = first_free(links, cands.drop_first()) {
            let k = choose|k: int| 0 <= k < cands.drop_first().len() && cands.drop_first()[k] == c;
            assert(cands[k + 1] == c);
        }
    } else if cands.len() > 0 {
        assert(cands[0] == cands[0]);
    }
}

/// Shortening keeps every short code unique.
pub proof fn lemma_shorten_keeps_codes_unique(
    links: Map<Seq<char>, Seq<char>>,
    url: Seq<char>,
    cands: Seq<Seq<char>>,
)
    requires
        codes_unique(links),
    ensures
        codes_unique(shorten_links(links, url, cands)),
{
    lemma_first_free(links, cands);
    if let Some(c) = first_free(links, cands) {
        if !links.dom().contains(url) {
            let m = links.insert(url, c);
            assert forall|u1: Seq<char>, u2: Seq<char>|
                m.dom().contains(u1) && m.dom().contains(u2) && u1 != u2 implies #[trigger] m[u1]
                != #[trigger] m[u2] by {
                if u1 == url {
                    assert(links.dom().contains(u2) && links[u2] == m[u2]);
                } else if u2 == url {
                    assert(links.dom().contains(u1) && links[u1] == m[u1]);
                }
            }
        }
    }
}

/// Shortens `url` using `candidates` as the codes to try, in order: returns
/// the code already stored for `url`, or stores and returns the first
/// candidate that no other URL holds.
pub fn shorten_with_codes(table: &mut LinkTable, url: &str, candidates: &Vec<String>) -> (r: Result<
    Shortened,
    ShortenError,
>)
    requires
        old(table).wf(),
    ensures
        final(table).wf(),
        final(table)@ == shorten_links(old(table)@, url@, texts(candidates@)),
        match r {
            Ok(s) => shorten_code(old(table)@, url@, texts(candidates@)) == Some(s.code@)
                && s.created == !old(table)@.dom().contains(url@),
            Err(_) => shorten_code(old(table)@, url@, texts(candidates@)) is None,
        },
{
    if let Some(code) = table.find_by_long_url(url) {
        return Ok(Shortened { code, created: false });
    }
    let ghost links = table@;
    let ghost cands = texts(candidates@);
    let mut i: usize = 0;
    assert(cands.subrange(0, cands.len() as int) =~= cands);
    while i < candidates.len()
        invariant
            table.wf(),
            table@ == links,
            links == old(table)@,
            !links.dom().contains(url@),
            cands == texts(candidates@),
            i <= candidates@.len(),
            first_free(links, cands) == first_free(links, cands.subrange(i as int, cands.len() as int)),
        decreases candidates@.len() - i,
    {
        let code = candidates[i].clone();
        let ghost rest = cands.subrange(i as int, cands.len() as int);
        assert(rest[0] == code@);
        match table.insert(url.to_owned(), code.clone()) {
            Ok(()) => {
                assert(first_free(links, rest) == Some(code@));
                return Ok(Shortened { code, created: true });
            },
            Err(_) => {
                assert(rest.drop_first() =~= cands.subrange(i + 1, cands.len() as int));
            },
        }
        i = i + 1;
    }
    assert(cands.subrange(i as int, cands.len() as int) =~= Seq::<Seq<char>>::empty());
    Err(ShortenError::CollisionExhausted)
}

/// Shortens `url`: returns the code already stored for it, or stores a new
/// random code, trying up to `MAX_ATTEMPTS` codes before giving up.
pub fn shorten(table: &mut LinkTable, url: &str) -> (r: Result<Shortened, ShortenError>)
    requires
        old(table).wf(),
    ensures
        final(table).wf(),
        old(table)@.dom().contains(url@) ==> (r matches Ok(s) && !s.created && s.code@ == old(
            table,
        )@[url@] && final(table)@ == old(table)@),
        !old(table)@.dom().contains(url@) ==> match r {
            Ok(s) => s.created && is_code(s.code@) && !code_taken(old(table)@, s.code@)
                && final(table)@ == old(table)@.insert(url@, s.code@),
            Err(_) => final(table)@ == old(table)@,
        },
        old(table)@ == Map::<Seq<char>, Seq<char>>::empty() ==> r is Ok,
{
    if let Some(code) = table.find_by_long_url(url) {
        return Ok(Shortened { code, created: false });
    }
    let candidates = draw_codes(MAX_ATTEMPTS);
    let ghost links = table@;
    let r = shorten_with_codes(table, url, &candidates);
    proof {
        if links == Map::<Seq<char>, Seq<char>>::empty() {
            assert(!code_taken(links, texts(candidates@)[0]));
        }
        lemma_first_free(links, texts(candidates@));
        if let Some(c) = first_free(links, texts(candidates@)) {
            let k = choose|k: int|
                0 <= k < texts(candidates@).len() && texts(candidates@)[k] == c;
            assert(is_code(candidates@[k]@));
        }
    }
    r
}

/// Shortening the same URL twice gives the same code, and the second call
/// leaves the links as the first one left them.
pub proof fn law_shorten_idempotent(
    links: Map<Seq<char>, Seq<char>>,
    url: Seq<char>,
    first: Seq<Seq<char>>,
    second: Seq<Seq<char>>,
)
    requires
        shorten_code(links, url, first) is Some,
    ensures
        shorten_links(links, url, first).dom().contains(url),
        shorten_code(shorten_links(links, url, first), url, second) == shorten_code(
            links,
            url,
            first,
        ),
        shorten_links(shorten_links(links, url, first), url, second) == shorten_links(
            links,
            url,
            first,
        ),
{
}

/// Two distinct URLs shortened one after the other get distinct codes.
pub proof fn law_distinct_urls_distinct_codes(
    links: Map<Seq<char>, Seq<char>>,
    u1: Seq<char>,
    u2: Seq<char>,
    c1: Seq<Seq<char>>,
    c2: Seq<Seq<char>>,
)
    requires
        codes_unique(links),
        u1 != u2,
        shorten_code(links, u1, c1) is Some,
        shorten_code(shorten_links(links, u1, c1), u2, c2) is Some,
    ensures
        shorten_code(links, u1, c1) != shorten_code(shorten_links(links, u1, c1), u2, c2),
{
    let l1 = shorten_links(links, u1, c1);
    lemma_shorten_keeps_codes_unique(links, u1, c1);
    lemma_shorten_keeps_codes_unique(l1, u2, c2);
    let l2 = shorten_links(l1, u2, c2);
    assert(l1.dom().contains(u1));
    assert(l2.dom().contains(u1) && l2[u1] == l1[u1]);
    assert(l2.dom().contains(u2) && l2[u2] == shorten_code(l1, u2, c2)->Some_0);
}

/// The code that shortening yields resolves back to the shortened URL.
pub proof fn law_round_trip(
    links: Map<Seq<char>, Seq<char>>,
    url: Seq<char>,
    cands: Seq<Seq<char>>,
)
    requires
        codes_unique(links),
        shorten_code(links, url, cands) is Some,
    ensures
        long_for(shorten_links(links, url, cands), shorten_code(links, url, cands)->Some_0) == Some(
            url,
        ),
{
    lemma_shorten_keeps_codes_unique(links, url, cands);
    crate::store::lemma_long_for_unique(shorten_links(links, url, cands), url);
}

/// When the candidates are `n` copies of a taken code followed by a free
/// one, shortening a new URL skips the collisions, returns the free code and
/// adds exactly one entry.
pub proof fn law_collision_retry(
    links: Map<Seq<char>, Seq<char>>,
    url: Seq<char>,
    taken: Seq<char>,
    n: nat,
    fresh: Seq<char>,
)
    requires
        !links.dom().contains(url),
        code_taken(links, taken),
        !code_taken(links, fresh),
    ensures
        shorten_code(links, url, Seq::new(n, |i: int| taken).push(fresh)) == Some(fresh),
        shorten_links(links, url, Seq::new(n, |i: int| taken).push(fresh)) == links.insert(
            url,
            fresh,
        ),
    decreases n,
{
    let cands = Seq::new(n, |i: int| taken).push(fresh);
    if n > 0 {
        law_collision_retry(links, url, taken, (n - 1) as nat, fresh);
        assert(cands.drop_first() =~= Seq::new((n - 1) as nat, |i: int| taken).push(fresh));
    } else {
        assert(cands[0] == fresh);
    }
}

} // verus!
