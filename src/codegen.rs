use vstd::prelude::*;

verus! {

/// Number of characters in a short code.
pub const CODE_LEN: usize = 4;

/// A character of the URL-safe code alphabet: `_`, `-`, digits and ASCII
/// letters.
pub open spec fn is_code_char(c: char) -> bool {
    ||| c == '_'
    ||| c == '-'
    ||| ('0' <= c && c <= '9')
    ||| ('a' <= c && c <= 'z')
    ||| ('A' <= c && c <= 'Z')
}

/// A well-formed short code: `CODE_LEN` characters of the code alphabet.
pub open spec fn is_code(s: Seq<char>) -> bool {
    &&& s.len() == CODE_LEN
    &&& forall|i: int| 0 <= i < s.len() ==> #[trigger] is_code_char(s[i])
}

/// Relies on `nanoid::format` with nanoid's default random source and its
/// `SAFE` alphabet (`_`, `-`, `0-9`, `a-z`, `A-Z`): it returns a string of
/// exactly the requested size drawn from that alphabet.
#[verifier::external_body]
fn random_code() -> (r: String)
    ensures
        is_code(r@),
{
    nanoid::format(nanoid::rngs::default, &nanoid::alphabet::SAFE, CODE_LEN)
}

/// Draws `n` fresh random codes. They do not depend on any URL.
pub fn draw_codes(n: usize) -> (r: Vec<String>)
    ensures
        r@.len() == n,
        forall|i: int| 0 <= i < n ==> #[trigger] is_code(r@[i]@),
{
    let mut codes: Vec<String> = Vec::new();
    let mut i: usize = 0;
    while i < n
        invariant
            i <= n,
            codes@.len() == i,
            forall|j: int| 0 <= j < i ==> #[trigger] is_code(codes@[j]@),
        decreases n - i,
    {
        codes.push(random_code());
        i = i + 1;
    }
    codes
}

} // verus!
