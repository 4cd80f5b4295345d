//! Searching in text, and the small extractions built on it.
use vstd::prelude::*;
use vstd::string::*;

verus! {

pub open spec fn occurs_at(s: Seq<char>, p: Seq<char>, i: int) -> bool {
    0 <= i && i + p.len() <= s.len() && s.subrange(i, i + p.len()) == p
}

/// The first position at or after `i` where `p` occurs in `s`.
pub open spec fn first_occurrence_from(s: Seq<char>, p: Seq<char>, i: int) -> Option<int>
    decreases s.len() + 1 - i,
{
    if i < 0 || i + p.len() > s.len() {
        None
    } else if occurs_at(s, p, i) {
        Some(i)
    } else {
        first_occurrence_from(s, p, i + 1)
    }
}

pub open spec fn contains(s: Seq<char>, p: Seq<char>) -> bool {
    first_occurrence_from(s, p, 0) is Some
}

pub open spec fn opt_int(o: Option<usize>) -> Option<int> {
    match o {
        Some(k) => Some(k as int),
        None => None,
    }
}

/// Finds the first occurrence of `p` in `s` at or after position `from`
/// (positions count characters).
pub fn find_text(s: &str, p: &str, from: usize) -> (r: Option<usize>)
    ensures
        opt_int(r) == first_occurrence_from(s@, p@, from as int),
        r matches Some(k) ==> k + p@.len() <= s@.len() <= usize::MAX,
{
    let n = s.unicode_len();
    let m = p.unicode_len();
    let mut i: usize = from;
    while i <= n && m <= n - i
        invariant
            n == s@.len(),
            m == p@.len(),
            from <= i,
            first_occurrence_from(s@, p@, i as int) == first_occurrence_from(s@, p@, from as int),
        decreases n + 1 - i,
    {
        let mut j: usize = 0;
        while j < m && s.get_char(i + j) == p.get_char(j)
            invariant
                j <= m,
                i + m <= n,
                n == s@.len(),
                m == p@.len(),
                forall|k: int| 0 <= k < j ==> s@[i + k] == p@[k],
            decreases m - j,
        {
            j = j + 1;
        }
        if j == m {
            assert(s@.subrange(i as int, i + m) =~= p@);
            return Some(i);
        }
        proof {
            if occurs_at(s@, p@, i as int) {
                assert(s@.subrange(i as int, i + m)[j as int] == p@[j as int]);
            }
        }
        i = i + 1;
    }
    None
}

/// Whether `p` occurs in `s`.
pub fn contains_text(s: &str, p: &str) -> (r: bool)
    ensures
        r == contains(s@, p@),
{
    find_text(s, p, 0).is_some()
}

/// The API key of a configuration document: the text between the first
/// `<apikey>` and the next `</apikey>` after it.
pub open spec fn api_key_of(c: Seq<char>) -> Option<Seq<char>> {
    match first_occurrence_from(c, "<apikey>"@, 0) {
        None => None,
        Some(st) => match first_occurrence_from(c, "</apikey>"@, st + 8) {
            None => None,
            Some(e) => Some(c.subrange(st + 8, e)),
        },
    }
}

proof fn lemma_first_occurrence_bounds(s: Seq<char>, p: Seq<char>, i: int)
    ensures
        first_occurrence_from(s, p, i) matches Some(k) ==> i <= k && k + p.len() <= s.len(),
    decreases s.len() + 1 - i,
{
    if !(i < 0 || i + p.len() > s.len()) && !occurs_at(s, p, i) {
        lemma_first_occurrence_bounds(s, p, i + 1);
    }
}

/// Extracts the API key from the text of the daemon's configuration file.
pub fn extract_api_key(content: &str) -> (r: Option<String>)
    ensures
        r matches Some(k) ==> api_key_of(content@) == Some(k@),
        r is None ==> api_key_of(content@) is None,
{
    proof {
        reveal_strlit("<apikey>");
    }
    match find_text(content, "<apikey>", 0) {
        None => None,
        Some(st) => {
            proof {
                lemma_first_occurrence_bounds(content@, "<apikey>"@, 0);
            }
            match find_text(content, "</apikey>", st + 8) {
                None => None,
                Some(e) => {
                    proof {
                        lemma_first_occurrence_bounds(content@, "</apikey>"@, st + 8);
                    }
                    Some(String::from_str(content.substring_char(st + 8, e)))
                },
            }
        },
    }
}

} // verus!
