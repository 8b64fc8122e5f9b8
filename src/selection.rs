use vstd::prelude::*;

use crate::catalog::{BookView, Library};

verus! {

/// What a selection token picks out of a list of candidate positions.
#[derive(Clone, Copy, Debug, PartialEq, Eq, Structural)]
pub enum Selection {
    /// The token asks for no selection (empty, or the cancel letter).
    Cancelled,
    /// The token names no candidate.
    NotFound,
    /// The catalog position of the chosen entry.
    Found(usize),
}

/// Lower-case form of a string, as Rust's Unicode case mapping gives it.
pub uninterp spec fn lower_of(s: Seq<char>) -> Seq<char>;

/// Relies on `str::to_lowercase`: the lower-case mapping of `s`, which depends on its
/// characters alone.
#[verifier::external_body]
fn lowercase(s: &str) -> (r: String)
    ensures
        r@ == lower_of(s@),
{
    s.to_lowercase()
}

pub open spec fn is_digit(c: char) -> bool {
    '0' <= c <= '9'
}

pub open spec fn all_digits(s: Seq<char>) -> bool {
    forall|i: int| 0 <= i < s.len() ==> is_digit(#[trigger] s[i])
}

/// Value of a string of decimal digits, most significant first.
pub open spec fn digits_value(s: Seq<char>) -> nat
    decreases s.len(),
{
    if s.len() == 0 {
        0
    } else {
        digits_value(s.drop_last()) * 10 + (s.last() as nat - '0' as nat) as nat
    }
}

/// The digits of a token once an optional leading `+` is dropped.
pub open spec fn unsigned_part(s: Seq<char>) -> Seq<char> {
    if s.len() > 0 && s[0] == '+' {
        s.drop_first()
    } else {
        s
    }
}

/// The number a token spells as an unsigned machine integer, if it spells one.
pub open spec fn token_number(s: Seq<char>) -> Option<nat> {
    let d = unsigned_part(s);
    if d.len() > 0 && all_digits(d) && digits_value(d) <= usize::MAX {
        Some(digits_value(d))
    } else {
        None
    }
}

/// The token asks for no selection: it is empty or a single `q` in either case.
pub open spec fn is_cancel(s: Seq<char>) -> bool {
    s.len() == 0 || s == seq!['q'] || s == seq!['Q']
}

/// First candidate whose identifier lower-cases to `key`.
pub open spec fn first_id_match(books: Seq<BookView>, candidates: Seq<usize>, key: Seq<char>) -> Option<usize>
    decreases candidates.len(),
{
    if candidates.len() == 0 {
        None
    } else if lower_of(books[candidates[0] as int].id) == key {
        Some(candidates[0])
    } else {
        first_id_match(books, candidates.drop_first(), key)
    }
}

/// What `token` selects among `candidates`: a 1-based position first, else an identifier
/// compared without regard to case.
pub open spec fn selection_of(books: Seq<BookView>, candidates: Seq<usize>, token: Seq<char>) -> Selection {
    if is_cancel(token) {
        Selection::Cancelled
    } else {
        match token_number(token) {
            Some(n) => if 1 <= n <= candidates.len() {
                Selection::Found(candidates[n - 1])
            } else {
                Selection::NotFound
            },
            None => match first_id_match(books, candidates, lower_of(token)) {
                Some(i) => Selection::Found(i),
                None => Selection::NotFound,
            },
        }
    }
}

/// Every candidate names an entry of the catalog.
pub open spec fn candidates_in(books: Seq<BookView>, candidates: Seq<usize>) -> bool {
    forall|i: int| 0 <= i < candidates.len() ==> (#[trigger] candidates[i]) < books.len()
}

proof fn lemma_digits_prefix(s: Seq<char>, k: int)
    requires
        0 <= k <= s.len(),
    ensures
        digits_value(s.subrange(0, k)) <= digits_value(s),
    decreases s.len(),
{
    if k < s.len() {
        assert(s.drop_last().subrange(0, k) =~= s.subrange(0, k));
        lemma_digits_prefix(s.drop_last(), k);
    } else {
        assert(s.subrange(0, k) =~= s);
    }
}

/// The number that `token` spells (an optional `+`, then decimal digits), if it fits.
pub fn parse_number(token: &str) -> (r: Option<usize>)
    ensures
        r matches Some(n) ==> token_number(token@) == Some(n as nat),
        r is None ==> token_number(token@) is None,
{
    let n = token.unicode_len();
    let mut start: usize = 0;
    if n > 0 && token.get_char(0) == '+' {
        start = 1;
    }
    let ghost d = unsigned_part(token@);
    assert(d =~= token@.subrange(start as int, n as int));
    if start == n {
        return None;
    }
    let mut value: usize = 0;
    let mut i: usize = start;
    while i < n
        invariant
            n == token@.len(),
            start <= i <= n,
            d == token@.subrange(start as int, n as int),
            d == unsigned_part(token@),
            all_digits(d.subrange(0, i - start)),
            value as nat == digits_value(d.subrange(0, i - start)),
        decreases n - i,
    {
        let c = token.get_char(i);
        let ghost prefix = d.subrange(0, i + 1 - start);
        assert(prefix.drop_last() =~= d.subrange(0, i - start));
        assert(d[i - start] == c);
        assert(prefix.last() == c);
        if c < '0' || c > '9' {
            assert(!is_digit(d[i - start]));
            assert(!all_digits(d));
            return None;
        }
        let digit = (c as u32 - '0' as u32) as usize;
        assert(digits_value(prefix) == value as nat * 10 + digit as nat);
        let next = match value.checked_mul(10) {
            Some(t) => t.checked_add(digit),
            None => None,
        };
        match next {
            Some(v) => {
                value = v;
            },
            None => {
                proof {
                    if all_digits(d) {
                        lemma_digits_prefix(d, i + 1 - start);
                    }
                }
                return None;
            },
        }
        i = i + 1;
    }
    assert(d.subrange(0, n - start) =~= d);
    Some(value)
}

/// Among three candidates, `"2"` picks the second, `"0"` and `"4"` pick nothing, and the
/// empty token cancels.
pub proof fn lemma_select_among_three(books: Seq<BookView>, candidates: Seq<usize>)
    requires
        candidates.len() == 3,
    ensures
        selection_of(books, candidates, seq!['2']) == Selection::Found(candidates[1]),
        selection_of(books, candidates, seq!['0']) == Selection::NotFound,
        selection_of(books, candidates, seq!['4']) == Selection::NotFound,
        selection_of(books, candidates, Seq::<char>::empty()) == Selection::Cancelled,
{
    let two = seq!['2'];
    let zero = seq!['0'];
    let four = seq!['4'];
    assert(two.drop_last() =~= Seq::<char>::empty());
    assert(zero.drop_last() =~= Seq::<char>::empty());
    assert(four.drop_last() =~= Seq::<char>::empty());
    assert(two != seq!['q'] && two != seq!['Q']) by {
        assert(two[0] != seq!['q'][0] && two[0] != seq!['Q'][0]);
    }
    assert(zero != seq!['q'] && zero != seq!['Q']) by {
        assert(zero[0] != seq!['q'][0] && zero[0] != seq!['Q'][0]);
    }
    assert(four != seq!['q'] && four != seq!['Q']) by {
        assert(four[0] != seq!['q'][0] && four[0] != seq!['Q'][0]);
    }
    assert(token_number(two) == Some(2nat));
    assert(token_number(zero) == Some(0nat));
    assert(token_number(four) == Some(4nat));
}

/// A token that is neither a cancellation nor a number picks the first candidate whose
/// identifier has the same lower-case form as the token, whatever the letter case of either.
pub proof fn lemma_select_by_id(books: Seq<BookView>, candidates: Seq<usize>, token: Seq<char>, j: int)
    requires
        0 <= j < candidates.len(),
        !is_cancel(token),
        token_number(token) is None,
        lower_of(books[candidates[j] as int].id) == lower_of(token),
        forall|k: int| 0 <= k < j ==> lower_of(books[#[trigger] candidates[k] as int].id) != lower_of(token),
    ensures
        selection_of(books, candidates, token) == Selection::Found(candidates[j]),
    decreases j,
{
    if j > 0 {
        let rest = candidates.drop_first();
        assert forall|k: int| 0 <= k < j - 1 implies lower_of(books[#[trigger] rest[k] as int].id) != lower_of(token) by {
            assert(rest[k] == candidates[k + 1]);
        }
        assert(rest[j - 1] == candidates[j]);
        lemma_select_by_id(books, rest, token, j - 1);
        assert(lower_of(books[candidates[0] as int].id) != lower_of(token));
    }
}

/// Whether `token` asks for no selection: empty, or a single `q` in either case.
pub fn is_cancel_token(token: &str) -> (r: bool)
    ensures
        r == is_cancel(token@),
{
    let n = token.unicode_len();
    if n == 0 {
        return true;
    }
    if n != 1 {
        return false;
    }
    let c = token.get_char(0);
    if c == 'q' {
        assert(token@ =~= seq!['q']);
        true
    } else if c == 'Q' {
        assert(token@ =~= seq!['Q']);
        true
    } else {
        assert(token@ != seq!['q'] && token@ != seq!['Q']) by {
            assert(seq!['q'][0] == 'q');
            assert(seq!['Q'][0] == 'Q');
        }
        false
    }
}

/// The first of `candidates` whose identifier, lower-cased, equals `key`.
pub fn find_by_id(library: &Library, candidates: &[usize], key: &String) -> (r: Option<usize>)
    requires
        candidates_in(library@, candidates@),
    ensures
        r == first_id_match(library@, candidates@, key@),
{
    let n = candidates.len();
    let mut i: usize = 0;
    assert(candidates@.subrange(0, n as int) =~= candidates@);
    while i < n
        invariant
            n == candidates@.len(),
            i <= n,
            candidates_in(library@, candidates@),
            first_id_match(library@, candidates@, key@) == first_id_match(
                library@,
                candidates@.subrange(i as int, n as int),
                key@,
            ),
        decreases n - i,
    {
        let ghost rest = candidates@.subrange(i as int, n as int);
        assert(rest.drop_first() =~= candidates@.subrange(i + 1, n as int));
        assert(rest[0] == candidates@[i as int]);
        let idx = candidates[i];
        let lowered = lowercase(library.books[idx].id.as_str());
        if lowered == *key {
            return Some(idx);
        }
        i = i + 1;
    }
    None
}

/// Resolves a selection token against `candidates`, catalog positions in the order they
/// were shown. A token that spells a number picks the candidate at that 1-based position
/// (or nothing, when out of range); any other token picks the first candidate whose
/// identifier matches it without regard to case.
pub fn resolve_selection(library: &Library, candidates: &[usize], token: &str) -> (r: Selection)
    requires
        candidates_in(library@, candidates@),
    ensures
        r == selection_of(library@, candidates@, token@),
{
    if is_cancel_token(token) {
        return Selection::Cancelled;
    }
    match parse_number(token) {
        Some(num) => {
            if num >= 1 && num <= candidates.len() {
                Selection::Found(candidates[num - 1])
            } else {
                Selection::NotFound
            }
        },
        None => {
            let key = lowercase(token);
            match find_by_id(library, candidates, &key) {
                Some(idx) => Selection::Found(idx),
                None => Selection::NotFound,
            }
        },
    }
}

} // verus!
