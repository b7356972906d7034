//! Verified helpers on strings, seen as sequences of characters.
use vstd::prelude::*;

verus! {

/// Copies the characters of `s` into a vector.
pub fn chars_of(s: &str) -> (out: Vec<char>)
    ensures
        out@ == s@,
{
    let mut out: Vec<char> = Vec::new();
    for c in it: s.chars()
        invariant
            out@ == it.seq().take(it.index() as int),
            it.seq() == s@,
    {
        out.push(c);
    }
    out
}

/// Whether two string slices hold the same characters.
pub fn same_text(a: &str, b: &str) -> (same: bool)
    ensures
        same == (a@ == b@),
{
    let left = a.to_owned();
    let right = b.to_owned();
    left == right
}

/// The tokens of `tokens`, each after the first preceded by `sep`.
pub open spec fn join(tokens: Seq<Seq<char>>, sep: Seq<char>) -> Seq<char>
    decreases tokens.len(),
{
    if tokens.len() == 0 {
        Seq::empty()
    } else if tokens.len() == 1 {
        tokens[0]
    } else {
        join(tokens.drop_last(), sep) + sep + tokens.last()
    }
}

/// The views of a vector of strings.
pub open spec fn texts(v: Seq<String>) -> Seq<Seq<char>> {
    v.map_values(|s: String| s@)
}

/// Joins `tokens` with `sep` between neighbours.
pub fn join_tokens(tokens: &Vec<String>, sep: &str) -> (out: String)
    ensures
        out@ == join(texts(tokens@), sep@),
{
    let mut out = String::new();
    let mut i: usize = 0;
    while i < tokens.len()
        invariant
            i <= tokens.len(),
            out@ == join(texts(tokens@).take(i as int), sep@),
        decreases tokens.len() - i,
    {
        let ghost before = texts(tokens@).take(i as int);
        let ghost after = texts(tokens@).take(i + 1);
        proof {
            assert(after.drop_last() =~= before);
            assert(after.last() == tokens@[i as int]@);
        }
        if i > 0 {
            out.append(sep);
        }
        out.append(tokens[i].as_str());
        proof {
            if i == 0 {
                assert(out@ =~= after[0]);
            } else {
                assert(out@ =~= join(before, sep@) + sep@ + after.last());
            }
        }
        i += 1;
    }
    proof {
        assert(texts(tokens@).take(tokens.len() as int) =~= texts(tokens@));
    }
    out
}

/// Whether `a`, read from position `i` on, comes no later than `b` read from
/// the same position, character by character: the first difference decides,
/// by code point, and a text that ends first comes first.
pub open spec fn le_from(a: Seq<char>, b: Seq<char>, i: int) -> bool
    decreases a.len() - i,
{
    if i < 0 || i >= a.len() {
        true
    } else if i >= b.len() {
        false
    } else if a[i] != b[i] {
        (a[i] as int) < (b[i] as int)
    } else {
        le_from(a, b, i + 1)
    }
}

/// Whether `a` comes no later than `b` in dictionary order by code point.
pub open spec fn text_le(a: Seq<char>, b: Seq<char>) -> bool {
    le_from(a, b, 0)
}

/// Whether `a` comes no later than `b` in dictionary order by code point.
pub fn chars_le(a: &Vec<char>, b: &Vec<char>) -> (out: bool)
    ensures
        out == text_le(a@, b@),
{
    let mut i: usize = 0;
    while i < a.len()
        invariant
            i <= a.len(),
            i <= b.len(),
            text_le(a@, b@) == le_from(a@, b@, i as int),
        decreases a.len() - i,
    {
        if i >= b.len() {
            return false;
        }
        if a[i] != b[i] {
            return a[i] < b[i];
        }
        i += 1;
    }
    true
}

/// The tokens that `token` gives at the positions below `n` where `belongs`
/// holds, each token once, in the order in which they first occur.
pub open spec fn collect(
    n: int,
    belongs: spec_fn(int) -> bool,
    token: spec_fn(int) -> Seq<char>,
) -> Seq<Seq<char>>
    decreases n,
{
    if n <= 0 {
        Seq::empty()
    } else {
        let before = collect(n - 1, belongs, token);
        if belongs(n - 1) && !before.contains(token(n - 1)) {
            before.push(token(n - 1))
        } else {
            before
        }
    }
}

/// Appends `token` unless `tokens` holds it already.
pub fn push_distinct(tokens: &mut Vec<String>, token: &str)
    ensures
        texts(final(tokens)@) == (if texts(old(tokens)@).contains(token@) {
            texts(old(tokens)@)
        } else {
            texts(old(tokens)@).push(token@)
        }),
{
    let mut i: usize = 0;
    while i < tokens.len()
        invariant
            i <= tokens.len(),
            forall|j: int| 0 <= j < i ==> (#[trigger] texts(tokens@)[j]) != token@,
        decreases tokens.len() - i,
    {
        if same_text(tokens[i].as_str(), token) {
            assert(texts(tokens@)[i as int] == token@);
            return ;
        }
        i += 1;
    }
    let ghost before = texts(tokens@);
    tokens.push(token.to_owned());
    proof {
        assert(texts(tokens@) =~= before.push(token@));
    }
}

} // verus!
