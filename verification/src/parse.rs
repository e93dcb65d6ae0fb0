//! Parsing of inbound request paths and query strings into plain values:
//! the first path segment names the target bucket, and a query string is a
//! `&`-separated list of `key=value` or bare `key` pairs.

use vstd::prelude::*;

use crate::record::{lemma_pairs_map_push, lemma_pairs_map_update, pairs_map, unique_keys};

verus! {

/// The path with every leading `/` removed.
pub open spec fn skip_slashes(path: Seq<char>) -> Seq<char>
    decreases path.len(),
{
    if path.len() > 0 && path[0] == '/' {
        skip_slashes(path.drop_first())
    } else {
        path
    }
}

/// The longest prefix that holds no `/`.
pub open spec fn take_until_slash(s: Seq<char>) -> Seq<char>
    decreases s.len(),
{
    if s.len() == 0 || s[0] == '/' {
        Seq::empty()
    } else {
        seq![s[0]] + take_until_slash(s.drop_first())
    }
}

/// The bucket name a request path resolves to: the first non-empty path
/// segment, or nothing when the path holds no such segment.
pub open spec fn spec_extract_bucket_name(path: Seq<char>) -> Option<Seq<char>> {
    let rest = skip_slashes(path);
    if rest.len() == 0 {
        None
    } else {
        Some(take_until_slash(rest))
    }
}

proof fn lemma_skip_slashes_at(path: Seq<char>, i: int)
    requires
        0 <= i <= path.len(),
        forall|k: int| 0 <= k < i ==> path[k] == '/',
        i < path.len() ==> path[i] != '/',
    ensures
        skip_slashes(path) == path.subrange(i, path.len() as int),
    decreases i,
{
    if i == 0 {
        assert(path =~= path.subrange(0, path.len() as int));
    } else {
        lemma_skip_slashes_at(path.drop_first(), i - 1);
        assert(path.drop_first().subrange(i - 1, path.len() - 1) =~= path.subrange(
            i,
            path.len() as int,
        ));
    }
}

proof fn lemma_take_until_slash_at(s: Seq<char>, j: int)
    requires
        0 <= j <= s.len(),
        forall|k: int| 0 <= k < j ==> s[k] != '/',
        j < s.len() ==> s[j] == '/',
    ensures
        take_until_slash(s) == s.subrange(0, j),
    decreases j,
{
    if j == 0 {
        assert(take_until_slash(s) =~= s.subrange(0, 0));
    } else {
        lemma_take_until_slash_at(s.drop_first(), j - 1);
        assert(seq![s[0]] + s.drop_first().subrange(0, j - 1) =~= s.subrange(0, j));
    }
}

/// Resolves the bucket name a request path targets: strips leading slashes
/// and takes what stands before the next `/`. A path with no non-empty
/// segment resolves to nothing.
pub fn extract_bucket_name(path: &str) -> (r: Option<String>)
    ensures
        ({
            match r {
                None => spec_extract_bucket_name(path@) is None,
                Some(name) => spec_extract_bucket_name(path@) == Some(name@),
            }
        }),
{
    let len = path.unicode_len();
    let mut i: usize = 0;
    while i < len && path.get_char(i) == '/'
        invariant
            len == path@.len(),
            i <= len,
            forall|k: int| 0 <= k < i ==> path@[k] == '/',
        decreases len - i,
    {
        i = i + 1;
    }
    proof {
        lemma_skip_slashes_at(path@, i as int);
    }
    if i == len {
        return None;
    }
    let mut j: usize = i;
    while j < len && path.get_char(j) != '/'
        invariant
            len == path@.len(),
            i <= j <= len,
            forall|k: int| i <= k < j ==> path@[k] != '/',
        decreases len - j,
    {
        j = j + 1;
    }
    proof {
        let rest = path@.subrange(i as int, len as int);
        lemma_take_until_slash_at(rest, j - i);
        assert(rest.subrange(0, j - i) =~= path@.subrange(i as int, j as int));
    }
    let name: String = path.substring_char(i, j).to_owned();
    Some(name)
}

/// The position of the first occurrence of `c`, or the length when `c`
/// does not occur.
pub open spec fn first_index_of(s: Seq<char>, c: char) -> nat
    decreases s.len(),
{
    if s.len() == 0 {
        0
    } else if s[0] == c {
        0
    } else {
        1 + first_index_of(s.drop_first(), c)
    }
}

/// The key of one `key=value` pair: what stands before the first `=`, or
/// the whole pair when there is no `=`.
pub open spec fn pair_key(p: Seq<char>) -> Seq<char> {
    p.subrange(0, first_index_of(p, '=') as int)
}

/// The value of one `key=value` pair: what stands after the first `=`,
/// empty when there is no `=`.
pub open spec fn pair_value(p: Seq<char>) -> Seq<char> {
    let i = first_index_of(p, '=');
    if i >= p.len() {
        Seq::empty()
    } else {
        p.subrange(i as int + 1, p.len() as int)
    }
}

/// Folds the `&`-separated pairs of `q` into `acc`, left to right; a pair
/// with an empty key is ignored, and `insert` makes a later pair win over
/// an earlier one with the same key.
pub open spec fn spec_query_map_loop(
    q: Seq<char>,
    acc: Map<Seq<char>, Seq<char>>,
) -> Map<Seq<char>, Seq<char>>
    decreases q.len(),
{
    let i = first_index_of(q, '&');
    let pair = q.subrange(0, i as int);
    let acc2 = if pair_key(pair).len() > 0 {
        acc.insert(pair_key(pair), pair_value(pair))
    } else {
        acc
    };
    if i >= q.len() {
        acc2
    } else {
        spec_query_map_loop(q.subrange(i as int + 1, q.len() as int), acc2)
    }
}

/// The map a query string stands for: `&`-separated `key=value` or bare
/// `key` pairs, empty keys ignored, a missing `=` giving an empty value,
/// and the last occurrence of a key winning.
pub open spec fn spec_query_map(q: Seq<char>) -> Map<Seq<char>, Seq<char>> {
    if q.len() == 0 {
        Map::<Seq<char>, Seq<char>>::empty()
    } else {
        spec_query_map_loop(q, Map::<Seq<char>, Seq<char>>::empty())
    }
}

proof fn lemma_first_index_of_at(s: Seq<char>, c: char, j: int)
    requires
        0 <= j <= s.len(),
        forall|k: int| 0 <= k < j ==> s[k] != c,
        j < s.len() ==> s[j] == c,
    ensures
        first_index_of(s, c) == j,
    decreases j,
{
    if j > 0 {
        lemma_first_index_of_at(s.drop_first(), c, j - 1);
    }
}

/// Inserts the pair, overwriting the pair that already holds the key if
/// there is one, so keys stay unique.
fn upsert(pairs: &mut Vec<(String, String)>, key: String, value: String)
    requires
        unique_keys(old(pairs)@),
    ensures
        unique_keys(final(pairs)@),
        pairs_map(final(pairs)@) == pairs_map(old(pairs)@).insert(key@, value@),
{
    let ghost gkey = key@;
    let mut i: usize = 0;
    while i < pairs.len()
        invariant
            pairs@ == old(pairs)@,
            unique_keys(pairs@),
            i <= pairs@.len(),
            forall|k: int| 0 <= k < i ==> pairs@[k].0@ != gkey,
            key@ == gkey,
        decreases pairs@.len() - i,
    {
        if pairs[i].0 == key {
            let p = (key, value);
            proof {
                lemma_pairs_map_update(pairs@, i as int, p);
            }
            pairs[i] = p;
            return ;
        }
        i = i + 1;
    }
    proof {
        lemma_pairs_map_push(pairs@, (key, value));
    }
    pairs.push((key, value));
}

/// Splits a query string into its key-value pairs: pairs are separated by
/// `&`, a key is what stands before the first `=` of its pair, an absent
/// `=` gives an empty value, pairs with empty keys are dropped, and a
/// later pair overwrites an earlier one with the same key.
pub fn parse_query_params(query_string: &str) -> (r: Vec<(String, String)>)
    ensures
        unique_keys(r@),
        pairs_map(r@) == spec_query_map(query_string@),
{
    let mut result: Vec<(String, String)> = Vec::new();
    let len = query_string.unicode_len();
    if len == 0 {
        assert(pairs_map(result@) =~= spec_query_map(query_string@));
        return result;
    }
    let mut p: usize = 0;
    let mut done = false;
    proof {
        assert(query_string@.subrange(0, len as int) =~= query_string@);
        assert(pairs_map(result@) =~= Map::<Seq<char>, Seq<char>>::empty());
    }
    while !done
        invariant
            len == query_string@.len(),
            len > 0,
            p <= len,
            unique_keys(result@),
            !done ==> spec_query_map_loop(
                query_string@.subrange(p as int, len as int),
                pairs_map(result@),
            ) == spec_query_map(query_string@),
            done ==> pairs_map(result@) == spec_query_map(query_string@),
        decreases len - p + (if done { 0int } else { 1int }),
    {
        let ghost rem = query_string@.subrange(p as int, len as int);
        let ghost acc = pairs_map(result@);
        let mut j: usize = p;
        while j < len && query_string.get_char(j) != '&'
            invariant
                len == query_string@.len(),
                p <= j <= len,
                forall|k: int| p <= k < j ==> query_string@[k] != '&',
            decreases len - j,
        {
            j = j + 1;
        }
        let mut e: usize = p;
        while e < j && query_string.get_char(e) != '='
            invariant
                len == query_string@.len(),
                p <= e <= j <= len,
                forall|k: int| p <= k < e ==> query_string@[k] != '=',
                j < len ==> query_string@[j as int] == '&',
                forall|k: int| p <= k < j ==> query_string@[k] != '&',
            decreases j - e,
        {
            e = e + 1;
        }
        proof {
            lemma_first_index_of_at(rem, '&', j - p);
            let pair = rem.subrange(0, j - p);
            assert(pair =~= query_string@.subrange(p as int, j as int));
            lemma_first_index_of_at(pair, '=', e - p);
            assert(pair_key(pair) =~= query_string@.subrange(p as int, e as int));
            if e < j {
                assert(pair_value(pair) =~= query_string@.subrange(e + 1, j as int));
            }
        }
        if e > p {
            let key: String = query_string.substring_char(p, e).to_owned();
            let value: String = if e < j {
                query_string.substring_char(e + 1, j).to_owned()
            } else {
                String::new()
            };
            upsert(&mut result, key, value);
        }
        if j == len {
            done = true;
        } else {
            proof {
                assert(rem.subrange(j - p + 1, rem.len() as int) =~= query_string@.subrange(
                    j + 1,
                    len as int,
                ));
            }
            p = j + 1;
        }
    }
    result
}

} // verus!
