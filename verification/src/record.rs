//! A captured request: an immutable snapshot of one inbound HTTP request.

use vstd::prelude::*;

verus! {

/// One captured request. Created once by the capture operation and never
/// mutated afterwards; it leaves its bucket only through capacity eviction,
/// an explicit clear, or deletion of the bucket.
pub struct RequestData {
    /// The full inbound request path, including the bucket-name prefix.
    pub path: String,
    /// The HTTP method token, as handed in by the caller.
    pub method: String,
    /// Query parameters; keys are unique, last value wins on duplicates.
    pub query_params: Vec<(String, String)>,
    /// Header name to value; last value wins on duplicates.
    pub headers: Vec<(String, String)>,
    /// The request body decoded as text; empty if there was no body.
    pub body: String,
    /// Milliseconds since the Unix epoch, captured at record creation.
    pub timestamp: i64,
}

/// The mathematical value of a captured request: the two string-to-string
/// collections are read as maps, so the order their pairs arrived in does
/// not matter.
#[verifier::ext_equal]
pub ghost struct RecordModel {
    pub path: Seq<char>,
    pub method: Seq<char>,
    pub query_params: Map<Seq<char>, Seq<char>>,
    pub headers: Map<Seq<char>, Seq<char>>,
    pub body: Seq<char>,
    pub timestamp: int,
}

/// The map a sequence of key-value pairs stands for; a later pair wins over
/// an earlier one with the same key.
pub open spec fn pairs_map(s: Seq<(String, String)>) -> Map<Seq<char>, Seq<char>>
    decreases s.len(),
{
    if s.len() == 0 {
        Map::<Seq<char>, Seq<char>>::empty()
    } else {
        pairs_map(s.drop_last()).insert(s.last().0@, s.last().1@)
    }
}

/// No two pairs share a key.
pub open spec fn unique_keys(s: Seq<(String, String)>) -> bool {
    forall|i: int, j: int| 0 <= i < j < s.len() ==> s[i].0@ != s[j].0@
}

/// Appending a pair makes its key map to its value.
pub proof fn lemma_pairs_map_push(s: Seq<(String, String)>, p: (String, String))
    ensures
        pairs_map(s.push(p)) == pairs_map(s).insert(p.0@, p.1@),
{
    assert(s.push(p).drop_last() =~= s);
    assert(s.push(p).last() == p);
}

/// Overwriting the pair that holds a key remaps that key, provided no
/// other pair shares it.
pub proof fn lemma_pairs_map_update(s: Seq<(String, String)>, i: int, p: (String, String))
    requires
        unique_keys(s),
        0 <= i < s.len(),
        s[i].0@ == p.0@,
    ensures
        pairs_map(s.update(i, p)) == pairs_map(s).insert(p.0@, p.1@),
    decreases s.len(),
{
    let upd = s.update(i, p);
    if i == s.len() - 1 {
        assert(upd.drop_last() =~= s.drop_last());
        assert(upd.last() == p);
        assert(pairs_map(s.drop_last()).insert(s.last().0@, s.last().1@).insert(p.0@, p.1@)
            =~= pairs_map(s.drop_last()).insert(p.0@, p.1@));
    } else {
        assert(upd.drop_last() =~= s.drop_last().update(i, p));
        assert(upd.last() == s.last());
        lemma_pairs_map_update(s.drop_last(), i, p);
        assert(s.last().0@ != p.0@);
        assert(pairs_map(s.drop_last()).insert(p.0@, p.1@).insert(s.last().0@, s.last().1@)
            =~= pairs_map(s.drop_last()).insert(s.last().0@, s.last().1@).insert(p.0@, p.1@));
    }
}

impl View for RequestData {
    type V = RecordModel;

    open spec fn view(&self) -> RecordModel {
        RecordModel {
            path: self.path@,
            method: self.method@,
            query_params: pairs_map(self.query_params@),
            headers: pairs_map(self.headers@),
            body: self.body@,
            timestamp: self.timestamp as int,
        }
    }
}

/// Copies a vector of string pairs element by element.
fn clone_pairs(v: &Vec<(String, String)>) -> (r: Vec<(String, String)>)
    ensures
        r@ == v@,
{
    let mut r: Vec<(String, String)> = Vec::new();
    let mut i: usize = 0;
    while i < v.len()
        invariant
            i <= v@.len(),
            r@ == v@.subrange(0, i as int),
        decreases v@.len() - i,
    {
        let p = &v[i];
        r.push((p.0.clone(), p.1.clone()));
        assert(r@ =~= v@.subrange(0, i + 1));
        i = i + 1;
    }
    assert(r@ =~= v@);
    r
}

impl Clone for RequestData {
    fn clone(&self) -> (r: Self)
        ensures
            r@ == self@,
    {
        RequestData {
            path: self.path.clone(),
            method: self.method.clone(),
            query_params: clone_pairs(&self.query_params),
            headers: clone_pairs(&self.headers),
            body: self.body.clone(),
            timestamp: self.timestamp,
        }
    }
}

} // verus!
