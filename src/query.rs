//! The identity that a connection request names in its query string.

use vstd::prelude::*;

verus! {

/// The decoded name/value pairs of a query string, in order.
pub uninterp spec fn query_pairs(q: Seq<char>) -> Seq<(Seq<char>, Seq<char>)>;

/// Relies on form_urlencoded::parse: the decoded name/value pairs of the
/// query, in order; an empty query has none.
#[verifier::external_body]
fn parse_query(q: &str) -> (r: Vec<(String, String)>)
    ensures
        pair_views(r@) == query_pairs(q@),
        q@.len() == 0 ==> r@.len() == 0,
{
    form_urlencoded::parse(q.as_bytes()).into_owned().collect()
}

/// The pairs as character sequences.
pub open spec fn pair_views(v: Seq<(String, String)>) -> Seq<(Seq<char>, Seq<char>)> {
    v.map_values(|p: (String, String)| (p.0@, p.1@))
}

/// The value of the last pair named `name`: the one that a map built from
/// the pairs keeps.
pub open spec fn last_value(pairs: Seq<(Seq<char>, Seq<char>)>, name: Seq<char>) -> Option<Seq<char>>
    decreases pairs.len(),
{
    if pairs.len() == 0 {
        None
    } else if pairs.last().0 == name {
        Some(pairs.last().1)
    } else {
        last_value(pairs.drop_last(), name)
    }
}

/// The identity that the pairs name under "id"; the empty identity when
/// they name none.
pub open spec fn identity_of(pairs: Seq<(Seq<char>, Seq<char>)>) -> Seq<char> {
    match last_value(pairs, "id"@) {
        Some(v) => v,
        None => Seq::empty(),
    }
}

/// The identity named under "id" by decoded query pairs.
pub fn identity_from_pairs(pairs: &Vec<(String, String)>) -> (r: String)
    ensures
        r@ == identity_of(pair_views(pairs@)),
{
    let ghost views = pair_views(pairs@);
    let name = String::from_str("id");
    let mut found: Option<String> = None;
    let mut i: usize = 0;
    while i < pairs.len()
        invariant
            i <= pairs.len(),
            views == pair_views(pairs@),
            name@ == "id"@,
            match found {
                Some(v) => last_value(views.take(i as int), "id"@) == Some(v@),
                None => last_value(views.take(i as int), "id"@) is None,
            },
        decreases pairs.len() - i,
    {
        proof {
            assert(views.take(i + 1).drop_last() =~= views.take(i as int));
        }
        if pairs[i].0 == name {
            found = Some(pairs[i].1.clone());
        }
        i = i + 1;
    }
    proof {
        assert(views.take(i as int) =~= views);
    }
    match found {
        Some(v) => v,
        None => String::new(),
    }
}

/// The identity that a query string names under "id"; the empty identity
/// when it names none.
pub fn identity_from_query(query: &str) -> (r: String)
    ensures
        r@ == identity_of(query_pairs(query@)),
{
    let pairs = parse_query(query);
    identity_from_pairs(&pairs)
}

} // verus!
