use vstd::prelude::*;

verus! {

/// The most posts one search asks for.
pub const MAX_SEARCH_LIMIT: usize = 50;

/// How many posts a search asks for when `max_posts` are wanted.
pub fn search_limit(max_posts: usize) -> (r: usize)
    ensures
        r == if max_posts < MAX_SEARCH_LIMIT { max_posts } else { MAX_SEARCH_LIMIT },
{
    if max_posts < MAX_SEARCH_LIMIT {
        max_posts
    } else {
        MAX_SEARCH_LIMIT
    }
}

/// The tags as hashtags, separated by single spaces: `#rust #web`.
pub open spec fn hashtag_query(tags: Seq<String>) -> Seq<char>
    decreases tags.len(),
{
    if tags.len() == 0 {
        Seq::empty()
    } else if tags.len() == 1 {
        seq!['#'] + tags[0]@
    } else {
        hashtag_query(tags.drop_last()) + seq![' ', '#'] + tags.last()@
    }
}

/// The search query: the hashtags, after a `since:` filter where one is given.
pub open spec fn search_query(tags: Seq<String>, since: Option<String>) -> Seq<char> {
    match since {
        Some(ts) => "since:"@ + ts@ + seq![' '] + hashtag_query(tags),
        None => hashtag_query(tags),
    }
}

/// The search query for `tags`; `since` is the earliest time wanted, as an
/// RFC 3339 timestamp.
pub fn build_search_query(tags: &Vec<String>, since: Option<String>) -> (r: String)
    ensures
        r@ == search_query(tags@, since),
{
    let mut q = String::new();
    let mut i: usize = 0;
    while i < tags.len()
        invariant
            i <= tags.len(),
            q@ == hashtag_query(tags@.take(i as int)),
        decreases tags.len() - i,
    {
        proof {
            assert(tags@.take(i + 1).drop_last() =~= tags@.take(i as int));
        }
        if i == 0 {
            q.append("#");
            q.append(tags[i].as_str());
            proof {
                reveal_strlit("#");
                assert(q@ =~= hashtag_query(tags@.take(1)));
            }
        } else {
            q.append(" #");
            q.append(tags[i].as_str());
            proof {
                reveal_strlit(" #");
                assert(q@ =~= hashtag_query(tags@.take(i + 1)));
            }
        }
        i = i + 1;
    }
    proof {
        assert(tags@.take(tags.len() as int) =~= tags@);
    }
    match since {
        Some(ts) => {
            let mut r = "since:".to_owned();
            r.append(ts.as_str());
            r.append(" ");
            r.append(q.as_str());
            proof {
                reveal_strlit(" ");
                assert(r@ =~= search_query(tags@, Some(ts)));
            }
            r
        },
        None => q,
    }
}

} // verus!
