use vstd::prelude::*;

verus! {

/// The heading above the list of request parameters.
pub const DEBUG_HEADER: &'static str = "<p class=\"size-h1\">Parameters:</p>";

/// The paragraph that shows one parameter.
pub open spec fn param_line(key: Seq<char>, value: Seq<char>) -> Seq<char> {
    "<p><strong>"@ + key + ":</strong> "@ + value + "</p>"@
}

/// The paragraphs that show `entries`, in order.
pub open spec fn param_lines(entries: Seq<(String, String)>) -> Seq<char>
    decreases entries.len(),
{
    if entries.len() == 0 {
        Seq::empty()
    } else {
        param_lines(entries.drop_last()) + param_line(entries.last().0@, entries.last().1@)
    }
}

/// Appends to `body` the heading and one paragraph per request parameter,
/// in the order given.
pub fn show_debug_params(query: &Vec<(String, String)>, body: &mut String)
    ensures
        final(body)@ == old(body)@ + DEBUG_HEADER@ + param_lines(query@),
{
    body.append(DEBUG_HEADER);
    let ghost start = body@;
    let mut i: usize = 0;
    while i < query.len()
        invariant
            i <= query.len(),
            body@ == start + param_lines(query@.take(i as int)),
        decreases query.len() - i,
    {
        let (key, value) = &query[i];
        body.append("<p><strong>");
        body.append(key.as_str());
        body.append(":</strong> ");
        body.append(value.as_str());
        body.append("</p>");
        proof {
            assert(query@.take(i + 1).drop_last() =~= query@.take(i as int));
            assert(body@ =~= start + param_lines(query@.take(i + 1)));
        }
        i = i + 1;
    }
    proof {
        assert(query@.take(query.len() as int) =~= query@);
    }
}

} // verus!
