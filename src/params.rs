use vstd::prelude::*;

use crate::numeric::{decimal_value, parse_bool, parse_i64, parse_usize};
use crate::text::{chars_of, push_char, slice_string};

verus! {

/// How many seconds one of a relative time's units lasts.
pub open spec fn unit_seconds(u: char) -> Option<int> {
    if u == 'd' {
        Some(86400)
    } else if u == 'h' {
        Some(3600)
    } else if u == 'm' {
        Some(60)
    } else if u == 's' {
        Some(1)
    } else {
        None
    }
}

/// How far back a relative time such as `-7d` or `-12h` reaches, in seconds:
/// a `-`, an integer that fits in `i64`, and a unit among `d`, `h`, `m`, `s`;
/// `None` for anything else or where the seconds do not fit in `i64`.
pub open spec fn relative_seconds(t: Seq<char>) -> Option<int> {
    if t.len() >= 3 && t[0] == '-' {
        match (decimal_value(t.subrange(1, t.len() - 1), true), unit_seconds(t.last())) {
            (Some(n), Some(u)) => if i64::MIN <= n <= i64::MAX && i64::MIN <= n * u <= i64::MAX {
                Some(n * u)
            } else {
                None
            },
            _ => None,
        }
    } else {
        None
    }
}

fn unit_seconds_of(u: char) -> (r: Option<i64>)
    ensures
        match r {
            Some(x) => unit_seconds(u) == Some(x as int),
            None => unit_seconds(u) is None,
        },
{
    if u == 'd' {
        Some(86400)
    } else if u == 'h' {
        Some(3600)
    } else if u == 'm' {
        Some(60)
    } else if u == 's' {
        Some(1)
    } else {
        None
    }
}

/// The number of seconds that a relative time such as `-7d` reaches back.
pub fn parse_relative_time(spec: &str) -> (r: Option<i64>)
    ensures
        match r {
            Some(x) => relative_seconds(spec@) == Some(x as int),
            None => relative_seconds(spec@) is None,
        },
{
    let t = chars_of(spec);
    if t.len() < 3 || t[0] != '-' {
        return None;
    }
    let n = t.len();
    let num = slice_string(&t, 1, n - 1);
    let unit = t[n - 1];
    match (parse_i64(num.as_str()), unit_seconds_of(unit)) {
        (Some(digits), Some(u)) => digits.checked_mul(u),
        (None, _) => None,
        (_, None) => None,
    }
}

/// The value given for `key` in the request parameters `q`: the first entry
/// with that key.
pub open spec fn lookup(q: Seq<(String, String)>, key: Seq<char>) -> Option<String>
    decreases q.len(),
{
    if q.len() == 0 {
        None
    } else if q[0].0@ == key {
        Some(q[0].1)
    } else {
        lookup(q.skip(1), key)
    }
}

/// The text of a parameter, or `default` where it is absent.
pub open spec fn text_or(v: Option<String>, default: Seq<char>) -> Seq<char> {
    match v {
        Some(s) => s@,
        None => default,
    }
}

/// The number a parameter writes, or `default` where it is absent or no
/// number that fits in `usize`.
pub open spec fn count_or(v: Option<String>, default: usize) -> usize {
    match v {
        Some(s) => match decimal_value(s@, false) {
            Some(n) => if n <= usize::MAX {
                n as usize
            } else {
                default
            },
            None => default,
        },
        None => default,
    }
}

/// The flag a parameter writes (`true` or `false`), or `false`.
pub open spec fn flag_or_false(v: Option<String>) -> bool {
    match v {
        Some(s) => s@ == "true"@,
        None => false,
    }
}

/// What `trim` returns: `s` without leading and trailing whitespace.
pub uninterp spec fn trimmed(s: Seq<char>) -> Seq<char>;

/// Relies on `str::trim`: removes leading and trailing whitespace.
#[verifier::external_body]
fn trim(s: &str) -> (r: &str)
    ensures
        r@ == trimmed(s@),
{
    s.trim()
}

/// The pieces of `s` between commas, as `split(',')` yields them.
pub open spec fn split_commas(s: Seq<char>) -> Seq<Seq<char>>
    decreases s.len(),
{
    if s.len() == 0 {
        seq![Seq::empty()]
    } else if s.last() == ',' {
        split_commas(s.drop_last()).push(Seq::empty())
    } else {
        let p = split_commas(s.drop_last());
        p.update(p.len() - 1, p.last().push(s.last()))
    }
}

/// The trimmed pieces that are not empty, in order.
pub open spec fn kept_tags(pieces: Seq<Seq<char>>) -> Seq<Seq<char>>
    decreases pieces.len(),
{
    if pieces.len() == 0 {
        Seq::empty()
    } else if trimmed(pieces.last()).len() > 0 {
        kept_tags(pieces.drop_last()).push(trimmed(pieces.last()))
    } else {
        kept_tags(pieces.drop_last())
    }
}

/// The texts of `v`.
pub open spec fn texts(v: Seq<String>) -> Seq<Seq<char>> {
    v.map_values(|s: String| s@)
}

proof fn lemma_split_commas_nonempty(s: Seq<char>)
    ensures
        split_commas(s).len() >= 1,
    decreases s.len(),
{
    if s.len() > 0 {
        lemma_split_commas_nonempty(s.drop_last());
    }
}

/// Appends the trimmed piece `t` to `tags` unless it is empty.
pub fn keep_trimmed(tags: &mut Vec<String>, t: String)
    ensures
        t@.len() > 0 ==> final(tags)@ == old(tags)@.push(t),
        t@.len() == 0 ==> final(tags)@ == old(tags)@,
{
    if t.unicode_len() > 0 {
        tags.push(t);
    }
}

/// Appends the trimmed `piece` to `tags` unless it is empty.
fn keep_piece(tags: &mut Vec<String>, piece: &str)
    ensures
        trimmed(piece@).len() > 0 ==> final(tags)@ == old(tags)@.push(final(tags)@.last()) && final(tags)@.last()@ == trimmed(piece@),
        trimmed(piece@).len() == 0 ==> final(tags)@ == old(tags)@,
{
    keep_trimmed(tags, trim(piece).to_owned());
}

/// The tags of a comma-separated list: each piece trimmed, empty ones left out.
pub fn parse_tags(list: &str) -> (r: Vec<String>)
    ensures
        texts(r@) == kept_tags(split_commas(list@)),
{
    let mut tags: Vec<String> = Vec::new();
    let mut piece = String::new();
    for c in it: list.chars()
        invariant
            it.seq() == list@,
            split_commas(it.seq().take(it.index() as int)).len() >= 1,
            texts(tags@) == kept_tags(split_commas(it.seq().take(it.index() as int)).drop_last()),
            piece@ == split_commas(it.seq().take(it.index() as int)).last(),
    {
        let ghost k = it.index() as int;
        let ghost prefix = it.seq().take(k);
        let ghost p = split_commas(prefix);
        proof {
            assert(it.seq().take(k + 1).drop_last() =~= prefix);
            assert(it.seq().take(k + 1).last() == c);
        }
        if c == ',' {
            let ghost before = tags@;
            keep_piece(&mut tags, piece.as_str());
            proof {
                assert(p.push(Seq::empty()).drop_last() =~= p);
                assert(p.drop_last().push(p.last()) =~= p);
                if trimmed(piece@).len() > 0 {
                    assert(texts(tags@) =~= texts(before).push(trimmed(piece@)));
                } else {
                    assert(texts(tags@) =~= texts(before));
                }
            }
            piece = String::new();
        } else {
            push_char(&mut piece, c);
            proof {
                let q = p.update(p.len() - 1, p.last().push(c));
                assert(q.drop_last() =~= p.drop_last());
            }
        }
        proof {
            lemma_split_commas_nonempty(it.seq().take(k + 1));
        }
    }
    let ghost p = split_commas(list@);
    proof {
        assert(list@.take(list@.len() as int) =~= list@);
        assert(p.drop_last().push(p.last()) =~= p);
    }
    let ghost before = tags@;
    keep_piece(&mut tags, piece.as_str());
    proof {
        if trimmed(piece@).len() > 0 {
            assert(texts(tags@) =~= texts(before).push(trimmed(piece@)));
        } else {
            assert(texts(tags@) =~= texts(before));
        }
    }
    tags
}

/// The widget's request parameters, defaults filled in.
pub struct Params {
    pub tags: Vec<String>,
    pub limit: usize,
    pub debug: bool,
    pub text_color: String,
    pub author_color: String,
    pub text_hover_color: String,
    pub author_hover_color: String,
    /// How far back the search reaches, in seconds, where `since` asks for it.
    pub since_seconds: Option<i64>,
    pub sort: String,
    pub title: String,
    pub collapse_after: usize,
}

/// The value given for `key`, as `lookup` finds it.
fn lookup_param(q: &Vec<(String, String)>, key: &str) -> (r: Option<String>)
    ensures
        r == lookup(q@, key@),
{
    let k = key.to_owned();
    let mut i: usize = 0;
    assert(q@.skip(0) =~= q@);
    while i < q.len()
        invariant
            i <= q.len(),
            k@ == key@,
            lookup(q@, key@) == lookup(q@.skip(i as int), key@),
        decreases q.len() - i,
    {
        assert(q@.skip(i as int)[0] == q@[i as int]);
        assert(q@.skip(i as int).skip(1) =~= q@.skip(i + 1));
        if q[i].0 == k {
            return Some(q[i].1.clone());
        }
        i = i + 1;
    }
    None
}

fn text_param(q: &Vec<(String, String)>, key: &str, default: &str) -> (r: String)
    ensures
        r@ == text_or(lookup(q@, key@), default@),
{
    match lookup_param(q, key) {
        Some(v) => v,
        None => default.to_owned(),
    }
}

fn count_param(q: &Vec<(String, String)>, key: &str, default: usize) -> (r: usize)
    ensures
        r == count_or(lookup(q@, key@), default),
{
    match lookup_param(q, key) {
        Some(v) => match parse_usize(v.as_str()) {
            Some(n) => n,
            None => default,
        },
        None => default,
    }
}

/// The widget's parameters from the request's query entries `q`. Absent or
/// unreadable values take their defaults: no tags, a limit of 10, no debug
/// listing, colours `000000` and `666`, sort `latest`, title `Bluesky`,
/// collapse after 5; `since` counts only where it is a relative time.
pub fn parse_params(q: &Vec<(String, String)>) -> (r: Params)
    ensures
        texts(r.tags@) == kept_tags(split_commas(text_or(lookup(q@, "tags"@), Seq::empty()))),
        r.limit == count_or(lookup(q@, "limit"@), 10),
        r.debug == flag_or_false(lookup(q@, "debug"@)),
        r.text_color@ == text_or(lookup(q@, "text_color"@), "000000"@),
        r.author_color@ == text_or(lookup(q@, "author_color"@), "666"@),
        r.text_hover_color@ == text_or(lookup(q@, "text_hover_color"@), "000000"@),
        r.author_hover_color@ == text_or(lookup(q@, "author_hover_color"@), "666"@),
        match r.since_seconds {
            Some(x) => relative_seconds(text_or(lookup(q@, "since"@), Seq::empty())) == Some(x as int),
            None => relative_seconds(text_or(lookup(q@, "since"@), Seq::empty())) is None,
        },
        r.sort@ == text_or(lookup(q@, "sort"@), "latest"@),
        r.title@ == text_or(lookup(q@, "title"@), "Bluesky"@),
        r.collapse_after == count_or(lookup(q@, "collapse_after"@), 5),
{
    let tags_param = text_param(q, "tags", "");
    let limit = count_param(q, "limit", 10);
    let debug = match lookup_param(q, "debug") {
        Some(v) => match parse_bool(v.as_str()) {
            Some(b) => b,
            None => false,
        },
        None => false,
    };
    let text_color = text_param(q, "text_color", "000000");
    let author_color = text_param(q, "author_color", "666");
    let text_hover_color = text_param(q, "text_hover_color", "000000");
    let author_hover_color = text_param(q, "author_hover_color", "666");
    let since_param = text_param(q, "since", "");
    let since_seconds = if since_param.unicode_len() > 0 {
        parse_relative_time(since_param.as_str())
    } else {
        None
    };
    let sort = text_param(q, "sort", "latest");
    let title = text_param(q, "title", "Bluesky");
    let collapse_after = count_param(q, "collapse_after", 5);
    let tags = parse_tags(tags_param.as_str());
    proof {
        reveal_strlit("");
        reveal_strlit("true");
        reveal_strlit("false");
    }
    Params {
        tags,
        limit,
        debug,
        text_color,
        author_color,
        text_hover_color,
        author_hover_color,
        since_seconds,
        sort,
        title,
        collapse_after,
    }
}

} // verus!
