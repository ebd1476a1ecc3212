use vstd::prelude::*;

use crate::params::{text_or, Params};
use crate::text::{chars_of, push_char, slice_string};

verus! {

pub const HEADER_START: &'static str = "<!DOCTYPE html>\n    <html>\n    <head>\n        <meta charset=\"utf-8\"/>\n        <title>Bluesky Hashtag Viewer</title>\n        <style>\n            .post-container {\n                margin-bottom: 1em;\n                padding: 0.5em;\n                border: 1px solid #ccc;\n                text-align: left;\n            }\n            .post-text {\n                margin: 0;\n                font-size: 1em;\n            }\n            .post-text a {\n                color: #";

pub const HEADER_AFTER_TEXT_COLOR: &'static str = ";\n                text-decoration: none;\n            }\n            .post-text a:hover {\n                color: #";

pub const HEADER_AFTER_TEXT_HOVER_COLOR: &'static str = ";\n                text-decoration: none;\n            }\n            .post-author {\n                margin: 0.25em 0 0 0;\n                font-size: 0.85em;\n                color: #";

pub const HEADER_AFTER_AUTHOR_COLOR: &'static str = ";\n            }\n            .post-author a {\n                color: inherit;\n                text-decoration: none;\n            }\n            .post-author a:hover {\n                color: #";

pub const HEADER_AFTER_AUTHOR_HOVER_COLOR: &'static str = ";\n                text-decoration: none;\n            }\n            .post-stats {\n                margin: 0.25em 0 0 0;\n                font-size: 0.85em;\n                color: #";

pub const HEADER_AFTER_STATS_COLOR: &'static str = ";\n            }\n            .post-stats a {\n                color: inherit;\n                text-decoration: none;\n            }\n            .post-stats a:hover {\n                color: #";

pub const HEADER_END: &'static str = ";\n                text-decoration: none;\n            }\n        </style>\n    </head>\n    <body>\n    ";

pub const POST_START: &'static str = "<li class=\"post-container\">\n                     <p class=\"post-text\"><a href=\"";

pub const POST_AFTER_LINK: &'static str = "\">";

pub const POST_AFTER_TEXT: &'static str = "</a></p>\n                     <p class=\"post-author\">\n                       <a href=\"";

pub const POST_AFTER_AUTHOR_LINK: &'static str = "\">";

pub const POST_AFTER_HANDLE: &'static str = "</a>\n                       &nbsp;&middot;&nbsp;\n                       ";

pub const POST_AFTER_DATE: &'static str = "\n                     </p>\n                     <p class=\"post-stats\">\n                       Likes: ";

pub const POST_AFTER_LIKES: &'static str = " &nbsp;&middot;&nbsp;\n                       Quotes: ";

pub const POST_AFTER_QUOTES: &'static str = " &nbsp;&middot;&nbsp;\n                       Replies: ";

pub const POST_AFTER_REPLIES: &'static str = " &nbsp;&middot;&nbsp;\n                       Reposts: ";

pub const POST_END: &'static str = "\n                     </p>\n                   </li>";

/// The HTML page head, with the four configured colours (hex digits, no `#`).
pub open spec fn header_html(text_color: Seq<char>, text_hover_color: Seq<char>, author_color: Seq<char>, author_hover_color: Seq<char>) -> Seq<char> {
    HEADER_START@ + text_color + HEADER_AFTER_TEXT_COLOR@ + text_hover_color + HEADER_AFTER_TEXT_HOVER_COLOR@
        + author_color + HEADER_AFTER_AUTHOR_COLOR@ + author_hover_color + HEADER_AFTER_AUTHOR_HOVER_COLOR@
        + author_color + HEADER_AFTER_STATS_COLOR@ + author_hover_color + HEADER_END@
}

/// The page head for `params`.
pub fn build_html_header(params: &Params) -> (r: String)
    ensures
        r@ == header_html(params.text_color@, params.text_hover_color@, params.author_color@, params.author_hover_color@),
{
    let mut r = String::new();
    r.append(HEADER_START);
    r.append(params.text_color.as_str());
    r.append(HEADER_AFTER_TEXT_COLOR);
    r.append(params.text_hover_color.as_str());
    r.append(HEADER_AFTER_TEXT_HOVER_COLOR);
    r.append(params.author_color.as_str());
    r.append(HEADER_AFTER_AUTHOR_COLOR);
    r.append(params.author_hover_color.as_str());
    r.append(HEADER_AFTER_AUTHOR_HOVER_COLOR);
    r.append(params.author_color.as_str());
    r.append(HEADER_AFTER_STATS_COLOR);
    r.append(params.author_hover_color.as_str());
    r.append(HEADER_END);
    proof {
        assert(r@ =~= header_html(params.text_color@, params.text_hover_color@, params.author_color@, params.author_hover_color@));
    }
    r
}

/// What a post shows: the fields of a search result that the page reads.
pub struct PostView {
    pub uri: String,
    pub text: Option<String>,
    pub handle: Option<String>,
    pub created_at: Option<String>,
    pub like_count: Option<u32>,
    pub quote_count: Option<u32>,
    pub reply_count: Option<u32>,
    pub repost_count: Option<u32>,
}

/// Where profiles are shown.
pub const PROFILE_PREFIX: &'static str = "https://bsky.app/profile/";

/// What is shown when there are no posts.
pub const NO_POSTS: &'static str = "<p>No posts found for those hashtags.</p>";

/// What opens the list of posts, before the collapse threshold.
pub const LIST_START: &'static str = "<ul class=\"list collapsible-container\" data-collapse-after=\"";

/// The decimal digit `d`, for `d < 10`.
pub open spec fn digit_char(d: nat) -> char {
    ((d + 48) as u8) as char
}

/// `n` in decimal, without leading zeros.
pub open spec fn decimal(n: nat) -> Seq<char>
    decreases n,
{
    if n < 10 {
        seq![digit_char(n)]
    } else {
        decimal(n / 10).push(digit_char(n % 10))
    }
}

/// A count, zero where it is absent.
pub open spec fn count_of(c: Option<u32>) -> nat {
    match c {
        Some(n) => n as nat,
        None => 0,
    }
}

/// What follows the last `/` of `uri` (all of it where there is none).
pub open spec fn record_key(uri: Seq<char>) -> Seq<char>
    decreases uri.len(),
{
    if uri.len() == 0 || uri.last() == '/' {
        Seq::empty()
    } else {
        record_key(uri.drop_last()).push(uri.last())
    }
}

/// The list item that shows post `p`.
pub open spec fn post_html(p: PostView) -> Seq<char> {
    let handle = text_or(p.handle, Seq::empty());
    let author_link = PROFILE_PREFIX@ + handle;
    let post_link = author_link + "/post/"@ + record_key(p.uri@);
    POST_START@ + post_link + POST_AFTER_LINK@ + text_or(p.text, "<no text>"@) + POST_AFTER_TEXT@
        + author_link + POST_AFTER_AUTHOR_LINK@ + handle + POST_AFTER_HANDLE@
        + text_or(p.created_at, "<unknown date>"@) + POST_AFTER_DATE@
        + decimal(count_of(p.like_count)) + POST_AFTER_LIKES@
        + decimal(count_of(p.quote_count)) + POST_AFTER_QUOTES@
        + decimal(count_of(p.reply_count)) + POST_AFTER_REPLIES@
        + decimal(count_of(p.repost_count)) + POST_END@
}

/// The list items of `posts`, in order.
pub open spec fn post_items(posts: Seq<PostView>) -> Seq<char>
    decreases posts.len(),
{
    if posts.len() == 0 {
        Seq::empty()
    } else {
        post_items(posts.drop_last()) + post_html(posts.last())
    }
}

/// The HTML for the posts found, which collapses after `collapse_after` items.
pub open spec fn posts_html(posts: Seq<PostView>, collapse_after: nat) -> Seq<char> {
    if posts.len() == 0 {
        NO_POSTS@
    } else {
        LIST_START@ + decimal(collapse_after) + "\">"@ + post_items(posts) + "</ul>"@
    }
}

/// Appends `n` in decimal to `out`.
fn push_decimal(out: &mut String, n: u64)
    ensures
        final(out)@ == old(out)@ + decimal(n as nat),
    decreases n,
{
    if n >= 10 {
        push_decimal(out, n / 10);
    }
    push_char(out, ((n % 10) as u8 + 48) as char);
    proof {
        if n < 10 {
            assert(decimal(n as nat) =~= seq![digit_char(n as nat)]);
        }
    }
}

/// What follows the last `/` of `uri`.
fn record_key_of(uri: &str) -> (r: String)
    ensures
        r@ == record_key(uri@),
{
    let t = chars_of(uri);
    let mut start: usize = 0;
    let mut j: usize = 0;
    while j < t.len()
        invariant
            t@ == uri@,
            start <= j <= t.len(),
            record_key(t@.take(j as int)) == t@.subrange(start as int, j as int),
        decreases t.len() - j,
    {
        proof {
            assert(t@.take(j + 1).drop_last() =~= t@.take(j as int));
        }
        if t[j] == '/' {
            start = j + 1;
            proof {
                assert(t@.subrange(start as int, j + 1) =~= Seq::<char>::empty());
            }
        } else {
            proof {
                assert(t@.subrange(start as int, j + 1) =~= t@.subrange(start as int, j as int).push(t@[j as int]));
            }
        }
        j = j + 1;
    }
    proof {
        assert(t@.take(t.len() as int) =~= t@);
    }
    slice_string(&t, start, t.len())
}

fn push_text_or(out: &mut String, v: &Option<String>, default: &str)
    ensures
        final(out)@ == old(out)@ + text_or(*v, default@),
{
    match v {
        Some(s) => out.append(s.as_str()),
        None => out.append(default),
    }
}

fn count_value(c: Option<u32>) -> (r: u64)
    ensures
        r as nat == count_of(c),
{
    match c {
        Some(n) => n as u64,
        None => 0,
    }
}

/// The list item that shows `p`.
fn post_item(p: &PostView) -> (r: String)
    ensures
        r@ == post_html(*p),
{
    let handle = match &p.handle {
        Some(h) => h.clone(),
        None => String::new(),
    };
    let mut author_link = PROFILE_PREFIX.to_owned();
    author_link.append(handle.as_str());
    let mut post_link = author_link.clone();
    post_link.append("/post/");
    let key = record_key_of(p.uri.as_str());
    post_link.append(key.as_str());
    let mut item = POST_START.to_owned();
    item.append(post_link.as_str());
    item.append(POST_AFTER_LINK);
    push_text_or(&mut item, &p.text, "<no text>");
    item.append(POST_AFTER_TEXT);
    item.append(author_link.as_str());
    item.append(POST_AFTER_AUTHOR_LINK);
    item.append(handle.as_str());
    item.append(POST_AFTER_HANDLE);
    push_text_or(&mut item, &p.created_at, "<unknown date>");
    item.append(POST_AFTER_DATE);
    push_decimal(&mut item, count_value(p.like_count));
    item.append(POST_AFTER_LIKES);
    push_decimal(&mut item, count_value(p.quote_count));
    item.append(POST_AFTER_QUOTES);
    push_decimal(&mut item, count_value(p.reply_count));
    item.append(POST_AFTER_REPLIES);
    push_decimal(&mut item, count_value(p.repost_count));
    item.append(POST_END);
    proof {
        assert(handle@ == text_or(p.handle, Seq::empty()));
    }
    item
}

/// Appends the posts found to `body`: a notice where there are none, else a
/// list that collapses after `collapse_after` items, one item per post, in order.
pub fn build_posts_html(posts: &Vec<PostView>, body: &mut String, collapse_after: usize)
    ensures
        final(body)@ == old(body)@ + posts_html(posts@, collapse_after as nat),
{
    if posts.len() == 0 {
        body.append(NO_POSTS);
        return;
    }
    let ghost start = body@;
    body.append(LIST_START);
    push_decimal(body, collapse_after as u64);
    body.append("\">");
    let ghost items_start = body@;
    let mut i: usize = 0;
    while i < posts.len()
        invariant
            i <= posts.len(),
            body@ == items_start + post_items(posts@.take(i as int)),
        decreases posts.len() - i,
    {
        let item = post_item(&posts[i]);
        body.append(item.as_str());
        proof {
            assert(posts@.take(i + 1).drop_last() =~= posts@.take(i as int));
            assert(body@ =~= items_start + post_items(posts@.take(i + 1)));
        }
        i = i + 1;
    }
    body.append("</ul>");
    proof {
        assert(posts@.take(posts.len() as int) =~= posts@);
        assert(body@ =~= start + posts_html(posts@, collapse_after as nat));
    }
}

} // verus!
