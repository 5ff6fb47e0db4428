//! What a Bitbucket URL says about the workspace it belongs to.

use vstd::prelude::*;
use vstd::string::*;
use crate::text::text_eq;
use crate::urls::{parse_url, url_parse};

verus! {

/// The number of `/` at the start of a path.
pub open spec fn leading_slashes(path: Seq<char>) -> nat
    decreases path.len(),
{
    if path.len() > 0 && path[0] == '/' {
        1 + leading_slashes(path.drop_first())
    } else {
        0
    }
}

/// The number of characters before the first `/`, or before the end.
pub open spec fn segment_length(text: Seq<char>) -> nat
    decreases text.len(),
{
    if text.len() > 0 && text[0] != '/' {
        1 + segment_length(text.drop_first())
    } else {
        0
    }
}

/// The first segment of a path: what stands after its leading slashes, up
/// to the next slash.
pub open spec fn first_segment(path: Seq<char>) -> Seq<char> {
    let rest = path.skip(leading_slashes(path) as int);
    rest.take(segment_length(rest) as int)
}

/// The workspace that a host and a path name: the first segment of the
/// path, where the host is `bitbucket.org` and that segment is not empty.
pub open spec fn workspace_in(host: Option<Seq<char>>, path: Seq<char>) -> Option<Seq<char>> {
    if host == Some("bitbucket.org"@) && first_segment(path).len() > 0 {
        Some(first_segment(path))
    } else {
        None
    }
}

/// The workspace of a URL, where the URL parses.
pub open spec fn workspace_of_url(url: Seq<char>) -> Option<Seq<char>> {
    match url_parse(url) {
        Some(parts) => workspace_in(parts.1, parts.2),
        None => None,
    }
}

/// The leading slashes of a path whose first `i` characters are slashes.
proof fn lemma_leading_slashes_from(path: Seq<char>, i: int)
    requires
        0 <= i <= path.len(),
        forall|j: int| 0 <= j < i ==> path[j] == '/',
    ensures
        leading_slashes(path) == i + leading_slashes(path.skip(i)),
    decreases i,
{
    if i == 0 {
        assert(path.skip(0) =~= path);
    } else {
        lemma_leading_slashes_from(path, i - 1);
        let tail = path.skip(i - 1);
        assert(tail[0] == '/');
        assert(tail.drop_first() =~= path.skip(i));
    }
}

/// The length of a segment whose first `i` characters are no slashes.
proof fn lemma_segment_length_from(text: Seq<char>, i: int)
    requires
        0 <= i <= text.len(),
        forall|j: int| 0 <= j < i ==> text[j] != '/',
    ensures
        segment_length(text) == i + segment_length(text.skip(i)),
    decreases i,
{
    if i == 0 {
        assert(text.skip(0) =~= text);
    } else {
        lemma_segment_length_from(text, i - 1);
        let tail = text.skip(i - 1);
        assert(tail[0] != '/');
        assert(tail.drop_first() =~= text.skip(i));
    }
}

/// The workspace that a host and a path name.
pub fn workspace_from_parts(host: Option<&str>, path: &str) -> (r: Option<String>)
    ensures
        match r {
            Some(name) => workspace_in(
                match host {
                    Some(h) => Some(h@),
                    None => None,
                },
                path@,
            ) == Some(name@),
            None => workspace_in(
                match host {
                    Some(h) => Some(h@),
                    None => None,
                },
                path@,
            ) is None,
        },
{
    let on_bitbucket = match host {
        Some(h) => text_eq(h, "bitbucket.org"),
        None => false,
    };
    if !on_bitbucket {
        return None;
    }
    let n = path.unicode_len();
    let mut start: usize = 0;
    while start < n && path.get_char(start) == '/'
        invariant
            start <= n,
            n == path@.len(),
            forall|j: int| 0 <= j < start ==> path@[j] == '/',
        decreases n - start,
    {
        start = start + 1;
    }
    proof {
        lemma_leading_slashes_from(path@, start as int);
        let tail = path@.skip(start as int);
        if tail.len() > 0 {
            assert(tail[0] == path@[start as int]);
        }
        assert(leading_slashes(tail) == 0);
    }
    let ghost rest = path@.skip(start as int);
    let mut end: usize = start;
    while end < n && path.get_char(end) != '/'
        invariant
            start <= end <= n,
            n == path@.len(),
            rest == path@.skip(start as int),
            forall|j: int| 0 <= j < end - start ==> rest[j] != '/',
        decreases n - end,
    {
        proof {
            assert(rest[end - start] == path@[end as int]);
        }
        end = end + 1;
    }
    proof {
        lemma_segment_length_from(rest, end - start);
        let tail = rest.skip(end - start);
        if tail.len() > 0 {
            assert(tail[0] == path@[end as int]);
        }
        assert(segment_length(tail) == 0);
        assert(path@.subrange(start as int, end as int) =~= rest.take(end - start));
    }
    if end > start {
        Some(String::from_str(path.substring_char(start, end)))
    } else {
        None
    }
}

/// The workspace that a Bitbucket URL belongs to: the first segment of its
/// path, as in `https://bitbucket.org/{workspace}/...`. `None` for a text
/// that is no URL, for another host, and for a URL without a workspace.
pub fn extract_workspace_from_url(url: &str) -> (r: Option<String>)
    ensures
        match r {
            Some(name) => workspace_of_url(url@) == Some(name@),
            None => workspace_of_url(url@) is None,
        },
{
    match parse_url(url) {
        Ok(parts) => {
            let host = match &parts.host {
                Some(h) => Some(h.as_str()),
                None => None,
            };
            workspace_from_parts(host, parts.path.as_str())
        },
        Err(_) => None,
    }
}

} // verus!
