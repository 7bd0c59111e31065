//! The paths of functions, the names that filters match, and the headers that are passed on.

use crate::text::{join, joined, pieces, same_text, split, starts_with, strip_prefix};
use crate::trim::{lower_case, to_ascii_lowercase, trim_start_char, without_leading};
use vstd::prelude::*;

verus! {

/// The headers that concern one connection and are not passed on.
pub open spec fn is_hop_by_hop(name: Seq<char>) -> bool {
    let name = lower_case(name);
    ||| name == "connection"@
    ||| name == "content-length"@
    ||| name == "keep-alive"@
    ||| name == "proxy-authenticate"@
    ||| name == "proxy-authorization"@
    ||| name == "te"@
    ||| name == "trailer"@
    ||| name == "transfer-encoding"@
    ||| name == "upgrade"@
}

/// Whether a header concerns one connection and is not passed on.
pub fn is_hop_by_hop_header(name: &str) -> (r: bool)
    ensures
        r == is_hop_by_hop(name@),
{
    let name = to_ascii_lowercase(name);
    let name: &str = name.as_str();
    same_text(name, "connection") || same_text(name, "content-length") || same_text(
        name,
        "keep-alive",
    ) || same_text(name, "proxy-authenticate") || same_text(name, "proxy-authorization")
        || same_text(name, "te") || same_text(name, "trailer") || same_text(
        name,
        "transfer-encoding",
    ) || same_text(name, "upgrade")
}

/// Whether a request to a function keeps a header: all but the host and the length.
pub open spec fn keeps_header(name: Seq<char>) -> bool {
    lower_case(name) != "host"@ && lower_case(name) != "content-length"@
}

/// Whether a request to a function keeps a header.
pub fn keeps_request_header(name: &str) -> (r: bool)
    ensures
        r == keeps_header(name@),
{
    let name = to_ascii_lowercase(name);
    !same_text(name.as_str(), "host") && !same_text(name.as_str(), "content-length")
}

/// A path to a function.
#[derive(Debug)]
pub struct ParsedRoute {
    pub project_id: String,
    pub region: String,
    pub name: String,
    pub suffix: String,
}

/// What a path to a function holds.
#[verifier::ext_equal]
pub struct RouteView {
    pub project_id: Seq<char>,
    pub region: Seq<char>,
    pub name: Seq<char>,
    pub suffix: Seq<char>,
}

impl DeepView for ParsedRoute {
    type V = RouteView;

    open spec fn deep_view(&self) -> RouteView {
        RouteView {
            project_id: self.project_id@,
            region: self.region@,
            name: self.name@,
            suffix: self.suffix@,
        }
    }
}

/// The path to a function: project, region and name, and what follows them.
pub open spec fn route_of(path: Seq<char>) -> Option<RouteView> {
    let parts = pieces(without_leading(path, '/'), "/"@);
    if parts.len() < 3 || parts[0].len() == 0 || parts[1].len() == 0 || parts[2].len() == 0 {
        None
    } else {
        Some(
            RouteView {
                project_id: parts[0],
                region: parts[1],
                name: parts[2],
                suffix: "/"@ + joined(parts.skip(3), "/"@),
            },
        )
    }
}

/// The path to a function: project, region and name, and what follows them.
pub fn parse_function_route(path: &str) -> (r: Option<ParsedRoute>)
    ensures
        r.deep_view() == route_of(path@),
{
    proof {
        reveal_strlit("/");
    }
    let parts = split(trim_start_char(path, '/'), "/");
    let ghost all = parts.deep_view();
    assert(all.len() == parts@.len());
    if parts.len() < 3 {
        return None;
    }
    let project_id: &str = parts[0];
    let region: &str = parts[1];
    let name: &str = parts[2];
    assert(all[0] == project_id@ && all[1] == region@ && all[2] == name@);
    if project_id.is_empty() || region.is_empty() || name.is_empty() {
        return None;
    }
    let mut rest: Vec<String> = Vec::new();
    let mut i: usize = 3;
    assert(rest.deep_view() =~= all.skip(3).take(0));
    while i < parts.len()
        invariant
            3 <= i <= parts@.len(),
            all == parts.deep_view(),
            rest.deep_view() == all.skip(3).take(i - 3),
        decreases parts@.len() - i,
    {
        let ghost before = rest.deep_view();
        let part: &str = parts[i];
        rest.push(part.to_owned());
        assert(rest.deep_view() =~= before.push(part@));
        assert(all[i as int] == part@);
        i += 1;
        assert(rest.deep_view() =~= all.skip(3).take(i - 3));
    }
    assert(all.skip(3).take(i - 3) =~= all.skip(3));
    let mut suffix = "/".to_owned();
    suffix.append(join(&rest, "/").as_str());
    Some(
        ParsedRoute {
            project_id: project_id.to_owned(),
            region: region.to_owned(),
            name: name.to_owned(),
            suffix,
        },
    )
}

/// Whether a filter matches the id of a function: it is the id, or a prefix of it that a dot or
/// a slash follows.
pub open spec fn filter_matches(value: Seq<char>, filter: Seq<char>) -> bool {
    value == filter || (filter.is_prefix_of(value) && value.len() > filter.len() && (
    value[filter.len() as int] == '.' || value[filter.len() as int] == '/'))
}

/// Whether a filter matches the id of a function.
pub fn function_id_matches_filter(value: &str, filter: &str) -> (r: bool)
    ensures
        r == filter_matches(value@, filter@),
{
    if same_text(value, filter) {
        return true;
    }
    match strip_prefix(value, filter) {
        Some(suffix) => {
            proof {
                reveal_strlit(".");
                reveal_strlit("/");
                if suffix@.len() > 0 {
                    assert(suffix@.subrange(0, 1) =~= seq![suffix@[0]]);
                    assert("."@ =~= seq!['.'] && "/"@ =~= seq!['/']);
                    assert(seq![suffix@[0]][0] == suffix@[0]);
                    assert(seq!['.'][0] == '.' && seq!['/'][0] == '/');
                }
            }
            starts_with(suffix, ".") || starts_with(suffix, "/")
        },
        None => false,
    }
}

/// Whether one of the filters matches, or there are none.
pub open spec fn passes(filters: Seq<Seq<char>>, value: Seq<char>) -> bool {
    filters.len() == 0 || exists|i: int|
        0 <= i < filters.len() && filter_matches(value, #[trigger] filters[i])
}

/// Whether one of the filters matches the id of a function, or there are none.
pub fn passes_filters(filters: &Vec<String>, value: &str) -> (r: bool)
    ensures
        r == passes(filters.deep_view(), value@),
{
    assert(filters.deep_view().len() == filters@.len());
    if filters.len() == 0 {
        return true;
    }
    let mut i: usize = 0;
    while i < filters.len()
        invariant
            i <= filters@.len(),
            forall|j: int|
                0 <= j < i ==> !filter_matches(value@, #[trigger] filters.deep_view()[j]),
        decreases filters@.len() - i,
    {
        if function_id_matches_filter(value, filters[i].as_str()) {
            assert(filter_matches(value@, filters.deep_view()[i as int]));
            return true;
        }
        i += 1;
    }
    false
}

} // verus!
