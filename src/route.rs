//! Routing a request by method and path, and the rule that keeps file names
//! inside the base directory.

use vstd::prelude::*;
use crate::bytes::{eq_bytes, matches_at, matches_at_exec, split, split_exec, views};
use crate::request::HttpMethod;

verus! {

/// Which handler serves a request.
#[derive(Clone, Copy, Debug, PartialEq, Eq, Structural)]
pub enum Route {
    /// `GET /`
    Root,
    /// `GET /echo/{text}`
    Echo,
    /// `GET /user-agent...`
    UserAgent,
    /// `GET /files/{name}`
    GetFile,
    /// `POST /files/{name}`
    PostFile,
    /// Anything else.
    NotFound,
}

/// `s` begins with `p`.
pub open spec fn has_prefix(s: Seq<u8>, p: Seq<u8>) -> bool {
    matches_at(s, p, 0)
}

/// `/`
pub open spec fn root_path() -> Seq<u8> {
    seq![47u8]
}

/// `/echo/`
pub open spec fn echo_prefix() -> Seq<u8> {
    seq![47u8, 101u8, 99u8, 104u8, 111u8, 47u8]
}

/// `/user-agent`
pub open spec fn user_agent_prefix() -> Seq<u8> {
    seq![47u8, 117u8, 115u8, 101u8, 114u8, 45u8, 97u8, 103u8, 101u8, 110u8, 116u8]
}

/// `/files/`
pub open spec fn files_prefix() -> Seq<u8> {
    seq![47u8, 102u8, 105u8, 108u8, 101u8, 115u8, 47u8]
}

/// The routing rules, tried in order; the first that matches wins.
pub open spec fn route_of(method: HttpMethod, path: Seq<u8>) -> Route {
    match method {
        HttpMethod::GET => if path == root_path() {
            Route::Root
        } else if has_prefix(path, echo_prefix()) {
            Route::Echo
        } else if has_prefix(path, user_agent_prefix()) {
            Route::UserAgent
        } else if has_prefix(path, files_prefix()) {
            Route::GetFile
        } else {
            Route::NotFound
        },
        HttpMethod::POST => if has_prefix(path, files_prefix()) {
            Route::PostFile
        } else {
            Route::NotFound
        },
    }
}

/// Selects the handler for a method and path.
pub fn route(method: HttpMethod, path: &[u8]) -> (r: Route)
    ensures
        r == route_of(method, path@),
{
    let root: [u8; 1] = [47];
    let echo: [u8; 6] = [47, 101, 99, 104, 111, 47];
    let agent: [u8; 11] = [47, 117, 115, 101, 114, 45, 97, 103, 101, 110, 116];
    let files: [u8; 7] = [47, 102, 105, 108, 101, 115, 47];
    assert(root@ =~= root_path());
    assert(echo@ =~= echo_prefix());
    assert(agent@ =~= user_agent_prefix());
    assert(files@ =~= files_prefix());
    match method {
        HttpMethod::GET => if eq_bytes(path, &root) {
            Route::Root
        } else if matches_at_exec(path, &echo, 0) {
            Route::Echo
        } else if matches_at_exec(path, &agent, 0) {
            Route::UserAgent
        } else if matches_at_exec(path, &files, 0) {
            Route::GetFile
        } else {
            Route::NotFound
        },
        HttpMethod::POST => if matches_at_exec(path, &files, 0) {
            Route::PostFile
        } else {
            Route::NotFound
        },
    }
}

/// `..`
pub open spec fn parent_segment() -> Seq<u8> {
    seq![46u8, 46u8]
}

/// `.`
pub open spec fn current_segment() -> Seq<u8> {
    seq![46u8]
}

/// How many levels below the base directory a walk through `segs` ends,
/// where `..` climbs one level and `.` or an empty segment stays put; `-1`
/// once the walk has climbed above the base directory.
pub open spec fn walk_depth(segs: Seq<Seq<u8>>) -> int
    decreases segs.len(),
{
    if segs.len() == 0 {
        0
    } else {
        let d = walk_depth(segs.drop_last());
        let s = segs.last();
        if d < 0 {
            -1
        } else if s == parent_segment() {
            d - 1
        } else if s.len() == 0 || s == current_segment() {
            d
        } else {
            d + 1
        }
    }
}

/// A file name whose target stays inside the base directory once joined to
/// it: not absolute, and its `/`-separated segments, walked in order, never
/// climb above the base directory.
pub open spec fn safe_name(name: Seq<u8>) -> bool {
    &&& (name.len() == 0 || name[0] != 47u8)
    &&& walk_depth(split(name, seq![47u8])) >= 0
}

/// A walk that has climbed above the base directory stays above it.
proof fn lemma_walk_stays_above(segs: Seq<Seq<u8>>, i: int)
    requires
        0 <= i <= segs.len(),
        walk_depth(segs.subrange(0, i)) < 0,
    ensures
        walk_depth(segs) < 0,
    decreases segs.len(),
{
    if i == segs.len() {
        assert(segs.subrange(0, i) =~= segs);
    } else {
        assert(segs.drop_last().subrange(0, i) =~= segs.subrange(0, i));
        lemma_walk_stays_above(segs.drop_last(), i);
    }
}

/// Decides whether a file name's target stays inside the base directory.
pub fn is_safe_name(name: &[u8]) -> (r: bool)
    ensures
        r == safe_name(name@),
{
    if name.len() > 0 && name[0] == 47 {
        return false;
    }
    let slash: [u8; 1] = [47];
    let dots: [u8; 2] = [46, 46];
    let dot: [u8; 1] = [46];
    assert(slash@ =~= seq![47u8]);
    assert(dots@ =~= parent_segment());
    assert(dot@ =~= current_segment());
    let segments = split_exec(name, &slash);
    let ghost segs = views(segments@);
    let mut depth: usize = 0;
    let mut k: usize = 0;
    assert(segs.subrange(0, 0) =~= Seq::<Seq<u8>>::empty());
    while k < segments.len()
        invariant
            k <= segments@.len(),
            depth <= k,
            dots@ == parent_segment(),
            dot@ == current_segment(),
            segs == views(segments@),
            segs == split(name@, seq![47u8]),
            name@.len() == 0 || name@[0] != 47u8,
            walk_depth(segs.subrange(0, k as int)) == depth as int,
        decreases segments@.len() - k,
    {
        let seg = segments[k].as_slice();
        let ghost pre = segs.subrange(0, k + 1);
        assert(pre.drop_last() =~= segs.subrange(0, k as int));
        assert(pre.last() == seg@);
        if eq_bytes(seg, &dots) {
            if depth == 0 {
                proof {
                    assert(walk_depth(pre) < 0);
                    lemma_walk_stays_above(segs, k + 1);
                }
                return false;
            }
            depth = depth - 1;
        } else if seg.len() > 0 && !eq_bytes(seg, &dot) {
            depth = depth + 1;
        }
        k = k + 1;
    }
    assert(segs.subrange(0, segs.len() as int) =~= segs);
    true
}

} // verus!
