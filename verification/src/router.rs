//! The router: an ordered, immutable list of route rules, each an exact or
//! prefix matcher paired with a handler identity.  The first rule that
//! matches the target wins.

use vstd::prelude::*;

use crate::bytes::bytes_eq;
use crate::bytes::is_prefix_of;
use crate::bytes::starts_with_bytes;

verus! {

/// Bytes of `"/files/"`: the file-fetch route prefix.
pub open spec fn sp_files_prefix() -> Seq<u8> {
    seq![47u8, 102u8, 105u8, 108u8, 101u8, 115u8, 47u8]
}

/// Bytes of `"/files/"`.
pub fn lit_files_prefix() -> (r: Vec<u8>)
    ensures
        r@ == sp_files_prefix(),
{
    let r: Vec<u8> = vec![47u8, 102u8, 105u8, 108u8, 101u8, 115u8, 47u8];
    assert(r@ =~= sp_files_prefix());
    r
}

/// Bytes of `"/user-agent"`: the user-agent route target.
pub open spec fn sp_user_agent_target() -> Seq<u8> {
    seq![47u8, 117u8, 115u8, 101u8, 114u8, 45u8, 97u8, 103u8, 101u8, 110u8, 116u8]
}

/// Bytes of `"/user-agent"`.
pub fn lit_user_agent_target() -> (r: Vec<u8>)
    ensures
        r@ == sp_user_agent_target(),
{
    let r: Vec<u8> = vec![47u8, 117u8, 115u8, 101u8, 114u8, 45u8, 97u8, 103u8, 101u8, 110u8, 116u8];
    assert(r@ =~= sp_user_agent_target());
    r
}

/// Bytes of `"/echo/"`: the echo route prefix.
pub open spec fn sp_echo_prefix() -> Seq<u8> {
    seq![47u8, 101u8, 99u8, 104u8, 111u8, 47u8]
}

/// Bytes of `"/echo/"`.
pub fn lit_echo_prefix() -> (r: Vec<u8>)
    ensures
        r@ == sp_echo_prefix(),
{
    let r: Vec<u8> = vec![47u8, 101u8, 99u8, 104u8, 111u8, 47u8];
    assert(r@ =~= sp_echo_prefix());
    r
}

/// Bytes of `"/"`: the root route target.
pub open spec fn sp_root_target() -> Seq<u8> {
    seq![47u8]
}

/// Bytes of `"/"`.
pub fn lit_root_target() -> (r: Vec<u8>)
    ensures
        r@ == sp_root_target(),
{
    let r: Vec<u8> = vec![47u8];
    assert(r@ =~= sp_root_target());
    r
}

/// Identity of the handler a target is dispatched to.
#[derive(PartialEq, Eq, Structural, Clone, Copy, Debug)]
pub enum HandlerId {
    FileFetch,
    UserAgent,
    Echo,
    Root,
    NotFound,
}

/// A route rule: an exact target, or a literal prefix of the target.
pub enum Matcher {
    Exact(Vec<u8>),
    Prefix(Vec<u8>),
}

/// One entry of the route table.
pub struct Route {
    pub matcher: Matcher,
    pub handler: HandlerId,
}

/// Whether the matcher accepts the target.
pub open spec fn spec_match(m: Matcher, t: Seq<u8>) -> bool {
    match m {
        Matcher::Exact(p) => t == p@,
        Matcher::Prefix(p) => is_prefix_of(p@, t),
    }
}

/// The handler of the first rule that accepts the target; `NotFound` when
/// none does.
pub open spec fn spec_dispatch(rs: Seq<Route>, t: Seq<u8>) -> HandlerId
    decreases rs.len(),
{
    if rs.len() == 0 {
        HandlerId::NotFound
    } else if spec_match(rs[0].matcher, t) {
        rs[0].handler
    } else {
        spec_dispatch(rs.skip(1), t)
    }
}

/// Where the fixed route table sends a target: the file-fetch prefix
/// first, then the exact user-agent target, then the echo prefix, then the
/// exact root target, else not found.  The order is a design invariant.
pub open spec fn spec_route(t: Seq<u8>) -> HandlerId {
    if is_prefix_of(sp_files_prefix(), t) {
        HandlerId::FileFetch
    } else if t == sp_user_agent_target() {
        HandlerId::UserAgent
    } else if is_prefix_of(sp_echo_prefix(), t) {
        HandlerId::Echo
    } else if t == sp_root_target() {
        HandlerId::Root
    } else {
        HandlerId::NotFound
    }
}

/// The fixed route table, in its fixed order.
pub fn routes() -> (r: Vec<Route>)
    ensures
        r@.len() == 4,
        r@[0].matcher matches Matcher::Prefix(p) && p@ == sp_files_prefix(),
        r@[0].handler == HandlerId::FileFetch,
        r@[1].matcher matches Matcher::Exact(p) && p@ == sp_user_agent_target(),
        r@[1].handler == HandlerId::UserAgent,
        r@[2].matcher matches Matcher::Prefix(p) && p@ == sp_echo_prefix(),
        r@[2].handler == HandlerId::Echo,
        r@[3].matcher matches Matcher::Exact(p) && p@ == sp_root_target(),
        r@[3].handler == HandlerId::Root,
{
    let mut r: Vec<Route> = Vec::new();
    r.push(Route { matcher: Matcher::Prefix(lit_files_prefix()), handler: HandlerId::FileFetch });
    r.push(
        Route { matcher: Matcher::Exact(lit_user_agent_target()), handler: HandlerId::UserAgent },
    );
    r.push(Route { matcher: Matcher::Prefix(lit_echo_prefix()), handler: HandlerId::Echo });
    r.push(Route { matcher: Matcher::Exact(lit_root_target()), handler: HandlerId::Root });
    r
}

/// Whether the matcher accepts the target, as `spec_match` says.
pub fn match_target(m: &Matcher, t: &Vec<u8>) -> (r: bool)
    ensures
        r == spec_match(*m, t@),
{
    match m {
        Matcher::Exact(p) => bytes_eq(t, p),
        Matcher::Prefix(p) => starts_with_bytes(t, p),
    }
}

/// Dispatch `t` through a route table, as `spec_dispatch` says.
pub fn dispatch(rs: &Vec<Route>, t: &Vec<u8>) -> (h: HandlerId)
    ensures
        h == spec_dispatch(rs@, t@),
{
    let mut i: usize = 0;
    assert(rs@.skip(0) =~= rs@);
    while i < rs.len()
        invariant
            i <= rs@.len(),
            spec_dispatch(rs@, t@) == spec_dispatch(rs@.skip(i as int), t@),
        decreases rs@.len() - i,
    {
        assert(rs@.skip(i as int)[0] == rs@[i as int]);
        if match_target(&rs[i].matcher, t) {
            return rs[i].handler;
        }
        assert(rs@.skip(i as int).skip(1) =~= rs@.skip(i + 1));
        i += 1;
    }
    HandlerId::NotFound
}

/// Dispatch `t` through the fixed route table, as `spec_route` says.
pub fn route(t: &Vec<u8>) -> (h: HandlerId)
    ensures
        h == spec_route(t@),
{
    let rs = routes();
    let h = dispatch(&rs, t);
    proof {
        let s0 = rs@;
        let s1 = s0.skip(1);
        let s2 = s0.skip(2);
        let s3 = s0.skip(3);
        let s4 = s0.skip(4);
        assert(s1.skip(1) =~= s2);
        assert(s2.skip(1) =~= s3);
        assert(s3.skip(1) =~= s4);
        assert(s1[0] == s0[1]);
        assert(s2[0] == s0[2]);
        assert(s3[0] == s0[3]);
        assert(s4.len() == 0);
        assert(spec_match(s0[0].matcher, t@) == is_prefix_of(sp_files_prefix(), t@));
        assert(spec_match(s0[1].matcher, t@) == (t@ == sp_user_agent_target()));
        assert(spec_match(s0[2].matcher, t@) == is_prefix_of(sp_echo_prefix(), t@));
        assert(spec_match(s0[3].matcher, t@) == (t@ == sp_root_target()));
        assert(spec_dispatch(s4, t@) == HandlerId::NotFound);
        assert(spec_dispatch(s3, t@) == (if t@ == sp_root_target() {
            HandlerId::Root
        } else {
            HandlerId::NotFound
        }));
        assert(spec_dispatch(s2, t@) == (if is_prefix_of(sp_echo_prefix(), t@) {
            HandlerId::Echo
        } else {
            spec_dispatch(s3, t@)
        }));
        assert(spec_dispatch(s1, t@) == (if t@ == sp_user_agent_target() {
            HandlerId::UserAgent
        } else {
            spec_dispatch(s2, t@)
        }));
        assert(spec_dispatch(s0, t@) == (if is_prefix_of(sp_files_prefix(), t@) {
            HandlerId::FileFetch
        } else {
            spec_dispatch(s1, t@)
        }));
        assert(spec_dispatch(s0, t@) == spec_route(t@));
    }
    h
}

} // verus!
