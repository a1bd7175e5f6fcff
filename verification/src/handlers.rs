//! The handlers and the top-level dispatch: root health check, echo,
//! user-agent reflection, file serving, and the fallback not-found path.
//!
//! Filesystem access stays outside the library: for a file-fetch target
//! the dispatch hands back the file name, and `file_response` turns the
//! bytes the caller fetched (or their absence) into the response.

use vstd::prelude::*;

use crate::bytes::copy_range;
use crate::bytes::is_prefix_of;
use crate::bytes::spec_trim;
use crate::bytes::split_all_at;
use crate::bytes::split_all_bytes;
use crate::bytes::starts_with_bytes;
use crate::bytes::trim_bytes;
use crate::request::parse_request;
use crate::request::spec_parse;
use crate::request::ReqModel;
use crate::router::route;
use crate::router::spec_route;
use crate::router::HandlerId;
use crate::utf8::check_utf8;
use crate::utf8::is_valid_utf8;
use crate::wire::bad_request;
use crate::wire::lit_crlf;
use crate::wire::lit_octet_stream;
use crate::wire::lit_text_plain;
use crate::wire::not_found;
use crate::wire::ok_empty;
use crate::wire::ok_with;
use crate::wire::sp_crlf;
use crate::wire::sp_octet_stream;
use crate::wire::sp_status_200;
use crate::wire::sp_status_400;
use crate::wire::sp_status_404;
use crate::wire::sp_text_plain;
use crate::wire::spec_ok_with;
use crate::wire::spec_simple_response;

verus! {

/// Bytes of `"User-Agent:"`: the one request header this system reads.
pub open spec fn sp_user_agent_key() -> Seq<u8> {
    seq![85u8, 115u8, 101u8, 114u8, 45u8, 65u8, 103u8, 101u8, 110u8, 116u8, 58u8]
}

/// Bytes of `"User-Agent:"`.
pub fn lit_user_agent_key() -> (r: Vec<u8>)
    ensures
        r@ == sp_user_agent_key(),
{
    let r: Vec<u8> = vec![85u8, 115u8, 101u8, 114u8, 45u8, 65u8, 103u8, 101u8, 110u8, 116u8, 58u8];
    assert(r@ =~= sp_user_agent_key());
    r
}

/// The first line starting with `User-Agent:`, or `None`.
pub open spec fn first_user_agent_line(lines: Seq<Seq<u8>>) -> Option<Seq<u8>>
    decreases lines.len(),
{
    if lines.len() == 0 {
        None
    } else if is_prefix_of(sp_user_agent_key(), lines[0]) {
        Some(lines[0])
    } else {
        first_user_agent_line(lines.skip(1))
    }
}

/// The user-agent value among the given header lines: everything after the
/// first colon of the first `User-Agent:` line, trimmed of surrounding
/// whitespace; empty when no such line exists.
pub open spec fn spec_user_agent_of_lines(lines: Seq<Seq<u8>>) -> Seq<u8> {
    match first_user_agent_line(lines) {
        None => Seq::empty(),
        Some(l) => spec_trim(l.skip(sp_user_agent_key().len() as int)),
    }
}

/// The user-agent value of a raw header block, once split into lines.
pub open spec fn spec_user_agent(header_block: Seq<u8>) -> Seq<u8> {
    spec_user_agent_of_lines(split_all_at(header_block, sp_crlf()))
}

/// The user-agent value among the given header lines, as
/// `spec_user_agent_of_lines` says.
pub fn get_user_agent(header_lines: &Vec<Vec<u8>>) -> (r: Vec<u8>)
    ensures
        r@ == spec_user_agent_of_lines(header_lines.deep_view()),
{
    let ghost lines = header_lines.deep_view();
    let key = lit_user_agent_key();
    let mut i: usize = 0;
    assert(lines.skip(0) =~= lines);
    while i < header_lines.len()
        invariant
            i <= lines.len(),
            lines == header_lines.deep_view(),
            key@ == sp_user_agent_key(),
            first_user_agent_line(lines) == first_user_agent_line(lines.skip(i as int)),
        decreases lines.len() - i,
    {
        assert(lines.skip(i as int)[0] == lines[i as int]);
        let line = &header_lines[i];
        assert(line@ == lines[i as int]);
        if starts_with_bytes(line, &key) {
            let after = copy_range(line, 11, line.len());
            assert(after@ =~= lines[i as int].skip(11));
            return trim_bytes(&after);
        }
        assert(lines.skip(i as int).skip(1) =~= lines.skip(i + 1));
        i += 1;
    }
    assert(lines.skip(i as int) =~= Seq::<Seq<u8>>::empty());
    Vec::new()
}

/// The user-agent response: split the raw header block into lines, find
/// the user-agent value, and carry it as a `text/plain` body.
pub fn user_agent_handler(header_block: &Vec<u8>) -> (r: Vec<u8>)
    ensures
        r@ == spec_ok_with(sp_text_plain(), spec_user_agent(header_block@)),
{
    let crlf = lit_crlf();
    let lines = split_all_bytes(header_block, &crlf);
    let ua = get_user_agent(&lines);
    ok_with(lit_text_plain(), ua)
}

/// The echo response: the target suffix after `/echo/` becomes the
/// `text/plain` body, verbatim.
pub fn echo_handler(target: &Vec<u8>) -> (r: Vec<u8>)
    requires
        is_prefix_of(crate::router::sp_echo_prefix(), target@),
    ensures
        r@ == spec_ok_with(sp_text_plain(), target@.skip(6)),
{
    let suffix = copy_range(target, 6, target.len());
    assert(suffix@ =~= target@.skip(6));
    ok_with(lit_text_plain(), suffix)
}

/// The file-fetch response for the bytes the caller fetched: the file
/// contents as an `application/octet-stream` body when they exist and are
/// well-formed UTF-8 text, else the not-found response.
pub open spec fn spec_file_response(contents: Option<Seq<u8>>) -> Seq<u8> {
    match contents {
        None => spec_simple_response(sp_status_404()),
        Some(bytes) => if is_valid_utf8(bytes) {
            spec_ok_with(sp_octet_stream(), bytes)
        } else {
            spec_simple_response(sp_status_404())
        },
    }
}

/// The file-fetch response, as `spec_file_response` says.  `contents` is
/// what the caller read for the resolved file: `None` when the path did
/// not resolve inside the serving root or the file could not be read.
pub fn file_response(contents: Option<Vec<u8>>) -> (r: Vec<u8>)
    ensures
        r@ == spec_file_response(
            match contents {
                None => None,
                Some(b) => Some(b@),
            },
        ),
{
    match contents {
        None => not_found(),
        Some(bytes) => {
            if check_utf8(&bytes) {
                ok_with(lit_octet_stream(), bytes)
            } else {
                not_found()
            }
        }
    }
}

/// What the library asks of its caller for one request: either a finished
/// response to send, or the name of a file to fetch under the serving root
/// (whose bytes then go through `file_response`).
pub enum Action {
    Respond(Vec<u8>),
    FetchFile(Vec<u8>),
}

/// The mathematical counterpart of `Action`.
pub ghost enum ActionModel {
    Respond(Seq<u8>),
    FetchFile(Seq<u8>),
}

/// The action after a request is parsed: route the target and apply the
/// selected handler.  A file-fetch target yields the suffix after
/// `/files/` as the file name to fetch.
pub open spec fn spec_dispatch_request(m: ReqModel) -> ActionModel {
    match spec_route(m.target) {
        HandlerId::FileFetch => ActionModel::FetchFile(m.target.skip(7)),
        HandlerId::UserAgent => ActionModel::Respond(
            spec_ok_with(sp_text_plain(), spec_user_agent(m.header_block)),
        ),
        HandlerId::Echo => ActionModel::Respond(spec_ok_with(sp_text_plain(), m.target.skip(6))),
        HandlerId::Root => ActionModel::Respond(spec_simple_response(sp_status_200())),
        HandlerId::NotFound => ActionModel::Respond(spec_simple_response(sp_status_404())),
    }
}

/// The action for a raw request: a malformed request yields the
/// bad-request response, any other is parsed, routed and handled.
pub open spec fn spec_action(raw: Seq<u8>) -> ActionModel {
    match spec_parse(raw) {
        None => ActionModel::Respond(spec_simple_response(sp_status_400())),
        Some(m) => spec_dispatch_request(m),
    }
}

/// Handle one raw request, as `spec_action` says.
pub fn handle_request(raw: &Vec<u8>) -> (a: Action)
    ensures
        a matches Action::Respond(v) ==> spec_action(raw@) == ActionModel::Respond(v@),
        a matches Action::FetchFile(n) ==> spec_action(raw@) == ActionModel::FetchFile(n@),
        (a is Respond) == (spec_action(raw@) is Respond),
{
    match parse_request(raw) {
        None => Action::Respond(bad_request()),
        Some(pr) => {
            match route(&pr.target) {
                HandlerId::FileFetch => {
                    assert(is_prefix_of(crate::router::sp_files_prefix(), pr.target@));
                    let name = copy_range(&pr.target, 7, pr.target.len());
                    assert(name@ =~= pr.target@.skip(7));
                    Action::FetchFile(name)
                }
                HandlerId::UserAgent => Action::Respond(user_agent_handler(&pr.header_block)),
                HandlerId::Echo => Action::Respond(echo_handler(&pr.target)),
                HandlerId::Root => Action::Respond(ok_empty()),
                HandlerId::NotFound => Action::Respond(not_found()),
            }
        }
    }
}

} // verus!
