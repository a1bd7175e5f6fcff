//! The request parser: splits a raw byte stream into request line, header
//! block and body, and the request line into method, target and version.

use vstd::prelude::*;

use crate::bytes::split_once_at;
use crate::bytes::split_once_bytes;
use crate::utf8::check_utf8;
use crate::utf8::is_valid_utf8;
use crate::wire::lit_crlf;
use crate::wire::lit_crlf2;
use crate::wire::lit_sp;
use crate::wire::sp_crlf;
use crate::wire::sp_crlf2;
use crate::wire::sp_sp;

verus! {

/// A parsed request.  The header block stays raw; only the handler that
/// reads a header splits it into lines.
pub struct ParsedRequest {
    pub method: Vec<u8>,
    pub target: Vec<u8>,
    pub version: Vec<u8>,
    pub header_block: Vec<u8>,
    pub body: Vec<u8>,
}

/// The mathematical counterpart of `ParsedRequest`.
pub ghost struct ReqModel {
    pub method: Seq<u8>,
    pub target: Seq<u8>,
    pub version: Seq<u8>,
    pub header_block: Seq<u8>,
    pub body: Seq<u8>,
}

/// Split what follows the request line at the first blank line into header
/// block and body; both empty when no blank line occurs.
pub open spec fn spec_split_headers(rest: Seq<u8>) -> (Seq<u8>, Seq<u8>) {
    match split_once_at(rest, sp_crlf2()) {
        None => (Seq::empty(), Seq::empty()),
        Some(p) => p,
    }
}

/// Parse a raw request.  `None` when the bytes are not well-formed UTF-8,
/// when no line terminator ends a request line, or when the request line
/// has no second token: each is a malformed request.  Otherwise the
/// request line is split on single spaces; the second token is the target,
/// the third, if present, the version.
pub open spec fn spec_parse(raw: Seq<u8>) -> Option<ReqModel> {
    if !is_valid_utf8(raw) {
        None
    } else {
        match split_once_at(raw, sp_crlf()) {
            None => None,
            Some((rl, rest)) => {
                let (hb, body) = spec_split_headers(rest);
                match split_once_at(rl, sp_sp()) {
                    None => None,
                    Some((m, r1)) => {
                        let (t, v) = match split_once_at(r1, sp_sp()) {
                            None => (r1, Seq::<u8>::empty()),
                            Some((t2, r2)) => (
                                t2,
                                match split_once_at(r2, sp_sp()) {
                                    None => r2,
                                    Some((v2, _)) => v2,
                                },
                            ),
                        };
                        Some(
                            ReqModel {
                                method: m,
                                target: t,
                                version: v,
                                header_block: hb,
                                body: body,
                            },
                        )
                    }
                }
            }
        }
    }
}

/// Split the bytes after the request line into header block and body, as
/// `spec_split_headers` says.
pub fn get_body(r: &Vec<u8>) -> (res: (Vec<u8>, Vec<u8>))
    ensures
        res.0@ == spec_split_headers(r@).0,
        res.1@ == spec_split_headers(r@).1,
{
    let crlf2 = lit_crlf2();
    match split_once_bytes(r, &crlf2) {
        Some(p) => p,
        None => (Vec::new(), Vec::new()),
    }
}

/// Parse a raw request, as `spec_parse` says.
pub fn parse_request(raw: &Vec<u8>) -> (r: Option<ParsedRequest>)
    ensures
        (r is Some) == (spec_parse(raw@) is Some),
        r matches Some(pr) ==> spec_parse(raw@) matches Some(m) && pr.method@ == m.method
            && pr.target@ == m.target && pr.version@ == m.version && pr.header_block@
            == m.header_block && pr.body@ == m.body,
{
    if !check_utf8(raw) {
        return None;
    }
    let crlf = lit_crlf();
    let sp = lit_sp();
    match split_once_bytes(raw, &crlf) {
        None => None,
        Some(p) => {
            let (rl, rest) = p;
            let hb_body = get_body(&rest);
            let (hb, body) = hb_body;
            match split_once_bytes(&rl, &sp) {
                None => None,
                Some(q) => {
                    let (m, r1) = q;
                    let (t, v) = match split_once_bytes(&r1, &sp) {
                        None => (r1, Vec::new()),
                        Some(w) => {
                            let (t2, r2) = w;
                            let v = match split_once_bytes(&r2, &sp) {
                                None => r2,
                                Some(x) => x.0,
                            };
                            (t2, v)
                        }
                    };
                    Some(
                        ParsedRequest {
                            method: m,
                            target: t,
                            version: v,
                            header_block: hb,
                            body,
                        },
                    )
                }
            }
        }
    }
}

} // verus!
