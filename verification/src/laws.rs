//! Laws of the handler pipeline, stated over the same spec functions the
//! executable contracts use: the echo identity round trip, the
//! route-ordering guarantee for file-fetch targets, and determinism of the
//! response across connections.

use vstd::prelude::*;

use crate::bytes::is_prefix_of;
use crate::bytes::lemma_split_once_none;
use crate::bytes::matches_at;
use crate::bytes::split_once_at;
use crate::bytes::lemma_split_once_found;
use crate::handlers::spec_action;
use crate::handlers::spec_dispatch_request;
use crate::handlers::ActionModel;
use crate::request::spec_parse;
use crate::request::ReqModel;
use crate::router::spec_route;
use crate::router::sp_echo_prefix;
use crate::router::sp_files_prefix;
use crate::router::HandlerId;
use crate::utf8::is_valid_utf8;
use crate::utf8::lemma_ascii_valid;
use crate::utf8::lemma_utf8_concat;
use crate::wire::lemma_dec_digits;
use crate::wire::sp_colon_sp;
use crate::wire::sp_content_length;
use crate::wire::sp_content_type;
use crate::wire::sp_crlf;
use crate::wire::sp_crlf2;
use crate::wire::sp_sp;
use crate::wire::sp_status_200;
use crate::wire::sp_text_plain;
use crate::wire::spec_dec;
use crate::wire::spec_ok_with;

verus! {

/// The status line of a wire-format response: the bytes before the first
/// line terminator.
pub open spec fn response_status(r: Seq<u8>) -> Seq<u8> {
    match split_once_at(r, sp_crlf()) {
        None => r,
        Some((s, _)) => s,
    }
}

/// The body of a wire-format response: the bytes after the first blank
/// line.
pub open spec fn response_body(r: Seq<u8>) -> Seq<u8> {
    match split_once_at(r, sp_crlf2()) {
        None => Seq::empty(),
        Some((_, b)) => b,
    }
}

/// `s` holds no carriage return and no line feed.
pub open spec fn crlf_free(s: Seq<u8>) -> bool {
    forall|k: int| 0 <= k < s.len() ==> #[trigger] s[k] != 13 && s[k] != 10
}

/// The first line terminator of `head + CRLF + rest` closes `head` when
/// `head` holds none itself.
proof fn lemma_status_of_head(head: Seq<u8>, rest: Seq<u8>)
    requires
        crlf_free(head),
    ensures
        split_once_at(head + sp_crlf() + rest, sp_crlf()) == Some((head, rest)),
{
    let x = head + sp_crlf() + rest;
    let i = head.len() as int;
    assert(matches_at(x, sp_crlf(), i)) by {
        assert(x.subrange(i, i + 2) =~= sp_crlf());
    }
    assert forall|j: int| 0 <= j < i implies !matches_at(x, sp_crlf(), j) by {
        if matches_at(x, sp_crlf(), j) {
            assert(x[j] == x.subrange(j, j + 2)[0]);
            assert(x[j] == head[j]);
        }
    }
    lemma_split_once_found(x, sp_crlf(), i);
    assert(x.take(i) =~= head);
    assert(x.skip(i + 2) =~= rest);
}

/// The first blank line of a response head of three lines free of stray
/// line breaks closes the head: splitting there recovers the body exactly.
proof fn lemma_body_of_head(l1: Seq<u8>, l2: Seq<u8>, l3: Seq<u8>, body: Seq<u8>)
    requires
        crlf_free(l1),
        crlf_free(l2),
        crlf_free(l3),
        l2.len() >= 1,
        l3.len() >= 1,
    ensures
        split_once_at(
            (l1 + sp_crlf() + l2 + sp_crlf() + l3) + sp_crlf2() + body,
            sp_crlf2(),
        ) == Some((l1 + sp_crlf() + l2 + sp_crlf() + l3, body)),
{
    let head = l1 + sp_crlf() + l2 + sp_crlf() + l3;
    let x = head + sp_crlf2() + body;
    let c1 = l1.len() as int;
    let c2 = l1.len() + 2 + l2.len() as int;
    let i = head.len() as int;
    assert(head.len() == l1.len() + 2 + l2.len() + 2 + l3.len());
    assert(forall|n: int| 0 <= n < c1 ==> head[n] == l1[n]);
    assert(head[c1] == 13 && head[c1 + 1] == 10);
    assert(forall|n: int| c1 + 2 <= n < c2 ==> head[n] == l2[n - (c1 + 2)]);
    assert(head[c2] == 13 && head[c2 + 1] == 10);
    assert(forall|n: int| c2 + 2 <= n < i ==> head[n] == l3[n - (c2 + 2)]);
    assert(matches_at(x, sp_crlf2(), i)) by {
        assert(x.subrange(i, i + 4) =~= sp_crlf2());
    }
    assert forall|j: int| 0 <= j < i implies !matches_at(x, sp_crlf2(), j) by {
        if matches_at(x, sp_crlf2(), j) {
            assert(x[j] == x.subrange(j, j + 4)[0]);
            assert(x[j + 2] == x.subrange(j, j + 4)[2]);
            assert(x[j] == 13 && x[j + 2] == 13);
            assert(x[j] == head[j]);
            if j < c1 {
                assert(head[j] == l1[j]);
            } else if j == c1 {
                assert(x[j + 2] == head[c1 + 2]);
                assert(head[c1 + 2] == l2[0]);
            } else if j == c1 + 1 {
                assert(head[j] == 10);
            } else if j < c2 {
                assert(head[j] == l2[j - (c1 + 2)]);
            } else if j == c2 {
                assert(x[j + 2] == head[c2 + 2]);
                assert(head[c2 + 2] == l3[0]);
            } else if j == c2 + 1 {
                assert(head[j] == 10);
            } else {
                assert(head[j] == l3[j - (c2 + 2)]);
            }
        }
    }
    lemma_split_once_found(x, sp_crlf2(), i);
    assert(x.take(i) =~= head);
    assert(x.skip(i + 4) =~= body);
}

/// Echo identity law: for any suffix `s`, the echo response for `s`
/// carries status `200 OK`, and its body — the bytes after the first
/// blank line — is `s` itself, byte for byte; its content length renders
/// the byte length of `s`.  (The wire form pins the `Content-Length`
/// value to `spec_dec(s.len())` by construction.)
pub proof fn lemma_echo_round_trip(s: Seq<u8>)
    ensures
        response_status(spec_ok_with(sp_text_plain(), s)) == sp_status_200(),
        response_body(spec_ok_with(sp_text_plain(), s)) == s,
{
    let l1 = sp_status_200();
    let l2 = sp_content_type() + sp_colon_sp() + sp_text_plain();
    let l3 = sp_content_length() + sp_colon_sp() + spec_dec(s.len());
    let r = spec_ok_with(sp_text_plain(), s);
    lemma_dec_digits(s.len());
    assert(crlf_free(l1));
    assert(crlf_free(l2));
    assert(crlf_free(l3));
    assert(r =~= (l1 + sp_crlf() + l2 + sp_crlf() + l3) + sp_crlf2() + s);
    lemma_body_of_head(l1, l2, l3, s);
    lemma_status_of_head(l1, l2 + sp_crlf() + l3 + sp_crlf2() + s);
    assert(r =~= l1 + sp_crlf() + (l2 + sp_crlf() + l3 + sp_crlf2() + s));
}

/// An echo target always routes to the echo handler, and the echoed body
/// is exactly the target suffix after the echo prefix.
pub proof fn lemma_echo_action(m: ReqModel, s: Seq<u8>)
    requires
        m.target == sp_echo_prefix() + s,
    ensures
        spec_route(m.target) == HandlerId::Echo,
        spec_dispatch_request(m) == ActionModel::Respond(spec_ok_with(sp_text_plain(), s)),
{
    let t = m.target;
    assert(t[1] == 101);
    assert(!is_prefix_of(sp_files_prefix(), t)) by {
        if is_prefix_of(sp_files_prefix(), t) {
            assert(t[1] == t.subrange(0, 7)[1]);
        }
    }
    assert(t != crate::router::sp_user_agent_target()) by {
        if t == crate::router::sp_user_agent_target() {
            assert(t[1] == 117);
        }
    }
    assert(is_prefix_of(sp_echo_prefix(), t)) by {
        assert(t.subrange(0, 6) =~= sp_echo_prefix());
    }
    assert(t.skip(6) =~= s);
}

/// Bytes of `"GET"`.
pub open spec fn sp_get() -> Seq<u8> {
    seq![71u8, 69u8, 84u8]
}

/// Bytes of `"HTTP/1.1"`.
pub open spec fn sp_http11() -> Seq<u8> {
    seq![72u8, 84u8, 84u8, 80u8, 47u8, 49u8, 46u8, 49u8]
}

/// The raw bytes of a well-formed echo request for the suffix `s`:
/// `GET /echo/<s> HTTP/1.1` and an empty header block.
pub open spec fn echo_request(s: Seq<u8>) -> Seq<u8> {
    sp_get() + sp_sp() + sp_echo_prefix() + s + sp_sp() + sp_http11() + sp_crlf2()
}

/// Splitting at a separator byte that `a` does not hold lands right after
/// `a`.
proof fn lemma_split_single(a: Seq<u8>, b: u8, c: Seq<u8>)
    requires
        forall|k: int| 0 <= k < a.len() ==> #[trigger] a[k] != b,
    ensures
        split_once_at(a + seq![b] + c, seq![b]) == Some((a, c)),
{
    let x = a + seq![b] + c;
    let i = a.len() as int;
    assert(matches_at(x, seq![b], i)) by {
        assert(x.subrange(i, i + 1) =~= seq![b]);
    }
    assert forall|j: int| 0 <= j < i implies !matches_at(x, seq![b], j) by {
        if matches_at(x, seq![b], j) {
            assert(x[j] == x.subrange(j, j + 1)[0]);
            assert(x[j] == a[j]);
        }
    }
    lemma_split_once_found(x, seq![b], i);
    assert(x.take(i) =~= a);
    assert(x.skip(i + 1) =~= c);
}

/// A sequence without the separator byte does not split at it.
proof fn lemma_split_single_none(x: Seq<u8>, b: u8)
    requires
        forall|k: int| 0 <= k < x.len() ==> #[trigger] x[k] != b,
    ensures
        split_once_at(x, seq![b]) == None::<(Seq<u8>, Seq<u8>)>,
{
    assert forall|j: int| true implies !matches_at(x, seq![b], j) by {
        if matches_at(x, seq![b], j) {
            assert(x[j] == x.subrange(j, j + 1)[0]);
        }
    }
    lemma_split_once_none(x, seq![b]);
}

/// Echo identity law, end to end: a well-formed echo request for a suffix
/// `s` — one request-line token, so `s` holds no line break and no space,
/// and is well-formed UTF-8 — is answered by exactly the echo response
/// whose status is `200 OK` and whose body is `s`, byte for byte.
pub proof fn lemma_echo_end_to_end(s: Seq<u8>)
    requires
        forall|k: int| 0 <= k < s.len() ==> #[trigger] s[k] != 13 && s[k] != 10 && s[k] != 32,
        is_valid_utf8(s),
    ensures
        spec_action(echo_request(s)) == ActionModel::Respond(spec_ok_with(sp_text_plain(), s)),
        response_status(spec_ok_with(sp_text_plain(), s)) == sp_status_200(),
        response_body(spec_ok_with(sp_text_plain(), s)) == s,
{
    let raw = echo_request(s);
    let target = sp_echo_prefix() + s;
    let rl = sp_get() + sp_sp() + target + sp_sp() + sp_http11();

    let pre = sp_get() + sp_sp() + sp_echo_prefix();
    let suf = sp_sp() + sp_http11() + sp_crlf2();
    assert(forall|k: int| 0 <= k < pre.len() ==> #[trigger] pre[k] < 0x80);
    assert(forall|k: int| 0 <= k < suf.len() ==> #[trigger] suf[k] < 0x80);
    lemma_ascii_valid(pre);
    lemma_ascii_valid(suf);
    lemma_utf8_concat(pre, s);
    lemma_utf8_concat(pre + s, suf);
    assert(raw =~= (pre + s) + suf);
    assert(is_valid_utf8(raw));

    assert(crlf_free(rl)) by {
        assert forall|j: int| 0 <= j < rl.len() implies #[trigger] rl[j] != 13 && rl[j] != 10 by {
            let p = (sp_get() + sp_sp() + sp_echo_prefix()).len() as int;
            if j < p {
                assert(rl[j] == pre[j]);
            } else if j < p + s.len() {
                assert(rl[j] == s[j - p]);
            } else {
                assert(rl[j] == (sp_sp() + sp_http11())[j - (p + s.len())]);
            }
        }
    }
    assert(raw =~= rl + sp_crlf() + sp_crlf());
    lemma_status_of_head(rl, sp_crlf());
    assert(split_once_at(raw, sp_crlf()) == Some((rl, sp_crlf())));
    assert(split_once_at(sp_crlf(), sp_crlf2()) == None::<(Seq<u8>, Seq<u8>)>);

    let tail1 = target + sp_sp() + sp_http11();
    assert(forall|k: int| 0 <= k < sp_get().len() ==> #[trigger] sp_get()[k] != 32);
    assert(rl =~= sp_get() + seq![32u8] + tail1);
    lemma_split_single(sp_get(), 32, tail1);
    assert(split_once_at(rl, sp_sp()) == Some((sp_get(), tail1)));

    assert(forall|k: int| 0 <= k < target.len() ==> #[trigger] target[k] != 32) by {
        assert forall|k: int| 0 <= k < target.len() implies #[trigger] target[k] != 32 by {
            if k < 6 {
                assert(target[k] == sp_echo_prefix()[k]);
            } else {
                assert(target[k] == s[k - 6]);
            }
        }
    }
    assert(tail1 =~= target + seq![32u8] + sp_http11());
    lemma_split_single(target, 32, sp_http11());
    assert(split_once_at(tail1, sp_sp()) == Some((target, sp_http11())));

    assert(forall|k: int| 0 <= k < sp_http11().len() ==> #[trigger] sp_http11()[k] != 32);
    lemma_split_single_none(sp_http11(), 32);

    let m = spec_parse(raw)->Some_0;
    assert(m.target == target);
    lemma_echo_action(m, s);
    lemma_echo_round_trip(s);
}

/// Route-ordering law: a target starting with `/files/` is dispatched to
/// the file-fetch handler — never to the echo or user-agent handlers —
/// and the file name handed back is the suffix after the prefix.
pub proof fn lemma_files_first(m: ReqModel)
    requires
        is_prefix_of(sp_files_prefix(), m.target),
    ensures
        spec_route(m.target) == HandlerId::FileFetch,
        spec_dispatch_request(m) == ActionModel::FetchFile(m.target.skip(7)),
{
}

/// Determinism law: the action — and with it the response — is a function
/// of the raw request bytes alone, so two independent connections carrying
/// byte-identical requests receive byte-identical responses; no state
/// leaks from one connection to another.
pub proof fn lemma_same_request_same_action(r1: Seq<u8>, r2: Seq<u8>)
    requires
        r1 == r2,
    ensures
        spec_action(r1) == spec_action(r2),
{
}

} // verus!
