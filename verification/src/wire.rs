//! Wire-format pieces of the protocol: the byte constants of the status
//! lines and headers, decimal rendering of lengths, and the response
//! formatter that assembles status line, headers and body.

use vstd::prelude::*;

use crate::bytes::append_bytes;

verus! {

/// Bytes of `"\r\n"`: the line terminator.
pub open spec fn sp_crlf() -> Seq<u8> {
    seq![13u8, 10u8]
}

/// Bytes of `"\r\n\r\n"`: the blank-line separator between headers and body.
pub open spec fn sp_crlf2() -> Seq<u8> {
    seq![13u8, 10u8, 13u8, 10u8]
}

/// Bytes of `" "`: the request-line token separator.
pub open spec fn sp_sp() -> Seq<u8> {
    seq![32u8]
}

/// Bytes of `": "`: the header name/value separator on output.
pub open spec fn sp_colon_sp() -> Seq<u8> {
    seq![58u8, 32u8]
}

/// Bytes of `"HTTP/1.1 200 OK"`: the success status line.
pub open spec fn sp_status_200() -> Seq<u8> {
    seq![72u8, 84u8, 84u8, 80u8, 47u8, 49u8, 46u8, 49u8, 32u8, 50u8, 48u8, 48u8, 32u8, 79u8, 75u8]
}

/// Bytes of `"HTTP/1.1 404 Not Found"`: the not-found status line.
pub open spec fn sp_status_404() -> Seq<u8> {
    seq![72u8, 84u8, 84u8, 80u8, 47u8, 49u8, 46u8, 49u8, 32u8, 52u8, 48u8, 52u8, 32u8, 78u8, 111u8, 116u8, 32u8, 70u8, 111u8, 117u8, 110u8, 100u8]
}

/// Bytes of `"HTTP/1.1 400 Bad Request"`: the malformed-request status line.
pub open spec fn sp_status_400() -> Seq<u8> {
    seq![72u8, 84u8, 84u8, 80u8, 47u8, 49u8, 46u8, 49u8, 32u8, 52u8, 48u8, 48u8, 32u8, 66u8, 97u8, 100u8, 32u8, 82u8, 101u8, 113u8, 117u8, 101u8, 115u8, 116u8]
}

/// Bytes of `"Content-Type"`: the content-type header name.
pub open spec fn sp_content_type() -> Seq<u8> {
    seq![67u8, 111u8, 110u8, 116u8, 101u8, 110u8, 116u8, 45u8, 84u8, 121u8, 112u8, 101u8]
}

/// Bytes of `"Content-Length"`: the content-length header name.
pub open spec fn sp_content_length() -> Seq<u8> {
    seq![67u8, 111u8, 110u8, 116u8, 101u8, 110u8, 116u8, 45u8, 76u8, 101u8, 110u8, 103u8, 116u8, 104u8]
}

/// Bytes of `"text/plain"`: the text content type.
pub open spec fn sp_text_plain() -> Seq<u8> {
    seq![116u8, 101u8, 120u8, 116u8, 47u8, 112u8, 108u8, 97u8, 105u8, 110u8]
}

/// Bytes of `"application/octet-stream"`: the file content type.
pub open spec fn sp_octet_stream() -> Seq<u8> {
    seq![97u8, 112u8, 112u8, 108u8, 105u8, 99u8, 97u8, 116u8, 105u8, 111u8, 110u8, 47u8, 111u8, 99u8, 116u8, 101u8, 116u8, 45u8, 115u8, 116u8, 114u8, 101u8, 97u8, 109u8]
}

/// Decimal digits of `n`, most significant first.
pub open spec fn spec_dec(n: nat) -> Seq<u8>
    decreases n,
{
    if n < 10 {
        seq![(48 + n) as u8]
    } else {
        spec_dec(n / 10) + seq![(48 + n % 10) as u8]
    }
}

/// Every byte of `spec_dec(n)` is an ASCII digit, and there is at least one.
pub proof fn lemma_dec_digits(n: nat)
    ensures
        spec_dec(n).len() >= 1,
        forall|k: int| 0 <= k < spec_dec(n).len() ==> 48 <= #[trigger] spec_dec(n)[k] <= 57,
    decreases n,
{
    if n >= 10 {
        lemma_dec_digits(n / 10);
    }
}

/// Decimal rendering of `n`, as `spec_dec` says.
pub fn u64_to_dec(n: u64) -> (r: Vec<u8>)
    ensures
        r@ == spec_dec(n as nat),
    decreases n,
{
    if n < 10 {
        let d: u8 = (n as u8) + 48;
        let r: Vec<u8> = vec![d];
        assert(r@ =~= spec_dec(n as nat));
        r
    } else {
        assert(n / 10 < n);
        let mut r = u64_to_dec(n / 10);
        let d: u8 = ((n % 10) as u8) + 48;
        r.push(d);
        assert(r@ =~= spec_dec(n as nat));
        r
    }
}

/// One response header: a name and a value.
pub struct Header {
    pub name: Vec<u8>,
    pub value: Vec<u8>,
}

/// A response before formatting: status line (without its terminator),
/// headers in order, and body.
pub struct HttpResponse {
    pub status_line: Vec<u8>,
    pub headers: Vec<Header>,
    pub body: Vec<u8>,
}

/// Wire form of one header: `name: value` and the line terminator.
pub open spec fn spec_header_line(h: Header) -> Seq<u8> {
    h.name@ + sp_colon_sp() + h.value@ + sp_crlf()
}

/// Wire form of a header block: the headers' lines in order.
pub open spec fn spec_header_block(hs: Seq<Header>) -> Seq<u8>
    decreases hs.len(),
{
    if hs.len() == 0 {
        Seq::empty()
    } else {
        spec_header_block(hs.drop_last()) + spec_header_line(hs.last())
    }
}

/// Wire form of a whole response: status line, terminator, header block,
/// blank line, body.
pub open spec fn spec_format(status_line: Seq<u8>, hs: Seq<Header>, body: Seq<u8>) -> Seq<u8> {
    status_line + sp_crlf() + spec_header_block(hs) + sp_crlf() + body
}

/// Bytes of `"\r\n"`.
pub fn lit_crlf() -> (r: Vec<u8>)
    ensures
        r@ == sp_crlf(),
{
    let r: Vec<u8> = vec![13u8, 10u8];
    assert(r@ =~= sp_crlf());
    r
}

/// Bytes of `"\r\n\r\n"`.
pub fn lit_crlf2() -> (r: Vec<u8>)
    ensures
        r@ == sp_crlf2(),
{
    let r: Vec<u8> = vec![13u8, 10u8, 13u8, 10u8];
    assert(r@ =~= sp_crlf2());
    r
}

/// Bytes of `" "`.
pub fn lit_sp() -> (r: Vec<u8>)
    ensures
        r@ == sp_sp(),
{
    let r: Vec<u8> = vec![32u8];
    assert(r@ =~= sp_sp());
    r
}

/// Bytes of `": "`.
pub fn lit_colon_sp() -> (r: Vec<u8>)
    ensures
        r@ == sp_colon_sp(),
{
    let r: Vec<u8> = vec![58u8, 32u8];
    assert(r@ =~= sp_colon_sp());
    r
}

/// Bytes of `"HTTP/1.1 200 OK"`.
pub fn lit_status_200() -> (r: Vec<u8>)
    ensures
        r@ == sp_status_200(),
{
    let r: Vec<u8> = vec![72u8, 84u8, 84u8, 80u8, 47u8, 49u8, 46u8, 49u8, 32u8, 50u8, 48u8, 48u8, 32u8, 79u8, 75u8];
    assert(r@ =~= sp_status_200());
    r
}

/// Bytes of `"HTTP/1.1 404 Not Found"`.
pub fn lit_status_404() -> (r: Vec<u8>)
    ensures
        r@ == sp_status_404(),
{
    let r: Vec<u8> = vec![72u8, 84u8, 84u8, 80u8, 47u8, 49u8, 46u8, 49u8, 32u8, 52u8, 48u8, 52u8, 32u8, 78u8, 111u8, 116u8, 32u8, 70u8, 111u8, 117u8, 110u8, 100u8];
    assert(r@ =~= sp_status_404());
    r
}

/// Bytes of `"HTTP/1.1 400 Bad Request"`.
pub fn lit_status_400() -> (r: Vec<u8>)
    ensures
        r@ == sp_status_400(),
{
    let r: Vec<u8> = vec![72u8, 84u8, 84u8, 80u8, 47u8, 49u8, 46u8, 49u8, 32u8, 52u8, 48u8, 48u8, 32u8, 66u8, 97u8, 100u8, 32u8, 82u8, 101u8, 113u8, 117u8, 101u8, 115u8, 116u8];
    assert(r@ =~= sp_status_400());
    r
}

/// Bytes of `"Content-Type"`.
pub fn lit_content_type() -> (r: Vec<u8>)
    ensures
        r@ == sp_content_type(),
{
    let r: Vec<u8> = vec![67u8, 111u8, 110u8, 116u8, 101u8, 110u8, 116u8, 45u8, 84u8, 121u8, 112u8, 101u8];
    assert(r@ =~= sp_content_type());
    r
}

/// Bytes of `"Content-Length"`.
pub fn lit_content_length() -> (r: Vec<u8>)
    ensures
        r@ == sp_content_length(),
{
    let r: Vec<u8> = vec![67u8, 111u8, 110u8, 116u8, 101u8, 110u8, 116u8, 45u8, 76u8, 101u8, 110u8, 103u8, 116u8, 104u8];
    assert(r@ =~= sp_content_length());
    r
}

/// Bytes of `"text/plain"`.
pub fn lit_text_plain() -> (r: Vec<u8>)
    ensures
        r@ == sp_text_plain(),
{
    let r: Vec<u8> = vec![116u8, 101u8, 120u8, 116u8, 47u8, 112u8, 108u8, 97u8, 105u8, 110u8];
    assert(r@ =~= sp_text_plain());
    r
}

/// Bytes of `"application/octet-stream"`.
pub fn lit_octet_stream() -> (r: Vec<u8>)
    ensures
        r@ == sp_octet_stream(),
{
    let r: Vec<u8> = vec![97u8, 112u8, 112u8, 108u8, 105u8, 99u8, 97u8, 116u8, 105u8, 111u8, 110u8, 47u8, 111u8, 99u8, 116u8, 101u8, 116u8, 45u8, 115u8, 116u8, 114u8, 101u8, 97u8, 109u8];
    assert(r@ =~= sp_octet_stream());
    r
}

/// Assemble a response into its wire form, as `spec_format` says.
pub fn format_response(resp: &HttpResponse) -> (r: Vec<u8>)
    ensures
        r@ == spec_format(resp.status_line@, resp.headers@, resp.body@),
{
    let ghost hs = resp.headers@;
    let mut out: Vec<u8> = Vec::new();
    append_bytes(&mut out, &resp.status_line);
    let crlf = lit_crlf();
    append_bytes(&mut out, &crlf);
    let colon_sp = lit_colon_sp();
    assert(out@ =~= resp.status_line@ + sp_crlf() + spec_header_block(hs.take(0)));
    let mut i: usize = 0;
    while i < resp.headers.len()
        invariant
            i <= hs.len(),
            hs == resp.headers@,
            crlf@ == sp_crlf(),
            colon_sp@ == sp_colon_sp(),
            out@ == resp.status_line@ + sp_crlf() + spec_header_block(hs.take(i as int)),
        decreases hs.len() - i,
    {
        let h = &resp.headers[i];
        append_bytes(&mut out, &h.name);
        append_bytes(&mut out, &colon_sp);
        append_bytes(&mut out, &h.value);
        append_bytes(&mut out, &crlf);
        proof {
            assert(hs.take(i + 1).drop_last() =~= hs.take(i as int));
            assert(hs.take(i + 1).last() == hs[i as int]);
            assert(spec_header_block(hs.take(i + 1)) == spec_header_block(hs.take(i as int))
                + spec_header_line(hs[i as int]));
            assert(out@ =~= resp.status_line@ + sp_crlf() + spec_header_block(hs.take(i + 1)));
        }
        i += 1;
    }
    assert(hs.take(i as int) =~= hs);
    append_bytes(&mut out, &crlf);
    append_bytes(&mut out, &resp.body);
    assert(out@ =~= spec_format(resp.status_line@, hs, resp.body@));
    out
}

/// A response of a bare status line: the status, the terminator, the blank
/// line, no headers and no body.
pub open spec fn spec_simple_response(status_line: Seq<u8>) -> Seq<u8> {
    status_line + sp_crlf2()
}

/// The not-found response, `HTTP/1.1 404 Not Found` and a blank line.
pub fn not_found() -> (r: Vec<u8>)
    ensures
        r@ == spec_simple_response(sp_status_404()),
{
    simple_response(lit_status_404())
}

/// The malformed-request response, `HTTP/1.1 400 Bad Request` and a blank
/// line.
pub fn bad_request() -> (r: Vec<u8>)
    ensures
        r@ == spec_simple_response(sp_status_400()),
{
    simple_response(lit_status_400())
}

/// The bare success response, `HTTP/1.1 200 OK` and a blank line.
pub fn ok_empty() -> (r: Vec<u8>)
    ensures
        r@ == spec_simple_response(sp_status_200()),
{
    simple_response(lit_status_200())
}

/// A response of a bare status line, as `spec_simple_response` says.
fn simple_response(status_line: Vec<u8>) -> (r: Vec<u8>)
    ensures
        r@ == spec_simple_response(status_line@),
{
    let resp = HttpResponse { status_line, headers: Vec::new(), body: Vec::new() };
    let r = format_response(&resp);
    assert(r@ =~= spec_simple_response(resp.status_line@));
    r
}

/// A success response carrying `body` under the given content type, with
/// its byte length as the content length.
pub open spec fn spec_ok_with(ctype: Seq<u8>, body: Seq<u8>) -> Seq<u8> {
    sp_status_200() + sp_crlf() + sp_content_type() + sp_colon_sp() + ctype + sp_crlf()
        + sp_content_length() + sp_colon_sp() + spec_dec(body.len()) + sp_crlf() + sp_crlf()
        + body
}

/// Build the success response for `body` under `ctype`, as `spec_ok_with`
/// says.
pub fn ok_with(ctype: Vec<u8>, body: Vec<u8>) -> (r: Vec<u8>)
    ensures
        r@ == spec_ok_with(ctype@, body@),
{
    let len_digits = u64_to_dec(body.len() as u64);
    let mut headers: Vec<Header> = Vec::new();
    headers.push(Header { name: lit_content_type(), value: ctype });
    headers.push(Header { name: lit_content_length(), value: len_digits });
    let resp = HttpResponse { status_line: lit_status_200(), headers, body };
    let r = format_response(&resp);
    proof {
        let hs = resp.headers@;
        assert(hs.drop_last() =~= seq![hs[0]]);
        assert(seq![hs[0]].drop_last() =~= Seq::<Header>::empty());
        assert(spec_header_block(hs) == spec_header_block(seq![hs[0]]) + spec_header_line(
            hs[1],
        ));
        assert(spec_header_block(seq![hs[0]]) == spec_header_block(Seq::<Header>::empty())
            + spec_header_line(hs[0]));
        assert(r@ =~= spec_ok_with(resp.headers@[0].value@, resp.body@));
    }
    r
}

} // verus!
