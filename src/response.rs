use vstd::prelude::*;
use vstd::string::*;
use vstd::utf8::encode_utf8;

use crate::strmap::{Entry, StrMap};
use crate::text::{decimal, decimal_string};

verus! {

/// The reason phrase that the status line carries for `code`.
pub open spec fn reason(code: u16) -> Seq<char> {
    if code == 200 {
        "Ok"@
    } else if code == 201 {
        "Created"@
    } else if code == 204 {
        "No Content"@
    } else if code == 400 {
        "Bad Request"@
    } else if code == 401 {
        "Unauthorized"@
    } else if code == 403 {
        "Forbidden"@
    } else if code == 404 {
        "Not Found"@
    } else if code == 405 {
        "Method Not allowed"@
    } else if code == 500 {
        "Internal Server Error"@
    } else if code == 502 {
        "Bad Gateway"@
    } else if code == 503 {
        "Server Unavailable"@
    } else if code < 400 {
        "Success"@
    } else if code < 500 {
        "Client Error"@
    } else {
        "Server Error"@
    }
}

/// One `name: value` line for each entry, in order.
pub open spec fn header_lines(h: Seq<Entry>) -> Seq<char>
    decreases h.len(),
{
    if h.len() == 0 {
        Seq::empty()
    } else {
        header_lines(h.drop_last()) + h.last().0 + ": "@ + h.last().1 + "\r\n"@
    }
}

/// The status line with its line break: `HTTP/1.1 <code> <reason>`.
pub open spec fn status_line(code: u16) -> Seq<char> {
    "HTTP/1.1 "@ + decimal(code as nat) + " "@ + reason(code) + "\r\n"@
}

/// The whole response: status line, content type, content length in bytes of the
/// body as UTF-8, the headers set, a blank line and the body.
pub open spec fn response_text(code: u16, headers: Seq<Entry>, body: Seq<char>) -> Seq<char> {
    status_line(code) + "Content-Type: text/plain\r\nContent-Length: "@ + decimal(
        encode_utf8(body).len(),
    ) + "\r\n"@ + header_lines(headers) + "\r\n"@ + body
}

/// A response under construction: a status code and headers, until `send`.
pub struct Response {
    pub status: u16,
    pub headers: StrMap,
}

impl Response {
    /// A response with status 200 and no headers.
    pub fn new() -> (r: Self)
        ensures
            r.status == 200,
            r.headers.entries() == Seq::<Entry>::empty(),
    {
        Response { status: 200, headers: StrMap::new() }
    }

    /// The reason phrase for `code`.
    pub fn status_text_from_code(code: u16) -> (r: String)
        ensures
            r@ == reason(code),
    {
        let s = if code == 200 {
            "Ok"
        } else if code == 201 {
            "Created"
        } else if code == 204 {
            "No Content"
        } else if code == 400 {
            "Bad Request"
        } else if code == 401 {
            "Unauthorized"
        } else if code == 403 {
            "Forbidden"
        } else if code == 404 {
            "Not Found"
        } else if code == 405 {
            "Method Not allowed"
        } else if code == 500 {
            "Internal Server Error"
        } else if code == 502 {
            "Bad Gateway"
        } else if code == 503 {
            "Server Unavailable"
        } else if code < 400 {
            "Success"
        } else if code < 500 {
            "Client Error"
        } else {
            "Server Error"
        };
        String::from_str(s)
    }

    /// Sets the status code.
    pub fn status(&mut self, code: u16) -> (r: &mut Self)
        ensures
            r.status == code,
            r.headers == old(self).headers,
            *final(self) == *final(r),
    {
        self.status = code;
        self
    }

    /// Sets a header; a later value for the same name replaces the earlier one.
    pub fn header(&mut self, key: String, value: String) -> (r: &mut Self)
        ensures
            r.status == old(self).status,
            r.headers.entries() == crate::strmap::set_entry(
                old(self).headers.entries(),
                key@,
                value@,
            ),
            r.headers@ == old(self).headers@.insert(key@, value@),
            *final(self) == *final(r),
    {
        self.headers.insert(key, value);
        self
    }

    /// The response as it goes on the wire, with `body` after the headers.
    pub fn send(&self, body: &str) -> (r: String)
        ensures
            r@ == response_text(self.status, self.headers.entries(), body@),
    {
        let mut out = String::from_str("HTTP/1.1 ");
        let code = decimal_string(self.status as u64);
        out.append(code.as_str());
        out.append(" ");
        let text = Response::status_text_from_code(self.status);
        out.append(text.as_str());
        out.append("\r\n");
        out.append("Content-Type: text/plain\r\nContent-Length: ");
        let bytes = body.as_bytes();
        let blen = bytes.len();
        let len = decimal_string(blen as u64);
        out.append(len.as_str());
        out.append("\r\n");
        let ghost prefix = out@;
        assert(prefix =~= status_line(self.status) + "Content-Type: text/plain\r\nContent-Length: "@
            + decimal(encode_utf8(body@).len()) + "\r\n"@);
        let n = self.headers.len();
        let mut i: usize = 0;
        while i < n
            invariant
                n == self.headers.entries().len(),
                i <= n,
                out@ == prefix + header_lines(self.headers.entries().subrange(0, i as int)),
            decreases n - i,
        {
            let (k, v) = self.headers.entry(i);
            let ghost before = out@;
            out.append(k.as_str());
            out.append(": ");
            out.append(v.as_str());
            out.append("\r\n");
            proof {
                let h = self.headers.entries();
                assert(h.subrange(0, i + 1).drop_last() =~= h.subrange(0, i as int));
                assert(out@ =~= prefix + header_lines(h.subrange(0, i + 1)));
            }
            i = i + 1;
        }
        assert(self.headers.entries().subrange(0, n as int) =~= self.headers.entries());
        out.append("\r\n");
        out.append(body);
        assert(out@ =~= response_text(self.status, self.headers.entries(), body@));
        out
    }
}

} // verus!
