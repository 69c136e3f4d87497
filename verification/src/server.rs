//! The request parser and the routing rule.

use vstd::prelude::*;
use vstd::string::*;

use crate::error::{ParseError, ParseErrorView};
use crate::headers::Headers;
use crate::http_request::{
    spec_parse_method, spec_parse_protocol, HttpMethod, HttpProtocol, HttpRequest, RequestView,
};
use crate::http_response::HttpStatus;
use crate::text::{
    find_char, find_char_from, spec_lines, spec_tokens, spec_trim, split_lines, split_tokens, trim,
};

verus! {

/// How one header line is read: the text before the first colon is the
/// name, the text after it, trimmed of surrounding whitespace, is the
/// value.  A line without any colon has no name to split off.  A colon
/// followed by nothing, or only by whitespace, yields an empty value;
/// that is accepted, not an error.
pub open spec fn spec_parse_header_line(line: Seq<char>) -> Result<
    (Seq<char>, Seq<char>),
    ParseErrorView,
> {
    if find_char(line, ':') >= line.len() {
        Err(ParseErrorView::MissingHeaderName)
    } else {
        Ok(
            (
                line.take(find_char(line, ':') as int),
                spec_trim(line.skip(find_char(line, ':') as int + 1)),
            ),
        )
    }
}

/// Reads header lines into `acc`, stopping at the first empty line or
/// at the end of the lines; a later value for a name overwrites an
/// earlier one.
pub open spec fn spec_parse_headers(
    lines: Seq<Seq<char>>,
    acc: Map<Seq<char>, Seq<char>>,
) -> Result<Map<Seq<char>, Seq<char>>, ParseErrorView>
    decreases lines.len(),
{
    if lines.len() == 0 || lines[0].len() == 0 {
        Ok(acc)
    } else {
        match spec_parse_header_line(lines[0]) {
            Err(e) => Err(e),
            Ok(nv) => spec_parse_headers(lines.drop_first(), acc.insert(nv.0, nv.1)),
        }
    }
}

/// What parsing a raw request text yields.  The first line is split on
/// runs of whitespace into method, path and protocol tokens (extra
/// tokens are ignored); the following lines, up to an empty line or the
/// end of the text, are headers.  Each absent or unsupported piece
/// fails with its own error, checked in request-line order.
pub open spec fn spec_parse_request(s: Seq<char>) -> Result<RequestView, ParseErrorView> {
    let lines = spec_lines(s);
    if lines.len() == 0 {
        Err(ParseErrorView::EmptyRequest)
    } else {
        let toks = spec_tokens(lines[0]);
        if toks.len() == 0 {
            Err(ParseErrorView::MissingMethod)
        } else if spec_parse_method(toks[0]) is None {
            Err(ParseErrorView::UnsupportedMethod(toks[0]))
        } else if toks.len() == 1 {
            Err(ParseErrorView::MissingPath)
        } else if toks.len() == 2 {
            Err(ParseErrorView::MissingProtocol)
        } else if spec_parse_protocol(toks[2]) is None {
            Err(ParseErrorView::UnsupportedProtocol(toks[2]))
        } else {
            match spec_parse_headers(lines.drop_first(), Map::empty()) {
                Err(e) => Err(e),
                Ok(h) => Ok(
                    RequestView {
                        method: spec_parse_method(toks[0]).unwrap(),
                        path: toks[1],
                        protocol: spec_parse_protocol(toks[2]).unwrap(),
                        headers: h,
                    },
                ),
            }
        }
    }
}

/// Splits one header line into its name and trimmed value.
fn parse_header_line(line: &str) -> (r: Result<(String, String), ParseError>)
    ensures
        match r {
            Ok(nv) => spec_parse_header_line(line@) == Ok::<_, ParseErrorView>((nv.0@, nv.1@)),
            Err(e) => spec_parse_header_line(line@) == Err::<(Seq<char>, Seq<char>), _>(e@),
        },
{
    let n = line.unicode_len();
    let c = find_char_from(line, 0, ':');
    proof {
        assert(line@.skip(0) =~= line@);
    }
    if c == n {
        Err(ParseError::MissingHeaderName)
    } else {
        let name = String::from_str(line.substring_char(0, c));
        let value = trim(line.substring_char(c + 1, n));
        proof {
            assert(name@ =~= line@.take(c as int));
            assert(line@.subrange(c as int + 1, n as int) =~= line@.skip(c as int + 1));
        }
        Ok((name, value))
    }
}

/// Reads the lines from `start` on as headers, stopping at the first
/// empty line or at the end.
fn parse_header_lines(lines: &Vec<String>, start: usize) -> (r: Result<Headers, ParseError>)
    requires
        start <= lines@.len(),
    ensures
        match r {
            Ok(h) => h.wf() && spec_parse_headers(lines.deep_view().skip(start as int), Map::empty())
                == Ok::<_, ParseErrorView>(h.as_map()),
            Err(e) => spec_parse_headers(lines.deep_view().skip(start as int), Map::empty())
                == Err::<Map<Seq<char>, Seq<char>>, _>(e@),
        },
{
    let n = lines.len();
    let mut headers = Headers::new();
    let mut i = start;
    proof {
        assert(lines.deep_view().len() == lines@.len());
    }
    while i < n
        invariant
            start <= i <= n,
            n == lines@.len(),
            lines.deep_view().len() == n,
            headers.wf(),
            spec_parse_headers(lines.deep_view().skip(start as int), Map::empty())
                == spec_parse_headers(lines.deep_view().skip(i as int), headers.as_map()),
        decreases n - i,
    {
        let ghost lv = lines.deep_view();
        proof {
            assert(lv[i as int] == lines@[i as int]@);
            assert(lv.skip(i as int)[0] == lv[i as int]);
        }
        let line = &lines[i];
        if line.unicode_len() == 0 {
            return Ok(headers);
        }
        match parse_header_line(line.as_str()) {
            Err(e) => {
                return Err(e);
            },
            Ok(nv) => {
                headers.insert(nv.0, nv.1);
                proof {
                    assert(lv.skip(i as int).drop_first() =~= lv.skip(i as int + 1));
                }
            },
        }
        i += 1;
    }
    proof {
        assert(lines.deep_view().skip(n as int) =~= Seq::<Seq<char>>::empty());
    }
    Ok(headers)
}

/// Parses one raw request text into a request.  Exactly the inputs
/// whose [`spec_parse_request`] image is a request succeed; every other
/// input fails with precisely the error that image names.
pub fn parse_request(input: &str) -> (r: Result<HttpRequest, ParseError>)
    ensures
        match r {
            Ok(req) => spec_parse_request(input@) == Ok::<RequestView, ParseErrorView>(req@)
                && req.headers.wf(),
            Err(e) => spec_parse_request(input@) == Err::<RequestView, ParseErrorView>(e@),
        },
{
    let lines = split_lines(input);
    let ghost lv = spec_lines(input@);
    if lines.len() == 0 {
        return Err(ParseError::EmptyRequest);
    }
    proof {
        assert(lines.deep_view()[0] == lines@[0]@);
    }
    let toks = split_tokens(lines[0].as_str());
    let ghost tv = spec_tokens(lv[0]);
    if toks.len() == 0 {
        return Err(ParseError::MissingMethod);
    }
    proof {
        assert(toks.deep_view()[0] == toks@[0]@);
    }
    let method = match HttpMethod::parse(toks[0].as_str()) {
        Ok(m) => m,
        Err(e) => {
            return Err(e);
        },
    };
    if toks.len() == 1 {
        return Err(ParseError::MissingPath);
    }
    proof {
        assert(toks.deep_view()[1] == toks@[1]@);
    }
    let path = toks[1].clone();
    if toks.len() == 2 {
        return Err(ParseError::MissingProtocol);
    }
    proof {
        assert(toks.deep_view()[2] == toks@[2]@);
    }
    let protocol = match HttpProtocol::parse(toks[2].as_str()) {
        Ok(p) => p,
        Err(e) => {
            return Err(e);
        },
    };
    let headers = match parse_header_lines(&lines, 1) {
        Ok(h) => h,
        Err(e) => {
            proof {
                assert(lines.deep_view().skip(1) =~= lv.drop_first());
            }
            return Err(e);
        },
    };
    proof {
        assert(lines.deep_view().skip(1) =~= lv.drop_first());
    }
    Ok(HttpRequest { method, path, protocol, headers })
}

/// Where a request is routed: the pages this server can answer with.
#[derive(Debug, Copy, Clone, Eq, PartialEq, Hash, Structural)]
pub enum Page {
    /// The greeting page, served for `GET` on `/`.
    Hello,
    /// The not-found page, served for everything else.
    Missing,
}

/// The routing rule, a total function: `GET` on `/` is answered with
/// the greeting page and status `Okay`; every other method and path
/// pair, with the not-found page and status `NotFound`.
pub open spec fn spec_route(method: HttpMethod, path: Seq<char>) -> (Page, HttpStatus) {
    if method == HttpMethod::Get && path == "/"@ {
        (Page::Hello, HttpStatus::Okay)
    } else {
        (Page::Missing, HttpStatus::NotFound)
    }
}

/// Decides which page and status answer a request.
pub fn route(method: HttpMethod, path: &str) -> (r: (Page, HttpStatus))
    ensures
        r == spec_route(method, path@),
{
    if method == HttpMethod::Get && String::from_str(path) == String::from_str("/") {
        (Page::Hello, HttpStatus::Okay)
    } else {
        (Page::Missing, HttpStatus::NotFound)
    }
}

} // verus!
