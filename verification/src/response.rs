//! Responses and the rules that reduce one to the text that is compared.

use crate::error::{DiffError, DiffErrorView};
use crate::headers::{
    content_type_of, get_content_type, header_lines, header_pairs, header_values,
};
use crate::json::{spec_json_parse, spec_json_pretty, without_fields, JsonValue};
use crate::text::{decimal, decimal_digits, push_chars, same_text};
use vstd::prelude::*;
use vstd::string::StringExecFns;

verus! {

/// Which parts of a response take part in a comparison.
#[derive(Clone, Debug, PartialEq, Eq)]
pub struct ResponseProfile {
    /// The names of the headers that are rendered; all others are left out.
    pub skip_headers: Vec<String>,
    /// The keys that are removed from a JSON body before it is rendered.
    pub skip_body: Vec<String>,
}

/// A list of strings as mathematical values.
pub open spec fn strings_view(v: Seq<String>) -> Seq<Seq<char>> {
    v.map_values(|s: String| s@)
}

impl ResponseProfile {
    /// A profile with the given header names and body keys.
    pub fn new(skip_headers: Vec<String>, skip_body: Vec<String>) -> (r: Self)
        ensures
            r.skip_headers == skip_headers,
            r.skip_body == skip_body,
    {
        Self { skip_headers, skip_body }
    }
}

impl Default for ResponseProfile {
    fn default() -> (r: Self)
        ensures
            r.skip_headers@.len() == 0,
            r.skip_body@.len() == 0,
    {
        Self { skip_headers: Vec::new(), skip_body: Vec::new() }
    }
}

/// The version of HTTP in which a response came.
#[derive(Clone, Copy, Debug, PartialEq, Eq, Structural)]
pub enum Version {
    Http09,
    Http10,
    Http11,
    Http2,
    Http3,
}

/// A response as it was received.
#[derive(Clone, Debug)]
pub struct ResponseExt {
    pub version: Version,
    /// The status code.
    pub status: u16,
    pub headers: http::HeaderMap<http::HeaderValue>,
    /// The body as text.
    pub body: String,
}

/// How a version is written.
pub open spec fn version_text(version: Version) -> Seq<char> {
    match version {
        Version::Http09 => "HTTP/0.9"@,
        Version::Http10 => "HTTP/1.0"@,
        Version::Http11 => "HTTP/1.1"@,
        Version::Http2 => "HTTP/2.0"@,
        Version::Http3 => "HTTP/3.0"@,
    }
}

/// The status line: the version, a space, the status code in decimal, and a line break.
pub open spec fn status_text(version: Version, status: u16) -> Seq<char> {
    version_text(version) + " "@ + decimal(status as nat) + "\n"@
}

/// The line of one header: its name, a colon and a space, its value, and a line break.
pub open spec fn header_line(name: Seq<char>, value: Seq<char>) -> Seq<char> {
    name + ": "@ + value + "\n"@
}

/// The lines of the headers whose name is among `keep`, in the order of the headers.
pub open spec fn header_text(headers: Seq<(Seq<char>, Seq<char>)>, keep: Seq<Seq<char>>) -> Seq<char>
    decreases headers.len(),
{
    if headers.len() == 0 {
        Seq::empty()
    } else {
        header_text(headers.drop_last(), keep) + if keep.contains(headers.last().0) {
            header_line(headers.last().0, headers.last().1)
        } else {
            Seq::empty()
        }
    }
}

/// JSON text without the fields `skip` of its object, written on indented lines.
pub open spec fn filtered_json(text: Seq<char>, skip: Seq<Seq<char>>) -> Result<
    Seq<char>,
    DiffErrorView,
> {
    match spec_json_parse(text) {
        Some(doc) => match spec_json_pretty(without_fields(doc, skip)) {
            Some(pretty) => Ok(pretty),
            None => Err(DiffErrorView::BodyEncodeError),
        },
        None => Err(DiffErrorView::BodyDecodeError),
    }
}

/// The body as it is compared: filtered where the headers announce `application/json`, and
/// as it is else.
pub open spec fn body_text(
    headers: Map<Seq<char>, Seq<char>>,
    body: Seq<char>,
    skip: Seq<Seq<char>>,
) -> Result<Seq<char>, DiffErrorView> {
    if content_type_of(headers) == Some("application/json"@) {
        filtered_json(body, skip)
    } else {
        Ok(body)
    }
}

/// Whether `s` is among `list`.
pub fn contains_text(list: &Vec<String>, s: &str) -> (r: bool)
    ensures
        r == strings_view(list@).contains(s@),
{
    let mut i: usize = 0;
    while i < list.len()
        invariant
            i <= list.len(),
            forall|j: int| 0 <= j < i ==> list@[j]@ != s@,
        decreases list.len() - i,
    {
        if same_text(list[i].as_str(), s) {
            assert(strings_view(list@)[i as int] == s@);
            return true;
        }
        i += 1;
    }
    assert forall|j: int| 0 <= j < strings_view(list@).len() implies strings_view(list@)[j]
        != s@ by {
        assert(strings_view(list@)[j] == list@[j]@);
    }
    false
}

/// Reads JSON text, removes the fields `skip` from its object, and writes it on indented
/// lines.
pub fn filter_json(text: &str, skip: &Vec<String>) -> (r: Result<String, DiffError>)
    ensures
        match r {
            Ok(s) => filtered_json(text@, strings_view(skip@)) == Ok::<Seq<char>, DiffErrorView>(s@),
            Err(e) => filtered_json(text@, strings_view(skip@)) == Err::<Seq<char>, DiffErrorView>(
                e@,
            ),
        },
{
    let doc = match JsonValue::parse(text) {
        Ok(doc) => doc,
        Err(e) => {
            return Err(e);
        },
    };
    doc.remove_fields(skip).to_pretty_text()
}

impl Version {
    /// The version as it is written in a status line.
    pub fn text(&self) -> (s: &'static str)
        ensures
            s@ == version_text(*self),
    {
        match self {
            Version::Http09 => "HTTP/0.9",
            Version::Http10 => "HTTP/1.0",
            Version::Http11 => "HTTP/1.1",
            Version::Http2 => "HTTP/2.0",
            Version::Http3 => "HTTP/3.0",
        }
    }
}

/// The status line of a response.
pub fn get_status_text(res: &ResponseExt) -> (s: String)
    ensures
        s@ == status_text(res.version, res.status),
{
    let mut s = res.version.text().to_owned();
    s.append(" ");
    let digits = decimal_digits(res.status as u128);
    push_chars(&mut s, &digits);
    s.append("\n");
    s
}

/// The lines of the headers of a response whose name is among `skip_headers`.
pub fn get_header_text(res: &ResponseExt, skip_headers: &Vec<String>) -> (s: String)
    ensures
        s@ == header_text(header_lines(res.headers), strings_view(skip_headers@)),
{
    let pairs = header_pairs(&res.headers);
    let ghost all = header_lines(res.headers);
    let ghost keep = strings_view(skip_headers@);
    let mut s = String::new();
    let mut i: usize = 0;
    while i < pairs.len()
        invariant
            i <= pairs.len(),
            all == crate::cli::pairs_view(pairs@),
            keep == strings_view(skip_headers@),
            s@ == header_text(all.take(i as int), keep),
        decreases pairs.len() - i,
    {
        proof {
            assert(all.take(i + 1).drop_last() =~= all.take(i as int));
            assert(all.take(i + 1).last() == all[i as int]);
        }
        let ghost before = s@;
        let pair = &pairs[i];
        if contains_text(skip_headers, pair.0.as_str()) {
            s.append(pair.0.as_str());
            s.append(": ");
            s.append(pair.1.as_str());
            s.append("\n");
            assert(s@ =~= before + header_line(pair.0@, pair.1@));
        }
        i += 1;
    }
    assert(all.take(pairs.len() as int) =~= all);
    s
}

/// The body of a response as it is compared.
pub fn get_body_text(res: &ResponseExt, skip_body: &Vec<String>) -> (r: Result<String, DiffError>)
    ensures
        match r {
            Ok(s) => body_text(header_values(res.headers), res.body@, strings_view(skip_body@))
                == Ok::<Seq<char>, DiffErrorView>(s@),
            Err(e) => body_text(header_values(res.headers), res.body@, strings_view(skip_body@))
                == Err::<Seq<char>, DiffErrorView>(e@),
        },
{
    let json = match get_content_type(&res.headers) {
        Some(essence) => same_text(essence.as_str(), "application/json"),
        None => false,
    };
    if json {
        filter_json(res.body.as_str(), skip_body)
    } else {
        Ok(res.body.clone())
    }
}

impl ResponseExt {
    /// A response with these parts.
    pub fn new(
        version: Version,
        status: u16,
        headers: http::HeaderMap<http::HeaderValue>,
        body: String,
    ) -> (r: Self)
        ensures
            r.version == version,
            r.status == status,
            r.headers == headers,
            r.body == body,
    {
        Self { version, status, headers, body }
    }

    /// The text that stands for the response in a comparison.
    pub open spec fn filtered(&self, profile: &ResponseProfile) -> Result<Seq<char>, DiffErrorView> {
        match body_text(header_values(self.headers), self.body@, strings_view(profile.skip_body@)) {
            Ok(body) => Ok(
                status_text(self.version, self.status) + header_text(
                    header_lines(self.headers),
                    strings_view(profile.skip_headers@),
                ) + body,
            ),
            Err(e) => Err(e),
        }
    }

    /// Reduces the response to the text that is compared: the status line, the lines of the
    /// headers that the profile names, and the body, filtered where it is JSON.
    pub fn filter_text(&self, profile: &ResponseProfile) -> (r: Result<String, DiffError>)
        ensures
            match r {
                Ok(s) => self.filtered(profile) == Ok::<Seq<char>, DiffErrorView>(s@),
                Err(e) => self.filtered(profile) == Err::<Seq<char>, DiffErrorView>(e@),
            },
    {
        let mut output = get_status_text(self);
        output.append(get_header_text(self, &profile.skip_headers).as_str());
        match get_body_text(self, &profile.skip_body) {
            Ok(body) => {
                output.append(body.as_str());
                Ok(output)
            },
            Err(e) => Err(e),
        }
    }

    /// The names of the headers of the response, one for each value, in the order of the
    /// headers.
    pub fn get_header_keys(&self) -> (keys: Vec<String>)
        ensures
            strings_view(keys@) == header_lines(self.headers).map_values(
                |line: (Seq<char>, Seq<char>)| line.0,
            ),
    {
        let pairs = header_pairs(&self.headers);
        let mut keys: Vec<String> = Vec::new();
        let mut i: usize = 0;
        while i < pairs.len()
            invariant
                i <= pairs.len(),
                keys@.len() == i,
                forall|j: int| 0 <= j < i ==> keys@[j]@ == pairs@[j].0@,
            decreases pairs.len() - i,
        {
            keys.push(pairs[i].0.clone());
            i += 1;
        }
        assert(strings_view(keys@) =~= header_lines(self.headers).map_values(
            |line: (Seq<char>, Seq<char>)| line.0,
        ));
        keys
    }
}

} // verus!
