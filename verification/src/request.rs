//! Request profiles: what is sent, and how overrides are merged into it.

use crate::cli::{pairs_view, ExtraArgs, ExtraArgsView};
use crate::error::{DiffError, DiffErrorView, Part};
use crate::headers::{
    content_type_of, essence_of, first_header_fault, header_lines, header_lookup, header_values,
    may_run_full, merge_growth, merge_headers, merged_headers, no_headers,
};
use crate::json::{
    field_of, lemma_field_of_with_field, lemma_without_absent_key, scalar_value,
    spec_json_parse, spec_json_text, spec_query_text, with_field, JsonData, JsonValue,
};
use crate::text::same_text;
use crate::urls::{
    spec_url_append_pair, spec_url_query_pairs, spec_url_without_query, url_append_pair,
    url_query_pairs, url_without_query,
};
use vstd::prelude::*;

verus! {

/// An HTTP method.
#[derive(Clone, Debug, PartialEq, Eq)]
pub enum Method {
    Get,
    Post,
    Put,
    Delete,
    Head,
    Options,
    Connect,
    Patch,
    Trace,
    /// Another method, by its name.
    Extension(String),
}

impl Default for Method {
    fn default() -> (r: Self)
        ensures
            r == Method::Get,
    {
        Method::Get
    }
}

/// One HTTP request: where it goes and what it carries.
#[derive(Clone, Debug, PartialEq, Eq)]
pub struct RequestProfile {
    pub method: Method,
    /// The URL, absolute, as text.
    pub url: String,
    /// The query parameters: a JSON object.
    pub params: JsonValue,
    pub headers: http::HeaderMap<http::HeaderValue>,
    /// The body, if there is one: a JSON object.
    pub body: Option<JsonValue>,
    pub user_agent: Option<String>,
}

/// How a body is written.
pub enum Encoding {
    /// As JSON text.
    Json,
    /// As a query string.
    Query,
}

/// How the body is written for a media type: as JSON for `application/json`, as a query
/// string for `application/x-www-form-urlencoded` and `multipart/form-data`, and not at
/// all for any other.
pub open spec fn encoding_of(essence: Option<Seq<char>>) -> Option<Encoding> {
    match essence {
        Some(e) => if e == "application/json"@ {
            Some(Encoding::Json)
        } else if e == "application/x-www-form-urlencoded"@ || e == "multipart/form-data"@ {
            Some(Encoding::Query)
        } else {
            None
        },
        None => None,
    }
}

/// `doc` written in an encoding.
pub open spec fn encoded(doc: JsonData, encoding: Encoding) -> Option<Seq<char>> {
    match encoding {
        Encoding::Json => spec_json_text(doc),
        Encoding::Query => spec_query_text(doc),
    }
}

/// `doc` after each of `overrides` was set in turn as a field, its value being the number or
/// the boolean that the text reads as, else the text.
pub open spec fn with_fields(doc: JsonData, overrides: Seq<(Seq<char>, Seq<char>)>) -> JsonData
    decreases overrides.len(),
{
    if overrides.len() == 0 {
        doc
    } else {
        with_field(
            with_fields(doc, overrides.drop_last()),
            overrides.last().0,
            scalar_value(overrides.last().1, spec_json_parse(overrides.last().1)),
        )
    }
}

/// The query parameters that the pairs of a query stand for.
pub open spec fn params_of(pairs: Seq<(Seq<char>, Seq<char>)>) -> JsonData {
    with_fields(JsonData::Object(Seq::empty()), pairs)
}

/// The value of the last of `pairs` under `key`.
pub open spec fn last_value(pairs: Seq<(Seq<char>, Seq<char>)>, key: Seq<char>) -> Option<Seq<char>>
    decreases pairs.len(),
{
    if pairs.len() == 0 {
        None
    } else if pairs.last().0 == key {
        Some(pairs.last().1)
    } else {
        last_value(pairs.drop_last(), key)
    }
}

/// The query parameters that a query stands for hold the query: they are an object, under
/// each key of the query stands the value of the last pair with that key, read as a number
/// or a boolean where it is one and as text else, and under any other key stands nothing.
pub proof fn lemma_params_hold_the_query(pairs: Seq<(Seq<char>, Seq<char>)>, key: Seq<char>)
    ensures
        params_of(pairs) matches JsonData::Object(entries) && field_of(entries, key)
            == match last_value(pairs, key) {
            Some(value) => Some(scalar_value(value, spec_json_parse(value))),
            None => None,
        },
    decreases pairs.len(),
{
    if pairs.len() > 0 {
        lemma_params_hold_the_query(pairs.drop_last(), key);
        let before = params_of(pairs.drop_last());
        let last = pairs.last();
        lemma_field_of_with_field(
            before->Object_0,
            last.0,
            scalar_value(last.1, spec_json_parse(last.1)),
            key,
        );
    }
}

/// The pairs of a query as the entries of an object, each value as text.
pub open spec fn text_entries(pairs: Seq<(Seq<char>, Seq<char>)>) -> Seq<(Seq<char>, JsonData)> {
    pairs.map_values(|p: (Seq<char>, Seq<char>)| (p.0, JsonData::String(p.1)))
}

/// Where no key of a query stands twice and no value reads as a number or a boolean, the
/// query parameters that the query stands for are the pairs of the query, in their order
/// and each value as text: writing them out again gives the query back.
pub proof fn lemma_params_are_the_query(pairs: Seq<(Seq<char>, Seq<char>)>)
    requires
        forall|i: int, j: int| 0 <= i < j < pairs.len() ==> pairs[i].0 != pairs[j].0,
        forall|i: int|
            0 <= i < pairs.len() ==> scalar_value(
                (#[trigger] pairs[i]).1,
                spec_json_parse(pairs[i].1),
            ) == JsonData::String(pairs[i].1),
    ensures
        params_of(pairs) == JsonData::Object(text_entries(pairs)),
    decreases pairs.len(),
{
    if pairs.len() == 0 {
        assert(text_entries(pairs) =~= Seq::empty());
    } else {
        let rest = pairs.drop_last();
        let last = pairs.last();
        assert forall|i: int| 0 <= i < rest.len() implies scalar_value(
            (#[trigger] rest[i]).1,
            spec_json_parse(rest[i].1),
        ) == JsonData::String(rest[i].1) by {
            assert(rest[i] == pairs[i]);
        }
        lemma_params_are_the_query(rest);
        assert forall|i: int| 0 <= i < text_entries(rest).len() implies (#[trigger] text_entries(
            rest,
        )[i]).0 != last.0 by {
            assert(text_entries(rest)[i].0 == pairs[i].0);
        }
        lemma_without_absent_key(text_entries(rest), last.0);
        assert(text_entries(pairs) =~= text_entries(rest).push((last.0, JsonData::String(last.1))));
    }
}

/// `url` with each of `pairs` added in turn to its query, or `None` where the `url` crate
/// cannot read what it is handed.
pub open spec fn url_with_pairs(url: Seq<char>, pairs: Seq<(Seq<char>, Seq<char>)>) -> Option<
    Seq<char>,
>
    decreases pairs.len(),
{
    if pairs.len() == 0 {
        Some(url)
    } else {
        match url_with_pairs(url, pairs.drop_last()) {
            Some(u) => spec_url_append_pair(u, pairs.last().0, pairs.last().1),
            None => None,
        }
    }
}

/// Once some of the pairs cannot be added, all of them cannot.
pub proof fn lemma_url_with_pairs_prefix(url: Seq<char>, pairs: Seq<(Seq<char>, Seq<char>)>, n: int)
    requires
        0 <= n <= pairs.len(),
        url_with_pairs(url, pairs.take(n)) is None,
    ensures
        url_with_pairs(url, pairs) is None,
    decreases pairs.len() - n,
{
    if n < pairs.len() {
        assert(pairs.take(n + 1).drop_last() =~= pairs.take(n));
        lemma_url_with_pairs_prefix(url, pairs, n + 1);
    } else {
        assert(pairs.take(n) =~= pairs);
    }
}

/// An object stays an object when fields are set.
pub proof fn lemma_with_fields_is_object(doc: JsonData, overrides: Seq<(Seq<char>, Seq<char>)>)
    requires
        doc is Object,
    ensures
        with_fields(doc, overrides) is Object,
    decreases overrides.len(),
{
    if overrides.len() > 0 {
        lemma_with_fields_is_object(doc, overrides.drop_last());
    }
}

/// What a request is made of once the overrides are merged in.
pub struct MergedView {
    /// The headers, by name.
    pub headers: Map<Seq<char>, Seq<char>>,
    /// The body as it is sent.
    pub body: Seq<char>,
    /// The query parameters.
    pub query: JsonData,
}

/// Sets each of `overrides` as a field of `doc`.
pub fn set_fields(doc: JsonValue, overrides: &Vec<(String, String)>) -> (r: JsonValue)
    ensures
        r@ == with_fields(doc@, pairs_view(overrides@)),
{
    let ghost all = pairs_view(overrides@);
    let ghost start = doc@;
    let mut doc = doc;
    let mut i: usize = 0;
    while i < overrides.len()
        invariant
            i <= overrides.len(),
            all == pairs_view(overrides@),
            doc@ == with_fields(start, all.take(i as int)),
        decreases overrides.len() - i,
    {
        proof {
            assert(all.take(i + 1).drop_last() =~= all.take(i as int));
            assert(all.take(i + 1).last() == all[i as int]);
        }
        let value = JsonValue::parse_scalar(overrides[i].1.as_str());
        doc = doc.set_field(overrides[i].0.as_str(), value);
        i += 1;
    }
    assert(all.take(overrides.len() as int) =~= all);
    doc
}

impl RequestProfile {
    /// A profile with these parts.
    pub fn new(
        method: Method,
        url: String,
        params: JsonValue,
        headers: http::HeaderMap<http::HeaderValue>,
        body: Option<JsonValue>,
        user_agent: Option<String>,
    ) -> (r: Self)
        ensures
            r.method == method,
            r.url == url,
            r.params == params,
            r.headers == headers,
            r.body == body,
            r.user_agent == user_agent,
    {
        Self { method, url, params, headers, body, user_agent }
    }

    /// The part of the profile that is no JSON object, if one is none: the query parameters
    /// are looked at first, and there need be no body.
    pub open spec fn invalid_part(&self) -> Option<Part> {
        if !(self.params@ is Object) {
            Some(Part::Params)
        } else if self.body matches Some(b) && !(b@ is Object) {
            Some(Part::Body)
        } else {
            None
        }
    }

    /// Checks that the query parameters, and the body if there is one, are JSON objects.
    pub fn validate(&self) -> (r: Result<(), DiffError>)
        ensures
            match r {
                Ok(()) => self.invalid_part() is None,
                Err(e) => self.invalid_part() matches Some(part) && e@
                    == (DiffErrorView::InvalidConfig { profile: None, side: None, part }),
            },
    {
        if !self.params.is_object() {
            return Err(DiffError::InvalidConfig { profile: None, side: None, part: Part::Params });
        }
        match &self.body {
            Some(b) => {
                if !b.is_object() {
                    return Err(
                        DiffError::InvalidConfig { profile: None, side: None, part: Part::Body },
                    );
                }
            },
            None => {},
        }
        Ok(())
    }

    /// The profile that a URL stands for: a `GET` request to the URL without its query, with
    /// the pairs of the query as its parameters, and with neither headers nor body.
    pub fn from_str(s: &str) -> (r: Result<RequestProfile, DiffError>)
        ensures
            match r {
                Ok(p) => {
                    &&& spec_url_without_query(s@) == Some(p.url@)
                    &&& spec_url_query_pairs(s@) matches Some(pairs) && p.params@ == params_of(pairs)
                    &&& p.method == Method::Get
                    &&& header_values(p.headers) == no_headers()
                    &&& p.body is None
                    &&& p.user_agent is None
                },
                Err(e) => {
                    &&& spec_url_without_query(s@) is None || spec_url_query_pairs(s@) is None
                    &&& e@ == DiffErrorView::InvalidUrl(s@)
                },
            },
    {
        let pairs = match url_query_pairs(s) {
            Ok(pairs) => pairs,
            Err(_) => {
                return Err(DiffError::InvalidUrl(s.to_owned()));
            },
        };
        let url = match url_without_query(s) {
            Ok(url) => url,
            Err(_) => {
                return Err(DiffError::InvalidUrl(s.to_owned()));
            },
        };
        let params = set_fields(JsonValue::empty_object(), &pairs);
        Ok(
            RequestProfile {
                method: Method::Get,
                url,
                params,
                headers: http::HeaderMap::new(),
                body: None,
                user_agent: None,
            },
        )
    }

    /// The URL of the request as it is shown: that of the profile with the override query
    /// parameters added to its query.
    pub fn get_url(&self, extra_args: &ExtraArgs) -> (r: Result<String, DiffError>)
        ensures
            match r {
                Ok(u) => url_with_pairs(self.url@, extra_args@.query) == Some(u@),
                Err(e) => url_with_pairs(self.url@, extra_args@.query) is None && e@
                    == DiffErrorView::InvalidUrl(self.url@),
            },
    {
        let ghost all = pairs_view(extra_args.query@);
        let mut url = self.url.clone();
        let mut i: usize = 0;
        while i < extra_args.query.len()
            invariant
                i <= extra_args.query.len(),
                all == pairs_view(extra_args.query@),
                url_with_pairs(self.url@, all.take(i as int)) == Some(url@),
            decreases extra_args.query.len() - i,
        {
            proof {
                assert(all.take(i + 1).drop_last() =~= all.take(i as int));
                assert(all.take(i + 1).last() == all[i as int]);
                if url_with_pairs(self.url@, all.take(i + 1)) is None {
                    lemma_url_with_pairs_prefix(self.url@, all, i + 1);
                }
            }
            let pair = &extra_args.query[i];
            match url_append_pair(url.as_str(), pair.0.as_str(), pair.1.as_str()) {
                Ok(next) => {
                    url = next;
                },
                Err(_) => {
                    return Err(DiffError::InvalidUrl(self.url.clone()));
                },
            }
            i += 1;
        }
        assert(all.take(extra_args.query.len() as int) =~= all);
        Ok(url)
    }

    /// The body that overrides are merged into: that of the profile, or the empty object.
    pub open spec fn body_or_empty(&self) -> JsonData {
        match self.body {
            Some(b) => b@,
            None => JsonData::Object(Seq::empty()),
        }
    }

    /// What merging `args` into the profile gives. The profile must be valid. The headers
    /// are those of the profile, with the content type `application/json` where it sets none,
    /// and then the override headers; the body and the query parameters are those of the
    /// profile with the override fields set; the body is written as the content type of
    /// the merged headers asks.
    pub open spec fn merged(&self, args: ExtraArgsView) -> Result<MergedView, DiffErrorView> {
        let headers = merged_headers(header_values(self.headers), args.headers);
        let body = with_fields(self.body_or_empty(), args.body);
        match self.invalid_part() {
            Some(part) => Err(DiffErrorView::InvalidConfig { profile: None, side: None, part }),
            None => match first_header_fault(args.headers) {
                Some(e) => Err(e),
                None => match encoding_of(content_type_of(headers)) {
                    Some(encoding) => match encoded(body, encoding) {
                        Some(text) => Ok(
                            MergedView {
                                headers,
                                body: text,
                                query: with_fields(self.params@, args.query),
                            },
                        ),
                        None => Err(DiffErrorView::BodyEncodeError),
                    },
                    None => Err(
                        DiffErrorView::UnsupportedContentType(
                            match header_lookup(headers, "content-type"@) {
                                Some(value) => value,
                                None => Seq::empty(),
                            },
                        ),
                    ),
                },
            },
        }
    }

    /// Whether the header map may refuse a header when `args` are merged into the profile:
    /// the profile is valid, and the merge puts a header into a map that comes to
    /// [`crate::headers::HEADER_ROOM`] headers or more.
    pub open spec fn may_run_full(&self, args: ExtraArgsView) -> bool {
        self.invalid_part() is None && may_run_full(
            header_lines(self.headers).len(),
            header_values(self.headers),
            args.headers,
        )
    }

    /// Merges the overrides into the profile: the headers, the encoded body and the query
    /// parameters of the request to send.
    ///
    /// The result is what [`RequestProfile::merged`] says, the profile being checked first.
    /// `TooManyHeaders` comes in its place only where the header map may refuse a header
    /// ([`RequestProfile::may_run_full`]).
    pub fn gen_req_config(&self, extra_args: &ExtraArgs) -> (r: Result<
        (http::HeaderMap<http::HeaderValue>, String, JsonValue),
        DiffError,
    >)
        ensures
            match r {
                Ok((headers, body, query)) => {
                    &&& self.merged(extra_args@) == Ok::<MergedView, DiffErrorView>(
                        MergedView { headers: header_values(headers), body: body@, query: query@ },
                    )
                    &&& query@ is Object
                    &&& header_lines(headers).len() <= header_lines(self.headers).len()
                        + merge_growth(header_values(self.headers), extra_args@.headers)
                },
                Err(e) => if e@ == DiffErrorView::TooManyHeaders {
                    self.may_run_full(extra_args@)
                } else {
                    self.merged(extra_args@) == Err::<MergedView, DiffErrorView>(e@)
                },
            },
            !self.may_run_full(extra_args@) ==> (r is Ok) == (self.merged(extra_args@) is Ok),
            self.invalid_part() matches Some(part) ==> r matches Err(e) && e@
                == (DiffErrorView::InvalidConfig { profile: None, side: None, part }),
    {
        match self.validate() {
            Ok(()) => {},
            Err(e) => {
                return Err(e);
            },
        }
        let headers = match merge_headers(&self.headers, &extra_args.headers) {
            Ok(h) => h,
            Err(e) => {
                return Err(e);
            },
        };
        let body = match &self.body {
            Some(b) => b.clone(),
            None => JsonValue::empty_object(),
        };
        let body = set_fields(body, &extra_args.body);
        let query = set_fields(self.params.clone(), &extra_args.query);
        proof {
            lemma_with_fields_is_object(self.params@, extra_args@.query);
        }
        let content_type = crate::headers::content_type_value(&headers);
        let essence = match &content_type {
            Some(value) => essence_of(value.as_str()),
            None => None,
        };
        let encoding = encoding_for(&essence);
        match encoding {
            Some(Encoding::Json) => match body.to_text() {
                Ok(text) => Ok((headers, text, query)),
                Err(e) => Err(e),
            },
            Some(Encoding::Query) => match body.to_query_text() {
                Ok(text) => Ok((headers, text, query)),
                Err(e) => Err(e),
            },
            None => Err(
                DiffError::UnsupportedContentType(
                    match content_type {
                        Some(value) => value,
                        None => String::new(),
                    },
                ),
            ),
        }
    }
}

impl std::str::FromStr for RequestProfile {
    type Err = DiffError;

    /// The profile that a URL stands for: a `GET` request to the URL without its query, with
    /// the pairs of the query as its parameters, and with neither headers nor body.
    fn from_str(s: &str) -> (r: Result<Self, DiffError>)
        ensures
            match r {
                Ok(p) => {
                    &&& spec_url_without_query(s@) == Some(p.url@)
                    &&& spec_url_query_pairs(s@) matches Some(pairs) && p.params@ == params_of(pairs)
                    &&& p.method == Method::Get
                    &&& header_values(p.headers) == no_headers()
                    &&& p.body is None
                    &&& p.user_agent is None
                },
                Err(e) => {
                    &&& spec_url_without_query(s@) is None || spec_url_query_pairs(s@) is None
                    &&& e@ == DiffErrorView::InvalidUrl(s@)
                },
            },
    {
        RequestProfile::from_str(s)
    }
}

/// Picks the encoding for a media type.
pub fn encoding_for(essence: &Option<String>) -> (r: Option<Encoding>)
    ensures
        r == encoding_of(
            match essence {
                Some(e) => Some(e@),
                None => None,
            },
        ),
{
    match essence {
        Some(e) => {
            if same_text(e.as_str(), "application/json") {
                Some(Encoding::Json)
            } else if same_text(e.as_str(), "application/x-www-form-urlencoded") || same_text(
                e.as_str(),
                "multipart/form-data",
            ) {
                Some(Encoding::Query)
            } else {
                None
            }
        },
        None => None,
    }
}

} // verus!
