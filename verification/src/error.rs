//! What can go wrong in the library.

use vstd::prelude::*;

verus! {

/// The side of a comparison.
#[derive(Clone, Copy, Debug, PartialEq, Eq, Structural)]
pub enum Side {
    /// The first request.
    Req1,
    /// The second request.
    Req2,
}

/// The part of a request profile that must be a JSON object.
#[derive(Clone, Copy, Debug, PartialEq, Eq, Structural)]
pub enum Part {
    /// The query parameters.
    Params,
    /// The body.
    Body,
}

/// An error of the library.
#[derive(Clone, Debug, PartialEq, Eq)]
pub enum DiffError {
    /// The configuration text does not have the shape of a profile store.
    ConfigParseError(String),
    /// A request profile whose query parameters or body are not a JSON object; `profile` and
    /// `side` say where it was found, as far as that is known.
    InvalidConfig { profile: Option<String>, side: Option<Side>, part: Part },
    /// The text is not an absolute URL.
    InvalidUrl(String),
    /// The name of an override header is not a header name.
    InvalidHeaderName(String),
    /// The value of an override header, given with its name, cannot stand in a header.
    InvalidHeaderValue(String),
    /// The header map cannot take another header.
    TooManyHeaders,
    /// The request's content type is none that a body can be encoded for.
    UnsupportedContentType(String),
    /// The body could not be encoded for the request's content type.
    BodyEncodeError,
    /// The request to this URL failed in transport.
    RequestFailed(String),
    /// A response announced JSON and its body is none.
    BodyDecodeError,
    /// No profile has this name.
    ProfileNotFound(String),
    /// An override token that is not `key=value` with a key of one of the three kinds.
    MalformedOverrideToken(String),
}

/// The mathematical content of a [`DiffError`].
pub enum DiffErrorView {
    ConfigParseError(Seq<char>),
    InvalidConfig { profile: Option<Seq<char>>, side: Option<Side>, part: Part },
    InvalidUrl(Seq<char>),
    InvalidHeaderName(Seq<char>),
    InvalidHeaderValue(Seq<char>),
    TooManyHeaders,
    UnsupportedContentType(Seq<char>),
    BodyEncodeError,
    RequestFailed(Seq<char>),
    BodyDecodeError,
    ProfileNotFound(Seq<char>),
    MalformedOverrideToken(Seq<char>),
}

impl View for DiffError {
    type V = DiffErrorView;

    open spec fn view(&self) -> DiffErrorView {
        match self {
            DiffError::ConfigParseError(s) => DiffErrorView::ConfigParseError(s@),
            DiffError::InvalidConfig { profile, side, part } => DiffErrorView::InvalidConfig {
                profile: match profile {
                    Some(p) => Some(p@),
                    None => None,
                },
                side: *side,
                part: *part,
            },
            DiffError::InvalidUrl(s) => DiffErrorView::InvalidUrl(s@),
            DiffError::InvalidHeaderName(s) => DiffErrorView::InvalidHeaderName(s@),
            DiffError::InvalidHeaderValue(s) => DiffErrorView::InvalidHeaderValue(s@),
            DiffError::TooManyHeaders => DiffErrorView::TooManyHeaders,
            DiffError::UnsupportedContentType(s) => DiffErrorView::UnsupportedContentType(s@),
            DiffError::BodyEncodeError => DiffErrorView::BodyEncodeError,
            DiffError::RequestFailed(s) => DiffErrorView::RequestFailed(s@),
            DiffError::BodyDecodeError => DiffErrorView::BodyDecodeError,
            DiffError::ProfileNotFound(s) => DiffErrorView::ProfileNotFound(s@),
            DiffError::MalformedOverrideToken(s) => DiffErrorView::MalformedOverrideToken(s@),
        }
    }
}

/// `e` as it is reported for a side of a comparison: an invalid configuration gets the side,
/// any other error stays as it is.
pub open spec fn on_side(e: DiffErrorView, side: Side) -> DiffErrorView {
    match e {
        DiffErrorView::InvalidConfig { profile, side: _, part } => DiffErrorView::InvalidConfig {
            profile,
            side: Some(side),
            part,
        },
        other => other,
    }
}

/// `e` as it is reported for a named profile: an invalid configuration gets the name, any
/// other error stays as it is.
pub open spec fn in_profile(e: DiffErrorView, name: Seq<char>) -> DiffErrorView {
    match e {
        DiffErrorView::InvalidConfig { profile: _, side, part } => DiffErrorView::InvalidConfig {
            profile: Some(name),
            side,
            part,
        },
        other => other,
    }
}

impl DiffError {
    /// The error as it is reported for a side of a comparison.
    pub fn on_side(self, side: Side) -> (r: DiffError)
        ensures
            r@ == on_side(self@, side),
    {
        match self {
            DiffError::InvalidConfig { profile, side: _, part } => DiffError::InvalidConfig {
                profile,
                side: Some(side),
                part,
            },
            other => other,
        }
    }

    /// The error as it is reported for a named profile.
    pub fn in_profile(self, name: &str) -> (r: DiffError)
        ensures
            r@ == in_profile(self@, name@),
    {
        match self {
            DiffError::InvalidConfig { profile: _, side, part } => DiffError::InvalidConfig {
                profile: Some(name.to_owned()),
                side,
                part,
            },
            other => other,
        }
    }
}

} // verus!
