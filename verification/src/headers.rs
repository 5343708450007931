//! Header maps of the `http` crate, the rule by which overrides are merged into one, and
//! the content type that a header map announces.

use crate::cli::pairs_view;
use crate::error::{DiffError, DiffErrorView};
use crate::text::{chars_of, find_char, first_index, string_of};
use std::str::FromStr;
use vstd::prelude::*;

verus! {

/// The header map of the `http` crate.
#[verifier::external_type_specification]
#[verifier::external_body]
#[verifier::reject_recursive_types(T)]
pub struct ExHeaderMap<T>(http::HeaderMap<T>);

/// A header value of the `http` crate.
#[verifier::external_type_specification]
#[verifier::external_body]
pub struct ExHeaderValue(http::HeaderValue);

/// Why `mime` could not read a media type.
#[verifier::external_type_specification]
#[verifier::external_body]
pub struct ExFromStrError(mime::FromStrError);

/// What a header map holds under each name: the first value stored under it, read as UTF-8
/// text (bytes that are none are replaced). The names are in lower case.
pub uninterp spec fn header_values(m: http::HeaderMap<http::HeaderValue>) -> Map<
    Seq<char>,
    Seq<char>,
>;

/// All that a header map holds: each name with each value stored under it, read as UTF-8 text
/// (bytes that are none are replaced), in the order in which the map hands them out.
pub uninterp spec fn header_lines(m: http::HeaderMap<http::HeaderValue>) -> Seq<
    (Seq<char>, Seq<char>),
>;

/// The essence (type, `/`, subtype, in lower case) of the media type that `mime` reads from
/// `text`, or `None` where it reads none.
pub uninterp spec fn spec_mime_essence(text: Seq<char>) -> Option<Seq<char>>;

/// The characters of which a header name is made: the letters, the digits and
/// ``!#$%&'*+-.^_`|~``.
pub open spec fn is_header_name_char(c: char) -> bool {
    ||| 'a' <= c <= 'z'
    ||| 'A' <= c <= 'Z'
    ||| '0' <= c <= '9'
    ||| c == '!'
    ||| c == '#'
    ||| c == '$'
    ||| c == '%'
    ||| c == '&'
    ||| c == '\''
    ||| c == '*'
    ||| c == '+'
    ||| c == '-'
    ||| c == '.'
    ||| c == '^'
    ||| c == '_'
    ||| c == '`'
    ||| c == '|'
    ||| c == '~'
}

/// `c` with an ASCII capital turned into its small letter.
pub open spec fn ascii_lower(c: char) -> char {
    if 'A' <= c <= 'Z' {
        ((c as u8 + 32) as u8) as char
    } else {
        c
    }
}

/// The name under which a header map stores a header called `name`: `name` in lower case,
/// where it is made of one to 65535 characters of a header name, and `None` else.
pub open spec fn header_name(name: Seq<char>) -> Option<Seq<char>> {
    if 1 <= name.len() <= 65535 && forall|i: int|
        0 <= i < name.len() ==> is_header_name_char(#[trigger] name[i]) {
        Some(name.map_values(|c: char| ascii_lower(c)))
    } else {
        None
    }
}

/// Whether `value` can stand in a header: it holds no control character but the tab.
pub open spec fn is_header_value(value: Seq<char>) -> bool {
    forall|i: int|
        0 <= i < value.len() ==> {
            let c = #[trigger] value[i];
            c == '\t' || (c as u32 >= 32 && c as u32 != 127)
        }
}

/// What an empty header map holds.
pub open spec fn no_headers() -> Map<Seq<char>, Seq<char>> {
    Map::empty()
}

/// The value found under `name`, whatever the case of its letters, in a map that holds
/// `values`.
pub open spec fn header_lookup(values: Map<Seq<char>, Seq<char>>, name: Seq<char>) -> Option<
    Seq<char>,
> {
    match header_name(name) {
        Some(n) => if values.contains_key(n) {
            Some(values[n])
        } else {
            None
        },
        None => None,
    }
}

/// `values` with `value` alone under the header name `name`.
pub open spec fn with_header(
    values: Map<Seq<char>, Seq<char>>,
    name: Seq<char>,
    value: Seq<char>,
) -> Map<Seq<char>, Seq<char>> {
    values.insert(header_name(name)->0, value)
}

/// How many names a map that holds `values` gains when a header called `name` is set:
/// none where a header of that name is there, one where none is.
pub open spec fn new_names(values: Map<Seq<char>, Seq<char>>, name: Seq<char>) -> nat {
    if header_lookup(values, name) is Some {
        0
    } else {
        1
    }
}

/// The number of headers below which a header map never refuses another one.
pub const HEADER_ROOM: usize = 6554;

/// Why a header was not put into a map.
pub enum HeaderFault {
    /// The name is no header name.
    Name,
    /// The value cannot stand in a header.
    Value,
    /// The map cannot grow further.
    Full,
}

/// `HeaderMap::clone` returns an equal map.
pub assume_specification<T: Clone>[ <http::HeaderMap<T> as Clone>::clone ](
    m: &http::HeaderMap<T>,
) -> (r: http::HeaderMap<T>)
    ensures
        r == *m,
;

/// `HeaderMap::new` returns a map that holds nothing.
pub assume_specification[ http::HeaderMap::new ]() -> (r: http::HeaderMap<http::HeaderValue>)
    ensures
        header_values(r) == no_headers(),
        header_lines(r).len() == 0,
;

/// `HeaderMap::get` with a string as the key: the first value stored under the name, whatever
/// the case of its letters, handed out as text; none where the string is no header name.
#[verifier::external_body]
fn header_get(m: &http::HeaderMap<http::HeaderValue>, name: &str) -> (r: Option<String>)
    ensures
        r matches Some(value) ==> header_lookup(header_values(*m), name@) == Some(value@),
        r is None ==> header_lookup(header_values(*m), name@) is None,
{
    m.get(name).map(|v| String::from_utf8_lossy(v.as_bytes()).into_owned())
}

/// `HeaderName::from_str`, `HeaderValue::from_str` and `HeaderMap::try_insert`: a name
/// that is a header name and a value that can stand in a header are stored, the name in lower
/// case, in place of all that was stored under the name; else the fault is reported, the name
/// being looked at first. The map grows by one header where the name is new and by none
/// where it is not. It refuses to grow only when its table of 32768 places would have to
/// double, which it does at the earliest with 6554 names (a fifth of the table): below
/// [`HEADER_ROOM`] headers it never does.
#[verifier::external_body]
fn header_insert(m: &mut http::HeaderMap<http::HeaderValue>, name: &str, value: &str) -> (r:
    Result<(), HeaderFault>)
    ensures
        (r matches Err(HeaderFault::Name)) == (header_name(name@) is None),
        (r matches Err(HeaderFault::Value)) == (header_name(name@) is Some && !is_header_value(value@)),
        r is Ok ==> header_values(*final(m)) == with_header(header_values(*old(m)), name@, value@),
        r is Ok ==> header_lines(*final(m)).len() <= header_lines(*old(m)).len() + new_names(header_values(*old(m)), name@),
        header_lines(*old(m)).len() < HEADER_ROOM ==> !(r matches Err(HeaderFault::Full)),
{
    let n = http::HeaderName::from_str(name).map_err(|_| HeaderFault::Name)?;
    let v = http::HeaderValue::from_str(value).map_err(|_| HeaderFault::Value)?;
    m.try_insert(n, v).map(|_| ()).map_err(|_| HeaderFault::Full)
}

/// `HeaderMap::iter`, each name and value handed out as text.
#[verifier::external_body]
pub(crate) fn header_pairs(m: &http::HeaderMap<http::HeaderValue>) -> (r: Vec<(String, String)>)
    ensures
        pairs_view(r@) == header_lines(*m),
{
    m.iter().map(
        |(k, v)| (k.as_str().to_owned(), String::from_utf8_lossy(v.as_bytes()).into_owned()),
    ).collect()
}

/// `mime::Mime::from_str` and `Mime::essence_str`: the result is named
/// [`spec_mime_essence`], nothing more is claimed of it.
#[verifier::external_body]
fn mime_essence(text: &str) -> (r: Result<String, mime::FromStrError>)
    ensures
        r matches Ok(e) ==> spec_mime_essence(text@) == Some(e@),
        r is Err ==> spec_mime_essence(text@) is None,
{
    mime::Mime::from_str(text).map(|m| m.essence_str().to_owned())
}

/// `values` with the content type `application/json`, unless a content type is set.
pub open spec fn with_default_content_type(values: Map<Seq<char>, Seq<char>>) -> Map<
    Seq<char>,
    Seq<char>,
> {
    if values.contains_key("content-type"@) {
        values
    } else {
        values.insert("content-type"@, "application/json"@)
    }
}

/// What is wrong with one override header, if anything: its name is looked at first.
pub open spec fn header_fault(name: Seq<char>, value: Seq<char>) -> Option<DiffErrorView> {
    if header_name(name) is None {
        Some(DiffErrorView::InvalidHeaderName(name))
    } else if !is_header_value(value) {
        Some(DiffErrorView::InvalidHeaderValue(name))
    } else {
        None
    }
}

/// The fault of the first override header that has one.
pub open spec fn first_header_fault(overrides: Seq<(Seq<char>, Seq<char>)>) -> Option<
    DiffErrorView,
>
    decreases overrides.len(),
{
    if overrides.len() == 0 {
        None
    } else {
        match first_header_fault(overrides.drop_last()) {
            Some(e) => Some(e),
            None => header_fault(overrides.last().0, overrides.last().1),
        }
    }
}

/// `values` after each of `overrides` was set in turn, a later one replacing an earlier one
/// of the same name.
pub open spec fn with_overrides(
    values: Map<Seq<char>, Seq<char>>,
    overrides: Seq<(Seq<char>, Seq<char>)>,
) -> Map<Seq<char>, Seq<char>>
    decreases overrides.len(),
{
    if overrides.len() == 0 {
        values
    } else {
        with_header(
            with_overrides(values, overrides.drop_last()),
            overrides.last().0,
            overrides.last().1,
        )
    }
}

/// The headers of a request: those of the profile, the content type `application/json` where
/// the profile sets none, and then the overrides.
pub open spec fn merged_headers(
    values: Map<Seq<char>, Seq<char>>,
    overrides: Seq<(Seq<char>, Seq<char>)>,
) -> Map<Seq<char>, Seq<char>> {
    with_overrides(with_default_content_type(values), overrides)
}

/// Setting overrides takes no header away.
pub proof fn lemma_overrides_keep_names(
    values: Map<Seq<char>, Seq<char>>,
    overrides: Seq<(Seq<char>, Seq<char>)>,
    name: Seq<char>,
)
    requires
        values.contains_key(name),
    ensures
        with_overrides(values, overrides).contains_key(name),
    decreases overrides.len(),
{
    if overrides.len() > 0 {
        lemma_overrides_keep_names(values, overrides.drop_last(), name);
    }
}

/// Setting overrides is laying the map of the overrides over the map of the headers.
pub proof fn lemma_overrides_lie_over(
    values: Map<Seq<char>, Seq<char>>,
    overrides: Seq<(Seq<char>, Seq<char>)>,
)
    ensures
        with_overrides(values, overrides) == values.union_prefer_right(
            with_overrides(Map::empty(), overrides),
        ),
    decreases overrides.len(),
{
    if overrides.len() > 0 {
        lemma_overrides_lie_over(values, overrides.drop_last());
    }
    assert(with_overrides(values, overrides) =~= values.union_prefer_right(
        with_overrides(Map::empty(), overrides),
    ));
}

/// Merging the same overrides a second time changes nothing: the headers that one merge
/// gives are the headers that a second merge of the same overrides into them gives.
pub proof fn lemma_merge_is_idempotent(
    values: Map<Seq<char>, Seq<char>>,
    overrides: Seq<(Seq<char>, Seq<char>)>,
)
    ensures
        merged_headers(merged_headers(values, overrides), overrides) == merged_headers(
            values,
            overrides,
        ),
{
    let start = with_default_content_type(values);
    let once = with_overrides(start, overrides);
    lemma_overrides_keep_names(start, overrides, "content-type"@);
    assert(with_default_content_type(once) == once);
    lemma_overrides_lie_over(start, overrides);
    lemma_overrides_lie_over(once, overrides);
    assert(with_overrides(once, overrides) =~= once);
}

/// An override decides: after a merge the header of the last override stands under its name
/// with the value of that override.
pub proof fn lemma_last_override_wins(
    values: Map<Seq<char>, Seq<char>>,
    overrides: Seq<(Seq<char>, Seq<char>)>,
)
    requires
        overrides.len() > 0,
        header_name(overrides.last().0) is Some,
    ensures
        header_lookup(merged_headers(values, overrides), overrides.last().0) == Some(
            overrides.last().1,
        ),
{
}

/// `content-type` is a header name in lower case, and `application/json` can stand in a
/// header.
pub proof fn lemma_content_type_header()
    ensures
        header_name("content-type"@) == Some("content-type"@),
        is_header_value("application/json"@),
{
    reveal_strlit("content-type");
    reveal_strlit("application/json");
    let name = "content-type"@;
    assert(name.map_values(|c: char| ascii_lower(c)) =~= name);
}

/// How many names a map that holds `values` gains when each of `overrides` is set in turn.
pub open spec fn added_names(
    values: Map<Seq<char>, Seq<char>>,
    overrides: Seq<(Seq<char>, Seq<char>)>,
) -> nat
    decreases overrides.len(),
{
    if overrides.len() == 0 {
        0
    } else {
        added_names(values, overrides.drop_last()) + new_names(
            with_overrides(values, overrides.drop_last()),
            overrides.last().0,
        )
    }
}

/// How many names a merge adds at most: the content type where none is set, and each name
/// among the overrides that is not there when its turn comes.
pub open spec fn merge_growth(
    values: Map<Seq<char>, Seq<char>>,
    overrides: Seq<(Seq<char>, Seq<char>)>,
) -> nat {
    new_names(values, "content-type"@) + added_names(with_default_content_type(values), overrides)
}

/// Whether a merge puts a header into the map at all: it sets the content type, or its
/// first override has no fault.
pub open spec fn merge_inserts(
    values: Map<Seq<char>, Seq<char>>,
    overrides: Seq<(Seq<char>, Seq<char>)>,
) -> bool {
    ||| !values.contains_key("content-type"@)
    ||| overrides.len() > 0 && header_fault(overrides[0].0, overrides[0].1) is None
}

/// Whether the header map may refuse a header during a merge: the merge puts a header into
/// a map of `lines` headers, which with the names that the merge adds come to
/// [`HEADER_ROOM`] or more.
pub open spec fn may_run_full(
    lines: nat,
    values: Map<Seq<char>, Seq<char>>,
    overrides: Seq<(Seq<char>, Seq<char>)>,
) -> bool {
    merge_inserts(values, overrides) && lines + merge_growth(values, overrides) >= HEADER_ROOM
}

/// A merge adds at most one name for each override, and one for the content type.
pub proof fn lemma_merge_growth_is_bounded(
    values: Map<Seq<char>, Seq<char>>,
    overrides: Seq<(Seq<char>, Seq<char>)>,
)
    ensures
        merge_growth(values, overrides) <= overrides.len() + 1,
{
    lemma_added_names_are_bounded(with_default_content_type(values), overrides);
}

/// Setting overrides adds at most one name for each.
pub proof fn lemma_added_names_are_bounded(
    values: Map<Seq<char>, Seq<char>>,
    overrides: Seq<(Seq<char>, Seq<char>)>,
)
    ensures
        added_names(values, overrides) <= overrides.len(),
    decreases overrides.len(),
{
    if overrides.len() > 0 {
        lemma_added_names_are_bounded(values, overrides.drop_last());
    }
}

/// More overrides add no fewer names.
pub proof fn lemma_added_names_grow(
    values: Map<Seq<char>, Seq<char>>,
    overrides: Seq<(Seq<char>, Seq<char>)>,
    n: int,
)
    requires
        0 <= n <= overrides.len(),
    ensures
        added_names(values, overrides.take(n)) <= added_names(values, overrides),
    decreases overrides.len() - n,
{
    if n < overrides.len() {
        assert(overrides.take(n + 1).drop_last() =~= overrides.take(n));
        lemma_added_names_grow(values, overrides, n + 1);
    } else {
        assert(overrides.take(n) =~= overrides);
    }
}

/// Overrides whose first has a fault have that fault as their first.
pub proof fn lemma_first_fault_at_the_start(overrides: Seq<(Seq<char>, Seq<char>)>)
    requires
        overrides.len() > 0,
        header_fault(overrides[0].0, overrides[0].1) is Some,
    ensures
        first_header_fault(overrides) == header_fault(overrides[0].0, overrides[0].1),
{
    assert(overrides.take(1).drop_last() =~= Seq::<(Seq<char>, Seq<char>)>::empty());
    assert(overrides.take(1).last() == overrides[0]);
    assert(first_header_fault(overrides.take(1).drop_last()) is None);
    assert(first_header_fault(overrides.take(1)) == header_fault(overrides[0].0, overrides[0].1));
    lemma_first_header_fault_prefix(overrides, 1);
}

/// Overrides without a fault have none at their start.
pub proof fn lemma_no_fault_at_the_start(overrides: Seq<(Seq<char>, Seq<char>)>, n: int)
    requires
        0 < n <= overrides.len(),
        first_header_fault(overrides.take(n)) is None,
    ensures
        header_fault(overrides[0].0, overrides[0].1) is None,
{
    if header_fault(overrides[0].0, overrides[0].1) is Some {
        let head = overrides.take(n);
        assert(head[0] == overrides[0]);
        lemma_first_fault_at_the_start(head);
    }
}

/// Overrides without a fault hold none.
pub proof fn lemma_no_fault_anywhere(overrides: Seq<(Seq<char>, Seq<char>)>, i: int)
    requires
        0 <= i < overrides.len(),
        first_header_fault(overrides) is None,
    ensures
        header_fault(overrides[i].0, overrides[i].1) is None,
    decreases overrides.len(),
{
    if i < overrides.len() - 1 {
        lemma_no_fault_anywhere(overrides.drop_last(), i);
    }
}

/// After overrides are set, the name of each of them that is a header name stands in the
/// map.
pub proof fn lemma_overrides_set_names(
    values: Map<Seq<char>, Seq<char>>,
    overrides: Seq<(Seq<char>, Seq<char>)>,
    i: int,
)
    requires
        0 <= i < overrides.len(),
        header_name(overrides[i].0) is Some,
    ensures
        with_overrides(values, overrides).contains_key(header_name(overrides[i].0)->0),
    decreases overrides.len(),
{
    if i < overrides.len() - 1 {
        lemma_overrides_set_names(values, overrides.drop_last(), i);
    }
}

/// Setting overrides whose names all stand in the map adds no name.
pub proof fn lemma_known_names_add_nothing(
    values: Map<Seq<char>, Seq<char>>,
    overrides: Seq<(Seq<char>, Seq<char>)>,
)
    requires
        forall|i: int|
            0 <= i < overrides.len() ==> header_lookup(values, (#[trigger] overrides[i]).0)
                is Some,
    ensures
        added_names(values, overrides) == 0,
    decreases overrides.len(),
{
    if overrides.len() > 0 {
        let rest = overrides.drop_last();
        assert forall|i: int| 0 <= i < rest.len() implies header_lookup(
            values,
            (#[trigger] rest[i]).0,
        ) is Some by {
            assert(rest[i] == overrides[i]);
        }
        lemma_known_names_add_nothing(values, rest);
        let name = header_name(overrides.last().0)->0;
        lemma_overrides_keep_names(values, rest, name);
    }
}

/// A second merge of the same overrides adds no name: the map that one merge gives has
/// room for it whenever it holds fewer than [`HEADER_ROOM`] headers.
pub proof fn lemma_second_merge_adds_nothing(
    values: Map<Seq<char>, Seq<char>>,
    overrides: Seq<(Seq<char>, Seq<char>)>,
)
    requires
        first_header_fault(overrides) is None,
    ensures
        merge_growth(merged_headers(values, overrides), overrides) == 0,
{
    let start = with_default_content_type(values);
    let once = merged_headers(values, overrides);
    lemma_content_type_header();
    lemma_overrides_keep_names(start, overrides, "content-type"@);
    assert(with_default_content_type(once) == once);
    assert forall|i: int| 0 <= i < overrides.len() implies header_lookup(
        once,
        (#[trigger] overrides[i]).0,
    ) is Some by {
        lemma_no_fault_anywhere(overrides, i);
        lemma_overrides_set_names(start, overrides, i);
    }
    lemma_known_names_add_nothing(once, overrides);
}

/// Builds the headers of a request from those of a profile and the override headers.
///
/// The merge fails with the first fault among the overrides. Only where it puts a header
/// into a map that comes to [`HEADER_ROOM`] headers or more may the map refuse, which is
/// reported as `TooManyHeaders`; on every other input the merge succeeds or reports the
/// fault.
pub fn merge_headers(base: &http::HeaderMap<http::HeaderValue>, overrides: &Vec<(String, String)>) -> (r:
    Result<http::HeaderMap<http::HeaderValue>, DiffError>)
    ensures
        match r {
            Ok(m) => {
                &&& first_header_fault(pairs_view(overrides@)) is None
                &&& header_values(m) == merged_headers(header_values(*base), pairs_view(overrides@))
                &&& header_lines(m).len() <= header_lines(*base).len() + merge_growth(
                    header_values(*base),
                    pairs_view(overrides@),
                )
            },
            Err(e) => if e@ == DiffErrorView::TooManyHeaders {
                may_run_full(
                    header_lines(*base).len(),
                    header_values(*base),
                    pairs_view(overrides@),
                )
            } else {
                first_header_fault(pairs_view(overrides@)) == Some(e@)
            },
        },
        !may_run_full(header_lines(*base).len(), header_values(*base), pairs_view(overrides@))
            ==> (r is Ok) == (first_header_fault(pairs_view(overrides@)) is None),
{
    let ghost all = pairs_view(overrides@);
    let ghost start = with_default_content_type(header_values(*base));
    let ghost room = header_lines(*base).len() + new_names(header_values(*base), "content-type"@);
    let mut headers = base.clone();
    proof {
        lemma_content_type_header();
    }
    if header_get(&headers, "content-type").is_none() {
        match header_insert(&mut headers, "content-type", "application/json") {
            Ok(()) => {},
            Err(_) => {
                return Err(DiffError::TooManyHeaders);
            },
        }
    }
    let mut i: usize = 0;
    while i < overrides.len()
        invariant
            i <= overrides.len(),
            all == pairs_view(overrides@),
            start == with_default_content_type(header_values(*base)),
            room == header_lines(*base).len() + new_names(header_values(*base), "content-type"@),
            first_header_fault(all.take(i as int)) is None,
            header_values(headers) == with_overrides(start, all.take(i as int)),
            header_lines(headers).len() <= room + added_names(start, all.take(i as int)),
        decreases overrides.len() - i,
    {
        proof {
            assert(all.take(i + 1).drop_last() =~= all.take(i as int));
            assert(all.take(i + 1).last() == all[i as int]);
            assert(all.take(overrides.len() as int) =~= all);
            if first_header_fault(all.take(i + 1)) is Some {
                lemma_first_header_fault_prefix(all, i + 1);
            } else {
                lemma_no_fault_at_the_start(all, i + 1);
            }
            lemma_added_names_grow(start, all, i as int);
        }
        let name = overrides[i].0.as_str();
        let value = overrides[i].1.as_str();
        match header_insert(&mut headers, name, value) {
            Ok(()) => {},
            Err(HeaderFault::Name) => {
                return Err(DiffError::InvalidHeaderName(name.to_owned()));
            },
            Err(HeaderFault::Value) => {
                return Err(DiffError::InvalidHeaderValue(name.to_owned()));
            },
            Err(HeaderFault::Full) => {
                return Err(DiffError::TooManyHeaders);
            },
        }
        i += 1;
    }
    assert(all.take(overrides.len() as int) =~= all);
    Ok(headers)
}

/// A fault among the first `n` overrides is the first fault of them all.
pub proof fn lemma_first_header_fault_prefix(overrides: Seq<(Seq<char>, Seq<char>)>, n: int)
    requires
        0 <= n <= overrides.len(),
        first_header_fault(overrides.take(n)) is Some,
    ensures
        first_header_fault(overrides) == first_header_fault(overrides.take(n)),
    decreases overrides.len() - n,
{
    if n < overrides.len() {
        assert(overrides.take(n + 1).drop_last() =~= overrides.take(n));
        lemma_first_header_fault_prefix(overrides, n + 1);
    } else {
        assert(overrides.take(n) =~= overrides);
    }
}

/// The media type that headers with these values announce: what `mime` reads from the value
/// of `content-type` up to its first `;`.
pub open spec fn content_type_of(values: Map<Seq<char>, Seq<char>>) -> Option<Seq<char>> {
    match header_lookup(values, "content-type"@) {
        Some(value) => spec_mime_essence(value.take(first_index(value, ';'))),
        None => None,
    }
}

/// The value of the `content-type` header, if there is one.
pub fn content_type_value(headers: &http::HeaderMap<http::HeaderValue>) -> (r: Option<String>)
    ensures
        match r {
            Some(value) => header_lookup(header_values(*headers), "content-type"@) == Some(value@),
            None => header_lookup(header_values(*headers), "content-type"@) is None,
        },
{
    header_get(headers, "content-type")
}

/// The essence of the media type that a header map announces, if it announces one.
pub fn get_content_type(headers: &http::HeaderMap<http::HeaderValue>) -> (r: Option<String>)
    ensures
        match r {
            Some(e) => content_type_of(header_values(*headers)) == Some(e@),
            None => content_type_of(header_values(*headers)) is None,
        },
{
    match content_type_value(headers) {
        Some(value) => essence_of(value.as_str()),
        None => None,
    }
}

/// The essence of the media type that the value of a `content-type` header names, if it
/// names one: what `mime` reads from the value up to its first `;`.
pub fn essence_of(value: &str) -> (r: Option<String>)
    ensures
        match r {
            Some(e) => spec_mime_essence(value@.take(first_index(value@, ';'))) == Some(e@),
            None => spec_mime_essence(value@.take(first_index(value@, ';'))) is None,
        },
{
    let chars = chars_of(value);
    let end = find_char(&chars, ';');
    let head = string_of(&chars, 0, end);
    assert(chars@.subrange(0, end as int) =~= value@.take(end as int));
    match mime_essence(head.as_str()) {
        Ok(e) => Some(e),
        Err(_) => None,
    }
}

} // verus!
