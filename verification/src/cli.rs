//! Override tokens: `key=value` strings that adjust a request at invocation time.

use crate::error::{DiffError, DiffErrorView};
use crate::text::{chars_of, find_char, first_index, string_of, trim_range, trimmed};
use vstd::prelude::*;

verus! {

/// What an override adjusts.
#[derive(Clone, Copy, Debug, PartialEq, Eq, Structural)]
pub enum KeyValType {
    /// A request header (`%name=value`).
    Headers,
    /// A field of the body (`@name=value`).
    Body,
    /// A query parameter (`name=value`).
    Query,
}

/// One parsed override token.
#[derive(Clone, Debug, PartialEq, Eq)]
pub struct KeyVal {
    pub key_type: KeyValType,
    pub key: String,
    pub value: String,
}

/// The mathematical content of a [`KeyVal`].
pub struct KeyValView {
    pub key_type: KeyValType,
    pub key: Seq<char>,
    pub value: Seq<char>,
}

impl View for KeyVal {
    type V = KeyValView;

    open spec fn view(&self) -> KeyValView {
        KeyValView { key_type: self.key_type, key: self.key@, value: self.value@ }
    }
}

/// The overrides of one invocation, by what they adjust, each list in the order given.
#[derive(Clone, Debug, Default, PartialEq, Eq)]
pub struct ExtraArgs {
    pub headers: Vec<(String, String)>,
    pub body: Vec<(String, String)>,
    pub query: Vec<(String, String)>,
}

/// A list of key-value pairs as mathematical sequences.
pub open spec fn pairs_view(v: Seq<(String, String)>) -> Seq<(Seq<char>, Seq<char>)> {
    v.map_values(|p: (String, String)| (p.0@, p.1@))
}

/// The mathematical content of an [`ExtraArgs`].
pub struct ExtraArgsView {
    pub headers: Seq<(Seq<char>, Seq<char>)>,
    pub body: Seq<(Seq<char>, Seq<char>)>,
    pub query: Seq<(Seq<char>, Seq<char>)>,
}

impl View for ExtraArgs {
    type V = ExtraArgsView;

    open spec fn view(&self) -> ExtraArgsView {
        ExtraArgsView {
            headers: pairs_view(self.headers@),
            body: pairs_view(self.body@),
            query: pairs_view(self.query@),
        }
    }
}

/// Whether `c` is an ASCII letter.
pub open spec fn is_ascii_alphabetic(c: char) -> bool {
    ('a' <= c && c <= 'z') || ('A' <= c && c <= 'Z')
}

/// What a token means: the text before the first `=` is the key, the text after it the
/// value, both without surrounding white space; the key's first character says what the
/// override adjusts, and `%` and `@` are not part of the name.
pub open spec fn parsed_key_val(s: Seq<char>) -> Option<KeyValView> {
    let eq = first_index(s, '=');
    if eq >= s.len() {
        None
    } else {
        let key = trimmed(s.subrange(0, eq));
        let value = trimmed(s.subrange(eq + 1, s.len() as int));
        if key.len() == 0 {
            None
        } else if key[0] == '%' {
            Some(KeyValView { key_type: KeyValType::Headers, key: key.skip(1), value })
        } else if key[0] == '@' {
            Some(KeyValView { key_type: KeyValType::Body, key: key.skip(1), value })
        } else if is_ascii_alphabetic(key[0]) {
            Some(KeyValView { key_type: KeyValType::Query, key, value })
        } else {
            None
        }
    }
}

/// Parses one override token.
pub fn parser_key_val(s: &str) -> (r: Result<KeyVal, DiffError>)
    ensures
        match r {
            Ok(kv) => parsed_key_val(s@) == Some(kv@),
            Err(e) => parsed_key_val(s@) is None && e@ == DiffErrorView::MalformedOverrideToken(
                s@,
            ),
        },
{
    let v = chars_of(s);
    let eq = find_char(&v, '=');
    if eq >= v.len() {
        return Err(DiffError::MalformedOverrideToken(s.to_owned()));
    }
    let (k0, k1) = trim_range(&v, 0, eq);
    let (v0, v1) = trim_range(&v, eq + 1, v.len());
    let value = string_of(&v, v0, v1);
    if k0 == k1 {
        return Err(DiffError::MalformedOverrideToken(s.to_owned()));
    }
    let c = v[k0];
    proof {
        assert(v@.subrange(k0 as int, k1 as int)[0] == c);
        assert(v@.subrange(k0 as int, k1 as int).skip(1) =~= v@.subrange(k0 + 1, k1 as int));
    }
    if c == '%' {
        Ok(KeyVal { key_type: KeyValType::Headers, key: string_of(&v, k0 + 1, k1), value })
    } else if c == '@' {
        Ok(KeyVal { key_type: KeyValType::Body, key: string_of(&v, k0 + 1, k1), value })
    } else if ('a' <= c && c <= 'z') || ('A' <= c && c <= 'Z') {
        Ok(KeyVal { key_type: KeyValType::Query, key: string_of(&v, k0, k1), value })
    } else {
        Err(DiffError::MalformedOverrideToken(s.to_owned()))
    }
}

/// A list of tokens as mathematical values.
pub open spec fn tokens_view(v: Seq<KeyVal>) -> Seq<KeyValView> {
    v.map_values(|kv: KeyVal| kv@)
}

/// The overrides of kind `t` among `tokens`, in order.
pub open spec fn overrides_of(tokens: Seq<KeyValView>, t: KeyValType) -> Seq<
    (Seq<char>, Seq<char>),
> {
    tokens.filter(|kv: KeyValView| kv.key_type == t).map_values(
        |kv: KeyValView| (kv.key, kv.value),
    )
}

impl ExtraArgs {
    /// Sorts parsed tokens into the three lists, keeping their order.
    pub fn from(value: Vec<KeyVal>) -> (r: ExtraArgs)
        ensures
            r@.headers == overrides_of(tokens_view(value@), KeyValType::Headers),
            r@.body == overrides_of(tokens_view(value@), KeyValType::Body),
            r@.query == overrides_of(tokens_view(value@), KeyValType::Query),
    {
        let mut headers: Vec<(String, String)> = Vec::new();
        let mut body: Vec<(String, String)> = Vec::new();
        let mut query: Vec<(String, String)> = Vec::new();
        let ghost tokens = tokens_view(value@);
        let mut i: usize = 0;
        while i < value.len()
            invariant
                i <= value.len(),
                tokens == tokens_view(value@),
                pairs_view(headers@) == overrides_of(tokens.take(i as int), KeyValType::Headers),
                pairs_view(body@) == overrides_of(tokens.take(i as int), KeyValType::Body),
                pairs_view(query@) == overrides_of(tokens.take(i as int), KeyValType::Query),
            decreases value.len() - i,
        {
            let kv = &value[i];
            proof {
                lemma_overrides_of_push(tokens.take(i as int), tokens[i as int], KeyValType::Headers);
                lemma_overrides_of_push(tokens.take(i as int), tokens[i as int], KeyValType::Body);
                lemma_overrides_of_push(tokens.take(i as int), tokens[i as int], KeyValType::Query);
                assert(tokens.take(i + 1) =~= tokens.take(i as int).push(tokens[i as int]));
                assert(tokens[i as int] == kv@);
            }
            let ghost h0 = headers@;
            let ghost b0 = body@;
            let ghost q0 = query@;
            match kv.key_type {
                KeyValType::Headers => {
                    headers.push((kv.key.clone(), kv.value.clone()));
                    assert(pairs_view(headers@) =~= pairs_view(h0).push((kv.key@, kv.value@)));
                },
                KeyValType::Body => {
                    body.push((kv.key.clone(), kv.value.clone()));
                    assert(pairs_view(body@) =~= pairs_view(b0).push((kv.key@, kv.value@)));
                },
                KeyValType::Query => {
                    query.push((kv.key.clone(), kv.value.clone()));
                    assert(pairs_view(query@) =~= pairs_view(q0).push((kv.key@, kv.value@)));
                },
            }
            i += 1;
        }
        proof {
            assert(tokens.take(value.len() as int) =~= tokens);
        }
        ExtraArgs { headers, body, query }
    }
}

impl From<Vec<KeyVal>> for ExtraArgs {
    /// Sorts parsed tokens into the three lists, keeping their order.
    fn from(value: Vec<KeyVal>) -> (r: ExtraArgs)
        ensures
            r@.headers == overrides_of(tokens_view(value@), KeyValType::Headers),
            r@.body == overrides_of(tokens_view(value@), KeyValType::Body),
            r@.query == overrides_of(tokens_view(value@), KeyValType::Query),
    {
        ExtraArgs::from(value)
    }
}

impl vstd::std_specs::convert::FromSpecImpl<Vec<KeyVal>> for ExtraArgs {
    /// Nothing is said of the conversion through `from_spec`: the lists of the result are
    /// stated by their contents in the contract of `from`.
    open spec fn obeys_from_spec() -> bool {
        false
    }

    open spec fn from_spec(v: Vec<KeyVal>) -> ExtraArgs {
        arbitrary()
    }
}

/// What one more token adds to the overrides of a kind.
pub proof fn lemma_overrides_of_push(tokens: Seq<KeyValView>, kv: KeyValView, t: KeyValType)
    ensures
        overrides_of(tokens.push(kv), t) == if kv.key_type == t {
            overrides_of(tokens, t).push((kv.key, kv.value))
        } else {
            overrides_of(tokens, t)
        },
{
    let pred = |kv: KeyValView| kv.key_type == t;
    tokens.lemma_filter_push(kv, pred);
    assert(overrides_of(tokens.push(kv), t) =~= if kv.key_type == t {
        overrides_of(tokens, t).push((kv.key, kv.value))
    } else {
        overrides_of(tokens, t)
    });
}

/// The arguments of a run: the profile to use, the overrides, and the configuration file.
#[derive(Clone, Debug)]
pub struct RunArgs {
    /// The name of the profile.
    pub profile: String,
    /// The overrides, as parsed by [`parser_key_val`].
    pub extra_params: Vec<KeyVal>,
    /// The path of the configuration file, if one is given.
    pub config: Option<String>,
}

/// What the program is asked to do.
#[derive(Clone, Debug)]
#[non_exhaustive]
pub enum Action {
    /// Run a profile.
    Run(RunArgs),
    /// Build a profile from URLs that are asked for.
    Parse,
}

/// The command line.
#[derive(Clone, Debug)]
pub struct Args {
    pub action: Action,
}

impl RunArgs {
    /// The configuration file to read: the one given, or `./default.yml`.
    pub fn config_file(&self) -> (path: String)
        ensures
            path@ == match self.config {
                Some(p) => p@,
                None => "./default.yml"@,
            },
    {
        match &self.config {
            Some(p) => p.clone(),
            None => "./default.yml".to_owned(),
        }
    }
}

} // verus!
