//! Reading the port and the authentication token out of a notebook link.

use vstd::prelude::*;
use vstd::string::*;
use crate::authority::{port_is_written, writes_port};

verus! {

/// Why a link cannot be used to open a tunnel.
#[derive(Debug, Clone, Copy, PartialEq, Eq, Structural)]
pub enum LinkError {
    /// The text is not an absolute URL.
    Malformed,
    /// The URL writes no port.
    NoPort,
    /// The query has no parameter called `token`.
    NoToken,
}

/// The parts of a URL that matter here, as plain values.
#[derive(Debug, Clone, PartialEq, Eq)]
pub struct UrlFields {
    /// The port as the `url` crate reports it: the port written in the
    /// URL, unless none is written or it is the default port of the scheme.
    pub port: Option<u16>,
    /// That port or, where none is reported, the default port of the
    /// scheme, as far as the `url` crate knows one.
    pub port_or_default: Option<u16>,
    /// The decoded name and value of each query parameter, in order.
    pub query: Vec<(String, String)>,
}

/// The mathematical value of a [`UrlFields`].
pub struct UrlFieldsView {
    pub port: Option<u16>,
    pub port_or_default: Option<u16>,
    pub query: Seq<(Seq<char>, Seq<char>)>,
}

impl View for UrlFields {
    type V = UrlFieldsView;

    open spec fn view(&self) -> UrlFieldsView {
        UrlFieldsView {
            port: self.port,
            port_or_default: self.port_or_default,
            query: Seq::new(self.query@.len(), |i: int| (self.query@[i].0@, self.query@[i].1@)),
        }
    }
}

/// The port and token that a link carries.
#[derive(Debug, Clone, PartialEq, Eq)]
pub struct UrlParts {
    pub port: u16,
    pub token: String,
}

/// The mathematical value of a [`UrlParts`].
pub struct UrlPartsView {
    pub port: u16,
    pub token: Seq<char>,
}

impl View for UrlParts {
    type V = UrlPartsView;

    open spec fn view(&self) -> UrlPartsView {
        UrlPartsView { port: self.port, token: self.token@ }
    }
}

/// What the `url` crate makes of a text: `None` where it is no absolute URL,
/// else the port it reports, that port or the default of the scheme, and
/// the query pairs it decodes.
pub uninterp spec fn url_fields(link: Seq<char>) -> Option<UrlFieldsView>;

/// The name of the query parameter that carries the token.
pub open spec fn token_name() -> Seq<char> {
    seq!['t', 'o', 'k', 'e', 'n']
}

/// `i` is the place of the first query parameter called `token`.
pub open spec fn first_token_at(query: Seq<(Seq<char>, Seq<char>)>, i: int) -> bool {
    &&& 0 <= i < query.len()
    &&& query[i].0 == token_name()
    &&& forall|j: int| 0 <= j < i ==> (#[trigger] query[j]).0 != token_name()
}

/// Some query parameter is called `token`.
pub open spec fn has_token(query: Seq<(Seq<char>, Seq<char>)>) -> bool {
    exists|i: int| 0 <= i < query.len() && (#[trigger] query[i]).0 == token_name()
}

/// The value of the first query parameter called `token`.
pub open spec fn token_of(query: Seq<(Seq<char>, Seq<char>)>) -> Seq<char> {
    query[choose|i: int| first_token_at(query, i)].1
}

/// The port that a link writes, given the fields of its URL. A reported
/// port is written. Where none is reported, the link either writes none or
/// writes the default port of its scheme: the characters of the link tell
/// which, and in the second case that default is the port.
pub open spec fn written_port(f: UrlFieldsView, link: Seq<char>) -> Option<u16> {
    match f.port {
        Some(port) => Some(port),
        None => if writes_port(link) {
            f.port_or_default
        } else {
            None
        },
    }
}

/// The port and token of a link with these URL fields, or the reason there
/// are none. `None` stands for a link that is no URL.
pub open spec fn parts_of(fields: Option<UrlFieldsView>, link: Seq<char>) -> Result<
    UrlPartsView,
    LinkError,
> {
    match fields {
        None => Err(LinkError::Malformed),
        Some(f) => match written_port(f, link) {
            None => Err(LinkError::NoPort),
            Some(port) => if has_token(f.query) {
                Ok(UrlPartsView { port, token: token_of(f.query) })
            } else {
                Err(LinkError::NoToken)
            },
        },
    }
}

/// What parsing a link yields.
pub open spec fn parse_link(link: Seq<char>) -> Result<UrlPartsView, LinkError> {
    parts_of(url_fields(link), link)
}

/// The view of what may be the fields of a URL.
pub open spec fn fields_view(fields: Option<UrlFields>) -> Option<UrlFieldsView> {
    match fields {
        Some(f) => Some(f@),
        None => None,
    }
}

/// The view of a parsing result.
pub open spec fn parts_result_view(r: Result<UrlParts, LinkError>) -> Result<
    UrlPartsView,
    LinkError,
> {
    match r {
        Ok(parts) => Ok(parts@),
        Err(e) => Err(e),
    }
}

/// There is at most one first `token` parameter.
pub proof fn lemma_first_token_unique(query: Seq<(Seq<char>, Seq<char>)>, i: int, j: int)
    requires
        first_token_at(query, i),
        first_token_at(query, j),
    ensures
        i == j,
{
    if i < j {
        assert(query[i].0 != token_name());
    } else if j < i {
        assert(query[j].0 != token_name());
    }
}

/// Where the first `token` parameter stands at `i`, the token is its value.
pub proof fn lemma_token_at(query: Seq<(Seq<char>, Seq<char>)>, i: int)
    requires
        first_token_at(query, i),
    ensures
        has_token(query),
        token_of(query) == query[i].1,
{
    assert(query[i].0 == token_name());
    let k = choose|k: int| first_token_at(query, k);
    lemma_first_token_unique(query, i, k);
}

/// Where some parameter is called `token`, one of them comes first.
pub proof fn lemma_first_token_exists(query: Seq<(Seq<char>, Seq<char>)>, i: int)
    requires
        0 <= i < query.len(),
        query[i].0 == token_name(),
    ensures
        exists|k: int| first_token_at(query, k) && k <= i,
    decreases i,
{
    if exists|j: int| 0 <= j < i && (#[trigger] query[j]).0 == token_name() {
        let j = choose|j: int| 0 <= j < i && (#[trigger] query[j]).0 == token_name();
        lemma_first_token_exists(query, j);
    } else {
        assert(first_token_at(query, i));
    }
}

/// Calls `Url::parse` of the `url` crate and, where that succeeds, reads
/// `Url::port`, `Url::port_or_known_default` and `Url::query_pairs` off the
/// result; `None` stands for a text that `Url::parse` refuses. Nothing is
/// proved of it. The contract claims one thing only: the outcome is a
/// function of the text, given the name `url_fields`. Which texts are URLs,
/// and with what ports and query, is left to the `url` crate.
#[verifier::external_body]
fn split_url(link: &str) -> (fields: Option<UrlFields>)
    ensures
        fields_view(fields) == url_fields(link@),
{
    match url::Url::parse(link) {
        Ok(parsed) => Some(
            UrlFields {
                port: parsed.port(),
                port_or_default: parsed.port_or_known_default(),
                query: parsed.query_pairs().into_owned().collect(),
            },
        ),
        Err(_) => None,
    }
}

impl UrlParts {
    /// Picks the port and the first `token` parameter of a link, given the
    /// fields of its URL. `None` stands for a link that is no URL.
    ///
    /// The port is the one the link writes, also where that is the default
    /// port of its scheme; `NoPort` comes only where the link writes none.
    pub fn from_fields(fields: Option<UrlFields>, link: &str) -> (parts: Result<
        UrlParts,
        LinkError,
    >)
        ensures
            parts_result_view(parts) == parts_of(fields_view(fields), link@),
    {
        let f = match fields {
            Some(f) => f,
            None => { return Err(LinkError::Malformed); },
        };
        let written = match f.port {
            Some(port) => Some(port),
            None => if port_is_written(link) {
                f.port_or_default
            } else {
                None
            },
        };
        let port = match written {
            Some(port) => port,
            None => { return Err(LinkError::NoPort); },
        };
        let ghost query = f@.query;
        let mut i: usize = 0;
        while i < f.query.len()
            invariant
                i <= f.query.len(),
                query == f@.query,
                fields == Some(f),
                written_port(f@, link@) == Some(port),
                forall|j: int| 0 <= j < i ==> (#[trigger] query[j]).0 != token_name(),
            decreases f.query.len() - i,
        {
            assert(query[i as int] == (f.query@[i as int].0@, f.query@[i as int].1@));
            if is_token_name(f.query[i].0.as_str()) {
                let token = f.query[i].1.clone();
                proof {
                    lemma_token_at(query, i as int);
                }
                return Ok(UrlParts { port, token });
            }
            i += 1;
        }
        Err(LinkError::NoToken)
    }

    /// Reads the port and token of a notebook link.
    ///
    /// Fails with `Malformed` where the link is no absolute URL, with
    /// `NoPort` where it writes no port, and with `NoToken` where its query
    /// has no `token` parameter; otherwise it returns the port it writes
    /// and the value of the first such parameter.
    pub fn parse(link: &str) -> (parts: Result<UrlParts, LinkError>)
        ensures
            parts_result_view(parts) == parse_link(link@),
    {
        UrlParts::from_fields(split_url(link), link)
    }
}

/// Whether a parameter name is `token`.
fn is_token_name(name: &str) -> (same: bool)
    ensures
        same == (name@ == token_name()),
{
    proof {
        reveal_strlit("token");
    }
    let token = "token".to_string();
    assert(token@ =~= token_name());
    name.to_string() == token
}

} // verus!
