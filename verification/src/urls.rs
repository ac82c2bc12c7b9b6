//! What the library takes from the `url` crate: WHATWG URL parsing and
//! `application/x-www-form-urlencoded` query handling.
use vstd::prelude::*;

verus! {

/// The parts of a parsed URL that the library reads.
#[derive(Debug, Clone)]
pub struct UrlParts {
    pub scheme: String,
    pub host: Option<String>,
    pub path: String,
    pub query: Option<String>,
    /// The URL as the url crate serializes it.
    pub serialized: String,
}

pub struct UrlView {
    pub scheme: Seq<char>,
    pub host: Option<Seq<char>>,
    pub path: Seq<char>,
    pub query: Option<Seq<char>>,
    pub serialized: Seq<char>,
}

pub open spec fn opt_view(o: Option<String>) -> Option<Seq<char>> {
    match o {
        Some(s) => Some(s@),
        None => None,
    }
}

impl View for UrlParts {
    type V = UrlView;

    open spec fn view(&self) -> UrlView {
        UrlView {
            scheme: self.scheme@,
            host: opt_view(self.host),
            path: self.path@,
            query: opt_view(self.query),
            serialized: self.serialized@,
        }
    }
}

/// What `url::Url::parse` makes of a text: `None` where it fails, else the
/// scheme, host, path, query and serialization of the parsed URL.
pub uninterp spec fn url_parse(input: Seq<char>) -> Option<UrlView>;

/// The `(name, value)` pairs that `url::form_urlencoded::parse` decodes from a query.
pub uninterp spec fn form_urlencoded_pairs(query: Seq<char>) -> Seq<(Seq<char>, Seq<char>)>;

/// What `url::form_urlencoded::Serializer` writes for the given pairs, appended in order.
pub uninterp spec fn form_urlencoded_serialize(pairs: Seq<(Seq<char>, Seq<char>)>) -> Seq<char>;

/// The serialization of the URL `raw` after `set_query` replaced its query,
/// or `None` where `raw` does not parse.
pub uninterp spec fn url_replace_query(raw: Seq<char>, query: Seq<char>) -> Option<Seq<char>>;

pub open spec fn pair_views(v: Seq<(String, String)>) -> Seq<(Seq<char>, Seq<char>)> {
    v.map_values(|p: (String, String)| (p.0@, p.1@))
}

/// Calls `url::Url::parse` and reads the parsed URL's scheme, host, path,
/// query and serialization. The contract claims only that the result is the
/// one the url crate gives for the input, which [`url_parse`] names.
#[verifier::external_body]
pub(crate) fn parse_url(input: &str) -> (r: Option<UrlParts>)
    ensures
        match r {
            Some(u) => url_parse(input@) == Some(u@),
            None => url_parse(input@) is None,
        },
{
    match url::Url::parse(input) {
        Ok(u) => Some(
            UrlParts {
                scheme: u.scheme().to_string(),
                host: u.host_str().map(|h| h.to_string()),
                path: u.path().to_string(),
                query: u.query().map(|q| q.to_string()),
                serialized: u.as_str().to_string(),
            },
        ),
        Err(_) => None,
    }
}

/// Calls `url::form_urlencoded::parse` on a query and collects the decoded
/// pairs in order. The contract claims only that they are the pairs the url
/// crate decodes, which [`form_urlencoded_pairs`] names.
#[verifier::external_body]
pub(crate) fn query_pairs(query: &str) -> (r: Vec<(String, String)>)
    ensures
        pair_views(r@) == form_urlencoded_pairs(query@),
{
    url::form_urlencoded::parse(query.as_bytes()).map(|(k, v)| (k.into_owned(), v.into_owned())).collect()
}

/// Serializes pairs with `url::form_urlencoded::Serializer::append_pair`, in
/// order. The contract claims only that the text is what the url crate
/// writes, which [`form_urlencoded_serialize`] names.
#[verifier::external_body]
pub(crate) fn serialize_pairs(pairs: &Vec<(String, String)>) -> (r: String)
    ensures
        r@ == form_urlencoded_serialize(pair_views(pairs@)),
{
    let mut s = url::form_urlencoded::Serializer::new(String::new());
    for (k, v) in pairs {
        s.append_pair(k, v);
    }
    s.finish()
}

/// Parses `raw` with `url::Url::parse`, replaces its query with
/// `url::Url::set_query` and serializes it. The contract claims only that the
/// text is what the url crate gives, which [`url_replace_query`] names.
#[verifier::external_body]
pub(crate) fn replace_query(raw: &str, query: &str) -> (r: Option<String>)
    ensures
        match r {
            Some(s) => url_replace_query(raw@, query@) == Some(s@),
            None => url_replace_query(raw@, query@) is None,
        },
{
    match url::Url::parse(raw) {
        Ok(mut u) => {
            u.set_query(Some(query));
            Some(u.to_string())
        },
        Err(_) => None,
    }
}

} // verus!
