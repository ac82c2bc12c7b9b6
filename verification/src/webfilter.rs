//! The decisions the web view's request filter takes, and the start-up self
//! test of the filtering layers.
use vstd::prelude::*;
use crate::error::{AppError, AppErrorKind};
use crate::filtering::{spec_check_request, FilterManager};
use crate::json::{
    as_str, get, json_get, json_parse, json_str, json_text, json_to_string, jv, parse_json, Json,
    JsonV,
};
use crate::models::Settings;
use crate::text::{
    chars_eq, contains, lower, starts_with, str_chars, to_ascii_lowercase, vec_contains,
    vec_starts_with,
};

verus! {

/// The resource type a response's MIME type stands for.
pub open spec fn spec_request_type(mime: Option<Seq<char>>) -> Seq<char> {
    match mime {
        Some(m) => if contains(m, "javascript"@) || contains(m, "ecmascript"@) {
            "script"@
        } else if starts_with(m, "image/"@) {
            "image"@
        } else if contains(m, "json"@) {
            "xmlhttprequest"@
        } else {
            "other"@
        },
        None => "other"@,
    }
}

pub fn request_type_for(mime: &Option<String>) -> (r: &'static str)
    ensures
        r@ == spec_request_type(crate::urls::opt_view(*mime)),
{
    match mime {
        Some(m) => {
            let v = str_chars(m.as_str());
            if vec_contains(&v, &str_chars("javascript")) || vec_contains(
                &v,
                &str_chars("ecmascript"),
            ) {
                "script"
            } else if vec_starts_with(&v, &str_chars("image/")) {
                "image"
            } else if vec_contains(&v, &str_chars("json")) {
                "xmlhttprequest"
            } else {
                "other"
            }
        },
        None => "other",
    }
}

pub open spec fn page_or_home(page: Option<Seq<char>>) -> Seq<char> {
    match page {
        Some(p) => p,
        None => "https://www.youtube.com/"@,
    }
}

fn page_source(page: &Option<String>) -> (r: String)
    ensures
        r@ == page_or_home(crate::urls::opt_view(*page)),
{
    match page {
        Some(p) => p.clone(),
        None => String::from_str("https://www.youtube.com/"),
    }
}

/// Whether a subresource response is swapped for a blank document: never
/// the main document, never `about:` or `data:` URLs, otherwise as the
/// filter decides for its type and the page it loads into.
pub open spec fn spec_block_response(
    lists: Seq<Seq<char>>,
    is_main_resource: bool,
    uri: Option<Seq<char>>,
    mime: Option<Seq<char>>,
    page: Option<Seq<char>>,
) -> bool {
    match uri {
        None => false,
        Some(u) => !is_main_resource && !starts_with(u, "about:"@) && !starts_with(u, "data:"@)
            && spec_check_request(lists, u, page_or_home(page), spec_request_type(mime)),
    }
}

pub fn filter_response(
    filters: &FilterManager,
    is_main_resource: bool,
    uri: &Option<String>,
    mime: &Option<String>,
    page: &Option<String>,
) -> (r: bool)
    ensures
        r == spec_block_response(
            filters.lists(),
            is_main_resource,
            crate::urls::opt_view(*uri),
            crate::urls::opt_view(*mime),
            crate::urls::opt_view(*page),
        ),
{
    if is_main_resource {
        return false;
    }
    let u = match uri {
        Some(u) => u,
        None => return false,
    };
    let chars = str_chars(u.as_str());
    if vec_starts_with(&chars, &str_chars("about:")) || vec_starts_with(&chars, &str_chars("data:")) {
        return false;
    }
    let source = page_source(page);
    filters.check_network_request(u.as_str(), source.as_str(), request_type_for(mime))
}

/// Whether a subframe navigation is sent to a blank page instead: only
/// named frames (never the main frame), as the filter decides.
pub open spec fn spec_block_subframe(
    lists: Seq<Seq<char>>,
    has_frame_name: bool,
    uri: Option<Seq<char>>,
    page: Option<Seq<char>>,
) -> bool {
    match uri {
        None => false,
        Some(u) => has_frame_name && spec_check_request(lists, u, page_or_home(page), "sub_frame"@),
    }
}

pub fn filter_subframe(
    filters: &FilterManager,
    has_frame_name: bool,
    uri: &Option<String>,
    page: &Option<String>,
) -> (r: bool)
    ensures
        r == spec_block_subframe(
            filters.lists(),
            has_frame_name,
            crate::urls::opt_view(*uri),
            crate::urls::opt_view(*page),
        ),
{
    if !has_frame_name {
        return false;
    }
    match uri {
        Some(u) => {
            let source = page_source(page);
            filters.check_network_request(u.as_str(), source.as_str(), "sub_frame")
        },
        None => false,
    }
}

/// The filtering layer is on and its built-in rules block a known ad host.
pub fn check_filter_layer(filters: &FilterManager, settings: &Settings) -> (r: Result<(), AppError>)
    ensures
        match r {
            Ok(()) => spec_check_request(
                filters.lists(),
                "https://doubleclick.net/test"@,
                "https://www.youtube.com/"@,
                "other"@,
            ),
            Err(e) => !spec_check_request(
                filters.lists(),
                "https://doubleclick.net/test"@,
                "https://www.youtube.com/"@,
                "other"@,
            ) && e@ == (AppErrorKind::Internal, "built-in ad rules are not active"@),
        },
{
    if !filters.status(settings).enabled {
        return Err(AppError::Internal(String::from_str("mandatory filter layer is disabled")));
    }
    if !filters.matches_blocked("https://doubleclick.net/test", false) {
        return Err(AppError::Internal(String::from_str("built-in ad rules are not active")));
    }
    Ok(())
}

/// The rule files the extension manifest declares.
pub open spec fn rule_resources(manifest: JsonV) -> Option<Seq<JsonV>> {
    match get(get(manifest, "declarative_net_request"@).unwrap_or(JsonV::Null), "rule_resources"@) {
        Some(JsonV::Array(a)) => Some(a),
        _ => None,
    }
}

/// The companion extension ships coherent: its manifest parses and declares
/// `rules.json` among its rule resources, and the rules parse and never
/// name a content CDN.
pub open spec fn spec_check_extension(manifest: Seq<char>, rules: Seq<char>) -> Result<
    (),
    (AppErrorKind, Seq<char>),
> {
    match json_parse(manifest) {
        None => Err((AppErrorKind::Internal, "companion extension manifest is invalid"@)),
        Some(m) => match rule_resources(m) {
            None => Err((AppErrorKind::Internal, "companion extension is missing its network rules"@)),
            Some(a) => if !(exists|i: int|
                0 <= i < a.len() && as_str(get(#[trigger] a[i], "path"@)) == Some("rules.json"@)) {
                Err(
                    (
                        AppErrorKind::Internal,
                        "companion extension manifest does not reference rules.json"@,
                    ),
                )
            } else {
                match json_parse(rules) {
                    None => Err(
                        (AppErrorKind::Internal, "companion extension network rules are invalid"@),
                    ),
                    Some(r) => {
                        let t = lower(json_text(r));
                        if contains(t, "googlevideo.com"@) || contains(t, "ytimg.com"@) || contains(
                            t,
                            "gstatic.com"@,
                        ) {
                            Err(
                                (
                                    AppErrorKind::Internal,
                                    "companion extension rules must never block the content CDN"@,
                                ),
                            )
                        } else {
                            Ok(())
                        }
                    },
                }
            }
        },
    }
}

pub fn check_extension_bundle(manifest: &str, rules: &str) -> (r: Result<(), AppError>)
    ensures
        crate::download::unit_result_view(r) == spec_check_extension(manifest@, rules@),
{
    let m = match parse_json(manifest) {
        Some(m) => m,
        None => {
            return Err(AppError::Internal(String::from_str("companion extension manifest is invalid")));
        },
    };
    let dnr = json_get(&m, "declarative_net_request");
    let null = Json::Null;
    let dnr_value: &Json = match dnr {
        Some(d) => d,
        None => &null,
    };
    assert(get(jv(m), "declarative_net_request"@).unwrap_or(JsonV::Null) == jv(*dnr_value));
    let resources = match json_get(dnr_value, "rule_resources") {
        Some(Json::Array(a)) => a,
        _ => {
            return Err(
                AppError::Internal(String::from_str("companion extension is missing its network rules")),
            );
        },
    };
    proof {
        crate::json::lemma_array_view(*resources);
    }
    let ghost av = crate::json::item_views(resources@);
    let mut found = false;
    let mut i: usize = 0;
    while i < resources.len()
        invariant
            i <= resources@.len(),
            av == crate::json::item_views(resources@),
            found == exists|j: int|
                0 <= j < i && as_str(get(#[trigger] av[j], "path"@)) == Some("rules.json"@),
        decreases resources@.len() - i,
    {
        let p = json_str(json_get(&resources[i], "path"));
        assert(av[i as int] == jv(resources@[i as int]));
        let hit = match &p {
            Some(s) => chars_eq(&str_chars(s.as_str()), &str_chars("rules.json")),
            None => false,
        };
        proof {
            if hit {
                assert(as_str(get(av[i as int], "path"@)) == Some("rules.json"@));
            }
        }
        found = found || hit;
        i = i + 1;
    }
    if !found {
        return Err(
            AppError::Internal(
                String::from_str("companion extension manifest does not reference rules.json"),
            ),
        );
    }
    let parsed = match parse_json(rules) {
        Some(r) => r,
        None => {
            return Err(
                AppError::Internal(String::from_str("companion extension network rules are invalid")),
            );
        },
    };
    let t = to_ascii_lowercase(&str_chars(json_to_string(&parsed).as_str()));
    if vec_contains(&t, &str_chars("googlevideo.com")) || vec_contains(&t, &str_chars("ytimg.com"))
        || vec_contains(&t, &str_chars("gstatic.com")) {
        return Err(
            AppError::Internal(
                String::from_str("companion extension rules must never block the content CDN"),
            ),
        );
    }
    Ok(())
}


/// The user agent the embedded view presents when nothing overrides it: a
/// recent desktop Chrome, so that YouTube serves its full layout.
pub open spec fn chrome_user_agent() -> Seq<char> {
    "Mozilla/5.0 (X11; Linux x86_64) AppleWebKit/537.36 (KHTML, like Gecko) Chrome/128.0.0.0 Safari/537.36"@
}

/// The user agent for the embedded view: WebKit's own (`None`) when
/// `YOOD_UA_EMPTY` is set, else `YOOD_UA`'s value where it is set, else a
/// desktop Chrome's.
pub fn user_agent_choice(empty: bool, custom: Option<String>) -> (r: Option<String>)
    ensures
        empty ==> r is None,
        !empty ==> match custom {
            Some(c) => r == Some(c),
            None => r matches Some(u) && u@ == chrome_user_agent(),
        },
{
    if empty {
        None
    } else {
        match custom {
            Some(c) => Some(c),
            None => Some(
                String::from_str(
                    "Mozilla/5.0 (X11; Linux x86_64) AppleWebKit/537.36 (KHTML, like Gecko) Chrome/128.0.0.0 Safari/537.36",
                ),
            ),
        }
    }
}

} // verus!
