//! Ad and tracker filtering: which filter-list lines count, the engine that
//! the lists compile into (Brave's adblock crate), the decisions taken on
//! each network request and page, and the rules for refreshing the lists.
use vstd::prelude::*;
use crate::models::{FilterScriptRules, FilterStatus, Settings, Timestamp};
use crate::paths::join;
use crate::text::{
    any_char, any_control, byte_len, chars_eq, chars_string, concat, ends_with, has_char,
    has_control, lines, lines_chars, sort_dedup, starts_with, str_chars, strictly_sorted,
    string_views, trim, trim_chars, utf8_byte_len, vec_ends_with, vec_starts_with, views,
};
use crate::urls::{opt_view, parse_url, url_parse};
use vstd::utf8::encode_utf8;

verus! {

/// The most a single downloaded filter list may weigh.
pub const MAX_FILTER_LIST_BYTES: usize = 8388608usize;

/// The most all downloaded lists together may weigh.
pub const MAX_COMBINED_FILTER_BYTES: usize = 33554432usize;

/// The most lines of a list that are looked at.
pub const MAX_FILTER_LINES: usize = 1000000usize;

/// A line that holds a rule: not blank, not a `!` comment, not a `[` header.
pub open spec fn usable_rule(line: Seq<char>) -> bool {
    let t = trim(line);
    t.len() > 0 && t[0] != '!' && t[0] != '['
}

pub fn is_usable_rule(line: &str) -> (r: bool)
    ensures
        r == usable_rule(line@),
{
    let t = trim_chars(&str_chars(line));
    t.len() > 0 && t[0] != '!' && t[0] != '['
}

fn usable_rule_chars(line: &Vec<char>) -> (r: bool)
    ensures
        r == usable_rule(line@),
{
    let t = trim_chars(line);
    t.len() > 0 && t[0] != '!' && t[0] != '['
}

/// The first `n` items, or all of them where there are fewer.
pub open spec fn first_lines(s: Seq<Seq<char>>, n: nat) -> Seq<Seq<char>> {
    if s.len() <= n {
        s
    } else {
        s.take(n as int)
    }
}

/// A downloaded list is worth keeping: one of its first million lines is a rule.
pub open spec fn spec_has_usable_rule(text: Seq<char>) -> bool {
    exists|i: int|
        0 <= i < first_lines(lines(text), MAX_FILTER_LINES as nat).len() && usable_rule(
            #[trigger] first_lines(lines(text), MAX_FILTER_LINES as nat)[i],
        )
}

pub fn has_usable_rule(text: &str) -> (r: bool)
    ensures
        r == spec_has_usable_rule(text@),
{
    let ls = lines_chars(&str_chars(text));
    let n = if ls.len() <= MAX_FILTER_LINES {
        ls.len()
    } else {
        MAX_FILTER_LINES
    };
    let ghost f = first_lines(views(ls@), MAX_FILTER_LINES as nat);
    let mut i: usize = 0;
    while i < n
        invariant
            i <= n,
            n <= ls@.len(),
            f == first_lines(views(ls@), MAX_FILTER_LINES as nat),
            views(ls@) == lines(text@),
            f.len() == n,
            forall|j: int| 0 <= j < i ==> !usable_rule(#[trigger] f[j]),
        decreases n - i,
    {
        assert(f[i as int] == ls@[i as int]@);
        if usable_rule_chars(&ls[i]) {
            assert(usable_rule(f[i as int]));
            return true;
        }
        i = i + 1;
    }
    false
}

/// How many rules a pair of lists holds, counted over their first million
/// lines together.
pub open spec fn usable_count(s: Seq<Seq<char>>) -> nat
    decreases s.len(),
{
    if s.len() == 0 {
        0
    } else {
        usable_count(s.drop_last()) + if usable_rule(s.last()) {
            1nat
        } else {
            0nat
        }
    }
}

pub open spec fn spec_rule_count(default_rules: Seq<char>, cached_rules: Seq<char>) -> nat {
    usable_count(first_lines(lines(default_rules) + lines(cached_rules), MAX_FILTER_LINES as nat))
}

pub fn count_rules(default_rules: &str, cached_rules: &str) -> (r: usize)
    ensures
        r == spec_rule_count(default_rules@, cached_rules@),
{
    let a = lines_chars(&str_chars(default_rules));
    let b = lines_chars(&str_chars(cached_rules));
    let ghost all = views(a@) + views(b@);
    let total = if a.len() <= MAX_FILTER_LINES {
        if b.len() <= MAX_FILTER_LINES - a.len() {
            a.len() + b.len()
        } else {
            MAX_FILTER_LINES
        }
    } else {
        MAX_FILTER_LINES
    };
    let ghost f = first_lines(all, MAX_FILTER_LINES as nat);
    let mut count: usize = 0;
    let mut i: usize = 0;
    assert(f.take(0) =~= Seq::<Seq<char>>::empty());
    while i < total
        invariant
            i <= total,
            total == f.len(),
            total <= MAX_FILTER_LINES,
            f == first_lines(all, MAX_FILTER_LINES as nat),
            all == views(a@) + views(b@),
            count == usable_count(f.take(i as int)),
            count <= i,
        decreases total - i,
    {
        proof {
            assert(f.take(i + 1).drop_last() =~= f.take(i as int));
            assert(f.take(i + 1).last() == f[i as int]);
        }
        let usable = if i < a.len() {
            assert(f[i as int] == a@[i as int]@);
            usable_rule_chars(&a[i])
        } else {
            assert(f[i as int] == b@[i - a.len()]@);
            usable_rule_chars(&b[i - a.len()])
        };
        if usable {
            count = count + 1;
        }
        i = i + 1;
    }
    assert(f.take(total as int) =~= f);
    count
}

/// A CSS selector that may be handed to a page: not empty, at most 2048
/// bytes, no control characters, no braces or semicolons.
pub open spec fn safe_selector(s: Seq<char>) -> bool {
    &&& s.len() > 0
    &&& byte_len(s) <= 2048
    &&& !has_control(s)
    &&& !has_char(s, '{')
    &&& !has_char(s, '}')
    &&& !has_char(s, ';')
}

pub fn is_safe_selector(selector: &str) -> (r: bool)
    ensures
        r == safe_selector(selector@),
{
    let v = str_chars(selector);
    v.len() > 0 && utf8_byte_len(&v) <= 2048 && !any_control(&v) && !any_char(&v, '{') && !any_char(
        &v,
        '}',
    ) && !any_char(&v, ';')
}

/// The safe selectors among `s`, in order.
pub open spec fn safe_only(s: Seq<Seq<char>>) -> Seq<Seq<char>> {
    s.filter(safe_pred())
}

pub open spec fn safe_pred() -> spec_fn(Seq<char>) -> bool {
    |x: Seq<char>| safe_selector(x)
}

/// The selectors handed to a page: the first ten thousand safe ones, sorted,
/// each once.
pub fn finish_selectors(selectors: &Vec<String>) -> (r: Vec<String>)
    ensures
        strictly_sorted(string_views(r@)),
        string_views(r@).to_set() == first_lines(
            safe_only(string_views(selectors@)),
            10000,
        ).to_set(),
{
    let mut kept: Vec<String> = Vec::new();
    let mut i: usize = 0;
    let ghost all = string_views(selectors@);
    assert(all.take(0) =~= Seq::<Seq<char>>::empty());
    assert(safe_only(all.take(0)) =~= Seq::<Seq<char>>::empty()) by {
        reveal(Seq::filter);
    }
    while i < selectors.len() && kept.len() < 10000
        invariant
            i <= selectors@.len(),
            all == string_views(selectors@),
            kept@.len() <= 10000,
            string_views(kept@) == safe_only(all.take(i as int)),
        decreases selectors@.len() - i,
    {
        let safe = is_safe_selector(selectors[i].as_str());
        proof {
            assert(all.take(i + 1) =~= all.take(i as int).push(all[i as int]));
            all.take(i as int).lemma_filter_push(all[i as int], safe_pred());
        }
        if safe {
            let ghost before = kept@;
            kept.push(selectors[i].clone());
            assert(string_views(kept@) =~= string_views(before).push(selectors@[i as int]@));
        }
        i = i + 1;
    }
    proof {
        let all_safe = safe_only(all);
        if i == selectors@.len() {
            assert(all.take(i as int) =~= all);
        }
        lemma_safe_prefix(all, i as int);
        if kept@.len() < 10000 {
            assert(all.take(i as int) =~= all);
        }
        assert(string_views(kept@) =~= first_lines(all_safe, 10000));
    }
    sort_dedup(&kept)
}

proof fn lemma_safe_prefix(all: Seq<Seq<char>>, i: int)
    requires
        0 <= i <= all.len(),
    ensures
        safe_only(all.take(i)).len() <= safe_only(all).len(),
        safe_only(all.take(i)) == safe_only(all).take(safe_only(all.take(i)).len() as int),
    decreases all.len() - i,
{
    if i < all.len() {
        lemma_safe_prefix(all, i + 1);
        assert(all.take(i + 1) =~= all.take(i).push(all[i]));
        all.take(i).lemma_filter_push(all[i], safe_pred());
        let a = safe_only(all.take(i));
        let b = safe_only(all.take(i + 1));
        assert(a =~= b.take(a.len() as int));
    } else {
        assert(all.take(i) =~= all);
    }
}

#[verifier::external_type_specification]
#[verifier::external_body]
pub struct ExFilterSet(adblock::lists::FilterSet);

#[verifier::external_type_specification]
#[verifier::external_body]
pub struct ExEngine(adblock::Engine);

#[verifier::external_type_specification]
#[verifier::external_body]
pub struct ExRequest(adblock::request::Request);

/// The list texts a filter set was given, in the order they were added.
pub uninterp spec fn filter_set_lists(s: adblock::lists::FilterSet) -> Seq<Seq<char>>;

/// The list texts an engine was compiled from, in order.
pub uninterp spec fn engine_lists(e: adblock::Engine) -> Seq<Seq<char>>;

/// The URL, source URL and resource type a request was made from.
pub uninterp spec fn request_inputs(q: adblock::request::Request) -> (Seq<char>, Seq<char>, Seq<char>);

/// Whether `Request::new` accepts a URL, a source URL and a resource type,
/// with the method GET.
pub uninterp spec fn request_accepted(url: Seq<char>, source_url: Seq<char>, request_type: Seq<char>) -> bool;

/// Whether an engine compiled from these lists, with the default parse
/// options and optimisation, blocks the request: `should_block` of what
/// `check_network_request` returns.
pub uninterp spec fn engine_blocks(
    lists: Seq<Seq<char>>,
    request: (Seq<char>, Seq<char>, Seq<char>),
) -> bool;

/// The hide selectors, the class and id exceptions, and the `generichide`
/// flag that `url_cosmetic_resources` gives for a page.
pub uninterp spec fn cosmetic_resources(lists: Seq<Seq<char>>, page_url: Seq<char>) -> (
    Set<Seq<char>>,
    Set<Seq<char>>,
    bool,
);

/// The selectors `hidden_class_id_selectors` gives for a page's classes and
/// ids, in the order it gives them: class by class, then id by id, each
/// class's or id's rules in the order the lists hold them.
pub uninterp spec fn class_id_selector_list(
    lists: Seq<Seq<char>>,
    classes: Seq<Seq<char>>,
    ids: Seq<Seq<char>>,
    exceptions: Set<Seq<char>>,
) -> Seq<Seq<char>>;

/// `FilterSet::new(false)`: a set that keeps no debugging information and
/// holds no list yet.
#[verifier::external_body]
fn new_filter_set() -> (r: adblock::lists::FilterSet)
    ensures
        filter_set_lists(r) == Seq::<Seq<char>>::empty(),
{
    adblock::lists::FilterSet::new(false)
}

/// `FilterSet::add_filter_list` with the default parse options: the source
/// shows the list text appended to the set's sources.
#[verifier::external_body]
fn add_filter_list(set: &mut adblock::lists::FilterSet, text: &str)
    ensures
        filter_set_lists(*final(set)) == filter_set_lists(*old(set)).push(text@),
{
    set.add_filter_list(text.to_string(), adblock::lists::ParseOptions::default());
}

/// `Engine::new_with_filter_set`: an engine compiled from the set's lists.
#[verifier::external_body]
fn engine_from(set: adblock::lists::FilterSet) -> (r: adblock::Engine)
    ensures
        engine_lists(r) == filter_set_lists(set),
{
    adblock::Engine::new_with_filter_set(set)
}

/// `Request::new(url, source_url, request_type, "GET")`. The contract claims
/// only that it succeeds where [`request_accepted`] says so, and then holds
/// the inputs it was given.
#[verifier::external_body]
fn new_request(url: &str, source_url: &str, request_type: &str) -> (r: Option<
    adblock::request::Request,
>)
    ensures
        (r is Some) == request_accepted(url@, source_url@, request_type@),
        r matches Some(q) ==> request_inputs(q) == (url@, source_url@, request_type@),
{
    adblock::request::Request::new(url, source_url, request_type, "GET").ok()
}

/// `Engine::check_network_request` and `BlockerResult::should_block`. The
/// contract claims only that the answer is the engine's, which
/// [`engine_blocks`] names.
#[verifier::external_body]
fn request_blocked(engine: &adblock::Engine, request: &adblock::request::Request) -> (r: bool)
    ensures
        r == engine_blocks(engine_lists(*engine), request_inputs(*request)),
{
    engine.check_network_request(request).should_block()
}

/// `Engine::url_cosmetic_resources`, with its hide selectors and exceptions
/// collected from their hash sets in whatever order the sets are walked. The
/// contract claims only what the sets hold and the flag, which
/// [`cosmetic_resources`] names; the order is left open.
#[verifier::external_body]
fn url_cosmetic_resources(engine: &adblock::Engine, page_url: &str) -> (r: (
    Vec<String>,
    Vec<String>,
    bool,
))
    ensures
        (string_views(r.0@).to_set(), string_views(r.1@).to_set(), r.2) == cosmetic_resources(
            engine_lists(*engine),
            page_url@,
        ),
{
    let resources = engine.url_cosmetic_resources(page_url);
    (
        resources.hide_selectors.into_iter().collect(),
        resources.exceptions.into_iter().collect(),
        resources.generichide,
    )
}

/// `Engine::hidden_class_id_selectors`, with the exceptions put back into a
/// hash set (the engine only asks whether a selector is among them). The
/// contract claims only that the selectors are the engine's, in its order,
/// which [`class_id_selector_list`] names.
#[verifier::external_body]
fn hidden_class_id_selectors(
    engine: &adblock::Engine,
    classes: &Vec<String>,
    ids: &Vec<String>,
    exceptions: &Vec<String>,
) -> (r: Vec<String>)
    ensures
        string_views(r@) == class_id_selector_list(
            engine_lists(*engine),
            string_views(classes@),
            string_views(ids@),
            string_views(exceptions@).to_set(),
        ),
{
    let exceptions: std::collections::HashSet<String> = exceptions.iter().cloned().collect();
    engine.hidden_class_id_selectors(classes, ids, &exceptions)
}

/// The compiled engine and the number of rules it was compiled from.
pub struct CompiledRules {
    pub engine: adblock::Engine,
    pub rule_count: usize,
}

/// The lists an engine is compiled from: the built-in list, then the
/// downloaded ones where there are any.
pub open spec fn compiled_lists(default_rules: Seq<char>, cached_rules: Seq<char>) -> Seq<Seq<char>> {
    if cached_rules.len() == 0 {
        seq![default_rules]
    } else {
        seq![default_rules, cached_rules]
    }
}

/// Compiles the built-in rules and the downloaded ones into one engine.
pub fn compile_rules(default_rules: &str, cached_rules: &str) -> (r: CompiledRules)
    ensures
        engine_lists(r.engine) == compiled_lists(default_rules@, cached_rules@),
        r.rule_count == spec_rule_count(default_rules@, cached_rules@),
{
    let mut set = new_filter_set();
    add_filter_list(&mut set, default_rules);
    if str_chars(cached_rules).len() > 0 {
        add_filter_list(&mut set, cached_rules);
    }
    let rule_count = count_rules(default_rules, cached_rules);
    proof {
        if cached_rules@.len() == 0 {
            assert(filter_set_lists(set) =~= seq![default_rules@]);
        } else {
            assert(filter_set_lists(set) =~= seq![default_rules@, cached_rules@]);
        }
    }
    CompiledRules { engine: engine_from(set), rule_count }
}

/// YouTube's media CDN, which playback cannot do without.
pub open spec fn is_media_cdn_host(host: Seq<char>) -> bool {
    host == "googlevideo.com"@ || ends_with(host, ".googlevideo.com"@)
}

/// The host of a URL where it parses and has one.
pub open spec fn url_host(url: Seq<char>) -> Option<Seq<char>> {
    match url_parse(url) {
        Some(u) => u.host,
        None => None,
    }
}

/// Whether a network request is blocked: never for over-long URLs, never for
/// the media CDN, never for a request adblock cannot read, and otherwise as
/// the engine decides.
pub open spec fn spec_check_request(
    lists: Seq<Seq<char>>,
    url: Seq<char>,
    source_url: Seq<char>,
    request_type: Seq<char>,
) -> bool {
    if byte_len(url) > 16384 || byte_len(source_url) > 16384 {
        false
    } else if url_host(url) matches Some(h) && is_media_cdn_host(h) {
        false
    } else if !request_accepted(url, source_url, request_type) {
        false
    } else {
        engine_blocks(lists, (url, source_url, request_type))
    }
}

/// A request for YouTube's media CDN is never blocked, whatever the lists say.
pub proof fn media_cdn_is_never_blocked(
    lists: Seq<Seq<char>>,
    url: Seq<char>,
    source_url: Seq<char>,
    request_type: Seq<char>,
)
    requires
        url_host(url) matches Some(h) && is_media_cdn_host(h),
    ensures
        !spec_check_request(lists, url, source_url, request_type),
{
}

fn cdn_host(host: &String) -> (r: bool)
    ensures
        r == is_media_cdn_host(host@),
{
    let h = str_chars(host.as_str());
    chars_eq(&h, &str_chars("googlevideo.com")) || vec_ends_with(&h, &str_chars(".googlevideo.com"))
}

/// The filters the application runs with, and where their downloaded copy is kept.
pub struct FilterManager {
    pub cache_path: String,
    pub source_cache_dir: String,
    pub rules: CompiledRules,
}

impl FilterManager {
    /// The lists the running engine was compiled from.
    pub open spec fn lists(&self) -> Seq<Seq<char>> {
        engine_lists(self.rules.engine)
    }

    /// A manager for the cache directory `cache_dir` (whose `sources`
    /// directory the caller has created), running the built-in rules and the
    /// cached download.
    pub fn new(cache_dir: &str, default_rules: &str, cached_rules: &str) -> (r: FilterManager)
        ensures
            r.cache_path@ == join(cache_dir@, "filters.cache"@),
            r.source_cache_dir@ == join(cache_dir@, "sources"@),
            r.lists() == compiled_lists(default_rules@, cached_rules@),
            r.rules.rule_count == spec_rule_count(default_rules@, cached_rules@),
    {
        FilterManager {
            cache_path: crate::paths::join_path(cache_dir, "filters.cache"),
            source_cache_dir: crate::paths::join_path(cache_dir, "sources"),
            rules: compile_rules(default_rules, cached_rules),
        }
    }

    /// What the frontend shows about filtering.
    pub fn status(&self, settings: &Settings) -> (r: FilterStatus)
        ensures
            r.enabled,
            r.tracking_enabled == settings.tracking_protection,
            r.rule_count == self.rules.rule_count,
            r.last_success == settings.filter_last_success,
            r.cache_path matches Some(p) && p@ == self.cache_path@,
    {
        FilterStatus {
            enabled: true,
            tracking_enabled: settings.tracking_protection,
            rule_count: self.rules.rule_count,
            last_success: settings.filter_last_success,
            cache_path: Some(self.cache_path.clone()),
        }
    }

    /// Whether a network request is blocked.
    pub fn check_network_request(&self, url: &str, source_url: &str, request_type: &str) -> (r:
        bool)
        ensures
            r == spec_check_request(self.lists(), url@, source_url@, request_type@),
    {
        if utf8_byte_len(&str_chars(url)) > 16384 || utf8_byte_len(&str_chars(source_url)) > 16384 {
            return false;
        }
        match parse_url(url) {
            Some(u) => match &u.host {
                Some(h) => {
                    if cdn_host(h) {
                        return false;
                    }
                },
                None => {},
            },
            None => {},
        }
        match new_request(url, source_url, request_type) {
            Some(q) => request_blocked(&self.rules.engine, &q),
            None => false,
        }
    }

    /// Whether a URL loaded from a YouTube page is blocked.
    pub fn matches_blocked(&self, url: &str, tracking_protection: bool) -> (r: bool)
        ensures
            r == spec_check_request(
                self.lists(),
                url@,
                "https://www.youtube.com/"@,
                "other"@,
            ),
    {
        self.check_network_request(url, "https://www.youtube.com/", "other")
    }

    /// Replaces the engine after the downloaded lists changed.
    pub fn replace_compiled(&mut self, default_rules: &str, cached_rules: &str)
        ensures
            final(self).lists() == compiled_lists(default_rules@, cached_rules@),
            final(self).rules.rule_count == spec_rule_count(default_rules@, cached_rules@),
            final(self).cache_path == old(self).cache_path,
            final(self).source_cache_dir == old(self).source_cache_dir,
    {
        self.rules = compile_rules(default_rules, cached_rules);
    }

    /// The cosmetic selectors for a page: the page's hide selectors and,
    /// unless the page turns generic hiding off, those its classes and ids
    /// call for, each once; only safe ones, sorted, at most ten thousand
    /// (see [`script_selectors_ok`]).
    pub fn script_rules(&self, page_url: &str, classes: &Vec<String>, ids: &Vec<String>) -> (r:
        FilterScriptRules)
        ensures
            r.blocked_hosts@.len() == 0,
            script_selectors_ok(
                self.lists(),
                page_url@,
                string_views(classes@),
                string_views(ids@),
                string_views(r.cosmetic_selectors@),
            ),
    {
        let (hide, exceptions, generichide) = url_cosmetic_resources(&self.rules.engine, page_url);
        let mut selectors = hide;
        let ghost hide_views = string_views(selectors@);
        let ghost mut extra_views: Seq<Seq<char>> = Seq::empty();
        if !generichide {
            let extra = hidden_class_id_selectors(&self.rules.engine, classes, ids, &exceptions);
            proof {
                extra_views = string_views(extra@);
            }
            let mut k: usize = 0;
            while k < extra.len()
                invariant
                    k <= extra@.len(),
                    extra_views == string_views(extra@),
                    string_views(selectors@) == hide_views + extra_views.take(k as int),
                decreases extra@.len() - k,
            {
                let ghost before = selectors@;
                selectors.push(extra[k].clone());
                proof {
                    assert(string_views(selectors@) =~= string_views(before).push(extra@[k as int]@));
                    assert(extra_views.take(k + 1) =~= extra_views.take(k as int).push(
                        extra@[k as int]@,
                    ));
                    assert(hide_views + extra_views.take(k + 1) =~= (hide_views + extra_views.take(
                        k as int,
                    )).push(extra@[k as int]@));
                }
                k = k + 1;
            }
            assert(extra_views.take(extra@.len() as int) =~= extra_views);
        } else {
            assert(string_views(selectors@) =~= hide_views + extra_views);
        }
        let unique = sort_dedup(&selectors);
        let cosmetic_selectors = finish_selectors(&unique);
        proof {
            let c = cosmetic_resources(self.lists(), page_url@);
            let u = string_views(unique@);
            let a = safe_only(u);
            let kept = first_lines(a, 10000);
            let got = string_views(cosmetic_selectors@);
            let all = page_selectors(
                self.lists(),
                page_url@,
                string_views(classes@),
                string_views(ids@),
            );
            lemma_concat_to_set(hide_views, extra_views);
            if generichide {
                assert(extra_views.to_set() =~= Set::<Seq<char>>::empty());
            }
            assert(u.to_set() == c.0.union(page_extra_selectors(
                self.lists(),
                page_url@,
                string_views(classes@),
                string_views(ids@),
            )));
            lemma_strict_unique(u);
            lemma_filter_unique(u, safe_pred());
            lemma_filter_to_set(u, safe_pred());
            assert(a.to_set() == all);
            a.unique_seq_to_set();
            lemma_strict_unique(got);
            if a.len() > 10000 {
                assert(kept =~= a.take(10000));
                assert forall|x: Seq<char>| kept.to_set().contains(x) implies a.to_set().contains(x) by {
                    let j = choose|j: int| 0 <= j < kept.len() && kept[j] == x;
                    assert(a[j] == x);
                }
                assert(kept.no_duplicates());
                kept.unique_seq_to_set();
                got.unique_seq_to_set();
            }
        }
        FilterScriptRules { blocked_hosts: Vec::new(), cosmetic_selectors }
    }
}

/// The selectors a page's classes and ids call for; none where the page
/// turns generic hiding off.
pub open spec fn page_extra_selectors(
    lists: Seq<Seq<char>>,
    page: Seq<char>,
    classes: Seq<Seq<char>>,
    ids: Seq<Seq<char>>,
) -> Set<Seq<char>> {
    let c = cosmetic_resources(lists, page);
    if c.2 {
        Set::empty()
    } else {
        class_id_selector_list(lists, classes, ids, c.1).to_set()
    }
}

/// The safe selectors a page gets: its own hide selectors and those its
/// classes and ids call for.
pub open spec fn page_selectors(
    lists: Seq<Seq<char>>,
    page: Seq<char>,
    classes: Seq<Seq<char>>,
    ids: Seq<Seq<char>>,
) -> Set<Seq<char>> {
    cosmetic_resources(lists, page).0.union(page_extra_selectors(lists, page, classes, ids)).filter(
        safe_pred(),
    )
}

/// What a page's script rules hold, sorted and each once: all of the page's
/// safe selectors where they number at most ten thousand, else ten thousand of
/// them (which ones is left open, as a hash set's walk decides it).
pub open spec fn script_selectors_ok(
    lists: Seq<Seq<char>>,
    page: Seq<char>,
    classes: Seq<Seq<char>>,
    ids: Seq<Seq<char>>,
    got: Seq<Seq<char>>,
) -> bool {
    let all = page_selectors(lists, page, classes, ids);
    &&& strictly_sorted(got)
    &&& if all.len() <= 10000 {
        got.to_set() == all
    } else {
        got.to_set().subset_of(all) && got.len() == 10000
    }
}

proof fn lemma_filter_unique(s: Seq<Seq<char>>, p: spec_fn(Seq<char>) -> bool)
    requires
        s.no_duplicates(),
    ensures
        s.filter(p).no_duplicates(),
    decreases s.len(),
{
    reveal(Seq::filter);
    if s.len() > 0 {
        let d = s.drop_last();
        assert(d.no_duplicates()) by {
            assert forall|i: int, j: int| 0 <= i < d.len() && 0 <= j < d.len() && i != j implies d[i]
                != d[j] by {
                assert(d[i] == s[i] && d[j] == s[j]);
            }
        }
        lemma_filter_unique(d, p);
        let sub = d.filter(p);
        if p(s.last()) {
            if sub.contains(s.last()) {
                d.lemma_filter_contains_rev(p, s.last());
                let k = choose|k: int| 0 <= k < d.len() && d[k] == s.last();
                assert(s[k] == s[s.len() - 1]);
            }
            let out = sub.push(s.last());
            assert(s.filter(p) == out);
            assert forall|i: int, j: int| 0 <= i < out.len() && 0 <= j < out.len() && i != j implies out[i]
                != out[j] by {
                if i < sub.len() && j < sub.len() {
                    assert(out[i] == sub[i] && out[j] == sub[j]);
                } else if i < sub.len() {
                    assert(out[i] == sub[i]);
                    assert(sub.contains(sub[i]));
                } else {
                    assert(out[j] == sub[j]);
                    assert(sub.contains(sub[j]));
                }
            }
        }
    }
}

proof fn lemma_filter_to_set(s: Seq<Seq<char>>, p: spec_fn(Seq<char>) -> bool)
    ensures
        s.filter(p).to_set() == s.to_set().filter(p),
{
    #[allow(deprecated)]
    s.filter_lemma(p);
    assert forall|x: Seq<char>| s.filter(p).to_set().contains(x) <==> s.to_set().filter(p).contains(
        x,
    ) by {
        if s.filter(p).contains(x) {
            s.lemma_filter_contains_rev(p, x);
            let j = choose|j: int| 0 <= j < s.filter(p).len() && s.filter(p)[j] == x;
            assert(p(s.filter(p)[j]));
        }
        if s.contains(x) && p(x) {
            let i = choose|i: int| 0 <= i < s.len() && s[i] == x;
            assert(s.filter(p).contains(s[i]));
        }
    }
    assert(s.filter(p).to_set() =~= s.to_set().filter(p));
}

proof fn lemma_concat_to_set(a: Seq<Seq<char>>, b: Seq<Seq<char>>)
    ensures
        (a + b).to_set() == a.to_set().union(b.to_set()),
{
    assert forall|x: Seq<char>| (a + b).to_set().contains(x) <==> a.to_set().union(
        b.to_set(),
    ).contains(x) by {
        if (a + b).contains(x) {
            let j = choose|j: int| 0 <= j < (a + b).len() && (a + b)[j] == x;
            if j < a.len() {
                assert(a[j] == x);
            } else {
                assert(b[j - a.len()] == x);
            }
        }
        if a.contains(x) {
            let j = choose|j: int| 0 <= j < a.len() && a[j] == x;
            assert((a + b)[j] == x);
        }
        if b.contains(x) {
            let j = choose|j: int| 0 <= j < b.len() && b[j] == x;
            assert((a + b)[a.len() + j] == x);
        }
    }
    assert((a + b).to_set() =~= a.to_set().union(b.to_set()));
}

proof fn lemma_strict_unique(r: Seq<Seq<char>>)
    requires
        strictly_sorted(r),
    ensures
        r.no_duplicates(),
{
    assert forall|i: int, j: int| 0 <= i < r.len() && 0 <= j < r.len() && i != j implies r[i]
        != r[j] by {
        crate::text::lemma_text_lt_irreflexive(r[i]);
        if j < i {
            crate::text::lemma_text_lt_irreflexive(r[j]);
        }
    }
}


/// A subscription that is fetched: an HTTPS URL of at most 2048 bytes.
pub open spec fn fetchable_source(s: Seq<char>) -> bool {
    byte_len(s) <= 2048 && starts_with(s, "https://"@)
}

pub open spec fn fetchable_pred() -> spec_fn(Seq<char>) -> bool {
    |s: Seq<char>| fetchable_source(s)
}

/// The subscriptions a refresh fetches, in order.
pub fn update_sources(urls: &Vec<String>) -> (r: Vec<String>)
    ensures
        string_views(r@) == string_views(urls@).filter(fetchable_pred()),
{
    let mut r: Vec<String> = Vec::new();
    let mut i: usize = 0;
    let ghost all = string_views(urls@);
    assert(all.take(0) =~= Seq::<Seq<char>>::empty());
    assert(all.take(0).filter(fetchable_pred()) =~= Seq::<Seq<char>>::empty()) by {
        reveal(Seq::filter);
    }
    let https = str_chars("https://");
    while i < urls.len()
        invariant
            i <= urls@.len(),
            all == string_views(urls@),
            https@ == "https://"@,
            string_views(r@) == all.take(i as int).filter(fetchable_pred()),
        decreases urls@.len() - i,
    {
        let v = str_chars(urls[i].as_str());
        let ok = utf8_byte_len(&v) <= 2048 && vec_starts_with(&v, &https);
        proof {
            assert(all.take(i + 1) =~= all.take(i as int).push(all[i as int]));
            all.take(i as int).lemma_filter_push(all[i as int], fetchable_pred());
        }
        if ok {
            let ghost before = r@;
            r.push(urls[i].clone());
            assert(string_views(r@) =~= string_views(before).push(urls@[i as int]@));
        }
        i = i + 1;
    }
    assert(all.take(urls@.len() as int) =~= all);
    r
}

/// What a refresh makes of one subscription.
pub struct SourceFetch {
    /// The list text to use: the fresh download, or else the cached copy.
    pub body: Option<String>,
    /// The entity tag the server sent with a fresh download, with its URL.
    pub etag: Option<(String, String)>,
    /// Whether the body is a fresh download that replaces the cached copy.
    pub store: bool,
}

/// How a server answered a list request.
pub enum FetchResponse {
    /// 304: the cached copy is current.
    NotModified,
    /// A success status, with the body's size in bytes, its text where it is
    /// UTF-8, and the entity tag where the server sent a readable one.
    Fresh { byte_count: usize, text: Option<String>, etag: Option<String> },
    /// Any other status, or no answer at all.
    Failed,
}

/// A download is used when it is not empty, at most 8 MiB, UTF-8, and holds a rule.
pub open spec fn usable_download(byte_count: usize, text: Option<String>) -> bool {
    &&& byte_count > 0
    &&& byte_count <= MAX_FILTER_LIST_BYTES
    &&& text matches Some(t) && spec_has_usable_rule(t@)
}

/// Keeps a fresh, usable download (with its entity tag), and falls back to
/// the cached copy otherwise.
pub fn settle_fetch(source: &str, response: FetchResponse, cached: Option<String>) -> (r:
    SourceFetch)
    ensures
        match response {
            FetchResponse::Fresh { byte_count, text, etag } => if usable_download(
                byte_count,
                text,
            ) {
                &&& r.store
                &&& r.body == text
                &&& match etag {
                    Some(e) => r.etag matches Some(p) && p.0@ == source@ && p.1 == e,
                    None => r.etag is None,
                }
            } else {
                !r.store && r.body == cached && r.etag is None
            },
            _ => !r.store && r.body == cached && r.etag is None,
        },
{
    match response {
        FetchResponse::Fresh { byte_count, text, etag } => {
            let usable = byte_count > 0 && byte_count <= MAX_FILTER_LIST_BYTES && match &text {
                Some(t) => has_usable_rule(t.as_str()),
                None => false,
            };
            if usable {
                let tagged = match etag {
                    Some(e) => Some((String::from_str(source), e)),
                    None => None,
                };
                SourceFetch { body: text, etag: tagged, store: true }
            } else {
                SourceFetch { body: cached, etag: None, store: false }
            }
        },
        _ => SourceFetch { body: cached, etag: None, store: false },
    }
}

/// The entity tag sent as `If-None-Match`: only when a cached copy exists.
pub fn conditional_etag(has_cached: bool, etag: Option<String>) -> (r: Option<String>)
    ensures
        r == if has_cached {
            etag
        } else {
            None::<String>
        },
{
    if has_cached {
        etag
    } else {
        None
    }
}

proof fn lemma_byte_len_concat(a: Seq<char>, b: Seq<char>)
    ensures
        byte_len(a + b) == byte_len(a) + byte_len(b),
    decreases b.len(),
{
    if b.len() == 0 {
        assert(a + b =~= a);
        assert(encode_utf8(b) =~= Seq::<u8>::empty());
    } else {
        lemma_byte_len_concat(a, b.drop_last());
        assert(a + b =~= (a + b.drop_last()).push(b.last()));
        assert(b =~= b.drop_last().push(b.last()));
        crate::text::lemma_byte_len_push(a + b.drop_last(), b.last());
        crate::text::lemma_byte_len_push(b.drop_last(), b.last());
    }
}

/// The list texts one after another, each ended by a line break.
pub open spec fn joined_lists(bodies: Seq<Seq<char>>) -> Seq<char>
    decreases bodies.len(),
{
    if bodies.len() == 0 {
        Seq::<char>::empty()
    } else {
        joined_lists(bodies.drop_last()) + bodies.last() + "\n"@
    }
}

/// The combined text of the fetched lists, unless it would weigh more than
/// 32 MiB.
pub open spec fn spec_aggregate(bodies: Seq<Seq<char>>) -> Option<Seq<char>> {
    if byte_len(joined_lists(bodies)) <= MAX_COMBINED_FILTER_BYTES {
        Some(joined_lists(bodies))
    } else {
        None
    }
}

proof fn lemma_joined_grows(bodies: Seq<Seq<char>>, i: int)
    requires
        0 <= i <= bodies.len(),
    ensures
        byte_len(joined_lists(bodies.take(i))) <= byte_len(joined_lists(bodies)),
    decreases bodies.len() - i,
{
    if i < bodies.len() {
        lemma_joined_grows(bodies, i + 1);
        assert(bodies.take(i + 1).drop_last() =~= bodies.take(i));
        let t = bodies.take(i + 1);
        lemma_byte_len_concat(joined_lists(bodies.take(i)) + t.last(), "\n"@);
        lemma_byte_len_concat(joined_lists(bodies.take(i)), t.last());
    } else {
        assert(bodies.take(i) =~= bodies);
    }
}

/// Joins the fetched lists into the text that is cached and compiled.
pub fn aggregate_lists(bodies: &Vec<String>) -> (r: Option<String>)
    ensures
        opt_view(r) == spec_aggregate(string_views(bodies@)),
{
    let ghost bs = string_views(bodies@);
    let mut out = String::new();
    let mut size: u128 = 0;
    let mut i: usize = 0;
    assert(bs.take(0) =~= Seq::<Seq<char>>::empty());
    while i < bodies.len()
        invariant
            i <= bodies@.len(),
            bs == string_views(bodies@),
            out@ == joined_lists(bs.take(i as int)),
            size == byte_len(out@),
            size <= MAX_COMBINED_FILTER_BYTES,
        decreases bodies@.len() - i,
    {
        let body_chars = str_chars(bodies[i].as_str());
        let body_size = utf8_byte_len(&body_chars);
        let body_len: usize = body_chars.len();
        proof {
            reveal_strlit("\n");
            assert(bs.take(i + 1).drop_last() =~= bs.take(i as int));
            assert(bs.take(i + 1).last() == bodies@[i as int]@);
            lemma_byte_len_concat(out@ + bodies@[i as int]@, "\n"@);
            lemma_byte_len_concat(out@, bodies@[i as int]@);
            assert(byte_len("\n"@) == 1) by {
                assert("\n"@ =~= Seq::<char>::empty().push('\n'));
                crate::text::lemma_byte_len_push(Seq::<char>::empty(), '\n');
                assert(encode_utf8(Seq::<char>::empty()) =~= Seq::<u8>::empty());
            }
        }
        assert(size + body_size + 1 <= u128::MAX) by {
            assert(size <= MAX_COMBINED_FILTER_BYTES);
            assert(body_size <= 4 * body_chars@.len());
            assert(body_chars@.len() == body_len);
        }
        if size + body_size + 1 > MAX_COMBINED_FILTER_BYTES as u128 {
            proof {
                lemma_joined_grows(bs, i + 1);
            }
            return None;
        }
        out.append(bodies[i].as_str());
        out.append("\n");
        size = size + body_size + 1;
        i = i + 1;
    }
    assert(bs.take(bodies@.len() as int) =~= bs);
    Some(out)
}

/// What a refresh does once every subscription was fetched.
pub enum UpdatePlan {
    /// Keep the running engine and the recorded refresh.
    Keep,
    /// Record a successful refresh with these entity tags; where `changed`,
    /// first cache the combined text and recompile.
    Apply { combined: String, changed: bool, etags: Vec<(String, String)> },
}

/// The entity tags of the fresh downloads, in order.
pub open spec fn fetched_etags(f: Seq<SourceFetch>) -> Seq<(String, String)>
    decreases f.len(),
{
    if f.len() == 0 {
        Seq::<(String, String)>::empty()
    } else {
        match f.last().etag {
            Some(e) => fetched_etags(f.drop_last()).push(e),
            None => fetched_etags(f.drop_last()),
        }
    }
}

/// The list texts the fetches produced, in order.
pub open spec fn fetched_bodies(f: Seq<SourceFetch>) -> Seq<Seq<char>>
    decreases f.len(),
{
    if f.len() == 0 {
        Seq::<Seq<char>>::empty()
    } else {
        match f.last().body {
            Some(b) => fetched_bodies(f.drop_last()).push(b@),
            None => fetched_bodies(f.drop_last()),
        }
    }
}

/// Decides a refresh: nothing is kept from a refresh that produced no list or
/// whose lists together exceed 32 MiB; otherwise the combined text replaces
/// the cache where it differs from it.
pub fn plan_update(fetches: Vec<SourceFetch>, current_cache: &str) -> (r: UpdatePlan)
    ensures
        match spec_aggregate(fetched_bodies(fetches@)) {
            Some(c) => if fetched_bodies(fetches@).len() == 0 {
                r is Keep
            } else {
                r matches UpdatePlan::Apply { combined, changed, etags } && combined@ == c
                    && changed == (c != current_cache@) && etags@ == fetched_etags(fetches@)
            },
            None => r is Keep,
        },
{
    let mut etags: Vec<(String, String)> = Vec::new();
    let mut bodies: Vec<String> = Vec::new();
    let mut i: usize = 0;
    let n = fetches.len();
    let mut rest = fetches;
    let ghost all = rest@;
    assert(all.take(0) =~= Seq::<SourceFetch>::empty());
    assert(fetched_bodies(all.take(0)) =~= Seq::<Seq<char>>::empty());
    while i < n
        invariant
            i <= n,
            n == all.len(),
            rest@ == all.skip(i as int),
            etags@ == fetched_etags(all.take(i as int)),
            string_views(bodies@) == fetched_bodies(all.take(i as int)),
        decreases n - i,
    {
        proof {
            assert(all.take(i + 1).drop_last() =~= all.take(i as int));
            assert(all.take(i + 1).last() == all[i as int]);
            assert(rest@[0] == all[i as int]);
        }
        let f = rest.remove(0);
        assert(rest@ =~= all.skip(i + 1));
        let SourceFetch { body, etag, store } = f;
        match etag {
            Some(e) => {
                etags.push(e);
            },
            None => {},
        }
        match body {
            Some(b) => {
                let ghost before = bodies@;
                bodies.push(b);
                assert(string_views(bodies@) =~= string_views(before).push(b@));
            },
            None => {},
        }
        i = i + 1;
    }
    assert(all.take(n as int) =~= all);
    if bodies.len() == 0 {
        return UpdatePlan::Keep;
    }
    match aggregate_lists(&bodies) {
        None => UpdatePlan::Keep,
        Some(combined) => {
            let changed = !chars_eq(&str_chars(combined.as_str()), &str_chars(current_cache));
            UpdatePlan::Apply { combined, changed, etags }
        },
    }
}

/// Nanoseconds from `a` to `b`.
pub open spec fn nanos_between(a: Timestamp, b: Timestamp) -> int {
    (b.secs - a.secs) * 1_000_000_000 + (b.nanos - a.nanos)
}

/// A refresh is due when forced, when none succeeded yet, or when the last
/// one is more than a day old.
pub open spec fn spec_update_due(force: bool, last: Option<Timestamp>, now: Timestamp) -> bool {
    force || match last {
        None => true,
        Some(t) => nanos_between(t, now) > 86_400_000_000_000,
    }
}

pub fn is_update_due(force: bool, last: Option<Timestamp>, now: Timestamp) -> (r: bool)
    ensures
        r == spec_update_due(force, last, now),
{
    if force {
        return true;
    }
    match last {
        None => true,
        Some(t) => {
            let d: i128 = (now.secs as i128 - t.secs as i128) * 1_000_000_000 + (now.nanos as i128
                - t.nanos as i128);
            d > 86_400_000_000_000
        },
    }
}

/// What `std::hash::DefaultHasher::new()` gives for a text hashed with
/// `Hash::hash`. Hashers made by `new` all start alike, so the value depends
/// on the text alone within one build of the standard library.
pub uninterp spec fn default_hash(text: Seq<char>) -> u64;

/// Hashes a text with a fresh `DefaultHasher`. The contract claims only that
/// the value is the hasher's, which [`default_hash`] names.
#[verifier::external_body]
fn hash_text(text: &str) -> (r: u64)
    ensures
        r == default_hash(text@),
{
    let mut hasher = std::collections::hash_map::DefaultHasher::new();
    std::hash::Hash::hash(text, &mut hasher);
    std::hash::Hasher::finish(&hasher)
}

pub open spec fn hex_char(d: nat) -> char {
    if d < 10 {
        (('0' as u32) + d) as char
    } else {
        (('a' as u32) + (d - 10)) as char
    }
}

/// The last `width` hexadecimal digits of `n`, lower case, zero-padded: what
/// `{:016x}` prints for width 16.
pub open spec fn hex_digits(n: nat, width: nat) -> Seq<char>
    decreases width,
{
    if width == 0 {
        Seq::<char>::empty()
    } else {
        hex_digits(n / 16, (width - 1) as nat).push(hex_char(n % 16))
    }
}

fn hex16(n: u64) -> (r: Vec<char>)
    ensures
        r@ == hex_digits(n as nat, 16),
{
    let mut digits: Vec<char> = Vec::new();
    let mut k: usize = 0;
    let mut m: u64 = n;
    let ghost mut tail: Seq<char> = Seq::empty();
    while k < 16
        invariant
            k <= 16,
            hex_digits(n as nat, 16) == hex_digits(m as nat, (16 - k) as nat) + digits@,
        decreases 16 - k,
    {
        let d = m % 16;
        let c: char = if d < 10 {
            ((d as u8) + 48) as char
        } else {
            ((d as u8) + 87) as char
        };
        assert(c == hex_char(d as nat));
        proof {
            assert(hex_digits(m as nat, (16 - k) as nat) == hex_digits((m / 16) as nat, (15 - k) as nat).push(c));
        }
        digits.insert(0, c);
        proof {
            assert(hex_digits(m as nat, (16 - k) as nat) + old_digits_view(digits@)
                =~= hex_digits((m / 16) as nat, (15 - k) as nat) + digits@);
        }
        m = m / 16;
        k = k + 1;
    }
    assert(hex_digits(m as nat, 0) =~= Seq::<char>::empty());
    assert(hex_digits(n as nat, 16) =~= digits@);
    digits
}

spec fn old_digits_view(s: Seq<char>) -> Seq<char> {
    s.drop_first()
}

/// Where a subscription's last good download is kept: a file named by the
/// hash of its URL.
pub open spec fn spec_source_cache_path(dir: Seq<char>, source: Seq<char>) -> Seq<char> {
    join(dir, hex_digits(default_hash(source) as nat, 16) + ".txt"@)
}

pub fn source_cache_path(source_cache_dir: &str, source: &str) -> (r: String)
    ensures
        r@ == spec_source_cache_path(source_cache_dir@, source@),
{
    let mut name = chars_string(&hex16(hash_text(source)));
    name.append(".txt");
    crate::paths::join_path(source_cache_dir, name.as_str())
}

} // verus!
