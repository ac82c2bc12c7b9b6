//! The Brave runtime: where a Brave binary and the companion extension are
//! looked for, the command line Brave is started with, and the first-run
//! preferences seeded into its profile (filling in missing keys only).
use vstd::prelude::*;
use crate::json::{
    jv, json_text, json_to_string, parse_json, set_default, spec_set_default, members, lookup,
    into_members, Json, JsonNumber, JsonV, entry_views, lemma_object_view,
};
use crate::models::Timestamp;
use crate::paths::{join, join_path};
use crate::queue::DownloadQueue;
use crate::text::{
    chars_string, lines, lines_chars, str_chars, string_views, trim, trim_chars, views,
};
use crate::urls::opt_view;

verus! {

/// The Brave executable's file name.
pub fn brave_exe_name(windows: bool) -> (r: &'static str)
    ensures
        r@ == if windows {
            "brave.exe"@
        } else {
            "brave"@
        },
{
    if windows {
        "brave.exe"
    } else {
        "brave"
    }
}

pub open spec fn exe_name(windows: bool) -> Seq<char> {
    if windows {
        "brave.exe"@
    } else {
        "brave"@
    }
}

pub open spec fn join_all(base: Seq<char>, parts: Seq<Seq<char>>) -> Seq<char>
    decreases parts.len(),
{
    if parts.len() == 0 {
        base
    } else {
        join(join_all(base, parts.drop_last()), parts.last())
    }
}

/// The Brave binaries to try, in order: `$YOOD_BRAVE_DIR`, the layouts
/// shipped next to the executable, then the system installs.
pub open spec fn spec_brave_candidates(
    brave_dir: Option<Seq<char>>,
    exe_dir: Option<Seq<char>>,
    windows: bool,
) -> Seq<Seq<char>> {
    let e = exe_name(windows);
    let from_env = match brave_dir {
        Some(d) => seq![join(d, e)],
        None => Seq::<Seq<char>>::empty(),
    };
    let bundled = match exe_dir {
        Some(d) => seq![
            join_all(d, seq!["brave"@, e]),
            join_all(d, seq!["resources"@, "brave"@, e]),
            join_all(d, seq!["binaries"@, "windows-x86_64"@, "brave"@, e]),
            join_all(d, seq!["binaries"@, "linux-x86_64"@, "brave"@, e]),
            join_all(d, seq!["resources"@, "binaries"@, "windows-x86_64"@, "brave"@, e]),
            join_all(d, seq!["resources"@, "binaries"@, "linux-x86_64"@, "brave"@, e]),
        ],
        None => Seq::<Seq<char>>::empty(),
    };
    let system = if windows {
        seq![
            "C:\\Program Files\\BraveSoftware\\Brave-Browser\\Application\\brave.exe"@,
            "C:\\Program Files (x86)\\BraveSoftware\\Brave-Browser\\Application\\brave.exe"@,
        ]
    } else {
        seq!["/opt/brave-bin/brave"@, "/opt/brave.com/brave/brave"@]
    };
    from_env + bundled + system
}

fn join_parts(base: &str, parts: &Vec<&str>) -> (r: String)
    ensures
        r@ == join_all(base@, parts@.map_values(|p: &str| p@)),
{
    let mut r = String::from_str(base);
    let ghost pv = parts@.map_values(|p: &str| p@);
    let mut i: usize = 0;
    assert(pv.take(0) =~= Seq::<Seq<char>>::empty());
    while i < parts.len()
        invariant
            i <= parts@.len(),
            pv == parts@.map_values(|p: &str| p@),
            r@ == join_all(base@, pv.take(i as int)),
        decreases parts@.len() - i,
    {
        proof {
            assert(pv.take(i + 1).drop_last() =~= pv.take(i as int));
            assert(pv.take(i + 1).last() == parts@[i as int]@);
        }
        r = join_path(r.as_str(), parts[i]);
        i = i + 1;
    }
    assert(pv.take(parts@.len() as int) =~= pv);
    r
}

/// The Brave binaries to try, in order; the caller takes the first that is
/// an executable file, and falls back to a `PATH` search for
/// [`brave_search_names`].
pub fn brave_candidates(brave_dir: Option<String>, exe_dir: Option<String>, windows: bool) -> (r:
    Vec<String>)
    ensures
        string_views(r@) == spec_brave_candidates(opt_view(brave_dir), opt_view(exe_dir), windows),
{
    let e = brave_exe_name(windows);
    let mut r: Vec<String> = Vec::new();
    match &brave_dir {
        Some(d) => {
            r.push(join_path(d.as_str(), e));
        },
        None => {},
    }
    let ghost first = string_views(r@);
    match &exe_dir {
        Some(d) => {
            let d = d.as_str();
            r.push(join_parts(d, &vec!["brave", e]));
            r.push(join_parts(d, &vec!["resources", "brave", e]));
            r.push(join_parts(d, &vec!["binaries", "windows-x86_64", "brave", e]));
            r.push(join_parts(d, &vec!["binaries", "linux-x86_64", "brave", e]));
            r.push(join_parts(d, &vec!["resources", "binaries", "windows-x86_64", "brave", e]));
            r.push(join_parts(d, &vec!["resources", "binaries", "linux-x86_64", "brave", e]));
            proof {
                assert(seq!["brave", e].map_values(|p: &str| p@) =~= seq!["brave"@, e@]);
                assert(seq!["resources", "brave", e].map_values(|p: &str| p@) =~= seq![
                    "resources"@,
                    "brave"@,
                    e@,
                ]);
                assert(seq!["binaries", "windows-x86_64", "brave", e].map_values(|p: &str| p@)
                    =~= seq!["binaries"@, "windows-x86_64"@, "brave"@, e@]);
                assert(seq!["binaries", "linux-x86_64", "brave", e].map_values(|p: &str| p@)
                    =~= seq!["binaries"@, "linux-x86_64"@, "brave"@, e@]);
                assert(seq!["resources", "binaries", "windows-x86_64", "brave", e].map_values(
                    |p: &str| p@,
                ) =~= seq!["resources"@, "binaries"@, "windows-x86_64"@, "brave"@, e@]);
                assert(seq!["resources", "binaries", "linux-x86_64", "brave", e].map_values(
                    |p: &str| p@,
                ) =~= seq!["resources"@, "binaries"@, "linux-x86_64"@, "brave"@, e@]);
            }
        },
        None => {},
    }
    if windows {
        r.push(
            String::from_str("C:\\Program Files\\BraveSoftware\\Brave-Browser\\Application\\brave.exe"),
        );
        r.push(
            String::from_str(
                "C:\\Program Files (x86)\\BraveSoftware\\Brave-Browser\\Application\\brave.exe",
            ),
        );
    } else {
        r.push(String::from_str("/opt/brave-bin/brave"));
        r.push(String::from_str("/opt/brave.com/brave/brave"));
    }
    assert(string_views(r@) =~= spec_brave_candidates(opt_view(brave_dir), opt_view(exe_dir), windows));
    r
}

/// The names searched for on `PATH` when no candidate is found.
pub fn brave_search_names() -> (r: Vec<&'static str>)
    ensures
        r@.map_values(|p: &str| p@) == seq!["brave"@, "brave-browser"@, "brave-bin"@],
{
    let r = vec!["brave", "brave-browser", "brave-bin"];
    assert(r@.map_values(|p: &str| p@) =~= seq!["brave"@, "brave-browser"@, "brave-bin"@]);
    r
}

/// Texts joined with `", "`.
pub open spec fn comma_joined(s: Seq<Seq<char>>) -> Seq<char>
    decreases s.len(),
{
    if s.len() == 0 {
        Seq::<char>::empty()
    } else if s.len() == 1 {
        s[0]
    } else {
        comma_joined(s.drop_last()) + ", "@ + s.last()
    }
}

/// The warning logged when no Brave binary was found.
pub fn missing_brave_message(tried: &Vec<String>) -> (r: String)
    ensures
        r@ == "no Brave binary found; searched: "@ + comma_joined(string_views(tried@)),
{
    let mut joined = String::new();
    let ghost tv = string_views(tried@);
    let mut i: usize = 0;
    assert(tv.take(0) =~= Seq::<Seq<char>>::empty());
    while i < tried.len()
        invariant
            i <= tried@.len(),
            tv == string_views(tried@),
            joined@ == comma_joined(tv.take(i as int)),
        decreases tried@.len() - i,
    {
        proof {
            assert(tv.take(i + 1).drop_last() =~= tv.take(i as int));
            assert(tv.take(i + 1).last() == tried@[i as int]@);
        }
        if i > 0 {
            joined.append(", ");
        }
        joined.append(tried[i].as_str());
        proof {
            if i == 0 {
                assert(tv.take(1) =~= seq![tried@[0]@]);
            }
        }
        i = i + 1;
    }
    assert(tv.take(tried@.len() as int) =~= tv);
    let mut r = String::from_str("no Brave binary found; searched: ");
    r.append(joined.as_str());
    r
}

/// What `PathBuf::pop` leaves of an absolute `/`-separated directory path:
/// everything before its last `/` (the root itself for a top-level entry);
/// `None` for the root, where there is nothing left to pop.
pub open spec fn parent_path(p: Seq<char>) -> Option<Seq<char>> {
    if p.len() <= 1 {
        None
    } else {
        parent_of_rest(p)
    }
}

/// Everything before the last `/` of a text (the `/` itself where it comes first).
pub open spec fn parent_of_rest(p: Seq<char>) -> Option<Seq<char>>
    decreases p.len(),
{
    if p.len() == 0 {
        None
    } else if p.last() == '/' {
        if p.len() == 1 {
            Some(p)
        } else {
            Some(p.drop_last())
        }
    } else {
        parent_of_rest(p.drop_last())
    }
}

fn parent_text(p: &Vec<char>) -> (r: Option<Vec<char>>)
    ensures
        match r {
            Some(v) => parent_of_rest(p@) == Some(v@),
            None => parent_of_rest(p@) is None,
        },
{
    let mut n: usize = p.len();
    assert(p@.take(p@.len() as int) =~= p@);
    while n > 0 && p[n - 1] != '/'
        invariant
            n <= p@.len(),
            parent_of_rest(p@) == parent_of_rest(p@.take(n as int)),
        decreases n,
    {
        assert(p@.take(n as int).drop_last() =~= p@.take(n - 1));
        n = n - 1;
    }
    if n == 0 {
        return None;
    }
    assert(p@.take(n as int).last() == '/');
    if n == 1 {
        Some(crate::text::prefix_chars(p, 1))
    } else {
        assert(p@.take(n as int).drop_last() =~= p@.take(n - 1));
        Some(crate::text::prefix_chars(p, n - 1))
    }
}

/// The directories the companion extension is looked for in, in order: the
/// installed layouts next to the executable, then `extension/yood` in the
/// executable's directory and up to three of its ancestors.
pub open spec fn spec_extension_candidates(exe_dir: Seq<char>) -> Seq<Seq<char>> {
    seq![
        join_all(exe_dir, seq!["extension"@, "yood"@]),
        join_all(exe_dir, seq!["resources"@, "extension"@, "yood"@]),
    ] + ancestor_candidates(exe_dir, 4)
}

pub open spec fn ancestor_candidates(dir: Seq<char>, n: nat) -> Seq<Seq<char>>
    decreases n,
{
    if n == 0 {
        Seq::<Seq<char>>::empty()
    } else {
        let here = seq![join_all(dir, seq!["extension"@, "yood"@])];
        match parent_path(dir) {
            Some(up) => here + ancestor_candidates(up, (n - 1) as nat),
            None => here,
        }
    }
}

fn ancestors(dir: Vec<char>, n: usize) -> (r: Vec<String>)
    ensures
        string_views(r@) == ancestor_candidates(dir@, n as nat),
    decreases n,
{
    if n == 0 {
        let r: Vec<String> = Vec::new();
        assert(string_views(r@) =~= Seq::<Seq<char>>::empty());
        return r;
    }
    let d = chars_string(&dir);
    let here = join_parts(d.as_str(), &vec!["extension", "yood"]);
    assert(seq!["extension", "yood"].map_values(|p: &str| p@) =~= seq!["extension"@, "yood"@]);
    let mut r: Vec<String> = Vec::new();
    r.push(here);
    let up_dir = if dir.len() <= 1 {
        None
    } else {
        parent_text(&dir)
    };
    match up_dir {
        Some(up) => {
            let rest = ancestors(up, n - 1);
            let ghost first = string_views(r@);
            let mut i: usize = 0;
            while i < rest.len()
                invariant
                    i <= rest@.len(),
                    string_views(r@) == first + string_views(rest@).take(i as int),
                decreases rest@.len() - i,
            {
                let ghost before = r@;
                r.push(rest[i].clone());
                assert(string_views(r@) =~= string_views(before).push(rest@[i as int]@));
                assert(string_views(rest@).take(i + 1) =~= string_views(rest@).take(i as int).push(
                    rest@[i as int]@,
                ));
                i = i + 1;
            }
            assert(string_views(rest@).take(rest@.len() as int) =~= string_views(rest@));
        },
        None => {
            assert(string_views(r@) =~= seq![here@]);
        },
    }
    r
}

/// The directories the companion extension is looked for in; the caller
/// takes the first that holds the extension's manifest file, and otherwise unpacks the
/// extension that ships inside the binary.
pub fn extension_candidates(exe_dir: &str) -> (r: Vec<String>)
    ensures
        string_views(r@) == spec_extension_candidates(exe_dir@),
{
    let mut r: Vec<String> = Vec::new();
    r.push(join_parts(exe_dir, &vec!["extension", "yood"]));
    r.push(join_parts(exe_dir, &vec!["resources", "extension", "yood"]));
    proof {
        assert(seq!["extension", "yood"].map_values(|p: &str| p@) =~= seq!["extension"@, "yood"@]);
        assert(seq!["resources", "extension", "yood"].map_values(|p: &str| p@) =~= seq![
            "resources"@,
            "extension"@,
            "yood"@,
        ]);
    }
    let rest = ancestors(str_chars(exe_dir), 4);
    let ghost first = string_views(r@);
    let mut i: usize = 0;
    while i < rest.len()
        invariant
            i <= rest@.len(),
            string_views(r@) == first + string_views(rest@).take(i as int),
        decreases rest@.len() - i,
    {
        let ghost before = r@;
        r.push(rest[i].clone());
        assert(string_views(r@) =~= string_views(before).push(rest@[i as int]@));
        assert(string_views(rest@).take(i + 1) =~= string_views(rest@).take(i as int).push(
            rest@[i as int]@,
        ));
        i = i + 1;
    }
    assert(string_views(rest@).take(rest@.len() as int) =~= string_views(rest@));
    r
}

/// A small JSON integer.
pub open spec fn int_v(n: u8) -> JsonV {
    JsonV::Number(crate::text::decimal(n as nat), Some(n as u64), Some(n as i64))
}

fn json_int(n: u8) -> (r: Json)
    ensures
        jv(r) == int_v(n),
{
    Json::Number(
        JsonNumber {
            text: chars_string(&crate::text::u64_decimal(n as u64)),
            as_u64: Some(n as u64),
            as_i64: Some(n as i64),
        },
    )
}

/// Seeding entries with their key paths and values as sequences.
pub open spec fn entries_view(e: Seq<(Vec<String>, Json)>) -> Seq<(Seq<Seq<char>>, JsonV)> {
    e.map_values(|x: (Vec<String>, Json)| (string_views(x.0@), jv(x.1)))
}

/// Each entry set where missing, in order: the value, and whether any was added.
pub open spec fn spec_seed_all(root: JsonV, entries: Seq<(Seq<Seq<char>>, JsonV)>) -> (JsonV, bool)
    decreases entries.len(),
{
    if entries.len() == 0 {
        (root, false)
    } else {
        let p = spec_seed_all(root, entries.drop_last());
        let q = spec_set_default(p.0, entries.last().0, entries.last().1);
        (q.0, p.1 || q.1)
    }
}

/// A parsed preferences file, or an empty object where it is missing, does
/// not parse, or is not an object.
pub open spec fn prefs_root(text: Option<Seq<char>>) -> JsonV {
    match text {
        Some(t) => match crate::json::json_parse(t) {
            Some(JsonV::Object(es)) => JsonV::Object(es),
            _ => JsonV::Object(Seq::<(Seq<char>, JsonV)>::empty()),
        },
        None => JsonV::Object(Seq::<(Seq<char>, JsonV)>::empty()),
    }
}

/// What seeding a preferences file writes: its text after every missing
/// entry was set, when the file did not exist or an entry was added; else nothing.
pub open spec fn spec_seed_prefs_file(
    existed: bool,
    text: Option<Seq<char>>,
    entries: Seq<(Seq<Seq<char>>, JsonV)>,
) -> Option<Seq<char>> {
    let r = spec_seed_all(prefs_root(text), entries);
    if !existed || r.1 {
        Some(json_text(r.0))
    } else {
        None
    }
}

fn empty_object() -> (r: Json)
    ensures
        jv(r) == JsonV::Object(Seq::<(Seq<char>, JsonV)>::empty()),
{
    let es: Vec<(String, Json)> = Vec::new();
    proof {
        lemma_object_view(es);
        assert(entry_views(es@) =~= Seq::<(Seq<char>, JsonV)>::empty());
    }
    Json::Object(es)
}

fn parse_root(text: &Option<String>) -> (r: Json)
    ensures
        jv(r) == prefs_root(opt_view(*text)),
{
    match text {
        Some(t) => match parse_json(t.as_str()) {
            Some(Json::Object(es)) => Json::Object(es),
            _ => {
                empty_object()
            },
        },
        None => {
            empty_object()
        },
    }
}

/// Fills the missing entries into a preferences file's text, leaving every
/// present key as the user had it. The caller reads the file (`existed`
/// tells whether it was there, `text` what could be read) and writes back
/// what is returned.
pub fn seed_prefs_file(existed: bool, text: &Option<String>, entries: Vec<(Vec<String>, Json)>) -> (r:
    Option<String>)
    ensures
        opt_view(r) == spec_seed_prefs_file(existed, opt_view(*text), entries_view(entries@)),
{
    let mut data = parse_root(text);
    let ghost root = jv(data);
    let ghost all = entries_view(entries@);
    let mut changed = false;
    let n = entries.len();
    let mut rest = entries;
    let mut i: usize = 0;
    assert(all.take(0) =~= Seq::<(Seq<Seq<char>>, JsonV)>::empty());
    while i < n
        invariant
            i <= n,
            n == all.len(),
            entries_view(rest@) == all.skip(i as int),
            (jv(data), changed) == spec_seed_all(root, all.take(i as int)),
        decreases n - i,
    {
        proof {
            assert(all.take(i + 1).drop_last() =~= all.take(i as int));
            assert(all.take(i + 1).last() == all[i as int]);
            assert(entries_view(rest@)[0] == all[i as int]);
        }
        let ghost before = rest@;
        assert(entries_view(rest@).len() == rest@.len());
        let (path, value) = rest.remove(0);
        assert(entries_view(rest@) =~= all.skip(i + 1)) by {
            assert(rest@ =~= before.drop_first());
            assert(entries_view(rest@) =~= entries_view(before).drop_first());
            assert(all.skip(i as int).drop_first() =~= all.skip(i + 1));
        }
        assert(string_views(path@).skip(0) =~= string_views(path@));
        let (next, added) = set_default(data, &path, 0, value);
        data = next;
        changed = changed || added;
        i = i + 1;
    }
    assert(all.take(n as int) =~= all);
    if !existed || changed {
        Some(json_to_string(&data))
    } else {
        None
    }
}

fn path_of(parts: &Vec<&str>) -> (r: Vec<String>)
    ensures
        string_views(r@) == parts@.map_values(|p: &str| p@),
{
    let mut r: Vec<String> = Vec::new();
    let mut i: usize = 0;
    while i < parts.len()
        invariant
            i <= parts@.len(),
            string_views(r@) == parts@.map_values(|p: &str| p@).take(i as int),
        decreases parts@.len() - i,
    {
        let ghost before = r@;
        r.push(String::from_str(parts[i]));
        assert(string_views(r@) =~= string_views(before).push(parts@[i as int]@));
        assert(parts@.map_values(|p: &str| p@).take(i + 1) =~= parts@.map_values(|p: &str| p@).take(
            i as int,
        ).push(parts@[i as int]@));
        i = i + 1;
    }
    assert(parts@.map_values(|p: &str| p@).take(parts@.len() as int) =~= parts@.map_values(
        |p: &str| p@,
    ));
    r
}

/// The keys Brave's `Local State` file is seeded with: no P3A reporting or
/// its notice, no AI chat menu entry or toolbar button.
pub open spec fn spec_local_state_entries() -> Seq<(Seq<Seq<char>>, JsonV)> {
    seq![
        (seq!["brave"@, "p3a"@, "enabled"@], JsonV::Bool(false)),
        (seq!["brave"@, "p3a"@, "notice_acknowledged"@], JsonV::Bool(true)),
        (seq!["brave"@, "ai_chat"@, "context_menu_enabled"@], JsonV::Bool(false)),
        (seq!["brave"@, "ai_chat"@, "show_toolbar_button"@], JsonV::Bool(false)),
    ]
}

/// The keys a profile's `Preferences` file is seeded with: those of `Local
/// State`, and Developer Mode on so that the companion extension loaded from
/// the command line stays enabled.
pub open spec fn spec_preferences_entries() -> Seq<(Seq<Seq<char>>, JsonV)> {
    spec_local_state_entries().push(
        (seq!["extensions"@, "ui"@, "developer_mode"@], JsonV::Bool(true)),
    )
}

pub fn local_state_entries() -> (r: Vec<(Vec<String>, Json)>)
    ensures
        entries_view(r@) == spec_local_state_entries(),
{
    let mut r: Vec<(Vec<String>, Json)> = Vec::new();
    r.push((path_of(&vec!["brave", "p3a", "enabled"]), Json::Bool(false)));
    r.push((path_of(&vec!["brave", "p3a", "notice_acknowledged"]), Json::Bool(true)));
    r.push((path_of(&vec!["brave", "ai_chat", "context_menu_enabled"]), Json::Bool(false)));
    r.push((path_of(&vec!["brave", "ai_chat", "show_toolbar_button"]), Json::Bool(false)));
    proof {
        assert(seq!["brave", "p3a", "enabled"].map_values(|p: &str| p@) =~= seq![
            "brave"@,
            "p3a"@,
            "enabled"@,
        ]);
        assert(seq!["brave", "p3a", "notice_acknowledged"].map_values(|p: &str| p@) =~= seq![
            "brave"@,
            "p3a"@,
            "notice_acknowledged"@,
        ]);
        assert(seq!["brave", "ai_chat", "context_menu_enabled"].map_values(|p: &str| p@) =~= seq![
            "brave"@,
            "ai_chat"@,
            "context_menu_enabled"@,
        ]);
        assert(seq!["brave", "ai_chat", "show_toolbar_button"].map_values(|p: &str| p@) =~= seq![
            "brave"@,
            "ai_chat"@,
            "show_toolbar_button"@,
        ]);
        assert(entries_view(r@) =~= spec_local_state_entries());
    }
    r
}

pub fn preferences_entries() -> (r: Vec<(Vec<String>, Json)>)
    ensures
        entries_view(r@) == spec_preferences_entries(),
{
    let mut r = local_state_entries();
    let ghost before = r@;
    r.push((path_of(&vec!["extensions", "ui", "developer_mode"]), Json::Bool(true)));
    proof {
        assert(seq!["extensions", "ui", "developer_mode"].map_values(|p: &str| p@) =~= seq![
            "extensions"@,
            "ui"@,
            "developer_mode"@,
        ]);
        assert(entries_view(r@) =~= entries_view(before).push(
            (seq!["extensions"@, "ui"@, "developer_mode"@], JsonV::Bool(true)),
        ));
    }
    r
}

/// Chromium's `last_modified` clock: microseconds since 1601-01-01.
pub open spec fn chromium_micros(now: Timestamp) -> nat {
    let since_unix: nat = if now.secs < 0 {
        0
    } else {
        (now.secs * 1_000_000 + now.nanos / 1000) as nat
    };
    since_unix + 11_644_473_600_000_000
}

pub fn chromium_timestamp(now: Timestamp) -> (r: String)
    ensures
        r@ == crate::text::decimal(chromium_micros(now)),
{
    let since_unix: u128 = if now.secs < 0 {
        0
    } else {
        (now.secs as u128) * 1_000_000 + (now.nanos as u128) / 1000
    };
    chars_string(&crate::text::u128_decimal(since_unix + 11_644_473_600_000_000))
}

/// The domains Shields runs aggressively on.
pub open spec fn shield_domains() -> Seq<Seq<char>> {
    seq![
        "youtube.com"@,
        "www.youtube.com"@,
        "m.youtube.com"@,
        "music.youtube.com"@,
        "youtu.be"@,
        "youtube-nocookie.com"@,
    ]
}

/// The per-site Shields settings that make up aggressive mode.
pub open spec fn shield_keys() -> Seq<Seq<char>> {
    seq!["braveShields"@, "shieldsAds"@, "trackers"@, "cosmeticFilteringV2"@]
}

/// A Shields exception: Shields on, aggressive ad and tracker blocking, and
/// aggressive cosmetic filtering, stamped with `last_modified`.
pub open spec fn shield_value(key: Seq<char>, stamp: Seq<char>) -> JsonV {
    let setting = if key == "braveShields"@ {
        int_v(1)
    } else if key == "cosmeticFilteringV2"@ {
        JsonV::Object(seq![("cosmeticFilteringV2"@, int_v(1))])
    } else {
        int_v(2)
    };
    JsonV::Object(seq![("last_modified"@, JsonV::Str(stamp)), ("setting"@, setting)])
}

/// Every Shields exception for every YouTube domain, key by key.
pub open spec fn spec_shields_entries(stamp: Seq<char>) -> Seq<(Seq<Seq<char>>, JsonV)> {
    Seq::new(
        24,
        |i: int|
            (
                seq![
                    "profile"@,
                    "content_settings"@,
                    "exceptions"@,
                    shield_keys()[i / 6],
                    shield_domains()[i % 6] + ",*"@,
                ],
                shield_value(shield_keys()[i / 6], stamp),
            ),
    )
}

fn shield_setting(key: &str, stamp: &String) -> (r: Json)
    ensures
        jv(r) == shield_value(key@, stamp@),
{
    let k = str_chars(key);
    let setting = if crate::text::chars_eq(&k, &str_chars("braveShields")) {
        json_int(1)
    } else if crate::text::chars_eq(&k, &str_chars("cosmeticFilteringV2")) {
        let mut inner: Vec<(String, Json)> = Vec::new();
        inner.push((String::from_str("cosmeticFilteringV2"), json_int(1)));
        proof {
            lemma_object_view(inner);
            assert(entry_views(inner@) =~= seq![("cosmeticFilteringV2"@, int_v(1))]);
        }
        Json::Object(inner)
    } else {
        json_int(2)
    };
    let mut outer: Vec<(String, Json)> = Vec::new();
    outer.push((String::from_str("last_modified"), Json::Str(stamp.clone())));
    outer.push((String::from_str("setting"), setting));
    proof {
        lemma_object_view(outer);
        assert(entry_views(outer@) =~= seq![
            ("last_modified"@, JsonV::Str(stamp@)),
            ("setting"@, jv(outer@[1].1)),
        ]);
    }
    Json::Object(outer)
}

/// The Shields exceptions to seed, stamped with `stamp`.
pub fn shields_entries(stamp: &String) -> (r: Vec<(Vec<String>, Json)>)
    ensures
        entries_view(r@) == spec_shields_entries(stamp@),
{
    let keys = vec!["braveShields", "shieldsAds", "trackers", "cosmeticFilteringV2"];
    let domains = vec![
        "youtube.com",
        "www.youtube.com",
        "m.youtube.com",
        "music.youtube.com",
        "youtu.be",
        "youtube-nocookie.com",
    ];
    assert(keys@.map_values(|p: &str| p@) =~= shield_keys());
    assert(domains@.map_values(|p: &str| p@) =~= shield_domains());
    let ghost want = spec_shields_entries(stamp@);
    let mut r: Vec<(Vec<String>, Json)> = Vec::new();
    let mut k: usize = 0;
    while k < 4
        invariant
            k <= 4,
            keys@.len() == 4,
            domains@.len() == 6,
            keys@.map_values(|p: &str| p@) == shield_keys(),
            domains@.map_values(|p: &str| p@) == shield_domains(),
            want == spec_shields_entries(stamp@),
            entries_view(r@) == want.take(6 * k),
        decreases 4 - k,
    {
        let mut d: usize = 0;
        while d < 6
            invariant
                k < 4,
                d <= 6,
                keys@.len() == 4,
                domains@.len() == 6,
                keys@.map_values(|p: &str| p@) == shield_keys(),
                domains@.map_values(|p: &str| p@) == shield_domains(),
                want == spec_shields_entries(stamp@),
                entries_view(r@) == want.take(6 * k + d),
            decreases 6 - d,
        {
            let mut pattern = String::from_str(domains[d]);
            pattern.append(",*");
            let mut path: Vec<String> = Vec::new();
            path.push(String::from_str("profile"));
            path.push(String::from_str("content_settings"));
            path.push(String::from_str("exceptions"));
            path.push(String::from_str(keys[k]));
            path.push(pattern);
            let value = shield_setting(keys[k], stamp);
            let ghost before = r@;
            r.push((path, value));
            proof {
                let idx = 6 * k + d;
                assert(idx / 6 == k as int);
                assert(idx % 6 == d as int);
                assert(keys@[k as int]@ == shield_keys()[k as int]);
                assert(domains@[d as int]@ == shield_domains()[d as int]);
                assert(string_views(path@) =~= want[idx].0);
                assert(entries_view(r@) =~= entries_view(before).push(want[idx]));
                assert(want.take(idx + 1) =~= want.take(idx).push(want[idx]));
            }
            d = d + 1;
        }
        k = k + 1;
    }
    assert(want.take(24) =~= want);
    r
}

/// A rule line worth seeding: not blank, not a `!` comment, not a `[` header.
pub open spec fn seedable(t: Seq<char>) -> bool {
    t.len() > 0 && t[0] != '!' && t[0] != '['
}

/// The trimmed rule lines of the built-in filter list.
pub open spec fn spec_wanted_filters(rules: Seq<char>) -> Seq<Seq<char>> {
    lines(rules).map_values(|l: Seq<char>| trim(l)).filter(|t: Seq<char>| seedable(t))
}

/// The trimmed, non-blank lines of a text.
pub open spec fn clean_lines(text: Seq<char>) -> Seq<Seq<char>> {
    lines(text).map_values(|l: Seq<char>| trim(l)).filter(|t: Seq<char>| t.len() > 0)
}

fn trimmed_lines_where(text: &str, rules_only: bool) -> (r: Vec<String>)
    ensures
        string_views(r@) == if rules_only {
            spec_wanted_filters(text@)
        } else {
            clean_lines(text@)
        },
{
    let ls = lines_chars(&str_chars(text));
    let ghost t = lines(text@).map_values(|l: Seq<char>| trim(l));
    let ghost p = if rules_only {
        |x: Seq<char>| seedable(x)
    } else {
        |x: Seq<char>| x.len() > 0
    };
    let mut r: Vec<String> = Vec::new();
    let mut i: usize = 0;
    assert(t.take(0).filter(p) =~= Seq::<Seq<char>>::empty()) by {
        reveal(Seq::filter);
    }
    while i < ls.len()
        invariant
            i <= ls@.len(),
            views(ls@) == lines(text@),
            t == lines(text@).map_values(|l: Seq<char>| trim(l)),
            p == if rules_only {
                |x: Seq<char>| seedable(x)
            } else {
                |x: Seq<char>| x.len() > 0
            },
            string_views(r@) == t.take(i as int).filter(p),
        decreases ls@.len() - i,
    {
        let line = trim_chars(&ls[i]);
        proof {
            assert(t[i as int] == line@);
            assert(t.take(i + 1) =~= t.take(i as int).push(t[i as int]));
            t.take(i as int).lemma_filter_push(t[i as int], p);
        }
        let keep = if rules_only {
            line.len() > 0 && line[0] != '!' && line[0] != '['
        } else {
            line.len() > 0
        };
        if keep {
            let ghost before = r@;
            r.push(chars_string(&line));
            assert(string_views(r@) =~= string_views(before).push(line@));
        }
        i = i + 1;
    }
    assert(t.take(ls@.len() as int) =~= t);
    r
}

/// The rules of the built-in filter list that are seeded as Brave custom filters.
pub fn wanted_filters(default_rules: &str) -> (r: Vec<String>)
    ensures
        string_views(r@) == spec_wanted_filters(default_rules@),
{
    trimmed_lines_where(default_rules, true)
}

/// Texts joined by line breaks.
pub open spec fn newline_joined(s: Seq<Seq<char>>) -> Seq<char>
    decreases s.len(),
{
    if s.len() == 0 {
        Seq::<char>::empty()
    } else if s.len() == 1 {
        s[0]
    } else {
        newline_joined(s.drop_last()) + "\n"@ + s.last()
    }
}

pub open spec fn or_null(o: Option<JsonV>) -> JsonV {
    match o {
        Some(v) => v,
        None => JsonV::Null,
    }
}

/// What merging the built-in rules into `brave.ad_block.custom_filters`
/// writes: the user's lines (trimmed, blank ones dropped) followed by every
/// missing rule, one per line; nothing when the file existed and no rule was
/// missing.
pub open spec fn spec_seed_custom_filters(
    existed: bool,
    text: Option<Seq<char>>,
    wanted: Seq<Seq<char>>,
) -> Option<Seq<char>> {
    let root = members(prefs_root(text));
    let brave = members(or_null(lookup(root, "brave"@)));
    let ad_block = members(or_null(lookup(brave, "ad_block"@)));
    let slot = lookup(ad_block, "custom_filters"@);
    let existing = match slot {
        Some(JsonV::Str(s)) => s,
        _ => Seq::<char>::empty(),
    };
    let have = clean_lines(existing);
    let merged = crate::settings::backfill(have, wanted);
    let changed = !existed || merged.len() > have.len();
    let new_slot = if changed {
        JsonV::Str(newline_joined(merged) + "\n"@)
    } else {
        match slot {
            Some(v) => v,
            None => JsonV::Str(Seq::<char>::empty()),
        }
    };
    let new_ad = crate::json::with_member(ad_block, "custom_filters"@, new_slot);
    let new_brave = crate::json::with_member(brave, "ad_block"@, JsonV::Object(new_ad));
    let new_root = crate::json::with_member(root, "brave"@, JsonV::Object(new_brave));
    if changed {
        Some(json_text(JsonV::Object(new_root)))
    } else {
        None
    }
}

proof fn lemma_backfill_grows(urls: Seq<Seq<char>>, defaults: Seq<Seq<char>>)
    ensures
        crate::settings::backfill(urls, defaults).len() >= urls.len(),
    decreases defaults.len(),
{
    if defaults.len() > 0 {
        lemma_backfill_grows(urls, defaults.drop_last());
    }
}

fn merge_lines(have: Vec<String>, wanted: &Vec<String>) -> (r: Vec<String>)
    ensures
        string_views(r@) == crate::settings::backfill(string_views(have@), string_views(wanted@)),
{
    let mut lines = have;
    let ghost start = string_views(lines@);
    let ghost w = string_views(wanted@);
    let mut i: usize = 0;
    assert(w.take(0) =~= Seq::<Seq<char>>::empty());
    while i < wanted.len()
        invariant
            i <= wanted@.len(),
            w == string_views(wanted@),
            string_views(lines@) == crate::settings::backfill(start, w.take(i as int)),
        decreases wanted@.len() - i,
    {
        proof {
            assert(w.take(i + 1).drop_last() =~= w.take(i as int));
            assert(w.take(i + 1).last() == wanted@[i as int]@);
        }
        let target = str_chars(wanted[i].as_str());
        let mut j: usize = 0;
        let mut found = false;
        while j < lines.len()
            invariant
                j <= lines@.len(),
                target@ == wanted@[i as int]@,
                found == exists|k: int| 0 <= k < j && (#[trigger] lines@[k])@ == target@,
            decreases lines@.len() - j,
        {
            if crate::text::chars_eq(&str_chars(lines[j].as_str()), &target) {
                found = true;
            }
            j = j + 1;
        }
        proof {
            if found {
                let k = choose|k: int| 0 <= k < j && (#[trigger] lines@[k])@ == target@;
                assert(string_views(lines@)[k] == target@);
            } else {
                assert forall|k: int| 0 <= k < string_views(lines@).len() implies string_views(
                    lines@,
                )[k] != target@ by {
                    assert(string_views(lines@)[k] == lines@[k]@);
                }
            }
        }
        if !found {
            let ghost before = lines@;
            lines.push(wanted[i].clone());
            assert(string_views(lines@) =~= string_views(before).push(wanted@[i as int]@));
        }
        i = i + 1;
    }
    assert(w.take(wanted@.len() as int) =~= w);
    lines
}

fn join_lines(v: &Vec<String>) -> (r: String)
    ensures
        r@ == newline_joined(string_views(v@)),
{
    let mut out = String::new();
    let ghost sv = string_views(v@);
    let mut i: usize = 0;
    assert(sv.take(0) =~= Seq::<Seq<char>>::empty());
    while i < v.len()
        invariant
            i <= v@.len(),
            sv == string_views(v@),
            out@ == newline_joined(sv.take(i as int)),
        decreases v@.len() - i,
    {
        proof {
            assert(sv.take(i + 1).drop_last() =~= sv.take(i as int));
            assert(sv.take(i + 1).last() == v@[i as int]@);
            if i == 0 {
                assert(sv.take(1) =~= seq![v@[0]@]);
            }
        }
        if i > 0 {
            out.append("\n");
        }
        out.append(v[i].as_str());
        i = i + 1;
    }
    assert(sv.take(v@.len() as int) =~= sv);
    out
}

/// Merges the built-in rules into Brave's custom filters in a `Local State`
/// text: the user's lines stay, in order, and only missing rules are added.
/// The caller reads the file and writes back what is returned.
pub fn seed_custom_filters(existed: bool, text: &Option<String>, wanted: &Vec<String>) -> (r:
    Option<String>)
    ensures
        opt_view(r) == spec_seed_custom_filters(existed, opt_view(*text), string_views(wanted@)),
{
    let mut root = into_members(parse_root(text));
    let ghost root0 = entry_views(root@);
    let brave_taken = crate::json::take_member(&mut root, "brave");
    let (brave_at, brave_value) = match brave_taken {
        Some((i, v)) => (Some(i), v),
        None => (None, Json::Null),
    };
    let mut brave = into_members(brave_value);
    let ghost brave0 = entry_views(brave@);
    let ad_taken = crate::json::take_member(&mut brave, "ad_block");
    let (ad_at, ad_value) = match ad_taken {
        Some((i, v)) => (Some(i), v),
        None => (None, Json::Null),
    };
    let mut ad_block = into_members(ad_value);
    let ghost ad0 = entry_views(ad_block@);
    let slot_taken = crate::json::take_member(&mut ad_block, "custom_filters");
    let (slot_at, slot) = match slot_taken {
        Some((i, v)) => (Some(i), v),
        None => (None, Json::Str(String::new())),
    };
    let existing = match &slot {
        Json::Str(s) => s.clone(),
        _ => String::new(),
    };
    let have = trimmed_lines_where(existing.as_str(), false);
    let have_len = have.len();
    let merged = merge_lines(have, wanted);
    proof {
        lemma_backfill_grows(clean_lines(existing@), string_views(wanted@));
        crate::json::lemma_find_key(root0, "brave"@);
        crate::json::lemma_find_key(brave0, "ad_block"@);
        crate::json::lemma_find_key(ad0, "custom_filters"@);
        crate::json::lemma_take_put(ad0, "custom_filters"@, jv(slot));
    }
    let changed = !existed || merged.len() > have_len;
    if !changed {
        return None;
    }
    let mut text_value = join_lines(&merged);
    text_value.append("\n");
    let new_slot = Json::Str(text_value);
    proof {
        crate::json::lemma_take_put(ad0, "custom_filters"@, jv(new_slot));
    }
    crate::json::put_member(&mut ad_block, slot_at, "custom_filters", new_slot);
    let ghost ad_after = entry_views(ad_block@);
    proof {
        lemma_object_view(ad_block);
        crate::json::lemma_take_put(brave0, "ad_block"@, JsonV::Object(ad_after));
    }
    crate::json::put_member(&mut brave, ad_at, "ad_block", Json::Object(ad_block));
    let ghost brave_after = entry_views(brave@);
    proof {
        lemma_object_view(brave);
        crate::json::lemma_take_put(root0, "brave"@, JsonV::Object(brave_after));
    }
    crate::json::put_member(&mut root, brave_at, "brave", Json::Object(brave));
    let out = Json::Object(root);
    proof {
        lemma_object_view(root);
    }
    Some(json_to_string(&out))
}

/// The command line Brave is started with: app mode on `url`, Yood's own
/// profile, no first-run, sync, crash reporting, telemetry, wallet, VPN, AI
/// or translation, at most four renderer processes, no notifications or
/// permission prompts; the window class on Linux, and the companion
/// extension where it was found.
pub open spec fn spec_brave_args(
    url: Seq<char>,
    profile: Seq<char>,
    linux: bool,
    extension: Option<Seq<char>>,
) -> Seq<Seq<char>> {
    let base = seq![
        "--app="@ + url,
        "--user-data-dir="@ + profile,
        "--no-first-run"@,
        "--no-default-browser-check"@,
        "--disable-sync"@,
        "--disable-breakpad"@,
        "--no-report-upload"@,
        "--disable-domain-reliability"@,
        "--disable-features=BraveWallet,BraveVPN,AIChat,Translate,DialMediaRouteProvider"@,
        "--renderer-process-limit=4"@,
        "--disable-notifications"@,
        "--deny-permission-prompts"@,
    ];
    let with_class = if linux {
        base.push("--class=yood"@)
    } else {
        base
    };
    match extension {
        Some(e) => with_class.push("--load-extension="@ + e),
        None => with_class,
    }
}

fn prefixed(prefix: &str, value: &str) -> (r: String)
    ensures
        r@ == prefix@ + value@,
{
    let mut r = String::from_str(prefix);
    r.append(value);
    r
}

pub fn brave_args(url: &str, profile: &str, linux: bool, extension: &Option<String>) -> (r: Vec<
    String,
>)
    ensures
        string_views(r@) == spec_brave_args(url@, profile@, linux, opt_view(*extension)),
{
    let mut r: Vec<String> = Vec::new();
    r.push(prefixed("--app=", url));
    r.push(prefixed("--user-data-dir=", profile));
    r.push(String::from_str("--no-first-run"));
    r.push(String::from_str("--no-default-browser-check"));
    r.push(String::from_str("--disable-sync"));
    r.push(String::from_str("--disable-breakpad"));
    r.push(String::from_str("--no-report-upload"));
    r.push(String::from_str("--disable-domain-reliability"));
    r.push(
        String::from_str(
            "--disable-features=BraveWallet,BraveVPN,AIChat,Translate,DialMediaRouteProvider",
        ),
    );
    r.push(String::from_str("--renderer-process-limit=4"));
    r.push(String::from_str("--disable-notifications"));
    r.push(String::from_str("--deny-permission-prompts"));
    if linux {
        r.push(String::from_str("--class=yood"));
    }
    match extension {
        Some(e) => r.push(prefixed("--load-extension=", e.as_str())),
        None => {},
    }
    assert(string_views(r@) =~= spec_brave_args(url@, profile@, linux, opt_view(*extension)));
    r
}

/// The page Brave opens: the one named on the command line, else YouTube's home page.
pub fn launch_url(startup: Option<String>) -> (r: String)
    ensures
        r@ == match startup {
            Some(u) => u@,
            None => "https://www.youtube.com"@,
        },
{
    match startup {
        Some(u) => u,
        None => String::from_str("https://www.youtube.com"),
    }
}

/// Brave's profile directory inside the application's data directory.
pub fn profile_dir(data_dir: &str) -> (r: String)
    ensures
        r@ == join(data_dir@, "brave-profile"@),
{
    join_path(data_dir, "brave-profile")
}

/// Whether Brave's exit must wait for downloads: any queued, running or paused one.
pub fn has_active_downloads(downloads: &DownloadQueue) -> (r: bool)
    ensures
        r == crate::queue::has_active(downloads@),
{
    downloads.has_active_downloads()
}

} // verus!
