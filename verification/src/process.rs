//! Where the external tools (yt-dlp, ffmpeg) are looked for, and how their
//! version output is read.
use vstd::prelude::*;
use crate::error::{AppError, AppErrorKind};
use crate::models::BinaryStatus;
use crate::paths::{join, join_path};
use crate::text::{at_most, at_most_chars, chars_string, str_chars, trim, trim_chars};
use crate::urls::opt_view;

verus! {

/// The platform directory bundled tools are staged in.
pub fn platform_dir() -> (r: &'static str)
    ensures
        r@ == "linux-x86_64"@,
{
    "linux-x86_64"
}

/// Where the application looks for its tools: its data directory and its
/// bundled resources.
#[derive(Debug, Clone)]
pub struct BinaryResolver {
    pub resource_dir: Option<String>,
    pub app_data_dir: Option<String>,
}

/// The places a tool is looked for, in order, each marked as bundled or
/// not: the tools folder of the data directory (directly and by platform),
/// the bundled binaries (directly and by platform), then the copy found on
/// `PATH`.
pub open spec fn spec_tool_candidates(
    resource_dir: Option<Seq<char>>,
    app_data_dir: Option<Seq<char>>,
    name: Seq<char>,
    on_path: Option<Seq<char>>,
) -> Seq<(Seq<char>, bool)> {
    let data = match app_data_dir {
        Some(d) => seq![
            (join(join(d, "tools"@), name), true),
            (join(join(join(d, "tools"@), "linux-x86_64"@), name), true),
        ],
        None => Seq::<(Seq<char>, bool)>::empty(),
    };
    let bundled = match resource_dir {
        Some(r) => seq![
            (join(join(r, "binaries"@), name), true),
            (join(join(join(r, "binaries"@), "linux-x86_64"@), name), true),
        ],
        None => Seq::<(Seq<char>, bool)>::empty(),
    };
    let system = match on_path {
        Some(p) => seq![(p, false)],
        None => Seq::<(Seq<char>, bool)>::empty(),
    };
    data + bundled + system
}

pub open spec fn candidate_views(v: Seq<(String, bool)>) -> Seq<(Seq<char>, bool)> {
    v.map_values(|c: (String, bool)| (c.0@, c.1))
}

impl BinaryResolver {
    pub fn new(resource_dir: Option<String>, app_data_dir: Option<String>) -> (r: BinaryResolver)
        ensures
            r.resource_dir == resource_dir,
            r.app_data_dir == app_data_dir,
    {
        BinaryResolver { resource_dir, app_data_dir }
    }

    /// The places to look for a tool; the caller takes the first that is an
    /// executable regular file, `on_path` being what a `PATH` search found.
    pub fn candidates(&self, name: &str, on_path: Option<String>) -> (r: Vec<(String, bool)>)
        ensures
            candidate_views(r@) == spec_tool_candidates(
                opt_view(self.resource_dir),
                opt_view(self.app_data_dir),
                name@,
                opt_view(on_path),
            ),
    {
        let mut r: Vec<(String, bool)> = Vec::new();
        match &self.app_data_dir {
            Some(d) => {
                let tools = join_path(d.as_str(), "tools");
                r.push((join_path(tools.as_str(), name), true));
                let by_platform = join_path(tools.as_str(), "linux-x86_64");
                r.push((join_path(by_platform.as_str(), name), true));
            },
            None => {},
        }
        match &self.resource_dir {
            Some(d) => {
                let binaries = join_path(d.as_str(), "binaries");
                r.push((join_path(binaries.as_str(), name), true));
                let by_platform = join_path(binaries.as_str(), "linux-x86_64");
                r.push((join_path(by_platform.as_str(), name), true));
            },
            None => {},
        }
        match on_path {
            Some(p) => r.push((p, false)),
            None => {},
        }
        assert(candidate_views(r@) =~= spec_tool_candidates(
            opt_view(self.resource_dir),
            opt_view(self.app_data_dir),
            name@,
            opt_view(on_path),
        ));
        r
    }

    /// Where an updated tool is written: the tools folder of the data directory.
    pub fn writable_path(&self, name: &str) -> (r: Result<String, AppError>)
        ensures
            match self.app_data_dir {
                Some(d) => r matches Ok(p) && p@ == join(join(d@, "tools"@), name@),
                None => r matches Err(e) && e@ == (
                    AppErrorKind::Storage,
                    "platform app-data directory is unavailable"@,
                ),
            },
    {
        match &self.app_data_dir {
            Some(d) => {
                let tools = join_path(d.as_str(), "tools");
                Ok(join_path(tools.as_str(), name))
            },
            None => Err(
                AppError::Storage(String::from_str("platform app-data directory is unavailable")),
            ),
        }
    }
}

/// The error for a tool found nowhere.
pub fn tool_not_found(name: &str) -> (r: AppError)
    ensures
        r@ == (AppErrorKind::NotFound, name@ + " is not bundled or available on PATH"@),
{
    let mut m = String::from_str(name);
    m.append(" is not bundled or available on PATH");
    AppError::NotFound(m)
}

/// What the frontend shows about a tool: where it was found and whether it
/// is bundled, with its version where that could be read.
pub fn binary_status(name: &str, found: Option<(String, bool)>, version: Option<String>) -> (r:
    BinaryStatus)
    ensures
        r.name@ == name@,
        match found {
            Some(f) => r.path == Some(f.0) && r.version == version && r.available && r.bundled
                == f.1,
            None => r.path is None && r.version is None && !r.available && !r.bundled,
        },
{
    match found {
        Some((path, bundled)) => BinaryStatus {
            name: String::from_str(name),
            path: Some(path),
            version,
            available: true,
            bundled,
        },
        None => BinaryStatus {
            name: String::from_str(name),
            path: None,
            version: None,
            available: false,
            bundled: false,
        },
    }
}

/// What `<tool> --version` reports: a failed run names its exit status, an
/// empty answer is an error, and the text is trimmed and cut to 128 characters.
pub open spec fn spec_version_text(
    name: Seq<char>,
    success: bool,
    status: Seq<char>,
    stdout: Seq<char>,
) -> Result<Seq<char>, (AppErrorKind, Seq<char>)> {
    if !success {
        Err((AppErrorKind::Process, name + " returned "@ + status))
    } else if trim(stdout).len() == 0 {
        Err((AppErrorKind::Process, name + " returned no version"@))
    } else {
        Ok(at_most(trim(stdout), 128))
    }
}

pub fn version_text(name: &str, success: bool, status: &str, stdout: &str) -> (r: Result<
    String,
    AppError,
>)
    ensures
        crate::download::string_result_view(r) == spec_version_text(
            name@,
            success,
            status@,
            stdout@,
        ),
{
    if !success {
        let mut m = String::from_str(name);
        m.append(" returned ");
        m.append(status);
        return Err(AppError::Process(m));
    }
    let t = trim_chars(&str_chars(stdout));
    if t.len() == 0 {
        let mut m = String::from_str(name);
        m.append(" returned no version");
        return Err(AppError::Process(m));
    }
    Ok(chars_string(&at_most_chars(&t, 128)))
}

} // verus!
