use vstd::prelude::*;
use crate::text::{contains, lower, str_chars, string_views, to_ascii_lowercase, vec_contains};

verus! {

/// The desktop session Yood runs in, as far as window decorations care.
#[derive(Debug, Clone, Copy, PartialEq, Eq, Structural)]
pub enum DesktopEnvironment {
    Hyprland,
    Niri,
    Plasma,
    Gnome,
    Other,
}

pub open spec fn spec_identifier(d: DesktopEnvironment) -> Seq<char> {
    match d {
        DesktopEnvironment::Hyprland => "hyprland"@,
        DesktopEnvironment::Niri => "niri"@,
        DesktopEnvironment::Plasma => "plasma"@,
        DesktopEnvironment::Gnome => "gnome"@,
        DesktopEnvironment::Other => "other"@,
    }
}

impl DesktopEnvironment {
    /// Lower-case name of the desktop, as reported to the frontend.
    pub fn identifier(self) -> (r: &'static str)
        ensures
            r@ == spec_identifier(self),
    {
        match self {
            DesktopEnvironment::Hyprland => "hyprland",
            DesktopEnvironment::Niri => "niri",
            DesktopEnvironment::Plasma => "plasma",
            DesktopEnvironment::Gnome => "gnome",
            DesktopEnvironment::Other => "other",
        }
    }

    /// Tiling compositors own window movement and close shortcuts, so they
    /// get a window without a client-side title bar.
    pub fn prefers_borderless_window(self) -> (r: bool)
        ensures
            r <==> (self == DesktopEnvironment::Hyprland || self == DesktopEnvironment::Niri),
    {
        match self {
            DesktopEnvironment::Hyprland | DesktopEnvironment::Niri => true,
            _ => false,
        }
    }
}

/// The session variables (`XDG_CURRENT_DESKTOP`, `XDG_SESSION_DESKTOP`,
/// `DESKTOP_SESSION`, those that are set) joined by `:`.
pub open spec fn colon_joined(s: Seq<Seq<char>>) -> Seq<char>
    decreases s.len(),
{
    if s.len() == 0 {
        Seq::<char>::empty()
    } else if s.len() == 1 {
        s[0]
    } else {
        colon_joined(s.drop_last()) + ":"@ + s.last()
    }
}

/// The desktop a session is: a compositor's own socket or signature decides
/// first, else the names in the session variables, in ASCII lower case.
pub open spec fn spec_classify(
    names: Seq<Seq<char>>,
    hyprland_signature: bool,
    niri_socket: bool,
    kde_full_session: bool,
) -> DesktopEnvironment {
    let d = lower(colon_joined(names));
    if hyprland_signature || contains(d, "hyprland"@) {
        DesktopEnvironment::Hyprland
    } else if niri_socket || contains(d, "niri"@) {
        DesktopEnvironment::Niri
    } else if kde_full_session || contains(d, "plasma"@) || contains(d, "kde"@) {
        DesktopEnvironment::Plasma
    } else if contains(d, "gnome"@) {
        DesktopEnvironment::Gnome
    } else {
        DesktopEnvironment::Other
    }
}

/// Tells the desktop apart from what the environment holds: the values of
/// the session variables that are set, and whether `HYPRLAND_INSTANCE_SIGNATURE`,
/// `NIRI_SOCKET` and `KDE_FULL_SESSION` are set.
pub fn classify(
    names: &Vec<String>,
    hyprland_signature: bool,
    niri_socket: bool,
    kde_full_session: bool,
) -> (r: DesktopEnvironment)
    ensures
        r == spec_classify(string_views(names@), hyprland_signature, niri_socket, kde_full_session),
{
    let ghost sv = string_views(names@);
    let mut joined: Vec<char> = Vec::new();
    let mut i: usize = 0;
    assert(sv.take(0) =~= Seq::<Seq<char>>::empty());
    while i < names.len()
        invariant
            i <= names@.len(),
            sv == string_views(names@),
            joined@ == colon_joined(sv.take(i as int)),
        decreases names@.len() - i,
    {
        proof {
            assert(sv.take(i + 1).drop_last() =~= sv.take(i as int));
            assert(sv.take(i + 1).last() == names@[i as int]@);
            if i == 0 {
                assert(sv.take(1) =~= seq![names@[0]@]);
            }
        }
        let ghost before = joined@;
        if i > 0 {
            joined.push(':');
        }
        let part = str_chars(names[i].as_str());
        let mut j: usize = 0;
        let ghost mid = joined@;
        while j < part.len()
            invariant
                j <= part@.len(),
                joined@ == mid + part@.take(j as int),
            decreases part@.len() - j,
        {
            joined.push(part[j]);
            j = j + 1;
            assert(joined@ =~= mid + part@.take(j as int));
        }
        proof {
            assert(part@.take(part@.len() as int) =~= part@);
            reveal_strlit(":");
            if i > 0 {
                assert(mid =~= before + ":"@);
            } else {
                assert(mid =~= before);
            }
            assert(joined@ =~= colon_joined(sv.take(i + 1)));
        }
        i = i + 1;
    }
    assert(sv.take(names@.len() as int) =~= sv);
    let d = to_ascii_lowercase(&joined);
    if hyprland_signature || vec_contains(&d, &str_chars("hyprland")) {
        DesktopEnvironment::Hyprland
    } else if niri_socket || vec_contains(&d, &str_chars("niri")) {
        DesktopEnvironment::Niri
    } else if kde_full_session || vec_contains(&d, &str_chars("plasma")) || vec_contains(
        &d,
        &str_chars("kde"),
    ) {
        DesktopEnvironment::Plasma
    } else if vec_contains(&d, &str_chars("gnome")) {
        DesktopEnvironment::Gnome
    } else {
        DesktopEnvironment::Other
    }
}

} // verus!
