use yood::desktop::{classify, DesktopEnvironment};

#[test]
fn tiling_desktops_request_borderless_windows() {
    assert!(DesktopEnvironment::Hyprland.prefers_borderless_window());
    assert!(DesktopEnvironment::Niri.prefers_borderless_window());
    assert!(!DesktopEnvironment::Plasma.prefers_borderless_window());
    assert!(!DesktopEnvironment::Gnome.prefers_borderless_window());
}

#[test]
fn identifiers_name_each_desktop() {
    assert_eq!(DesktopEnvironment::Hyprland.identifier(), "hyprland");
    assert_eq!(DesktopEnvironment::Niri.identifier(), "niri");
    assert_eq!(DesktopEnvironment::Plasma.identifier(), "plasma");
    assert_eq!(DesktopEnvironment::Gnome.identifier(), "gnome");
    assert_eq!(DesktopEnvironment::Other.identifier(), "other");
}

#[test]
fn classifies_sessions_from_their_variables() {
    let none: Vec<String> = vec![];
    assert_eq!(classify(&none, true, false, false), DesktopEnvironment::Hyprland);
    assert_eq!(classify(&none, false, true, false), DesktopEnvironment::Niri);
    assert_eq!(classify(&none, false, false, true), DesktopEnvironment::Plasma);
    assert_eq!(classify(&none, false, false, false), DesktopEnvironment::Other);
    let kde = vec!["KDE".to_string()];
    assert_eq!(classify(&kde, false, false, false), DesktopEnvironment::Plasma);
    let gnome = vec!["ubuntu:GNOME".to_string(), "ubuntu".to_string()];
    assert_eq!(classify(&gnome, false, false, false), DesktopEnvironment::Gnome);
    let split = vec!["hypr".to_string(), "land".to_string()];
    assert_eq!(classify(&split, false, false, false), DesktopEnvironment::Other);
}
