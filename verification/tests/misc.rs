use niri_overview::misc::{
    Clipboard, ClipboardPart, ConfigNotification, ConfigNotificationPart, Flag, HotkeyOverlay,
    HotkeyOverlayPart, MergeWith, ScreenshotPath, XwaylandSatellite, XwaylandSatellitePart,
};

#[test]
fn screenshot_path_default() {
    assert_eq!(
        ScreenshotPath::default().0.as_deref(),
        Some("~/Pictures/Screenshots/Screenshot from %Y-%m-%d %H-%M-%S.png")
    );
}

#[test]
fn flags_override_only_when_given() {
    let mut h = HotkeyOverlay::default();
    h.merge_with(&HotkeyOverlayPart { skip_at_startup: Some(Flag(true)), hide_not_bound: None });
    assert_eq!(h, HotkeyOverlay { skip_at_startup: true, hide_not_bound: false });
    h.merge_with(&HotkeyOverlayPart { skip_at_startup: Some(Flag(false)), hide_not_bound: Some(Flag(true)) });
    assert_eq!(h, HotkeyOverlay { skip_at_startup: false, hide_not_bound: true });

    let mut c = ConfigNotification::default();
    c.merge_with(&ConfigNotificationPart { disable_failed: Some(Flag(true)) });
    assert!(c.disable_failed);
    c.merge_with(&ConfigNotificationPart { disable_failed: None });
    assert!(c.disable_failed);

    let mut p = Clipboard::default();
    p.merge_with(&ClipboardPart { disable_primary: Some(Flag(true)) });
    assert!(p.disable_primary);
}

#[test]
fn xwayland_satellite_merge() {
    let mut x = XwaylandSatellite::default();
    assert_eq!(x.path, "xwayland-satellite");
    x.merge_with(&XwaylandSatellitePart { off: true, on: false, path: Some("/bin/xs".into()) });
    assert!(x.off);
    assert_eq!(x.path, "/bin/xs");
    x.merge_with(&XwaylandSatellitePart { off: false, on: false, path: None });
    assert!(x.off);
    x.merge_with(&XwaylandSatellitePart { off: true, on: true, path: None });
    assert!(!x.off);
    assert_eq!(x.path, "/bin/xs");
}
