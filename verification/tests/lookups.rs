use cosmic_ext_niri_windows::desktop::{
    after_last_dot_of, classify_lowered, desktop_names_with, wm_class_equals,
    application_dirs, classify_desktop_file, desktop_entry_icon, desktop_entry_name, desktop_search_names, join_path,
    wm_class_matches, desktop_probes, DesktopCandidate, DesktopProbe,
};
use cosmic_ext_niri_windows::icons::{
    application_fallback_icon, icon_names_with, icon_probes, ICON_SEARCH_DEPTH, icon_search_dirs, IconDir, IconProbe, icon_source, icon_start, icon_target_names, strip_file_scheme, DirEntryInfo, DirSearch, IconSource,
    IconStart,
};
use cosmic_ext_niri_windows::pinned::{encode_pinned, parse_pinned};
use cosmic_ext_niri_windows::socket::{pick_niri_socket, SocketCandidate};
use cosmic_ext_niri_windows::text::eq_ignore_ascii_case;

const ENTRY: &str = "[Desktop Entry]\nType=Application\nName=Web Browser\nName[de]=Webbrowser\nIcon=firefox\nStartupWMClass=Firefox\n";

#[test]
fn join_follows_pathbuf() {
    assert_eq!(join_path("/home/u/.local/share", "icons"), "/home/u/.local/share/icons");
    assert_eq!(join_path("/home/u/", "icons"), "/home/u/icons");
    assert_eq!(join_path("", "icons"), "icons");
    assert_eq!(join_path("/a", "/b.desktop"), "/b.desktop");
    for (d, n) in [("/x/y", "z"), ("/x/", "z/w"), ("rel", "q")] {
        assert_eq!(join_path(d, n), std::path::Path::new(d).join(n).to_string_lossy());
    }
}

#[test]
fn application_dir_order() {
    assert_eq!(
        application_dirs(Some("/d")),
        vec![
            "/usr/share/applications",
            "/usr/local/share/applications",
            "/d/applications",
            "/d/flatpak/exports/share/applications",
            "/var/lib/flatpak/exports/share/applications"
        ]
    );
    assert_eq!(application_dirs(None).len(), 3);
}

#[test]
fn search_names_for_reverse_domain_id() {
    assert_eq!(
        desktop_search_names("org.Gnome.Nautilus"),
        vec!["org.Gnome.Nautilus.desktop", "org.gnome.nautilus.desktop", "Nautilus.desktop", "nautilus.desktop"]
    );
    assert_eq!(desktop_search_names("Kitty"), vec!["Kitty.desktop", "kitty.desktop"]);
    assert_eq!(desktop_search_names("trailing."), vec!["trailing..desktop", "trailing..desktop", ".desktop", ".desktop"]);
}

#[test]
fn desktop_file_classification() {
    assert!(matches!(classify_desktop_file("README", "kitty"), DesktopCandidate::NotDesktop));
    assert!(matches!(classify_desktop_file("Kitty-Terminal.DESKTOP", "KITTY"), DesktopCandidate::NameMatch));
    assert!(matches!(classify_desktop_file("org.example.Kitty.desktop", "kitty"), DesktopCandidate::NameMatch));
    assert!(matches!(classify_desktop_file("terminal.desktop", "kitty"), DesktopCandidate::CheckWmClass));
}

#[test]
fn desktop_entry_values() {
    let path = "/usr/share/applications/firefox.desktop";
    assert_eq!(desktop_entry_name(path, ENTRY), Some("Web Browser".to_string()));
    assert_eq!(desktop_entry_icon(path, ENTRY), Some("firefox".to_string()));
    assert!(wm_class_matches(path, ENTRY, "FireFox"));
    assert!(!wm_class_matches(path, ENTRY, "firefox-esr"));
    assert_eq!(desktop_entry_name(path, "[Other]\nName=x\n"), None);
}

#[test]
fn ascii_case_and_lowercase() {
    assert!(eq_ignore_ascii_case("FireFox", "firefox"));
    assert!(!eq_ignore_ascii_case("Ä", "ä"));
    assert_eq!(desktop_search_names("ÄbC")[1], "äbc.desktop");
}

#[test]
fn icon_names_and_dirs() {
    assert_eq!(
        icon_target_names("Gimp"),
        vec!["Gimp.png", "Gimp.svg", "Gimp.xpm", "gimp.png", "gimp.svg", "gimp.xpm"]
    );
    let dirs = icon_search_dirs(Some("/d"), None);
    let v: Vec<(&str, bool)> = dirs.iter().map(|d| (d.path.as_str(), d.recurse)).collect();
    assert_eq!(
        v,
        vec![
            ("/d/icons", true),
            ("/usr/share/icons", true),
            ("/usr/share/pixmaps", false),
            ("/usr/local/share/icons", true),
            ("/usr/local/share/pixmaps", false)
        ]
    );
    assert_eq!(icon_search_dirs(None, Some("/h"))[0].path, "/h/.icons");
}

#[test]
fn file_scheme_is_stripped() {
    assert_eq!(strip_file_scheme("file:///usr/share/icons/a.png"), "/usr/share/icons/a.png");
    assert_eq!(strip_file_scheme("file://file://x"), "x");
    assert_eq!(strip_file_scheme("firefox"), "firefox");
    assert_eq!(strip_file_scheme("file:/"), "file:/");
    assert!(matches!(icon_source("/a.png".to_string(), false), IconSource::File(p) if p == "/a.png"));
    assert!(matches!(icon_source("a.png".to_string(), true), IconSource::File(_)));
    assert!(matches!(icon_source("firefox".to_string(), false), IconSource::Named(n) if n == "firefox"));
}

#[test]
fn icon_start_cases() {
    assert!(matches!(icon_start("", false), IconStart::NoIcon));
    assert!(matches!(icon_start("/x.png", true), IconStart::Direct(p) if p == "/x.png"));
    assert!(matches!(icon_start("/x.png", false), IconStart::Search));
    assert!(matches!(icon_start("x", true), IconStart::Search));
}

fn entry(path: &str, name: &str, dir: bool) -> DirEntryInfo {
    DirEntryInfo { path: path.to_string(), name: Some(name.to_string()), is_dir: dir, is_file: !dir }
}

#[test]
fn dir_search_is_depth_first() {
    let targets = vec!["a.png".to_string()];
    let mut s = DirSearch::new("/r".to_string(), targets, 5);
    let (d, depth) = s.next_dir().unwrap();
    assert_eq!((d.as_str(), depth), ("/r", 0));
    let found = s.visit(
        0,
        vec![entry("/r/hicolor", "hicolor", true), entry("/r/x", "x", true), entry("/r/y", "y", true), entry("/r/b.png", "b.png", false)],
    );
    assert_eq!(found, None);
    let (d, depth) = s.next_dir().unwrap();
    assert_eq!((d.as_str(), depth), ("/r/x", 1));
    assert_eq!(s.visit(1, vec![entry("/r/x/z", "z", true)]), None);
    let (d, _) = s.next_dir().unwrap();
    assert_eq!(d, "/r/x/z");
    assert_eq!(s.visit(2, vec![]), None);
    let (d, _) = s.next_dir().unwrap();
    assert_eq!(d, "/r/y");
    assert_eq!(s.visit(1, vec![entry("/r/y/q", "q", true), entry("/r/y/a.png", "a.png", false)]), Some("/r/y/a.png".to_string()));
}

#[test]
fn dir_search_respects_depth_limit() {
    let mut s = DirSearch::new("/r".to_string(), vec!["a.png".to_string()], 0);
    s.next_dir();
    assert_eq!(s.visit(0, vec![entry("/r/x", "x", true)]), None);
    assert!(s.next_dir().is_none());
}

#[test]
fn pinned_file_round_trip() {
    assert_eq!(parse_pinned("[\"firefox\",\"org.gnome.Nautilus\"]"), vec!["firefox", "org.gnome.Nautilus"]);
    assert_eq!(parse_pinned("not json"), Vec::<String>::new());
    assert_eq!(parse_pinned("{\"a\": 1}"), Vec::<String>::new());
    let text = encode_pinned(&vec!["a\"b".to_string(), "c".to_string()]).unwrap();
    assert_eq!(text, "[\"a\\\"b\",\"c\"]");
    assert_eq!(parse_pinned(&text), vec!["a\"b", "c"]);
}

fn cand(name: &str, t: Option<i128>) -> SocketCandidate {
    SocketCandidate { path: format!("/run/{name}"), file_name: Some(name.to_string()), modified: t }
}

#[test]
fn newest_socket_is_chosen() {
    let cands = vec![
        cand("niri.wayland-1.sock", Some(10)),
        cand("wayland-1", Some(99)),
        cand("niri.wayland-2.sock", Some(20)),
        cand("niri.wayland-3.sock", Some(20)),
        cand("niri.wayland-4.sock", None),
    ];
    assert_eq!(pick_niri_socket(&cands), Some("/run/niri.wayland-2.sock".to_string()));
    assert_eq!(pick_niri_socket(&vec![cand("x.sock", Some(1))]), None);
}

#[test]
fn name_lists_from_lowered_parts() {
    assert_eq!(desktop_names_with("org.A.B", "x", "y"), vec!["org.A.B.desktop", "x.desktop", "B.desktop", "y.desktop"]);
    assert_eq!(desktop_names_with("Plain", "p", "q"), vec!["Plain.desktop", "p.desktop"]);
    assert_eq!(after_last_dot_of("a.b.c"), "c");
    assert_eq!(after_last_dot_of("abc"), "abc");
    assert_eq!(after_last_dot_of("abc."), "");
    assert_eq!(icon_names_with("A", "b"), vec!["A.png", "A.svg", "A.xpm", "b.png", "b.svg", "b.xpm"]);
}

#[test]
fn lowered_classification_and_wm_class() {
    assert!(matches!(classify_lowered("kitty.desktop", "kitty"), DesktopCandidate::NameMatch));
    assert!(matches!(classify_lowered("Kitty.desktop", "kitty"), DesktopCandidate::CheckWmClass));
    assert!(matches!(classify_lowered("x.desktop.bak", "kitty"), DesktopCandidate::NotDesktop));
    assert!(wm_class_equals(Some("KiTTy".to_string()), "kitty"));
    assert!(!wm_class_equals(Some("kitty2".to_string()), "kitty"));
    assert!(!wm_class_equals(None, "kitty"));
}

fn icon_probe_text(p: &IconProbe) -> String {
    match p {
        IconProbe::File(f) => format!("file {}", f),
        IconProbe::Tree(t) => format!("tree {}", t),
    }
}

#[test]
fn icon_probe_order() {
    let dirs = vec![
        IconDir { path: "/p".to_string(), recurse: false },
        IconDir { path: "/i".to_string(), recurse: true },
    ];
    let targets = vec!["a.svg".to_string(), "a.png".to_string()];
    let probes: Vec<String> = icon_probes(&dirs, &vec![true, true], &targets).iter().map(icon_probe_text).collect();
    assert_eq!(
        probes,
        vec!["file /p/a.svg", "file /p/a.png", "file /i/a.svg", "file /i/a.png", "tree /i/hicolor", "tree /i"]
    );
    let probes: Vec<String> = icon_probes(&dirs, &vec![true, false], &targets).iter().map(icon_probe_text).collect();
    assert_eq!(probes, vec!["file /p/a.svg", "file /p/a.png"]);
    assert!(icon_probes(&Vec::new(), &Vec::new(), &targets).is_empty());
}

#[test]
fn desktop_probe_order() {
    let dirs = vec!["/a".to_string(), "/b/".to_string()];
    let names = vec!["x.desktop".to_string()];
    let probes: Vec<String> = desktop_probes(&dirs, &vec![true, true], &names)
        .iter()
        .map(|p| match p {
            DesktopProbe::File(f) => format!("file {}", f),
            DesktopProbe::Scan(d) => format!("scan {}", d),
        })
        .collect();
    assert_eq!(probes, vec!["file /a/x.desktop", "scan /a", "file /b/x.desktop", "scan /b/"]);
}

#[test]
fn absent_directories_are_not_searched() {
    // an absolute name would bypass the directory, so a missing directory gives nothing
    let dirs = vec!["/no/such/dir".to_string(), "/b".to_string()];
    let names = vec!["/x.desktop".to_string()];
    let probes = desktop_probes(&dirs, &vec![false, true], &names);
    assert_eq!(probes.len(), 2);
    assert!(matches!(&probes[0], DesktopProbe::File(f) if f == "/x.desktop"));
    assert!(matches!(&probes[1], DesktopProbe::Scan(d) if d == "/b"));
    assert!(desktop_probes(&dirs, &vec![false, false], &names).is_empty());
    let icon_dirs = vec![IconDir { path: "/no/such/dir".to_string(), recurse: true }];
    assert!(icon_probes(&icon_dirs, &vec![false], &vec!["/a.png".to_string()]).is_empty());
}

#[test]
fn fallback_icon_choice() {
    let s = |t: &str| Some(t.to_string());
    assert_eq!(application_fallback_icon(s("firefox"), s("/usr/share/icons/firefox.png"), None), s("/usr/share/icons/firefox.png"));
    assert_eq!(application_fallback_icon(s("firefox"), None, s("/ignored")), s("firefox"));
    assert_eq!(application_fallback_icon(None, None, s("/usr/share/pixmaps/kitty.png")), s("/usr/share/pixmaps/kitty.png"));
    assert_eq!(application_fallback_icon(None, None, None), None);
}

#[test]
fn icon_tree_search_depth() {
    assert_eq!(ICON_SEARCH_DEPTH, 5);
    let mut search = DirSearch::for_icon_tree("/usr/share/icons".to_string(), vec!["a.png".to_string()]);
    assert_eq!(search.next_dir(), Some(("/usr/share/icons".to_string(), 0)));
}

#[test]
fn saved_pinned_list_loads_back() {
    let list = vec!["org.gnome.Nautilus".to_string(), "with \"quote\" and \\ and ü".to_string(), String::new()];
    let text = encode_pinned(&list).unwrap();
    assert_eq!(parse_pinned(&text), list);
    assert_eq!(parse_pinned(&encode_pinned(&Vec::new()).unwrap()), Vec::<String>::new());
}
