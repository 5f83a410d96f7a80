use lander::access::AxNode;
use lander::apps::{
    application_root_paths, bundle_id_of, bundle_name_of, bundle_prefix_of,
    get_application_from_path, get_application_from_windows_application, get_application_paths,
    get_focused_application, get_icon_icns_path, get_icon_path, get_key_from_plist,
    get_start_menu_app_id, has_plain_extension, is_app_path, is_own_bundle_id,
    search_for_applications, ApplicationIdStore, DirNode, PlistDict, WindowsApplication,
};
use lander::monitor::ActiveAppMonitor;

fn file(path: &str) -> DirNode {
    DirNode { path: String::from(path), is_dir: false, children: Vec::new() }
}

fn dir(path: &str, children: Vec<DirNode>) -> DirNode {
    DirNode { path: String::from(path), is_dir: true, children }
}

fn plist(entries: &[(&str, &str)]) -> PlistDict {
    PlistDict {
        entries: entries
            .iter()
            .map(|(k, v)| (String::from(*k), String::from(*v)))
            .collect(),
    }
}

#[test]
fn search_takes_bundles_and_descends_plain_directories() {
    let tree = dir(
        "/Applications/",
        vec![
            dir("/Applications/Foo.app", vec![file("/Applications/Foo.app/Contents")]),
            dir(
                "/Applications/Utilities",
                vec![dir("/Applications/Utilities/Bar.app", vec![])],
            ),
            dir(
                "/Applications/Odd.framework",
                vec![dir("/Applications/Odd.framework/Hidden.app", vec![])],
            ),
            file("/Applications/notes.txt"),
            file("/Applications/loose.app"),
        ],
    );
    let paths = search_for_applications(&tree);
    assert_eq!(
        paths,
        vec![
            String::from("/Applications/Foo.app"),
            String::from("/Applications/Utilities/Bar.app"),
        ]
    );
}

#[test]
fn search_on_a_bundle_root_returns_it_alone() {
    let tree = dir(
        "/System/Library/CoreServices/Finder.app",
        vec![dir("/System/Library/CoreServices/Finder.app/Inner.app", vec![])],
    );
    assert_eq!(
        search_for_applications(&tree),
        vec![String::from("/System/Library/CoreServices/Finder.app")]
    );
}

#[test]
fn application_paths_concatenate_the_roots() {
    let roots = vec![
        dir("/System/Library/CoreServices/Finder.app", vec![]),
        dir("/Applications/", vec![dir("/Applications/Foo.app", vec![])]),
    ];
    assert_eq!(
        get_application_paths(&roots),
        vec![
            String::from("/System/Library/CoreServices/Finder.app"),
            String::from("/Applications/Foo.app"),
        ]
    );
}

#[test]
fn the_three_search_roots() {
    let roots = application_root_paths();
    assert_eq!(
        roots,
        vec![
            String::from("/System/Library/CoreServices/Finder.app"),
            String::from("/Applications/"),
            String::from("/System/Applications/"),
        ]
    );
}

#[test]
fn app_path_suffix_and_extension_checks() {
    assert!(is_app_path("/Applications/Foo.app"));
    assert!(!is_app_path("/Applications/Foo.appx"));
    assert!(!is_app_path("app"));
    assert!(has_plain_extension("/Applications/Odd.framework"));
    assert!(has_plain_extension("ends.with.dot."));
    assert!(!has_plain_extension("/Applications/Utilities"));
    assert!(!has_plain_extension("lowercaseonly"));
    assert!(!has_plain_extension("/a/b.Framework"));
}

#[test]
fn bundle_names_come_from_the_last_segment() {
    assert_eq!(bundle_name_of("/Applications/Foo.app"), "Foo");
    assert_eq!(
        bundle_name_of("/Applications/Visual Studio Code.app"),
        "Visual Studio Code"
    );
    assert_eq!(bundle_name_of("/a/b/Nested.app.app"), "Nested");
    assert_eq!(bundle_name_of("NoSlash.app"), "NoSlash");
}

#[test]
fn bundle_prefix_truncates_past_the_first_app_marker() {
    assert_eq!(
        bundle_prefix_of("/Applications/Foo.app/Contents/MacOS/Foo").as_deref(),
        Some("/Applications/Foo.app")
    );
    assert_eq!(bundle_prefix_of("/usr/bin/vim"), None);
    assert_eq!(bundle_prefix_of("x.app").as_deref(), Some("x.app"));
}

#[test]
fn plist_lookup_and_identifier() {
    let p = plist(&[
        ("CFBundleIdentifier", "com.example.Foo"),
        ("CFBundleIconFile", "AppIcon.icns"),
    ]);
    assert_eq!(
        get_key_from_plist(&p, &String::from("CFBundleIdentifier")).as_deref(),
        Some("com.example.Foo")
    );
    assert_eq!(get_key_from_plist(&p, &String::from("Missing")), None);
    assert_eq!(bundle_id_of(&p), "com.example.Foo");
    assert_eq!(bundle_id_of(&plist(&[])), "");
}

#[test]
fn icon_paths_are_assembled_from_the_identifier() {
    let p = plist(&[
        ("CFBundleIdentifier", "com.example.Foo"),
        ("CFBundleIconFile", "AppIcon.icns"),
    ]);
    let icons_dir = String::from("/data/icons");
    assert_eq!(get_icon_path(&icons_dir, &p), "/data/icons/com.example.Foo.png");
    assert_eq!(
        get_icon_icns_path(&String::from("/Applications/Foo.app"), &p).as_deref(),
        Some("/Applications/Foo.app/Contents/Resources/AppIcon.icns")
    );
    assert_eq!(
        get_icon_icns_path(&String::from("/Applications/Foo.app"), &plist(&[])),
        None
    );
}

#[test]
fn application_snapshot_from_a_bundle() {
    let p = plist(&[("CFBundleIdentifier", "com.example.Foo")]);
    let app = get_application_from_path(
        &String::from("/Applications/Foo.app"),
        &p,
        &String::from("/data/icons"),
    );
    assert_eq!(app.id, "com.example.Foo");
    assert_eq!(app.name, "Foo");
    assert_eq!(app.icon, "/data/icons/com.example.Foo.png");
    assert_eq!(app.path, "/Applications/Foo.app");
    assert!(app.selected_text.is_none());
    assert!(app.focused_text.is_none());
}

#[test]
fn focused_application_reads_the_tree_and_skips_itself() {
    let focused_leaf = AxNode {
        focused: true,
        role: Some(String::from("AXTextField")),
        selected_text: Some(String::from("picked")),
        value: Some(String::from("typed")),
        children: Vec::new(),
    };
    let tree = AxNode {
        focused: false,
        role: None,
        selected_text: None,
        value: None,
        children: vec![focused_leaf],
    };
    let p = plist(&[("CFBundleIdentifier", "com.example.Foo")]);
    let app = get_focused_application(
        &String::from("/Applications/Foo.app"),
        &p,
        &String::from("/data/icons"),
        &tree,
    )
    .expect("an external application is focused");
    assert_eq!(app.selected_text.as_deref(), Some("picked"));
    assert_eq!(app.focused_text.as_deref(), Some("typed"));

    let own = plist(&[("CFBundleIdentifier", "com.lander.Lander")]);
    assert!(get_focused_application(
        &String::from("/Applications/Lander.app"),
        &own,
        &String::from("/data/icons"),
        &tree,
    )
    .is_none());
    assert!(is_own_bundle_id(&String::from("com.lander.Lander")));
}

#[test]
fn focused_application_with_unfocused_tree_has_absent_texts() {
    // no element of the accessibility tree is focused: the application
    // is still reported, with both texts absent and no error
    let tree = AxNode {
        focused: false,
        role: None,
        selected_text: None,
        value: None,
        children: vec![AxNode {
            focused: false,
            role: Some(String::from("AXTextField")),
            selected_text: Some(String::from("ignored")),
            value: Some(String::from("ignored")),
            children: Vec::new(),
        }],
    };
    let p = plist(&[("CFBundleIdentifier", "com.example.Foo")]);
    let app = get_focused_application(
        &String::from("/Applications/Foo.app"),
        &p,
        &String::from("/data/icons"),
        &tree,
    )
    .expect("the application itself is still reported");
    assert!(app.selected_text.is_none());
    assert!(app.focused_text.is_none());
}

#[test]
fn start_menu_ids_are_decimal_digests() {
    let mut store = ApplicationIdStore::new();
    // the 64-bit digest of empty input with seed 0 is the published test
    // vector 0xef46db3751d8e999
    let id = get_start_menu_app_id("", &mut store);
    assert_eq!(id, format!("{}", 0xef46db3751d8e999u64));

    let id1 = get_start_menu_app_id("C:\\Apps\\One.lnk", &mut store);
    let id2 = get_start_menu_app_id("C:\\Apps\\One.lnk", &mut store);
    let other = get_start_menu_app_id("C:\\Apps\\Two.lnk", &mut store);
    assert_eq!(id1, id2);
    assert_ne!(id1, other);
    assert_eq!(store.lookup(&id1).as_deref(), Some("C:\\Apps\\One.lnk"));
    assert_eq!(store.lookup(&other).as_deref(), Some("C:\\Apps\\Two.lnk"));
    assert_eq!(store.lookup(&String::from("unknown")), None);
}

#[test]
fn decimal_identifiers_match_standard_formatting() {
    assert_eq!(lander::apps::u64_to_decimal(0), "0");
    assert_eq!(lander::apps::u64_to_decimal(7), "7");
    assert_eq!(lander::apps::u64_to_decimal(1234567890), "1234567890");
    assert_eq!(
        lander::apps::u64_to_decimal(u64::MAX),
        format!("{}", u64::MAX)
    );
}

#[test]
fn windows_application_snapshots() {
    let icons_dir = String::from("C:/icons");
    let mut store = ApplicationIdStore::new();
    let uwp = WindowsApplication {
        id: String::from("Package!App"),
        name: String::from("Mail"),
        path: String::from("C:/apps/mail"),
        selected_text: Some(String::from("draft")),
        uwp: true,
    };
    let app = get_application_from_windows_application(&uwp, &icons_dir, &mut store);
    assert_eq!(app.id, "Package!App");
    assert_eq!(app.name, "Mail");
    assert_eq!(app.icon, "C:/icons/Package!App.png");
    assert_eq!(app.selected_text.as_deref(), Some("draft"));
    assert!(app.focused_text.is_none());

    let classic = WindowsApplication {
        id: String::from("ignored-for-icon"),
        name: String::from("Editor"),
        path: String::from("C:\\Start\\Editor.lnk"),
        selected_text: None,
        uwp: false,
    };
    let app = get_application_from_windows_application(&classic, &icons_dir, &mut store);
    let recorded = store
        .lookup(&app.icon["C:/icons/".len()..app.icon.len() - ".png".len()].to_string())
        .expect("the hashed identifier was recorded");
    assert_eq!(recorded, "C:\\Start\\Editor.lnk");
}

#[test]
fn installed_applications_are_sorted_case_insensitively() {
    // byte-wise, "Banana" sorts before "apple"; case-folded, after it
    let entries = vec![
        (
            String::from("/Applications/Banana.app"),
            plist(&[("CFBundleIdentifier", "com.example.banana")]),
        ),
        (
            String::from("/Applications/apple.app"),
            plist(&[("CFBundleIdentifier", "com.example.apple")]),
        ),
        (
            String::from("/Applications/Lander.app"),
            plist(&[("CFBundleIdentifier", "com.lander.Lander")]),
        ),
        (
            String::from("/Applications/Cherry.app"),
            plist(&[("CFBundleIdentifier", "com.example.cherry")]),
        ),
    ];
    let apps = lander::apps::get_installed_applications(&entries, &String::from("/data/icons"));
    let names: Vec<&str> = apps.iter().map(|a| a.name.as_str()).collect();
    // the launcher's own bundle is left out of its catalog
    assert_eq!(names, vec!["apple", "Banana", "Cherry"]);
    assert_eq!(apps[0].id, "com.example.apple");
    assert_eq!(apps[0].icon, "/data/icons/com.example.apple.png");
}

#[test]
fn catalog_order_folds_case() {
    let a = get_application_from_path(
        &String::from("/x/alpha.app"),
        &plist(&[("CFBundleIdentifier", "a")]),
        &String::from("/i"),
    );
    let b = get_application_from_path(
        &String::from("/x/Beta.app"),
        &plist(&[("CFBundleIdentifier", "b")]),
        &String::from("/i"),
    );
    assert!(lander::apps::name_le(&a, &b));
    assert!(!lander::apps::name_le(&b, &a));
}

#[test]
fn monitor_samples_only_while_hidden() {
    // showing the panel must leave the previously recorded frontmost
    // application untouched
    let mut monitor = ActiveAppMonitor::new();
    assert!(monitor.get_focused_application().is_none());

    let p = plist(&[("CFBundleIdentifier", "com.example.Editor")]);
    let editor = get_application_from_path(
        &String::from("/Applications/Editor.app"),
        &p,
        &String::from("/data/icons"),
    );
    monitor.set_focused_application(false, editor);
    assert_eq!(
        monitor.get_focused_application().unwrap().id,
        "com.example.Editor"
    );

    let mut panel = lander::panel::PanelController::new();
    panel.init_panel();
    panel.show_panel();
    assert!(panel.panel_is_visible());

    // a sample taken while the panel is visible is discarded
    let q = plist(&[("CFBundleIdentifier", "com.lander.Lander")]);
    let own = get_application_from_path(
        &String::from("/Applications/Lander.app"),
        &q,
        &String::from("/data/icons"),
    );
    monitor.set_focused_application(panel.panel_is_visible(), own);
    assert_eq!(
        monitor.get_focused_application().unwrap().id,
        "com.example.Editor"
    );
}

#[test]
fn duplicate_names_survive_the_sort() {
    let entries = vec![
        (
            String::from("/a/Twin.app"),
            plist(&[("CFBundleIdentifier", "com.example.one")]),
        ),
        (
            String::from("/b/Twin.app"),
            plist(&[("CFBundleIdentifier", "com.example.two")]),
        ),
    ];
    let apps = lander::apps::get_installed_applications(&entries, &String::from("/i"));
    assert_eq!(apps.len(), 2);
    assert!(apps.iter().all(|a| a.name == "Twin"));
    let mut ids: Vec<&str> = apps.iter().map(|a| a.id.as_str()).collect();
    ids.sort();
    assert_eq!(ids, vec!["com.example.one", "com.example.two"]);
}
