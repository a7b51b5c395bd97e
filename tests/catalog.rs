use adb_debloater::catalog::{
    catalog_from_listing, catalog_from_probes, is_critical, known_bloatware_names,
    matches_folded, matches_search, name_le_exec, search, Probe,
};

fn names(ps: &[adb_debloater::catalog::Package]) -> Vec<String> {
    ps.iter().map(|p| p.name.clone()).collect()
}

#[test]
fn critical_exact_membership() {
    assert!(is_critical("com.android.systemui"));
    assert!(!is_critical("com.facebook.katana"));
    assert!(is_critical("com.android.launcher3"));
    assert!(!is_critical("COM.ANDROID.SYSTEMUI"));
    assert!(!is_critical("com.android.system"));
    assert!(!is_critical("com.android.systemui.extra"));
    assert!(!is_critical(""));
}

#[test]
fn bloatware_list_in_order() {
    let names = known_bloatware_names();
    assert_eq!(names.len(), 29);
    assert_eq!(names[0], "com.facebook.katana");
    assert_eq!(names[28], "com.samsung.android.messaging");
}

#[test]
fn name_order_is_code_point_order() {
    let a: Vec<char> = "abc".chars().collect();
    let b: Vec<char> = "abd".chars().collect();
    let p: Vec<char> = "ab".chars().collect();
    let up: Vec<char> = "Zed".chars().collect();
    assert!(name_le_exec(&a, &b));
    assert!(!name_le_exec(&b, &a));
    assert!(name_le_exec(&p, &a));
    assert!(!name_le_exec(&a, &p));
    assert!(name_le_exec(&up, &a));
    assert!(name_le_exec(&a, &a));
}

#[test]
fn listing_sorted_and_fresh() {
    let out = "package:com.zeta\npackage:com.Alpha\npackage:com.alpha\nother\npackage:com.beta\n";
    let ps = catalog_from_listing(out);
    assert_eq!(names(&ps), vec!["com.Alpha", "com.alpha", "com.beta", "com.zeta"]);
    assert!(ps.iter().all(|p| p.is_system && !p.is_selected));
    let mut expected = names(&ps);
    expected.sort();
    assert_eq!(names(&ps), expected);
}

#[test]
fn listing_keeps_duplicates() {
    let ps = catalog_from_listing("package:b\npackage:a\npackage:b\n");
    assert_eq!(names(&ps), vec!["a", "b", "b"]);
}

#[test]
fn probes_dedup_when_probed_twice() {
    let probes = vec![
        Probe { name: "com.spotify.music".to_string(), output: "package:com.spotify.music\n".to_string() },
        Probe { name: "com.facebook.katana".to_string(), output: "".to_string() },
        Probe { name: "com.spotify.music".to_string(), output: "package:com.spotify.music\n".to_string() },
        Probe { name: "com.android.egg".to_string(), output: "package:com.android.egg\n".to_string() },
    ];
    let ps = catalog_from_probes(&probes);
    assert_eq!(names(&ps), vec!["com.android.egg", "com.spotify.music"]);
    assert!(ps.iter().all(|p| p.is_system && !p.is_selected));
}

#[test]
fn probes_empty() {
    assert!(catalog_from_probes(&Vec::new()).is_empty());
}

#[test]
fn search_case_insensitive() {
    assert!(matches_search("com.Spotify.Music", "SPOTIFY"));
    assert!(!matches_search("com.netflix.mediaclient", "spotify"));
    assert!(matches_search("anything", ""));
}

#[test]
fn folded_match_is_plain_substring() {
    assert!(matches_folded("com.spotify.music", "spotify"));
    assert!(!matches_folded("com.spotify.music", "Spotify"));
    assert!(!matches_folded("short", "longer than short"));
}

#[test]
fn search_finds_spotify() {
    let out = "package:com.android.settings\npackage:com.spotify.music\npackage:com.facebook.katana\n";
    let hits = search(out, "spotify");
    assert_eq!(names(&hits), vec!["com.spotify.music"]);
    assert!(hits[0].is_system && !hits[0].is_selected);
}

#[test]
fn search_keeps_listing_order() {
    let out = "package:com.google.b\npackage:org.x\npackage:com.GOOGLE.a\n";
    assert_eq!(names(&search(out, "Google")), vec!["com.google.b", "com.GOOGLE.a"]);
}
