use charm_linux::control::{eq_ignore_ascii_case, find_pack, RefreshRate};
use charm_linux::pack::PackLoader;

#[test]
fn refresh_rates() {
    assert_eq!(RefreshRate::Fast.as_millis(), 100);
    assert_eq!(RefreshRate::Normal.as_millis(), 250);
    assert_eq!(RefreshRate::Slow.as_millis(), 500);
    assert_eq!(RefreshRate::VerySlow.as_millis(), 1000);
    assert_eq!(RefreshRate::default(), RefreshRate::Normal);
    assert_eq!(RefreshRate::VerySlow.label(), "Very Slow (1s)");
    assert_eq!(RefreshRate::Fast.label(), "Fast (100ms)");
}

#[test]
fn ascii_case_comparison() {
    assert!(eq_ignore_ascii_case("SciFi1", "scifi1"));
    assert!(!eq_ignore_ascii_case("scifi", "scifi1"));
    assert!(!eq_ignore_ascii_case("É", "é"));
    assert!(eq_ignore_ascii_case("", ""));
}

#[test]
fn find_pack_by_name() {
    let loader = PackLoader::new("packs".to_string());
    let packs: Vec<_> = ["default", "SciFi1", "scifi1"]
        .iter()
        .map(|n| loader.load_pack(n, Some(n), "[soundpack]\n", &Vec::new()).unwrap())
        .collect();
    assert_eq!(find_pack(&packs, "SCIFI1"), Some(1));
    assert_eq!(find_pack(&packs, "Default"), Some(0));
    assert_eq!(find_pack(&packs, "missing"), None);
}
