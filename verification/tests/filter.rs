use nanologger::matches_module_filter;

fn list(entries: &[&str]) -> Vec<String> {
    entries.iter().map(|s| s.to_string()).collect()
}

#[test]
fn allow_and_deny_on_service_paths() {
    let allow = list(&["svc::db"]);
    let deny = list(&["svc::db::pool"]);
    assert!(matches_module_filter("svc::db", &allow, &deny));
    assert!(matches_module_filter("svc::db::query", &allow, &deny));
    assert!(!matches_module_filter("svc::db::pool", &allow, &deny));
    assert!(!matches_module_filter("svc::web", &allow, &deny));
}

#[test]
fn empty_lists_admit_everything() {
    assert!(matches_module_filter("any::path", &[], &[]));
    assert!(matches_module_filter("", &[], &[]));
}

#[test]
fn empty_allow_list_leaves_the_deny_list_to_decide() {
    let deny = list(&["noisy", "vendor::chatty"]);
    assert!(!matches_module_filter("noisy", &[], &deny));
    assert!(!matches_module_filter("noisy::inner", &[], &deny));
    assert!(!matches_module_filter("vendor::chatty::x", &[], &deny));
    assert!(matches_module_filter("vendor::quiet", &[], &deny));
    assert!(matches_module_filter("nois", &[], &deny));
}

#[test]
fn empty_deny_list_leaves_the_allow_list_to_decide() {
    let allow = list(&["app", "lib::core"]);
    assert!(matches_module_filter("app", &allow, &[]));
    assert!(matches_module_filter("app::ui", &allow, &[]));
    assert!(matches_module_filter("lib::core::x", &allow, &[]));
    assert!(!matches_module_filter("lib", &allow, &[]));
    assert!(!matches_module_filter("other", &allow, &[]));
}

#[test]
fn deny_wins_over_allow() {
    let both = list(&["app"]);
    assert!(!matches_module_filter("app", &both, &both));
    assert!(!matches_module_filter("app::ui", &both, &both));
}

#[test]
fn prefix_match_is_on_characters_not_segments() {
    let allow = list(&["a"]);
    assert!(matches_module_filter("ab", &allow, &[]));
    assert!(matches_module_filter("a::b", &allow, &[]));
    assert!(!matches_module_filter("ba", &allow, &[]));
    assert!(!matches_module_filter("", &allow, &[]));
    let deny = list(&["caf\u{e9}"]);
    assert!(!matches_module_filter("caf\u{e9}::bar", &[], &deny));
    assert!(matches_module_filter("cafe::bar", &[], &deny));
}

#[test]
fn empty_entry_is_a_prefix_of_every_path() {
    let entry = list(&[""]);
    assert!(matches_module_filter("x", &entry, &[]));
    assert!(!matches_module_filter("x", &[], &entry));
}

#[test]
fn prop_module_filter_correctness() {
    let paths = ["a", "a::b", "a::b::c", "ab", "b", "b::a", "svc::db", "svc::web", "x9::y_1"];
    let lists: Vec<Vec<String>> = vec![
        list(&[]),
        list(&["a"]),
        list(&["a::b"]),
        list(&["b", "svc"]),
        list(&["svc::db", "x9", "a::b::c"]),
        list(&["zz"]),
    ];
    for path in paths {
        for allow in &lists {
            for deny in &lists {
                let result = matches_module_filter(path, allow, deny);
                let pass_allow =
                    allow.is_empty() || allow.iter().any(|a| path.starts_with(a.as_str()));
                let pass_deny = !deny.iter().any(|d| path.starts_with(d.as_str()));
                let expected = pass_allow && pass_deny;
                assert_eq!(
                    result, expected,
                    "path={:?}, allow={:?}, deny={:?}: got {}, expected {}",
                    path, allow, deny, result, expected
                );
            }
        }
    }
}
