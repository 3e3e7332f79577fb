use breeze_shell::async_scripts::{
    admit_async_script, admit_loaded_script, group_async_scripts, merge_script_outcome, PendingScript,
    ScriptOutcome,
};
use breeze_shell::geometry::{contains, intersection, intersects, scale_dip, Point, Rect};
use breeze_shell::page_controls::{native_controls_changed, ControlItem};
use breeze_shell::stats::{maximum, percentile, sort_values};
use breeze_shell::text::{json_string, text_eq};

fn script(url: &str, node_id: u128, blocks: bool, has_code: bool) -> PendingScript {
    PendingScript { source_url: url.into(), node_id, blocks_first_paint: blocks, has_code }
}

#[test]
fn async_scripts_group_by_url_in_page_order() {
    let scripts = vec![
        script("a.js", 1, false, false),
        script("b.js", 2, false, false),
        script("a.js", 3, false, false),
        script("c.js", 4, true, false),
        script("d.js", 5, false, true),
    ];
    let requests = group_async_scripts(&scripts);
    let plain = requests.iter().map(|r| (r.source_url.clone(), r.node_ids.clone())).collect::<Vec<_>>();
    assert_eq!(plain, vec![("a.js".to_string(), vec![1, 3]), ("b.js".to_string(), vec![2])]);
}

fn outcome(executed: usize, navigation: Option<&str>, stopped: bool) -> ScriptOutcome {
    ScriptOutcome {
        executed,
        mutation_count: executed * 2,
        errors: vec![format!("error {executed}")],
        console: Vec::new(),
        diagnostics: Vec::new(),
        navigation_url: navigation.map(str::to_string),
        cookie_updates: Vec::new(),
        runtime_stopped: stopped,
        render_requested: false,
    }
}

#[test]
fn script_outcomes_add_up_and_keep_the_last_navigation() {
    let mut total = outcome(1, Some("https://a.test/"), false);
    merge_script_outcome(&mut total, outcome(2, None, true));
    assert_eq!((total.executed, total.mutation_count), (3, 6));
    assert_eq!(total.errors, vec!["error 1".to_string(), "error 2".to_string()]);
    assert_eq!(total.navigation_url.as_deref(), Some("https://a.test/"));
    assert!(total.runtime_stopped);
    merge_script_outcome(&mut total, outcome(0, Some("https://b.test/"), false));
    assert_eq!(total.navigation_url.as_deref(), Some("https://b.test/"));
    assert!(total.runtime_stopped);
}

#[test]
fn fetched_scripts_must_fit_the_page_budget() {
    assert_eq!(admit_async_script("a.js", Ok(10), 25), Ok(15));
    assert_eq!(
        admit_async_script("a.js", Ok(30), 25),
        Err("a.js: async script skipped because the page resource budget was exhausted".to_string())
    );
    assert_eq!(
        admit_async_script("a.js", Err("timed out".into()), 25),
        Err("a.js: async script could not be loaded: timed out".to_string())
    );
    assert_eq!(admit_loaded_script(false, 404, 1, 10), Err("server returned HTTP 404".to_string()));
    assert_eq!(admit_loaded_script(true, 200, 11, 10), Err("page resource budget was exhausted".to_string()));
    assert_eq!(admit_loaded_script(true, 200, 10, 10), Ok(0));
}

#[test]
fn native_controls_compare_in_order_and_ignore_authored_ones() {
    let same = |a: &u32, b: &u32| a / 10 == b / 10;
    let item = |authored: bool, spec: u32| ControlItem { authored_content: authored, spec };
    let old = vec![item(false, 11), item(true, 99), item(false, 20)];
    assert!(!native_controls_changed(&old, &vec![item(false, 12), item(false, 25)], same));
    assert!(native_controls_changed(&old, &vec![item(false, 12), item(false, 35)], same));
    assert!(native_controls_changed(&old, &vec![item(false, 12)], same));
    assert!(!native_controls_changed(&vec![item(true, 1)], &Vec::new(), same));
}

#[test]
fn rectangles_intersect_contain_and_scale() {
    let a = Rect { left: 0, top: 0, right: 10, bottom: 10 };
    let b = Rect { left: 5, top: 5, right: 20, bottom: 20 };
    let c = Rect { left: 10, top: 0, right: 20, bottom: 10 };
    assert!(intersects(&a, &b));
    assert!(!intersects(&a, &c));
    assert_eq!(intersection(a, b), Some(Rect { left: 5, top: 5, right: 10, bottom: 10 }));
    assert_eq!(intersection(a, c), None);
    assert!(contains(a, Point { x: 0, y: 9 }));
    assert!(!contains(a, Point { x: 10, y: 5 }));
    assert_eq!(a.inset(2, 3), Rect { left: 2, top: 3, right: 8, bottom: 7 });
    assert_eq!(a.inset(6, 6), Rect { left: 6, top: 6, right: 6, bottom: 6 });
    assert_eq!(scale_dip(10, 144), 15);
    assert_eq!(scale_dip(-3, 120), -4);
    assert_eq!(scale_dip(i32::MAX, 192), i32::MAX);
}

#[test]
fn rank_statistics_use_the_nearest_rank() {
    let values = vec![5, 1, 4, 2, 3];
    assert_eq!(sort_values(&values), vec![1, 2, 3, 4, 5]);
    assert_eq!(percentile(&values, 50, 100), 3);
    assert_eq!(percentile(&values, 95, 100), 5);
    assert_eq!(percentile(&Vec::new(), 95, 100), 0);
    assert_eq!(maximum(&values), 5);
}

#[test]
fn json_strings_escape_quotes_and_controls() {
    assert_eq!(json_string("a\"b\\c\n\u{1}"), "\"a\\\"b\\\\c\\n\\u0001\"");
    assert!(text_eq("abc", "abc"));
    assert!(!text_eq("abc", "abd"));
}
