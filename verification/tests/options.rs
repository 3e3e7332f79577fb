use breeze_shell::benchmark::BenchmarkNavigation;
use breeze_shell::options::input::{control_value_input, scroll_input, wheel_input};
use breeze_shell::options::LaunchOptions;
use breeze_shell::options::scale::scale_dpi;

fn parse(arguments: &[&str]) -> Result<LaunchOptions, String> {
    LaunchOptions::parse_from(0, &arguments.iter().map(|a| a.to_string()).collect::<Vec<_>>())
}

#[test]
fn control_value_arguments_are_bounded_and_require_hidden_mode() {
    for value in ["", "a,b=c", "a 🦀"] {
        assert_eq!(
            control_value_input("#query", value).unwrap(),
            BenchmarkNavigation::SetControlValue { selector: "#query".into(), value: value.into() }
        );
    }
    assert!(control_value_input(" ", "value").is_err());
    assert!(control_value_input("#q", &"a".repeat(4097)).is_err());
    assert!(control_value_input("#q", "a\0b").is_err());
    for arguments in [
        vec!["--set-control-value-after-ready", "#query", "new query"],
        vec!["--benchmark", "about:blank", "--output", "result.json", "--set-control-value-after-ready", "#query"],
    ] {
        assert!(parse(&arguments).is_err());
    }
    let options = parse(&[
        "--benchmark",
        "about:blank",
        "--output",
        "result.json",
        "--set-control-value-after-ready",
        "#query",
        "new query",
        "--key-after-ready",
        "Enter,Enter",
    ])
    .unwrap();
    let actions = options.benchmark.unwrap().navigation_targets;
    assert_eq!(actions.len(), 2);
    assert!(matches!(actions[0], BenchmarkNavigation::SetControlValue { .. }));
    assert!(matches!(actions[1], BenchmarkNavigation::Key { .. }));
}

#[test]
fn wheel_arguments_are_bounded_and_require_hidden_mode() {
    assert_eq!(wheel_input("300,100,-126").unwrap(), BenchmarkNavigation::Wheel { x: 300, y: 100, delta: -126 });
    for value in ["", "1,2", "-1,2,3", "1,2,NaN", "1,2,10001", "7681,1,1"] {
        assert!(wheel_input(value).is_err());
    }
    assert!(parse(&["--wheel-after-ready", "1,2,3"]).is_err());
}

#[test]
fn validates_bounded_integer_scroll_targets() {
    for (value, y) in [("0", 0), (" 800 ", 800), ("2147483647", i32::MAX)] {
        assert_eq!(scroll_input(value).unwrap(), BenchmarkNavigation::ScrollTo { y });
    }
    for value in ["", " ", "-1", "+1", "1.5", "1e3", "NaN", "inf", "800,0", "2147483648"] {
        assert!(scroll_input(value).is_err(), "accepted {value:?}");
    }
}

#[test]
fn scroll_requires_hidden_mode_and_a_value() {
    for arguments in [vec!["--scroll-after-ready", "800"], vec!["--scroll-after-ready"]] {
        assert!(parse(&arguments).is_err());
    }
}

#[test]
fn endurance_settle_is_bounded_but_can_outlive_a_short_video() {
    for (requested, expected) in [(245_000_u64, 245_000_u64), (900_000, 600_000)] {
        let requested = requested.to_string();
        let options = parse(&["--benchmark", "https://example.test", "--output", "report.json", "--settle-ms", &requested]).unwrap();
        assert_eq!(options.benchmark.unwrap().settle_ms, expected);
    }
}

fn check_reproducible_hidden_viewport_and_diagnostics() {
    let options = parse(&[
        "--benchmark",
        "https://example.com",
        "--output",
        "result.json",
        "--window-width",
        "1920",
        "--window-height",
        "1080",
        "--early-scroll-trace",
        "--diagnostic-selector",
        "#main",
        "--completion-marker",
        "__DONE__",
    ])
    .unwrap();
    let benchmark = options.benchmark.unwrap();
    assert_eq!((benchmark.window_width_dip, benchmark.window_height_dip), (1920, 1080));
    assert!(benchmark.early_scroll.is_some());
    assert_eq!(benchmark.diagnostic_selectors, ["#main"]);
    assert_eq!(benchmark.completion_marker.as_deref(), Some("__DONE__"));
}

#[test]
fn options_parses_reproducible_hidden_viewport_and_diagnostics() {
    check_reproducible_hidden_viewport_and_diagnostics();
}

#[test]
fn tests_parses_reproducible_hidden_viewport_and_diagnostics() {
    check_reproducible_hidden_viewport_and_diagnostics();
}

fn check_navigation_anchored_filmstrip_options() {
    let options = parse(&[
        "--benchmark",
        "https://example.test",
        "--output",
        "report.json",
        "--filmstrip-directory",
        "frames",
        "--filmstrip-interval-ms",
        "500",
        "--filmstrip-duration-ms",
        "5000",
    ])
    .unwrap();
    let filmstrip = options.benchmark.unwrap().filmstrip.unwrap();
    assert_eq!(filmstrip.interval_ms, 500);
    assert_eq!(filmstrip.duration_ms, 5_000);
    assert_eq!(filmstrip.frame_count, 10);
}

#[test]
fn options_parses_navigation_anchored_filmstrip_options() {
    check_navigation_anchored_filmstrip_options();
}

#[test]
fn tests_parses_navigation_anchored_filmstrip_options() {
    check_navigation_anchored_filmstrip_options();
}

#[test]
fn options_parses_ordered_hidden_navigation_sequence() {
    let options = parse(&[
        "--benchmark",
        "https://example.test/first",
        "--output",
        "result.json",
        "--navigate-after-ready",
        "https://example.test/second",
        "--navigate-after-ready",
        "https://example.test/final",
        "--activate-link-after-ready",
        "https://example.test/clicked",
        "--activate-selector-after-ready",
        "button.play",
        "--click-after-ready",
        "320,180",
        "--key-after-ready",
        "k,KeyK",
        "--navigation-delay-ms",
        "750",
    ])
    .unwrap();
    let benchmark = options.benchmark.unwrap();
    assert_eq!(
        benchmark.navigation_targets,
        [
            BenchmarkNavigation::Address("https://example.test/second".to_string()),
            BenchmarkNavigation::Address("https://example.test/final".to_string()),
            BenchmarkNavigation::ActivateLink("https://example.test/clicked".to_string()),
            BenchmarkNavigation::ActivateSelector("button.play".to_string()),
            BenchmarkNavigation::ClickPoint { x: 320, y: 180 },
            BenchmarkNavigation::Key { key: "k".to_string(), code: "KeyK".to_string() },
        ]
    );
    assert_eq!(benchmark.diagnostic_selectors, ["button.play"]);
    assert_eq!(benchmark.navigation_delay_ms, 750);
}

#[test]
fn tests_parses_ordered_hidden_navigation_sequence() {
    let options = parse(&[
        "--benchmark",
        "https://example.test/first",
        "--output",
        "result.json",
        "--navigate-after-ready",
        "https://example.test/second",
        "--navigate-after-ready",
        "https://example.test/final",
        "--activate-link-after-ready",
        "https://example.test/clicked",
        "--activate-selector-after-ready",
        "button.play",
        "--move-after-ready",
        "320,180",
        "--click-after-ready",
        "320,180",
        "--scroll-after-ready",
        "800",
        "--key-after-ready",
        "k,KeyK",
        "--scroll-after-ready",
        "0",
        "--navigation-delay-ms",
        "750",
    ])
    .unwrap();
    let benchmark = options.benchmark.unwrap();
    assert_eq!(
        benchmark.navigation_targets,
        [
            BenchmarkNavigation::Address("https://example.test/second".to_string()),
            BenchmarkNavigation::Address("https://example.test/final".to_string()),
            BenchmarkNavigation::ActivateLink("https://example.test/clicked".to_string()),
            BenchmarkNavigation::ActivateSelector("button.play".to_string()),
            BenchmarkNavigation::MovePoint { x: 320, y: 180 },
            BenchmarkNavigation::ClickPoint { x: 320, y: 180 },
            BenchmarkNavigation::ScrollTo { y: 800 },
            BenchmarkNavigation::Key { key: "k".to_string(), code: "KeyK".to_string() },
            BenchmarkNavigation::ScrollTo { y: 0 },
        ]
    );
    assert_eq!(benchmark.diagnostic_selectors, ["button.play"]);
    assert_eq!(benchmark.navigation_delay_ms, 750);
}

fn check_rejects_navigation_sequence_outside_hidden_benchmark_mode() {
    let error = parse(&["--navigate-after-ready", "https://example.test/second"])
        .err()
        .expect("interactive navigation sequence is rejected");
    assert!(error.contains("require --benchmark"));
}

#[test]
fn options_rejects_navigation_sequence_outside_hidden_benchmark_mode() {
    check_rejects_navigation_sequence_outside_hidden_benchmark_mode();
}

#[test]
fn tests_rejects_navigation_sequence_outside_hidden_benchmark_mode() {
    check_rejects_navigation_sequence_outside_hidden_benchmark_mode();
}

#[test]
fn plain_launch_opens_the_startup_url_and_task_manager() {
    let options = parse(&["https://example.test/", "--task-manager"]).unwrap();
    assert_eq!(options.startup_url.as_deref(), Some("https://example.test/"));
    assert!(options.open_task_manager);
    assert!(options.benchmark.is_none());
}

#[test]
fn benchmark_scale_is_explicit_and_interactive_scale_stays_native() {
    assert!(parse(&[]).unwrap().dpi_override.is_none());
    for (scale, expected) in [("1", 96), ("1.25", 120), ("2", 192)] {
        let options = parse(&[
            "--benchmark",
            "about:blank",
            "--output",
            "result.json",
            "--device-scale-factor",
            scale,
        ])
        .unwrap();
        assert_eq!(options.dpi_override, Some(expected));
        assert_eq!(options.initial_dpi(144), expected);
    }
    for scale in ["NaN", "inf", "0", "0.5", "4.1"] {
        assert!(parse(&[
            "--benchmark",
            "about:blank",
            "--output",
            "result.json",
            "--device-scale-factor",
            scale
        ])
        .is_err());
    }
    assert!(parse(&["--device-scale-factor", "1"]).err().unwrap().contains("requires --benchmark"));
}

#[test]
fn scale_factors_are_read_as_exact_decimals() {
    assert_eq!(scale_dpi("4"), Some(384));
    assert_eq!(scale_dpi("+1.5"), Some(144));
    assert_eq!(scale_dpi("1."), Some(96));
    assert_eq!(scale_dpi("1.005"), Some(96));
    assert_eq!(scale_dpi("1.0052084"), Some(97));
    assert_eq!(scale_dpi("3.99999999999999999999999"), Some(384));
    assert_eq!(scale_dpi("4.0000000000000000001"), Some(384));
    assert_eq!(scale_dpi(".5"), None);
    assert_eq!(scale_dpi("."), None);
    assert_eq!(scale_dpi(""), None);
    assert_eq!(scale_dpi("1.2.3"), None);
    assert_eq!(scale_dpi(" 1"), None);
    assert_eq!(scale_dpi("1e0"), None);
    assert_eq!(parse(&["--device-scale-factor"]).err().unwrap(), "--device-scale-factor requires a value");
}
