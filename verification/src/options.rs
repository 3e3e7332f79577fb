//! Command-line parsing for interactive launch and hidden benchmark modes.
pub mod input;
pub mod scale;

use crate::benchmark::{navigation_views, string_views, BenchmarkNavigation, BenchmarkRun, NavigationView};
use crate::diagnostics::{selector_count_error, validate_selector_count};
use crate::filmstrip::{filmstrip_error, Filmstrip};
use crate::text::{
    chars_of, parse_i32, parse_u64, parse_usize, push_all, push_str, spec_parse_signed,
    spec_parse_unsigned, spec_trim, string_of, trim,
};
use scale::{scale_dpi, spec_scale_dpi};
use input::{
    control_value_input, key_input, nav_result, point_input, same_text, scroll_input,
    spec_control_value_input, spec_key_input, spec_point_input, spec_scroll_input,
    spec_wheel_input, wheel_input,
};
use vstd::prelude::*;

verus! {

/// Window width used when a run does not set one.
pub const DEFAULT_WINDOW_WIDTH_DIP: i32 = 1280;

/// Window height used when a run does not set one.
pub const DEFAULT_WINDOW_HEIGHT_DIP: i32 = 720;

/// The recognised command-line words.
#[derive(Clone, Copy, Debug, PartialEq, Eq, Structural)]
pub enum OptionKind {
    Benchmark,
    Output,
    Screenshot,
    FilmstripDirectory,
    FilmstripInterval,
    FilmstripDuration,
    Settle,
    CompletionMarker,
    ScrollSamples,
    EarlyScrollTrace,
    WindowWidth,
    WindowHeight,
    DiagnosticSelector,
    NavigateAfterReady,
    ActivateLinkAfterReady,
    ActivateSelectorAfterReady,
    ClickAfterReady,
    MoveAfterReady,
    KeyAfterReady,
    SetControlValueAfterReady,
    WheelAfterReady,
    ScrollAfterReady,
    NavigationDelay,
    DeviceScaleFactor,
    TaskManager,
    Unknown,
    Address,
}

pub open spec fn option_kind(a: Seq<char>) -> OptionKind {
    if a == "--benchmark"@ {
        OptionKind::Benchmark
    } else if a == "--output"@ {
        OptionKind::Output
    } else if a == "--screenshot"@ {
        OptionKind::Screenshot
    } else if a == "--filmstrip-directory"@ {
        OptionKind::FilmstripDirectory
    } else if a == "--filmstrip-interval-ms"@ {
        OptionKind::FilmstripInterval
    } else if a == "--filmstrip-duration-ms"@ {
        OptionKind::FilmstripDuration
    } else if a == "--settle-ms"@ {
        OptionKind::Settle
    } else if a == "--completion-marker"@ {
        OptionKind::CompletionMarker
    } else if a == "--scroll-samples"@ {
        OptionKind::ScrollSamples
    } else if a == "--early-scroll-trace"@ {
        OptionKind::EarlyScrollTrace
    } else if a == "--window-width"@ {
        OptionKind::WindowWidth
    } else if a == "--window-height"@ {
        OptionKind::WindowHeight
    } else if a == "--diagnostic-selector"@ {
        OptionKind::DiagnosticSelector
    } else if a == "--navigate-after-ready"@ {
        OptionKind::NavigateAfterReady
    } else if a == "--activate-link-after-ready"@ {
        OptionKind::ActivateLinkAfterReady
    } else if a == "--activate-selector-after-ready"@ {
        OptionKind::ActivateSelectorAfterReady
    } else if a == "--click-after-ready"@ {
        OptionKind::ClickAfterReady
    } else if a == "--move-after-ready"@ {
        OptionKind::MoveAfterReady
    } else if a == "--key-after-ready"@ {
        OptionKind::KeyAfterReady
    } else if a == "--set-control-value-after-ready"@ {
        OptionKind::SetControlValueAfterReady
    } else if a == "--wheel-after-ready"@ {
        OptionKind::WheelAfterReady
    } else if a == "--scroll-after-ready"@ {
        OptionKind::ScrollAfterReady
    } else if a == "--navigation-delay-ms"@ {
        OptionKind::NavigationDelay
    } else if a == "--device-scale-factor"@ {
        OptionKind::DeviceScaleFactor
    } else if a == "--task-manager"@ {
        OptionKind::TaskManager
    } else if a.len() > 0 && a[0] == '-' {
        OptionKind::Unknown
    } else {
        OptionKind::Address
    }
}

/// Names the kind of a command-line word.
pub fn classify(a: &[char]) -> (k: OptionKind)
    ensures
        k == option_kind(a@),
{
    if same_text(a, "--benchmark") {
        OptionKind::Benchmark
    } else if same_text(a, "--output") {
        OptionKind::Output
    } else if same_text(a, "--screenshot") {
        OptionKind::Screenshot
    } else if same_text(a, "--filmstrip-directory") {
        OptionKind::FilmstripDirectory
    } else if same_text(a, "--filmstrip-interval-ms") {
        OptionKind::FilmstripInterval
    } else if same_text(a, "--filmstrip-duration-ms") {
        OptionKind::FilmstripDuration
    } else if same_text(a, "--settle-ms") {
        OptionKind::Settle
    } else if same_text(a, "--completion-marker") {
        OptionKind::CompletionMarker
    } else if same_text(a, "--scroll-samples") {
        OptionKind::ScrollSamples
    } else if same_text(a, "--early-scroll-trace") {
        OptionKind::EarlyScrollTrace
    } else if same_text(a, "--window-width") {
        OptionKind::WindowWidth
    } else if same_text(a, "--window-height") {
        OptionKind::WindowHeight
    } else if same_text(a, "--diagnostic-selector") {
        OptionKind::DiagnosticSelector
    } else if same_text(a, "--navigate-after-ready") {
        OptionKind::NavigateAfterReady
    } else if same_text(a, "--activate-link-after-ready") {
        OptionKind::ActivateLinkAfterReady
    } else if same_text(a, "--activate-selector-after-ready") {
        OptionKind::ActivateSelectorAfterReady
    } else if same_text(a, "--click-after-ready") {
        OptionKind::ClickAfterReady
    } else if same_text(a, "--move-after-ready") {
        OptionKind::MoveAfterReady
    } else if same_text(a, "--key-after-ready") {
        OptionKind::KeyAfterReady
    } else if same_text(a, "--set-control-value-after-ready") {
        OptionKind::SetControlValueAfterReady
    } else if same_text(a, "--wheel-after-ready") {
        OptionKind::WheelAfterReady
    } else if same_text(a, "--scroll-after-ready") {
        OptionKind::ScrollAfterReady
    } else if same_text(a, "--navigation-delay-ms") {
        OptionKind::NavigationDelay
    } else if same_text(a, "--device-scale-factor") {
        OptionKind::DeviceScaleFactor
    } else if same_text(a, "--task-manager") {
        OptionKind::TaskManager
    } else if a.len() > 0 && a[0] == '-' {
        OptionKind::Unknown
    } else {
        OptionKind::Address
    }
}

/// Everything collected from the command line before it is checked as a whole.
pub struct ArgumentState {
    pub startup_url: Option<String>,
    pub open_task_manager: bool,
    pub benchmark_url: Option<String>,
    pub output: Option<String>,
    pub screenshot: Option<String>,
    pub filmstrip_directory: Option<String>,
    pub filmstrip_interval_ms: Option<u64>,
    pub filmstrip_duration_ms: Option<u64>,
    pub settle_ms: u64,
    pub completion_marker: Option<String>,
    pub scroll_samples: usize,
    pub early_scroll: bool,
    pub diagnostic_selectors: Vec<String>,
    pub navigation_targets: Vec<BenchmarkNavigation>,
    pub navigation_delay_ms: u64,
    pub window_width_dip: Option<i32>,
    pub window_height_dip: Option<i32>,
    pub dpi_override: Option<u32>,
}

/// `ArgumentState` with its text as character sequences.
#[verifier::ext_equal]
pub struct ArgumentsView {
    pub startup_url: Option<Seq<char>>,
    pub open_task_manager: bool,
    pub benchmark_url: Option<Seq<char>>,
    pub output: Option<Seq<char>>,
    pub screenshot: Option<Seq<char>>,
    pub filmstrip_directory: Option<Seq<char>>,
    pub filmstrip_interval_ms: Option<u64>,
    pub filmstrip_duration_ms: Option<u64>,
    pub settle_ms: u64,
    pub completion_marker: Option<Seq<char>>,
    pub scroll_samples: usize,
    pub early_scroll: bool,
    pub diagnostic_selectors: Seq<Seq<char>>,
    pub navigation_targets: Seq<NavigationView>,
    pub navigation_delay_ms: u64,
    pub window_width_dip: Option<i32>,
    pub window_height_dip: Option<i32>,
    pub dpi_override: Option<u32>,
}

pub open spec fn opt_view(o: Option<String>) -> Option<Seq<char>> {
    match o {
        Some(s) => Some(s@),
        None => None,
    }
}

impl ArgumentState {
    pub open spec fn view(&self) -> ArgumentsView {
        ArgumentsView {
            startup_url: opt_view(self.startup_url),
            open_task_manager: self.open_task_manager,
            benchmark_url: opt_view(self.benchmark_url),
            output: opt_view(self.output),
            screenshot: opt_view(self.screenshot),
            filmstrip_directory: opt_view(self.filmstrip_directory),
            filmstrip_interval_ms: self.filmstrip_interval_ms,
            filmstrip_duration_ms: self.filmstrip_duration_ms,
            settle_ms: self.settle_ms,
            completion_marker: opt_view(self.completion_marker),
            scroll_samples: self.scroll_samples,
            early_scroll: self.early_scroll,
            diagnostic_selectors: string_views(self.diagnostic_selectors@),
            navigation_targets: navigation_views(self.navigation_targets@),
            navigation_delay_ms: self.navigation_delay_ms,
            window_width_dip: self.window_width_dip,
            window_height_dip: self.window_height_dip,
            dpi_override: self.dpi_override,
        }
    }
}

/// The state before any argument is read.
pub open spec fn initial_arguments() -> ArgumentsView {
    ArgumentsView {
        startup_url: None,
        open_task_manager: false,
        benchmark_url: None,
        output: None,
        screenshot: None,
        filmstrip_directory: None,
        filmstrip_interval_ms: None,
        filmstrip_duration_ms: None,
        settle_ms: 2_000,
        completion_marker: None,
        scroll_samples: 0,
        early_scroll: false,
        diagnostic_selectors: Seq::empty(),
        navigation_targets: Seq::empty(),
        navigation_delay_ms: 0,
        window_width_dip: None,
        window_height_dip: None,
        dpi_override: None,
    }
}

/// `v` limited to `lo..=hi`.
pub open spec fn clamp(v: int, lo: int, hi: int) -> int {
    if v < lo {
        lo
    } else if v > hi {
        hi
    } else {
        v
    }
}

/// The value after option `args[i - 1]`, or the missing-value error.
pub open spec fn spec_required(args: Seq<Seq<char>>, i: int, option: Seq<char>) -> Result<Seq<char>, Seq<char>> {
    if 0 <= i < args.len() {
        Ok(args[i])
    } else {
        Err(option + " requires a value"@)
    }
}

/// An unsigned number after an option; `max` is the type's largest value.
pub open spec fn spec_unsigned(args: Seq<Seq<char>>, i: int, option: Seq<char>, max: nat) -> Result<nat, Seq<char>> {
    match spec_required(args, i, option) {
        Err(e) => Err(e),
        Ok(a) => match spec_parse_unsigned(a, max) {
            Some(v) => Ok(v),
            None => Err(option + " requires a number"@),
        },
    }
}

/// An `i32` after an option.
pub open spec fn spec_signed(args: Seq<Seq<char>>, i: int, option: Seq<char>) -> Result<int, Seq<char>> {
    match spec_required(args, i, option) {
        Err(e) => Err(e),
        Ok(a) => match spec_parse_signed(a, i32::MIN as int, i32::MAX as int) {
            Some(v) => Ok(v),
            None => Err(option + " requires a number"@),
        },
    }
}

/// Outcome of reading the argument at one position.
pub enum StepResult {
    Next(int, ArgumentsView),
    Fail(Seq<char>),
}

pub open spec fn with_target(st: ArgumentsView, n: NavigationView) -> ArgumentsView {
    ArgumentsView { navigation_targets: st.navigation_targets.push(n), ..st }
}

pub open spec fn after_action(st: ArgumentsView, next: int, r: Result<NavigationView, Seq<char>>) -> StepResult {
    match r {
        Ok(n) => StepResult::Next(next, with_target(st, n)),
        Err(e) => StepResult::Fail(e),
    }
}

/// Reads the option at `args[i]` and its values.
pub open spec fn spec_step(args: Seq<Seq<char>>, i: int, st: ArgumentsView) -> StepResult {
    let a = args[i];
    let v = i + 1;
    match option_kind(a) {
        OptionKind::Benchmark => match spec_required(args, v, a) {
            Ok(x) => StepResult::Next(v + 1, ArgumentsView { benchmark_url: Some(x), ..st }),
            Err(e) => StepResult::Fail(e),
        },
        OptionKind::Output => match spec_required(args, v, a) {
            Ok(x) => StepResult::Next(v + 1, ArgumentsView { output: Some(x), ..st }),
            Err(e) => StepResult::Fail(e),
        },
        OptionKind::Screenshot => match spec_required(args, v, a) {
            Ok(x) => StepResult::Next(v + 1, ArgumentsView { screenshot: Some(x), ..st }),
            Err(e) => StepResult::Fail(e),
        },
        OptionKind::FilmstripDirectory => match spec_required(args, v, a) {
            Ok(x) => StepResult::Next(v + 1, ArgumentsView { filmstrip_directory: Some(x), ..st }),
            Err(e) => StepResult::Fail(e),
        },
        OptionKind::FilmstripInterval => match spec_unsigned(args, v, a, u64::MAX as nat) {
            Ok(n) => StepResult::Next(
                v + 1,
                ArgumentsView { filmstrip_interval_ms: Some(clamp(n as int, 100, 10_000) as u64), ..st },
            ),
            Err(e) => StepResult::Fail(e),
        },
        OptionKind::FilmstripDuration => match spec_unsigned(args, v, a, u64::MAX as nat) {
            Ok(n) => StepResult::Next(
                v + 1,
                ArgumentsView { filmstrip_duration_ms: Some(clamp(n as int, 100, 60_000) as u64), ..st },
            ),
            Err(e) => StepResult::Fail(e),
        },
        OptionKind::Settle => match spec_unsigned(args, v, a, u64::MAX as nat) {
            Ok(n) => StepResult::Next(
                v + 1,
                ArgumentsView { settle_ms: clamp(n as int, 100, 600_000) as u64, ..st },
            ),
            Err(e) => StepResult::Fail(e),
        },
        OptionKind::CompletionMarker => match spec_required(args, v, a) {
            Ok(x) => if x.len() == 0 {
                StepResult::Fail("--completion-marker cannot be empty"@)
            } else {
                StepResult::Next(v + 1, ArgumentsView { completion_marker: Some(x), ..st })
            },
            Err(e) => StepResult::Fail(e),
        },
        OptionKind::ScrollSamples => match spec_unsigned(args, v, a, usize::MAX as nat) {
            Ok(n) => StepResult::Next(
                v + 1,
                ArgumentsView { scroll_samples: clamp(n as int, 1, 120) as usize, ..st },
            ),
            Err(e) => StepResult::Fail(e),
        },
        OptionKind::EarlyScrollTrace => StepResult::Next(v, ArgumentsView { early_scroll: true, ..st }),
        OptionKind::WindowWidth => match spec_signed(args, v, a) {
            Ok(n) => StepResult::Next(
                v + 1,
                ArgumentsView { window_width_dip: Some(clamp(n as int, 320, 7680) as i32), ..st },
            ),
            Err(e) => StepResult::Fail(e),
        },
        OptionKind::WindowHeight => match spec_signed(args, v, a) {
            Ok(n) => StepResult::Next(
                v + 1,
                ArgumentsView { window_height_dip: Some(clamp(n as int, 240, 4320) as i32), ..st },
            ),
            Err(e) => StepResult::Fail(e),
        },
        OptionKind::DiagnosticSelector => match spec_required(args, v, a) {
            Ok(x) => if spec_trim(x).len() == 0 {
                StepResult::Fail("--diagnostic-selector cannot be empty"@)
            } else {
                let selectors = st.diagnostic_selectors.push(x);
                match selector_count_error(selectors) {
                    Some(e) => StepResult::Fail(e),
                    None => StepResult::Next(v + 1, ArgumentsView { diagnostic_selectors: selectors, ..st }),
                }
            },
            Err(e) => StepResult::Fail(e),
        },
        OptionKind::NavigateAfterReady => match spec_required(args, v, a) {
            Ok(x) => StepResult::Next(v + 1, with_target(st, NavigationView::Address(x))),
            Err(e) => StepResult::Fail(e),
        },
        OptionKind::ActivateLinkAfterReady => match spec_required(args, v, a) {
            Ok(x) => StepResult::Next(v + 1, with_target(st, NavigationView::ActivateLink(x))),
            Err(e) => StepResult::Fail(e),
        },
        OptionKind::ActivateSelectorAfterReady => match spec_required(args, v, a) {
            Ok(x) => if spec_trim(x).len() == 0 {
                StepResult::Fail("--activate-selector-after-ready cannot be empty"@)
            } else if st.diagnostic_selectors.contains(x) {
                StepResult::Next(v + 1, with_target(st, NavigationView::ActivateSelector(x)))
            } else {
                let selectors = st.diagnostic_selectors.push(x);
                match selector_count_error(selectors) {
                    Some(e) => StepResult::Fail(e),
                    None => StepResult::Next(
                        v + 1,
                        with_target(
                            ArgumentsView { diagnostic_selectors: selectors, ..st },
                            NavigationView::ActivateSelector(x),
                        ),
                    ),
                }
            },
            Err(e) => StepResult::Fail(e),
        },
        OptionKind::ClickAfterReady | OptionKind::MoveAfterReady => match spec_required(args, v, a) {
            Ok(x) => after_action(st, v + 1, spec_point_input(x, a)),
            Err(e) => StepResult::Fail(e),
        },
        OptionKind::KeyAfterReady => match spec_required(args, v, a) {
            Ok(x) => after_action(st, v + 1, spec_key_input(x)),
            Err(e) => StepResult::Fail(e),
        },
        OptionKind::SetControlValueAfterReady => match spec_required(args, v, a) {
            Ok(selector) => match spec_required(args, v + 1, a) {
                Ok(value) => after_action(st, v + 2, spec_control_value_input(selector, value)),
                Err(e) => StepResult::Fail(e),
            },
            Err(e) => StepResult::Fail(e),
        },
        OptionKind::WheelAfterReady => match spec_required(args, v, a) {
            Ok(x) => after_action(st, v + 1, spec_wheel_input(x)),
            Err(e) => StepResult::Fail(e),
        },
        OptionKind::ScrollAfterReady => match spec_required(args, v, a) {
            Ok(x) => after_action(st, v + 1, spec_scroll_input(x)),
            Err(e) => StepResult::Fail(e),
        },
        OptionKind::NavigationDelay => match spec_unsigned(args, v, a, u64::MAX as nat) {
            Ok(n) => StepResult::Next(
                v + 1,
                ArgumentsView { navigation_delay_ms: clamp(n as int, 0, 60_000) as u64, ..st },
            ),
            Err(e) => StepResult::Fail(e),
        },
        OptionKind::DeviceScaleFactor => match spec_required(args, v, a) {
            Ok(x) => match spec_scale_dpi(x) {
                Some(dpi) => StepResult::Next(v + 1, ArgumentsView { dpi_override: Some(dpi), ..st }),
                None => StepResult::Fail("--device-scale-factor requires a number from 1 to 4"@),
            },
            Err(e) => StepResult::Fail(e),
        },
        OptionKind::TaskManager => StepResult::Next(v, ArgumentsView { open_task_manager: true, ..st }),
        OptionKind::Unknown => StepResult::Fail("unknown option: "@ + a),
        OptionKind::Address => StepResult::Next(v, ArgumentsView { startup_url: Some(a), ..st }),
    }
}

/// Reads every argument from position `i`, or the first error.
#[verifier::rlimit(40)]
pub open spec fn spec_collect(args: Seq<Seq<char>>, i: int, st: ArgumentsView) -> Result<ArgumentsView, Seq<char>>
    decreases args.len() - i,
{
    if i < 0 || i >= args.len() {
        Ok(st)
    } else {
        match spec_step(args, i, st) {
            StepResult::Fail(e) => Err(e),
            StepResult::Next(j, next) => if j > i {
                spec_collect(args, j, next)
            } else {
                Ok(next)
            },
        }
    }
}



/// `--screenshot p` sets the screenshot path to `p` and reading goes on after
/// `p`, whatever was set before; so the last `--screenshot` read wins.
pub proof fn lemma_screenshot_option_sets_path(args: Seq<Seq<char>>, i: int, st: ArgumentsView)
    requires
        0 <= i,
        i + 1 < args.len(),
        args[i] == "--screenshot"@,
    ensures
        spec_step(args, i, st) == StepResult::Next(i + 2, ArgumentsView { screenshot: Some(args[i + 1]), ..st }),
        spec_collect(args, i, st) == spec_collect(
            args,
            i + 2,
            ArgumentsView { screenshot: Some(args[i + 1]), ..st },
        ),
{
    reveal_strlit("--screenshot");
    reveal_strlit("--benchmark");
    reveal_strlit("--output");
    assert(args[i].len() == 12);
    assert(args[i] != "--benchmark"@);
    assert(args[i] != "--output"@);
    assert(option_kind(args[i]) == OptionKind::Screenshot);
}

/// Every argument other than `--screenshot` leaves the screenshot path as it
/// was, and reading always moves forward.
#[verifier::rlimit(100)]
#[verifier::spinoff_prover]
pub proof fn lemma_other_arguments_keep_screenshot(args: Seq<Seq<char>>, i: int, st: ArgumentsView)
    requires
        0 <= i < args.len(),
        args[i] != "--screenshot"@,
    ensures
        spec_step(args, i, st) matches StepResult::Next(j, next) ==> j > i && next.screenshot == st.screenshot,
{
    let a = args[i];
    let v = i + 1;
    match option_kind(a) {
        OptionKind::ClickAfterReady | OptionKind::MoveAfterReady => {
            match spec_required(args, v, a) {
                Ok(x) => {
                    let r = spec_point_input(x, a);
                    assert(after_action(st, v + 1, r) matches StepResult::Next(j, next) ==> next.screenshot
                        == st.screenshot);
                },
                Err(_) => {},
            }
        },
        OptionKind::KeyAfterReady => {
            match spec_required(args, v, a) {
                Ok(x) => {
                    let r = spec_key_input(x);
                    assert(after_action(st, v + 1, r) matches StepResult::Next(j, next) ==> next.screenshot
                        == st.screenshot);
                },
                Err(_) => {},
            }
        },
        OptionKind::WheelAfterReady => {
            match spec_required(args, v, a) {
                Ok(x) => {
                    let r = spec_wheel_input(x);
                    assert(after_action(st, v + 1, r) matches StepResult::Next(j, next) ==> next.screenshot
                        == st.screenshot);
                },
                Err(_) => {},
            }
        },
        OptionKind::ScrollAfterReady => {
            match spec_required(args, v, a) {
                Ok(x) => {
                    let r = spec_scroll_input(x);
                    assert(after_action(st, v + 1, r) matches StepResult::Next(j, next) ==> next.screenshot
                        == st.screenshot);
                },
                Err(_) => {},
            }
        },
        _ => {},
    }
}

/// Reading arguments among which no `--screenshot` appears never sets a
/// screenshot path.
#[verifier::rlimit(40)]
pub proof fn lemma_no_screenshot_option_keeps_path(args: Seq<Seq<char>>, i: int, st: ArgumentsView)
    requires
        0 <= i,
        forall|k: int| i <= k < args.len() ==> args[k] != "--screenshot"@,
    ensures
        spec_collect(args, i, st) matches Ok(fin) ==> fin.screenshot == st.screenshot,
    decreases args.len() - i,
{
    if i < args.len() {
        lemma_other_arguments_keep_screenshot(args, i, st);
        match spec_step(args, i, st) {
            StepResult::Next(j, next) => {
                lemma_no_screenshot_option_keeps_path(args, j, next);
            },
            StepResult::Fail(_) => {},
        }
    }
}

/// The views of command-line arguments.
pub open spec fn arg_views(args: Seq<String>) -> Seq<Seq<char>> {
    string_views(args)
}

fn text(s: &str) -> (r: String)
    ensures
        r@ == s@,
{
    string_of(chars_of(s).as_slice())
}

fn with_suffix(option: &[char], s: &str) -> (r: String)
    ensures
        r@ == option@ + s@,
{
    let mut v: Vec<char> = Vec::new();
    push_all(&mut v, option);
    push_str(&mut v, s);
    assert(v@ =~= option@ + s@);
    string_of(v.as_slice())
}

/// The value at `args[i]` following `option`.
pub fn required(args: &Vec<String>, i: usize, option: &[char]) -> (r: Result<String, String>)
    ensures
        match r {
            Ok(x) => spec_required(arg_views(args@), i as int, option@) == Ok::<Seq<char>, Seq<char>>(x@),
            Err(e) => spec_required(arg_views(args@), i as int, option@) == Err::<Seq<char>, Seq<char>>(e@),
        },
{
    if i < args.len() {
        Ok(args[i].clone())
    } else {
        Err(with_suffix(option, " requires a value"))
    }
}

/// A `u64` value at `args[i]` following `option`.
pub fn number(args: &Vec<String>, i: usize, option: &[char]) -> (r: Result<u64, String>)
    ensures
        match r {
            Ok(x) => spec_unsigned(arg_views(args@), i as int, option@, u64::MAX as nat) == Ok::<nat, Seq<char>>(x as nat),
            Err(e) => spec_unsigned(arg_views(args@), i as int, option@, u64::MAX as nat) == Err::<nat, Seq<char>>(e@),
        },
{
    let value = required(args, i, option)?;
    let c = chars_of(value.as_str());
    match parse_u64(c.as_slice()) {
        Some(x) => Ok(x),
        None => Err(with_suffix(option, " requires a number")),
    }
}

/// A `usize` value at `args[i]` following `option`.
pub fn count_number(args: &Vec<String>, i: usize, option: &[char]) -> (r: Result<usize, String>)
    ensures
        match r {
            Ok(x) => spec_unsigned(arg_views(args@), i as int, option@, usize::MAX as nat) == Ok::<nat, Seq<char>>(x as nat),
            Err(e) => spec_unsigned(arg_views(args@), i as int, option@, usize::MAX as nat) == Err::<nat, Seq<char>>(e@),
        },
{
    let value = required(args, i, option)?;
    let c = chars_of(value.as_str());
    match parse_usize(c.as_slice()) {
        Some(x) => Ok(x),
        None => Err(with_suffix(option, " requires a number")),
    }
}

/// An `i32` value at `args[i]` following `option`.
pub fn signed_number(args: &Vec<String>, i: usize, option: &[char]) -> (r: Result<i32, String>)
    ensures
        match r {
            Ok(x) => spec_signed(arg_views(args@), i as int, option@) == Ok::<int, Seq<char>>(x as int),
            Err(e) => spec_signed(arg_views(args@), i as int, option@) == Err::<int, Seq<char>>(e@),
        },
{
    let value = required(args, i, option)?;
    let c = chars_of(value.as_str());
    match parse_i32(c.as_slice()) {
        Some(x) => Ok(x),
        None => Err(with_suffix(option, " requires a number")),
    }
}

fn clamp_u64(v: u64, lo: u64, hi: u64) -> (r: u64)
    requires
        lo <= hi,
    ensures
        r == clamp(v as int, lo as int, hi as int),
{
    if v < lo {
        lo
    } else if v > hi {
        hi
    } else {
        v
    }
}

fn clamp_i32_range(v: i32, lo: i32, hi: i32) -> (r: i32)
    requires
        lo <= hi,
    ensures
        r == clamp(v as int, lo as int, hi as int),
{
    if v < lo {
        lo
    } else if v > hi {
        hi
    } else {
        v
    }
}

fn contains_string(list: &Vec<String>, x: &String) -> (b: bool)
    ensures
        b == string_views(list@).contains(x@),
{
    let mut i: usize = 0;
    while i < list.len()
        invariant
            i <= list.len(),
            forall|k: int| 0 <= k < i ==> list@[k]@ != x@,
        decreases list.len() - i,
    {
        if list[i] == *x {
            assert(string_views(list@)[i as int] == x@);
            return true;
        }
        i = i + 1;
    }
    proof {
        if string_views(list@).contains(x@) {
            let k = choose|k: int| 0 <= k < string_views(list@).len() && string_views(list@)[k] == x@;
            assert(list@[k]@ == x@);
        }
    }
    false
}

fn push_target(st: &mut ArgumentState, n: BenchmarkNavigation)
    ensures
        final(st).view() == with_target(old(st).view(), n@),
{
    st.navigation_targets.push(n);
    assert(navigation_views(st.navigation_targets@) =~= navigation_views(old(st).navigation_targets@).push(n@));
    assert(final(st).view() =~= with_target(old(st).view(), n@));
}

fn push_selector(st: &mut ArgumentState, x: String) -> (r: Result<(), String>)
    ensures
        match r {
            Ok(()) => selector_count_error(old(st).view().diagnostic_selectors.push(x@)) is None
                && final(st).view() == (ArgumentsView { diagnostic_selectors: old(st).view().diagnostic_selectors.push(x@), ..old(st).view() }),
            Err(e) => selector_count_error(old(st).view().diagnostic_selectors.push(x@)) == Some(e@),
        },
{
    st.diagnostic_selectors.push(x);
    let ghost views = string_views(st.diagnostic_selectors@);
    assert(views =~= string_views(old(st).diagnostic_selectors@).push(x@));
    assert(Seq::new(st.diagnostic_selectors@.len(), |i: int| st.diagnostic_selectors@[i]@) =~= views);
    validate_selector_count(&st.diagnostic_selectors)?;
    assert(final(st).view() =~= (ArgumentsView { diagnostic_selectors: old(st).view().diagnostic_selectors.push(x@), ..old(st).view() }));
    Ok(())
}

fn after_input(st: &mut ArgumentState, next: usize, r: Result<BenchmarkNavigation, String>) -> (out: Result<usize, String>)
    ensures
        match out {
            Ok(j) => after_action(old(st).view(), next as int, nav_result(r)) == StepResult::Next(j as int, final(st).view()),
            Err(e) => after_action(old(st).view(), next as int, nav_result(r)) == StepResult::Fail(e@),
        },
{
    match r {
        Ok(n) => {
            push_target(st, n);
            Ok(next)
        },
        Err(e) => Err(e),
    }
}

/// Reads the option at `args[i]` with its values into `st`; gives the next position.
#[verifier::rlimit(80)]
pub fn step(args: &Vec<String>, i: usize, st: &mut ArgumentState) -> (r: Result<usize, String>)
    requires
        i < args.len(),
    ensures
        match r {
            Ok(j) => i < j <= args.len() && spec_step(arg_views(args@), i as int, old(st).view())
                == StepResult::Next(j as int, final(st).view()),
            Err(e) => spec_step(arg_views(args@), i as int, old(st).view()) == StepResult::Fail(e@),
        },
{
    let a = chars_of(args[i].as_str());
    let ghost views = arg_views(args@);
    assert(views[i as int] == a@);
    let v = i + 1;
    let kind = classify(a.as_slice());
    match kind {
        OptionKind::Benchmark => {
            let x = required(args, v, a.as_slice())?;
            st.benchmark_url = Some(x);
            Ok(v + 1)
        },
        OptionKind::Output => {
            let x = required(args, v, a.as_slice())?;
            st.output = Some(x);
            Ok(v + 1)
        },
        OptionKind::Screenshot => {
            let x = required(args, v, a.as_slice())?;
            st.screenshot = Some(x);
            Ok(v + 1)
        },
        OptionKind::FilmstripDirectory => {
            let x = required(args, v, a.as_slice())?;
            st.filmstrip_directory = Some(x);
            Ok(v + 1)
        },
        OptionKind::FilmstripInterval => {
            let n = number(args, v, a.as_slice())?;
            st.filmstrip_interval_ms = Some(clamp_u64(n, 100, 10_000));
            Ok(v + 1)
        },
        OptionKind::FilmstripDuration => {
            let n = number(args, v, a.as_slice())?;
            st.filmstrip_duration_ms = Some(clamp_u64(n, 100, 60_000));
            Ok(v + 1)
        },
        OptionKind::Settle => {
            let n = number(args, v, a.as_slice())?;
            st.settle_ms = clamp_u64(n, 100, 600_000);
            Ok(v + 1)
        },
        OptionKind::CompletionMarker => {
            let x = required(args, v, a.as_slice())?;
            if x.as_str().is_empty() {
                return Err(text("--completion-marker cannot be empty"));
            }
            st.completion_marker = Some(x);
            Ok(v + 1)
        },
        OptionKind::ScrollSamples => {
            let n = count_number(args, v, a.as_slice())?;
            st.scroll_samples = if n < 1 { 1 } else if n > 120 { 120 } else { n };
            Ok(v + 1)
        },
        OptionKind::EarlyScrollTrace => {
            st.early_scroll = true;
            Ok(v)
        },
        OptionKind::WindowWidth => {
            let n = signed_number(args, v, a.as_slice())?;
            st.window_width_dip = Some(clamp_i32_range(n, 320, 7680));
            Ok(v + 1)
        },
        OptionKind::WindowHeight => {
            let n = signed_number(args, v, a.as_slice())?;
            st.window_height_dip = Some(clamp_i32_range(n, 240, 4320));
            Ok(v + 1)
        },
        OptionKind::DiagnosticSelector => {
            let x = required(args, v, a.as_slice())?;
            let xc = chars_of(x.as_str());
            if trim(xc.as_slice()).len() == 0 {
                return Err(text("--diagnostic-selector cannot be empty"));
            }
            push_selector(st, x)?;
            Ok(v + 1)
        },
        OptionKind::NavigateAfterReady => {
            let x = required(args, v, a.as_slice())?;
            push_target(st, BenchmarkNavigation::Address(x));
            Ok(v + 1)
        },
        OptionKind::ActivateLinkAfterReady => {
            let x = required(args, v, a.as_slice())?;
            push_target(st, BenchmarkNavigation::ActivateLink(x));
            Ok(v + 1)
        },
        OptionKind::ActivateSelectorAfterReady => {
            let x = required(args, v, a.as_slice())?;
            let xc = chars_of(x.as_str());
            if trim(xc.as_slice()).len() == 0 {
                return Err(text("--activate-selector-after-ready cannot be empty"));
            }
            if !contains_string(&st.diagnostic_selectors, &x) {
                push_selector(st, x.clone())?;
            }
            push_target(st, BenchmarkNavigation::ActivateSelector(x));
            Ok(v + 1)
        },
        OptionKind::ClickAfterReady | OptionKind::MoveAfterReady => {
            let x = required(args, v, a.as_slice())?;
            let option = string_of(a.as_slice());
            after_input(st, v + 1, point_input(x.as_str(), option.as_str()))
        },
        OptionKind::KeyAfterReady => {
            let x = required(args, v, a.as_slice())?;
            after_input(st, v + 1, key_input(x.as_str()))
        },
        OptionKind::SetControlValueAfterReady => {
            let selector = required(args, v, a.as_slice())?;
            let value = required(args, v + 1, a.as_slice())?;
            after_input(st, v + 2, control_value_input(selector.as_str(), value.as_str()))
        },
        OptionKind::WheelAfterReady => {
            let x = required(args, v, a.as_slice())?;
            after_input(st, v + 1, wheel_input(x.as_str()))
        },
        OptionKind::ScrollAfterReady => {
            let x = required(args, v, a.as_slice())?;
            after_input(st, v + 1, scroll_input(x.as_str()))
        },
        OptionKind::NavigationDelay => {
            let n = number(args, v, a.as_slice())?;
            st.navigation_delay_ms = clamp_u64(n, 0, 60_000);
            Ok(v + 1)
        },
        OptionKind::DeviceScaleFactor => {
            let x = required(args, v, a.as_slice())?;
            match scale_dpi(x.as_str()) {
                Some(dpi) => {
                    st.dpi_override = Some(dpi);
                    Ok(v + 1)
                },
                None => Err(text("--device-scale-factor requires a number from 1 to 4")),
            }
        },
        OptionKind::TaskManager => {
            st.open_task_manager = true;
            Ok(v)
        },
        OptionKind::Unknown => {
            let mut m: Vec<char> = Vec::new();
            push_str(&mut m, "unknown option: ");
            push_all(&mut m, a.as_slice());
            assert(m@ =~= "unknown option: "@ + a@);
            Err(string_of(m.as_slice()))
        },
        OptionKind::Address => {
            st.startup_url = Some(string_of(a.as_slice()));
            Ok(v)
        },
    }
}


/// What a filmstrip schedule holds.
pub struct FilmstripView {
    pub directory: Seq<char>,
    pub interval_ms: u64,
    pub duration_ms: u64,
    pub frame_count: usize,
}

/// What a freshly parsed benchmark run holds.
pub struct BenchmarkView {
    pub requested_url: Seq<char>,
    pub output: Seq<char>,
    pub screenshot: Option<Seq<char>>,
    pub settle_ms: u64,
    pub completion_marker: Option<Seq<char>>,
    pub scroll_samples: usize,
    pub early_scroll: bool,
    pub diagnostic_selectors: Seq<Seq<char>>,
    pub window_width_dip: i32,
    pub window_height_dip: i32,
    pub navigation_targets: Seq<NavigationView>,
    pub navigation_delay_ms: u64,
    pub filmstrip: Option<FilmstripView>,
}

/// What parsed launch options hold.
pub struct LaunchView {
    pub startup_url: Option<Seq<char>>,
    pub open_task_manager: bool,
    pub benchmark: Option<BenchmarkView>,
    pub dpi_override: Option<u32>,
}

/// The benchmark run as configured by the command line.
pub open spec fn run_view(b: BenchmarkRun) -> BenchmarkView {
    BenchmarkView {
        requested_url: b.requested_url@,
        output: b.output@,
        screenshot: opt_view(b.screenshot),
        settle_ms: b.settle_ms,
        completion_marker: opt_view(b.completion_marker),
        scroll_samples: b.scroll_samples,
        early_scroll: b.early_scroll is Some,
        diagnostic_selectors: string_views(b.diagnostic_selectors@),
        window_width_dip: b.window_width_dip,
        window_height_dip: b.window_height_dip,
        navigation_targets: navigation_views(b.navigation_targets@),
        navigation_delay_ms: b.navigation_delay_ms,
        filmstrip: match b.filmstrip {
            Some(f) => Some(
                FilmstripView {
                    directory: f.directory@,
                    interval_ms: f.interval_ms,
                    duration_ms: f.duration_ms,
                    frame_count: f.frame_count,
                },
            ),
            None => None,
        },
    }
}

/// A parsed run has not started anything yet.
pub open spec fn run_fresh(b: BenchmarkRun, process_started_us: u64) -> bool {
    &&& b.process_started_us == process_started_us
    &&& b.navigation_started_us is None
    &&& !b.navigation_scheduled
    &&& !b.completion_observed
    &&& !b.finish_scheduled
    &&& b.script_console@.len() == 0
    &&& b.error is None
    &&& b.activity == crate::early_scroll::BenchmarkActivity::zero_spec()
    &&& (b.early_scroll matches Some(t) ==> t.duration_us == 6_000_000 && t.started_us is None
        && t.samples@.len() == 0 && t.direction == 1)
    &&& (b.filmstrip matches Some(f) ==> f.wf() && !f.scheduled && f.started_us is None
        && f.frames@.len() == 0)
}

/// Checks the collected arguments as a whole.
pub open spec fn spec_finish(st: ArgumentsView) -> Result<LaunchView, Seq<char>> {
    match st.benchmark_url {
        Some(url) => match st.output {
            None => Err("benchmark mode requires --output <result.json>"@),
            Some(output) => {
                let interval = match st.filmstrip_interval_ms {
                    Some(v) => v,
                    None => 500,
                };
                let duration = match st.filmstrip_duration_ms {
                    Some(v) => v,
                    None => 10_000,
                };
                match st.filmstrip_directory {
                    Some(dir) if filmstrip_error(interval, duration) is Some => Err(
                        filmstrip_error(interval, duration).unwrap(),
                    ),
                    _ => if st.filmstrip_directory is None && (st.filmstrip_interval_ms is Some
                        || st.filmstrip_duration_ms is Some) {
                        Err("filmstrip timing requires --filmstrip-directory"@)
                    } else {
                        Ok(
                            LaunchView {
                                startup_url: Some(url),
                                open_task_manager: st.open_task_manager,
                                dpi_override: st.dpi_override,
                                benchmark: Some(
                                    BenchmarkView {
                                        requested_url: url,
                                        output,
                                        screenshot: st.screenshot,
                                        settle_ms: st.settle_ms,
                                        completion_marker: st.completion_marker,
                                        scroll_samples: st.scroll_samples,
                                        early_scroll: st.early_scroll,
                                        diagnostic_selectors: st.diagnostic_selectors,
                                        window_width_dip: match st.window_width_dip {
                                            Some(w) => w,
                                            None => DEFAULT_WINDOW_WIDTH_DIP,
                                        },
                                        window_height_dip: match st.window_height_dip {
                                            Some(h) => h,
                                            None => DEFAULT_WINDOW_HEIGHT_DIP,
                                        },
                                        navigation_targets: st.navigation_targets,
                                        navigation_delay_ms: st.navigation_delay_ms,
                                        filmstrip: match st.filmstrip_directory {
                                            Some(dir) => Some(
                                                FilmstripView {
                                                    directory: dir,
                                                    interval_ms: interval,
                                                    duration_ms: duration,
                                                    frame_count: (duration / interval) as usize,
                                                },
                                            ),
                                            None => None,
                                        },
                                    },
                                ),
                            },
                        )
                    },
                }
            },
        },
        None => if st.screenshot is Some {
            Err("--screenshot requires --benchmark"@)
        } else if st.filmstrip_directory is Some || st.filmstrip_interval_ms is Some
            || st.filmstrip_duration_ms is Some {
            Err("filmstrip options require --benchmark"@)
        } else if st.scroll_samples > 0 {
            Err("--scroll-samples requires --benchmark"@)
        } else if st.completion_marker is Some {
            Err("--completion-marker requires --benchmark"@)
        } else if st.early_scroll {
            Err("--early-scroll-trace requires --benchmark"@)
        } else if st.diagnostic_selectors.len() > 0 {
            Err("--diagnostic-selector requires --benchmark"@)
        } else if st.navigation_targets.len() > 0 || st.navigation_delay_ms > 0 {
            Err("benchmark navigation options require --benchmark"@)
        } else if st.window_width_dip is Some || st.window_height_dip is Some {
            Err("--window-width and --window-height require --benchmark"@)
        } else if st.dpi_override is Some {
            Err("--device-scale-factor requires --benchmark"@)
        } else {
            Ok(
                LaunchView {
                    startup_url: st.startup_url,
                    open_task_manager: st.open_task_manager,
                    benchmark: None,
                    dpi_override: None,
                },
            )
        },
    }
}

/// A finished launch carries the collected screenshot path into its benchmark
/// run, and an interactive launch never has one.
pub proof fn lemma_finished_run_keeps_screenshot(st: ArgumentsView)
    ensures
        spec_finish(st) matches Ok(l) ==> match l.benchmark {
            Some(b) => b.screenshot == st.screenshot,
            None => st.screenshot is None,
        },
{
}

/// What the whole command line means, or the first error.
pub open spec fn spec_parse(args: Seq<Seq<char>>) -> Result<LaunchView, Seq<char>> {
    match spec_collect(args, 0, initial_arguments()) {
        Err(e) => Err(e),
        Ok(st) => spec_finish(st),
    }
}

/// Parsed launch options.
pub struct LaunchOptions {
    pub startup_url: Option<String>,
    pub open_task_manager: bool,
    pub benchmark: Option<BenchmarkRun>,
    /// The DPI a hidden run renders at instead of the monitor's.
    pub dpi_override: Option<u32>,
}

impl LaunchOptions {
    pub open spec fn launch_view(&self) -> LaunchView {
        LaunchView {
            startup_url: opt_view(self.startup_url),
            open_task_manager: self.open_task_manager,
            benchmark: match self.benchmark {
                Some(b) => Some(run_view(b)),
                None => None,
            },
            dpi_override: self.dpi_override,
        }
    }

    /// Parses the arguments after the program name.
    pub fn parse_from(process_started_us: u64, arguments: &Vec<String>) -> (r: Result<Self, String>)
        ensures
            match r {
                Ok(o) => spec_parse(arg_views(arguments@)) matches Ok(v) && o.launch_view() == v
                    && (o.benchmark matches Some(b) ==> run_fresh(b, process_started_us)),
                Err(e) => spec_parse(arg_views(arguments@)) == Err::<LaunchView, Seq<char>>(e@),
            },
    {
        let mut st = ArgumentState {
            startup_url: None,
            open_task_manager: false,
            benchmark_url: None,
            output: None,
            screenshot: None,
            filmstrip_directory: None,
            filmstrip_interval_ms: None,
            filmstrip_duration_ms: None,
            settle_ms: 2_000,
            completion_marker: None,
            scroll_samples: 0,
            early_scroll: false,
            diagnostic_selectors: Vec::new(),
            navigation_targets: Vec::new(),
            navigation_delay_ms: 0,
            window_width_dip: None,
            window_height_dip: None,
            dpi_override: None,
        };
        assert(st.view() =~= initial_arguments());
        let ghost views = arg_views(arguments@);
        let mut i: usize = 0;
        while i < arguments.len()
            invariant
                i <= arguments.len(),
                views == arg_views(arguments@),
                spec_collect(views, 0, initial_arguments()) == spec_collect(views, i as int, st.view()),
            decreases arguments.len() - i,
        {
            match step(arguments, i, &mut st) {
                Ok(j) => {
                    i = j;
                },
                Err(e) => {
                    return Err(e);
                },
            }
        }
        Self::finish(st, process_started_us)
    }

    fn finish(st: ArgumentState, process_started_us: u64) -> (r: Result<Self, String>)
        ensures
            match r {
                Ok(o) => spec_finish(st.view()) matches Ok(v) && o.launch_view() == v
                    && (o.benchmark matches Some(b) ==> run_fresh(b, process_started_us)),
                Err(e) => spec_finish(st.view()) == Err::<LaunchView, Seq<char>>(e@),
            },
    {
        let ghost sv = st.view();
        match st.benchmark_url {
            Some(url) => {
                let output = match st.output {
                    Some(o) => o,
                    None => return Err(text("benchmark mode requires --output <result.json>")),
                };
                let interval = match st.filmstrip_interval_ms {
                    Some(v) => v,
                    None => 500,
                };
                let duration = match st.filmstrip_duration_ms {
                    Some(v) => v,
                    None => 10_000,
                };
                let filmstrip = match st.filmstrip_directory {
                    Some(dir) => Some(Filmstrip::new(dir, interval, duration)?),
                    None => None,
                };
                if filmstrip.is_none() && (st.filmstrip_interval_ms.is_some()
                    || st.filmstrip_duration_ms.is_some()) {
                    return Err(text("filmstrip timing requires --filmstrip-directory"));
                }
                let width = match st.window_width_dip {
                    Some(w) => w,
                    None => DEFAULT_WINDOW_WIDTH_DIP,
                };
                let height = match st.window_height_dip {
                    Some(h) => h,
                    None => DEFAULT_WINDOW_HEIGHT_DIP,
                };
                let mut benchmark = BenchmarkRun::new(
                    url.clone(),
                    output,
                    st.screenshot,
                    st.settle_ms,
                    st.completion_marker,
                    st.scroll_samples,
                    st.early_scroll,
                    st.diagnostic_selectors,
                    width,
                    height,
                    process_started_us,
                );
                benchmark.navigation_targets = st.navigation_targets;
                benchmark.navigation_delay_ms = st.navigation_delay_ms;
                benchmark.filmstrip = filmstrip;
                let o = LaunchOptions {
                    startup_url: Some(url),
                    open_task_manager: st.open_task_manager,
                    benchmark: Some(benchmark),
                    dpi_override: st.dpi_override,
                };
                assert(o.launch_view().benchmark.unwrap().diagnostic_selectors =~= sv.diagnostic_selectors);
                assert(o.launch_view().benchmark.unwrap().navigation_targets =~= sv.navigation_targets);
                Ok(o)
            },
            None => {
                if st.screenshot.is_some() {
                    return Err(text("--screenshot requires --benchmark"));
                }
                if st.filmstrip_directory.is_some() || st.filmstrip_interval_ms.is_some()
                    || st.filmstrip_duration_ms.is_some() {
                    return Err(text("filmstrip options require --benchmark"));
                }
                if st.scroll_samples > 0 {
                    return Err(text("--scroll-samples requires --benchmark"));
                }
                if st.completion_marker.is_some() {
                    return Err(text("--completion-marker requires --benchmark"));
                }
                if st.early_scroll {
                    return Err(text("--early-scroll-trace requires --benchmark"));
                }
                if st.diagnostic_selectors.len() > 0 {
                    return Err(text("--diagnostic-selector requires --benchmark"));
                }
                if st.navigation_targets.len() > 0 || st.navigation_delay_ms > 0 {
                    return Err(text("benchmark navigation options require --benchmark"));
                }
                if st.window_width_dip.is_some() || st.window_height_dip.is_some() {
                    return Err(text("--window-width and --window-height require --benchmark"));
                }
                if st.dpi_override.is_some() {
                    return Err(text("--device-scale-factor requires --benchmark"));
                }
                Ok(
                    LaunchOptions {
                        startup_url: st.startup_url,
                        open_task_manager: st.open_task_manager,
                        benchmark: None,
                        dpi_override: None,
                    },
                )
            },
        }
    }

    /// The DPI the window starts with: the run's explicit scale, else the
    /// monitor's `system_dpi`.
    pub fn initial_dpi(&self, system_dpi: u32) -> (dpi: u32)
        ensures
            dpi == match self.dpi_override {
                Some(d) => d,
                None => system_dpi,
            },
    {
        match self.dpi_override {
            Some(d) => d,
            None => system_dpi,
        }
    }

    /// Window size in device-independent pixels: the run's size, or the default.
    pub fn window_dimensions(&self) -> (d: (i32, i32))
        ensures
            d == match self.benchmark {
                Some(b) => (b.window_width_dip, b.window_height_dip),
                None => (DEFAULT_WINDOW_WIDTH_DIP, DEFAULT_WINDOW_HEIGHT_DIP),
            },
    {
        match &self.benchmark {
            Some(b) => (b.window_width_dip, b.window_height_dip),
            None => (DEFAULT_WINDOW_WIDTH_DIP, DEFAULT_WINDOW_HEIGHT_DIP),
        }
    }
}

} // verus!
