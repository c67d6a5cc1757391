//! Widgets, the screen, keys and polling.

use tokos::collectors::BackendKind;
use tokos::state::{Arithmetic, BackendSnapshot, History, MergedLogEntry, Snapshot};
use tokos::ui::controls::{Action, Controls, KeyCode, KeyPress};
use tokos::ui::figures::{chart_heights, draw_series, fmt_chars, panel_texts, peak};
use tokos::ui::frame::{available_caps, draw_frame, overlays, toast_end, Overlays};
use tokos::ui::layout::Rect;
use tokos::ui::painter::{Op, Painter, Scale};
use tokos::ui::poller::{absorb, faster, nap, slower, Poller, Round};
use tokos::ui::theme::{Pair, Theme};
use tokos::ui::widgets::{
    big_number, braille_chart, fmt_bytes, fmt_duration, fmt_seconds, hbar, histogram_bars,
    log_headroom_scale, stacked_chart_down, Figures,
};

/// Arithmetic on double-precision numbers.
struct Real;

impl Arithmetic for Real {
    type F = f64;

    fn parsed(&self, s: &str) -> Option<f64> {
        s.parse().ok()
    }

    fn infinity(&self) -> f64 {
        f64::INFINITY
    }

    fn no_number(&self) -> f64 {
        f64::NAN
    }

    fn whole(&self, n: i64) -> f64 {
        n as f64
    }

    fn plus(&self, a: f64, b: f64) -> f64 {
        a + b
    }

    fn minus(&self, a: f64, b: f64) -> f64 {
        a - b
    }

    fn times(&self, a: f64, b: f64) -> f64 {
        a * b
    }

    fn ratio(&self, a: f64, b: f64) -> f64 {
        a / b
    }

    fn larger(&self, a: f64, b: f64) -> f64 {
        a.max(b)
    }

    fn smaller(&self, a: f64, b: f64) -> f64 {
        a.min(b)
    }

    fn at_most(&self, a: f64, b: f64) -> bool {
        a <= b
    }

    fn under(&self, a: f64, b: f64) -> bool {
        a < b
    }

    fn equal(&self, a: f64, b: f64) -> bool {
        a == b
    }

    fn is_infinite(&self, a: f64) -> bool {
        a.is_infinite()
    }

    fn truncated(&self, a: f64) -> i64 {
        a as i64
    }

    fn exp_minus(&self, a: f64) -> f64 {
        (-a).exp()
    }
}

impl Figures for Real {
    fn fixed(&self, a: f64, decimals: usize) -> String {
        format!("{a:.decimals$}")
    }

    fn ln_1p(&self, a: f64) -> f64 {
        a.ln_1p()
    }

    fn rounded(&self, a: f64) -> i64 {
        a.round() as i64
    }

    fn is_finite(&self, a: f64) -> bool {
        a.is_finite()
    }
}

#[test]
fn braille_chart_flip() {
    let s = vec![0.25];
    let normal = braille_chart(&Real, 0.0, &s, 1, 1, 0.0, 1.0, false, false);
    let flipped = braille_chart(&Real, 0.0, &s, 1, 1, 0.0, 1.0, false, true);
    assert_ne!(normal, flipped);
    let n = normal[0].chars().next().unwrap() as u32;
    let f = flipped[0].chars().next().unwrap() as u32;
    assert_eq!(n - 0x2800, 0x80);
    assert_eq!(f - 0x2800, 0x08);
}

#[test]
fn only_last_samples_count() {
    let all: Vec<f64> = (0..9).map(|i| i as f64 / 8.0).collect();
    let last = all[5..].to_vec();
    for flip in [false, true] {
        assert_eq!(
            braille_chart(&Real, 0.0, &all, 2, 2, 0.0, 1.0, true, flip),
            braille_chart(&Real, 0.0, &last, 2, 2, 0.0, 1.0, true, flip)
        );
    }
}

#[test]
fn stacked_chart_down_bands() {
    let g = stacked_chart_down(&Real, 0.0, &vec![1.0], &vec![0.0], 1, 1, 1.0, false);
    assert_eq!(g[0][0].1, 0);
    let g = stacked_chart_down(&Real, 0.0, &vec![0.0], &vec![1.0], 1, 1, 1.0, false);
    assert_eq!(g[0][0].1, 1);
    let g = stacked_chart_down(&Real, 0.0, &vec![], &vec![], 1, 1, 1.0, false);
    assert_eq!(g[0][0], (' ', -1));
}

#[test]
fn fmt_duration_values() {
    assert_eq!(fmt_duration(&Real, 0.0, 45.0), "45s");
    assert_eq!(fmt_duration(&Real, 0.0, 12.0 * 60.0), "12m");
    assert_eq!(fmt_duration(&Real, 0.0, 3.0 * 3600.0 + 20.0 * 60.0), "3h 20m");
    assert_eq!(fmt_duration(&Real, 0.0, 2.0 * 86400.0 + 4.0 * 3600.0), "2d 4h");
    assert_eq!(fmt_duration(&Real, 0.0, -1.0), "—");
    assert_eq!(fmt_duration(&Real, 0.0, f64::INFINITY), "—");
}

#[test]
fn braille_chart_shape() {
    let series: Vec<f64> = (0..100).map(|i| ((i as f64) / 5.0).sin()).collect();
    let (w, h) = (20usize, 4usize);
    let rows = braille_chart(&Real, 0.0, &series, w, h, 0.0, 1.0, true, false);
    assert_eq!(rows.len(), h);
    for row in &rows {
        assert_eq!(row.chars().count(), w);
        assert!(row.chars().all(|c| {
            let u = c as u32;
            (0x2800..=0x28FF).contains(&u)
        }));
    }
}

#[test]
fn braille_chart_is_exact() {
    let s = vec![0.0, 1.0, 0.5, 2.0];
    let rows = braille_chart(&Real, 0.0, &s, 2, 1, 0.0, 1.0, false, false);
    assert_eq!(rows, vec!["\u{28b8}\u{28fc}".to_string()]);
    let rows = braille_chart(&Real, 0.0, &s, 2, 1, 0.0, 1.0, true, false);
    assert_eq!(rows, vec!["\u{28f8}\u{28fc}".to_string()]);
    // The last samples, right-aligned.
    let rows = braille_chart(&Real, 0.0, &s, 1, 1, 0.0, 1.0, false, false);
    assert_eq!(rows, vec!["\u{28fc}".to_string()]);
    let rows = braille_chart(&Real, 0.0, &vec![1.0], 2, 2, 0.0, 1.0, false, false);
    assert_eq!(rows, vec!["\u{2800}\u{28b8}".to_string(), "\u{2800}\u{28b8}".to_string()]);
    assert!(braille_chart(&Real, 0.0, &s, 0, 3, 0.0, 1.0, false, false).is_empty());
    assert!(braille_chart(&Real, 0.0, &s, 3, 0, 0.0, 1.0, false, false).is_empty());
    // A flat axis counts as one.
    let rows = braille_chart(&Real, 0.0, &vec![1.0], 1, 1, 0.0, 0.0, false, false);
    assert_eq!(rows, vec!["\u{28b8}".to_string()]);
}

#[test]
fn stacked_chart_is_exact() {
    let near = vec![0.25, 0.5];
    let far = vec![0.75, 0.25];
    let g = stacked_chart_down(&Real, 0.0, &near, &far, 1, 1, 1.0, false);
    // Three near dots, four far ones.
    assert_eq!(g, vec![vec![('\u{287f}', 1)]]);
    let g = stacked_chart_down(&Real, 0.0, &vec![1.0, 3.0], &vec![2.0, 0.0], 1, 1, 3.0, true);
    // Near 2 of 4 and 4 of 4; far 2 and 0.
    assert_eq!(g, vec![vec![('\u{28ff}', 0)]]);
    let g = stacked_chart_down(&Real, 0.0, &vec![], &vec![1.0], 2, 1, 1.0, false);
    assert_eq!(g[0][0], (' ', -1));
    assert_eq!(g[0][1], ('\u{28b8}', 1));
    // An axis that is not positive ends at one.
    let g = stacked_chart_down(&Real, 0.0, &vec![9.0, 9.0], &vec![0.0, 0.0], 1, 1, 0.0, false);
    assert_eq!(g, vec![vec![('\u{28ff}', 0)]]);
    assert!(stacked_chart_down(&Real, 0.0, &near, &far, 1, 0, 1.0, false).is_empty());
}

#[test]
fn headroom_is_expanded() {
    let v = log_headroom_scale(&Real, 0.0, &vec![0.0, 50.0, 100.0, 150.0, -5.0], 100.0);
    assert!(v[0].abs() < 1e-12);
    assert_eq!(v[1], 1.0 - (19.0f64 * 50.0 / 100.0).ln_1p() / 19.0f64.ln_1p());
    assert_eq!(v[2], 1.0);
    assert_eq!(v[3], 1.0);
    assert!(v[4].abs() < 1e-12);
    assert_eq!(log_headroom_scale(&Real, 0.0, &vec![3.0, 4.0], 0.0), vec![0.0, 0.0]);
}

#[test]
fn hbar_fills_in_proportion() {
    assert_eq!(hbar(&Real, 0.0, 5.0, 10.0, 4), "██░░");
    assert_eq!(hbar(&Real, 0.0, 50.0, 10.0, 4), "████");
    assert_eq!(hbar(&Real, 0.0, -5.0, 10.0, 4), "░░░░");
    assert_eq!(hbar(&Real, 0.0, 5.0, 0.0, 4), "░░░░");
    assert_eq!(hbar(&Real, 0.0, 5.0, 10.0, 0), "");
    assert_eq!(hbar(&Real, 0.0, f64::NAN, 10.0, 2), "░░");
}

#[test]
fn sparklines_use_blocks() {
    assert_eq!(
        histogram_bars(&Real, 0.0, &vec![0.0, 1.0, 4.0, 8.0, 9.0], 8.0),
        " ▁▄██"
    );
    assert_eq!(histogram_bars(&Real, 0.0, &vec![0.5, 1.0], 0.0), "▄█");
    assert_eq!(histogram_bars(&Real, 0.0, &vec![], 1.0), "");
}

#[test]
fn big_numbers() {
    assert_eq!(big_number(&Real, 2_500_000.0, " tok/s"), "2.50M tok/s");
    assert_eq!(big_number(&Real, 1_234.0, ""), "1.2k");
    assert_eq!(big_number(&Real, 123.4, ""), "123");
    assert_eq!(big_number(&Real, 12.34, ""), "12.3");
    assert_eq!(big_number(&Real, 1.234, "x"), "1.23x");
    assert_eq!(big_number(&Real, 0.0, ""), "0.00");
}

#[test]
fn latencies() {
    assert_eq!(fmt_seconds(&Real, 0.0, 0.0), "—");
    assert_eq!(fmt_seconds(&Real, 0.0, -1.0), "—");
    assert_eq!(fmt_seconds(&Real, 0.0, 0.25), "250ms");
    assert_eq!(fmt_seconds(&Real, 0.0, 1.5), "1.50s");
}

#[test]
fn sizes() {
    assert_eq!(fmt_bytes(&Real, 1023.0), "1023.0B");
    assert_eq!(fmt_bytes(&Real, 1536.0), "1.5KB");
    assert_eq!(fmt_bytes(&Real, 1024.0 * 1024.0), "1.0MB");
    assert_eq!(fmt_bytes(&Real, 1024f64.powi(3)), "1.0GB");
    assert_eq!(fmt_bytes(&Real, 1024f64.powi(4)), "1.0TB");
    assert_eq!(fmt_bytes(&Real, 1024f64.powi(5) * 2000.0), "2000.0PB");
    assert_eq!(fmt_chars(&Real, 999), "999");
    assert_eq!(fmt_chars(&Real, 1234), "1.2k");
    assert_eq!(fmt_chars(&Real, 12_345), "12k");
    assert_eq!(fmt_chars(&Real, 1_300_000), "1.3M");
    assert_eq!(fmt_chars(&Real, -5), "-5");
}

#[test]
fn durations_round_down() {
    assert_eq!(fmt_duration(&Real, 0.0, 59.9), "59s");
    assert_eq!(fmt_duration(&Real, 0.0, 60.0), "1m");
    assert_eq!(fmt_duration(&Real, 0.0, f64::NAN), "—");
}

// ---- the screen ----

fn snapshot() -> Snapshot<f64> {
    let mut b = BackendSnapshot::new(0.0);
    b.reachable = true;
    b.model_name = Some("GLM-5.2".to_string());
    Snapshot::new(1.0, b)
}

fn history() -> History<f64> {
    let mut h = History::new(512, 0.0);
    for i in 0..5 {
        let mut s = snapshot();
        s.monotonic = i as f64;
        s.backend.generation_tokens_total = 1500.0 * i as f64;
        s.backend.kv_cache_usage_perc = 0.5;
        h.update(&Real, s);
    }
    h
}

fn frame(lines: i32, cols: i32, controls: &Controls, o: &Overlays, snap: &Snapshot<f64>) -> Vec<Op> {
    let h = history();
    let mut p = Painter::new(cols as u16, lines as u16);
    let texts = panel_texts(&Real, &h, snap, 100.0);
    draw_frame(&mut p, lines, cols, &available_caps(true), &texts, snap, controls, o);
    let mut q = Painter::new(cols as u16, lines as u16);
    for op in p.into_ops() {
        match op {
            Op::Text { y, x, text, style } => q.text(y, x, &text, style),
            Op::Chart(c) => draw_series(&Real, &h, &mut q, &c),
        }
    }
    q.into_ops()
}

fn screen(lines: i32, cols: i32, ops: &Vec<Op>) -> Vec<String> {
    let mut grid = vec![vec![' '; cols as usize]; lines as usize];
    for op in ops {
        match op {
            Op::Text { y, x, text, .. } => {
                for (i, c) in text.chars().enumerate() {
                    grid[*y as usize][*x as usize + i] = c;
                }
            }
            Op::Chart(_) => unreachable!(),
        }
    }
    grid.into_iter().map(|row| row.into_iter().collect()).collect()
}

const NO_TOASTS: Overlays = Overlays { view_toast: false, backend_toast: false };

#[test]
fn small_terminals_say_so() {
    let k = Controls::new(BackendKind::Auto);
    let ops = frame(10, 60, &k, &NO_TOASTS, &snapshot());
    assert_eq!(ops.len(), 1);
    let rows = screen(10, 60, &ops);
    assert_eq!(
        rows[5].trim(),
        "terminal too small — resize to at least 62x20"
    );
    assert_eq!(rows[5].chars().take_while(|c| *c == ' ').count(), (60 - 45) / 2);
}

#[test]
fn panels_fill_the_screen() {
    let k = Controls::new(BackendKind::Auto);
    for (lines, cols) in [(20, 62), (24, 80), (50, 200)] {
        let ops = frame(lines, cols, &k, &NO_TOASTS, &snapshot());
        let rows = screen(lines, cols, &ops);
        assert!(rows[0].starts_with('┌'));
        assert!(rows[0].ends_with('┐'));
        assert!(rows[lines as usize - 1].starts_with('└'));
        assert!(rows[lines as usize - 1].ends_with('┘'));
        let all = rows.join("\n");
        assert!(all.contains("throughput"));
        assert!(all.contains("requests"));
        assert!(all.contains("1.5k tok/s"));
    }
}

#[test]
fn perf_texts_are_aligned() {
    let k = Controls::new(BackendKind::Auto);
    let rows = screen(60, 160, &frame(60, 160, &k, &NO_TOASTS, &snapshot()));
    let at = |s: &str| rows.iter().position(|r| r.contains(s)).unwrap();
    let rule = at("per-request");
    for (i, label) in ["p-tok", "g-tok", "prefill", "decode"].iter().enumerate() {
        assert_eq!(at(label), rule + 1 + i);
    }
}

#[test]
fn overlays_are_drawn() {
    let mut k = Controls::new(BackendKind::Vllm);
    let o = Overlays { view_toast: true, backend_toast: true };
    let rows = screen(40, 100, &frame(40, 100, &k, &o, &snapshot()));
    assert!(rows[0].contains(" 1/1  overview "));
    assert!(rows[1].contains(" backend: vllm "));
    k.show_help = true;
    let rows = screen(40, 100, &frame(40, 100, &k, &NO_TOASTS, &snapshot()));
    let all = rows.join("\n");
    assert!(all.contains("tokos — keybindings"));
    assert!(all.contains("b          cycle backend (auto → vllm → sglang)"));
    assert!(all.contains("press any key to close"));
}

#[test]
fn feed_rows_are_drawn() {
    let mut s = snapshot();
    let mut e = MergedLogEntry::new(55.0);
    e.path = "/v1/chat/completions".to_string();
    e.request_id = Some("chatcmpl-abc".to_string());
    e.max_tokens = Some(77);
    e.prompt = Some("tell me\na story".to_string());
    e.prompt_chars = Some(1234);
    s.merged_log.push(e);
    let k = Controls::new(BackendKind::Vllm);
    let rows = screen(50, 200, &frame(50, 200, &k, &NO_TOASTS, &s));
    let row = rows.iter().find(|r| r.contains("chatcmpl-abc")).unwrap();
    assert!(row.contains("45s"));
    assert!(row.contains("77"));
    assert!(row.contains("1.2k"));
}

#[test]
fn toasts_stay_a_while() {
    let until = toast_end(&Real, 10.0);
    assert_eq!(until, 11.5);
    let o = overlays(&Real, 11.0, until, 0.0);
    assert!(o.view_toast && !o.backend_toast);
    let o = overlays(&Real, 11.5, until, 12.0);
    assert!(!o.view_toast && o.backend_toast);
}

#[test]
fn charts_are_scaled_by_their_peak() {
    assert_eq!(peak(&Real, 0.0, &vec![1.0, 7.0, 3.0]), 7.0);
    assert_eq!(peak(&Real, 0.0, &vec![-1.0]), 0.0);
    let v = vec![0.0, 1.0, 2.0];
    assert_eq!(chart_heights(&Real, 0.0, &v, Scale::Peak { floor: 6 }, 8), vec![0, 4, 8]);
    assert_eq!(chart_heights(&Real, 0.0, &v, Scale::Percent, 8), vec![0, 0, 0]);
    assert_eq!(
        chart_heights(&Real, 0.0, &vec![50.0, 100.0], Scale::Percent, 8),
        vec![4, 8]
    );
    assert_eq!(chart_heights(&Real, 0.0, &vec![0.0], Scale::Peak { floor: 6 }, 8), vec![0]);
}

#[test]
fn texts_are_clipped_to_the_terminal() {
    let mut p = Painter::new(10, 3);
    let style = p.attr(Pair::Title, true, false);
    p.text(0, 7, "abcdef", style);
    p.text(3, 0, "below", style);
    p.text(-1, 0, "above", style);
    p.text(0, 10, "right", style);
    p.text(0, -1, "left", style);
    let ops = p.into_ops();
    assert_eq!(ops.len(), 1);
    assert!(matches!(&ops[0], Op::Text { y: 0, x: 7, text, .. } if text == "abc"));
}

#[test]
fn boxes_leave_their_inside() {
    let mut p = Painter::new(10, 4);
    let inner = p.box_(Rect { y: 0, x: 0, h: 4, w: 10 }, "t", 3, Pair::Title, "", Pair::Div);
    assert!(inner == Rect { y: 1, x: 1, h: 2, w: 8 });
    let rows = screen(4, 10, &p.into_ops());
    assert_eq!(rows[0], "┌─³ t ───┐");
    assert_eq!(rows[1], "│        │");
    assert_eq!(rows[3], "└────────┘");
    let mut p = Painter::new(10, 4);
    let inner = p.box_(Rect { y: 1, x: 2, h: 1, w: 10 }, "t", 0, Pair::Title, "", Pair::Div);
    assert!(inner == Rect { y: 1, x: 2, h: 0, w: 0 });
    assert!(p.into_ops().is_empty());
}

#[test]
fn thresholds() {
    let t = Theme::new();
    assert!(t.threshold(&Real, 0.5, 1.0, 2.0) == Pair::Green);
    assert!(t.threshold(&Real, 1.0, 1.0, 2.0) == Pair::Yellow);
    assert!(t.threshold(&Real, 2.0, 1.0, 2.0) == Pair::Red);
}

// ---- keys and polling ----

fn key(c: char) -> KeyPress {
    KeyPress { code: KeyCode::Char(c), ctrl: false }
}

#[test]
fn keys_ask_for_actions() {
    let mut k = Controls::new(BackendKind::Auto);
    assert_eq!(k.press(key('q'), 1), Action::Quit);
    assert_eq!(k.press(KeyPress { code: KeyCode::Esc, ctrl: false }, 1), Action::Quit);
    assert_eq!(k.press(KeyPress { code: KeyCode::Char('c'), ctrl: true }, 1), Action::Quit);
    assert_eq!(k.press(key('c'), 1), Action::Nothing);
    assert_eq!(k.press(key('p'), 1), Action::TogglePause);
    assert_eq!(k.press(key('+'), 1), Action::Faster);
    assert_eq!(k.press(key('='), 1), Action::Faster);
    assert_eq!(k.press(key('-'), 1), Action::Slower);
    assert_eq!(k.press(key('b'), 1), Action::SwapBackend(BackendKind::Vllm));
    assert_eq!(k.press(key('b'), 1), Action::SwapBackend(BackendKind::Sgl));
    assert_eq!(k.press(key('b'), 1), Action::SwapBackend(BackendKind::Auto));
    assert_eq!(k.press(KeyPress { code: KeyCode::Other, ctrl: false }, 1), Action::Nothing);
}

#[test]
fn any_key_closes_the_help() {
    let mut k = Controls::new(BackendKind::Auto);
    k.press(key('?'), 1);
    assert!(k.show_help);
    assert_eq!(k.press(key('q'), 1), Action::Nothing);
    assert!(!k.show_help);
    k.press(key('h'), 1);
    assert!(k.show_help);
}

#[test]
fn views_are_switched() {
    let mut k = Controls::new(BackendKind::Auto);
    assert_eq!(k.press(key('2'), 3), Action::ViewToast);
    assert_eq!(k.active_view, 1);
    assert_eq!(k.press(key('2'), 3), Action::Nothing);
    assert_eq!(k.press(key('4'), 3), Action::Nothing);
    assert_eq!(k.active_view, 1);
    let tab = KeyPress { code: KeyCode::Tab, ctrl: false };
    assert_eq!(k.press(tab, 3), Action::ViewToast);
    assert_eq!(k.press(tab, 3), Action::ViewToast);
    assert_eq!(k.active_view, 0);
    assert_eq!(k.press(tab, 1), Action::Nothing);
}

#[test]
fn intervals_are_stepped() {
    assert_eq!(faster(&Real, 1.0), 0.5);
    assert_eq!(faster(&Real, 0.3), 0.2);
    assert_eq!(faster(&Real, 0.1), 0.1);
    assert_eq!(slower(&Real, 20.0), 20.0);
    assert_eq!(slower(&Real, 1.0), 2.0);
    assert_eq!(slower(&Real, 8.0), 10.0);
    assert_eq!(nap(&Real, 1.0, 0.0), Some(0.1));
    assert_eq!(nap(&Real, 1.0, 0.95), Some(1.0 - 0.95));
    assert_eq!(nap(&Real, 1.0, 1.0), None);
}

#[test]
fn rounds_of_the_poller() {
    let mut p: Poller<f64> = Poller::new(BackendKind::Auto, 1.0);
    assert!(matches!(p.begin_round(), Round::Go { backend: None, poll: true }));
    p.end_round(snapshot(), BackendKind::Vllm);
    assert_eq!(p.kind_epoch(), 1);
    p.end_round(snapshot(), BackendKind::Vllm);
    assert_eq!(p.kind_epoch(), 1);
    assert!(p.take().is_some());
    assert!(p.take().is_none());
    p.request_backend(BackendKind::Sgl);
    assert!(p.toggle_pause());
    assert!(p.paused());
    assert!(matches!(
        p.begin_round(),
        Round::Go { backend: Some(BackendKind::Sgl), poll: false }
    ));
    assert!(matches!(p.begin_round(), Round::Go { backend: None, poll: false }));
    p.set_interval(0.5);
    assert_eq!(p.interval(), 0.5);
    p.stop();
    assert!(p.stopping());
    assert!(matches!(p.begin_round(), Round::Stop));
}

#[test]
fn another_backend_starts_the_history_over() {
    let mut h = history();
    let mut last = 0;
    let mut s = snapshot();
    s.monotonic = 9.0;
    absorb(&Real, &mut h, &mut last, 0, s);
    assert_eq!(h.series("running").unwrap().len(), 6);
    let mut s = snapshot();
    s.monotonic = 10.0;
    absorb(&Real, &mut h, &mut last, 1, s);
    assert_eq!(last, 1);
    assert_eq!(h.series("running").unwrap().len(), 1);
}
