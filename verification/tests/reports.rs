use timegrep::duration::{format_duration, Styled, Tint};
use timegrep::report::{assemble, Report, DURATION_WIDTH};
use timegrep::unit::TimeUnit;

fn report(nanos: u128, unit: Option<TimeUnit>, content: &str) -> Report {
    Report {
        duration: format_duration(nanos, &unit),
        content: String::from(content),
    }
}

#[test]
fn the_duration_field_is_ten_wide() {
    assert_eq!(DURATION_WIDTH, 10);
}

#[test]
fn assemble_puts_the_separator_between() {
    assert_eq!(assemble(String::from("5ns       "), "hello"), "5ns       | hello");
    assert_eq!(assemble(String::new(), ""), "| ");
    assert_eq!(assemble(String::from("x"), "a | b"), "x| a | b");
}

#[test]
fn plain_report_pads_the_duration() {
    assert_eq!(report(5, None, "hello").plain(), "5ns       | hello");
    assert_eq!(report(1_100, None, "a-match-1").plain(), "1.100us   | a-match-1");
    assert_eq!(report(1_234_567, None, "x").plain(), "1.234ms   | x");
    assert_eq!(report(12_345_678_901, None, "x").plain(), "12.345s   | x");
    assert_eq!(report(0, Some(TimeUnit::Milli), "bar-ERR-1").plain(), "0.000ms   | bar-ERR-1");
}

#[test]
fn plain_report_keeps_a_wide_duration_whole() {
    assert_eq!(
        report(1_234_567_890, Some(TimeUnit::Nano), "x").plain(),
        "1234567890ns| x"
    );
    assert_eq!(
        report(1_234_567_890, Some(TimeUnit::Micro), "x").plain(),
        "1234567.890us| x"
    );
    assert_eq!(report(123_456_789, Some(TimeUnit::Micro), "x").plain(), "123456.789us| x");
    assert_eq!(report(99_999_999, Some(TimeUnit::Micro), "x").plain(), "99999.999us| x");
    assert_eq!(report(9_999_999, Some(TimeUnit::Micro), "x").plain(), "9999.999us| x");
    assert_eq!(report(999_999, Some(TimeUnit::Micro), "x").plain(), "999.999us | x");
}

#[test]
fn plain_report_keeps_the_line_unchanged() {
    assert_eq!(report(5, None, "").plain(), "5ns       | ");
    assert_eq!(report(5, None, "  spaced  ").plain(), "5ns       |   spaced  ");
    assert_eq!(report(5, None, "MiXeD Case").plain(), "5ns       | MiXeD Case");
    assert_eq!(report(5, None, "日本語 | x").plain(), "5ns       | 日本語 | x");
}

#[test]
fn plain_field_of_any_text() {
    let styled = Styled {
        text: String::from("abc"),
        tint: Tint::Green,
        bold: true,
    };
    assert_eq!(styled.plain_field(0), "abc");
    assert_eq!(styled.plain_field(3), "abc");
    assert_eq!(styled.plain_field(5), "abc  ");
}

#[test]
fn render_follows_the_colour_setting() {
    let nano = report(5, None, "hello");
    let micro = report(1_100, None, "a-match-1");
    let milli = report(1_234_567, None, "x");
    let short = report(9_999_999_999, None, "x");
    let long = report(12_345_678_901, None, "x");
    let wide = report(1_234_567_890, Some(TimeUnit::Micro), "x");

    colored::control::set_override(true);
    assert_eq!(nano.render(), "\u{1b}[36m5ns       \u{1b}[0m| hello");
    assert_eq!(micro.render(), "\u{1b}[32m1.100us   \u{1b}[0m| a-match-1");
    assert_eq!(milli.render(), "\u{1b}[33m1.234ms   \u{1b}[0m| x");
    assert_eq!(short.render(), "\u{1b}[31m9.999s    \u{1b}[0m| x");
    assert_eq!(long.render(), "\u{1b}[1;31m12.345s   \u{1b}[0m| x");
    assert_eq!(wide.render(), "\u{1b}[32m1234567.890us\u{1b}[0m| x");
    assert_eq!(
        long.duration.colored_field(12),
        "\u{1b}[1;31m12.345s     \u{1b}[0m"
    );
    assert_eq!(nano.duration.colored_field(0), "\u{1b}[36m5ns\u{1b}[0m");

    colored::control::set_override(false);
    for report in [&nano, &micro, &milli, &short, &long, &wide] {
        assert_eq!(report.render(), report.plain());
    }
    assert_eq!(nano.render(), "5ns       | hello");
    assert_eq!(long.duration.colored_field(12), "12.345s     ");
    assert_eq!(nano.duration.colored_field(0), "5ns");

    colored::control::unset_override();
}

#[test]
fn colored_field_takes_a_field_of_any_width() {
    let styled = format_duration(5, &None);

    colored::control::set_override(false);
    let plain = styled.colored_field(70_000);
    assert_eq!(plain.chars().count(), 70_000);
    assert!(plain.starts_with("5ns "));
    assert_eq!(plain.trim_end(), "5ns");
    assert_eq!(plain, styled.plain_field(70_000));

    colored::control::set_override(true);
    let painted = styled.colored_field(70_000);
    assert_eq!(painted, format!("\u{1b}[36m{}\u{1b}[0m", plain));

    colored::control::unset_override();
}

#[test]
fn each_colour_and_weight_has_its_own_opening() {
    let text = |tint, bold| Styled {
        text: String::from("x"),
        tint,
        bold,
    };
    colored::control::set_override(true);
    assert_eq!(text(Tint::Cyan, false).colored_field(2), "\u{1b}[36mx \u{1b}[0m");
    assert_eq!(text(Tint::Green, false).colored_field(2), "\u{1b}[32mx \u{1b}[0m");
    assert_eq!(text(Tint::Yellow, false).colored_field(2), "\u{1b}[33mx \u{1b}[0m");
    assert_eq!(text(Tint::Red, false).colored_field(2), "\u{1b}[31mx \u{1b}[0m");
    assert_eq!(text(Tint::Cyan, true).colored_field(2), "\u{1b}[1;36mx \u{1b}[0m");
    assert_eq!(text(Tint::Green, true).colored_field(2), "\u{1b}[1;32mx \u{1b}[0m");
    assert_eq!(text(Tint::Yellow, true).colored_field(2), "\u{1b}[1;33mx \u{1b}[0m");
    assert_eq!(text(Tint::Red, true).colored_field(2), "\u{1b}[1;31mx \u{1b}[0m");
    colored::control::unset_override();
}

#[test]
fn render_always_holds_the_plain_text() {
    let cases = [
        report(5, None, "hello"),
        report(1_100, None, "a-match-1"),
        report(12_345_678_901, None, "bar-ERR-2"),
        report(1_234_567_890, Some(TimeUnit::Micro), ""),
    ];
    for report in &cases {
        let rendered = report.render();
        let field = report.duration.plain_field(DURATION_WIDTH);
        assert!(rendered.contains(&field));
        assert!(rendered.ends_with(&format!("| {}", report.content)));
    }
}
