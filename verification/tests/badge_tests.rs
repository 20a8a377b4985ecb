use tokei_badge::badge::{
    category_amount, default_label, forbidden_badge, plan_badge, render_badge, resolve_color,
    style_from_keyword, BadgePlan, BadgeStyle,
};
use tokei_badge::stats::LangStats;

fn stats() -> LangStats {
    LangStats { code: 1500, comments: 100, blanks: 50, files: 7 }
}

#[test]
fn style_keywords_and_fallback() {
    assert!(matches!(style_from_keyword("flat"), BadgeStyle::Flat));
    assert!(matches!(style_from_keyword("flat-square"), BadgeStyle::FlatSquare));
    assert!(matches!(style_from_keyword("plastic"), BadgeStyle::Plastic));
    assert!(matches!(style_from_keyword("for-the-badge"), BadgeStyle::ForTheBadge));
    assert!(matches!(style_from_keyword("social"), BadgeStyle::Social));
    assert!(matches!(style_from_keyword("sparkly"), BadgeStyle::Flat));
    assert!(matches!(style_from_keyword(""), BadgeStyle::Flat));
}

#[test]
fn unparsable_color_falls_back_to_blue() {
    assert_eq!(resolve_color("definitely-not-a-color"), "#007ec6");
}

#[test]
fn valid_color_is_normalized_to_hex() {
    assert_eq!(resolve_color("red"), "#ff0000");
    assert_eq!(resolve_color("#e05d44"), "#e05d44");
}

#[test]
fn category_amounts_and_default_labels() {
    let s = stats();
    assert_eq!(category_amount(&s, "code"), 1500);
    assert_eq!(category_amount(&s, "files"), 7);
    assert_eq!(category_amount(&s, "blanks"), 50);
    assert_eq!(category_amount(&s, "comments"), 100);
    assert_eq!(category_amount(&s, "lines"), 1650);
    assert_eq!(category_amount(&s, "anything-else"), 1650);

    assert_eq!(default_label("code"), "lines of code");
    assert_eq!(default_label("files"), "files");
    assert_eq!(default_label("blanks"), "blank lines");
    assert_eq!(default_label("comments"), "comments");
    assert_eq!(default_label("lines"), "total lines");
    assert_eq!(default_label("anything-else"), "total lines");
}

#[test]
fn plan_prefers_json_then_ranked_language_then_amount() {
    let s = stats();
    assert!(matches!(plan_badge(true, &s, "lines", "", true, "Rust"), BadgePlan::Json));

    match plan_badge(false, &s, "lines", "custom", false, "Rust") {
        BadgePlan::Svg { label, message } => {
            assert_eq!(label, "custom");
            assert_eq!(message, "Rust");
        }
        BadgePlan::Json => panic!("expected a badge"),
    }

    match plan_badge(false, &s, "code", "", true, "") {
        BadgePlan::Svg { label, message } => {
            assert_eq!(label, "lines of code");
            assert_eq!(message, "1.5K");
        }
        BadgePlan::Json => panic!("expected a badge"),
    }

    match plan_badge(false, &s, "lines", "my label", false, "") {
        BadgePlan::Svg { label, message } => {
            assert_eq!(label, "my label");
            assert_eq!(message, "1.7K");
        }
        BadgePlan::Json => panic!("expected a badge"),
    }
}

#[test]
fn badge_renders_message_into_svg() {
    let svg = render_badge("lines of code", "1.5K", "blue", &BadgeStyle::Flat, "")
        .expect("rendering succeeds");
    assert!(svg.contains("1.5K"));
    assert!(svg.contains("lines of code"));
}

#[test]
fn unusable_logo_falls_back_to_a_plain_badge() {
    // When rendering with an embedded logo fails, rendering is retried once
    // without the logo; the badge still comes out with the same texts.
    let svg = render_badge("label", "1.5K", "blue", &BadgeStyle::Flat, "/no/such/logo.svg")
        .expect("the retry without the logo succeeds");
    assert!(svg.contains("1.5K"));
    assert!(svg.contains("label"));
}

#[test]
fn forbidden_badge_renders() {
    let f = forbidden_badge();
    let svg = render_badge(&f.label, &f.message, &f.color, &f.style, &f.logo)
        .expect("rendering succeeds");
    assert!(svg.contains("forbidden"));
    // The warning red reaches the renderer unchanged.
    assert_eq!(resolve_color(&f.color), "#e05d44");
}
