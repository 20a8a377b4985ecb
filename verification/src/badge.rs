//! Presentation adapter: maps statistics and query parameters to a
//! badge-rendering request — category selection, default labels, message
//! text — and drives the badge renderer, falling back to the default blue
//! for an unparsable color and retrying once without the logo when rendering
//! with it fails.

use vstd::prelude::*;
use vstd::string::StrSliceExecFns;
use crate::format::{format_amount, spec_format_amount};
use crate::stats::{lines, spec_lines, LangStats};
use crate::strutil::str_eq;

verus! {

/// The five badge styles the renderer offers.
#[derive(Clone, Copy, PartialEq, Eq, Structural, Debug)]
pub enum BadgeStyle {
    Flat,
    FlatSquare,
    Plastic,
    ForTheBadge,
    Social,
}

/// The style a keyword selects; anything unrecognized falls back to flat.
/// (The HTTP layer's default for a missing `style` parameter is `plastic`;
/// this fallback is for present but unrecognized values.)
pub open spec fn spec_style_from_keyword(s: Seq<char>) -> BadgeStyle {
    if s == "flat"@ {
        BadgeStyle::Flat
    } else if s == "flat-square"@ {
        BadgeStyle::FlatSquare
    } else if s == "plastic"@ {
        BadgeStyle::Plastic
    } else if s == "for-the-badge"@ {
        BadgeStyle::ForTheBadge
    } else if s == "social"@ {
        BadgeStyle::Social
    } else {
        BadgeStyle::Flat
    }
}

/// Maps a style keyword to a badge style, defaulting to flat.
pub fn style_from_keyword(s: &str) -> (r: BadgeStyle)
    ensures
        r == spec_style_from_keyword(s@),
{
    if str_eq(s, "flat") {
        BadgeStyle::Flat
    } else if str_eq(s, "flat-square") {
        BadgeStyle::FlatSquare
    } else if str_eq(s, "plastic") {
        BadgeStyle::Plastic
    } else if str_eq(s, "for-the-badge") {
        BadgeStyle::ForTheBadge
    } else if str_eq(s, "social") {
        BadgeStyle::Social
    } else {
        BadgeStyle::Flat
    }
}

/// The hex rendering that the CSS color parser gives a color string, when it
/// parses; a fixed function of the characters alone.
pub uninterp spec fn css_hex_of(s: Seq<char>) -> Option<Seq<char>>;

/// Relies on csscolorparser::parse and Color::to_css_hex: parsing either
/// fails or yields a color whose hex form depends on the input alone.
#[verifier::external_body]
fn parse_css_color(s: &str) -> (r: Option<String>)
    ensures
        r matches Some(h) ==> css_hex_of(s@) == Some(h@),
        r is None ==> css_hex_of(s@) is None,
{
    csscolorparser::parse(s).ok().map(|c| c.to_css_hex().to_string())
}

/// The default badge blue, used when a requested color does not parse.
pub fn default_color() -> (r: String)
    ensures
        r@ == "#007ec6"@,
{
    "#007ec6".to_owned()
}

/// The color the message side is drawn with: the hex form of the requested
/// CSS color, or the default blue when the request does not parse.
pub open spec fn spec_resolved_color(color: Seq<char>) -> Seq<char> {
    match css_hex_of(color) {
        Some(h) => h,
        None => "#007ec6"@,
    }
}

/// Resolves the requested color, falling back to the default blue.
pub fn resolve_color(color: &str) -> (r: String)
    ensures
        r@ == spec_resolved_color(color@),
{
    match parse_css_color(color) {
        Some(h) => h,
        None => default_color(),
    }
}

/// The amount a category selects from the combined stats: code, file,
/// blank-line or comment count, or (for `lines` and anything else) the
/// derived total line count.
pub open spec fn spec_category_amount(s: LangStats, category: Seq<char>) -> nat {
    if category == "code"@ {
        s.code as nat
    } else if category == "files"@ {
        s.files as nat
    } else if category == "blanks"@ {
        s.blanks as nat
    } else if category == "comments"@ {
        s.comments as nat
    } else {
        spec_lines(s)
    }
}

/// Selects the amount for a category.
pub fn category_amount(s: &LangStats, category: &str) -> (r: u64)
    ensures
        r as nat == spec_category_amount(*s, category@),
{
    if str_eq(category, "code") {
        s.code
    } else if str_eq(category, "files") {
        s.files
    } else if str_eq(category, "blanks") {
        s.blanks
    } else if str_eq(category, "comments") {
        s.comments
    } else {
        lines(s)
    }
}

/// The label used when the caller supplied none.
pub open spec fn spec_default_label(category: Seq<char>) -> Seq<char> {
    if category == "code"@ {
        "lines of code"@
    } else if category == "files"@ {
        "files"@
    } else if category == "blanks"@ {
        "blank lines"@
    } else if category == "comments"@ {
        "comments"@
    } else {
        "total lines"@
    }
}

/// The default label of a category.
pub fn default_label(category: &str) -> (r: String)
    ensures
        r@ == spec_default_label(category@),
{
    if str_eq(category, "code") {
        "lines of code".to_owned()
    } else if str_eq(category, "files") {
        "files".to_owned()
    } else if str_eq(category, "blanks") {
        "blank lines".to_owned()
    } else if str_eq(category, "comments") {
        "comments".to_owned()
    } else {
        "total lines".to_owned()
    }
}

/// What the response body will be.
pub enum BadgePlan {
    /// The combined statistics serialized as JSON, chosen by content
    /// negotiation; no badge is drawn.
    Json,
    /// An SVG badge with this label and message.
    Svg { label: String, message: String },
}

/// Plans the response body from the combined statistics and the query
/// parameters. JSON wins when negotiated; otherwise a non-empty ranked
/// language name overrides category-based rendering entirely, and otherwise
/// the message is the formatted category amount, with the category's default
/// label when the caller supplied none.
pub fn plan_badge(
    json: bool,
    stats: &LangStats,
    category: &str,
    label: &str,
    no_label: bool,
    ranking_language: &str,
) -> (r: BadgePlan)
    ensures
        (r is Json) <==> json,
        !json && ranking_language@.len() > 0 ==> (r matches BadgePlan::Svg { label: l, message: m }
            && l@ == label@ && m@ == ranking_language@),
        !json && ranking_language@.len() == 0 ==> (r matches BadgePlan::Svg {
            label: l,
            message: m,
        } && m@ == spec_format_amount(spec_category_amount(*stats, category@)) && l@ == (
        if no_label {
            spec_default_label(category@)
        } else {
            label@
        })),
{
    if json {
        return BadgePlan::Json;
    }
    if ranking_language.unicode_len() > 0 {
        return BadgePlan::Svg { label: label.to_owned(), message: ranking_language.to_owned() };
    }
    let amount = category_amount(stats, category);
    let message = format_amount(amount);
    let out_label = if no_label {
        default_label(category)
    } else {
        label.to_owned()
    };
    BadgePlan::Svg { label: out_label, message }
}

/// The fixed badge a whitelist rejection produces: empty label and logo,
/// the message `forbidden`, the warning red, plastic style — served with a
/// successful status, so badge-embedding clients still show it.
pub struct ForbiddenBadge {
    pub label: String,
    pub message: String,
    pub color: String,
    pub style: BadgeStyle,
    pub logo: String,
}

/// Builds the forbidden badge for a rejected owner.
pub fn forbidden_badge() -> (r: ForbiddenBadge)
    ensures
        r.label@.len() == 0,
        r.message@ == "forbidden"@,
        r.color@ == "#e05d44"@,
        r.style == BadgeStyle::Plastic,
        r.logo@.len() == 0,
{
    ForbiddenBadge {
        label: String::new(),
        message: "forbidden".to_owned(),
        color: "#e05d44".to_owned(),
        style: BadgeStyle::Plastic,
        logo: String::new(),
    }
}

/// Whether the renderer succeeds in drawing a logo-less badge with these
/// fields: success or failure depends on the arguments alone (the only error
/// sources are color validation and the compile-time-embedded fonts). The
/// drawn bytes themselves get no name: the renderer salts element ids in the
/// output, so two renderings of one badge may differ.
pub uninterp spec fn svg_renders(
    style: BadgeStyle,
    label: Seq<char>,
    msg: Seq<char>,
    label_color: Seq<char>,
    msg_color: Seq<char>,
) -> bool;

/// Relies on rsbadges::Style::generate_svg over a badge built from exactly
/// these fields and no logo: with nothing to read from disk or network,
/// whether it succeeds depends on the arguments alone; nothing is claimed of
/// the drawn bytes.
#[verifier::external_body]
fn render_svg(
    style: &BadgeStyle,
    label: &str,
    msg: &str,
    label_color: &str,
    msg_color: &str,
) -> (r: Result<String, ()>)
    ensures
        r is Ok <==> svg_renders(*style, label@, msg@, label_color@, msg_color@),
{
    let badge = rsbadges::Badge {
        label_text: label.to_owned(), label_color: label_color.to_owned(),
        msg_text: msg.to_owned(), msg_color: msg_color.to_owned(),
        ..rsbadges::Badge::default()
    };
    let styled = match style {
        BadgeStyle::Flat => rsbadges::Style::Flat(badge),
        BadgeStyle::FlatSquare => rsbadges::Style::FlatSquare(badge),
        BadgeStyle::Plastic => rsbadges::Style::Plastic(badge),
        BadgeStyle::ForTheBadge => rsbadges::Style::ForTheBadge(badge),
        BadgeStyle::Social => rsbadges::Style::Social(badge),
    };
    styled.generate_svg().map_err(|_| ())
}

/// Relies on rsbadges::Style::generate_svg with an embedded logo: embedding
/// may read the logo from disk or attempt a download, so nothing is claimed
/// of the outcome.
#[verifier::external_body]
fn render_svg_with_logo(
    style: &BadgeStyle,
    label: &str,
    msg: &str,
    label_color: &str,
    msg_color: &str,
    logo: &str,
) -> Result<String, ()> {
    let badge = rsbadges::Badge {
        label_text: label.to_owned(), label_color: label_color.to_owned(),
        msg_text: msg.to_owned(), msg_color: msg_color.to_owned(),
        logo: logo.to_owned(), embed_logo: true,
        ..rsbadges::Badge::default()
    };
    let styled = match style {
        BadgeStyle::Flat => rsbadges::Style::Flat(badge),
        BadgeStyle::FlatSquare => rsbadges::Style::FlatSquare(badge),
        BadgeStyle::Plastic => rsbadges::Style::Plastic(badge),
        BadgeStyle::ForTheBadge => rsbadges::Style::ForTheBadge(badge),
        BadgeStyle::Social => rsbadges::Style::Social(badge),
    };
    styled.generate_svg().map_err(|_| ())
}

/// The gray used for the label side of every badge.
pub fn label_gray() -> (r: String)
    ensures
        r@ == "#555555"@,
{
    "#555555".to_owned()
}

/// Renders the badge as SVG: label side in the fixed gray, message side in
/// the resolved color (default blue when unparsable). A non-empty logo is
/// embedded; when rendering with it fails, rendering is retried exactly once
/// without the logo, with everything else unchanged. Without a logo the call
/// succeeds exactly when the named logo-less rendering does, and a failure
/// is surfaced only when that logo-less rendering itself fails.
pub fn render_badge(label: &str, msg: &str, color: &str, style: &BadgeStyle, logo: &str) -> (r:
    Result<String, ()>)
    ensures
        logo@.len() == 0 ==> (r is Ok <==> svg_renders(
            *style,
            label@,
            msg@,
            "#555555"@,
            spec_resolved_color(color@),
        )),
        r is Err ==> !svg_renders(
            *style,
            label@,
            msg@,
            "#555555"@,
            spec_resolved_color(color@),
        ),
{
    let hex = resolve_color(color);
    let gray = label_gray();
    if logo.unicode_len() == 0 {
        render_svg(style, label, msg, gray.as_str(), hex.as_str())
    } else {
        match render_svg_with_logo(style, label, msg, gray.as_str(), hex.as_str(), logo) {
            Ok(svg) => Ok(svg),
            Err(_) => render_svg(style, label, msg, gray.as_str(), hex.as_str()),
        }
    }
}

} // verus!
