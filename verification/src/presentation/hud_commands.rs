use vstd::prelude::*;
use crate::presentation::model::PaperTintColor;
use crate::seqs::{keep, lemma_keep_step};
use crate::text::{
    chars_of, contains_chars, contains_text, parse_u32, parsed_u32, same_chars, string_of,
    trim_chars, trimmed, is_digit, unsigned_digits, all_digits, decimal_value,
};

verus! {

/// An entry of the command palette.
#[derive(Debug, Clone, Copy, PartialEq, Eq)]
pub struct HudCommandItem {
    pub id: &'static str,
    pub title: &'static str,
    pub subtitle: &'static str,
}

impl View for HudCommandItem {
    type V = (Seq<char>, Seq<char>, Seq<char>);

    open spec fn view(&self) -> (Seq<char>, Seq<char>, Seq<char>) {
        (self.id@, self.title@, self.subtitle@)
    }
}

/// The palette's commands, in the order they are listed: id, title, subtitle.
pub open spec fn hud_command_list() -> Seq<(Seq<char>, Seq<char>, Seq<char>)> {
    seq![
        ("zen"@, "Toggle Zen Reading Mode (F11)"@, "Focus view without distractions"@),
        ("invert_colors"@, "Toggle Inverted Page Colors (Ctrl+I)"@, "High contrast inverted reading mode"@),
        ("tint_sepia"@, "Paper Tint: Warm Sepia"@, "Eye comfort mode for book reading"@),
        ("tint_night"@, "Paper Tint: Dark Invert"@, "Inverted high contrast night reading"@),
        ("tint_amber"@, "Paper Tint: OLED Amber"@, "Warm amber glow on deep black"@),
        ("tint_normal"@, "Paper Tint: Original"@, "Standard PDF colors"@),
        ("print"@, "Print Document (Ctrl+P)"@, "Open native Windows print preview"@),
        ("fit_width"@, "Zoom: Fit to Width"@, "Scale document page to window width"@),
        ("fit_page"@, "Zoom: Fit Entire Page"@, "Scale document page to fit window"@),
    ]
}

/// Every command of the palette.
pub fn all_hud_commands() -> (r: Vec<HudCommandItem>)
    ensures
        r@.map_values(|c: HudCommandItem| c@) == hud_command_list(),
{
    let mut out: Vec<HudCommandItem> = Vec::new();
    out.push(HudCommandItem { id: "zen", title: "Toggle Zen Reading Mode (F11)", subtitle: "Focus view without distractions" });
    out.push(HudCommandItem { id: "invert_colors", title: "Toggle Inverted Page Colors (Ctrl+I)", subtitle: "High contrast inverted reading mode" });
    out.push(HudCommandItem { id: "tint_sepia", title: "Paper Tint: Warm Sepia", subtitle: "Eye comfort mode for book reading" });
    out.push(HudCommandItem { id: "tint_night", title: "Paper Tint: Dark Invert", subtitle: "Inverted high contrast night reading" });
    out.push(HudCommandItem { id: "tint_amber", title: "Paper Tint: OLED Amber", subtitle: "Warm amber glow on deep black" });
    out.push(HudCommandItem { id: "tint_normal", title: "Paper Tint: Original", subtitle: "Standard PDF colors" });
    out.push(HudCommandItem { id: "print", title: "Print Document (Ctrl+P)", subtitle: "Open native Windows print preview" });
    out.push(HudCommandItem { id: "fit_width", title: "Zoom: Fit to Width", subtitle: "Scale document page to window width" });
    out.push(HudCommandItem { id: "fit_page", title: "Zoom: Fit Entire Page", subtitle: "Scale document page to fit window" });
    assert(out@.map_values(|c: HudCommandItem| c@) =~= hud_command_list());
    out
}

/// What `str::to_lowercase` makes of a text.
pub uninterp spec fn lowercase_of(s: Seq<char>) -> Seq<char>;

/// Calls `str::to_lowercase`; its result is named, not restated. Every character
/// lowercases to at least one character, so the result is empty exactly when the text is.
#[verifier::external_body]
fn lowercase(s: &str) -> (r: String)
    ensures
        r@ == lowercase_of(s@),
        r@.len() == 0 <==> s@.len() == 0,
{
    s.to_lowercase()
}

/// A command the (already lowered and trimmed) query `q` finds: in its lowered title or
/// subtitle, or in its id.
pub open spec fn hud_matches(c: (Seq<char>, Seq<char>, Seq<char>), q: Seq<char>) -> bool {
    contains_text(lowercase_of(c.1), q) || contains_text(lowercase_of(c.2), q) || contains_text(
        c.0,
        q,
    )
}

pub open spec fn hud_matches_fn(q: Seq<char>) -> spec_fn((Seq<char>, Seq<char>, Seq<char>)) -> bool {
    |c: (Seq<char>, Seq<char>, Seq<char>)| hud_matches(c, q)
}

/// The query as it is compared: trimmed, then lowered.
pub open spec fn hud_query_text(query: Seq<char>) -> Seq<char> {
    lowercase_of(trimmed(query))
}

/// The commands a palette query lists: all of them for a blank query, otherwise those it
/// finds, in their order.
pub open spec fn hud_filtered(query: Seq<char>) -> Seq<(Seq<char>, Seq<char>, Seq<char>)> {
    let q = hud_query_text(query);
    if q.len() == 0 {
        hud_command_list()
    } else {
        keep(hud_command_list(), hud_matches_fn(q))
    }
}

fn text_contains(s: &str, q: &[char]) -> (r: bool)
    ensures
        r == contains_text(s@, q@),
{
    let cs = chars_of(s);
    contains_chars(cs.as_slice(), q)
}

pub fn filter_hud_commands(query: &str) -> (r: Vec<HudCommandItem>)
    ensures
        r@.map_values(|c: HudCommandItem| c@) == hud_filtered(query@),
        trimmed(query@).len() == 0 ==> r@.map_values(|c: HudCommandItem| c@)
            == hud_command_list(),
{
    let t = trim_chars(chars_of(query).as_slice());
    let ts = string_of(t.as_slice());
    let q = chars_of(lowercase(ts.as_str()).as_str());
    let all = all_hud_commands();
    if q.len() == 0 {
        return all;
    }
    let ghost cs = hud_command_list();
    let ghost f = hud_matches_fn(q@);
    let mut out: Vec<HudCommandItem> = Vec::new();
    let mut i: usize = 0;
    assert(cs.take(0) =~= Seq::<(Seq<char>, Seq<char>, Seq<char>)>::empty());
    assert(out@.map_values(|c: HudCommandItem| c@) =~= Seq::<(Seq<char>, Seq<char>, Seq<char>)>::empty());
    while i < all.len()
        invariant
            i <= all.len(),
            all@.map_values(|c: HudCommandItem| c@) == cs,
            f == hud_matches_fn(q@),
            out@.map_values(|c: HudCommandItem| c@) == keep(cs.take(i as int), f),
        decreases all.len() - i,
    {
        let c = all[i];
        assert(c@ == cs[i as int]);
        proof {
            lemma_keep_step(cs, f, i as int);
        }
        let found = text_contains(lowercase(c.title).as_str(), q.as_slice()) || text_contains(
            lowercase(c.subtitle).as_str(),
            q.as_slice(),
        ) || text_contains(c.id, q.as_slice());
        if found {
            let ghost before = out@.map_values(|c: HudCommandItem| c@);
            out.push(c);
            assert(out@.map_values(|c: HudCommandItem| c@) =~= before.push(c@));
        }
        i += 1;
    }
    assert(cs.take(all.len() as int) =~= cs);
    out
}

/// What a query typed into the command palette asks for; the palette closes in every case.
pub enum HudAction {
    /// Go to the 0-based page.
    GoToPage(u32),
    ToggleZen,
    ToggleInvert,
    SetPaperTint(PaperTintColor),
    Print,
    FitWidth,
    FitPage,
    /// Show that the (trimmed) command is unknown.
    Unknown(String),
    /// A blank query: nothing more.
    Nothing,
}

/// The action a palette query names: a page number of at least 1 goes to that page;
/// otherwise the lowered query is searched for keywords (English or Turkish) in a fixed
/// order, and anything else non-blank is unknown.
pub open spec fn hud_action_for(r: HudAction, query: Seq<char>) -> bool {
    let t = trimmed(query);
    let lower = lowercase_of(t);
    if parsed_u32(t) is Some && parsed_u32(t)->0 >= 1 {
        r == HudAction::GoToPage((parsed_u32(t)->0 - 1) as u32)
    } else if contains_text(lower, "zen"@) || lower == "f11"@ {
        r == HudAction::ToggleZen
    } else if contains_text(lower, "invert"@) || contains_text(lower, "ters"@) {
        r == HudAction::ToggleInvert
    } else if contains_text(lower, "sepia"@) || contains_text(lower, "sepya"@) {
        r == HudAction::SetPaperTint(PaperTintColor::WarmSepia)
    } else if contains_text(lower, "night"@) || contains_text(lower, "gece"@) || contains_text(
        lower,
        "dark"@,
    ) {
        r == HudAction::SetPaperTint(PaperTintColor::Night)
    } else if contains_text(lower, "amber"@) || contains_text(lower, "kehribar"@) {
        r == HudAction::SetPaperTint(PaperTintColor::OledAmber)
    } else if contains_text(lower, "normal"@) || contains_text(lower, "orijinal"@) || contains_text(
        lower,
        "original"@,
    ) {
        r == HudAction::SetPaperTint(PaperTintColor::Normal)
    } else if contains_text(lower, "print"@) || contains_text(lower, "yazd"@) {
        r == HudAction::Print
    } else if contains_text(lower, "fit width"@) || contains_text(lower, "geni"@) {
        r == HudAction::FitWidth
    } else if contains_text(lower, "fit page"@) || contains_text(lower, "sayfa s"@) {
        r == HudAction::FitPage
    } else if t.len() > 0 {
        r matches HudAction::Unknown(s) && s@ == t
    } else {
        r == HudAction::Nothing
    }
}

/// A query with a character that is neither a digit nor a leading sign is no page number.
proof fn lemma_not_a_page_number(t: Seq<char>, k: int)
    requires
        0 <= k < t.len(),
        !is_digit(t[k]),
        t[k] != '+',
    ensures
        parsed_u32(t) is None,
{
    let d = unsigned_digits(t);
    if t[0] == '+' {
        assert(d[k - 1] == t[k]);
    } else {
        assert(d[k] == t[k]);
    }
}

/// A palette query that is no page number and whose lowered text asks for the night tint
/// (and for no command checked before it: zen mode, inverting colours, sepia) selects the
/// night paper tint.
pub proof fn lemma_night_query_selects_night_tint(r: HudAction, query: Seq<char>, k: int)
    requires
        hud_action_for(r, query),
        0 <= k < trimmed(query).len(),
        !is_digit(trimmed(query)[k]),
        trimmed(query)[k] != '+',
        contains_text(lowercase_of(trimmed(query)), "night"@),
        !contains_text(lowercase_of(trimmed(query)), "zen"@),
        lowercase_of(trimmed(query)) != "f11"@,
        !contains_text(lowercase_of(trimmed(query)), "invert"@),
        !contains_text(lowercase_of(trimmed(query)), "ters"@),
        !contains_text(lowercase_of(trimmed(query)), "sepia"@),
        !contains_text(lowercase_of(trimmed(query)), "sepya"@),
    ensures
        r == HudAction::SetPaperTint(PaperTintColor::Night),
{
    lemma_not_a_page_number(trimmed(query), k);
}

/// A palette query that is a page number `k` of at least 1, with any white space around it,
/// goes to the 0-based page `k - 1`.
pub proof fn lemma_page_number_query_goes_to_page(r: HudAction, query: Seq<char>, digits: Seq<char>)
    requires
        hud_action_for(r, query),
        trimmed(query) == digits,
        digits.len() > 0,
        all_digits(digits),
        1 <= decimal_value(digits) <= u32::MAX,
    ensures
        r == HudAction::GoToPage((decimal_value(digits) - 1) as u32),
{
    assert(is_digit(digits[0]));
    assert(unsigned_digits(digits) == digits);
}

fn has_word(lower: &[char], word: &str) -> (r: bool)
    ensures
        r == contains_text(lower@, word@),
{
    let w = chars_of(word);
    contains_chars(lower, w.as_slice())
}

/// Decides what a palette query does.
pub fn hud_query_action(query: &str) -> (r: HudAction)
    ensures
        hud_action_for(r, query@),
{
    let t = trim_chars(chars_of(query).as_slice());
    if let Some(page) = parse_u32(t.as_slice()) {
        if page >= 1 {
            return HudAction::GoToPage(page - 1);
        }
    }
    let ts = string_of(t.as_slice());
    let lower = chars_of(lowercase(ts.as_str()).as_str());
    let l = lower.as_slice();
    let f11 = chars_of("f11");
    if has_word(l, "zen") || same_chars(l, f11.as_slice()) {
        HudAction::ToggleZen
    } else if has_word(l, "invert") || has_word(l, "ters") {
        HudAction::ToggleInvert
    } else if has_word(l, "sepia") || has_word(l, "sepya") {
        HudAction::SetPaperTint(PaperTintColor::WarmSepia)
    } else if has_word(l, "night") || has_word(l, "gece") || has_word(l, "dark") {
        HudAction::SetPaperTint(PaperTintColor::Night)
    } else if has_word(l, "amber") || has_word(l, "kehribar") {
        HudAction::SetPaperTint(PaperTintColor::OledAmber)
    } else if has_word(l, "normal") || has_word(l, "orijinal") || has_word(l, "original") {
        HudAction::SetPaperTint(PaperTintColor::Normal)
    } else if has_word(l, "print") || has_word(l, "yazd") {
        HudAction::Print
    } else if has_word(l, "fit width") || has_word(l, "geni") {
        HudAction::FitWidth
    } else if has_word(l, "fit page") || has_word(l, "sayfa s") {
        HudAction::FitPage
    } else if t.len() > 0 {
        HudAction::Unknown(ts)
    } else {
        HudAction::Nothing
    }
}

} // verus!
