use vstd::prelude::*;
use crate::presentation::paths::{is_pdf, is_pdf_path};
use crate::seqs::{keep, lemma_keep_step};
use crate::text::{
    chars_of, copy_range, lines, lines_of, parse_u32, parsed_u32, push_char, starts_with_chars,
    trim_chars, trimmed, has_prefix, lemma_trimmed_idempotent, all_digits, decimal_value,
    is_digit, unsigned_digits,
};

verus! {

/// How long after the last scroll the user still counts as scrolling (180 ms).
pub const SCROLL_IDLE_DELAY_NANOS: u128 = 180_000_000;

/// The 0-based page that the 1-based page number typed as `input` names, if the document
/// of `page_count` pages has it.
pub open spec fn page_input_value(input: Seq<char>, page_count: u32) -> Option<u32> {
    match parsed_u32(trimmed(input)) {
        Some(p) => if 1 <= p <= page_count {
            Some((p - 1) as u32)
        } else {
            None
        },
        None => None,
    }
}

pub fn validated_page_input(input: &str, page_count: u32) -> (r: Option<u32>)
    ensures
        r == page_input_value(input@, page_count),
{
    let cs = chars_of(input);
    let t = trim_chars(cs.as_slice());
    match parse_u32(t.as_slice()) {
        Some(p) => if 1 <= p && p <= page_count {
            Some(p - 1)
        } else {
            None
        },
        None => None,
    }
}

/// White space around what is typed in the page box does not change the page it names.
pub proof fn lemma_page_box_ignores_surrounding_space(input: Seq<char>, page_count: u32)
    ensures
        page_input_value(input, page_count) == page_input_value(trimmed(input), page_count),
{
    lemma_trimmed_idempotent(input);
}

/// A page number `k` typed in the page box, with any white space around it, names the
/// 0-based page `k - 1` when the document has page `k`, and no page otherwise.
pub proof fn lemma_page_box_names_typed_page(input: Seq<char>, digits: Seq<char>, page_count: u32)
    requires
        trimmed(input) == digits,
        digits.len() > 0,
        all_digits(digits),
    ensures
        1 <= decimal_value(digits) <= page_count ==> page_input_value(input, page_count) == Some(
            (decimal_value(digits) - 1) as u32,
        ),
        (decimal_value(digits) == 0 || decimal_value(digits) > page_count) ==> page_input_value(
            input,
            page_count,
        ) is None,
{
    assert(is_digit(digits[0]));
    assert(unsigned_digits(digits) == digits);
}

/// A line of dropped text that names a file: neither empty nor a `#` comment.
pub open spec fn is_path_line(l: Seq<char>) -> bool {
    l.len() > 0 && l[0] != '#'
}

pub open spec fn is_path_line_fn() -> spec_fn(Seq<char>) -> bool {
    |l: Seq<char>| is_path_line(l)
}

/// The trimmed lines of `text` that name files.
pub open spec fn path_lines(text: Seq<char>) -> Seq<Seq<char>> {
    keep(lines_of(text).map_values(|l: Seq<char>| trimmed(l)), is_path_line_fn())
}

/// The trimmed lines of `text` that name files.
pub fn path_lines_of(text: &str) -> (r: Vec<Vec<char>>)
    ensures
        r@.map_values(|l: Vec<char>| l@) == path_lines(text@),
{
    let cs = chars_of(text);
    let all = lines(cs.as_slice());
    let ghost ls = lines_of(text@).map_values(|l: Seq<char>| trimmed(l));
    let mut out: Vec<Vec<char>> = Vec::new();
    let mut i: usize = 0;
    assert(ls.take(0) =~= Seq::<Seq<char>>::empty());
    assert(out@.map_values(|l: Vec<char>| l@) =~= Seq::<Seq<char>>::empty());
    while i < all.len()
        invariant
            i <= all.len(),
            all@.map_values(|l: Vec<char>| l@) == lines_of(text@),
            ls == lines_of(text@).map_values(|l: Seq<char>| trimmed(l)),
            out@.map_values(|l: Vec<char>| l@) == keep(ls.take(i as int), is_path_line_fn()),
        decreases all.len() - i,
    {
        let t = trim_chars(all[i].as_slice());
        assert(all@[i as int]@ == lines_of(text@)[i as int]);
        assert(t@ == ls[i as int]);
        proof {
            lemma_keep_step(ls, is_path_line_fn(), i as int);
        }
        if t.len() > 0 && t[0] != '#' {
            let ghost before = out@.map_values(|l: Vec<char>| l@);
            out.push(t);
            assert(out@.map_values(|l: Vec<char>| l@) =~= before.push(ls[i as int]));
        }
        i += 1;
    }
    assert(ls.take(all.len() as int) =~= ls);
    out
}

/// `s` with every non-overlapping `pat`, left to right, replaced by `rep`.
pub open spec fn replace_all(s: Seq<char>, pat: Seq<char>, rep: Seq<char>) -> Seq<char>
    decreases s.len(),
{
    if pat.len() == 0 || s.len() < pat.len() {
        s
    } else if s.take(pat.len() as int) == pat {
        rep + replace_all(s.skip(pat.len() as int), pat, rep)
    } else {
        seq![s[0]] + replace_all(s.drop_first(), pat, rep)
    }
}

/// A dropped line turned into a Windows path: `file:///` dropped, `%20` made a space,
/// and `/` made `\`.
pub open spec fn decoded_drop_line(line: Seq<char>) -> Seq<char> {
    let raw = if has_prefix(line, "file:///"@) {
        line.skip(8)
    } else {
        line
    };
    replace_all(raw, "%20"@, " "@).map_values(|c: char| if c == '/' { '\\' } else { c })
}

fn replace_percent_space(s: &[char]) -> (r: Vec<char>)
    ensures
        r@ == replace_all(s@, "%20"@, " "@),
{
    proof {
        reveal_strlit("%20");
        reveal_strlit(" ");
    }
    let mut out: Vec<char> = Vec::new();
    let mut i: usize = 0;
    assert(s@.skip(0) =~= s@);
    assert(out@ + replace_all(s@.skip(0), "%20"@, " "@) =~= replace_all(s@, "%20"@, " "@));
    while i < s.len()
        invariant
            i <= s.len(),
            out@ + replace_all(s@.skip(i as int), "%20"@, " "@) == replace_all(s@, "%20"@, " "@),
            "%20"@ == seq!['%', '2', '0'],
            " "@ == seq![' '],
        decreases s.len() - i,
    {
        let ghost rest = s@.skip(i as int);
        if s.len() - i >= 3 && s[i] == '%' && s[i + 1] == '2' && s[i + 2] == '0' {
            assert(rest.take(3) =~= "%20"@);
            assert(rest.skip(3) =~= s@.skip(i + 3));
            let ghost before = out@;
            out.push(' ');
            assert(out@ =~= before + " "@);
            assert(before + (" "@ + replace_all(rest.skip(3), "%20"@, " "@)) =~= out@ + replace_all(
                s@.skip(i + 3),
                "%20"@,
                " "@,
            ));
            i += 3;
        } else {
            proof {
                if rest.len() >= 3 {
                    assert(rest.take(3) != "%20"@) by {
                        if rest.take(3) == "%20"@ {
                            assert(rest.take(3)[0] == s@[i as int]);
                            assert(rest.take(3)[1] == s@[i + 1]);
                            assert(rest.take(3)[2] == s@[i + 2]);
                        }
                    }
                }
            }
            assert(rest.drop_first() =~= s@.skip(i + 1));
            let ghost before = out@;
            out.push(s[i]);
            assert(before + (seq![rest[0]] + replace_all(rest.drop_first(), "%20"@, " "@)) =~= out@
                + replace_all(s@.skip(i + 1), "%20"@, " "@));
            i += 1;
        }
    }
    assert(s@.skip(i as int) =~= Seq::<char>::empty());
    assert(out@ + replace_all(Seq::<char>::empty(), "%20"@, " "@) =~= out@);
    out
}

fn decode_drop_line(line: &[char]) -> (r: String)
    ensures
        r@ == decoded_drop_line(line@),
{
    let prefix = chars_of("file:///");
    proof {
        reveal_strlit("file:///");
    }
    let raw = if starts_with_chars(line, prefix.as_slice()) {
        copy_range(line, 8, line.len())
    } else {
        copy_range(line, 0, line.len())
    };
    assert(line@.subrange(0, line@.len() as int) =~= line@);
    assert(line@.subrange(8, line@.len() as int) =~= line@.skip(8));
    let spaced = replace_percent_space(raw.as_slice());
    let ghost mapped = replace_all(raw@, "%20"@, " "@).map_values(|c: char| if c == '/' { '\\' } else { c });
    let mut out = String::new();
    let mut i: usize = 0;
    while i < spaced.len()
        invariant
            i <= spaced.len(),
            spaced@ == replace_all(raw@, "%20"@, " "@),
            mapped == replace_all(raw@, "%20"@, " "@).map_values(|c: char| if c == '/' { '\\' } else { c }),
            out@ == mapped.take(i as int),
        decreases spaced.len() - i,
    {
        let c = if spaced[i] == '/' {
            '\\'
        } else {
            spaced[i]
        };
        push_char(&mut out, c);
        assert(out@ =~= mapped.take(i + 1));
        i += 1;
    }
    assert(mapped.take(i as int) =~= mapped);
    out
}

/// What a text drop on the window means: nothing without file lines, otherwise the one
/// PDF file it names or why it is refused.
pub open spec fn dropped_path(text: Seq<char>) -> Option<Result<Seq<char>, Seq<char>>> {
    let ls = path_lines(text);
    if ls.len() == 0 {
        None
    } else if ls.len() != 1 {
        Some(Err("Drop exactly one PDF file."@))
    } else if !is_pdf(decoded_drop_line(ls[0])) {
        Some(Err("Only PDF files are supported."@))
    } else {
        Some(Ok(decoded_drop_line(ls[0])))
    }
}

pub fn parse_drop_paths(text: &str) -> (r: Option<Result<String, &'static str>>)
    ensures
        match dropped_path(text@) {
            None => r is None,
            Some(Ok(p)) => r matches Some(Ok(x)) && x@ == p,
            Some(Err(m)) => r matches Some(Err(x)) && x@ == m,
        },
{
    let ls = path_lines_of(text);
    if ls.len() == 0 {
        return None;
    }
    if ls.len() != 1 {
        return Some(Err("Drop exactly one PDF file."));
    }
    assert(ls@[0]@ == path_lines(text@)[0]);
    let path = decode_drop_line(ls[0].as_slice());
    if !is_pdf_path(path.as_str()) {
        return Some(Err("Only PDF files are supported."));
    }
    Some(Ok(path))
}

/// The user still scrolls when the last scroll was less than 180 ms ago.
pub fn scrolling_recently(elapsed_since_last_scroll_nanos: Option<u128>) -> (r: bool)
    ensures
        r == (elapsed_since_last_scroll_nanos matches Some(n) && n < SCROLL_IDLE_DELAY_NANOS),
{
    match elapsed_since_last_scroll_nanos {
        Some(n) => n < SCROLL_IDLE_DELAY_NANOS,
        None => false,
    }
}

/// Calls `Instant::saturating_duration_since` and reads the result in nanoseconds. How
/// far apart two readings of the clock are is not stated; what std documents for an
/// instant and itself is: no time has elapsed.
#[verifier::external_body]
pub(crate) fn nanos_between(earlier: std::time::Instant, later: std::time::Instant) -> (r: u128)
    ensures
        earlier == later ==> r == 0,
{
    later.saturating_duration_since(earlier).as_nanos()
}

/// Whether a scroll happened within the last 180 ms before `now`: never when none was
/// recorded, always when it was recorded at `now` itself; in between it goes by the clock
/// (`scrolling_recently` of the elapsed time).
pub fn user_is_scrolling(last_scroll: Option<std::time::Instant>, now: std::time::Instant) -> (r: bool)
    ensures
        last_scroll is None ==> !r,
        last_scroll == Some(now) ==> r,
{
    match last_scroll {
        Some(last) => scrolling_recently(Some(nanos_between(last, now))),
        None => scrolling_recently(None),
    }
}

/// Clicks closer together than this (400 ms, in nanoseconds) count as one series.
pub const MULTI_CLICK_NANOS: u128 = 400_000_000;

/// The number of a click in its series: one more than the last click's when it follows
/// within 400 ms (`elapsed_nanos` after it), otherwise a new series starts at 1.
pub fn next_click_count(previous: u32, elapsed_nanos: u128) -> (r: u32)
    requires
        elapsed_nanos < MULTI_CLICK_NANOS ==> previous < u32::MAX,
    ensures
        elapsed_nanos < MULTI_CLICK_NANOS ==> r == previous + 1,
        elapsed_nanos >= MULTI_CLICK_NANOS ==> r == 1,
{
    if elapsed_nanos < MULTI_CLICK_NANOS {
        previous + 1
    } else {
        1
    }
}

/// The number of a click at `now` after a click numbered `previous` at `last_click`; a
/// click at the same instant as the last continues its series.
pub fn click_count_at(previous: u32, last_click: std::time::Instant, now: std::time::Instant) -> (r: u32)
    requires
        previous < u32::MAX,
    ensures
        last_click == now ==> r == previous + 1,
{
    next_click_count(previous, nanos_between(last_click, now))
}

/// What a click selects: the first of a series places the caret, the second a word, any
/// later one a line.
#[derive(Debug, Clone, Copy, PartialEq, Eq, Structural)]
pub enum ClickSelection {
    Caret,
    Word,
    Line,
}

pub fn click_selection(count: u32) -> (r: ClickSelection)
    ensures
        count == 2 ==> r == ClickSelection::Word,
        count >= 3 ==> r == ClickSelection::Line,
        count < 2 ==> r == ClickSelection::Caret,
{
    if count == 2 {
        ClickSelection::Word
    } else if count >= 3 {
        ClickSelection::Line
    } else {
        ClickSelection::Caret
    }
}

} // verus!
