use vstd::prelude::*;
use crate::text::{chars_of, decimal, parse_u32, parsed_u32, push_decimal, trimmed, trim_chars};

verus! {

pub open spec fn texts(v: Seq<String>) -> Seq<Seq<char>> {
    v.map_values(|s: String| s@)
}

/// Moves the file at `idx` one place up; answers the selection that follows it.
pub fn merge_move_up(files: &mut Vec<String>, idx: i32) -> (r: Option<i32>)
    ensures
        (0 < idx && idx < old(files)@.len()) ==> {
            &&& r == Some((idx - 1) as i32)
            &&& texts(final(files)@) == texts(old(files)@).update(idx - 1, old(files)@[idx as int]@).update(
                idx as int,
                old(files)@[idx - 1]@,
            )
        },
        !(0 < idx && idx < old(files)@.len()) ==> r is None && final(files)@ == old(files)@,
{
    if idx <= 0 || idx as usize >= files.len() {
        return None;
    }
    let i = idx as usize;
    let ghost before = texts(files@);
    let upper = files.remove(i - 1);
    files.insert(i, upper);
    assert(texts(files@) =~= before.update(i - 1, before[i as int]).update(i as int, before[i - 1]));
    Some(idx - 1)
}

/// Moves the file at `idx` one place down; answers the selection that follows it.
pub fn merge_move_down(files: &mut Vec<String>, idx: i32) -> (r: Option<i32>)
    requires
        old(files)@.len() <= i32::MAX,
    ensures
        (0 <= idx && idx + 1 < old(files)@.len()) ==> {
            &&& r == Some((idx + 1) as i32)
            &&& texts(final(files)@) == texts(old(files)@).update(idx as int, old(files)@[idx + 1]@).update(
                idx + 1,
                old(files)@[idx as int]@,
            )
        },
        !(0 <= idx && idx + 1 < old(files)@.len()) ==> r is None && final(files)@ == old(files)@,
{
    if idx < 0 || idx as usize + 1 >= files.len() {
        return None;
    }
    let i = idx as usize;
    let ghost before = texts(files@);
    let lower = files.remove(i + 1);
    files.insert(i, lower);
    assert(texts(files@) =~= before.update(i as int, before[i + 1]).update(i + 1, before[i as int]));
    Some(idx + 1)
}

/// Removes the file at `idx`; answers the selection that follows: the same place, the new
/// last file, or none when the list is empty.
pub fn merge_remove(files: &mut Vec<String>, idx: i32) -> (r: Option<i32>)
    requires
        old(files)@.len() <= i32::MAX,
    ensures
        (0 <= idx && idx < old(files)@.len()) ==> {
            let n = old(files)@.len() - 1;
            &&& texts(final(files)@) == texts(old(files)@).remove(idx as int)
            &&& r == Some(
                if n == 0 {
                    -1i32
                } else if idx >= n {
                    (n - 1) as i32
                } else {
                    idx
                },
            )
        },
        !(0 <= idx && idx < old(files)@.len()) ==> r is None && final(files)@ == old(files)@,
{
    if idx < 0 || idx as usize >= files.len() {
        return None;
    }
    let ghost before = texts(files@);
    files.remove(idx as usize);
    assert(texts(files@) =~= before.remove(idx as int));
    let n = files.len();
    if n == 0 {
        Some(-1)
    } else if idx as usize >= n {
        Some((n - 1) as i32)
    } else {
        Some(idx)
    }
}

/// Moves the file at `from` to `to`; answers the new selection.
pub fn merge_reorder(files: &mut Vec<String>, from: i32, to: i32) -> (r: Option<i32>)
    ensures
        (0 <= from < old(files)@.len() && 0 <= to < old(files)@.len() && from != to) ==> {
            &&& r == Some(to)
            &&& texts(final(files)@) == texts(old(files)@).remove(from as int).insert(
                to as int,
                old(files)@[from as int]@,
            )
        },
        !(0 <= from < old(files)@.len() && 0 <= to < old(files)@.len() && from != to) ==> r is None
            && final(files)@ == old(files)@,
{
    if from < 0 || to < 0 || from as usize >= files.len() || to as usize >= files.len() || from == to {
        return None;
    }
    let ghost before = texts(files@);
    let moved = files.remove(from as usize);
    files.insert(to as usize, moved);
    assert(texts(files@) =~= before.remove(from as int).insert(to as int, before[from as int]));
    Some(to)
}

/// Moving a file up and then back down gives the list back.
pub proof fn lemma_move_up_then_down(s: Seq<Seq<char>>, idx: int)
    requires
        0 < idx < s.len(),
    ensures
        ({
            let up = s.update(idx - 1, s[idx]).update(idx, s[idx - 1]);
            up.update(idx - 1, up[idx]).update(idx, up[idx - 1]) == s
        }),
{
    let up = s.update(idx - 1, s[idx]).update(idx, s[idx - 1]);
    assert(up.update(idx - 1, up[idx]).update(idx, up[idx - 1]) =~= s);
}

/// Reordering keeps every file: the list is a rearrangement of what it was.
pub proof fn lemma_reorder_keeps_files(s: Seq<Seq<char>>, from: int, to: int)
    requires
        0 <= from < s.len(),
        0 <= to < s.len(),
    ensures
        s.remove(from).insert(to, s[from]).to_multiset() == s.to_multiset(),
        s.remove(from).insert(to, s[from]).len() == s.len(),
{
    broadcast use vstd::seq_lib::group_to_multiset_ensures;
    assert(s.remove(from).insert(to, s[from]).to_multiset() =~= s.remove(from).to_multiset().insert(
        s[from],
    ));
    assert(s.remove(from).to_multiset() =~= s.to_multiset().remove(s[from]));
}

/// The name offered for a tool's output: the source's stem (or "document") and a suffix.
pub open spec fn output_name(stem: Option<Seq<char>>, suffix: Seq<char>) -> Seq<char> {
    match stem {
        Some(s) => s + suffix,
        None => "document"@ + suffix,
    }
}

pub fn tool_output_name(stem: Option<&str>, suffix: &str) -> (r: String)
    ensures
        r@ == output_name(
            match stem {
                Some(s) => Some(s@),
                None => None,
            },
            suffix@,
        ),
{
    let mut s = match stem {
        Some(st) => st.to_string(),
        None => "document".to_string(),
    };
    s.append(suffix);
    s
}

/// A quarter turn of pages, as the rotate tool offers them.
#[derive(Clone, Copy, Debug, PartialEq, Eq, Structural)]
pub enum PageTurn {
    Degrees90,
    Degrees180,
    Degrees270,
}

/// The turn a rotate-tool choice names; unknown choices turn by 90 degrees.
pub fn turn_from_index(index: i32) -> (r: PageTurn)
    ensures
        r == if index == 2 {
            PageTurn::Degrees180
        } else if index == 3 {
            PageTurn::Degrees270
        } else {
            PageTurn::Degrees90
        },
{
    if index == 2 {
        PageTurn::Degrees180
    } else if index == 3 {
        PageTurn::Degrees270
    } else {
        PageTurn::Degrees90
    }
}

/// What the convert tool writes.
#[derive(Clone, Copy, Debug, PartialEq, Eq, Structural)]
pub enum ConversionKind {
    Text,
    Markdown,
    Png,
    Jpeg,
}

/// The output format a convert-tool choice names, if it names one.
pub fn conversion_from_index(index: i32) -> (r: Option<ConversionKind>)
    ensures
        r == if index == 0 {
            Some(ConversionKind::Text)
        } else if index == 1 {
            Some(ConversionKind::Markdown)
        } else if index == 2 {
            Some(ConversionKind::Png)
        } else if index == 3 {
            Some(ConversionKind::Jpeg)
        } else {
            None
        },
{
    if index == 0 {
        Some(ConversionKind::Text)
    } else if index == 1 {
        Some(ConversionKind::Markdown)
    } else if index == 2 {
        Some(ConversionKind::Png)
    } else if index == 3 {
        Some(ConversionKind::Jpeg)
    } else {
        None
    }
}

/// The image resolutions the convert tool offers: 150 or 300 dots per inch.
pub fn conversion_dpi_is_offered(dpi: i32) -> (r: bool)
    ensures
        r == (dpi == 150 || dpi == 300),
{
    dpi == 150 || dpi == 300
}

/// The first number in a page-range text: the first piece between commas and dashes that
/// reads as a page number.
pub open spec fn is_range_separator(c: char) -> bool {
    c == ',' || c == '-'
}

/// `s` cut at every `,` and `-`.
pub open spec fn range_pieces(s: Seq<char>) -> Seq<Seq<char>>
    decreases s.len(),
{
    if s.len() == 0 {
        seq![s]
    } else {
        let rest = range_pieces(s.drop_first());
        if is_range_separator(s[0]) {
            seq![Seq::<char>::empty()] + rest
        } else {
            seq![seq![s[0]] + rest[0]] + rest.drop_first()
        }
    }
}

/// The first number among `pieces`, each read after trimming.
pub open spec fn first_number(pieces: Seq<Seq<char>>) -> Option<u32>
    decreases pieces.len(),
{
    if pieces.len() == 0 {
        None
    } else {
        match parsed_u32(trimmed(pieces[0])) {
            Some(n) => Some(n),
            None => first_number(pieces.drop_first()),
        }
    }
}

/// The range a shift-click on 1-based `page` selects: from the first page already named
/// (or `page` itself) to `page`, lower bound first.
pub open spec fn shift_range_text(existing: Seq<char>, page: u32) -> Seq<char> {
    let anchor = match first_number(range_pieces(existing)) {
        Some(a) => a,
        None => page,
    };
    let lo = if anchor < page {
        anchor
    } else {
        page
    };
    let hi = if anchor < page {
        page
    } else {
        anchor
    };
    decimal(lo as nat) + "-"@ + decimal(hi as nat)
}

proof fn lemma_range_pieces_nonempty(s: Seq<char>)
    ensures
        range_pieces(s).len() >= 1,
    decreases s.len(),
{
    if s.len() > 0 {
        lemma_range_pieces_nonempty(s.drop_first());
    }
}

fn cut_pieces(s: &[char]) -> (r: Vec<Vec<char>>)
    ensures
        r@.map_values(|v: Vec<char>| v@) == range_pieces(s@),
    decreases s.len(),
{
    let mut pieces: Vec<Vec<char>> = Vec::new();
    pieces.push(Vec::new());
    let mut i: usize = s.len();
    assert(s@.skip(s.len() as int) =~= Seq::<char>::empty());
    assert(pieces@.map_values(|v: Vec<char>| v@) =~= range_pieces(Seq::<char>::empty()));
    while i > 0
        invariant
            i <= s.len(),
            pieces@.map_values(|v: Vec<char>| v@) == range_pieces(s@.skip(i as int)),
        decreases i,
    {
        let ghost tail = s@.skip(i as int);
        let ghost longer = s@.skip(i - 1);
        assert(longer.drop_first() =~= tail);
        assert(longer[0] == s@[i - 1]);
        proof {
            lemma_range_pieces_nonempty(tail);
        }
        let c = s[i - 1];
        if c == ',' || c == '-' {
            let ghost before = pieces@.map_values(|v: Vec<char>| v@);
            pieces.insert(0, Vec::new());
            assert(pieces@.map_values(|v: Vec<char>| v@) =~= seq![Seq::<char>::empty()] + before);
        } else {
            let ghost before = pieces@.map_values(|v: Vec<char>| v@);
            let mut first = pieces.remove(0);
            assert(first@ == before[0]);
            assert(pieces@.map_values(|v: Vec<char>| v@) =~= before.drop_first());
            first.insert(0, c);
            assert(first@ =~= seq![c] + before[0]);
            pieces.insert(0, first);
            assert(pieces@.map_values(|v: Vec<char>| v@) =~= seq![seq![c] + before[0]]
                + before.drop_first());
        }
        i -= 1;
    }
    assert(s@.skip(0) =~= s@);
    pieces
}

/// The range text a shift-click on 1-based `page` leaves in the page-range field.
pub fn shift_click_range(existing: &str, page: u32) -> (r: String)
    ensures
        r@ == shift_range_text(existing@, page),
{
    let cs = chars_of(existing);
    let pieces = cut_pieces(cs.as_slice());
    let ghost all = range_pieces(existing@);
    let mut anchor: Option<u32> = None;
    let mut k: usize = 0;
    assert(all.skip(0) =~= all);
    while k < pieces.len() && anchor.is_none()
        invariant
            k <= pieces.len(),
            pieces@.map_values(|v: Vec<char>| v@) == all,
            all == range_pieces(existing@),
            anchor is None ==> first_number(all) == first_number(all.skip(k as int)),
            anchor is Some ==> first_number(all) == anchor,
        decreases pieces.len() - k,
    {
        assert(all.skip(k as int)[0] == pieces@[k as int]@);
        assert(all.skip(k as int).drop_first() =~= all.skip(k + 1));
        let t = trim_chars(pieces[k].as_slice());
        match parse_u32(t.as_slice()) {
            Some(n) => {
                anchor = Some(n);
            },
            None => {},
        }
        k += 1;
    }
    assert(anchor is None ==> all.skip(k as int).len() == 0);
    let a = match anchor {
        Some(n) => n,
        None => page,
    };
    let (lo, hi) = if a < page {
        (a, page)
    } else {
        (page, a)
    };
    let mut s = String::new();
    push_decimal(&mut s, lo as u128);
    s.append("-");
    push_decimal(&mut s, hi as u128);
    s
}

} // verus!
