//! Turning a fitted row into terminal text: the styled ANSI form that the HUD
//! draws and the plain form used by `preview`.

use crate::config::{Segment, Theme};
use crate::layout::{cells_view, rendered_width, row_width_capped, Cell};
use crate::text::{display_width, join, pop_char, push_char, push_repeat, push_str, repeat, strings_view, text_width, join_strings, sanitize, without_controls};
use crate::theme::{base_style, segment_style, separator_style, theme_base, theme_segment, theme_separator};
use vstd::prelude::*;

verus! {

/// The modules of a row, each in its style, the separator between neighbours.
pub open spec fn styled_cells(cells: Seq<(Segment, Seq<char>)>, theme: Theme, separator: Seq<char>, context_percent: Option<u8>) -> Seq<char>
    decreases cells.len(),
{
    if cells.len() == 0 {
        Seq::empty()
    } else {
        styled_cells(cells.drop_last(), theme, separator, context_percent)
            + (if cells.len() > 1 { separator_style(theme) + separator } else { Seq::empty() })
            + segment_style(theme, cells.last().0, context_percent) + cells.last().1 + base_style(theme)
    }
}

/// A styled row padded with spaces to `width` columns, then reset.
pub open spec fn styled_row(cells: Seq<(Segment, Seq<char>)>, width: nat, theme: Theme, separator: Seq<char>, context_percent: Option<u8>) -> Seq<char> {
    let rendered = rendered_width(cells, separator);
    let used: nat = if rendered > width { width } else { rendered };
    base_style(theme) + " "@ + styled_cells(cells, theme, separator, context_percent)
        + repeat(' ', (width - used) as nat) + "\x1b[0m"@
}

pub fn write_styled_row(cells: &Vec<Cell>, width: usize, theme: Theme, separator: &str, context_percent: Option<u8>) -> (r: String)
    ensures
        r@ == styled_row(cells_view(cells@), width as nat, theme, separator@, context_percent),
{
    let ghost view = cells_view(cells@);
    let base = theme_base(theme);
    let separator_color = theme_separator(theme);
    let mut out = String::new();
    push_str(&mut out, base);
    push_str(&mut out, " ");
    let ghost start = out@;
    let mut i: usize = 0;
    while i < cells.len()
        invariant
            i <= cells.len(),
            view == cells_view(cells@),
            base@ == base_style(theme),
            separator_color@ == separator_style(theme),
            out@ == start + styled_cells(view.take(i as int), theme, separator@, context_percent),
        decreases cells.len() - i,
    {
        assert(view.take(i as int + 1).drop_last() =~= view.take(i as int));
        if i > 0 {
            push_str(&mut out, separator_color);
            push_str(&mut out, separator);
        }
        push_str(&mut out, theme_segment(theme, cells[i].0, context_percent));
        push_str(&mut out, cells[i].1.as_str());
        push_str(&mut out, base);
        i = i + 1;
        assert(out@ =~= start + styled_cells(view.take(i as int), theme, separator@, context_percent));
    }
    assert(view.take(i as int) =~= view);
    let used = row_width_capped(cells, separator, width);
    push_repeat(&mut out, ' ', width - used);
    push_str(&mut out, "\x1b[0m");
    assert(out@ =~= styled_row(view, width as nat, theme, separator@, context_percent));
    out
}

/// `s` with characters removed from the end until it is at most `width` columns wide.
pub open spec fn trim_to_width(s: Seq<char>, width: nat) -> Seq<char>
    decreases s.len(),
{
    if s.len() == 0 || display_width(s) <= width {
        s
    } else {
        trim_to_width(s.drop_last(), width)
    }
}

/// `s` cut to `width` columns and padded with spaces to exactly `width`.
pub open spec fn fit_text(s: Seq<char>, width: nat) -> Seq<char> {
    let t = trim_to_width(s, width);
    t + repeat(' ', (width - display_width(t)) as nat)
}

/// Removes characters from the end until the text is at most `width` columns wide.
pub fn trim_text(text: &mut String, width: usize)
    ensures
        final(text)@ == trim_to_width(old(text)@, width as nat),
        display_width(final(text)@) <= width,
{
    while text_width(text.as_str()) > width
        invariant
            trim_to_width(text@, width as nat) == trim_to_width(old(text)@, width as nat),
        decreases text@.len(),
    {
        let _ = pop_char(text);
    }
}

/// Cuts or pads a text to exactly `width` columns.
pub fn fit(text: String, width: usize) -> (r: String)
    ensures
        r@ == fit_text(text@, width as nat),
        display_width(r@) == width,
{
    let mut t = text;
    trim_text(&mut t, width);
    let ghost trimmed = t@;
    let current = text_width(t.as_str());
    let mut k: usize = 0;
    while current + k < width
        invariant
            current == display_width(trimmed),
            current <= width,
            current + k <= width,
            t@ == trimmed + repeat(' ', k as nat),
            display_width(t@) == current + k,
        decreases width - (current + k),
    {
        push_char(&mut t, ' ');
        let w = text_width(t.as_str());
        assert(t@.drop_last() =~= trimmed + repeat(' ', k as nat));
        k = k + 1;
        assert(t@ =~= trimmed + repeat(' ', k as nat));
    }
    t
}

/// The row texts separated by `separator`, with one space of padding on each
/// side, fitted to `width` columns.
pub open spec fn plain_row_text(cells: Seq<(Segment, Seq<char>)>, width: nat, separator: Seq<char>) -> Seq<char> {
    fit_text(" "@ + join(cells.map_values(|c: (Segment, Seq<char>)| c.1), separator) + " "@, width)
}

pub fn plain_row(cells: &Vec<Cell>, width: usize, separator: &str) -> (r: String)
    ensures
        r@ == plain_row_text(cells_view(cells@), width as nat, separator@),
        display_width(r@) == width,
{
    let mut texts: Vec<String> = Vec::new();
    let mut i: usize = 0;
    let ghost wanted = cells_view(cells@).map_values(|c: (Segment, Seq<char>)| c.1);
    while i < cells.len()
        invariant
            i <= cells.len(),
            wanted == cells_view(cells@).map_values(|c: (Segment, Seq<char>)| c.1),
            strings_view(texts@) == wanted.take(i as int),
        decreases cells.len() - i,
    {
        let ghost prev = texts@;
        texts.push(cells[i].1.clone());
        assert(strings_view(texts@) =~= strings_view(prev).push(cells@[i as int].1@));
        assert(wanted.take(i as int + 1) =~= wanted.take(i as int).push(wanted[i as int]));
        i = i + 1;
    }
    assert(wanted.take(i as int) =~= wanted);
    let mut line = String::new();
    push_str(&mut line, " ");
    push_str(&mut line, join_strings(&texts, separator).as_str());
    push_str(&mut line, " ");
    fit(line, width)
}

/// A panel row: the text without control characters, cut to `width - 2` columns.
pub open spec fn panel_text(text: Seq<char>, width: nat) -> Seq<char> {
    trim_to_width(without_controls(text), if width >= 2 { (width - 2) as nat } else { 0 })
}

pub fn panel_layout(segment: Segment, text: &str, width: u16) -> (r: Vec<Cell>)
    ensures
        cells_view(r@) == seq![(segment, panel_text(text@, width as nat))],
{
    let limit: usize = if width >= 2 { (width - 2) as usize } else { 0 };
    let mut t = sanitize(text);
    trim_text(&mut t, limit);
    let mut r: Vec<Cell> = Vec::new();
    r.push((segment, t));
    assert(cells_view(r@) =~= seq![(segment, panel_text(text@, width as nat))]);
    r
}

/// Cutting text to a width keeps a prefix of it.
proof fn lemma_trim_is_prefix(s: Seq<char>, width: nat)
    ensures
        trim_to_width(s, width).len() <= s.len(),
        trim_to_width(s, width) == s.take(trim_to_width(s, width).len() as int),
    decreases s.len(),
{
    if !(s.len() == 0 || display_width(s) <= width) {
        lemma_trim_is_prefix(s.drop_last(), width);
        assert(s.drop_last().take(trim_to_width(s, width).len() as int) =~= s.take(trim_to_width(s, width).len() as int));
    } else {
        assert(s.take(s.len() as int) =~= s);
    }
}

/// Text shown in the agent inspector (prompts, messages, kinds) carries no
/// control characters, and is never longer than what it was made from.
pub proof fn lemma_panel_text_is_clean(text: Seq<char>, width: nat)
    ensures
        crate::text::has_no_controls(panel_text(text, width)),
        panel_text(text, width).len() <= text.len(),
{
    let clean = without_controls(text);
    crate::text::lemma_without_controls_clean(text);
    lemma_trim_is_prefix(clean, if width >= 2 { (width - 2) as nat } else { 0 });
    let t = panel_text(text, width);
    assert forall|i: int| 0 <= i < t.len() implies !crate::text::is_control_char(#[trigger] t[i]) by {
        assert(t[i] == clean[i]);
    }
}

/// Cut text fits its width, or nothing is left of it.
proof fn lemma_trim_fits(s: Seq<char>, width: nat)
    ensures
        trim_to_width(s, width).len() == 0 || display_width(trim_to_width(s, width)) <= width,
    decreases s.len(),
{
    if !(s.len() == 0 || display_width(s) <= width) {
        lemma_trim_fits(s.drop_last(), width);
    }
}

/// An inspector row's text fits in `width - 2` columns (or is empty).
pub proof fn lemma_panel_text_fits(text: Seq<char>, width: nat)
    ensures
        panel_text(text, width).len() == 0
            || display_width(panel_text(text, width)) <= (if width >= 2 { (width - 2) as nat } else { 0 }),
{
    lemma_trim_fits(without_controls(text), if width >= 2 { (width - 2) as nat } else { 0 });
}

} // verus!
