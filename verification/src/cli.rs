//! The command line: its commands, the companion's own flag, and the decisions
//! of the step-by-step setup.

use crate::config::{LaunchMode, Glyphs, Segment, Theme};
use crate::text::{owned, push_char, same_text};
use vstd::prelude::*;

verus! {

/// The parsed command line.
#[derive(Debug)]
pub struct Cli {
    pub command: Option<Command>,
}

#[derive(Debug)]
pub enum Command {
    /// Run the official Codex CLI through the companion.
    Run { args: Vec<String> },
    /// Configure launch behaviour and display defaults.
    Config,
    /// Preview the status line without starting Codex.
    Preview { width: Option<u16> },
    /// Diagnose Codex discovery and terminal capabilities.
    Doctor,
}

/// The arguments without the companion's own bypass flag.
pub open spec fn without_bypass(args: Seq<Seq<char>>) -> Seq<Seq<char>>
    decreases args.len(),
{
    if args.len() == 0 {
        args
    } else if args.last() == "--no-companion"@ {
        without_bypass(args.drop_last())
    } else {
        without_bypass(args.drop_last()).push(args.last())
    }
}

/// Removes every `--no-companion`; returns whether there was one.
pub fn remove_bypass_flag(args: &mut Vec<String>) -> (r: bool)
    ensures
        crate::text::strings_view(final(args)@) == without_bypass(crate::text::strings_view(old(args)@)),
        r == crate::text::strings_view(old(args)@).contains("--no-companion"@),
{
    let ghost view = crate::text::strings_view(args@);
    let mut kept: Vec<String> = Vec::new();
    let mut found = false;
    let mut i: usize = 0;
    while i < args.len()
        invariant
            view == crate::text::strings_view(args@),
            i <= args@.len(),
            crate::text::strings_view(kept@) == without_bypass(view.take(i as int)),
            found == view.take(i as int).contains("--no-companion"@),
        decreases args@.len() - i,
    {
        assert(view.take(i as int + 1).drop_last() =~= view.take(i as int));
        let ghost before = crate::text::strings_view(kept@);
        if same_text(args[i].as_str(), "--no-companion") {
            found = true;
            assert(view.take(i as int + 1).contains("--no-companion"@)) by {
                assert(view.take(i as int + 1)[i as int] == "--no-companion"@);
            }
        } else {
            kept.push(args[i].clone());
            assert(crate::text::strings_view(kept@) =~= before.push(view[i as int]));
            assert(view.take(i as int + 1).contains("--no-companion"@) == view.take(i as int).contains("--no-companion"@)) by {
                if view.take(i as int + 1).contains("--no-companion"@) {
                    let k = choose|k: int| 0 <= k < i + 1 && #[trigger] view.take(i as int + 1)[k] == "--no-companion"@;
                    assert(k != i);
                    assert(view.take(i as int)[k] == "--no-companion"@);
                }
            }
        }
        i = i + 1;
    }
    assert(view.take(i as int) =~= view);
    *args = kept;
    found
}

/// The code of `c` with ASCII upper-case letters lowered.
pub open spec fn ascii_lower(c: char) -> int {
    if 'A' <= c <= 'Z' { (c as u32) + 32 } else { c as u32 as int }
}

/// Equal ignoring ASCII case.
pub open spec fn same_ignoring_ascii_case(a: Seq<char>, b: Seq<char>) -> bool {
    a.len() == b.len() && forall|i: int| 0 <= i < a.len() ==> ascii_lower(a[i]) == ascii_lower(b[i])
}

fn lower(c: char) -> (r: u32)
    ensures
        r == ascii_lower(c),
{
    if 'A' <= c && c <= 'Z' {
        c as u32 + 32
    } else {
        c as u32
    }
}

/// Whether `a` and `b` are equal ignoring ASCII case.
pub fn same_ignoring_case(a: &str, b: &str) -> (r: bool)
    ensures
        r == same_ignoring_ascii_case(a@, b@),
{
    let n = a.unicode_len();
    if n != b.unicode_len() {
        return false;
    }
    let mut i: usize = 0;
    while i < n
        invariant
            n == a@.len(),
            n == b@.len(),
            i <= n,
            forall|j: int| 0 <= j < i ==> ascii_lower(a@[j]) == ascii_lower(b@[j]),
        decreases n - i,
    {
        if lower(a.get_char(i)) != lower(b.get_char(i)) {
            assert(ascii_lower(a@[i as int]) != ascii_lower(b@[i as int]));
            return false;
        }
        i = i + 1;
    }
    true
}

/// Whether the program was started under the name `codex` (its file stem), as
/// a shim.
pub fn invoked_as_codex_shim(file_stem: Option<&str>) -> (r: bool)
    ensures
        r == (match file_stem { Some(s) => same_ignoring_ascii_case(s@, "codex"@), None => false }),
{
    match file_stem {
        None => false,
        Some(stem) => same_ignoring_case(stem, "codex"),
    }
}

// ---------------------------------------------------------------- numbers

pub open spec fn is_digit(c: char) -> bool {
    '0' <= c <= '9'
}

pub open spec fn digits_value(d: Seq<char>) -> nat
    decreases d.len(),
{
    if d.len() == 0 {
        0
    } else {
        digits_value(d.drop_last()) * 10 + ((d.last() as u32) - ('0' as u32)) as nat
    }
}

/// The value of an unsigned decimal as `str::parse` reads it: an optional `+`
/// and at least one ASCII digit.
pub open spec fn unsigned_text(t: Seq<char>) -> Option<nat> {
    let d = digits_part(t);
    if d.len() > 0 && all_digits(d) {
        Some(digits_value(d))
    } else {
        None
    }
}

/// The text after an optional leading `+`.
pub open spec fn digits_part(t: Seq<char>) -> Seq<char> {
    if t.len() > 0 && t[0] == '+' { t.drop_first() } else { t }
}

pub open spec fn all_digits(d: Seq<char>) -> bool {
    forall|i: int| 0 <= i < d.len() ==> is_digit(#[trigger] d[i])
}

/// The value when it is at most `max`.
pub open spec fn parsed_at_most(t: Seq<char>, max: nat) -> Option<nat> {
    match unsigned_text(t) {
        Some(v) => if v <= max { Some(v) } else { None },
        None => None,
    }
}

proof fn lemma_digits_grow(d: Seq<char>, j: int)
    requires
        0 <= j <= d.len(),
        forall|i: int| 0 <= i < d.len() ==> is_digit(#[trigger] d[i]),
    ensures
        digits_value(d.take(j)) <= digits_value(d),
    decreases d.len() - j,
{
    if j < d.len() {
        lemma_digits_grow(d, j + 1);
        assert(d.take(j + 1).drop_last() =~= d.take(j));
        assert(is_digit(d[j]));
    } else {
        assert(d.take(j) =~= d);
    }
}

/// Parses an unsigned decimal no greater than `max`.
pub fn parse_at_most(t: &str, max: u64) -> (r: Option<u64>)
    ensures
        match r {
            Some(v) => parsed_at_most(t@, max as nat) == Some(v as nat),
            None => parsed_at_most(t@, max as nat) is None,
        },
{
    let n = t.unicode_len();
    let start: usize = if n > 0 && t.get_char(0) == '+' { 1 } else { 0 };
    let ghost d = digits_part(t@);
    assert(d =~= t@.skip(start as int));
    if start >= n {
        assert(d.len() == 0);
        return None;
    }
    let mut i: usize = start;
    while i < n
        invariant
            n == t@.len(),
            start <= i <= n,
            d == t@.skip(start as int),
            d == digits_part(t@),
            forall|k: int| 0 <= k < i - start ==> is_digit(#[trigger] d[k]),
        decreases n - i,
    {
        let c = t.get_char(i);
        assert(d[i - start] == c);
        if !('0' <= c && c <= '9') {
            assert(!is_digit(d[i - start]));
            assert(!all_digits(d));
            assert(parsed_at_most(t@, max as nat) is None);
            return None;
        }
        i = i + 1;
    }
    assert(forall|k: int| 0 <= k < d.len() ==> is_digit(#[trigger] d[k]));
    assert(unsigned_text(t@) == Some(digits_value(d)));
    let mut value: u64 = 0;
    let mut j: usize = start;
    assert(d.take(0) =~= Seq::<char>::empty());
    while j < n
        invariant
            n == t@.len(),
            start <= j <= n,
            d == t@.skip(start as int),
            d.len() == n - start,
            unsigned_text(t@) == Some(digits_value(d)),
            forall|k: int| 0 <= k < d.len() ==> is_digit(#[trigger] d[k]),
            value as nat == digits_value(d.take(j - start)),
            value <= max,
        decreases n - j,
    {
        let c = t.get_char(j);
        assert(d[j - start] == c);
        assert(is_digit(d[j - start]));
        let digit = (c as u32 - '0' as u32) as u64;
        assert(d.take(j - start + 1).drop_last() =~= d.take(j - start));
        assert(digits_value(d.take(j - start + 1)) == value * 10 + digit);
        if digit > max || value > (max - digit) / 10 {
            assert(value * 10 + digit > max) by (nonlinear_arith)
                requires
                    digit > max || value > (max - digit) / 10,
                    digit <= 9,
            {
            }
            proof {
                lemma_digits_grow(d, j - start + 1);
            }
            return None;
        }
        assert(value * 10 + digit <= max) by (nonlinear_arith)
            requires
                digit <= max,
                value <= (max - digit) / 10,
        {
        }
        value = value * 10 + digit;
        j = j + 1;
    }
    assert(d.take(n - start) =~= d);
    Some(value)
}

// ---------------------------------------------------------------- setup

/// The four modules of the setup's full preset.
pub open spec fn setup_full() -> Seq<Segment> {
    seq![Segment::App, Segment::Elapsed, Segment::Cwd, Segment::Status]
}

pub fn full_segments() -> (r: Vec<Segment>)
    ensures
        r@ == setup_full(),
{
    let r = vec![Segment::App, Segment::Elapsed, Segment::Cwd, Segment::Status];
    assert(r@ =~= setup_full());
    r
}

/// The setup preset that a module list matches: "1" full, "2" focus, "3" minimal, "4" custom.
pub open spec fn preset_number_spec(segments: Seq<Segment>) -> Seq<char> {
    if segments == setup_full() {
        "1"@
    } else if segments == seq![Segment::App, Segment::Elapsed, Segment::Cwd] {
        "2"@
    } else if segments == seq![Segment::App, Segment::Elapsed] {
        "3"@
    } else {
        "4"@
    }
}

fn same_list(a: &Vec<Segment>, b: &Vec<Segment>) -> (r: bool)
    ensures
        r == (a@ == b@),
{
    if a.len() != b.len() {
        return false;
    }
    let mut i: usize = 0;
    while i < a.len()
        invariant
            a@.len() == b@.len(),
            i <= a@.len(),
            forall|j: int| 0 <= j < i ==> a@[j] == b@[j],
        decreases a@.len() - i,
    {
        if a[i] != b[i] {
            return false;
        }
        i = i + 1;
    }
    assert(a@ =~= b@);
    true
}

pub fn preset_number(segments: &Vec<Segment>) -> (r: &'static str)
    ensures
        r@ == preset_number_spec(segments@),
{
    let focus = vec![Segment::App, Segment::Elapsed, Segment::Cwd];
    assert(focus@ =~= seq![Segment::App, Segment::Elapsed, Segment::Cwd]);
    let minimal = vec![Segment::App, Segment::Elapsed];
    assert(minimal@ =~= seq![Segment::App, Segment::Elapsed]);
    if same_list(segments, &full_segments()) {
        "1"
    } else if same_list(segments, &focus) {
        "2"
    } else if same_list(segments, &minimal) {
        "3"
    } else {
        "4"
    }
}

/// The numbered modules the setup offers.
pub open spec fn setup_choice(number: nat) -> Option<Segment> {
    if number == 1 {
        Some(Segment::App)
    } else if number == 2 {
        Some(Segment::Elapsed)
    } else if number == 3 {
        Some(Segment::Cwd)
    } else if number == 4 {
        Some(Segment::Status)
    } else {
        None
    }
}

/// The numbered modules with their labels.
pub fn module_choices() -> (r: Vec<(u8, Segment, &'static str)>)
    ensures
        r@.len() == 4,
        forall|i: int| 0 <= i < 4 ==> (#[trigger] r@[i]).0 == i + 1 && setup_choice((i + 1) as nat) == Some(r@[i].1),
        r@[0].2@ == "App       Codex identity"@,
        r@[1].2@ == "Elapsed   Session timer"@,
        r@[2].2@ == "Directory Current workspace"@,
        r@[3].2@ == "Status    Companion health"@,
{
    vec![
        (1, Segment::App, "App       Codex identity"),
        (2, Segment::Elapsed, "Elapsed   Session timer"),
        (3, Segment::Cwd, "Directory Current workspace"),
        (4, Segment::Status, "Status    Companion health"),
    ]
}

/// Why a toggle list was refused.
#[derive(Debug)]
pub enum ToggleError {
    /// A token is not a number from 0 to 255.
    InvalidNumber(String),
    /// No module has this number.
    Unavailable(u8),
}

impl ToggleError {
    pub fn message(&self) -> (r: String)
        ensures
            r@ == (match self {
                ToggleError::InvalidNumber(t) => "invalid module number `"@ + t@ + "`"@,
                ToggleError::Unavailable(n) => "module number "@ + crate::text::decimal(*n as nat) + " is not available"@,
            }),
    {
        match self {
            ToggleError::InvalidNumber(t) => {
                let mut m = owned("invalid module number `");
                crate::text::push_str(&mut m, t.as_str());
                crate::text::push_str(&mut m, "`");
                m
            },
            ToggleError::Unavailable(n) => {
                let mut m = owned("module number ");
                crate::text::push_decimal(&mut m, *n as u64);
                crate::text::push_str(&mut m, " is not available");
                m
            },
        }
    }
}

/// A toggle failure by its values.
pub enum ToggleFailure {
    InvalidNumber(Seq<char>),
    Unavailable(u8),
}

pub open spec fn failure_of(e: ToggleError) -> ToggleFailure {
    match e {
        ToggleError::InvalidNumber(t) => ToggleFailure::InvalidNumber(t@),
        ToggleError::Unavailable(n) => ToggleFailure::Unavailable(n),
    }
}

/// `x` removed (its first occurrence) when present, else added at the end.
pub open spec fn toggled(s: Seq<Segment>, x: Segment) -> Seq<Segment> {
    let i = crate::config_ui::seg_index(s, x);
    if i >= 0 { s.remove(i) } else { s.push(x) }
}

/// One token applied: the list after it, or why it was refused.
pub open spec fn token_step(s: Seq<Segment>, token: Seq<char>) -> (Seq<Segment>, Option<ToggleFailure>) {
    if token.len() == 0 {
        (s, None)
    } else {
        match parsed_at_most(token, 255) {
            None => (s, Some(ToggleFailure::InvalidNumber(token))),
            Some(n) => match setup_choice(n) {
                None => (s, Some(ToggleFailure::Unavailable(n as u8))),
                Some(seg) => (toggled(s, seg), None),
            },
        }
    }
}

pub open spec fn is_separator(c: char) -> bool {
    c == ',' || c == ' '
}

/// The tokens of `rest` (split at commas and spaces, empty ones skipped)
/// applied in order to `s`, with `current` the token read so far; the first
/// refused token stops the run, keeping what was applied before it.
pub open spec fn toggle_run(s: Seq<Segment>, rest: Seq<char>, current: Seq<char>) -> (Seq<Segment>, Option<ToggleFailure>)
    decreases rest.len(),
{
    if rest.len() == 0 {
        token_step(s, current)
    } else if is_separator(rest[0]) {
        let (s2, e) = token_step(s, current);
        if e is Some { (s2, e) } else { toggle_run(s2, rest.drop_first(), Seq::empty()) }
    } else {
        toggle_run(s, rest.drop_first(), current.push(rest[0]))
    }
}

fn toggle(selected: &mut Vec<Segment>, segment: Segment)
    ensures
        final(selected)@ == toggled(old(selected)@, segment),
{
    let ghost segs = selected@;
    let mut i: usize = 0;
    assert(segs.skip(0) =~= segs);
    while i < selected.len()
        invariant
            segs == selected@,
            segs == old(selected)@,
            i <= segs.len(),
            crate::config_ui::seg_index(segs, segment) == crate::events::shifted(crate::config_ui::seg_index(segs.skip(i as int), segment), i as int),
        decreases segs.len() - i,
    {
        assert(segs.skip(i as int)[0] == segs[i as int]);
        if selected[i] == segment {
            assert(crate::config_ui::seg_index(segs.skip(i as int), segment) == 0);
            selected.remove(i);
            return;
        }
        assert(segs.skip(i as int).drop_first() =~= segs.skip(i as int + 1));
        i = i + 1;
    }
    assert(segs.skip(i as int) =~= Seq::<Segment>::empty());
    selected.push(segment);
}

fn apply_token(selected: &mut Vec<Segment>, token: &String) -> (r: Result<(), ToggleError>)
    ensures
        final(selected)@ == token_step(old(selected)@, token@).0,
        match r {
            Ok(()) => token_step(old(selected)@, token@).1 is None,
            Err(e) => token_step(old(selected)@, token@).1 == Some(failure_of(e)),
        },
{
    if token.unicode_len() == 0 {
        return Ok(());
    }
    match parse_at_most(token.as_str(), 255) {
        None => Err(ToggleError::InvalidNumber(token.clone())),
        Some(n) => {
            let segment = if n == 1 {
                Some(Segment::App)
            } else if n == 2 {
                Some(Segment::Elapsed)
            } else if n == 3 {
                Some(Segment::Cwd)
            } else if n == 4 {
                Some(Segment::Status)
            } else {
                None
            };
            match segment {
                None => Err(ToggleError::Unavailable(n as u8)),
                Some(seg) => {
                    toggle(selected, seg);
                    Ok(())
                },
            }
        },
    }
}

/// Toggles the numbered modules listed in `input` (separated by commas or
/// spaces). On a refused token the modules before it stay toggled.
pub fn toggle_segments(selected: &mut Vec<Segment>, input: &str) -> (r: Result<(), ToggleError>)
    ensures
        final(selected)@ == toggle_run(old(selected)@, input@, Seq::empty()).0,
        match r {
            Ok(()) => toggle_run(old(selected)@, input@, Seq::empty()).1 is None,
            Err(e) => toggle_run(old(selected)@, input@, Seq::empty()).1 == Some(failure_of(e)),
        },
{
    let ghost goal = toggle_run(selected@, input@, Seq::empty());
    let n = input.unicode_len();
    let mut current = String::new();
    let mut i: usize = 0;
    assert(input@.skip(0) =~= input@);
    while i < n
        invariant
            n == input@.len(),
            i <= n,
            goal == toggle_run(old(selected)@, input@, Seq::empty()),
            goal == toggle_run(selected@, input@.skip(i as int), current@),
        decreases n - i,
    {
        let c = input.get_char(i);
        assert(input@.skip(i as int)[0] == c);
        assert(input@.skip(i as int).drop_first() =~= input@.skip(i as int + 1));
        if c == ',' || c == ' ' {
            let ghost sel0 = selected@;
            let ghost cur0 = current@;
            assert(toggle_run(sel0, input@.skip(i as int), cur0) == (if token_step(sel0, cur0).1 is Some {
                token_step(sel0, cur0)
            } else {
                toggle_run(token_step(sel0, cur0).0, input@.skip(i as int + 1), Seq::empty())
            }));
            let step = apply_token(selected, &current);
            if step.is_err() {
                return step;
            }
            current = String::new();
            assert(current@ =~= Seq::<char>::empty());
        } else {
            push_char(&mut current, c);
        }
        i = i + 1;
    }
    assert(input@.skip(i as int) =~= Seq::<char>::empty());
    apply_token(selected, &current)
}

/// The theme number the setup shows for the current theme, when it offers it.
pub fn theme_number(theme: Theme) -> (r: Option<&'static str>)
    ensures
        match r {
            Some(t) => t@ == (match theme {
                Theme::CodexDark => "1"@,
                Theme::CodexLight => "2"@,
                Theme::Minimal => "3"@,
                _ => "4"@,
            }) && (theme == Theme::CodexDark || theme == Theme::CodexLight || theme == Theme::Minimal || theme == Theme::Mono),
            None => !(theme == Theme::CodexDark || theme == Theme::CodexLight || theme == Theme::Minimal || theme == Theme::Mono),
        },
{
    match theme {
        Theme::CodexDark => Some("1"),
        Theme::CodexLight => Some("2"),
        Theme::Minimal => Some("3"),
        Theme::Mono => Some("4"),
        _ => None,
    }
}

/// The launch answer: empty keeps `current`; `None` for anything but 1 or 2.
pub fn launch_answer(answer: &str, current: LaunchMode) -> (r: Option<LaunchMode>)
    ensures
        r == (if answer@.len() == 0 {
            Some(current)
        } else if answer@ == "1"@ {
            Some(LaunchMode::Shim)
        } else if answer@ == "2"@ {
            Some(LaunchMode::Explicit)
        } else {
            None
        }),
{
    if answer.unicode_len() == 0 {
        Some(current)
    } else if same_text(answer, "1") {
        Some(LaunchMode::Shim)
    } else if same_text(answer, "2") {
        Some(LaunchMode::Explicit)
    } else {
        None
    }
}

/// The preset answer (empty takes the preset the modules match): the new module
/// list, or `None` for anything but 1 to 4.
pub fn preset_answer(answer: &str, current: &Vec<Segment>) -> (r: Option<Vec<Segment>>)
    ensures
        ({
            let choice = if answer@.len() == 0 { preset_number_spec(current@) } else { answer@ };
            match r {
                Some(v) => v@ == (if choice == "1"@ {
                    setup_full()
                } else if choice == "2"@ {
                    seq![Segment::App, Segment::Elapsed, Segment::Cwd]
                } else if choice == "3"@ {
                    seq![Segment::App, Segment::Elapsed]
                } else {
                    current@
                }) && (choice == "1"@ || choice == "2"@ || choice == "3"@ || choice == "4"@),
                None => !(choice == "1"@ || choice == "2"@ || choice == "3"@ || choice == "4"@),
            }
        }),
{
    let choice: &str = if answer.unicode_len() == 0 { preset_number(current) } else { answer };
    if same_text(choice, "1") {
        Some(full_segments())
    } else if same_text(choice, "2") {
        let v = vec![Segment::App, Segment::Elapsed, Segment::Cwd];
        assert(v@ =~= seq![Segment::App, Segment::Elapsed, Segment::Cwd]);
        Some(v)
    } else if same_text(choice, "3") {
        let v = vec![Segment::App, Segment::Elapsed];
        assert(v@ =~= seq![Segment::App, Segment::Elapsed]);
        Some(v)
    } else if same_text(choice, "4") {
        Some(crate::config::copy_segments(current))
    } else {
        None
    }
}

/// The theme answer: empty keeps `current`; 1 to 4 pick Codex Dark, Codex
/// Light, Minimal, Mono; `None` for anything else.
pub fn theme_answer(answer: &str, current: Theme) -> (r: Option<Theme>)
    ensures
        r == (if answer@.len() == 0 {
            Some(current)
        } else if answer@ == "1"@ {
            Some(Theme::CodexDark)
        } else if answer@ == "2"@ {
            Some(Theme::CodexLight)
        } else if answer@ == "3"@ {
            Some(Theme::Minimal)
        } else if answer@ == "4"@ {
            Some(Theme::Mono)
        } else {
            None
        }),
{
    if answer.unicode_len() == 0 {
        Some(current)
    } else if same_text(answer, "1") {
        Some(Theme::CodexDark)
    } else if same_text(answer, "2") {
        Some(Theme::CodexLight)
    } else if same_text(answer, "3") {
        Some(Theme::Minimal)
    } else if same_text(answer, "4") {
        Some(Theme::Mono)
    } else {
        None
    }
}

/// The glyph answer: empty keeps `current`; 1 Unicode, 2 ASCII.
pub fn glyph_answer(answer: &str, current: Glyphs) -> (r: Option<Glyphs>)
    ensures
        r == (if answer@.len() == 0 {
            Some(current)
        } else if answer@ == "1"@ {
            Some(Glyphs::Unicode)
        } else if answer@ == "2"@ {
            Some(Glyphs::Ascii)
        } else {
            None
        }),
{
    if answer.unicode_len() == 0 {
        Some(current)
    } else if same_text(answer, "1") {
        Some(Glyphs::Unicode)
    } else if same_text(answer, "2") {
        Some(Glyphs::Ascii)
    } else {
        None
    }
}

/// Whether the answer to "Save this configuration? [Y/n]" declines.
pub fn declines_save(answer: &str) -> (r: bool)
    ensures
        r == (answer@ == "n"@ || answer@ == "N"@ || answer@ == "no"@ || answer@ == "NO"@),
{
    same_text(answer, "n") || same_text(answer, "N") || same_text(answer, "no") || same_text(answer, "NO")
}

proof fn lemma_push_contains(s: Seq<Seq<char>>, y: Seq<char>, x: Seq<char>)
    ensures
        s.push(y).contains(x) == (s.contains(x) || y == x),
{
    if s.push(y).contains(x) {
        let k = choose|k: int| 0 <= k < s.push(y).len() && s.push(y)[k] == x;
        if k < s.len() {
            assert(s[k] == x);
        }
    }
    if s.contains(x) {
        let k = choose|k: int| 0 <= k < s.len() && s[k] == x;
        assert(s.push(y)[k] == x);
    }
    if y == x {
        assert(s.push(y)[s.len() as int] == x);
    }
}

/// The companion's flag never reaches Codex, and every other argument passes
/// through in order.
pub proof fn lemma_bypass_flag_never_passes(args: Seq<Seq<char>>)
    ensures
        !without_bypass(args).contains("--no-companion"@),
        forall|x: Seq<char>| x != "--no-companion"@ ==> (#[trigger] without_bypass(args).contains(x) <==> args.contains(x)),
    decreases args.len(),
{
    if args.len() > 0 {
        let dl = args.drop_last();
        lemma_bypass_flag_never_passes(dl);
        assert(dl.push(args.last()) =~= args);
        assert forall|x: Seq<char>| x != "--no-companion"@ implies (#[trigger] without_bypass(args).contains(x) <==> args.contains(x)) by {
            lemma_push_contains(dl, args.last(), x);
            if args.last() != "--no-companion"@ {
                lemma_push_contains(without_bypass(dl), args.last(), x);
            }
        }
        if args.last() != "--no-companion"@ {
            lemma_push_contains(without_bypass(dl), args.last(), "--no-companion"@);
        }
    }
}

} // verus!
