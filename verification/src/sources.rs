//! Local data sources: Codex's persisted settings and command-line options,
//! and the git state of the working directory, turned into snapshot values.

use crate::cli::{parse_at_most, parsed_at_most};
use crate::codex_toml::{lookup_view, toml_lookup, toml_value, TomlFound, TomlValue};
use crate::native_status::{has_prefix, starts_with, tail_from};
use crate::segments::opt_view;
use crate::state::{SnapshotView, StatusSnapshot};
use crate::text::{owned, push_char, same_text};
use vstd::prelude::*;

verus! {

/// Whether the arguments start a new thread (not `resume` or `fork`).
pub open spec fn fresh_thread(args: Seq<Seq<char>>) -> bool {
    forall|i: int| 0 <= i < args.len() ==> (#[trigger] args[i]) != "resume"@ && args[i] != "fork"@
}

pub fn starts_fresh_thread(args: &Vec<String>) -> (r: bool)
    ensures
        r == fresh_thread(crate::text::strings_view(args@)),
{
    let ghost view = crate::text::strings_view(args@);
    let mut i: usize = 0;
    while i < args.len()
        invariant
            view == crate::text::strings_view(args@),
            i <= args@.len(),
            forall|k: int| 0 <= k < i ==> (#[trigger] view[k]) != "resume"@ && view[k] != "fork"@,
        decreases args@.len() - i,
    {
        if same_text(args[i].as_str(), "resume") || same_text(args[i].as_str(), "fork") {
            assert(!(view[i as int] != "resume"@ && view[i as int] != "fork"@));
            return false;
        }
        i = i + 1;
    }
    true
}

/// The value of the first `name=` form among `names` that `a` has.
pub open spec fn first_prefixed(a: Seq<char>, names: Seq<Seq<char>>) -> Option<Seq<char>>
    decreases names.len(),
{
    if names.len() == 0 {
        None
    } else if starts_with(a, names[0] + "="@) {
        Some(a.skip(names[0].len() as int + 1))
    } else {
        first_prefixed(a, names.drop_first())
    }
}

/// The value of an option among the first `k` arguments, the last mention
/// winning: `NAME VALUE` (no value when it is the last argument) or `NAME=VALUE`.
pub open spec fn option_scan(args: Seq<Seq<char>>, names: Seq<Seq<char>>, k: int) -> Option<Seq<char>>
    decreases k,
{
    if k <= 0 || k > args.len() {
        None
    } else if names.contains(args[k - 1]) {
        if k < args.len() { Some(args[k]) } else { None }
    } else if first_prefixed(args[k - 1], names) is Some {
        first_prefixed(args[k - 1], names)
    } else {
        option_scan(args, names, k - 1)
    }
}

fn is_name(names: &Vec<&str>, a: &str) -> (r: bool)
    ensures
        r == crate::text::strings_view_str(names@).contains(a@),
{
    let ghost view = crate::text::strings_view_str(names@);
    let mut i: usize = 0;
    while i < names.len()
        invariant
            view == crate::text::strings_view_str(names@),
            i <= names@.len(),
            forall|k: int| 0 <= k < i ==> view[k] != a@,
        decreases names@.len() - i,
    {
        if same_text(names[i], a) {
            assert(view[i as int] == a@);
            return true;
        }
        i = i + 1;
    }
    false
}

fn prefixed_value(a: &str, names: &Vec<&str>) -> (r: Option<String>)
    ensures
        opt_view(r) == first_prefixed(a@, crate::text::strings_view_str(names@)),
{
    let ghost view = crate::text::strings_view_str(names@);
    let mut i: usize = 0;
    assert(view.skip(0) =~= view);
    while i < names.len()
        invariant
            view == crate::text::strings_view_str(names@),
            i <= names@.len(),
            first_prefixed(a@, view) == first_prefixed(a@, view.skip(i as int)),
        decreases names@.len() - i,
    {
        assert(view.skip(i as int)[0] == names@[i as int]@);
        let mut flag = owned(names[i]);
        crate::text::push_str(&mut flag, "=");
        proof {
            reveal_strlit("=");
        }
        if has_prefix(a, flag.as_str()) {
            return Some(tail_from(a, flag.unicode_len()));
        }
        assert(view.skip(i as int).drop_first() =~= view.skip(i as int + 1));
        i = i + 1;
    }
    assert(view.skip(i as int) =~= Seq::<Seq<char>>::empty());
    None
}

/// The value of the last mention of an option among `names`.
pub fn option_value(args: &Vec<String>, names: &Vec<&str>) -> (r: Option<String>)
    ensures
        opt_view(r) == option_scan(crate::text::strings_view(args@), crate::text::strings_view_str(names@), args@.len() as int),
{
    let ghost view = crate::text::strings_view(args@);
    let ghost nv = crate::text::strings_view_str(names@);
    let mut k: usize = args.len();
    while k > 0
        invariant
            view == crate::text::strings_view(args@),
            nv == crate::text::strings_view_str(names@),
            k <= args@.len(),
            option_scan(view, nv, args@.len() as int) == option_scan(view, nv, k as int),
        decreases k,
    {
        let arg = args[k - 1].as_str();
        if is_name(names, arg) {
            if k < args.len() {
                return Some(owned(args[k].as_str()));
            }
            return None;
        }
        let prefixed = prefixed_value(arg, names);
        if prefixed.is_some() {
            return prefixed;
        }
        k = k - 1;
    }
    None
}

// ---------------------------------------------------------------- persisted settings

/// The string settings of Codex's configuration file.
#[derive(Debug)]
pub struct CodexConfig {
    pub model: Option<String>,
    pub model_reasoning_effort: Option<String>,
    pub sandbox_mode: Option<String>,
    pub approval_policy: Option<String>,
    pub approvals_reviewer: Option<String>,
}

/// The string a lookup found, if it found one.
pub open spec fn text_found(found: TomlFound) -> Option<Seq<char>> {
    match found {
        TomlFound::Text(t) => Some(t),
        _ => None,
    }
}

/// A top-level string of a TOML document.
pub open spec fn toml_text(source: Seq<char>, key: Seq<char>) -> Option<Seq<char>> {
    text_found(toml_lookup(source, None, key))
}

/// The string of a lookup's outcome, if it is one.
pub fn text_from_lookup(found: TomlValue) -> (r: Option<String>)
    ensures
        opt_view(r) == text_found(lookup_view(found)),
{
    match found {
        TomlValue::Text(t) => Some(t),
        _ => None,
    }
}

/// The configuration file's settings, when the text is a TOML document.
pub open spec fn config_of(source: Seq<char>) -> Option<(Option<Seq<char>>, Option<Seq<char>>, Option<Seq<char>>, Option<Seq<char>>, Option<Seq<char>>)> {
    if toml_lookup(source, None, "model"@) is Invalid {
        None
    } else {
        Some((
            toml_text(source, "model"@),
            toml_text(source, "model_reasoning_effort"@),
            toml_text(source, "sandbox_mode"@),
            toml_text(source, "approval_policy"@),
            toml_text(source, "approvals_reviewer"@),
        ))
    }
}

pub open spec fn config_view(c: CodexConfig) -> (Option<Seq<char>>, Option<Seq<char>>, Option<Seq<char>>, Option<Seq<char>>, Option<Seq<char>>) {
    (opt_view(c.model), opt_view(c.model_reasoning_effort), opt_view(c.sandbox_mode), opt_view(c.approval_policy), opt_view(c.approvals_reviewer))
}

fn text_setting(source: &str, key: &str) -> (r: Option<String>)
    ensures
        opt_view(r) == toml_text(source@, key@),
{
    text_from_lookup(toml_value(source, None, key))
}

/// Reads the settings from the text of Codex's `config.toml`; `None` when it is not TOML.
pub fn codex_config_from_source(source: &str) -> (r: Option<CodexConfig>)
    ensures
        match r {
            Some(c) => config_of(source@) == Some(config_view(c)),
            None => config_of(source@) is None,
        },
{
    let probe = toml_value(source, None, "model");
    if let TomlValue::Invalid = probe {
        return None;
    }
    Some(CodexConfig {
        model: text_setting(source, "model"),
        model_reasoning_effort: text_setting(source, "model_reasoning_effort"),
        sandbox_mode: text_setting(source, "sandbox_mode"),
        approval_policy: text_setting(source, "approval_policy"),
        approvals_reviewer: text_setting(source, "approvals_reviewer"),
    })
}

/// The settings Codex will run with, from its arguments and its configuration file.
#[derive(Debug)]
pub struct LocalCodexSettings {
    pub model: Option<String>,
    pub reasoning: Option<String>,
    pub sandbox: Option<String>,
    pub approval_policy: Option<String>,
    pub approvals_reviewer: Option<String>,
}

pub open spec fn settings_view(s: LocalCodexSettings) -> (Option<Seq<char>>, Option<Seq<char>>, Option<Seq<char>>, Option<Seq<char>>, Option<Seq<char>>) {
    (opt_view(s.model), opt_view(s.reasoning), opt_view(s.sandbox), opt_view(s.approval_policy), opt_view(s.approvals_reviewer))
}

pub open spec fn or_else(a: Option<Seq<char>>, b: Option<Seq<char>>) -> Option<Seq<char>> {
    if a is Some { a } else { b }
}

/// A command-line option wins over the file: model (`-m`, `--model`), sandbox
/// (`-s`, `--sandbox`) and approval policy (`-a`, `--ask-for-approval`); the
/// reasoning effort and `approvals_reviewer` come from the file alone.
pub open spec fn local_settings_spec(
    args: Seq<Seq<char>>,
    config: Option<(Option<Seq<char>>, Option<Seq<char>>, Option<Seq<char>>, Option<Seq<char>>, Option<Seq<char>>)>,
) -> (Option<Seq<char>>, Option<Seq<char>>, Option<Seq<char>>, Option<Seq<char>>, Option<Seq<char>>) {
    let file = match config {
        Some(c) => c,
        None => (None, None, None, None, None),
    };
    (
        or_else(option_scan(args, seq!["-m"@, "--model"@], args.len() as int), file.0),
        file.1,
        or_else(option_scan(args, seq!["-s"@, "--sandbox"@], args.len() as int), file.2),
        or_else(option_scan(args, seq!["-a"@, "--ask-for-approval"@], args.len() as int), file.3),
        file.4,
    )
}

fn copy_text(v: &Option<String>) -> (r: Option<String>)
    ensures
        opt_view(r) == opt_view(*v),
{
    match v {
        Some(t) => Some(t.clone()),
        None => None,
    }
}

fn names2(a: &'static str, b: &'static str) -> (r: Vec<&'static str>)
    ensures
        crate::text::strings_view_str(r@) == seq![a@, b@],
{
    let r = vec![a, b];
    assert(crate::text::strings_view_str(r@) =~= seq![a@, b@]);
    r
}

pub fn local_codex_settings(args: &Vec<String>, config: Option<&CodexConfig>) -> (r: LocalCodexSettings)
    ensures
        settings_view(r) == local_settings_spec(crate::text::strings_view(args@), match config {
            Some(c) => Some(config_view(*c)),
            None => None,
        }),
{
    let (model_file, reasoning, sandbox_file, approval_file, approver) = match config {
        Some(c) => (copy_text(&c.model), copy_text(&c.model_reasoning_effort), copy_text(&c.sandbox_mode), copy_text(&c.approval_policy), copy_text(&c.approvals_reviewer)),
        None => (None, None, None, None, None),
    };
    let model = match option_value(args, &names2("-m", "--model")) {
        Some(v) => Some(v),
        None => model_file,
    };
    let sandbox = match option_value(args, &names2("-s", "--sandbox")) {
        Some(v) => Some(v),
        None => sandbox_file,
    };
    let approval_policy = match option_value(args, &names2("-a", "--ask-for-approval")) {
        Some(v) => Some(v),
        None => approval_file,
    };
    LocalCodexSettings { model, reasoning, sandbox, approval_policy, approvals_reviewer: approver }
}

/// The snapshot after the configuration file changed: a configured model
/// replaces the model and reasoning; the permission settings are replaced and
/// the per-turn permission mode is forgotten.
pub open spec fn with_persisted(s: SnapshotView, settings: (Option<Seq<char>>, Option<Seq<char>>, Option<Seq<char>>, Option<Seq<char>>, Option<Seq<char>>)) -> SnapshotView {
    let m = if settings.0 is Some {
        SnapshotView { model: settings.0, reasoning: settings.1, model_live: true, ..s }
    } else {
        s
    };
    SnapshotView {
        sandbox: settings.2,
        approval_policy: settings.3,
        approvals_reviewer: settings.4,
        permission_mode: None,
        settings_live: true,
        ..m
    }
}

pub fn apply_persisted_settings(state: &mut StatusSnapshot, settings: LocalCodexSettings)
    ensures
        final(state)@ == with_persisted(old(state)@, settings_view(settings)),
{
    let ghost v = settings_view(settings);
    if settings.model.is_some() {
        state.model = settings.model;
        state.reasoning = settings.reasoning;
        state.model_live = true;
    }
    state.sandbox = settings.sandbox;
    state.approval_policy = settings.approval_policy;
    state.approvals_reviewer = settings.approvals_reviewer;
    state.permission_mode = None;
    state.settings_live = true;
    assert(state@ =~= with_persisted(old(state)@, v));
}

// ---------------------------------------------------------------- git

/// The lines of a text as `str::lines` yields them: split at `\n`, a `\r`
/// before the `\n` dropped, and no empty line after a final `\n`.
pub open spec fn lines_from(rest: Seq<char>, current: Seq<char>) -> Seq<Seq<char>>
    decreases rest.len(),
{
    if rest.len() == 0 {
        if current.len() == 0 { Seq::empty() } else { seq![current] }
    } else if rest[0] == '\n' {
        seq![ended_line(current)] + lines_from(rest.drop_first(), Seq::empty())
    } else {
        lines_from(rest.drop_first(), current.push(rest[0]))
    }
}

pub open spec fn ended_line(piece: Seq<char>) -> Seq<char> {
    if piece.len() > 0 && piece.last() == '\r' { piece.drop_last() } else { piece }
}

pub open spec fn lines_of(s: Seq<char>) -> Seq<Seq<char>> {
    lines_from(s, Seq::empty())
}

/// A porcelain line whose index column is set (staged).
pub open spec fn is_staged(line: Seq<char>) -> bool {
    line.len() > 0 && line[0] != ' ' && line[0] != '?'
}

/// A porcelain line whose second byte exists and is not a space (modified in
/// the work tree). A first character beyond ASCII has a second byte that is
/// not a space.
pub open spec fn is_modified(line: Seq<char>) -> bool {
    line.len() > 0 && ((line[0] as u32) >= 0x80 || (line.len() >= 2 && line[1] != ' '))
}

pub open spec fn count_staged(lines: Seq<Seq<char>>) -> nat
    decreases lines.len(),
{
    if lines.len() == 0 { 0 } else { count_staged(lines.drop_last()) + (if is_staged(lines.last()) { 1nat } else { 0nat }) }
}

pub open spec fn count_modified(lines: Seq<Seq<char>>) -> nat
    decreases lines.len(),
{
    if lines.len() == 0 { 0 } else { count_modified(lines.drop_last()) + (if is_modified(lines.last()) { 1nat } else { 0nat }) }
}

pub open spec fn bounded(n: nat) -> u16 {
    if n > u16::MAX { u16::MAX } else { n as u16 }
}

proof fn lemma_counts_push(lines: Seq<Seq<char>>, l: Seq<char>)
    ensures
        count_staged(lines.push(l)) == count_staged(lines) + (if is_staged(l) { 1nat } else { 0nat }),
        count_modified(lines.push(l)) == count_modified(lines) + (if is_modified(l) { 1nat } else { 0nat }),
        count_staged(lines) <= lines.len(),
        count_modified(lines) <= lines.len(),
    decreases lines.len(),
{
    assert(lines.push(l).drop_last() =~= lines);
    if lines.len() > 0 {
        lemma_counts_push(lines.drop_last(), lines.last());
        assert(lines.drop_last().push(lines.last()) =~= lines);
    }
}

fn classify(line: &String, staged: &mut usize, modified: &mut usize)
    requires
        *old(staged) < usize::MAX,
        *old(modified) < usize::MAX,
    ensures
        *final(staged) == *old(staged) + (if is_staged(line@) { 1int } else { 0int }),
        *final(modified) == *old(modified) + (if is_modified(line@) { 1int } else { 0int }),
{
    let n = line.unicode_len();
    if n > 0 {
        let first = line.as_str().get_char(0);
        if first != ' ' && first != '?' {
            *staged = *staged + 1;
        }
        if (first as u32) >= 0x80 || (n >= 2 && line.as_str().get_char(1) != ' ') {
            *modified = *modified + 1;
        }
    }
}

/// The staged and modified counts of `git status --porcelain` output (each at most 65535).
pub fn porcelain_counts(output: &str) -> (r: (u16, u16))
    ensures
        r == (bounded(count_staged(lines_of(output@))), bounded(count_modified(lines_of(output@)))),
{
    let n = output.unicode_len();
    let ghost mut done: Seq<Seq<char>> = Seq::empty();
    let mut current = String::new();
    let mut staged: usize = 0;
    let mut modified: usize = 0;
    let mut i: usize = 0;
    assert(output@.skip(0) =~= output@);
    while i < n
        invariant
            n == output@.len(),
            i <= n,
            lines_of(output@) == done + lines_from(output@.skip(i as int), current@),
            staged == count_staged(done),
            modified == count_modified(done),
            done.len() + current@.len() <= i,
        decreases n - i,
    {
        let c = output.get_char(i);
        assert(output@.skip(i as int)[0] == c);
        assert(output@.skip(i as int).drop_first() =~= output@.skip(i as int + 1));
        proof {
            lemma_counts_push(done, Seq::empty());
        }
        if c == '\n' {
            let ghost piece = current@;
            let _ = crate::text::pop_char_if(&mut current, '\r');
            proof {
                lemma_counts_push(done, current@);
            }
            classify(&current, &mut staged, &mut modified);
            proof {
                assert(seq![ended_line(piece)] + lines_from(output@.skip(i as int + 1), Seq::empty())
                    == lines_from(output@.skip(i as int), piece));
                assert(done.push(current@) + lines_from(output@.skip(i as int + 1), Seq::empty())
                    =~= done + (seq![current@] + lines_from(output@.skip(i as int + 1), Seq::empty())));
                done = done.push(current@);
            }
            current = String::new();
        } else {
            push_char(&mut current, c);
        }
        i = i + 1;
    }
    assert(output@.skip(i as int) =~= Seq::<char>::empty());
    if current.unicode_len() > 0 {
        proof {
            lemma_counts_push(done, current@);
            lemma_counts_push(done, Seq::empty());
        }
        classify(&current, &mut staged, &mut modified);
        proof {
            assert(lines_of(output@) =~= done.push(current@));
            done = done.push(current@);
        }
    } else {
        assert(lines_of(output@) =~= done);
    }
    proof {
        lemma_counts_push(done, Seq::empty());
    }
    let s16: u16 = if staged > 65535 { 65535 } else { staged as u16 };
    let m16: u16 = if modified > 65535 { 65535 } else { modified as u16 };
    (s16, m16)
}

/// A character that `char::is_whitespace` accepts (Unicode `White_Space`).
pub open spec fn is_space(c: char) -> bool {
    let v = c as u32;
    (9 <= v <= 13) || v == 32 || v == 0x85 || v == 0xA0 || v == 0x1680 || (0x2000 <= v <= 0x200A)
        || v == 0x2028 || v == 0x2029 || v == 0x202F || v == 0x205F || v == 0x3000
}

/// The whitespace-separated words of `rest`, `current` being the word read so far.
pub open spec fn words_from(rest: Seq<char>, current: Seq<char>) -> Seq<Seq<char>>
    decreases rest.len(),
{
    if rest.len() == 0 {
        if current.len() == 0 { Seq::empty() } else { seq![current] }
    } else if is_space(rest[0]) {
        (if current.len() == 0 { Seq::empty() } else { seq![current] }) + words_from(rest.drop_first(), Seq::empty())
    } else {
        words_from(rest.drop_first(), current.push(rest[0]))
    }
}

/// The words that parse as `u16`, in order.
pub open spec fn numbers_of(words: Seq<Seq<char>>) -> Seq<u16>
    decreases words.len(),
{
    if words.len() == 0 {
        Seq::empty()
    } else {
        let rest = numbers_of(words.drop_last());
        match parsed_at_most(words.last(), 65535) {
            Some(v) => rest.push(v as u16),
            None => rest,
        }
    }
}

/// `(behind, ahead)` from `git rev-list --left-right --count`: the first two
/// numbers of the output.
pub open spec fn ahead_behind_of(output: Seq<char>) -> Option<(u16, u16)> {
    let numbers = numbers_of(words_from(output, Seq::empty()));
    if numbers.len() >= 2 { Some((numbers[0], numbers[1])) } else { None }
}

fn is_space_exec(c: char) -> (r: bool)
    ensures
        r == is_space(c),
{
    let v = c as u32;
    (9 <= v && v <= 13) || v == 32 || v == 0x85 || v == 0xA0 || v == 0x1680 || (0x2000 <= v && v <= 0x200A)
        || v == 0x2028 || v == 0x2029 || v == 0x202F || v == 0x205F || v == 0x3000
}

proof fn lemma_numbers_push(words: Seq<Seq<char>>, w: Seq<char>)
    ensures
        numbers_of(words.push(w)) == (match parsed_at_most(w, 65535) {
            Some(v) => numbers_of(words).push(v as u16),
            None => numbers_of(words),
        }),
{
    assert(words.push(w).drop_last() =~= words);
}

fn take_number(word: &String, numbers: &mut Vec<u16>)
    ensures
        final(numbers)@ == (match parsed_at_most(word@, 65535) {
            Some(v) => old(numbers)@.push(v as u16),
            None => old(numbers)@,
        }),
{
    if word.unicode_len() > 0 {
        if let Some(v) = parse_at_most(word.as_str(), 65535) {
            numbers.push(v as u16);
        }
    } else {
        assert(parsed_at_most(word@, 65535) is None) by {
            assert(crate::cli::digits_part(word@).len() == 0);
        }
    }
}

/// `(behind, ahead)` parsed from `git rev-list --left-right --count` output.
pub fn parse_ahead_behind(output: &str) -> (r: Option<(u16, u16)>)
    ensures
        r == ahead_behind_of(output@),
{
    let n = output.unicode_len();
    let ghost mut words: Seq<Seq<char>> = Seq::empty();
    let mut numbers: Vec<u16> = Vec::new();
    let mut current = String::new();
    let mut i: usize = 0;
    assert(output@.skip(0) =~= output@);
    while i < n
        invariant
            n == output@.len(),
            i <= n,
            words_from(output@, Seq::empty()) == words + words_from(output@.skip(i as int), current@),
            numbers@ == numbers_of(words),
        decreases n - i,
    {
        let c = output.get_char(i);
        assert(output@.skip(i as int)[0] == c);
        assert(output@.skip(i as int).drop_first() =~= output@.skip(i as int + 1));
        if is_space_exec(c) {
            if current.unicode_len() > 0 {
                proof {
                    lemma_numbers_push(words, current@);
                }
                take_number(&current, &mut numbers);
                proof {
                    assert(words.push(current@) + words_from(output@.skip(i as int + 1), Seq::empty())
                        =~= words + (seq![current@] + words_from(output@.skip(i as int + 1), Seq::empty())));
                    words = words.push(current@);
                }
            } else {
                assert(words_from(output@.skip(i as int), current@) =~= words_from(output@.skip(i as int + 1), Seq::empty()));
            }
            current = String::new();
        } else {
            push_char(&mut current, c);
        }
        i = i + 1;
    }
    assert(output@.skip(i as int) =~= Seq::<char>::empty());
    if current.unicode_len() > 0 {
        proof {
            lemma_numbers_push(words, current@);
        }
        take_number(&current, &mut numbers);
        proof {
            assert(words_from(output@, Seq::empty()) =~= words.push(current@));
        }
    } else {
        assert(words_from(output@, Seq::empty()) =~= words);
    }
    if numbers.len() >= 2 {
        Some((numbers[0], numbers[1]))
    } else {
        None
    }
}

/// The git state of the working directory; all `None` outside a repository.
#[derive(Debug)]
pub struct LocalGit {
    pub branch: Option<String>,
    pub dirty: Option<bool>,
    pub staged: Option<u16>,
    pub modified: Option<u16>,
    pub ahead: Option<u16>,
    pub behind: Option<u16>,
    pub worktree: Option<String>,
    pub linked_worktree: Option<bool>,
    pub project_root: Option<String>,
}

pub struct GitView {
    pub branch: Option<Seq<char>>,
    pub dirty: Option<bool>,
    pub staged: Option<u16>,
    pub modified: Option<u16>,
    pub ahead: Option<u16>,
    pub behind: Option<u16>,
    pub worktree: Option<Seq<char>>,
    pub linked_worktree: Option<bool>,
    pub project_root: Option<Seq<char>>,
}

impl View for LocalGit {
    type V = GitView;

    open spec fn view(&self) -> GitView {
        GitView {
            branch: opt_view(self.branch),
            dirty: self.dirty,
            staged: self.staged,
            modified: self.modified,
            ahead: self.ahead,
            behind: self.behind,
            worktree: opt_view(self.worktree),
            linked_worktree: self.linked_worktree,
            project_root: opt_view(self.project_root),
        }
    }
}

pub open spec fn no_git() -> GitView {
    GitView {
        branch: None,
        dirty: None,
        staged: None,
        modified: None,
        ahead: None,
        behind: None,
        worktree: None,
        linked_worktree: None,
        project_root: None,
    }
}

impl LocalGit {
    /// Outside a repository.
    pub fn none() -> (r: Self)
        ensures
            r@ == no_git(),
    {
        LocalGit {
            branch: None,
            dirty: None,
            staged: None,
            modified: None,
            ahead: None,
            behind: None,
            worktree: None,
            linked_worktree: None,
            project_root: None,
        }
    }
}

/// What the git commands printed (trimmed), each `None` when the command
/// failed, timed out or exited unsuccessfully: `rev-parse --abbrev-ref HEAD`,
/// `status --porcelain --untracked-files=no`, `rev-list --left-right --count
/// @{upstream}...HEAD` and `rev-parse --show-toplevel`; with two facts the
/// caller read from the file system: the top-level directory's last path
/// component, and whether the git directory differs from the common directory.
#[derive(Debug)]
pub struct GitOutputs {
    pub branch: Option<String>,
    pub porcelain: Option<String>,
    pub rev_list: Option<String>,
    pub toplevel: Option<String>,
    pub toplevel_name: Option<String>,
    pub linked_worktree: Option<bool>,
}

/// The git state the outputs describe; nothing without a branch.
pub open spec fn git_spec(o: GitOutputs) -> GitView {
    if o.branch is None {
        no_git()
    } else {
        let counts = match o.porcelain {
            Some(p) => Some((bounded(count_staged(lines_of(p@))), bounded(count_modified(lines_of(p@))))),
            None => None,
        };
        let ab = match o.rev_list {
            Some(t) => ahead_behind_of(t@),
            None => None,
        };
        GitView {
            branch: opt_view(o.branch),
            dirty: match o.porcelain {
                Some(p) => Some(p@.len() > 0),
                None => None,
            },
            staged: match counts { Some(c) => Some(c.0), None => None },
            modified: match counts { Some(c) => Some(c.1), None => None },
            behind: match ab { Some(x) => Some(x.0), None => None },
            ahead: match ab { Some(x) => Some(x.1), None => None },
            worktree: opt_view(o.toplevel_name),
            linked_worktree: o.linked_worktree,
            project_root: opt_view(o.toplevel),
        }
    }
}

pub fn local_git(outputs: GitOutputs) -> (r: LocalGit)
    ensures
        r@ == git_spec(outputs),
{
    let ghost o = outputs;
    if outputs.branch.is_none() {
        return LocalGit::none();
    }
    let (dirty, staged, modified) = match &outputs.porcelain {
        Some(p) => {
            let (s, m) = porcelain_counts(p.as_str());
            (Some(p.unicode_len() > 0), Some(s), Some(m))
        },
        None => (None, None, None),
    };
    let (behind, ahead) = match &outputs.rev_list {
        Some(t) => match parse_ahead_behind(t.as_str()) {
            Some((b, a)) => (Some(b), Some(a)),
            None => (None, None),
        },
        None => (None, None),
    };
    let r = LocalGit {
        branch: outputs.branch,
        dirty,
        staged,
        modified,
        ahead,
        behind,
        worktree: outputs.toplevel_name,
        linked_worktree: outputs.linked_worktree,
        project_root: outputs.toplevel,
    };
    assert(r@ == git_spec(o));
    r
}

/// The snapshot's git fields from the git state.
pub open spec fn with_git(s: SnapshotView, g: GitView) -> SnapshotView {
    SnapshotView {
        project_root: g.project_root,
        git_branch: g.branch,
        git_dirty: g.dirty,
        git_staged: g.staged,
        git_modified: g.modified,
        git_ahead: g.ahead,
        git_behind: g.behind,
        worktree: g.worktree,
        linked_worktree: g.linked_worktree,
        ..s
    }
}

fn set_git(state: &mut StatusSnapshot, git: LocalGit)
    ensures
        final(state)@ == with_git(old(state)@, git@),
{
    let ghost g = git@;
    state.project_root = git.project_root;
    state.git_branch = git.branch;
    state.git_dirty = git.dirty;
    state.git_staged = git.staged;
    state.git_modified = git.modified;
    state.git_ahead = git.ahead;
    state.git_behind = git.behind;
    state.worktree = git.worktree;
    state.linked_worktree = git.linked_worktree;
    assert(state@ =~= with_git(old(state)@, g));
}

/// One periodic refresh: the git state, then the persisted settings when the
/// configuration file changed.
pub fn apply_local_refresh(state: &mut StatusSnapshot, git: LocalGit, settings: Option<LocalCodexSettings>)
    ensures
        final(state)@ == (match settings {
            Some(x) => with_persisted(with_git(old(state)@, git@), settings_view(x)),
            None => with_git(old(state)@, git@),
        }),
{
    set_git(state, git);
    if let Some(x) = settings {
        apply_persisted_settings(state, x);
    }
}

/// The snapshot before any live source reported: a new thread starts with an
/// empty context; resumed and forked threads keep it unknown.
pub open spec fn local_snapshot_spec(
    args: Seq<Seq<char>>,
    settings: (Option<Seq<char>>, Option<Seq<char>>, Option<Seq<char>>, Option<Seq<char>>, Option<Seq<char>>),
    git: GitView,
    cwd: Option<Seq<char>>,
) -> SnapshotView {
    let fresh = fresh_thread(args);
    with_git(SnapshotView {
        model: settings.0,
        reasoning: settings.1,
        model_live: false,
        work: Some("ready"@),
        context_percent: if fresh { Some(0u8) } else { None },
        context_used: if fresh { Some(0u64) } else { None },
        context_live: false,
        cwd: cwd,
        sandbox: settings.2,
        approval_policy: settings.3,
        approvals_reviewer: settings.4,
        settings_live: false,
        ..crate::state::blank_view()
    }, git)
}

/// The snapshot from local sources: the settings from the arguments and the
/// configuration file, the git state, and the working directory.
pub fn local_snapshot(codex_args: &Vec<String>, config: Option<&CodexConfig>, git: LocalGit, cwd: Option<String>) -> (r: StatusSnapshot)
    ensures
        r@ == local_snapshot_spec(
            crate::text::strings_view(codex_args@),
            local_settings_spec(crate::text::strings_view(codex_args@), match config {
                Some(c) => Some(config_view(*c)),
                None => None,
            }),
            git@,
            opt_view(cwd),
        ),
{
    let settings = local_codex_settings(codex_args, config);
    let ghost sv = settings_view(settings);
    let fresh = starts_fresh_thread(codex_args);
    let mut s = StatusSnapshot::blank();
    s.model = settings.model;
    s.reasoning = settings.reasoning;
    s.model_live = false;
    s.work = Some(owned("ready"));
    s.context_percent = if fresh { Some(0) } else { None };
    s.context_used = if fresh { Some(0) } else { None };
    s.context_live = false;
    s.cwd = cwd;
    s.sandbox = settings.sandbox;
    s.approval_policy = settings.approval_policy;
    s.approvals_reviewer = settings.approvals_reviewer;
    s.settings_live = false;
    let ghost before_git = s@;
    set_git(&mut s, git);
    assert(s@ =~= local_snapshot_spec(crate::text::strings_view(codex_args@), sv, git@, opt_view(cwd)));
    s
}

/// A value that cannot be taken for an option: it does not start with `-`.
pub open spec fn plain_value(v: Seq<char>) -> bool {
    v.len() == 0 || v[0] != '-'
}

proof fn lemma_no_prefix_for_plain(v: Seq<char>, names: Seq<Seq<char>>)
    requires
        plain_value(v),
        forall|i: int| 0 <= i < names.len() ==> (#[trigger] names[i]).len() > 0 && names[i][0] == '-',
    ensures
        first_prefixed(v, names) is None,
        !names.contains(v),
    decreases names.len(),
{
    if names.len() > 0 {
        let p = names[0] + "="@;
        assert(p[0] == '-');
        if starts_with(v, p) {
            assert(v.take(p.len() as int)[0] == v[0]);
        }
        assert forall|i: int| 0 <= i < names.drop_first().len() implies (#[trigger] names.drop_first()[i]).len() > 0
            && names.drop_first()[i][0] == '-' by {
            assert(names.drop_first()[i] == names[i + 1]);
        }
        lemma_no_prefix_for_plain(v, names.drop_first());
    }
    if names.contains(v) {
        let i = choose|i: int| 0 <= i < names.len() && names[i] == v;
        assert(names[i].len() > 0);
    }
}

/// An option given as the last two arguments, `NAME VALUE` with a value that
/// does not start with `-`, is what the option scan finds.
proof fn lemma_trailing_option(args: Seq<Seq<char>>, names: Seq<Seq<char>>, name: Seq<char>, v: Seq<char>)
    requires
        args.len() >= 2,
        args[args.len() - 2] == name,
        args[args.len() - 1] == v,
        names.contains(name),
        plain_value(v),
        forall|i: int| 0 <= i < names.len() ==> (#[trigger] names[i]).len() > 0 && names[i][0] == '-',
    ensures
        option_scan(args, names, args.len() as int) == Some(v),
{
    lemma_no_prefix_for_plain(v, names);
    let k = args.len() as int;
    assert(!names.contains(args[k - 1]));
    assert(first_prefixed(args[k - 1], names) is None);
    assert(option_scan(args, names, k) == option_scan(args, names, k - 1));
    assert(names.contains(args[k - 2]));
    assert(option_scan(args, names, k - 1) == Some(args[k - 1]));
}

/// Command-line options win over the configuration file: whenever the
/// arguments give a model (`-m`/`--model`), a sandbox (`-s`/`--sandbox`) or an
/// approval policy (`-a`/`--ask-for-approval`), that value is used whatever
/// the file says; the file's value is used only when the arguments give none.
/// In particular, arguments ending in `-a VALUE` (a value not starting with
/// `-`) set the approval policy to `VALUE` for every file, and likewise for
/// `-m` and `-s`.
pub proof fn lemma_arguments_win_over_file(
    args: Seq<Seq<char>>,
    config: Option<(Option<Seq<char>>, Option<Seq<char>>, Option<Seq<char>>, Option<Seq<char>>, Option<Seq<char>>)>,
    v: Seq<char>,
)
    ensures
        option_scan(args, seq!["-m"@, "--model"@], args.len() as int) matches Some(m) ==> local_settings_spec(args, config).0 == Some(m),
        option_scan(args, seq!["-s"@, "--sandbox"@], args.len() as int) matches Some(x) ==> local_settings_spec(args, config).2 == Some(x),
        option_scan(args, seq!["-a"@, "--ask-for-approval"@], args.len() as int) matches Some(x) ==> local_settings_spec(args, config).3 == Some(x),
        args.len() >= 2 && plain_value(v) && args[args.len() - 1] == v
            && (args[args.len() - 2] == "-a"@ || args[args.len() - 2] == "--ask-for-approval"@)
            ==> local_settings_spec(args, config).3 == Some(v),
        args.len() >= 2 && plain_value(v) && args[args.len() - 1] == v
            && (args[args.len() - 2] == "-m"@ || args[args.len() - 2] == "--model"@)
            ==> local_settings_spec(args, config).0 == Some(v),
        args.len() >= 2 && plain_value(v) && args[args.len() - 1] == v
            && (args[args.len() - 2] == "-s"@ || args[args.len() - 2] == "--sandbox"@)
            ==> local_settings_spec(args, config).2 == Some(v),
{
    reveal_strlit("-m");
    reveal_strlit("--model");
    reveal_strlit("-s");
    reveal_strlit("--sandbox");
    reveal_strlit("-a");
    reveal_strlit("--ask-for-approval");
    let nm = seq!["-m"@, "--model"@];
    let ns = seq!["-s"@, "--sandbox"@];
    let na = seq!["-a"@, "--ask-for-approval"@];
    assert(nm[0] == "-m"@ && nm[1] == "--model"@);
    assert(ns[0] == "-s"@ && ns[1] == "--sandbox"@);
    assert(na[0] == "-a"@ && na[1] == "--ask-for-approval"@);
    if args.len() >= 2 && plain_value(v) && args[args.len() - 1] == v {
        let name = args[args.len() - 2];
        if name == "-a"@ || name == "--ask-for-approval"@ {
            assert(na.contains(name)) by { if name == "-a"@ { assert(na[0] == name); } else { assert(na[1] == name); } }
            lemma_trailing_option(args, na, name, v);
        }
        if name == "-m"@ || name == "--model"@ {
            assert(nm.contains(name)) by { if name == "-m"@ { assert(nm[0] == name); } else { assert(nm[1] == name); } }
            lemma_trailing_option(args, nm, name, v);
        }
        if name == "-s"@ || name == "--sandbox"@ {
            assert(ns.contains(name)) by { if name == "-s"@ { assert(ns[0] == name); } else { assert(ns[1] == name); } }
            lemma_trailing_option(args, ns, name, v);
        }
    }
}

} // verus!
