//! The text of each HUD module, computed from the status snapshot.

use crate::config::Segment;
use crate::number::{compact_number, compact_number_text};
use crate::state::{AgentActivity, RateLimitWindow, StatusSnapshot, ToolCount};
use crate::text::{decimal, join, join_strings, owned, push_char, push_decimal, push_repeat, push_str, repeat, sanitize, strings_view, without_controls};
use vstd::prelude::*;

verus! {

/// The characters of an optional string.
pub open spec fn opt_view(o: Option<String>) -> Option<Seq<char>> {
    match o {
        Some(s) => Some(s@),
        None => None,
    }
}

/// Two-digit seconds, as `{:02}` writes a number below 100.
pub open spec fn two_digits(n: nat) -> Seq<char> {
    if n < 10 { seq!['0'] + decimal(n) } else { decimal(n) }
}

/// A duration: `8s` below a minute, else `3m05s`.
pub open spec fn duration_text(seconds: nat) -> Seq<char> {
    if seconds < 60 {
        decimal(seconds).push('s')
    } else {
        (decimal(seconds / 60).push('m') + two_digits(seconds % 60)).push('s')
    }
}

pub fn compact_duration(seconds: u64) -> (r: String)
    ensures
        r@ == duration_text(seconds as nat),
{
    let mut out = String::new();
    if seconds < 60 {
        push_decimal(&mut out, seconds);
        push_char(&mut out, 's');
    } else {
        push_decimal(&mut out, seconds / 60);
        push_char(&mut out, 'm');
        let rest = seconds % 60;
        if rest < 10 {
            push_char(&mut out, '0');
        }
        push_decimal(&mut out, rest);
        push_char(&mut out, 's');
    }
    assert(out@ =~= duration_text(seconds as nat));
    out
}

/// Blocks of the context bar that are full for `free` percent of free context.
pub open spec fn bar_filled(free: nat) -> nat {
    let f = (free + 10) / 20;
    if f > 5 { 5 } else { f }
}

/// `CTX ▓▓▓░░ 58%`: the bar and the percentage of context that is still free.
pub open spec fn context_bar_text(percent: nat) -> Seq<char> {
    let p = if percent > 100 { 100 } else { percent };
    let free = (100 - p) as nat;
    let filled = bar_filled(free);
    "CTX "@ + repeat('█', filled) + repeat('░', (5 - filled) as nat) + " "@ + decimal(free) + "%"@
}

pub fn context_bar(percent: u8) -> (r: String)
    ensures
        r@ == context_bar_text(percent as nat),
{
    let p: u8 = if percent > 100 { 100 } else { percent };
    let free: u8 = 100 - p;
    let f: u8 = (free + 10) / 20;
    let filled: u8 = if f > 5 { 5 } else { f };
    let mut out = owned("CTX ");
    push_repeat(&mut out, '█', filled as usize);
    push_repeat(&mut out, '░', (5 - filled) as usize);
    push_str(&mut out, " ");
    push_decimal(&mut out, free as u64);
    push_str(&mut out, "%");
    out
}

pub open spec fn sat_u64(n: int) -> nat {
    if n > u64::MAX { u64::MAX as nat } else if n < 0 { 0 } else { n as nat }
}

/// Used context in percent, rounded up, from the token counts when the
/// percentage itself is unknown.
pub open spec fn context_percent_of(s: StatusSnapshot) -> Option<nat> {
    match s.context_percent {
        Some(p) => Some(p as nat),
        None => match (s.context_used, s.context_window) {
            (Some(used), Some(window)) => {
                let w: nat = if window == 0 { 1 } else { window as nat };
                let q = sat_u64(sat_u64(used * 100) + (w - 1)) / w;
                Some(if q > 100 { 100 } else { q })
            },
            _ => None,
        },
    }
}

pub fn context_percent(s: &StatusSnapshot) -> (r: Option<u8>)
    ensures
        r matches Some(p) ==> context_percent_of(*s) == Some(p as nat),
        r is None <==> context_percent_of(*s) is None,
{
    match s.context_percent {
        Some(p) => Some(p),
        None => match (s.context_used, s.context_window) {
            (Some(used), Some(window)) => {
                let w: u64 = if window == 0 { 1 } else { window };
                let scaled: u64 = if used > u64::MAX / 100 { u64::MAX } else { used * 100 };
                let q = scaled.saturating_add(w - 1) / w;
                Some(if q > 100 { 100 } else { q as u8 })
            },
            _ => None,
        },
    }
}

/// The context module: the bar, then `used/window` when both are known.
pub open spec fn context_text_spec(s: StatusSnapshot) -> Option<Seq<char>> {
    match context_percent_of(s) {
        None => None,
        Some(p) => Some(match (s.context_used, s.context_window) {
            (Some(u), Some(w)) => context_bar_text(p) + " "@ + compact_number_text(u as nat) + "/"@
                + compact_number_text(w as nat),
            _ => context_bar_text(p),
        }),
    }
}

pub fn context_text(s: &StatusSnapshot) -> (r: Option<String>)
    ensures
        opt_view(r) == context_text_spec(*s),
{
    let percent = context_percent(s)?;
    let mut text = context_bar(percent);
    if let (Some(used), Some(window)) = (s.context_used, s.context_window) {
        push_str(&mut text, " ");
        push_str(&mut text, compact_number(used).as_str());
        push_str(&mut text, "/");
        push_str(&mut text, compact_number(window).as_str());
    }
    Some(text)
}

/// `label value` when the value is present, nothing otherwise.
pub open spec fn count_part(label: Seq<char>, value: Option<u64>) -> Seq<Seq<char>> {
    match value {
        Some(v) => seq![label + compact_number_text(v as nat)],
        None => Seq::empty(),
    }
}

pub open spec fn token_parts(s: StatusSnapshot) -> Seq<Seq<char>> {
    count_part("in "@, s.input_tokens)
        + count_part("cache "@, match s.cached_input_tokens { Some(v) if v > 0 => Some(v), _ => None })
        + count_part("out "@, s.output_tokens)
}

/// `in 72.4k · cache 51.2k · out 8.6k`; cached tokens only when non-zero.
pub open spec fn token_text_spec(s: StatusSnapshot) -> Option<Seq<char>> {
    let parts = token_parts(s);
    if parts.len() == 0 { None } else { Some(join(parts, " · "@)) }
}

fn push_count_part(parts: &mut Vec<String>, label: &str, value: Option<u64>)
    ensures
        strings_view(final(parts)@) == strings_view(old(parts)@) + count_part(label@, value),
{
    if let Some(v) = value {
        let mut t = owned(label);
        push_str(&mut t, compact_number(v).as_str());
        parts.push(t);
    }
    assert(strings_view(final(parts)@) =~= strings_view(old(parts)@) + count_part(label@, value));
}

pub fn token_text(s: &StatusSnapshot) -> (r: Option<String>)
    ensures
        opt_view(r) == token_text_spec(*s),
{
    let mut parts: Vec<String> = Vec::new();
    push_count_part(&mut parts, "in ", s.input_tokens);
    let cached = match s.cached_input_tokens {
        Some(v) if v > 0 => Some(v),
        _ => None,
    };
    push_count_part(&mut parts, "cache ", cached);
    push_count_part(&mut parts, "out ", s.output_tokens);
    assert(strings_view(parts@) =~= token_parts(*s));
    if parts.len() == 0 {
        None
    } else {
        Some(join_strings(&parts, " · "))
    }
}

/// The time left until a reset: `2d 5h`, `3h 12m` or `7m` (minutes rounded up).
pub open spec fn reset_text(resets_at: nat, now: nat) -> Seq<char> {
    let seconds: nat = if resets_at > now { (resets_at - now) as nat } else { 0 };
    if seconds >= 86_400 {
        decimal(seconds / 86_400) + "d "@ + decimal(seconds % 86_400 / 3_600) + "h"@
    } else if seconds >= 3_600 {
        decimal(seconds / 3_600) + "h "@ + decimal(seconds % 3_600 / 60) + "m"@
    } else {
        decimal((seconds + 59) / 60) + "m"@
    }
}

pub fn reset_in(timestamp: u64, now: u64) -> (r: String)
    ensures
        r@ == reset_text(timestamp as nat, now as nat),
{
    let seconds = timestamp.saturating_sub(now);
    let mut out = String::new();
    if seconds >= 86_400 {
        push_decimal(&mut out, seconds / 86_400);
        push_str(&mut out, "d ");
        push_decimal(&mut out, seconds % 86_400 / 3_600);
        push_str(&mut out, "h");
    } else if seconds >= 3_600 {
        push_decimal(&mut out, seconds / 3_600);
        push_str(&mut out, "h ");
        push_decimal(&mut out, seconds % 3_600 / 60);
        push_str(&mut out, "m");
    } else {
        push_decimal(&mut out, (seconds + 59) / 60);
        push_str(&mut out, "m");
    }
    assert(out@ =~= reset_text(timestamp as nat, now as nat));
    out
}

/// Windows order by length; a window of unknown length sorts last.
pub open spec fn window_key(w: RateLimitWindow) -> nat {
    match w.window_minutes {
        Some(m) => m as nat,
        None => u64::MAX as nat,
    }
}

/// Inserts `w` after every element whose key is not greater (a stable insertion).
pub open spec fn insert_window(sorted: Seq<RateLimitWindow>, w: RateLimitWindow) -> Seq<RateLimitWindow>
    decreases sorted.len(),
{
    if sorted.len() == 0 {
        seq![w]
    } else if window_key(sorted.last()) <= window_key(w) {
        sorted.push(w)
    } else {
        insert_window(sorted.drop_last(), w).push(sorted.last())
    }
}

/// The windows stably sorted by length (what `sort_by_key` yields).
pub open spec fn sorted_windows(s: Seq<RateLimitWindow>) -> Seq<RateLimitWindow>
    decreases s.len(),
{
    if s.len() == 0 {
        s
    } else {
        insert_window(sorted_windows(s.drop_last()), s.last())
    }
}

fn window_minutes_key(w: &RateLimitWindow) -> (k: u64)
    ensures
        k == window_key(*w),
{
    match w.window_minutes {
        Some(m) => m,
        None => u64::MAX,
    }
}

fn insert_window_exec(sorted: &mut Vec<RateLimitWindow>, w: RateLimitWindow)
    ensures
        final(sorted)@ == insert_window(old(sorted)@, w),
    decreases old(sorted)@.len(),
{
    let n = sorted.len();
    if n == 0 {
        sorted.push(w);
        assert(final(sorted)@ =~= seq![w]);
    } else {
        let last = sorted[n - 1];
        if window_minutes_key(&last) <= window_minutes_key(&w) {
            sorted.push(w);
        } else {
            let _ = sorted.pop();
            assert(sorted@ =~= old(sorted)@.drop_last());
            insert_window_exec(sorted, w);
            sorted.push(last);
        }
    }
}

pub fn sort_windows(windows: &Vec<RateLimitWindow>) -> (r: Vec<RateLimitWindow>)
    ensures
        r@ == sorted_windows(windows@),
{
    let mut out: Vec<RateLimitWindow> = Vec::new();
    let mut i: usize = 0;
    while i < windows.len()
        invariant
            i <= windows.len(),
            out@ == sorted_windows(windows@.take(i as int)),
        decreases windows.len() - i,
    {
        assert(windows@.take(i as int + 1).drop_last() =~= windows@.take(i as int));
        insert_window_exec(&mut out, windows[i]);
        i = i + 1;
    }
    assert(windows@.take(i as int) =~= windows@);
    out
}

/// `5H`, `WEEK`, `12H` or `LIMIT`.
pub open spec fn window_label(w: RateLimitWindow) -> Seq<char> {
    match w.window_minutes {
        Some(m) => if m <= 360 {
            "5H"@
        } else if m >= 10_080 {
            "WEEK"@
        } else {
            decimal(((m + 59) / 60) as nat) + "H"@
        },
        None => "LIMIT"@,
    }
}

/// `5H 66% ↻2d 5h`: label, percentage left and, when known, time to reset.
pub open spec fn window_text(w: RateLimitWindow, now: nat) -> Seq<char> {
    let left: nat = if w.used_percent >= 100 { 0 } else { (100 - w.used_percent) as nat };
    let base = window_label(w) + " "@ + decimal(left) + "%"@;
    match w.resets_at {
        Some(t) => base + " ↻"@ + reset_text(t as nat, now),
        None => base,
    }
}

pub fn window_text_exec(w: &RateLimitWindow, now: u64) -> (r: String)
    ensures
        r@ == window_text(*w, now as nat),
{
    let mut out = match w.window_minutes {
        Some(m) => if m <= 360 {
            owned("5H")
        } else if m >= 10_080 {
            owned("WEEK")
        } else {
            let mut t = String::new();
            push_decimal(&mut t, (m + 59) / 60);
            push_str(&mut t, "H");
            t
        },
        None => owned("LIMIT"),
    };
    let left: u8 = if w.used_percent >= 100 { 0 } else { 100 - w.used_percent };
    push_str(&mut out, " ");
    push_decimal(&mut out, left as u64);
    push_str(&mut out, "%");
    if let Some(t) = w.resets_at {
        push_str(&mut out, " ↻");
        push_str(&mut out, reset_in(t, now).as_str());
    }
    out
}

pub open spec fn window_texts(ws: Seq<RateLimitWindow>, now: nat) -> Seq<Seq<char>> {
    ws.map_values(|w: RateLimitWindow| window_text(w, now))
}

pub open spec fn rate_limit_parts(s: StatusSnapshot, now: nat) -> Seq<Seq<char>> {
    let sorted = sorted_windows(s.rate_limits@);
    let shown = if sorted.len() > 2 { sorted.take(2) } else { sorted };
    window_texts(shown, now) + match s.reset_credits {
        Some(c) if c > 0 => seq!["+"@ + decimal(c as nat)],
        _ => Seq::empty(),
    }
}

/// The two shortest rate-limit windows and the available reset credits,
/// separated by two spaces.
pub open spec fn rate_limits_text_spec(s: StatusSnapshot, now: nat) -> Option<Seq<char>> {
    let parts = rate_limit_parts(s, now);
    if parts.len() == 0 { None } else { Some(join(parts, "  "@)) }
}

pub fn rate_limits_text(s: &StatusSnapshot, now: u64) -> (r: Option<String>)
    ensures
        opt_view(r) == rate_limits_text_spec(*s, now as nat),
{
    let sorted = sort_windows(&s.rate_limits);
    let shown_len = if sorted.len() > 2 { 2 } else { sorted.len() };
    let ghost shown = if sorted@.len() > 2 { sorted@.take(2) } else { sorted@ };
    let mut parts: Vec<String> = Vec::new();
    let mut i: usize = 0;
    while i < shown_len
        invariant
            i <= shown_len,
            shown_len == shown.len(),
            shown_len <= sorted@.len(),
            forall|j: int| 0 <= j < shown_len ==> shown[j] == sorted@[j],
            strings_view(parts@) == window_texts(shown.take(i as int), now as nat),
        decreases shown_len - i,
    {
        let ghost prev = parts@;
        let t = window_text_exec(&sorted[i], now);
        parts.push(t);
        assert(strings_view(parts@) =~= strings_view(prev).push(t@));
        assert(shown.take(i as int + 1) =~= shown.take(i as int).push(shown[i as int]));
        assert(window_texts(shown.take(i as int).push(shown[i as int]), now as nat) =~= window_texts(
            shown.take(i as int),
            now as nat,
        ).push(window_text(shown[i as int], now as nat)));
        i = i + 1;
    }
    assert(shown.take(i as int) =~= shown);
    if let Some(credits) = s.reset_credits {
        if credits > 0 {
            let mut t = owned("+");
            push_decimal(&mut t, credits as u64);
            parts.push(t);
        }
    }
    assert(strings_view(parts@) =~= rate_limit_parts(*s, now as nat));
    if parts.len() == 0 {
        None
    } else {
        Some(join_strings(&parts, "  "))
    }
}

pub open spec fn tool_part(t: ToolCount) -> Seq<char> {
    without_controls(t.name@) + " ×"@ + decimal(t.count as nat)
}

/// `tools: exec ×3 · patch ×2`, at most three tools.
pub open spec fn tools_text_spec(s: StatusSnapshot) -> Option<Seq<char>> {
    let tools = s.tools@;
    if tools.len() == 0 {
        None
    } else {
        let shown = if tools.len() > 3 { tools.take(3) } else { tools };
        Some("tools: "@ + join(shown.map_values(|t: ToolCount| tool_part(t)), " · "@))
    }
}

pub fn tools_text(s: &StatusSnapshot) -> (r: Option<String>)
    ensures
        opt_view(r) == tools_text_spec(*s),
{
    if s.tools.len() == 0 {
        return None;
    }
    let shown_len = if s.tools.len() > 3 { 3 } else { s.tools.len() };
    let ghost shown = if s.tools@.len() > 3 { s.tools@.take(3) } else { s.tools@ };
    let ghost wanted = shown.map_values(|t: ToolCount| tool_part(t));
    let mut parts: Vec<String> = Vec::new();
    let mut i: usize = 0;
    while i < shown_len
        invariant
            i <= shown_len,
            shown_len == shown.len(),
            shown_len <= s.tools@.len(),
            forall|j: int| 0 <= j < shown_len ==> shown[j] == s.tools@[j],
            wanted == shown.map_values(|t: ToolCount| tool_part(t)),
            strings_view(parts@) == wanted.take(i as int),
        decreases shown_len - i,
    {
        let tool = &s.tools[i];
        let mut t = sanitize(tool.name.as_str());
        push_str(&mut t, " ×");
        push_decimal(&mut t, tool.count as u64);
        let ghost prev = parts@;
        parts.push(t);
        assert(strings_view(parts@) =~= strings_view(prev).push(t@));
        assert(wanted.take(i as int + 1) =~= wanted.take(i as int).push(wanted[i as int]));
        i = i + 1;
    }
    assert(wanted.take(i as int) =~= wanted);
    let mut out = owned("tools: ");
    push_str(&mut out, join_strings(&parts, " · ").as_str());
    Some(out)
}

/// Seconds since `started`, zero when the clock reads earlier.
pub open spec fn age(started: u64, now: nat) -> nat {
    if now > started { (now - started) as nat } else { 0 }
}

pub open spec fn agent_part(a: AgentActivity, now: nat) -> Seq<char> {
    without_controls(a.kind@) + " "@ + duration_text(age(a.started, now))
}

/// `agents: explore 12s · worker 4s`, at most two; without agent details,
/// `agents 2/3` when the total is known and not zero.
pub open spec fn agents_text_spec(s: StatusSnapshot, now: nat) -> Option<Seq<char>> {
    let agents = s.agents@;
    if agents.len() > 0 {
        let shown = if agents.len() > 2 { agents.take(2) } else { agents };
        Some("agents: "@ + join(shown.map_values(|a: AgentActivity| agent_part(a, now)), " · "@))
    } else {
        agent_count_text_spec(s)
    }
}

pub open spec fn agent_count_text_spec(s: StatusSnapshot) -> Option<Seq<char>> {
    match (s.agents_active, s.agents_total) {
        (Some(a), Some(t)) if t > 0 => Some("agents "@ + decimal(a as nat) + "/"@ + decimal(t as nat)),
        _ => None,
    }
}

pub fn agent_count_text(s: &StatusSnapshot) -> (r: Option<String>)
    ensures
        opt_view(r) == agent_count_text_spec(*s),
{
    match (s.agents_active, s.agents_total) {
        (Some(a), Some(t)) => {
            if t > 0 {
                let mut out = owned("agents ");
                push_decimal(&mut out, a as u64);
                push_str(&mut out, "/");
                push_decimal(&mut out, t as u64);
                Some(out)
            } else {
                None
            }
        },
        _ => None,
    }
}

pub fn agents_text(s: &StatusSnapshot, now: u64) -> (r: Option<String>)
    ensures
        opt_view(r) == agents_text_spec(*s, now as nat),
{
    if s.agents.len() == 0 {
        return agent_count_text(s);
    }
    let shown_len = if s.agents.len() > 2 { 2 } else { s.agents.len() };
    let ghost shown = if s.agents@.len() > 2 { s.agents@.take(2) } else { s.agents@ };
    let ghost wanted = shown.map_values(|a: AgentActivity| agent_part(a, now as nat));
    let mut parts: Vec<String> = Vec::new();
    let mut i: usize = 0;
    while i < shown_len
        invariant
            i <= shown_len,
            shown_len == shown.len(),
            shown_len <= s.agents@.len(),
            forall|j: int| 0 <= j < shown_len ==> shown[j] == s.agents@[j],
            wanted == shown.map_values(|a: AgentActivity| agent_part(a, now as nat)),
            strings_view(parts@) == wanted.take(i as int),
        decreases shown_len - i,
    {
        let agent = &s.agents[i];
        let mut t = sanitize(agent.kind.as_str());
        push_str(&mut t, " ");
        push_str(&mut t, compact_duration(now.saturating_sub(agent.started)).as_str());
        let ghost prev = parts@;
        parts.push(t);
        assert(strings_view(parts@) =~= strings_view(prev).push(t@));
        assert(wanted.take(i as int + 1) =~= wanted.take(i as int).push(wanted[i as int]));
        i = i + 1;
    }
    assert(wanted.take(i as int) =~= wanted);
    let mut out = owned("agents: ");
    push_str(&mut out, join_strings(&parts, " · ").as_str());
    Some(out)
}

pub open spec fn positive_part(prefix: Seq<char>, value: Option<u16>) -> Seq<char> {
    match value {
        Some(n) if n > 0 => " "@ + prefix + decimal(n as nat),
        _ => Seq::empty(),
    }
}

/// `git:(main*) S1 M3 ↑2 ↓1`; zero counts are omitted.
pub open spec fn git_text_spec(branch: Seq<char>, s: StatusSnapshot) -> Seq<char> {
    "git:("@ + without_controls(branch) + (if s.git_dirty == Some(true) { "*"@ } else { Seq::empty() })
        + ")"@ + positive_part("S"@, s.git_staged) + positive_part("M"@, s.git_modified)
        + positive_part("↑"@, s.git_ahead) + positive_part("↓"@, s.git_behind)
}

fn push_positive(out: &mut String, prefix: &str, value: Option<u16>)
    ensures
        final(out)@ == old(out)@ + positive_part(prefix@, value),
{
    if let Some(n) = value {
        if n > 0 {
            push_str(out, " ");
            push_str(out, prefix);
            push_decimal(out, n as u64);
        }
    }
    assert(final(out)@ =~= old(out)@ + positive_part(prefix@, value));
}

pub fn git_text(branch: &str, s: &StatusSnapshot) -> (r: String)
    ensures
        r@ == git_text_spec(branch@, *s),
{
    let mut out = owned("git:(");
    push_str(&mut out, sanitize(branch).as_str());
    if s.git_dirty == Some(true) {
        push_str(&mut out, "*");
    }
    push_str(&mut out, ")");
    push_positive(&mut out, "S", s.git_staged);
    push_positive(&mut out, "M", s.git_modified);
    push_positive(&mut out, "↑", s.git_ahead);
    push_positive(&mut out, "↓", s.git_behind);
    assert(out@ =~= git_text_spec(branch@, *s));
    out
}

/// Source health: both sources, one of them, or local probes only.
pub open spec fn status_text_spec(s: StatusSnapshot) -> Seq<char> {
    if s.events_active && s.app_server_active {
        "H+A ✓"@
    } else if s.app_server_active {
        "APP ✓"@
    } else if s.events_active {
        "HOOK ✓"@
    } else {
        "LOCAL"@
    }
}

pub fn status_text(s: &StatusSnapshot) -> (r: String)
    ensures
        r@ == status_text_spec(*s),
{
    if s.events_active && s.app_server_active {
        owned("H+A ✓")
    } else if s.app_server_active {
        owned("APP ✓")
    } else if s.events_active {
        owned("HOOK ✓")
    } else {
        owned("LOCAL")
    }
}

pub open spec fn opt_part(o: Option<String>) -> Seq<Seq<char>> {
    match o {
        Some(t) => seq![without_controls(t@)],
        None => Seq::empty(),
    }
}

/// The safety module: permission mode, sandbox and approval policy, each
/// when known, separated by ` · `.
pub open spec fn safety_text_spec(s: StatusSnapshot) -> Option<Seq<char>> {
    let parts = opt_part(s.permission_mode) + opt_part(s.sandbox) + opt_part(s.approval_policy);
    if parts.len() == 0 { None } else { Some(join(parts, " · "@)) }
}

fn push_opt_part(parts: &mut Vec<String>, o: &Option<String>)
    ensures
        strings_view(final(parts)@) == strings_view(old(parts)@) + opt_part(*o),
{
    if let Some(t) = o {
        parts.push(sanitize(t.as_str()));
    }
    assert(strings_view(final(parts)@) =~= strings_view(old(parts)@) + opt_part(*o));
}

pub fn safety_text(s: &StatusSnapshot) -> (r: Option<String>)
    ensures
        opt_view(r) == safety_text_spec(*s),
{
    let mut parts: Vec<String> = Vec::new();
    push_opt_part(&mut parts, &s.permission_mode);
    push_opt_part(&mut parts, &s.sandbox);
    push_opt_part(&mut parts, &s.approval_policy);
    assert(strings_view(parts@) =~= opt_part(s.permission_mode) + opt_part(s.sandbox) + opt_part(s.approval_policy));
    if parts.len() == 0 {
        None
    } else {
        Some(join_strings(&parts, " · "))
    }
}

/// The first rate-limit window (in length order) that `pick` accepts.
pub open spec fn first_window(ws: Seq<RateLimitWindow>, weekly: bool) -> Option<RateLimitWindow>
    decreases ws.len(),
{
    if ws.len() == 0 {
        None
    } else if is_window_of(ws[0], weekly) {
        Some(ws[0])
    } else {
        first_window(ws.drop_first(), weekly)
    }
}

/// A five-hour window is at most 360 minutes long; a weekly one at least 10080.
pub open spec fn is_window_of(w: RateLimitWindow, weekly: bool) -> bool {
    match w.window_minutes {
        Some(m) => if weekly { m >= 10_080 } else { m <= 360 },
        None => false,
    }
}

fn find_window(ws: &Vec<RateLimitWindow>, weekly: bool) -> (r: Option<RateLimitWindow>)
    ensures
        r == first_window(ws@, weekly),
{
    let mut i: usize = 0;
    assert(ws@.skip(0) =~= ws@);
    while i < ws.len()
        invariant
            i <= ws.len(),
            first_window(ws@, weekly) == first_window(ws@.skip(i as int), weekly),
        decreases ws.len() - i,
    {
        let w = ws[i];
        let hit = match w.window_minutes {
            Some(m) => if weekly { m >= 10_080 } else { m <= 360 },
            None => false,
        };
        assert(ws@.skip(i as int)[0] == w);
        if hit {
            return Some(w);
        }
        assert(ws@.skip(i as int).drop_first() =~= ws@.skip(i as int + 1));
        i = i + 1;
    }
    None
}

pub open spec fn health_text(name: Seq<char>, active: bool) -> Seq<char> {
    name + (if active { " ✓"@ } else { " off"@ })
}

pub open spec fn labelled(prefix: Seq<char>, o: Option<String>) -> Option<Seq<char>> {
    match o {
        Some(t) => Some(prefix + without_controls(t@)),
        None => None,
    }
}

/// The text of one module, `None` when its data is unknown (unknown data is
/// hidden rather than shown as zero). `spinner` is the activity glyph, `cwd`
/// the workspace path, `elapsed` the session time and `now` the Unix time.
pub open spec fn segment_text_spec(
    segment: Segment,
    spinner: Seq<char>,
    cwd: Seq<char>,
    elapsed: nat,
    now: nat,
    s: StatusSnapshot,
) -> Option<Seq<char>> {
    match segment {
        Segment::App => Some(spinner + " Codex"@),
        Segment::Model => match s.model {
            Some(m) => Some(match s.reasoning {
                Some(r) => m@ + " "@ + r@,
                None => m@,
            }),
            None => None,
        },
        Segment::Reasoning => labelled(Seq::empty(), s.reasoning),
        Segment::Work => opt_view(s.work),
        Segment::Context => context_text_spec(s),
        Segment::ContextRemaining => match context_percent_of(s) {
            Some(p) => Some(decimal(if p >= 100 { 0 } else { (100 - p) as nat }) + "% left"@),
            None => None,
        },
        Segment::ContextUsed => match context_percent_of(s) {
            Some(p) => Some(decimal(p) + "% used"@),
            None => None,
        },
        Segment::ContextWindow => match s.context_window {
            Some(w) => Some("window "@ + compact_number_text(w as nat)),
            None => None,
        },
        Segment::Tokens => token_text_spec(s),
        Segment::InputTokens => match s.input_tokens {
            Some(v) => Some("in "@ + compact_number_text(v as nat)),
            None => None,
        },
        Segment::CachedTokens => match s.cached_input_tokens {
            Some(v) => Some("cache "@ + compact_number_text(v as nat)),
            None => None,
        },
        Segment::OutputTokens => match s.output_tokens {
            Some(v) => Some("out "@ + compact_number_text(v as nat)),
            None => None,
        },
        Segment::RateLimits => rate_limits_text_spec(s, now),
        Segment::FiveHourLimit => match first_window(sorted_windows(s.rate_limits@), false) {
            Some(w) => Some(window_text(w, now)),
            None => None,
        },
        Segment::WeeklyLimit => match first_window(sorted_windows(s.rate_limits@), true) {
            Some(w) => Some(window_text(w, now)),
            None => None,
        },
        Segment::ResetCredits => match s.reset_credits {
            Some(c) if c > 0 => Some("+"@ + decimal(c as nat)),
            _ => None,
        },
        Segment::Git => match s.git_branch {
            Some(b) => Some(git_text_spec(b@, s)),
            None => None,
        },
        Segment::GitDirty => match s.git_dirty {
            Some(true) => Some("dirty"@),
            Some(false) => Some("clean"@),
            None => None,
        },
        Segment::GitStaged => match s.git_staged {
            Some(n) => Some("S"@ + decimal(n as nat)),
            None => None,
        },
        Segment::GitModified => match s.git_modified {
            Some(n) => Some("M"@ + decimal(n as nat)),
            None => None,
        },
        Segment::GitSync => match (s.git_ahead, s.git_behind) {
            (Some(a), Some(b)) => Some("↑"@ + decimal(a as nat) + " ↓"@ + decimal(b as nat)),
            _ => None,
        },
        Segment::Worktree => match s.worktree {
            Some(w) => Some("WT "@ + without_controls(w@) + (if s.linked_worktree == Some(true) {
                " ↗"@
            } else {
                Seq::empty()
            })),
            None => None,
        },
        Segment::Tools => tools_text_spec(s),
        Segment::Agents => agents_text_spec(s, now),
        Segment::AgentCount => agent_count_text_spec(s),
        Segment::Plan => match (s.plan_completed, s.plan_total) {
            (Some(c), Some(t)) => Some(decimal(c as nat) + "/"@ + decimal(t as nat) + " plan"@),
            _ => None,
        },
        Segment::Compactions => match s.compactions {
            Some(c) if c > 0 => Some("compact ×"@ + decimal(c as nat)),
            _ => None,
        },
        Segment::Safety => safety_text_spec(s),
        Segment::Elapsed => Some(decimal(elapsed).push('s')),
        Segment::Cwd => Some("DIR "@ + cwd),
        Segment::ProjectRoot => labelled("ROOT "@, s.project_root),
        Segment::SessionId => labelled("THR "@, s.session_id),
        Segment::Status => Some(status_text_spec(s)),
        Segment::HooksHealth => Some(health_text("HOOK"@, s.events_active)),
        Segment::AppServerHealth => Some(health_text("APP"@, s.app_server_active)),
    }
}

fn labelled_exec(prefix: &str, o: &Option<String>) -> (r: Option<String>)
    ensures
        opt_view(r) == labelled(prefix@, *o),
{
    match o {
        Some(t) => {
            let mut out = owned(prefix);
            push_str(&mut out, sanitize(t.as_str()).as_str());
            Some(out)
        },
        None => None,
    }
}

fn prefixed_number(prefix: &str, value: Option<u64>) -> (r: Option<String>)
    ensures
        opt_view(r) == (match value {
            Some(v) => Some(prefix@ + compact_number_text(v as nat)),
            None => None::<Seq<char>>,
        }),
{
    match value {
        Some(v) => {
            let mut out = owned(prefix);
            push_str(&mut out, compact_number(v).as_str());
            Some(out)
        },
        None => None,
    }
}

fn prefixed_decimal(prefix: &str, value: Option<u16>) -> (r: Option<String>)
    ensures
        opt_view(r) == (match value {
            Some(v) => Some(prefix@ + decimal(v as nat)),
            None => None::<Seq<char>>,
        }),
{
    match value {
        Some(v) => {
            let mut out = owned(prefix);
            push_decimal(&mut out, v as u64);
            Some(out)
        },
        None => None,
    }
}

fn health_exec(name: &str, active: bool) -> (r: String)
    ensures
        r@ == health_text(name@, active),
{
    let mut out = owned(name);
    if active {
        push_str(&mut out, " ✓");
    } else {
        push_str(&mut out, " off");
    }
    out
}

fn copy_opt(o: &Option<String>) -> (r: Option<String>)
    ensures
        opt_view(r) == opt_view(*o),
{
    match o {
        Some(t) => Some(t.clone()),
        None => None,
    }
}

pub fn segment_text(
    segment: Segment,
    spinner: &str,
    cwd: &str,
    elapsed: u64,
    now: u64,
    s: &StatusSnapshot,
) -> (r: Option<String>)
    ensures
        opt_view(r) == segment_text_spec(segment, spinner@, cwd@, elapsed as nat, now as nat, *s),
{
    match segment {
        Segment::App => {
            let mut out = owned(spinner);
            push_str(&mut out, " Codex");
            Some(out)
        },
        Segment::Model => match &s.model {
            Some(m) => {
                let mut out = m.clone();
                if let Some(r) = &s.reasoning {
                    push_str(&mut out, " ");
                    push_str(&mut out, r.as_str());
                }
                Some(out)
            },
            None => None,
        },
        Segment::Reasoning => {
            proof {
                reveal_strlit("");
            }
            labelled_exec("", &s.reasoning)
        },
        Segment::Work => copy_opt(&s.work),
        Segment::Context => context_text(s),
        Segment::ContextRemaining => match context_percent(s) {
            Some(p) => {
                let mut out = String::new();
                push_decimal(&mut out, if p >= 100 { 0 } else { (100 - p) as u64 });
                push_str(&mut out, "% left");
                Some(out)
            },
            None => None,
        },
        Segment::ContextUsed => match context_percent(s) {
            Some(p) => {
                let mut out = String::new();
                push_decimal(&mut out, p as u64);
                push_str(&mut out, "% used");
                Some(out)
            },
            None => None,
        },
        Segment::ContextWindow => prefixed_number("window ", s.context_window),
        Segment::Tokens => token_text(s),
        Segment::InputTokens => prefixed_number("in ", s.input_tokens),
        Segment::CachedTokens => prefixed_number("cache ", s.cached_input_tokens),
        Segment::OutputTokens => prefixed_number("out ", s.output_tokens),
        Segment::RateLimits => rate_limits_text(s, now),
        Segment::FiveHourLimit => match find_window(&sort_windows(&s.rate_limits), false) {
            Some(w) => Some(window_text_exec(&w, now)),
            None => None,
        },
        Segment::WeeklyLimit => match find_window(&sort_windows(&s.rate_limits), true) {
            Some(w) => Some(window_text_exec(&w, now)),
            None => None,
        },
        Segment::ResetCredits => match s.reset_credits {
            Some(c) => if c > 0 {
                prefixed_decimal("+", Some(c))
            } else {
                None
            },
            None => None,
        },
        Segment::Git => match &s.git_branch {
            Some(b) => Some(git_text(b.as_str(), s)),
            None => None,
        },
        Segment::GitDirty => match s.git_dirty {
            Some(true) => Some(owned("dirty")),
            Some(false) => Some(owned("clean")),
            None => None,
        },
        Segment::GitStaged => prefixed_decimal("S", s.git_staged),
        Segment::GitModified => prefixed_decimal("M", s.git_modified),
        Segment::GitSync => match (s.git_ahead, s.git_behind) {
            (Some(a), Some(b)) => {
                let mut out = owned("↑");
                push_decimal(&mut out, a as u64);
                push_str(&mut out, " ↓");
                push_decimal(&mut out, b as u64);
                Some(out)
            },
            _ => None,
        },
        Segment::Worktree => match &s.worktree {
            Some(w) => {
                let mut out = owned("WT ");
                push_str(&mut out, sanitize(w.as_str()).as_str());
                if s.linked_worktree == Some(true) {
                    push_str(&mut out, " ↗");
                }
                assert(out@ =~= "WT "@ + without_controls(w@) + (if s.linked_worktree == Some(true) {
                    " ↗"@
                } else {
                    Seq::empty()
                }));
                Some(out)
            },
            None => None,
        },
        Segment::Tools => tools_text(s),
        Segment::Agents => agents_text(s, now),
        Segment::AgentCount => agent_count_text(s),
        Segment::Plan => match (s.plan_completed, s.plan_total) {
            (Some(c), Some(t)) => {
                let mut out = String::new();
                push_decimal(&mut out, c as u64);
                push_str(&mut out, "/");
                push_decimal(&mut out, t as u64);
                push_str(&mut out, " plan");
                Some(out)
            },
            _ => None,
        },
        Segment::Compactions => match s.compactions {
            Some(c) => if c > 0 {
                prefixed_decimal("compact ×", Some(c))
            } else {
                None
            },
            None => None,
        },
        Segment::Safety => safety_text(s),
        Segment::Elapsed => {
            let mut out = String::new();
            push_decimal(&mut out, elapsed);
            push_char(&mut out, 's');
            Some(out)
        },
        Segment::Cwd => {
            let mut out = owned("DIR ");
            push_str(&mut out, cwd);
            Some(out)
        },
        Segment::ProjectRoot => labelled_exec("ROOT ", &s.project_root),
        Segment::SessionId => labelled_exec("THR ", &s.session_id),
        Segment::Status => Some(status_text(s)),
        Segment::HooksHealth => Some(health_exec("HOOK", s.events_active)),
        Segment::AppServerHealth => Some(health_exec("APP", s.app_server_active)),
    }
}

/// Unknown data is hidden rather than rendered as a misleading zero: with
/// nothing known, only the modules that need no data (the app mark, elapsed
/// time, the directory and the source health indicators) have text.
pub proof fn lemma_unknown_data_is_hidden(segment: Segment, spinner: Seq<char>, cwd: Seq<char>, elapsed: nat, now: nat, s: StatusSnapshot)
    requires
        crate::state::is_blank(s),
    ensures
        segment_text_spec(segment, spinner, cwd, elapsed, now, s) is Some <==> (segment == Segment::App || segment == Segment::Elapsed
            || segment == Segment::Cwd || segment == Segment::Status || segment == Segment::HooksHealth
            || segment == Segment::AppServerHealth),
{
    assert(token_parts(s) =~= Seq::<Seq<char>>::empty());
    assert(sorted_windows(s.rate_limits@) =~= Seq::<RateLimitWindow>::empty()) by {
        assert(s.rate_limits@ =~= Seq::<RateLimitWindow>::empty());
    }
    assert(rate_limit_parts(s, now) =~= Seq::<Seq<char>>::empty());
    assert(opt_part(s.permission_mode) + opt_part(s.sandbox) + opt_part(s.approval_policy) =~= Seq::<Seq<char>>::empty());
}

/// The git module marks commits ahead of the upstream with `↑` and commits
/// behind it with `↓`: with `a > 0` commits ahead the text holds ` ↑a`, with
/// `b > 0` behind it ends in ` ↓b`, and with nothing behind it ends in ` ↑a`.
/// A clean branch with no staged or modified files that is only ahead reads
/// exactly `git:(BRANCH) ↑a`.
pub proof fn lemma_git_marks_ahead_and_behind(spinner: Seq<char>, cwd: Seq<char>, elapsed: nat, now: nat, s: StatusSnapshot, a: u16, b: u16)
    requires
        s.git_branch is Some,
    ensures
        segment_text_spec(Segment::Git, spinner, cwd, elapsed, now, s) is Some,
        s.git_ahead == Some(a) && a > 0 ==> exists|p: Seq<char>, q: Seq<char>|
            segment_text_spec(Segment::Git, spinner, cwd, elapsed, now, s).unwrap() == p + " ↑"@ + decimal(a as nat) + q,
        s.git_behind == Some(b) && b > 0 ==> exists|p: Seq<char>|
            segment_text_spec(Segment::Git, spinner, cwd, elapsed, now, s).unwrap() == p + " ↓"@ + decimal(b as nat),
        s.git_ahead == Some(a) && a > 0 && (s.git_behind is None || s.git_behind == Some(0u16)) ==> exists|p: Seq<char>|
            segment_text_spec(Segment::Git, spinner, cwd, elapsed, now, s).unwrap() == p + " ↑"@ + decimal(a as nat),
        s.git_ahead == Some(a) && a > 0 && (s.git_behind is None || s.git_behind == Some(0u16))
            && s.git_dirty != Some(true) && (s.git_staged is None || s.git_staged == Some(0u16))
            && (s.git_modified is None || s.git_modified == Some(0u16))
            ==> segment_text_spec(Segment::Git, spinner, cwd, elapsed, now, s).unwrap()
                == "git:("@ + without_controls(s.git_branch.unwrap()@) + ") ↑"@ + decimal(a as nat),
{
    reveal_strlit(" ");
    reveal_strlit("↑");
    reveal_strlit("↓");
    reveal_strlit(" ↑");
    reveal_strlit(" ↓");
    reveal_strlit(")");
    reveal_strlit(") ↑");
    let branch = s.git_branch.unwrap()@;
    let t = git_text_spec(branch, s);
    let head = "git:("@ + without_controls(branch) + (if s.git_dirty == Some(true) { "*"@ } else { Seq::empty() })
        + ")"@ + positive_part("S"@, s.git_staged) + positive_part("M"@, s.git_modified);
    let up = positive_part("↑"@, s.git_ahead);
    let down = positive_part("↓"@, s.git_behind);
    assert(t == head + up + down);
    if s.git_ahead == Some(a) && a > 0 {
        assert(up == " ↑"@ + decimal(a as nat));
        assert(t == head + " ↑"@ + decimal(a as nat) + down);
        if s.git_behind is None || s.git_behind == Some(0u16) {
            assert(down == Seq::<char>::empty());
            assert(t =~= head + " ↑"@ + decimal(a as nat));
            if s.git_dirty != Some(true) && (s.git_staged is None || s.git_staged == Some(0u16))
                && (s.git_modified is None || s.git_modified == Some(0u16)) {
                assert(head =~= "git:("@ + without_controls(branch) + ")"@);
                assert(t =~= "git:("@ + without_controls(branch) + ") ↑"@ + decimal(a as nat));
            }
        }
    }
    if s.git_behind == Some(b) && b > 0 {
        assert(down == " ↓"@ + decimal(b as nat));
        assert(t =~= (head + up) + " ↓"@ + decimal(b as nat));
    }
}

} // verus!
