//! The Agent Inspector: a read-only panel below the HUD that lists live
//! subagents and, after `Ctrl+G`, takes the arrow keys, `Enter` and `Esc`.

use crate::config::Segment;
use crate::layout::{cells_view, Cell};
use crate::rows::{panel_layout, panel_text};
use crate::segments::{age, compact_duration, duration_text};
use crate::state::{AgentActivity, StatusSnapshot};
use crate::text::{decimal, owned, push_decimal, push_str, sanitize, without_controls};
use vstd::prelude::*;

verus! {

#[derive(Debug, Clone, Copy, PartialEq, Eq, Structural)]
pub enum AgentPanelMode {
    /// Shown but not focused: input goes to Codex.
    Passive,
    /// Focused: the arrows move the selection.
    List,
    /// Focused on one agent's goal and latest message.
    Detail,
}

/// The inspector's focus and selected agent.
#[derive(Debug, Clone, Copy, PartialEq, Eq, Structural)]
pub struct AgentPanelState {
    pub mode: AgentPanelMode,
    pub selected: usize,
}

pub open spec fn is_byte(input: Seq<u8>, b: u8) -> bool {
    input.len() == 1 && input[0] == b
}

pub open spec fn is_bytes3(input: Seq<u8>, a: u8, b: u8, c: u8) -> bool {
    input.len() == 3 && input[0] == a && input[1] == b && input[2] == c
}

/// Arrow up: `ESC [ A` or `ESC O A`.
pub open spec fn is_up(input: Seq<u8>) -> bool {
    is_bytes3(input, 0x1b, 0x5b, 0x41) || is_bytes3(input, 0x1b, 0x4f, 0x41)
}

/// Arrow down: `ESC [ B` or `ESC O B`.
pub open spec fn is_down(input: Seq<u8>) -> bool {
    is_bytes3(input, 0x1b, 0x5b, 0x42) || is_bytes3(input, 0x1b, 0x4f, 0x42)
}

/// The state after one input and whether the inspector consumed it (a
/// consumed input must not reach Codex). `Ctrl+G` (0x07) opens the list when
/// agents exist; once focused, every input is consumed.
pub open spec fn after_input(s: AgentPanelState, input: Seq<u8>, agent_count: nat) -> (AgentPanelState, bool) {
    let last: nat = if agent_count == 0 { 0 } else { (agent_count - 1) as nat };
    if s.mode == AgentPanelMode::Passive {
        if is_byte(input, 0x07) && agent_count > 0 {
            (AgentPanelState { mode: AgentPanelMode::List, selected: if s.selected > last { last as usize } else { s.selected } }, true)
        } else {
            (s, false)
        }
    } else if is_byte(input, 0x1b) {
        (AgentPanelState {
            mode: if s.mode == AgentPanelMode::Detail { AgentPanelMode::List } else { AgentPanelMode::Passive },
            ..s
        }, true)
    } else if is_up(input) {
        (AgentPanelState { selected: if s.selected == 0 { 0 } else { (s.selected - 1) as usize }, ..s }, true)
    } else if is_down(input) {
        let next: nat = (s.selected + 1) as nat;
        (AgentPanelState { selected: (if next > last { last } else { next }) as usize, ..s }, true)
    } else if (is_byte(input, 0x0d) || is_byte(input, 0x0a)) && agent_count > 0 {
        (AgentPanelState { mode: AgentPanelMode::Detail, ..s }, true)
    } else if is_byte(input, 0x07) {
        (AgentPanelState { mode: AgentPanelMode::Passive, ..s }, true)
    } else {
        (s, true)
    }
}

fn byte_is(input: &[u8], b: u8) -> (r: bool)
    ensures
        r == is_byte(input@, b),
{
    input.len() == 1 && input[0] == b
}

fn bytes3_is(input: &[u8], a: u8, b: u8, c: u8) -> (r: bool)
    ensures
        r == is_bytes3(input@, a, b, c),
{
    input.len() == 3 && input[0] == a && input[1] == b && input[2] == c
}

impl AgentPanelState {
    pub fn passive() -> (r: Self)
        ensures
            r.mode == AgentPanelMode::Passive,
            r.selected == 0,
    {
        AgentPanelState { mode: AgentPanelMode::Passive, selected: 0 }
    }

    pub fn mode(&self) -> (r: AgentPanelMode)
        ensures
            r == self.mode,
    {
        self.mode
    }

    pub fn selected(&self) -> (r: usize)
        ensures
            r == self.selected,
    {
        self.selected
    }

    pub open spec fn default_spec() -> AgentPanelState {
        AgentPanelState { mode: AgentPanelMode::Passive, selected: 0 }
    }

    pub open spec fn mode_view(self) -> AgentPanelMode {
        self.mode
    }

    pub open spec fn selected_view(self) -> usize {
        self.selected
    }

    /// Returns true when the input belongs to the inspector and must not reach Codex.
    pub fn handle_input(&mut self, input: &[u8], agent_count: usize) -> (r: bool)
        ensures
            (*final(self), r) == after_input(*old(self), input@, agent_count as nat),
    {
        let last: usize = if agent_count == 0 { 0 } else { agent_count - 1 };
        if self.mode == AgentPanelMode::Passive {
            if byte_is(input, 0x07) && agent_count > 0 {
                self.mode = AgentPanelMode::List;
                if self.selected > last {
                    self.selected = last;
                }
                return true;
            }
            return false;
        }
        if byte_is(input, 0x1b) {
            self.mode = if self.mode == AgentPanelMode::Detail { AgentPanelMode::List } else { AgentPanelMode::Passive };
        } else if bytes3_is(input, 0x1b, 0x5b, 0x41) || bytes3_is(input, 0x1b, 0x4f, 0x41) {
            self.selected = if self.selected == 0 { 0 } else { self.selected - 1 };
        } else if bytes3_is(input, 0x1b, 0x5b, 0x42) || bytes3_is(input, 0x1b, 0x4f, 0x42) {
            self.selected = if self.selected >= last { last } else { self.selected + 1 };
        } else if (byte_is(input, 0x0d) || byte_is(input, 0x0a)) && agent_count > 0 {
            self.mode = AgentPanelMode::Detail;
        } else if byte_is(input, 0x07) {
            self.mode = AgentPanelMode::Passive;
        }
        true
    }
}

impl Default for AgentPanelState {
    fn default() -> (r: Self)
        ensures
            r.mode == AgentPanelMode::Passive,
            r.selected == 0,
    {
        AgentPanelState::passive()
    }
}

/// The inspector never lets input through while it is focused, and opening it
/// never selects past the last agent.
pub proof fn lemma_focused_inspector_captures_input(s: AgentPanelState, input: Seq<u8>, agent_count: nat)
    requires
        s.mode != AgentPanelMode::Passive,
    ensures
        after_input(s, input, agent_count).1,
{
}

/// After any input, a selection that was within the agents stays within them.
pub proof fn lemma_selection_stays_in_range(s: AgentPanelState, input: Seq<u8>, agent_count: nat)
    requires
        agent_count > 0,
        s.mode != AgentPanelMode::Passive ==> s.selected < agent_count,
    ensures
        after_input(s, input, agent_count).0.mode != AgentPanelMode::Passive
            ==> after_input(s, input, agent_count).0.selected < agent_count,
{
}

/// Lexicographic order of texts by code point (the order of `str`).
pub open spec fn text_lt(a: Seq<char>, b: Seq<char>) -> bool
    decreases a.len(),
{
    if a.len() == 0 {
        b.len() > 0
    } else if b.len() == 0 {
        false
    } else if a[0] != b[0] {
        (a[0] as u32) < (b[0] as u32)
    } else {
        text_lt(a.drop_first(), b.drop_first())
    }
}

pub fn text_less(a: &str, b: &str) -> (r: bool)
    ensures
        r == text_lt(a@, b@),
{
    let n = a.unicode_len();
    let m = b.unicode_len();
    let mut i: usize = 0;
    assert(a@.skip(0) =~= a@);
    assert(b@.skip(0) =~= b@);
    while i < n && i < m
        invariant
            n == a@.len(),
            m == b@.len(),
            i <= n,
            i <= m,
            text_lt(a@, b@) == text_lt(a@.skip(i as int), b@.skip(i as int)),
        decreases n - i,
    {
        let x = a.get_char(i);
        let y = b.get_char(i);
        assert(a@.skip(i as int)[0] == x);
        assert(b@.skip(i as int)[0] == y);
        if x != y {
            return (x as u32) < (y as u32);
        }
        assert(a@.skip(i as int).drop_first() =~= a@.skip(i as int + 1));
        assert(b@.skip(i as int).drop_first() =~= b@.skip(i as int + 1));
        i = i + 1;
    }
    i == n && i < m
}

/// Whether `a` sorts before `b` in the inspector: active agents first, then by kind.
pub open spec fn agent_before(a: AgentActivity, b: AgentActivity) -> bool {
    (a.active && !b.active) || (a.active == b.active && text_lt(a.kind@, b.kind@))
}

/// Stable insertion: `x` goes after every element it does not sort before.
pub open spec fn insert_agent(sorted: Seq<AgentActivity>, x: AgentActivity) -> Seq<AgentActivity>
    decreases sorted.len(),
{
    if sorted.len() == 0 {
        seq![x]
    } else if !agent_before(x, sorted.last()) {
        sorted.push(x)
    } else {
        insert_agent(sorted.drop_last(), x).push(sorted.last())
    }
}

/// The agents stably sorted (what `sort_by` yields).
pub open spec fn sorted_agents(s: Seq<AgentActivity>) -> Seq<AgentActivity>
    decreases s.len(),
{
    if s.len() == 0 {
        s
    } else {
        insert_agent(sorted_agents(s.drop_last()), s.last())
    }
}

fn agent_goes_before(a: &AgentActivity, b: &AgentActivity) -> (r: bool)
    ensures
        r == agent_before(*a, *b),
{
    (a.active && !b.active) || (a.active == b.active && text_less(a.kind.as_str(), b.kind.as_str()))
}

fn insert_agent_exec(sorted: &mut Vec<AgentActivity>, x: AgentActivity)
    ensures
        final(sorted)@ == insert_agent(old(sorted)@, x),
    decreases old(sorted)@.len(),
{
    let n = sorted.len();
    if n == 0 {
        sorted.push(x);
        assert(final(sorted)@ =~= seq![x]);
    } else if !agent_goes_before(&x, &sorted[n - 1]) {
        sorted.push(x);
    } else {
        let last = sorted.pop().unwrap();
        assert(sorted@ =~= old(sorted)@.drop_last());
        insert_agent_exec(sorted, x);
        sorted.push(last);
    }
}

pub fn sort_agents(agents: &Vec<AgentActivity>) -> (r: Vec<AgentActivity>)
    ensures
        r@ == sorted_agents(agents@),
{
    let mut out: Vec<AgentActivity> = Vec::new();
    let mut i: usize = 0;
    while i < agents.len()
        invariant
            i <= agents.len(),
            out@ == sorted_agents(agents@.take(i as int)),
        decreases agents.len() - i,
    {
        assert(agents@.take(i as int + 1).drop_last() =~= agents@.take(i as int));
        insert_agent_exec(&mut out, agents[i].duplicate());
        i = i + 1;
    }
    assert(agents@.take(i as int) =~= agents@);
    out
}

pub open spec fn count_active(agents: Seq<AgentActivity>) -> nat
    decreases agents.len(),
{
    if agents.len() == 0 {
        0
    } else {
        count_active(agents.drop_last()) + (if agents.last().active { 1nat } else { 0nat })
    }
}

proof fn lemma_count_active_bound(agents: Seq<AgentActivity>)
    ensures
        count_active(agents) <= agents.len(),
    decreases agents.len(),
{
    if agents.len() > 0 {
        lemma_count_active_bound(agents.drop_last());
    }
}

fn active_count(agents: &Vec<AgentActivity>) -> (r: usize)
    ensures
        r == count_active(agents@),
{
    let mut r: usize = 0;
    let mut i: usize = 0;
    while i < agents.len()
        invariant
            i <= agents.len(),
            r == count_active(agents@.take(i as int)),
            r <= i,
        decreases agents.len() - i,
    {
        assert(agents@.take(i as int + 1).drop_last() =~= agents@.take(i as int));
        if agents[i].active {
            r = r + 1;
        }
        i = i + 1;
    }
    assert(agents@.take(i as int) =~= agents@);
    r
}

pub open spec fn state_mark(active: bool) -> Seq<char> {
    if active { "●"@ } else { "✓"@ }
}

/// The inspector header.
pub open spec fn panel_header(mode: AgentPanelMode, agents: Seq<AgentActivity>, selected: int, active: nat, total: nat, now: nat) -> Seq<char> {
    match mode {
        AgentPanelMode::Passive => "AGENTS "@ + decimal(active) + "/"@ + decimal(total) + " · Ctrl+G focus"@,
        AgentPanelMode::List => "AGENTS "@ + decimal(active) + "/"@ + decimal(total) + " · ↑↓ select · Enter view · Esc close"@,
        AgentPanelMode::Detail => state_mark(agents[selected].active) + " "@ + agents[selected].kind@ + " · "@
            + duration_text(age(agents[selected].started, now)) + " · Esc back"@,
    }
}

/// What a list row says about an agent: its latest message, else its goal.
pub open spec fn agent_detail(a: AgentActivity) -> Seq<char> {
    match a.message {
        Some(m) => m@,
        None => match a.prompt {
            Some(p) => p@,
            None => "working"@,
        },
    }
}

/// One list row: selection marker, state, kind, age and detail.
pub open spec fn list_row(a: AgentActivity, marked: bool, now: nat) -> Seq<char> {
    (if marked { "›"@ } else { " "@ }) + " "@ + state_mark(a.active) + " "@ + a.kind@ + " "@
        + duration_text(age(a.started, now)) + " · "@ + without_controls(agent_detail(a))
}

/// The list rows from `start`: at most three agents.
pub open spec fn list_rows(agents: Seq<AgentActivity>, start: int, count: int, mode: AgentPanelMode, selected: int, width: nat, now: nat) -> Seq<Seq<(Segment, Seq<char>)>>
    decreases count,
{
    if count <= 0 {
        Seq::empty()
    } else {
        list_rows(agents, start, count - 1, mode, selected, width, now).push(seq![(
            Segment::Agents,
            panel_text(list_row(agents[start + count - 1], mode == AgentPanelMode::List && start + count - 1 == selected, now), width),
        )])
    }
}

/// The inspector rows; none without agents.
pub open spec fn agent_panel_rows(width: nat, s: StatusSnapshot, panel: AgentPanelState, now: nat) -> Seq<Seq<(Segment, Seq<char>)>> {
    if s.agents@.len() == 0 {
        Seq::empty()
    } else {
        let agents = sorted_agents(s.agents@);
        let n = agents.len();
        let selected: int = if panel.selected >= n { n - 1 } else { panel.selected as int };
        let active = count_active(agents);
        let known: nat = match s.agents_total { Some(t) => t as nat, None => 0 };
        let total: nat = if known > n { known } else { n };
        let header = seq![seq![(Segment::Agents, panel_text(panel_header(panel.mode, agents, selected, active, total, now), width))]];
        match panel.mode {
            AgentPanelMode::Detail => header
                + seq![seq![(Segment::Agents, panel_text("Goal   "@ + match agents[selected].prompt {
                    Some(p) => p@,
                    None => "Waiting for agent goal"@,
                }, width))]]
                + seq![seq![(Segment::Tokens, panel_text("Latest "@ + match agents[selected].message {
                    Some(m) => m@,
                    None => "No activity message yet"@,
                }, width))]],
            _ => {
                let start: int = if panel.mode == AgentPanelMode::List { if selected >= 2 { selected - 2 } else { 0 } } else { 0 };
                let count: int = if n - start > 3 { 3 } else { n - start };
                header + list_rows(agents, start, count, panel.mode, selected, width, now)
            },
        }
    }
}

pub open spec fn layouts_view(v: Seq<Vec<Cell>>) -> Seq<Seq<(Segment, Seq<char>)>> {
    v.map_values(|l: Vec<Cell>| cells_view(l@))
}

fn opt_text(o: &Option<String>, fallback: &str) -> (r: String)
    ensures
        r@ == (match *o {
            Some(t) => t@,
            None => fallback@,
        }),
{
    match o {
        Some(t) => t.clone(),
        None => owned(fallback),
    }
}

fn mark(active: bool) -> (r: &'static str)
    ensures
        r@ == state_mark(active),
{
    if active { "●" } else { "✓" }
}

/// The Agent Inspector rows below the HUD.
pub fn agent_panel_layouts(width: u16, s: &StatusSnapshot, panel: AgentPanelState, now: u64) -> (r: Vec<Vec<Cell>>)
    ensures
        layouts_view(r@) == agent_panel_rows(width as nat, *s, panel, now as nat),
{
    let mut rows: Vec<Vec<Cell>> = Vec::new();
    if s.agents.len() == 0 {
        assert(layouts_view(rows@) =~= Seq::<Seq<(Segment, Seq<char>)>>::empty());
        return rows;
    }
    let agents = sort_agents(&s.agents);
    proof {
        lemma_sorted_agents_len(s.agents@);
    }
    let n = agents.len();
    let selected: usize = if panel.selected >= n { n - 1 } else { panel.selected };
    let active = active_count(&agents);
    let known: usize = match s.agents_total { Some(t) => t as usize, None => 0 };
    let total: usize = if known > n { known } else { n };
    let mut header = String::new();
    match panel.mode {
        AgentPanelMode::Passive => {
            push_str(&mut header, "AGENTS ");
            push_decimal(&mut header, active as u64);
            push_str(&mut header, "/");
            push_decimal(&mut header, total as u64);
            push_str(&mut header, " · Ctrl+G focus");
        },
        AgentPanelMode::List => {
            push_str(&mut header, "AGENTS ");
            push_decimal(&mut header, active as u64);
            push_str(&mut header, "/");
            push_decimal(&mut header, total as u64);
            push_str(&mut header, " · ↑↓ select · Enter view · Esc close");
        },
        AgentPanelMode::Detail => {
            let agent = &agents[selected];
            push_str(&mut header, mark(agent.active));
            push_str(&mut header, " ");
            push_str(&mut header, agent.kind.as_str());
            push_str(&mut header, " · ");
            push_str(&mut header, compact_duration(now.saturating_sub(agent.started)).as_str());
            push_str(&mut header, " · Esc back");
        },
    }
    let ghost sorted = agents@;
    let ghost sel = selected as int;
    assert(header@ =~= panel_header(panel.mode, sorted, sel, active as nat, total as nat, now as nat));
    rows.push(panel_layout(Segment::Agents, header.as_str(), width));
    let ghost head_rows = layouts_view(rows@);
    match panel.mode {
        AgentPanelMode::Detail => {
            let agent = &agents[selected];
            let mut goal = owned("Goal   ");
            push_str(&mut goal, opt_text(&agent.prompt, "Waiting for agent goal").as_str());
            rows.push(panel_layout(Segment::Agents, goal.as_str(), width));
            let mut latest = owned("Latest ");
            push_str(&mut latest, opt_text(&agent.message, "No activity message yet").as_str());
            rows.push(panel_layout(Segment::Tokens, latest.as_str(), width));
            assert(layouts_view(rows@) =~= agent_panel_rows(width as nat, *s, panel, now as nat));
        },
        _ => {
            let start: usize = if panel.mode == AgentPanelMode::List { if selected >= 2 { selected - 2 } else { 0 } } else { 0 };
            let count: usize = if n - start > 3 { 3 } else { n - start };
            let mut k: usize = 0;
            while k < count
                invariant
                    k <= count,
                    start + count <= n,
                    n == agents@.len(),
                    sorted == agents@,
                    selected < n,
                    layouts_view(rows@) == head_rows + list_rows(sorted, start as int, k as int, panel.mode, selected as int, width as nat, now as nat),
                decreases count - k,
            {
                let index = start + k;
                let agent = &agents[index];
                let marked = panel.mode == AgentPanelMode::List && index == selected;
                let mut line = owned(if marked { "›" } else { " " });
                push_str(&mut line, " ");
                push_str(&mut line, mark(agent.active));
                push_str(&mut line, " ");
                push_str(&mut line, agent.kind.as_str());
                push_str(&mut line, " ");
                push_str(&mut line, compact_duration(now.saturating_sub(agent.started)).as_str());
                push_str(&mut line, " · ");
                let detail = match &agent.message {
                    Some(m) => m.clone(),
                    None => opt_text(&agent.prompt, "working"),
                };
                push_str(&mut line, sanitize(detail.as_str()).as_str());
                assert(line@ =~= list_row(agent_view(sorted, index as int), marked, now as nat));
                let ghost prev = rows@;
                rows.push(panel_layout(Segment::Agents, line.as_str(), width));
                assert(layouts_view(rows@) =~= layouts_view(prev).push(seq![(Segment::Agents, panel_text(line@, width as nat))]));
                k = k + 1;
            }
            assert(layouts_view(rows@) =~= agent_panel_rows(width as nat, *s, panel, now as nat));
        },
    }
    rows
}

spec fn agent_view(agents: Seq<AgentActivity>, i: int) -> AgentActivity {
    agents[i]
}

proof fn lemma_insert_agent_len(sorted: Seq<AgentActivity>, x: AgentActivity)
    ensures
        insert_agent(sorted, x).len() == sorted.len() + 1,
    decreases sorted.len(),
{
    if sorted.len() > 0 && agent_before(x, sorted.last()) {
        lemma_insert_agent_len(sorted.drop_last(), x);
    }
}

proof fn lemma_sorted_agents_len(s: Seq<AgentActivity>)
    ensures
        sorted_agents(s).len() == s.len(),
    decreases s.len(),
{
    if s.len() > 0 {
        lemma_sorted_agents_len(s.drop_last());
        lemma_insert_agent_len(sorted_agents(s.drop_last()), s.last());
    }
}

proof fn lemma_list_rows(agents: Seq<AgentActivity>, start: int, count: int, mode: AgentPanelMode, selected: int, width: nat, now: nat)
    requires
        count >= 0,
    ensures
        list_rows(agents, start, count, mode, selected, width, now).len() == count,
        forall|m: int| 0 <= m < count ==> #[trigger] list_rows(agents, start, count, mode, selected, width, now)[m]
            == seq![(Segment::Agents, panel_text(list_row(agents[start + m], mode == AgentPanelMode::List && start + m == selected, now), width))],
    decreases count,
{
    if count > 0 {
        lemma_list_rows(agents, start, count - 1, mode, selected, width, now);
        let prev = list_rows(agents, start, count - 1, mode, selected, width, now);
        assert forall|m: int| 0 <= m < count implies #[trigger] list_rows(agents, start, count, mode, selected, width, now)[m]
            == seq![(Segment::Agents, panel_text(list_row(agents[start + m], mode == AgentPanelMode::List && start + m == selected, now), width))] by {
            if m < count - 1 {
                assert(list_rows(agents, start, count, mode, selected, width, now)[m] == prev[m]);
            }
        }
    }
}

/// The inspector's shape: nothing without agents; otherwise a header, then
/// up to three agent rows (closed or list view) or the goal and latest message
/// (detail view). Every row is one cell of text cut to the width. In the list
/// view the selected agent's row is among those shown and is the only one
/// marked as selected.
pub proof fn lemma_panel_shape(width: nat, s: StatusSnapshot, panel: AgentPanelState, now: nat)
    ensures
        s.agents@.len() == 0 ==> agent_panel_rows(width, s, panel, now).len() == 0,
        s.agents@.len() > 0 && panel.mode != AgentPanelMode::Detail ==> 2 <= agent_panel_rows(width, s, panel, now).len() <= 4,
        s.agents@.len() > 0 && panel.mode == AgentPanelMode::Detail ==> agent_panel_rows(width, s, panel, now).len() == 3,
        forall|i: int| 0 <= i < agent_panel_rows(width, s, panel, now).len() ==> {
            let row = #[trigger] agent_panel_rows(width, s, panel, now)[i];
            row.len() == 1 && exists|t: Seq<char>| row[0].1 == panel_text(t, width)
        },
        s.agents@.len() > 0 && panel.mode == AgentPanelMode::List ==> ({
            let agents = sorted_agents(s.agents@);
            let n = agents.len() as int;
            let sel: int = if panel.selected >= n { n - 1 } else { panel.selected as int };
            let start: int = if sel >= 2 { sel - 2 } else { 0 };
            let count: int = if n - start > 3 { 3 } else { n - start };
            &&& start <= sel < start + count
            &&& forall|m: int| 0 <= m < count ==> #[trigger] agent_panel_rows(width, s, panel, now)[1 + m]
                == seq![(Segment::Agents, panel_text(list_row(agents[start + m], start + m == sel, now), width))]
        }),
{
    let rows = agent_panel_rows(width, s, panel, now);
    if s.agents@.len() > 0 {
        lemma_sorted_agents_len(s.agents@);
        let agents = sorted_agents(s.agents@);
        let n = agents.len() as int;
        let sel: int = if panel.selected >= n { n - 1 } else { panel.selected as int };
        let active = count_active(agents);
        let known: nat = match s.agents_total { Some(t) => t as nat, None => 0 };
        let total: nat = if known > n { known } else { n as nat };
        let htext = panel_header(panel.mode, agents, sel, active, total, now);
        let header = seq![seq![(Segment::Agents, panel_text(htext, width))]];
        assert(header[0][0].1 == panel_text(htext, width));
        if panel.mode == AgentPanelMode::Detail {
            let goal = "Goal   "@ + match agents[sel].prompt { Some(p) => p@, None => "Waiting for agent goal"@ };
            let latest = "Latest "@ + match agents[sel].message { Some(m) => m@, None => "No activity message yet"@ };
            assert forall|i: int| 0 <= i < rows.len() implies {
                let row = #[trigger] rows[i];
                row.len() == 1 && exists|t: Seq<char>| row[0].1 == panel_text(t, width)
            } by {
                if i == 0 { assert(rows[i][0].1 == panel_text(htext, width)); }
                else if i == 1 { assert(rows[i][0].1 == panel_text(goal, width)); }
                else { assert(rows[i][0].1 == panel_text(latest, width)); }
            }
        } else {
            let start: int = if panel.mode == AgentPanelMode::List { if sel >= 2 { sel - 2 } else { 0 } } else { 0 };
            let count: int = if n - start > 3 { 3 } else { n - start };
            lemma_list_rows(agents, start, count, panel.mode, sel, width, now);
            let list = list_rows(agents, start, count, panel.mode, sel, width, now);
            assert(rows == header + list);
            assert forall|i: int| 0 <= i < rows.len() implies {
                let row = #[trigger] rows[i];
                row.len() == 1 && exists|t: Seq<char>| row[0].1 == panel_text(t, width)
            } by {
                if i == 0 {
                    assert(rows[i][0].1 == panel_text(htext, width));
                } else {
                    assert(rows[i] == list[i - 1]);
                    let t = list_row(agents[start + i - 1], panel.mode == AgentPanelMode::List && start + i - 1 == sel, now);
                    assert(rows[i][0].1 == panel_text(t, width));
                }
            }
            if panel.mode == AgentPanelMode::List {
                assert forall|m: int| 0 <= m < count implies #[trigger] rows[1 + m]
                    == seq![(Segment::Agents, panel_text(list_row(agents[start + m], start + m == sel, now), width))] by {
                    assert(rows[1 + m] == list[m]);
                }
            }
        }
    }
}

} // verus!
