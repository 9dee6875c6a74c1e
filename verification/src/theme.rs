//! ANSI styles of each theme. `inherit` and the named transparent palettes map
//! semantic colours through the terminal palette; `ox96f` uses fixed 24-bit
//! neon colours; only `codex-dark` and `codex-light` paint a background.

use crate::config::{Segment, Theme};
use vstd::prelude::*;

verus! {

/// The module whose colour a module shares.
pub open spec fn color_class(segment: Segment) -> Segment {
    match segment {
        Segment::Reasoning => Segment::Model,
        Segment::ContextRemaining | Segment::ContextUsed | Segment::ContextWindow => Segment::Context,
        Segment::InputTokens | Segment::CachedTokens | Segment::OutputTokens => Segment::Tokens,
        Segment::FiveHourLimit | Segment::WeeklyLimit | Segment::ResetCredits => Segment::RateLimits,
        Segment::GitDirty | Segment::GitStaged | Segment::GitModified | Segment::GitSync => Segment::Git,
        Segment::AgentCount => Segment::Agents,
        Segment::ProjectRoot => Segment::Cwd,
        Segment::SessionId => Segment::Elapsed,
        Segment::HooksHealth | Segment::AppServerHealth => Segment::Status,
        other => other,
    }
}

pub fn segment_color_class(segment: Segment) -> (r: Segment)
    ensures
        r == color_class(segment),
{
    match segment {
        Segment::Reasoning => Segment::Model,
        Segment::ContextRemaining | Segment::ContextUsed | Segment::ContextWindow => Segment::Context,
        Segment::InputTokens | Segment::CachedTokens | Segment::OutputTokens => Segment::Tokens,
        Segment::FiveHourLimit | Segment::WeeklyLimit | Segment::ResetCredits => Segment::RateLimits,
        Segment::GitDirty | Segment::GitStaged | Segment::GitModified | Segment::GitSync => Segment::Git,
        Segment::AgentCount => Segment::Agents,
        Segment::ProjectRoot => Segment::Cwd,
        Segment::SessionId => Segment::Elapsed,
        Segment::HooksHealth | Segment::AppServerHealth => Segment::Status,
        other => other,
    }
}

/// Whether a theme uses the terminal's own palette.
pub open spec fn is_palette_theme(theme: Theme) -> bool {
    match theme {
        Theme::Inherit | Theme::TokyoNight | Theme::CatppuccinMocha | Theme::Dracula | Theme::Nord
        | Theme::Gruvbox | Theme::RosePine | Theme::PastelSyntax => true,
        _ => false,
    }
}

/// The style that starts a row and follows each module.
pub open spec fn base_style(theme: Theme) -> Seq<char> {
    match theme {
        Theme::CodexDark => "\x1b[0m\x1b[48;2;17;20;22m\x1b[38;2;214;222;217m"@,
        Theme::CodexLight => "\x1b[0m\x1b[48;2;238;242;239m\x1b[38;2;35;42;38m"@,
        _ => "\x1b[0m"@,
    }
}

pub fn theme_base(theme: Theme) -> (r: &'static str)
    ensures
        r@ == base_style(theme),
{
    match theme {
        Theme::CodexDark => "\x1b[0m\x1b[48;2;17;20;22m\x1b[38;2;214;222;217m",
        Theme::CodexLight => "\x1b[0m\x1b[48;2;238;242;239m\x1b[38;2;35;42;38m",
        _ => "\x1b[0m",
    }
}

/// The style of the separator between modules.
pub open spec fn separator_style(theme: Theme) -> Seq<char> {
    match theme {
        Theme::Ox96f => "\x1b[38;2;84;84;82m"@,
        Theme::CodexDark => "\x1b[38;2;74;85;79m"@,
        Theme::CodexLight => "\x1b[38;2;153;164;157m"@,
        Theme::Mono => ""@,
        _ => "\x1b[2m"@,
    }
}

pub fn theme_separator(theme: Theme) -> (r: &'static str)
    ensures
        r@ == separator_style(theme),
{
    match theme {
        Theme::Ox96f => "\x1b[38;2;84;84;82m",
        Theme::CodexDark => "\x1b[38;2;74;85;79m",
        Theme::CodexLight => "\x1b[38;2;153;164;157m",
        Theme::Mono => "",
        _ => "\x1b[2m",
    }
}

/// How pressed the context is: 0 below 60 %, 1 from 60 %, 2 from 80 %.
pub open spec fn pressure(context_percent: Option<u8>) -> nat {
    let p = match context_percent {
        Some(p) => p,
        None => 0,
    };
    if p >= 80 { 2 } else if p >= 60 { 1 } else { 0 }
}

pub open spec fn palette_style(class: Segment, pressure: nat) -> Seq<char> {
    match class {
        Segment::App => "\x1b[1;32m"@,
        Segment::Model | Segment::Agents | Segment::Tools | Segment::Tokens => "\x1b[36m"@,
        Segment::Work => "\x1b[1;33m"@,
        Segment::Context => if pressure == 2 { "\x1b[1;31m"@ } else if pressure == 1 { "\x1b[1;33m"@ } else { "\x1b[32m"@ },
        Segment::RateLimits => "\x1b[1;33m"@,
        Segment::Git | Segment::Worktree | Segment::Plan | Segment::Compactions => "\x1b[35m"@,
        Segment::Safety => "\x1b[31m"@,
        _ => "\x1b[2m"@,
    }
}

pub open spec fn neon_style(class: Segment, pressure: nat) -> Seq<char> {
    match class {
        Segment::App => "\x1b[1m\x1b[38;2;179;224;58m"@,
        Segment::Model | Segment::Agents | Segment::Tools | Segment::Tokens => "\x1b[38;2;0;205;232m"@,
        Segment::Work => "\x1b[1m\x1b[38;2;255;199;57m"@,
        Segment::Context => if pressure == 2 {
            "\x1b[1m\x1b[38;2;255;102;109m"@
        } else if pressure == 1 {
            "\x1b[1m\x1b[38;2;255;199;57m"@
        } else {
            "\x1b[1m\x1b[38;2;179;224;58m"@
        },
        Segment::RateLimits => "\x1b[1m\x1b[38;2;255;199;57m"@,
        Segment::Git | Segment::Worktree | Segment::Plan | Segment::Compactions => "\x1b[38;2;163;146;232m"@,
        Segment::Safety => "\x1b[38;2;255;102;109m"@,
        _ => "\x1b[38;2;157;234;246m"@,
    }
}

pub open spec fn codex_style(class: Segment, pressure: nat, dark: bool) -> Seq<char> {
    match class {
        Segment::App => if dark { "\x1b[1m\x1b[38;2;110;231;168m"@ } else { "\x1b[1m\x1b[38;2;17;128;82m"@ },
        Segment::Model | Segment::Agents | Segment::Tools | Segment::Tokens => if dark {
            "\x1b[38;2;139;233;253m"@
        } else {
            "\x1b[38;2;0;113;138m"@
        },
        Segment::Work => if dark { "\x1b[1m\x1b[38;2;243;201;105m"@ } else { "\x1b[1m\x1b[38;2;154;103;0m"@ },
        Segment::Context => if pressure == 2 {
            "\x1b[1m\x1b[38;2;243;123;131m"@
        } else if pressure == 1 {
            "\x1b[1m\x1b[38;2;243;201;105m"@
        } else if dark {
            "\x1b[38;2;110;231;168m"@
        } else {
            "\x1b[38;2;17;128;82m"@
        },
        Segment::RateLimits => if dark { "\x1b[1m\x1b[38;2;243;201;105m"@ } else { "\x1b[1m\x1b[38;2;154;103;0m"@ },
        Segment::Git | Segment::Worktree | Segment::Plan | Segment::Compactions => if dark {
            "\x1b[38;2;196;167;231m"@
        } else {
            "\x1b[38;2;111;78;154m"@
        },
        Segment::Safety => if dark { "\x1b[38;2;243;123;131m"@ } else { "\x1b[38;2;181;53;62m"@ },
        _ => if dark { "\x1b[2m\x1b[38;2;173;184;177m"@ } else { "\x1b[2m\x1b[38;2;91;103;96m"@ },
    }
}

/// The style of one module's text. The context module turns yellow from
/// 60 % and red from 80 % of used context.
pub open spec fn segment_style(theme: Theme, segment: Segment, context_percent: Option<u8>) -> Seq<char> {
    let class = color_class(segment);
    let p = pressure(context_percent);
    match theme {
        Theme::Mono => ""@,
        Theme::Minimal => match class {
            Segment::Work | Segment::Context | Segment::RateLimits | Segment::Model => "\x1b[1m"@,
            _ => "\x1b[2m"@,
        },
        Theme::Ox96f => neon_style(class, p),
        Theme::CodexDark => codex_style(class, p, true),
        Theme::CodexLight => codex_style(class, p, false),
        _ => palette_style(class, p),
    }
}

fn pressure_of(context_percent: Option<u8>) -> (r: u8)
    ensures
        r == pressure(context_percent),
{
    let p = match context_percent {
        Some(p) => p,
        None => 0,
    };
    if p >= 80 { 2 } else if p >= 60 { 1 } else { 0 }
}

fn palette(class: Segment, pressure: u8) -> (r: &'static str)
    ensures
        r@ == palette_style(class, pressure as nat),
{
    match class {
        Segment::App => "\x1b[1;32m",
        Segment::Model | Segment::Agents | Segment::Tools | Segment::Tokens => "\x1b[36m",
        Segment::Work => "\x1b[1;33m",
        Segment::Context => if pressure == 2 { "\x1b[1;31m" } else if pressure == 1 { "\x1b[1;33m" } else { "\x1b[32m" },
        Segment::RateLimits => "\x1b[1;33m",
        Segment::Git | Segment::Worktree | Segment::Plan | Segment::Compactions => "\x1b[35m",
        Segment::Safety => "\x1b[31m",
        _ => "\x1b[2m",
    }
}

fn neon(class: Segment, pressure: u8) -> (r: &'static str)
    ensures
        r@ == neon_style(class, pressure as nat),
{
    match class {
        Segment::App => "\x1b[1m\x1b[38;2;179;224;58m",
        Segment::Model | Segment::Agents | Segment::Tools | Segment::Tokens => "\x1b[38;2;0;205;232m",
        Segment::Work => "\x1b[1m\x1b[38;2;255;199;57m",
        Segment::Context => if pressure == 2 {
            "\x1b[1m\x1b[38;2;255;102;109m"
        } else if pressure == 1 {
            "\x1b[1m\x1b[38;2;255;199;57m"
        } else {
            "\x1b[1m\x1b[38;2;179;224;58m"
        },
        Segment::RateLimits => "\x1b[1m\x1b[38;2;255;199;57m",
        Segment::Git | Segment::Worktree | Segment::Plan | Segment::Compactions => "\x1b[38;2;163;146;232m",
        Segment::Safety => "\x1b[38;2;255;102;109m",
        _ => "\x1b[38;2;157;234;246m",
    }
}

fn codex(class: Segment, pressure: u8, dark: bool) -> (r: &'static str)
    ensures
        r@ == codex_style(class, pressure as nat, dark),
{
    match class {
        Segment::App => if dark { "\x1b[1m\x1b[38;2;110;231;168m" } else { "\x1b[1m\x1b[38;2;17;128;82m" },
        Segment::Model | Segment::Agents | Segment::Tools | Segment::Tokens => if dark {
            "\x1b[38;2;139;233;253m"
        } else {
            "\x1b[38;2;0;113;138m"
        },
        Segment::Work => if dark { "\x1b[1m\x1b[38;2;243;201;105m" } else { "\x1b[1m\x1b[38;2;154;103;0m" },
        Segment::Context => if pressure == 2 {
            "\x1b[1m\x1b[38;2;243;123;131m"
        } else if pressure == 1 {
            "\x1b[1m\x1b[38;2;243;201;105m"
        } else if dark {
            "\x1b[38;2;110;231;168m"
        } else {
            "\x1b[38;2;17;128;82m"
        },
        Segment::RateLimits => if dark { "\x1b[1m\x1b[38;2;243;201;105m" } else { "\x1b[1m\x1b[38;2;154;103;0m" },
        Segment::Git | Segment::Worktree | Segment::Plan | Segment::Compactions => if dark {
            "\x1b[38;2;196;167;231m"
        } else {
            "\x1b[38;2;111;78;154m"
        },
        Segment::Safety => if dark { "\x1b[38;2;243;123;131m" } else { "\x1b[38;2;181;53;62m" },
        _ => if dark { "\x1b[2m\x1b[38;2;173;184;177m" } else { "\x1b[2m\x1b[38;2;91;103;96m" },
    }
}

pub fn theme_segment(theme: Theme, segment: Segment, context_percent: Option<u8>) -> (r: &'static str)
    ensures
        r@ == segment_style(theme, segment, context_percent),
{
    let class = segment_color_class(segment);
    let p = pressure_of(context_percent);
    match theme {
        Theme::Mono => "",
        Theme::Minimal => match class {
            Segment::Work | Segment::Context | Segment::RateLimits | Segment::Model => "\x1b[1m",
            _ => "\x1b[2m",
        },
        Theme::Ox96f => neon(class, p),
        Theme::CodexDark => codex(class, p, true),
        Theme::CodexLight => codex(class, p, false),
        _ => palette(class, p),
    }
}

/// Every theme but the two Codex themes leaves the background alone: none of
/// their styles holds a background colour (`ESC [48;`).
pub open spec fn paints_background(theme: Theme) -> bool {
    theme == Theme::CodexDark || theme == Theme::CodexLight
}

} // verus!
