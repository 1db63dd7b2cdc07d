use vstd::prelude::*;
use crate::text::{
    chars_of, eq_ignore_ascii_case, eq_ignore_ascii_case_chars, parse_u32, parsed_u32,
    same_chars, trim_chars, trimmed,
};

verus! {

/// A failure worth a log line; only its fixed code and message are ever written.
#[derive(Clone, Copy, Debug, Eq, PartialEq, Structural)]
pub enum DiagnosticEvent {
    ClipboardWrite,
    PreferencesSave,
    PrintShutdown,
    PrintWorkerStart,
    ReleasePageOpen,
    RenderShutdown,
    Update,
    UpdaterShutdown,
}

pub open spec fn event_code(e: DiagnosticEvent) -> Seq<char> {
    match e {
        DiagnosticEvent::ClipboardWrite => "clipboard_write_failed"@,
        DiagnosticEvent::PreferencesSave => "preferences_save_failed"@,
        DiagnosticEvent::PrintShutdown => "print_shutdown_failed"@,
        DiagnosticEvent::PrintWorkerStart => "print_worker_start_failed"@,
        DiagnosticEvent::ReleasePageOpen => "release_page_open_failed"@,
        DiagnosticEvent::RenderShutdown => "render_shutdown_failed"@,
        DiagnosticEvent::Update => "update_failed"@,
        DiagnosticEvent::UpdaterShutdown => "updater_shutdown_failed"@,
    }
}

pub open spec fn event_message(e: DiagnosticEvent) -> Seq<char> {
    match e {
        DiagnosticEvent::ClipboardWrite => "selected text could not be copied"@,
        DiagnosticEvent::PreferencesSave => "preferences could not be saved"@,
        DiagnosticEvent::PrintShutdown => "print worker shutdown was incomplete"@,
        DiagnosticEvent::PrintWorkerStart => "print worker could not be started"@,
        DiagnosticEvent::ReleasePageOpen => "release page could not be opened"@,
        DiagnosticEvent::RenderShutdown => "render worker shutdown was incomplete"@,
        DiagnosticEvent::Update => "update operation failed"@,
        DiagnosticEvent::UpdaterShutdown => "updater shutdown was incomplete"@,
    }
}

impl DiagnosticEvent {
    pub fn code(self) -> (r: &'static str)
        ensures
            r@ == event_code(self),
    {
        match self {
            DiagnosticEvent::ClipboardWrite => "clipboard_write_failed",
            DiagnosticEvent::PreferencesSave => "preferences_save_failed",
            DiagnosticEvent::PrintShutdown => "print_shutdown_failed",
            DiagnosticEvent::PrintWorkerStart => "print_worker_start_failed",
            DiagnosticEvent::ReleasePageOpen => "release_page_open_failed",
            DiagnosticEvent::RenderShutdown => "render_shutdown_failed",
            DiagnosticEvent::Update => "update_failed",
            DiagnosticEvent::UpdaterShutdown => "updater_shutdown_failed",
        }
    }

    pub fn message(self) -> (r: &'static str)
        ensures
            r@ == event_message(self),
    {
        match self {
            DiagnosticEvent::ClipboardWrite => "selected text could not be copied",
            DiagnosticEvent::PreferencesSave => "preferences could not be saved",
            DiagnosticEvent::PrintShutdown => "print worker shutdown was incomplete",
            DiagnosticEvent::PrintWorkerStart => "print worker could not be started",
            DiagnosticEvent::ReleasePageOpen => "release page could not be opened",
            DiagnosticEvent::RenderShutdown => "render worker shutdown was incomplete",
            DiagnosticEvent::Update => "update operation failed",
            DiagnosticEvent::UpdaterShutdown => "updater shutdown was incomplete",
        }
    }
}

/// The code and message logged for a failure. The sensitive detail (a path, a URL, an
/// error text) is taken and dropped: the result depends on the event alone.
pub fn redacted_event(event: DiagnosticEvent, sensitive_detail: &str) -> (r: (
    &'static str,
    &'static str,
))
    ensures
        r.0@ == event_code(event),
        r.1@ == event_message(event),
{
    (event.code(), event.message())
}

/// The verbosity of the diagnostic log.
#[derive(Clone, Copy, Debug, Eq, PartialEq, Structural)]
pub enum LogLevel {
    Error,
    Warn,
    Info,
    Debug,
    Trace,
}

/// The level a text names as `tracing::Level`'s `FromStr` reads it: a number from 1
/// (error) to 5 (trace), or a level's name in any ASCII case.
pub open spec fn level_of_text(s: Seq<char>) -> Option<LogLevel> {
    if parsed_u32(s) == Some(1u32) || eq_ignore_ascii_case(s, "error"@) {
        Some(LogLevel::Error)
    } else if parsed_u32(s) == Some(2u32) || eq_ignore_ascii_case(s, "warn"@) {
        Some(LogLevel::Warn)
    } else if parsed_u32(s) == Some(3u32) || eq_ignore_ascii_case(s, "info"@) {
        Some(LogLevel::Info)
    } else if parsed_u32(s) == Some(4u32) || eq_ignore_ascii_case(s, "debug"@) {
        Some(LogLevel::Debug)
    } else if parsed_u32(s) == Some(5u32) || eq_ignore_ascii_case(s, "trace"@) {
        Some(LogLevel::Trace)
    } else {
        None
    }
}

/// Logging is off unless asked for: `1` or `true` mean the info level, a level's name or
/// number that level; anything else (and no value) keeps it off.
pub open spec fn opt_in_level(value: Option<Seq<char>>) -> Option<LogLevel> {
    match value {
        None => None,
        Some(v) => {
            let t = trimmed(v);
            if t == "1"@ || eq_ignore_ascii_case(t, "true"@) {
                Some(LogLevel::Info)
            } else {
                level_of_text(t)
            }
        },
    }
}

fn names(t: &[char], name: &str) -> (r: bool)
    ensures
        r == eq_ignore_ascii_case(t@, name@),
{
    let n = chars_of(name);
    eq_ignore_ascii_case_chars(t, n.as_slice())
}

/// The log level the environment asks for, given the variable's text when it is set and
/// valid Unicode.
pub fn parse_opt_in(value: Option<&str>) -> (r: Option<LogLevel>)
    ensures
        r == opt_in_level(
            match value {
                Some(v) => Some(v@),
                None => None,
            },
        ),
{
    let v = match value {
        Some(v) => v,
        None => return None,
    };
    let t = trim_chars(chars_of(v).as_slice());
    let one = chars_of("1");
    if same_chars(t.as_slice(), one.as_slice()) || names(t.as_slice(), "true") {
        return Some(LogLevel::Info);
    }
    let n = parse_u32(t.as_slice());
    let ts = t.as_slice();
    if n == Some(1u32) || names(ts, "error") {
        Some(LogLevel::Error)
    } else if n == Some(2u32) || names(ts, "warn") {
        Some(LogLevel::Warn)
    } else if n == Some(3u32) || names(ts, "info") {
        Some(LogLevel::Info)
    } else if n == Some(4u32) || names(ts, "debug") {
        Some(LogLevel::Debug)
    } else if n == Some(5u32) || names(ts, "trace") {
        Some(LogLevel::Trace)
    } else {
        None
    }
}

} // verus!
