//! The text each progress event writes into the live log's terminal:
//! lines as they came (a redraw ends in `\r`, a settled line in `\r\n`,
//! since the terminal does not map `\n`), other events as one summary
//! line, and the exit summary set apart.

use vstd::prelude::*;
use crate::text::{string_of, push_str, push_chars, decimal, decimal_chars, zero_pad, zero_pad_chars};
use crate::types::{ProgressEvent, ProgressEventView};
use crate::package::{signed_decimal, i64_string};

verus! {

/// Rows and columns of the log terminal, and its scrollback.
pub const TERM_ROWS: u16 = 40;
pub const TERM_COLS: u16 = 120;
pub const TERM_SCROLLBACK: usize = 20000;

/// Milliseconds as seconds with two decimals (rounded half up).
pub open spec fn secs2(ms: nat) -> Seq<char> {
    let centi = (ms + 5) / 10;
    decimal(centi / 100) + "."@ + zero_pad(decimal(centi % 100), 2)
}

fn push_secs2(v: &mut Vec<char>, ms: u64)
    ensures
        final(v)@ == old(v)@ + secs2(ms as nat),
{
    let centi: u64 = ms / 10 + if ms % 10 >= 5 { 1 } else { 0 };
    assert(centi == (ms + 5) / 10) by (nonlinear_arith)
        requires
            centi == ms / 10 + if ms % 10 >= 5 { 1u64 } else { 0u64 },
    ;
    let a = decimal_chars(centi / 100);
    push_chars(v, &a);
    v.push('.');
    let b = decimal_chars(centi % 100);
    let bp = zero_pad_chars(&b, 2);
    push_chars(v, &bp);
    proof {
        reveal_strlit(".");
    }
}

/// The summary line of an event.
pub open spec fn format_event_spec(e: ProgressEventView) -> Seq<char> {
    match e {
        ProgressEventView::Line { text, .. } => text,
        ProgressEventView::SubstituteLookup { url, percent } => "substitute: "@ + url + " "@ + percent + "%"@,
        ProgressEventView::SubstituteDownload { item, .. } => "downloading "@ + item,
        ProgressEventView::SubstituteDownloadDone { item, .. } => "downloaded "@ + item,
        ProgressEventView::BuildStart { drv } => "building "@ + drv,
        ProgressEventView::BuildPhase { drv, phase } => match drv {
            Some(d) => "["@ + d + "] phase "@ + phase,
            None => "phase "@ + phase,
        },
        ProgressEventView::BuildDone { drv } => "built "@ + drv,
        ProgressEventView::BuildFailed { drv, .. } => "FAILED "@ + drv,
        ProgressEventView::WouldDownload { bytes, .. } => "would download "@ + decimal(bytes as nat) + " bytes"@,
        ProgressEventView::WouldBuild { bytes, .. } => "would build "@ + decimal(bytes as nat) + " bytes"@,
        ProgressEventView::StorePathListed { path } => "  - "@ + path,
        ProgressEventView::PullComputingDerivation { system } => "computing derivation for "@ + system,
        ProgressEventView::DryRunHeader { text } => text,
        ProgressEventView::KnownBug(_) => "known bug: ChannelShadow74396 (https://issues.guix.gnu.org/74396)"@,
        ProgressEventView::ExitSummary { code, duration_ms } => "exit "@ + signed_decimal(code as int) + " after "@
            + secs2(duration_ms as nat) + "s"@,
    }
}

pub fn format_event(e: &ProgressEvent) -> (r: String)
    ensures
        r@ == format_event_spec(e@),
{
    let mut v: Vec<char> = Vec::new();
    match e {
        ProgressEvent::Line { text, .. } => push_str(&mut v, text.as_str()),
        ProgressEvent::SubstituteLookup { url, percent } => {
            push_str(&mut v, "substitute: ");
            push_str(&mut v, url.as_str());
            push_str(&mut v, " ");
            push_str(&mut v, percent.as_str());
            push_str(&mut v, "%");
        },
        ProgressEvent::SubstituteDownload { item, .. } => {
            push_str(&mut v, "downloading ");
            push_str(&mut v, item.as_str());
        },
        ProgressEvent::SubstituteDownloadDone { item, .. } => {
            push_str(&mut v, "downloaded ");
            push_str(&mut v, item.as_str());
        },
        ProgressEvent::BuildStart { drv } => {
            push_str(&mut v, "building ");
            push_str(&mut v, drv.as_str());
        },
        ProgressEvent::BuildPhase { drv, phase } => {
            match drv {
                Some(d) => {
                    push_str(&mut v, "[");
                    push_str(&mut v, d.as_str());
                    push_str(&mut v, "] phase ");
                },
                None => push_str(&mut v, "phase "),
            }
            push_str(&mut v, phase.as_str());
        },
        ProgressEvent::BuildDone { drv } => {
            push_str(&mut v, "built ");
            push_str(&mut v, drv.as_str());
        },
        ProgressEvent::BuildFailed { drv, .. } => {
            push_str(&mut v, "FAILED ");
            push_str(&mut v, drv.as_str());
        },
        ProgressEvent::WouldDownload { bytes, .. } => {
            push_str(&mut v, "would download ");
            let d = decimal_chars(*bytes);
            push_chars(&mut v, &d);
            push_str(&mut v, " bytes");
        },
        ProgressEvent::WouldBuild { bytes, .. } => {
            push_str(&mut v, "would build ");
            let d = decimal_chars(*bytes);
            push_chars(&mut v, &d);
            push_str(&mut v, " bytes");
        },
        ProgressEvent::StorePathListed { path } => {
            push_str(&mut v, "  - ");
            push_str(&mut v, path.as_str());
        },
        ProgressEvent::PullComputingDerivation { system } => {
            push_str(&mut v, "computing derivation for ");
            push_str(&mut v, system.as_str());
        },
        ProgressEvent::DryRunHeader { text } => push_str(&mut v, text.as_str()),
        ProgressEvent::KnownBug(_) => push_str(&mut v, "known bug: ChannelShadow74396 (https://issues.guix.gnu.org/74396)"),
        ProgressEvent::ExitSummary { code, duration_ms } => {
            push_str(&mut v, "exit ");
            let c = i64_string(*code as i64);
            push_str(&mut v, c.as_str());
            push_str(&mut v, " after ");
            push_secs2(&mut v, *duration_ms);
            push_str(&mut v, "s");
        },
    }
    string_of(&v)
}

/// What an event writes into the terminal.
pub open spec fn terminal_text_spec(e: ProgressEventView) -> Seq<char> {
    match e {
        ProgressEventView::Line { text, redraw, .. } => text + if redraw { "\r"@ } else { "\r\n"@ },
        ProgressEventView::ExitSummary { .. } => "\r\n--- "@ + format_event_spec(e) + " ---\r\n"@,
        _ => format_event_spec(e) + "\r\n"@,
    }
}

pub fn terminal_text(e: &ProgressEvent) -> (r: String)
    ensures
        r@ == terminal_text_spec(e@),
{
    let mut v: Vec<char> = Vec::new();
    match e {
        ProgressEvent::Line { text, redraw, .. } => {
            push_str(&mut v, text.as_str());
            if *redraw {
                push_str(&mut v, "\r");
            } else {
                push_str(&mut v, "\r\n");
            }
        },
        ProgressEvent::ExitSummary { .. } => {
            push_str(&mut v, "\r\n--- ");
            let f = format_event(e);
            push_str(&mut v, f.as_str());
            push_str(&mut v, " ---\r\n");
        },
        _ => {
            let f = format_event(e);
            push_str(&mut v, f.as_str());
            push_str(&mut v, "\r\n");
        },
    }
    string_of(&v)
}

} // verus!
