//! What a command prints, and what it exits with.

use vstd::prelude::*;
use vstd::string::*;

use crate::cli::error::{Error, Fault};
use crate::cli::exit::Exit;
use crate::text::{decimal, push_decimal};

verus! {

/// A finished command: what it prints, and then what it comes to.
///
/// The text is composed whole and written once: there is only one thing to say about a report that
/// could not be written.
#[derive(Debug)]
pub struct Report {
    /// What is printed.
    pub text: String,
    /// What the process reports once it has been printed.
    pub outcome: Result<Exit, Error>,
}

/// A finished command as a contract speaks of it.
pub struct ReportModel {
    /// What is printed.
    pub text: Seq<char>,
    /// What the process reports.
    pub outcome: Result<Exit, Fault>,
}

impl View for Report {
    type V = ReportModel;

    open spec fn view(&self) -> ReportModel {
        ReportModel {
            text: self.text@,
            outcome: match self.outcome {
                Ok(exit) => Ok(exit),
                Err(error) => Err(error@),
            },
        }
    }
}

/// The outcome of a command that ran: degraded where something wants an operator.
pub open spec fn attention(wanted: bool) -> Exit {
    if wanted {
        Exit::Degraded
    } else {
        Exit::Done
    }
}

/// The outcome of a command that ran: degraded where something wants an operator.
pub fn attention_exit(wanted: bool) -> (exit: Exit)
    ensures
        exit == attention(wanted),
{
    if wanted {
        Exit::Degraded
    } else {
        Exit::Done
    }
}

/// `text` with spaces after it, so that it is at least `width` characters wide.
pub open spec fn padded(text: Seq<char>, width: nat) -> Seq<char> {
    text + Seq::new(
        if text.len() < width {
            (width - text.len()) as nat
        } else {
            0
        },
        |i: int| ' ',
    )
}

/// Appends `label` and the spaces that make it at least `width` characters wide.
pub fn push_padded(out: &mut String, label: &str, width: usize)
    ensures
        final(out)@ == old(out)@ + padded(label@, width as nat),
{
    out.append(label);
    let mut held: usize = label.unicode_len();
    while held < width
        invariant
            held >= label@.len(),
            held <= label@.len() || held <= width,
            out@ =~= old(out)@ + label@ + Seq::new((held - label@.len()) as nat, |i: int| ' '),
        decreases width - held,
    {
        out.push(' ');
        held += 1;
    }
    assert(out@ =~= old(out)@ + padded(label@, width as nat));
}

/// One `label  count` line of a report, aligned so a column of numbers reads as one.
pub open spec fn row(label: Seq<char>, count: nat) -> Seq<char> {
    "  "@ + padded(label, 20) + decimal(count) + "\n"@
}

/// One `label  value` line of a report, in the same column.
pub open spec fn text_row(label: Seq<char>, value: Seq<char>) -> Seq<char> {
    "  "@ + padded(label, 20) + value + "\n"@
}

/// Appends one `label  count` line of a report.
pub fn line(text: &mut String, label: &str, count: usize)
    ensures
        final(text)@ == old(text)@ + row(label@, count as nat),
{
    text.append("  ");
    push_padded(text, label, 20);
    push_decimal(text, count as u64);
    text.append("\n");
    assert(text@ =~= old(text)@ + row(label@, count as nat));
}

/// Appends one `label  value` line of a report.
pub fn text_line(text: &mut String, label: &str, value: &str)
    ensures
        final(text)@ == old(text)@ + text_row(label@, value@),
{
    text.append("  ");
    push_padded(text, label, 20);
    text.append(value);
    text.append("\n");
    assert(text@ =~= old(text)@ + text_row(label@, value@));
}

} // verus!
