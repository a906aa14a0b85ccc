//! A response laid out as lines of text for people to read.

use vstd::prelude::*;
use vstd::string::StringExecFns;
use crate::decimal::{decimal, push_decimal};
use crate::response::{IdentityResponse, IdentityView};

verus! {

/// A line that shows a text under a label.
pub open spec fn text_line(label: Seq<char>, value: Seq<char>) -> Seq<char> {
    label + value
}

/// A line that shows a number under a label.
pub open spec fn number_line(label: Seq<char>, value: u64) -> Seq<char> {
    label + decimal(value as nat)
}

/// The line for a number that may be absent: none where it is.
pub open spec fn optional_line(label: Seq<char>, value: Option<u64>) -> Seq<Seq<char>> {
    match value {
        Some(n) => seq![number_line(label, n)],
        None => Seq::empty(),
    }
}

/// The lines that show the process, with the host and the echoed context
/// where the response holds a runner record.
pub open spec fn runner_lines(v: IdentityView) -> Seq<Seq<char>> {
    let process = seq![
        text_line("    Process:     "@, v.process),
        number_line("    PID:         "@, v.pid as u64),
        number_line("    UID:         "@, v.uid as u64),
        number_line("    GID:         "@, v.gid as u64),
    ];
    match v.runner {
        None => seq!["  Runner:"@] + process,
        Some(r) => seq!["  Runner:"@, text_line("    Hostname:    "@, r.hostname)] + process
            + optional_line("    Instance ID: "@, r.instance_id) + optional_line(
            "    Timestamp:   "@,
            r.timestamp,
        ),
    }
}

/// The lines of the report, under the given headline.
pub open spec fn report_lines(headline: Seq<char>, v: IdentityView) -> Seq<Seq<char>> {
    seq![
        headline,
        Seq::empty(),
        text_line("  Identity:   "@, v.identity),
        text_line("  IDM URL:    "@, v.idm_url),
        text_line("  Config URL: "@, v.config_url),
        text_line("  Token:      "@, v.token),
        Seq::empty(),
    ] + runner_lines(v)
}

/// The texts of a list of lines.
pub open spec fn lines_view(lines: Seq<String>) -> Seq<Seq<char>> {
    Seq::new(lines.len(), |i: int| lines[i]@)
}

fn push_text_line(lines: &mut Vec<String>, label: &str, value: &str)
    ensures
        lines_view(final(lines)@) == lines_view(old(lines)@).push(text_line(label@, value@)),
{
    let mut line = label.to_owned();
    line.append(value);
    lines.push(line);
    assert(lines_view(lines@) =~= lines_view(old(lines)@).push(text_line(label@, value@)));
}

fn push_number_line(lines: &mut Vec<String>, label: &str, value: u64)
    ensures
        lines_view(final(lines)@) == lines_view(old(lines)@).push(number_line(label@, value)),
{
    let mut line = label.to_owned();
    push_decimal(&mut line, value);
    lines.push(line);
    assert(lines_view(lines@) =~= lines_view(old(lines)@).push(number_line(label@, value)));
}

fn push_optional_line(lines: &mut Vec<String>, label: &str, value: Option<u64>)
    ensures
        lines_view(final(lines)@) == lines_view(old(lines)@) + optional_line(label@, value),
{
    match value {
        Some(n) => {
            push_number_line(lines, label, n);
            assert(lines_view(lines@) =~= lines_view(old(lines)@) + optional_line(label@, value));
        },
        None => {
            assert(lines_view(lines@) =~= lines_view(old(lines)@) + optional_line(label@, value));
        },
    }
}

impl IdentityResponse {
    /// The response as lines of text under `headline`: the identity, the
    /// process, and of the optional parts only those that are present.
    pub fn report(&self, headline: &str) -> (lines: Vec<String>)
        ensures
            lines_view(lines@) == report_lines(headline@, self@),
    {
        let mut lines: Vec<String> = Vec::new();
        assert(lines_view(lines@) =~= Seq::empty());
        push_text_line(&mut lines, headline, "");
        push_text_line(&mut lines, "", "");
        push_text_line(&mut lines, "  Identity:   ", self.identity.as_str());
        push_text_line(&mut lines, "  IDM URL:    ", self.idm_url.as_str());
        push_text_line(&mut lines, "  Config URL: ", self.config_url.as_str());
        push_text_line(&mut lines, "  Token:      ", self.token.as_str());
        push_text_line(&mut lines, "", "");
        push_text_line(&mut lines, "  Runner:", "");
        match &self.runner {
            Some(runner) => {
                push_text_line(&mut lines, "    Hostname:    ", runner.hostname.as_str());
            },
            None => {},
        }
        push_text_line(&mut lines, "    Process:     ", self.process.as_str());
        push_number_line(&mut lines, "    PID:         ", self.pid as u64);
        push_number_line(&mut lines, "    UID:         ", self.uid as u64);
        push_number_line(&mut lines, "    GID:         ", self.gid as u64);
        match &self.runner {
            Some(runner) => {
                push_optional_line(&mut lines, "    Instance ID: ", runner.instance_id);
                push_optional_line(&mut lines, "    Timestamp:   ", runner.timestamp);
            },
            None => {},
        }
        proof {
            reveal_strlit("");
            assert(""@ =~= Seq::<char>::empty());
            assert(text_line(headline@, ""@) =~= headline@);
            assert(text_line(""@, ""@) =~= Seq::<char>::empty());
            assert(text_line("  Runner:"@, ""@) =~= "  Runner:"@);
            assert(lines_view(lines@) =~= report_lines(headline@, self@));
        }
        lines
    }
}

} // verus!
