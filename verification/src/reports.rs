//! Building blocks of the Markdown dashboard: AI interpretation
//! placeholders, labels, and the document being written.

use vstd::prelude::*;
use crate::behavior::Severity;
use crate::charts::{chart_block, ChartSpec};
use crate::text::{chars_of, push_char, push_text, same_chars};

verus! {

/// The block the AI layer replaces: `<!-- ai:begin:NAME -->` up to
/// `<!-- ai:end:NAME -->`, holding the instruction as a quoted coach note.
pub open spec fn placeholder_text(name: Seq<char>, instruction: Seq<char>) -> Seq<char> {
    "<!-- ai:begin:"@ + name + " -->\n> [!quote] Coach\n> _"@ + instruction + "_\n<!-- ai:end:"@
        + name + " -->\n"@
}

/// Marker wrapping a section the AI must complete. The AI replaces the whole
/// block between `<!-- ai:begin:NAME -->` and `<!-- ai:end:NAME -->`.
pub fn ai_placeholder(name: &str, instruction: &str) -> (r: String)
    ensures
        r@ == placeholder_text(name@, instruction@),
{
    let mut out = String::new();
    push_text(&mut out, "<!-- ai:begin:");
    push_text(&mut out, name);
    push_text(&mut out, " -->\n> [!quote] Coach\n> _");
    push_text(&mut out, instruction);
    push_text(&mut out, "_\n<!-- ai:end:");
    push_text(&mut out, name);
    push_text(&mut out, " -->\n");
    assert(out@ =~= placeholder_text(name@, instruction@));
    out
}

/// Report label of a severity.
pub open spec fn severity_text(s: Severity) -> Seq<char> {
    match s {
        Severity::Absent => "—"@,
        Severity::Low => "Low"@,
        Severity::Medium => "Medium"@,
        Severity::High => "High"@,
    }
}

/// Report label of a severity (a dash when nothing was detected).
pub fn severity_label(s: &Severity) -> (r: &'static str)
    ensures
        r@ == severity_text(*s),
{
    match s {
        Severity::Absent => "—",
        Severity::Low => "Low",
        Severity::Medium => "Medium",
        Severity::High => "High",
    }
}

/// Human name of a session key of the exchange format.
pub open spec fn session_key_display(key: Seq<char>) -> Seq<char> {
    if key == "asia"@ {
        "Asia"@
    } else if key == "london"@ {
        "London"@
    } else if key == "overlap"@ {
        "Overlap"@
    } else if key == "new_york"@ {
        "New York"@
    } else {
        "Other"@
    }
}

fn key_is(key: &[char], lit: &str) -> (r: bool)
    ensures
        r == (key@ == lit@),
{
    same_chars(key, chars_of(lit).as_slice())
}

/// Human name of a session key ("new_york" gives "New York").
pub fn session_display(key: &str) -> (r: &'static str)
    ensures
        r@ == session_key_display(key@),
{
    let k = chars_of(key);
    let k = k.as_slice();
    if key_is(k, "asia") {
        "Asia"
    } else if key_is(k, "london") {
        "London"
    } else if key_is(k, "overlap") {
        "Overlap"
    } else if key_is(k, "new_york") {
        "New York"
    } else {
        "Other"
    }
}

/// A Markdown document being written line by line.
pub struct Doc {
    text: String,
}

impl View for Doc {
    type V = Seq<char>;

    /// The text written so far.
    closed spec fn view(&self) -> Seq<char> {
        self.text@
    }
}

impl Doc {
    /// An empty document.
    pub fn new() -> (r: Doc)
        ensures
            r@ == Seq::<char>::empty(),
    {
        Doc { text: String::new() }
    }

    /// Append a line.
    pub fn line(&mut self, s: &str)
        ensures
            final(self)@ == old(self)@ + s@ + seq!['\n'],
    {
        push_text(&mut self.text, s);
        push_char(&mut self.text, '\n');
    }

    /// Append an empty line.
    pub fn blank(&mut self)
        ensures
            final(self)@ == old(self)@.push('\n'),
    {
        push_char(&mut self.text, '\n');
    }

    /// Append raw text.
    pub fn push_str(&mut self, s: &str)
        ensures
            final(self)@ == old(self)@ + s@,
    {
        push_text(&mut self.text, s);
    }

    /// Append a chart under a `###` heading, with a blank line after each.
    pub fn chart(&mut self, heading: &str, spec: &ChartSpec)
        ensures
            final(self)@ == old(self)@ + "### "@ + heading@ + seq!['\n'] + seq!['\n'] + chart_block(spec@) + seq!['\n'],
    {
        let ghost start = self@;
        push_text(&mut self.text, "### ");
        push_text(&mut self.text, heading);
        push_char(&mut self.text, '\n');
        push_char(&mut self.text, '\n');
        let r = spec.render();
        push_text(&mut self.text, r.as_str());
        push_char(&mut self.text, '\n');
        assert(self@ =~= start + "### "@ + heading@ + seq!['\n'] + seq!['\n'] + chart_block(spec@) + seq!['\n']);
    }

    /// Append an AI placeholder block followed by a blank line.
    pub fn ai(&mut self, name: &str, instruction: &str)
        ensures
            final(self)@ == old(self)@ + placeholder_text(name@, instruction@) + seq!['\n'],
    {
        let p = ai_placeholder(name, instruction);
        push_text(&mut self.text, p.as_str());
        push_char(&mut self.text, '\n');
    }

    /// The finished text.
    pub fn finish(self) -> (r: String)
        ensures
            r@ == self@,
    {
        self.text
    }
}

} // verus!
