use vstd::prelude::*;

verus! {

/// A lexical error, as handed to the diagnostic sink: the line it was found
/// on, a location suffix and a message.
#[derive(Clone, Debug)]
pub struct Diagnostic {
    pub line: usize,
    pub location: String,
    pub message: String,
}

/// Mathematical form of a `Diagnostic`.
pub struct DiagnosticView {
    pub line: nat,
    pub location: Seq<char>,
    pub message: Seq<char>,
}

impl View for Diagnostic {
    type V = DiagnosticView;

    open spec fn view(&self) -> DiagnosticView {
        DiagnosticView { line: self.line as nat, location: self.location@, message: self.message@ }
    }
}

/// The view of each diagnostic of a sequence.
pub open spec fn diagnostic_views(ds: Seq<Diagnostic>) -> Seq<DiagnosticView> {
    ds.map_values(|d: Diagnostic| d@)
}

/// Message of the diagnostic for a character that starts no token.
pub open spec fn unexpected_character() -> Seq<char> {
    "Unexpected character."@
}

/// Message of the diagnostic for a string literal that input ends inside.
pub open spec fn unterminated_string() -> Seq<char> {
    "Unterminated string."@
}

/// The diagnostic that the scanner records: no location, the given line and
/// message.
pub open spec fn scanner_diagnostic(line: nat, message: Seq<char>) -> DiagnosticView {
    DiagnosticView { line, location: Seq::empty(), message }
}

/// Builds the diagnostic for `message` at `location` on `line`.
pub fn report(line: usize, location: &str, message: &str) -> (d: Diagnostic)
    ensures
        d@ == (DiagnosticView { line: line as nat, location: location@, message: message@ }),
{
    Diagnostic { line, location: location.to_owned(), message: message.to_owned() }
}

/// Builds the diagnostic for `message` on `line`, with an empty location.
pub fn error(line: usize, message: &str) -> (d: Diagnostic)
    ensures
        d@ == scanner_diagnostic(line as nat, message@),
{
    let d = report(line, "", message);
    proof {
        reveal_strlit("");
        assert(d@.location =~= Seq::<char>::empty());
    }
    d
}

} // verus!
