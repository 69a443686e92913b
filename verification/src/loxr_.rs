use vstd::prelude::*;

verus! {

/// One diagnostic produced during a run: the source line it was found on, an
/// optional position label, and a human-readable message.
#[derive(Debug, Clone, PartialEq)]
pub struct Diagnostic {
    pub line: usize,
    pub pos: String,
    pub message: String,
}

/// Mathematical image of a `Diagnostic`.
#[verifier::ext_equal]
pub ghost struct DiagModel {
    pub line: int,
    pub pos: Seq<char>,
    pub message: Seq<char>,
}

impl View for Diagnostic {
    type V = DiagModel;

    open spec fn view(&self) -> DiagModel {
        DiagModel { line: self.line as int, pos: self.pos@, message: self.message@ }
    }
}

impl DeepView for Diagnostic {
    type V = DiagModel;

    open spec fn deep_view(&self) -> DiagModel {
        self@
    }
}

/// The diagnostic sink. It accumulates every error reported during a run and
/// keeps a sticky flag: the first report sets it and nothing ever clears it,
/// so a caller can render a single pass/fail verdict after a whole run.
pub struct Loxr {
    pub had_error: bool,
    pub diagnostics: Vec<Diagnostic>,
}

impl Loxr {
    /// The sticky flag agrees with the accumulated diagnostics.
    pub open spec fn wf(&self) -> bool {
        self.had_error <==> self.diagnostics@.len() > 0
    }

    pub fn new() -> (r: Loxr)
        ensures
            r.had_error == false,
            r.diagnostics@.len() == 0,
            r.wf(),
    {
        Loxr { had_error: false, diagnostics: Vec::new() }
    }

    /// Record an error with no position label and set the sticky flag.
    pub fn error(&mut self, line: usize, message: String)
        ensures
            final(self).had_error == true,
            final(self).diagnostics.deep_view() == old(self).diagnostics.deep_view().push(
                DiagModel { line: line as int, pos: ""@, message: message@ },
            ),
            old(self).had_error ==> final(self).had_error,
            old(self).wf() ==> final(self).wf(),
    {
        self.report(line, "", message)
    }

    /// Record a diagnostic tagged with a position label and set the sticky flag.
    fn report(&mut self, line: usize, pos: &str, message: String)
        ensures
            final(self).had_error == true,
            final(self).diagnostics.deep_view() == old(self).diagnostics.deep_view().push(
                DiagModel { line: line as int, pos: pos@, message: message@ },
            ),
            old(self).wf() ==> final(self).wf(),
    {
        self.diagnostics.push(Diagnostic { line, pos: String::from_str(pos), message });
        self.had_error = true;
    }
}

} // verus!
