//! Diagnostics and the handlers that receive them.
use vstd::prelude::*;
use crate::location::Location;
use crate::owned::LogicalResult;

verus! {

#[derive(Clone, Copy, Debug, PartialEq, Eq, Structural)]
pub enum DiagnosticSeverity {
    Error,
    Warning,
    Note,
    Remark,
}

impl DiagnosticSeverity {
    /// The severity with the given number: 0 error, 1 warning, 2 note, 3 remark.
    pub fn from_u32(n: u32) -> (r: Option<DiagnosticSeverity>)
        ensures
            r is Some <==> n < 4,
            n == 0 ==> r == Some(DiagnosticSeverity::Error),
            n == 1 ==> r == Some(DiagnosticSeverity::Warning),
            n == 2 ==> r == Some(DiagnosticSeverity::Note),
            n == 3 ==> r == Some(DiagnosticSeverity::Remark),
    {
        if n == 0 {
            Some(DiagnosticSeverity::Error)
        } else if n == 1 {
            Some(DiagnosticSeverity::Warning)
        } else if n == 2 {
            Some(DiagnosticSeverity::Note)
        } else if n == 3 {
            Some(DiagnosticSeverity::Remark)
        } else {
            None
        }
    }

    pub open spec fn spec_name(&self) -> Seq<char> {
        match *self {
            DiagnosticSeverity::Error => "Error"@,
            DiagnosticSeverity::Warning => "Warning"@,
            DiagnosticSeverity::Note => "Note"@,
            DiagnosticSeverity::Remark => "Remark"@,
        }
    }

    /// The severity's name.
    pub fn name(&self) -> (r: &'static str)
        ensures
            r@ == self.spec_name(),
    {
        match self {
            DiagnosticSeverity::Error => "Error",
            DiagnosticSeverity::Warning => "Warning",
            DiagnosticSeverity::Note => "Note",
            DiagnosticSeverity::Remark => "Remark",
        }
    }
}

/// A diagnostic: its severity, where it applies, its message, and attached notes.
pub struct Diagnostic {
    pub severity: DiagnosticSeverity,
    pub location: Location,
    pub message: String,
    pub notes: Vec<Diagnostic>,
}

impl Diagnostic {
    pub fn severity(&self) -> (r: DiagnosticSeverity)
        ensures
            r == self.severity,
    {
        self.severity
    }

    pub fn location(&self) -> (r: Location)
        ensures
            r == self.location,
    {
        self.location
    }

    /// Note `pos`.
    pub fn get_note(&self, pos: usize) -> (r: &Diagnostic)
        requires
            pos < self.notes@.len(),
        ensures
            *r == self.notes@[pos as int],
    {
        &self.notes[pos]
    }

    pub fn num_notes(&self) -> (r: usize)
        ensures
            r == self.notes@.len(),
    {
        self.notes.len()
    }
}

/// Something that receives diagnostics and says whether it handled one completely.
pub trait HandlerObject {
    /// Whether the handler, as it stands, handles `diag` completely.
    spec fn spec_handles(&self, diag: &Diagnostic) -> bool;

    fn handle(&mut self, diag: &Diagnostic) -> (r: LogicalResult)
        ensures
            r.spec_success() == old(self).spec_handles(diag),
    ;
}

/// A handler that reports whether it was made to handle diagnostics completely; what it
/// shows of a diagnostic is `describe`.
pub struct PrintHandler(pub bool);

impl PrintHandler {
    pub fn new() -> (r: PrintHandler)
        ensures
            !r.0,
    {
        PrintHandler(false)
    }

    /// The line shown for a diagnostic: `Severity: <name>`.
    pub fn describe(&self, diag: &Diagnostic) -> (r: String)
        ensures
            r@ == "Severity: "@ + diag.severity.spec_name(),
    {
        let mut s = String::from_str("Severity: ");
        s.append(diag.severity.name());
        s
    }
}

impl PrintHandler {
    /// Whether this handler handles diagnostics completely.
    pub fn handles_completely(&self) -> (r: bool)
        ensures
            r == self.0,
    {
        self.0
    }
}

impl HandlerObject for PrintHandler {
    open spec fn spec_handles(&self, diag: &Diagnostic) -> bool {
        self.0
    }

    fn handle(&mut self, diag: &Diagnostic) -> (r: LogicalResult) {
        LogicalResult::from_bool(self.0)
    }
}

/// Handlers of diagnostics, by the id each got when attached. A diagnostic goes to the
/// handlers in the reverse order of attachment until one handles it completely.
pub struct DiagnosticEngine<H: HandlerObject> {
    pub handlers: Vec<(u64, H)>,
    pub next_id: u64,
}

/// The ids of attached handlers, in order of attachment.
pub open spec fn handler_ids<H: HandlerObject>(hs: Seq<(u64, H)>) -> Seq<u64> {
    hs.map_values(|p: (u64, H)| p.0)
}

impl<H: HandlerObject> DiagnosticEngine<H> {
    pub fn new() -> (r: DiagnosticEngine<H>)
        ensures
            r.handlers@.len() == 0,
    {
        DiagnosticEngine { handlers: Vec::new(), next_id: 0 }
    }

    /// Attach a handler; returns the id that detaches it.
    pub fn attach_diagnostic_handler(&mut self, handler: H) -> (r: u64)
        requires
            old(self).next_id < u64::MAX,
        ensures
            r == old(self).next_id,
            final(self).next_id == old(self).next_id + 1,
            handler_ids(final(self).handlers@) == handler_ids(old(self).handlers@).push(r),
            final(self).handlers@.last().1 == handler,
    {
        let id = self.next_id;
        let ghost o = self.handlers@;
        self.handlers.push((id, handler));
        self.next_id = id + 1;
        assert(handler_ids(self.handlers@) =~= handler_ids(o).push(id));
        id
    }

    /// Detach the handler attached under `id`, if it is there; the others stay in order.
    pub fn detach_diagnostic_handler(&mut self, id: u64) -> (r: bool)
        ensures
            r ==> exists|k: int|
                0 <= k < old(self).handlers@.len() && old(self).handlers@[k].0 == id
                    && handler_ids(final(self).handlers@) == handler_ids(old(self).handlers@).remove(k),
            !r ==> !handler_ids(old(self).handlers@).contains(id) && final(self).handlers@ == old(self).handlers@,
            final(self).next_id == old(self).next_id,
    {
        let ghost o = self.handlers@;
        let mut k: usize = 0;
        while k < self.handlers.len()
            invariant
                self.handlers@ == o,
                o == old(self).handlers@,
                self.next_id == old(self).next_id,
                k <= o.len(),
                forall|j: int| 0 <= j < k ==> o[j].0 != id,
            decreases o.len() - k,
        {
            if self.handlers[k].0 == id {
                assert(old(self).handlers@[k as int].0 == id);
                self.handlers.remove(k);
                assert(handler_ids(self.handlers@) =~= handler_ids(o).remove(k as int));
                return true;
            }
            k = k + 1;
        }
        assert forall|j: int| 0 <= j < handler_ids(o).len() implies handler_ids(o)[j] != id by {
            assert(handler_ids(o)[j] == o[j].0);
        }
        false
    }

    /// Hand `diag` to the handlers, the last attached first, until one handles it
    /// completely; the result says whether one did.
    pub fn emit(&mut self, diag: &Diagnostic) -> (r: LogicalResult)
        ensures
            handler_ids(final(self).handlers@) == handler_ids(old(self).handlers@),
            r.spec_success() <==> exists|k: int|
                0 <= k < old(self).handlers@.len() && (#[trigger] old(self).handlers@[k]).1.spec_handles(diag),
    {
        let ghost ids = handler_ids(self.handlers@);
        let mut k: usize = self.handlers.len();
        while k > 0
            invariant
                k <= self.handlers@.len(),
                handler_ids(self.handlers@) == ids,
                ids == handler_ids(old(self).handlers@),
                self.handlers@.len() == old(self).handlers@.len(),
                forall|j: int| 0 <= j < k ==> #[trigger] self.handlers@[j] == old(self).handlers@[j],
                forall|j: int| k <= j < old(self).handlers@.len() ==> !(#[trigger] old(self).handlers@[j]).1.spec_handles(diag),
            decreases k,
        {
            k = k - 1;
            let ghost before = self.handlers@;
            let res = self.handlers[k].1.handle(diag);
            assert(handler_ids(self.handlers@) =~= handler_ids(before));
            if res.is_success() {
                return res;
            }
        }
        LogicalResult::failure()
    }
}

} // verus!
