//! The print dispatcher: tries the resolved candidate devices one at a time,
//! in order, stops at the first success, never retries a candidate, and
//! aggregates one failure reason per candidate when every attempt fails. The
//! caller performs the actual open/write/close attempt on the device the
//! dispatcher points at and reports the outcome back.

use vstd::prelude::*;
use vstd::string::*;
use crate::resolver::DeviceCandidate;

verus! {

/// Every candidate was attempted and every attempt failed; `reasons` holds
/// one failure reason per candidate, in attempt order.
pub struct AllDevicesFailed {
    pub reasons: Vec<String>,
}

/// The dispatch run over a fixed candidate list: candidates `0..tried` were
/// attempted; either one succeeded (the last attempted) or all failed so far.
pub struct Dispatcher {
    pub candidates: Vec<DeviceCandidate>,
    pub tried: usize,
    pub failures: Vec<String>,
    pub success: Option<String>,
}

impl Dispatcher {
    pub open spec fn wf(&self) -> bool {
        &&& self.tried <= self.candidates@.len()
        &&& match self.success {
            Some(label) => 1 <= self.tried && label@ == self.candidates@[self.tried - 1].name@
                && self.failures@.len() == self.tried - 1,
            None => self.failures@.len() == self.tried,
        }
    }

    /// Terminal: a candidate succeeded, or none is left to try.
    pub open spec fn done(&self) -> bool {
        self.success is Some || self.tried == self.candidates@.len()
    }

    /// Terminal with no success: every candidate was attempted and failed.
    pub open spec fn all_failed(&self) -> bool {
        self.success is None && self.tried == self.candidates@.len()
    }

    /// Starts a dispatch run over the given candidates, none attempted yet.
    pub fn new(candidates: Vec<DeviceCandidate>) -> (r: Dispatcher)
        ensures
            r.wf(),
            r.candidates@ == candidates@,
            r.tried == 0,
            r.failures@.len() == 0,
            r.success is None,
    {
        Dispatcher { candidates, tried: 0, failures: Vec::new(), success: None }
    }

    /// The candidate to attempt next, or `None` once the run is terminal.
    pub fn current(&self) -> (r: Option<&DeviceCandidate>)
        requires
            self.wf(),
        ensures
            match r {
                Some(c) => !self.done() && *c == self.candidates@[self.tried as int],
                None => self.done(),
            },
    {
        if self.success.is_some() {
            None
        } else if self.tried < self.candidates.len() {
            Some(&self.candidates[self.tried])
        } else {
            None
        }
    }

    /// Records that the current candidate accepted the bytes: the run is
    /// terminal and carries that candidate's label.
    pub fn record_success(&mut self)
        requires
            old(self).wf(),
            !old(self).done(),
        ensures
            final(self).wf(),
            final(self).done(),
            !final(self).all_failed(),
            final(self).candidates@ == old(self).candidates@,
            final(self).failures@ == old(self).failures@,
            final(self).tried == old(self).tried + 1,
            final(self).success matches Some(label) && label@ == old(self).candidates@[old(
                self,
            ).tried as int].name@,
    {
        let n = self.candidates.len();
        let label = self.candidates[self.tried].name.clone();
        self.success = Some(label);
        assert(self.tried < n);
        self.tried = self.tried + 1;
    }

    /// Records that the current candidate failed, with its reason; the run
    /// moves to the next candidate, and is terminal exactly when this was
    /// the last one.
    pub fn record_failure(&mut self, reason: String)
        requires
            old(self).wf(),
            !old(self).done(),
        ensures
            final(self).wf(),
            final(self).candidates@ == old(self).candidates@,
            final(self).success is None,
            final(self).tried == old(self).tried + 1,
            final(self).failures@ == old(self).failures@.push(reason),
            final(self).done() <==> old(self).tried + 1 == old(self).candidates@.len(),
            final(self).all_failed() <==> old(self).tried + 1 == old(self).candidates@.len(),
    {
        let n = self.candidates.len();
        self.failures.push(reason);
        assert(self.tried < n);
        self.tried = self.tried + 1;
    }

    /// The outcome of a finished run: the successful device's label, or
    /// `AllDevicesFailed` carrying exactly one reason per candidate, in
    /// attempt order — never a partial success.
    pub fn finish(self) -> (r: Result<String, AllDevicesFailed>)
        requires
            self.wf(),
            self.done(),
        ensures
            r is Err <==> self.all_failed(),
            match r {
                Ok(label) => self.success == Some(label),
                Err(e) => e.reasons@ == self.failures@ && e.reasons@.len()
                    == self.candidates@.len(),
            },
    {
        match self.success {
            Some(label) => Ok(label),
            None => Err(AllDevicesFailed { reasons: self.failures }),
        }
    }
}

/// The user-facing success message for a device label.
pub fn success_message(label: &str) -> (r: String)
    ensures
        r@ == "Berhasil mencetak ke "@ + label@,
{
    let mut s = String::from_str("Berhasil mencetak ke ");
    s.append(label);
    s
}

/// The user-facing message that asks for the generic print-dialog fallback
/// when no thermal device accepted the ticket.
pub fn fallback_message(reason: &str) -> (r: String)
    ensures
        r@ == "Printer thermal tidak ditemukan: "@ + reason@ + ". Gunakan print dialog."@,
{
    let mut s = String::from_str("Printer thermal tidak ditemukan: ");
    s.append(reason);
    s.append(". Gunakan print dialog.");
    s
}

} // verus!
