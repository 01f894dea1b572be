//! The dispatch loop's memory of error reports, and the override it gives the
//! next connection.

use vstd::prelude::*;

use crate::http_server::error_as_response;
use crate::http_server::last_two;
use crate::http_server::ErrorPageView;
use crate::http_server::ErrorResponse;
use crate::http_server::Response;
use crate::http_server::ResponseView;

verus! {

/// The response that the next connection receives in place of routing, given
/// the error reports received so far, oldest first. A single report is passed
/// on; of two or more, the latest is passed on if it differs from the one
/// before it; two equal reports in a row pass nothing on.
pub open spec fn override_for(reports: Seq<ErrorPageView>) -> Option<ResponseView> {
    if reports.len() == 0 {
        None
    } else if reports.len() == 1 {
        Some(error_as_response(reports[0]))
    } else if reports[reports.len() - 1] != reports[reports.len() - 2] {
        Some(error_as_response(reports[reports.len() - 1]))
    } else {
        None
    }
}

/// The error reports that the dispatch loop has received in a row.
pub struct ErrorHistory {
    reports: Vec<ErrorResponse>,
}

impl View for ErrorHistory {
    type V = Seq<ErrorPageView>;

    closed spec fn view(&self) -> Seq<ErrorPageView> {
        Seq::new(self.reports@.len(), |i: int| self.reports@[i]@)
    }
}

impl ErrorHistory {
    /// A history without reports.
    pub fn new() -> (history: Self)
        ensures
            history@ == Seq::<ErrorPageView>::empty(),
    {
        let history = ErrorHistory { reports: Vec::new() };
        proof {
            assert(history@ =~= Seq::<ErrorPageView>::empty());
        }
        history
    }

    /// The number of reports held.
    pub fn len(&self) -> (n: usize)
        ensures
            n == self@.len(),
    {
        self.reports.len()
    }

    /// The override for the next connection.
    pub fn next_override(&self) -> (overriding: Option<Response>)
        ensures
            match override_for(self@) {
                Some(response) => overriding matches Some(r) && r@ == response,
                None => overriding is None,
            },
    {
        match last_two(&self.reports) {
            (Some(latest), Some(before)) => {
                if latest != before {
                    Some(Response::from(latest.clone()))
                } else {
                    None
                }
            },
            (Some(latest), None) => Some(Response::from(latest.clone())),
            _ => None,
        }
    }

    /// Takes in what the worker pool answered to a submission: a report joins
    /// the history; without a report the history starts anew.
    pub fn record(&mut self, report: Option<ErrorResponse>)
        ensures
            match report {
                Some(e) => final(self)@ == old(self)@.push(e@),
                None => final(self)@ == Seq::<ErrorPageView>::empty(),
            },
    {
        let ghost before = self@;
        match report {
            Some(e) => {
                self.reports.push(e);
                proof {
                    assert(self@ =~= before.push(e@));
                }
            },
            None => {
                self.reports.clear();
                proof {
                    assert(self@ =~= Seq::<ErrorPageView>::empty());
                }
            },
        }
    }
}

} // verus!
