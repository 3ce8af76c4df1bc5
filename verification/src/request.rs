use vstd::prelude::*;

use crate::errors::{AcqError, Error};
use crate::legs::{Main, Tcell, Ucell};

verus! {

/// What one acquisition leg has come to: still running, finished with a
/// typed result, or terminated abnormally (its execution unit crashed rather
/// than returning).
#[derive(Debug, PartialEq, Eq)]
pub enum LegState<T> {
    /// The leg has not completed yet.
    Pending,
    /// The leg returned: a decoded value or a typed acquisition failure.
    Done(Result<T, AcqError>),
    /// The leg's execution unit terminated abnormally.
    Crashed,
}

/// The complete result of one successful poll cycle.  Immutable once built;
/// a new cycle replaces it wholesale.
#[derive(Clone, Debug, PartialEq, Eq)]
pub struct Data {
    /// Pack-level readings.
    pub main: Main,
    /// Cell-voltage report.
    pub ucell: Ucell,
    /// Cell-temperature report.
    pub tcell: Tcell,
}

/// One in-flight poll cycle: the three legs' completion states.  The caller
/// records each leg's outcome as it is observed, polls `is_finished`, and
/// finally consumes the request with `join`.
pub struct Request {
    /// The main-panel leg.
    pub main: LegState<Main>,
    /// The cell-voltage leg.
    pub ucell: LegState<Ucell>,
    /// The cell-temperature leg.
    pub tcell: LegState<Tcell>,
}

/// How a finished cycle combines: the first leg (in main, cell-voltage,
/// cell-temperature order) that crashed makes the cycle `Unexpected`, the
/// first that failed makes it `Fetch` of that failure, and otherwise the
/// three decoded parts form the snapshot.
pub open spec fn join_spec(req: Request) -> Result<Data, Error>
    recommends
        !(req.main is Pending),
        !(req.ucell is Pending),
        !(req.tcell is Pending),
{
    match req.main {
        LegState::Pending => Err(Error::Unexpected),
        LegState::Crashed => Err(Error::Unexpected),
        LegState::Done(Err(e)) => Err(Error::Fetch(e)),
        LegState::Done(Ok(m)) => match req.ucell {
            LegState::Pending => Err(Error::Unexpected),
            LegState::Crashed => Err(Error::Unexpected),
            LegState::Done(Err(e)) => Err(Error::Fetch(e)),
            LegState::Done(Ok(u)) => match req.tcell {
                LegState::Pending => Err(Error::Unexpected),
                LegState::Crashed => Err(Error::Unexpected),
                LegState::Done(Err(e)) => Err(Error::Fetch(e)),
                LegState::Done(Ok(t)) => Ok(Data { main: m, ucell: u, tcell: t }),
            },
        },
    }
}

impl Request {
    /// A fresh cycle with every leg outstanding.
    pub fn new() -> (r: Request)
        ensures
            r.main is Pending,
            r.ucell is Pending,
            r.tcell is Pending,
    {
        Request { main: LegState::Pending, ucell: LegState::Pending, tcell: LegState::Pending }
    }

    /// Records the outcome of the main-panel leg.
    pub fn complete_main(&mut self, s: LegState<Main>)
        requires
            old(self).main is Pending,
            !(s is Pending),
        ensures
            final(self).main == s,
            final(self).ucell == old(self).ucell,
            final(self).tcell == old(self).tcell,
    {
        self.main = s;
    }

    /// Records the outcome of the cell-voltage leg.
    pub fn complete_ucell(&mut self, s: LegState<Ucell>)
        requires
            old(self).ucell is Pending,
            !(s is Pending),
        ensures
            final(self).ucell == s,
            final(self).main == old(self).main,
            final(self).tcell == old(self).tcell,
    {
        self.ucell = s;
    }

    /// Records the outcome of the cell-temperature leg.
    pub fn complete_tcell(&mut self, s: LegState<Tcell>)
        requires
            old(self).tcell is Pending,
            !(s is Pending),
        ensures
            final(self).tcell == s,
            final(self).main == old(self).main,
            final(self).ucell == old(self).ucell,
    {
        self.tcell = s;
    }

    /// Whether the cycle is done: false while any leg is outstanding, true
    /// exactly when all three legs have completed (with whatever outcome).
    pub fn is_finished(&self) -> (r: bool)
        ensures
            r == (!(self.main is Pending) && !(self.ucell is Pending) && !(self.tcell is Pending)),
    {
        let main_done = !matches!(self.main, LegState::Pending);
        let ucell_done = !matches!(self.ucell, LegState::Pending);
        let tcell_done = !matches!(self.tcell, LegState::Pending);
        main_done && ucell_done && tcell_done
    }

    /// Consumes the finished cycle and combines the legs: the snapshot when
    /// every leg succeeded, otherwise the first-discovered failure.
    pub fn join(self) -> (r: Result<Data, Error>)
        requires
            !(self.main is Pending),
            !(self.ucell is Pending),
            !(self.tcell is Pending),
        ensures
            r == join_spec(self),
    {
        let main = match self.main {
            LegState::Pending => {
                return Err(Error::Unexpected);
            },
            LegState::Crashed => {
                return Err(Error::Unexpected);
            },
            LegState::Done(Err(e)) => {
                return Err(Error::Fetch(e));
            },
            LegState::Done(Ok(m)) => m,
        };
        let ucell = match self.ucell {
            LegState::Pending => {
                return Err(Error::Unexpected);
            },
            LegState::Crashed => {
                return Err(Error::Unexpected);
            },
            LegState::Done(Err(e)) => {
                return Err(Error::Fetch(e));
            },
            LegState::Done(Ok(u)) => u,
        };
        let tcell = match self.tcell {
            LegState::Pending => {
                return Err(Error::Unexpected);
            },
            LegState::Crashed => {
                return Err(Error::Unexpected);
            },
            LegState::Done(Err(e)) => {
                return Err(Error::Fetch(e));
            },
            LegState::Done(Ok(t)) => t,
        };
        Ok(Data { main, ucell, tcell })
    }
}

} // verus!
