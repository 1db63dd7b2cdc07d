use vstd::prelude::*;
use std::sync::atomic::AtomicBool;
use std::sync::Arc;

verus! {

/// Why the print controller refused a step.
#[derive(Debug, Clone, Copy, PartialEq, Eq, Structural)]
pub enum PrintControllerError {
    /// Another print job is already active.
    Busy,
    /// The job id space is exhausted.
    IdExhausted,
    /// The job is no longer active.
    NotActive,
}

/// The job that holds the printer, with the flag that cancels it.
pub struct ActivePrint {
    pub id: u64,
    pub cancel: Arc<AtomicBool>,
}

/// The print controller's bookkeeping: at most one job at a time, numbered from 1 upwards.
pub struct PrintReservations {
    active: Option<ActivePrint>,
    next_id: u64,
}

/// The abstract state: the active job's id, if any, and the last id handed out.
pub ghost struct ReservationView {
    pub active: Option<u64>,
    pub last_id: u64,
}

impl View for PrintReservations {
    type V = ReservationView;

    closed spec fn view(&self) -> ReservationView {
        ReservationView {
            active: match self.active {
                Some(a) => Some(a.id),
                None => None,
            },
            last_id: self.next_id,
        }
    }
}

impl PrintReservations {
    /// Only ids that were handed out are ever active, and ids are never zero.
    pub closed spec fn wf(&self) -> bool {
        self.active matches Some(a) ==> 1 <= a.id <= self.next_id
    }

    pub fn new() -> (r: Self)
        ensures
            r.wf(),
            r@ == (ReservationView { active: None, last_id: 0 }),
    {
        PrintReservations { active: None, next_id: 0 }
    }

    /// Reserves the printer for a new job with the next id.
    pub fn reserve_job(&mut self) -> (r: Result<u64, PrintControllerError>)
        requires
            old(self).wf(),
        ensures
            final(self).wf(),
            old(self)@.active is Some ==> r == Err::<u64, _>(PrintControllerError::Busy)
                && final(self)@ == old(self)@,
            old(self)@.active is None && old(self)@.last_id == u64::MAX ==> r == Err::<u64, _>(
                PrintControllerError::IdExhausted,
            ) && final(self)@ == old(self)@,
            old(self)@.active is None && old(self)@.last_id < u64::MAX ==> r == Ok::<
                u64,
                PrintControllerError,
            >((old(self)@.last_id + 1) as u64) && final(self)@ == (ReservationView {
                active: Some((old(self)@.last_id + 1) as u64),
                last_id: (old(self)@.last_id + 1) as u64,
            }),
    {
        if self.active.is_some() {
            return Err(PrintControllerError::Busy);
        }
        if self.next_id == u64::MAX {
            return Err(PrintControllerError::IdExhausted);
        }
        self.next_id = self.next_id + 1;
        let id = self.next_id;
        self.active = Some(ActivePrint { id, cancel: Arc::new(AtomicBool::new(false)) });
        Ok(id)
    }

    /// Gives up a reservation; a second release of the same id changes nothing.
    pub fn release_reservation(&mut self, id: u64)
        requires
            old(self).wf(),
        ensures
            final(self).wf(),
            final(self)@.last_id == old(self)@.last_id,
            final(self)@.active == if old(self)@.active == Some(id) {
                None
            } else {
                old(self)@.active
            },
    {
        let hit = match &self.active {
            Some(a) => a.id == id,
            None => false,
        };
        if hit {
            self.active = None;
        }
    }

    /// The cancellation flag of the job `id`, when it is the active one.
    pub fn cancel_flag(&self, id: u64) -> (r: Result<Arc<AtomicBool>, PrintControllerError>)
        ensures
            r is Ok <==> self@.active == Some(id),
            r matches Err(e) ==> e == PrintControllerError::NotActive,
    {
        match &self.active {
            Some(a) => if a.id == id {
                Ok(a.cancel.clone())
            } else {
                Err(PrintControllerError::NotActive)
            },
            None => Err(PrintControllerError::NotActive),
        }
    }

    /// Forgets the active job (its submission failed, or the controller shuts down).
    pub fn abandon(&mut self)
        requires
            old(self).wf(),
        ensures
            final(self).wf(),
            final(self)@ == (ReservationView { active: None, last_id: old(self)@.last_id }),
    {
        self.active = None;
    }

    /// Asks the active job to stop; says whether there was one.
    pub fn cancel(&self) -> (r: bool)
        ensures
            r == self@.active is Some,
    {
        match &self.active {
            Some(a) => {
                a.cancel.store(true, std::sync::atomic::Ordering::Release);
                true
            },
            None => false,
        }
    }

    pub fn is_active(&self) -> (r: bool)
        ensures
            r == self@.active is Some,
    {
        self.active.is_some()
    }

    /// Whether a worker event is passed on: only events of the active job are; a terminal
    /// one ends the job.
    pub fn admit_event(&mut self, job_id: u64, terminal: bool) -> (r: bool)
        requires
            old(self).wf(),
        ensures
            final(self).wf(),
            r == (old(self)@.active == Some(job_id)),
            final(self)@ == if r && terminal {
                ReservationView { active: None, last_id: old(self)@.last_id }
            } else {
                old(self)@
            },
    {
        let hit = match &self.active {
            Some(a) => a.id == job_id,
            None => false,
        };
        if hit && terminal {
            self.active = None;
        }
        hit
    }
}

} // verus!
