//! The count behind a semaphore that limits how many tasks run at the same time. Making a task
//! wait, and waking it, is the caller's part.

use vstd::prelude::*;

verus! {

/// A number of permits, some of which are handed out.
#[derive(Debug)]
pub struct Semaphore {
    permits: usize,
    available: usize,
}

/// The permits of a semaphore, and how many of them are available.
pub struct PermitsView {
    pub permits: nat,
    pub available: nat,
}

impl View for Semaphore {
    type V = PermitsView;

    closed spec fn view(&self) -> PermitsView {
        PermitsView { permits: self.permits as nat, available: self.available as nat }
    }
}

impl PermitsView {
    /// There are never more permits available than there are.
    pub open spec fn well_formed(self) -> bool {
        self.available <= self.permits
    }

    /// How many permits are handed out.
    pub open spec fn handed_out(self) -> int {
        self.permits - self.available
    }

    /// Whether a permit can be handed out, and what is left then.
    pub open spec fn acquire(self) -> (PermitsView, bool) {
        if self.available > 0 {
            (PermitsView { available: (self.available - 1) as nat, ..self }, true)
        } else {
            (self, false)
        }
    }

    /// Whether there is room for a permit that is given back, and what is there then.
    pub open spec fn release(self) -> (PermitsView, bool) {
        if self.available < self.permits {
            (PermitsView { available: self.available + 1, ..self }, true)
        } else {
            (self, false)
        }
    }
}

impl Semaphore {
    /// A semaphore with all of its permits available. Without any permit it never hands one out.
    pub fn new(permits: usize) -> (sem: Semaphore)
        ensures
            sem@ == (PermitsView { permits: permits as nat, available: permits as nat }),
            sem@.well_formed(),
    {
        Semaphore { permits, available: permits }
    }

    /// Hands out a permit. If none is available, the answer is `false`, and the caller has to wait
    /// and ask again.
    pub fn acquire(&mut self) -> (granted: bool)
        requires
            old(self)@.well_formed(),
        ensures
            (final(self)@, granted) == old(self)@.acquire(),
            granted == (old(self)@.available > 0),
            final(self)@.permits == old(self)@.permits,
            final(self)@.available == old(self)@.available - (if granted {
                1int
            } else {
                0
            }),
            final(self)@.well_formed(),
    {
        if self.available > 0 {
            self.available -= 1;
            true
        } else {
            false
        }
    }

    /// Takes a permit back. If all of them are there already, the answer is `false`, and the caller
    /// has to wait and ask again.
    pub fn release(&mut self) -> (taken: bool)
        requires
            old(self)@.well_formed(),
        ensures
            (final(self)@, taken) == old(self)@.release(),
            taken == (old(self)@.available < old(self)@.permits),
            final(self)@.permits == old(self)@.permits,
            final(self)@.available == old(self)@.available + (if taken {
                1int
            } else {
                0
            }),
            final(self)@.well_formed(),
    {
        if self.available < self.permits {
            self.available += 1;
            true
        } else {
            false
        }
    }
}

/// Giving a permit back undoes handing it out.
pub proof fn law_release_undoes_acquire(sem: PermitsView)
    requires
        sem.well_formed(),
        sem.available > 0,
    ensures
        sem.acquire().1,
        sem.acquire().0.release() == (sem, true),
{
}

/// The semaphore after as many requests as `requests` is long, each of them for a permit (`true`) or
/// to give one back (`false`).
pub open spec fn after_requests(sem: PermitsView, requests: Seq<bool>) -> PermitsView
    decreases requests.len(),
{
    if requests.len() == 0 {
        sem
    } else {
        let before = after_requests(sem, requests.drop_last());
        if requests.last() {
            before.acquire().0
        } else {
            before.release().0
        }
    }
}

/// However permits are asked for and given back, there are never more of them handed out than there
/// are, and one that is asked for is refused exactly while all of them are.
pub proof fn law_never_more_than_permits(sem: PermitsView, requests: Seq<bool>)
    requires
        sem.well_formed(),
    ensures
        after_requests(sem, requests).permits == sem.permits,
        0 <= after_requests(sem, requests).handed_out() <= sem.permits,
        !after_requests(sem, requests).acquire().1 <==> after_requests(sem, requests).handed_out()
            == sem.permits,
    decreases requests.len(),
{
    if requests.len() > 0 {
        law_never_more_than_permits(sem, requests.drop_last());
    }
}

/// How many of `permits` permits are handed out after `requests`, from the start on: one more for
/// each that is asked for while there is one, one less for each that is given back while there is
/// one handed out.
pub open spec fn out_after(permits: nat, requests: Seq<bool>) -> nat {
    requests.fold_left(
        0nat,
        |out: nat, asked: bool|
            if asked && out < permits {
                out + 1
            } else if !asked && out > 0 {
                (out - 1) as nat
            } else {
                out
            },
    )
}

/// From the start on, a permit is granted exactly while fewer are handed out than there are, and
/// taken back exactly while some are handed out; what is not handed out is available.
pub proof fn law_permits_counted(permits: nat, requests: Seq<bool>)
    ensures
        ({
            let now = after_requests(PermitsView { permits, available: permits }, requests);
            let out = out_after(permits, requests);
            &&& out <= permits
            &&& now.permits == permits
            &&& now.available == permits - out
            &&& now.acquire().1 <==> out < permits
            &&& now.release().1 <==> out > 0
        }),
    decreases requests.len(),
{
    reveal(Seq::fold_left);
    if requests.len() > 0 {
        law_permits_counted(permits, requests.drop_last());
    }
}

} // verus!
