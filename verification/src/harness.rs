//! The decisions of a driver's entry point, apart from its input and output.
//!
//! A driver either lists its registrations (when `--list` is among its
//! arguments) or reads a run specification and measures its cases in order:
//! each case is dispatched to a registration, measured, and its point
//! written, and the first failure ends the run with an exit code. A
//! [`Session`] makes those decisions; the caller performs each [`Action`] and
//! reports how it went.
use vstd::prelude::*;
use crate::registry::{Listing, find, first_serving, listed, pairs_sorted, pairs_view, registrations_view, lemma_first_serving, serves};

verus! {

/// The six drivers, which differ in how they list, dispatch and fail.
#[derive(Clone, Copy, Debug, PartialEq, Eq, Structural)]
pub enum Driver {
    /// kd-tree: one registration serving every case.
    KdTree,
    /// kdtree: registrations per coordinate type.
    Kdtree,
    /// kiddo 5.x: one registration per monomorphisation.
    KiddoV5,
    /// kiddo 6: one registration per monomorphisation.
    KiddoV6,
    /// neighbourhood: the first registration serves every case.
    Neighbourhood,
    /// spade: the first registration serves every case.
    Spade,
}

/// How a driver picks the registration for a case.
#[derive(Clone, Copy, Debug, PartialEq, Eq, Structural)]
pub enum Dispatch {
    /// The first registration whose compile-time pairs the case's tags hold.
    Matching,
    /// The only registration; a driver built with another number refuses.
    OnlyOne,
    /// The first registration, unconditionally.
    First,
}

impl Driver {
    pub open spec fn spec_listing(self) -> Listing {
        match self {
            Driver::Kdtree => Listing::AsDeclared,
            Driver::KiddoV5 | Driver::KiddoV6 => Listing::Sorted,
            _ => Listing::Empty,
        }
    }

    /// How the driver lists its registrations.
    pub fn listing(self) -> (style: Listing)
        ensures
            style == self.spec_listing(),
    {
        match self {
            Driver::Kdtree => Listing::AsDeclared,
            Driver::KiddoV5 | Driver::KiddoV6 => Listing::Sorted,
            _ => Listing::Empty,
        }
    }

    pub open spec fn spec_dispatch(self) -> Dispatch {
        match self {
            Driver::Kdtree | Driver::KiddoV5 | Driver::KiddoV6 => Dispatch::Matching,
            Driver::KdTree => Dispatch::OnlyOne,
            Driver::Neighbourhood | Driver::Spade => Dispatch::First,
        }
    }

    /// How the driver picks a case's registration.
    pub fn dispatch(self) -> (how: Dispatch)
        ensures
            how == self.spec_dispatch(),
    {
        match self {
            Driver::Kdtree | Driver::KiddoV5 | Driver::KiddoV6 => Dispatch::Matching,
            Driver::KdTree => Dispatch::OnlyOne,
            Driver::Neighbourhood | Driver::Spade => Dispatch::First,
        }
    }

    /// The kiddo drivers report a failed write of a point by itself; the
    /// others report it as a failed case.
    pub open spec fn separates_write_failures(self) -> bool {
        self == Driver::KiddoV5 || self == Driver::KiddoV6
    }
}

/// How a run ends.
#[derive(Clone, Copy, Debug, PartialEq, Eq, Structural)]
pub enum Exit {
    /// Every point was written, or the listing was.
    Success,
    /// The run specification could not be read.
    BadSpec,
    /// No registration serves the case.
    NoRegistration { case: usize },
    /// The listing could not be written.
    ListingFailed,
    /// Measuring the case failed.
    CaseFailed { case: usize },
    /// Writing the case's point failed.
    WriteFailed { case: usize },
}

pub open spec fn spec_exit_code(driver: Driver, exit: Exit) -> u8 {
    match exit {
        Exit::Success => 0,
        Exit::BadSpec => 2,
        Exit::NoRegistration { .. } => 3,
        Exit::ListingFailed => 4,
        Exit::CaseFailed { .. } => 5,
        Exit::WriteFailed { .. } => if driver.separates_write_failures() {
            4
        } else {
            5
        },
    }
}

/// The process exit code for how the run ended: 0 for success only.
pub fn exit_code(driver: Driver, exit: Exit) -> (code: u8)
    ensures
        code == spec_exit_code(driver, exit),
        code == 0 <==> exit == Exit::Success,
{
    match exit {
        Exit::Success => 0,
        Exit::BadSpec => 2,
        Exit::NoRegistration { .. } => 3,
        Exit::ListingFailed => 4,
        Exit::CaseFailed { .. } => 5,
        Exit::WriteFailed { .. } => match driver {
            Driver::KiddoV5 | Driver::KiddoV6 => 4,
            _ => 5,
        },
    }
}

/// Whether `--list` is among the arguments.
pub fn wants_listing(args: &Vec<String>) -> (list: bool)
    ensures
        list == exists|i: int| 0 <= i < args@.len() && #[trigger] args@[i]@ == "--list"@,
{
    let flag = "--list".to_owned();
    let mut i: usize = 0;
    while i < args.len()
        invariant
            i <= args@.len(),
            flag@ == "--list"@,
            forall|j: int| 0 <= j < i ==> #[trigger] args@[j]@ != "--list"@,
        decreases args@.len() - i,
    {
        if args[i] == flag {
            return true;
        }
        i += 1;
    }
    false
}

/// What the caller is to do next.
#[derive(Clone, Copy, Debug, PartialEq, Eq, Structural)]
pub enum Action {
    /// Run `registration` on case `case`.
    Measure { case: usize, registration: usize },
    /// Write the point just measured for case `case`.
    Write { case: usize },
    /// Stop, with this outcome.
    Finish(Exit),
}

/// Where a session stands.
#[derive(Clone, Copy, Debug, PartialEq, Eq, Structural)]
pub enum Phase {
    /// Between cases.
    Ready,
    /// A case is being measured.
    Measuring,
    /// A measured case's point is being written.
    Writing,
    /// The run has ended.
    Done,
}

/// The registration `driver` picks for a case with `tags`, if any.
pub open spec fn chosen(driver: Driver, registrations: Seq<Seq<(Seq<char>, Seq<char>)>>, tags: Seq<(Seq<char>, Seq<char>)>) -> Option<int> {
    match driver.spec_dispatch() {
        Dispatch::Matching => first_serving(registrations, tags),
        Dispatch::OnlyOne => if registrations.len() == 1 {
            Some(0)
        } else {
            None
        },
        Dispatch::First => Some(0),
    }
}

/// The measurement loop of one run: the cases, in order, each to be measured
/// and its point written.
pub struct Session {
    driver: Driver,
    registrations: Vec<Vec<(String, String)>>,
    cases: Vec<Vec<(String, String)>>,
    count: usize,
    written: usize,
    phase: Phase,
}

impl Session {
    pub closed spec fn driver(&self) -> Driver {
        self.driver
    }

    /// The registrations' compile-time pairs.
    pub closed spec fn registrations(&self) -> Seq<Seq<(Seq<char>, Seq<char>)>> {
        registrations_view(self.registrations@)
    }

    /// Each case's tags.
    pub closed spec fn cases(&self) -> Seq<Seq<(Seq<char>, Seq<char>)>> {
        registrations_view(self.cases@)
    }

    /// How many cases have had their point written; the case in hand, if
    /// any, is the next one.
    pub closed spec fn written(&self) -> nat {
        self.written as nat
    }

    pub closed spec fn phase(&self) -> Phase {
        self.phase
    }

    /// What the session keeps: the count of written points never exceeds
    /// the number of cases, a case is in hand only while one remains, and a
    /// driver that takes the first registration has one whenever a case
    /// remains.
    pub closed spec fn wf(&self) -> bool {
        &&& self.count == self.cases@.len()
        &&& self.written <= self.cases@.len()
        &&& (self.phase == Phase::Measuring || self.phase == Phase::Writing) ==> self.written < self.cases@.len()
        &&& self.driver.spec_dispatch() == Dispatch::First && self.written < self.cases@.len() ==> self.registrations@.len() > 0
    }

    /// The registration picked for the case in hand.
    pub open spec fn choice(&self) -> Option<int> {
        chosen(self.driver(), self.registrations(), self.cases()[self.written() as int])
    }

    /// Starts a run over `cases`, none measured yet.
    pub fn new(driver: Driver, registrations: Vec<Vec<(String, String)>>, cases: Vec<Vec<(String, String)>>) -> (s: Session)
        requires
            driver.spec_dispatch() == Dispatch::First && cases@.len() > 0 ==> registrations@.len() > 0,
        ensures
            s.wf(),
            s.driver() == driver,
            s.registrations() == registrations_view(registrations@),
            s.cases() == registrations_view(cases@),
            s.written() == 0,
            s.phase() == Phase::Ready,
    {
        let count = cases.len();
        Session { driver, registrations, cases, count, written: 0, phase: Phase::Ready }
    }

    /// Takes up the next case: finishes with success when none remains,
    /// refuses the case when no registration serves it, and otherwise asks
    /// for it to be measured by the registration the driver picks.
    fn advance(&mut self) -> (action: Action)
        requires
            old(self).wf(),
            old(self).phase() == Phase::Ready,
        ensures
            final(self).wf(),
            final(self).driver() == old(self).driver(),
            final(self).registrations() == old(self).registrations(),
            final(self).cases() == old(self).cases(),
            final(self).written() == old(self).written(),
            old(self).written() == old(self).cases().len() ==> action == Action::Finish(Exit::Success) && final(self).phase() == Phase::Done,
            old(self).written() < old(self).cases().len() ==> match old(self).choice() {
                None => action == Action::Finish(Exit::NoRegistration { case: old(self).written() as usize }) && final(self).phase() == Phase::Done,
                Some(r) => action == (Action::Measure { case: old(self).written() as usize, registration: r as usize }) && final(self).phase() == Phase::Measuring,
            },
    {
        if self.written == self.count {
            self.phase = Phase::Done;
            return Action::Finish(Exit::Success);
        }
        let case = self.written;
        let ghost regs = registrations_view(self.registrations@);
        let ghost cases = registrations_view(self.cases@);
        assert(cases[case as int] == pairs_view(self.cases@[case as int]@));
        let picked = match self.driver.dispatch() {
            Dispatch::Matching => find(&self.registrations, &self.cases[case]),
            Dispatch::OnlyOne => if self.registrations.len() == 1 {
                Some(0)
            } else {
                None
            },
            Dispatch::First => Some(0),
        };
        match picked {
            None => {
                self.phase = Phase::Done;
                Action::Finish(Exit::NoRegistration { case })
            },
            Some(registration) => {
                self.phase = Phase::Measuring;
                Action::Measure { case, registration }
            },
        }
    }

    /// The first action of the run.
    pub fn start(&mut self) -> (action: Action)
        requires
            old(self).wf(),
            old(self).phase() == Phase::Ready,
        ensures
            final(self).wf(),
            final(self).driver() == old(self).driver(),
            final(self).registrations() == old(self).registrations(),
            final(self).cases() == old(self).cases(),
            final(self).written() == old(self).written(),
            old(self).written() == old(self).cases().len() ==> action == Action::Finish(Exit::Success) && final(self).phase() == Phase::Done,
            old(self).written() < old(self).cases().len() ==> match old(self).choice() {
                None => action == Action::Finish(Exit::NoRegistration { case: old(self).written() as usize }) && final(self).phase() == Phase::Done,
                Some(r) => action == (Action::Measure { case: old(self).written() as usize, registration: r as usize }) && final(self).phase() == Phase::Measuring,
            },
    {
        self.advance()
    }

    /// The case in hand was measured (`ok`) or failed: write its point, or
    /// end the run.
    pub fn measured(&mut self, ok: bool) -> (action: Action)
        requires
            old(self).wf(),
            old(self).phase() == Phase::Measuring,
        ensures
            final(self).wf(),
            final(self).driver() == old(self).driver(),
            final(self).registrations() == old(self).registrations(),
            final(self).cases() == old(self).cases(),
            final(self).written() == old(self).written(),
            ok ==> action == (Action::Write { case: old(self).written() as usize }) && final(self).phase() == Phase::Writing,
            !ok ==> action == Action::Finish(Exit::CaseFailed { case: old(self).written() as usize }) && final(self).phase() == Phase::Done,
    {
        if ok {
            self.phase = Phase::Writing;
            Action::Write { case: self.written }
        } else {
            self.phase = Phase::Done;
            Action::Finish(Exit::CaseFailed { case: self.written })
        }
    }

    /// The point of the case in hand was written (`ok`) or not: take up the
    /// next case, or end the run.
    pub fn wrote(&mut self, ok: bool) -> (action: Action)
        requires
            old(self).wf(),
            old(self).phase() == Phase::Writing,
        ensures
            final(self).wf(),
            final(self).driver() == old(self).driver(),
            final(self).registrations() == old(self).registrations(),
            final(self).cases() == old(self).cases(),
            !ok ==> action == Action::Finish(Exit::WriteFailed { case: old(self).written() as usize }) && final(self).phase() == Phase::Done
                && final(self).written() == old(self).written(),
            ok ==> final(self).written() == old(self).written() + 1,
            ok && final(self).written() == final(self).cases().len() ==> action == Action::Finish(Exit::Success) && final(self).phase() == Phase::Done,
            ok && final(self).written() < final(self).cases().len() ==> match final(self).choice() {
                None => action == Action::Finish(Exit::NoRegistration { case: (old(self).written() + 1) as usize }) && final(self).phase() == Phase::Done,
                Some(r) => action == (Action::Measure { case: (old(self).written() + 1) as usize, registration: r as usize }) && final(self).phase() == Phase::Measuring,
            },
    {
        if ok {
            self.written = self.written + 1;
            self.phase = Phase::Ready;
            self.advance()
        } else {
            self.phase = Phase::Done;
            Action::Finish(Exit::WriteFailed { case: self.written })
        }
    }
}

/// A case is measured only by a registration that exists and, for a driver
/// that matches, serves the case and is the first to.
pub proof fn lemma_chosen_registration_serves(driver: Driver, registrations: Seq<Seq<(Seq<char>, Seq<char>)>>, tags: Seq<(Seq<char>, Seq<char>)>)
    requires
        driver.spec_dispatch() == Dispatch::First ==> registrations.len() > 0,
    ensures
        chosen(driver, registrations, tags) matches Some(r) ==> 0 <= r < registrations.len(),
        driver.spec_dispatch() == Dispatch::Matching ==> match chosen(driver, registrations, tags) {
            Some(r) => serves(registrations[r], tags) && forall|j: int| 0 <= j < r ==> !serves(#[trigger] registrations[j], tags),
            None => forall|j: int| 0 <= j < registrations.len() ==> !serves(#[trigger] registrations[j], tags),
        },
{
    lemma_first_serving(registrations, tags);
}


/// What each driver prints for `--list`, for any registration: the kiddo
/// drivers print its pairs in `(String, String)` order, whatever order they
/// were declared in; kdtree prints them as declared; kd-tree, neighbourhood
/// and spade print no pairs.
pub proof fn lemma_listing_per_driver(driver: Driver, declared: Seq<(Seq<char>, Seq<char>)>, entry: Seq<(Seq<char>, Seq<char>)>)
    requires
        listed(driver.spec_listing(), declared, entry),
    ensures
        driver == Driver::KiddoV5 || driver == Driver::KiddoV6 ==> pairs_sorted(entry) && entry.to_multiset() == declared.to_multiset(),
        driver == Driver::Kdtree ==> entry == declared,
        driver == Driver::KdTree || driver == Driver::Neighbourhood || driver == Driver::Spade ==> entry.len() == 0,
{
}

/// How each driver picks the registration for a case, for any registrations
/// and tags: kdtree and both kiddo drivers take the first registration that
/// serves the case (and none when none does), so what they measure a case
/// with always serves it; kd-tree takes its only registration, and refuses
/// when it has another number; neighbourhood and spade take the first.
pub proof fn lemma_dispatch_per_driver(driver: Driver, registrations: Seq<Seq<(Seq<char>, Seq<char>)>>, tags: Seq<(Seq<char>, Seq<char>)>)
    ensures
        driver == Driver::Kdtree || driver == Driver::KiddoV5 || driver == Driver::KiddoV6 ==> {
            &&& chosen(driver, registrations, tags) == first_serving(registrations, tags)
            &&& chosen(driver, registrations, tags) matches Some(r) ==> 0 <= r < registrations.len() && serves(registrations[r], tags)
            &&& chosen(driver, registrations, tags) is None ==> forall|j: int| 0 <= j < registrations.len() ==> !serves(#[trigger] registrations[j], tags)
        },
        driver == Driver::KdTree ==> chosen(driver, registrations, tags) == if registrations.len() == 1 { Some(0int) } else { None },
        driver == Driver::Neighbourhood || driver == Driver::Spade ==> chosen(driver, registrations, tags) == Some(0int),
{
    lemma_first_serving(registrations, tags);
}

/// The exit code of every outcome, for every driver: 0 for success, 2 for a
/// bad specification, 3 for a case no registration serves, 4 for a failed
/// listing, 5 for a failed case; a failed point write gives 4 on the kiddo
/// drivers and 5 on the others.
pub proof fn lemma_exit_codes(driver: Driver, case: usize)
    ensures
        spec_exit_code(driver, Exit::Success) == 0,
        spec_exit_code(driver, Exit::BadSpec) == 2,
        spec_exit_code(driver, Exit::NoRegistration { case }) == 3,
        spec_exit_code(driver, Exit::ListingFailed) == 4,
        spec_exit_code(driver, Exit::CaseFailed { case }) == 5,
        spec_exit_code(driver, Exit::WriteFailed { case }) == if driver == Driver::KiddoV5 || driver == Driver::KiddoV6 { 4u8 } else { 5u8 },
{
}

} // verus!
