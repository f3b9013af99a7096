//! Publishing the workspace's packages one by one, in the configured order,
//! stopping at the first failure.
//!
//! The upload itself is outside this library: [`PublishRun`] says which
//! package to publish next, the caller publishes it and records how that
//! went, until the run says that it is done.
use vstd::prelude::*;

verus! {

/// How the publishing of one package went.
#[derive(Debug, Clone, PartialEq, Eq)]
pub enum PublishOutcome {
    /// The package was published.
    Succeeded(String),
    /// The package was not published; the second field says why.
    Failed(String, String),
}

/// The mathematical value of a [`PublishOutcome`].
pub ghost enum OutcomeView {
    Succeeded(Seq<char>),
    Failed(Seq<char>, Seq<char>),
}

impl View for PublishOutcome {
    type V = OutcomeView;

    open spec fn view(&self) -> OutcomeView {
        match self {
            PublishOutcome::Succeeded(p) => OutcomeView::Succeeded(p@),
            PublishOutcome::Failed(p, why) => OutcomeView::Failed(p@, why@),
        }
    }
}

/// The package that an outcome is about.
pub open spec fn outcome_package(o: OutcomeView) -> Seq<char> {
    match o {
        OutcomeView::Succeeded(p) => p,
        OutcomeView::Failed(p, _) => p,
    }
}

/// The outcome of publishing `package` with the given result of the upload.
pub open spec fn outcome_of(package: Seq<char>, result: Result<(), Seq<char>>) -> OutcomeView {
    match result {
        Ok(()) => OutcomeView::Succeeded(package),
        Err(why) => OutcomeView::Failed(package, why),
    }
}

/// The mathematical value of a [`PublishRun`]: the packages in publishing
/// order and the outcomes recorded so far.
pub ghost struct PublishRunView {
    pub packages: Seq<Seq<char>>,
    pub outcomes: Seq<OutcomeView>,
}

impl PublishRunView {
    /// The run has stopped at a failure.
    pub open spec fn halted(self) -> bool {
        self.outcomes.len() > 0 && self.outcomes.last() is Failed
    }

    /// Nothing is left to publish: every package has an outcome, or the run
    /// has stopped at a failure.
    pub open spec fn done(self) -> bool {
        self.halted() || self.outcomes.len() == self.packages.len()
    }

    /// The outcomes are about the first packages, one each and in order,
    /// and every outcome but the last is a success.
    pub open spec fn well_formed(self) -> bool {
        &&& self.outcomes.len() <= self.packages.len()
        &&& forall|i: int| 0 <= i < self.outcomes.len()
            ==> outcome_package(#[trigger] self.outcomes[i]) == self.packages[i]
        &&& forall|i: int| 0 <= i < self.outcomes.len() - 1 ==> #[trigger] self.outcomes[i] is Succeeded
    }
}

/// A fail-fast publishing run over an ordered list of packages.
#[derive(Debug, Clone)]
pub struct PublishRun {
    packages: Vec<String>,
    outcomes: Vec<PublishOutcome>,
}

impl View for PublishRun {
    type V = PublishRunView;

    closed spec fn view(&self) -> PublishRunView {
        PublishRunView {
            packages: self.packages@.map_values(|p: String| p@),
            outcomes: self.outcomes@.map_values(|o: PublishOutcome| o@),
        }
    }
}

impl PublishRun {
    /// A run over the packages in the order given, with nothing published yet.
    pub fn new(packages: Vec<String>) -> (r: PublishRun)
        ensures
            r@.well_formed(),
            r@.packages == packages@.map_values(|p: String| p@),
            r@.outcomes.len() == 0,
    {
        PublishRun { packages, outcomes: Vec::new() }
    }

    /// The package to publish next: the first one without an outcome, unless
    /// the run is done.
    pub fn next_package(&self) -> (r: Option<String>)
        requires
            self@.well_formed(),
        ensures
            r is Some <==> !self@.done(),
            r matches Some(p) ==> p@ == self@.packages[self@.outcomes.len() as int],
    {
        let k = self.outcomes.len();
        if k > 0 {
            match &self.outcomes[k - 1] {
                PublishOutcome::Failed(_, _) => return None,
                PublishOutcome::Succeeded(_) => {},
            }
        }
        if k < self.packages.len() {
            Some(self.packages[k].clone())
        } else {
            None
        }
    }

    /// Records how publishing the next package went: `Ok` where it was
    /// published, else the reason it was not. A failure ends the run.
    pub fn record(&mut self, result: Result<(), String>)
        requires
            old(self)@.well_formed(),
            !old(self)@.done(),
        ensures
            final(self)@.well_formed(),
            final(self)@.packages == old(self)@.packages,
            final(self)@.outcomes == old(self)@.outcomes.push(outcome_of(
                old(self)@.packages[old(self)@.outcomes.len() as int],
                match result {
                    Ok(()) => Ok(()),
                    Err(why) => Err(why@),
                },
            )),
    {
        let k = self.outcomes.len();
        let package = self.packages[k].clone();
        let outcome = match result {
            Ok(()) => PublishOutcome::Succeeded(package),
            Err(why) => PublishOutcome::Failed(package, why),
        };
        self.outcomes.push(outcome);
        proof {
            assert(self@.outcomes =~= old(self)@.outcomes.push(outcome@));
            assert(self@.packages =~= old(self)@.packages);
        }
    }

    /// Whether nothing is left to publish.
    pub fn is_done(&self) -> (r: bool)
        requires
            self@.well_formed(),
        ensures
            r == self@.done(),
    {
        let k = self.outcomes.len();
        if k > 0 {
            match &self.outcomes[k - 1] {
                PublishOutcome::Failed(_, _) => return true,
                PublishOutcome::Succeeded(_) => {},
            }
        }
        k == self.packages.len()
    }

    /// The outcomes recorded so far, in publishing order.
    pub fn outcomes(&self) -> (r: &Vec<PublishOutcome>)
        ensures
            r@.map_values(|o: PublishOutcome| o@) == self@.outcomes,
    {
        &self.outcomes
    }
}

} // verus!
