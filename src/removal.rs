//! Removing and restoring packages. A removal first uninstalls the package for
//! the current user and, when that fails, disables it instead; a batch removes
//! its packages one after the other, in order, whatever each comes to.
//!
//! Nothing here asks before removing a critical package: the caller does so
//! before starting a removal.
use vstd::prelude::*;
use crate::bridge::{disable_args, install_existing_args, string_views, uninstall_args};

verus! {

/// What became of one package.
#[derive(Clone, Copy, Debug, PartialEq, Eq, Structural)]
pub enum Outcome {
    Removed,
    Disabled,
    Restored,
    Failed,
}

/// Where a removal stands.
#[derive(Clone, Copy, Debug, PartialEq, Eq, Structural)]
pub enum Step {
    /// The uninstall command is due.
    Uninstall,
    /// Uninstalling failed; the disable command is due.
    Disable,
    /// Nothing more is due.
    Done(Outcome),
}

/// The step after the due command answered `succeeded`.
pub open spec fn next_step(step: Step, succeeded: bool) -> Step {
    match step {
        Step::Uninstall => if succeeded {
            Step::Done(Outcome::Removed)
        } else {
            Step::Disable
        },
        Step::Disable => if succeeded {
            Step::Done(Outcome::Disabled)
        } else {
            Step::Done(Outcome::Failed)
        },
        Step::Done(o) => Step::Done(o),
    }
}

/// The command that a removal of `package` at `step` is due to run.
pub open spec fn step_command(package: Seq<char>, step: Step) -> Option<Seq<Seq<char>>> {
    match step {
        Step::Uninstall => Some(seq!["shell"@, "pm"@, "uninstall"@, "--user"@, "0"@, package]),
        Step::Disable => Some(seq!["shell"@, "pm"@, "disable-user"@, "--user"@, "0"@, package]),
        Step::Done(_) => None,
    }
}

/// The removal of one package.
#[derive(Debug)]
pub struct Removal {
    pub package: String,
    pub step: Step,
}

impl Removal {
    /// A removal of `package`, with the uninstall command due.
    pub fn new(package: &str) -> (r: Removal)
        ensures
            r.package@ == package@,
            r.step == Step::Uninstall,
    {
        Removal { package: String::from_str(package), step: Step::Uninstall }
    }

    /// The command that is due, if any.
    pub fn command(&self) -> (r: Option<Vec<String>>)
        ensures
            r is Some == step_command(self.package@, self.step) is Some,
            r matches Some(a) ==> Some(string_views(a@)) == step_command(self.package@, self.step),
    {
        match self.step {
            Step::Uninstall => Some(uninstall_args(self.package.as_str())),
            Step::Disable => Some(disable_args(self.package.as_str())),
            Step::Done(_) => None,
        }
    }

    /// Takes the answer of the due command.
    pub fn report(&mut self, succeeded: bool)
        requires
            !(old(self).step is Done),
        ensures
            final(self).step == next_step(old(self).step, succeeded),
            final(self).package == old(self).package,
    {
        self.step = match self.step {
            Step::Uninstall => if succeeded {
                Step::Done(Outcome::Removed)
            } else {
                Step::Disable
            },
            Step::Disable => if succeeded {
                Step::Done(Outcome::Disabled)
            } else {
                Step::Done(Outcome::Failed)
            },
            Step::Done(o) => Step::Done(o),
        };
    }

    /// What the removal came to, once it is done.
    pub fn outcome(&self) -> (r: Option<Outcome>)
        ensures
            r == (match self.step {
                Step::Done(o) => Some(o),
                _ => None,
            }),
    {
        match self.step {
            Step::Done(o) => Some(o),
            _ => None,
        }
    }
}

/// What a removal comes to from the two answers; the second is not asked for
/// when the first succeeded.
pub open spec fn removal_outcome(uninstalled: bool, disabled: bool) -> Outcome {
    if uninstalled {
        Outcome::Removed
    } else if disabled {
        Outcome::Disabled
    } else {
        Outcome::Failed
    }
}

/// A removal ends after one command when uninstalling succeeds, and otherwise
/// after the disable command, as `removal_outcome` says.
pub proof fn lemma_removal_steps(uninstalled: bool, disabled: bool)
    ensures
        uninstalled ==> next_step(Step::Uninstall, uninstalled) == Step::Done(
            removal_outcome(uninstalled, disabled),
        ),
        !uninstalled ==> next_step(Step::Uninstall, uninstalled) == Step::Disable && next_step(
            Step::Disable,
            disabled,
        ) == Step::Done(removal_outcome(uninstalled, disabled)),
{
}

/// The command that restores `package`.
pub fn restore_command(package: &str) -> (r: Vec<String>)
    ensures
        string_views(r@) == seq!["shell"@, "cmd"@, "package"@, "install-existing"@, package@],
{
    install_existing_args(package)
}

/// What a restore comes to: there is no second way to try.
pub fn restore_outcome(succeeded: bool) -> (r: Outcome)
    ensures
        r == (if succeeded {
            Outcome::Restored
        } else {
            Outcome::Failed
        }),
{
    if succeeded {
        Outcome::Restored
    } else {
        Outcome::Failed
    }
}

/// The removal of several packages, one after the other in the order given.
#[derive(Debug)]
pub struct RemovalBatch {
    pub names: Vec<String>,
    /// One outcome for each package finished, in order.
    pub outcomes: Vec<Outcome>,
    /// The removal under way, while a package is left.
    pub current: Removal,
}

impl RemovalBatch {
    pub open spec fn finished(&self) -> bool {
        self.outcomes@.len() >= self.names@.len()
    }

    pub open spec fn wf(&self) -> bool {
        &&& self.outcomes@.len() <= self.names@.len()
        &&& !self.finished() ==> self.current.package@ == self.names@[self.outcomes@.len() as int]@
            && !(self.current.step is Done)
    }

    /// A batch over `names`, the first removal under way.
    pub fn new(names: Vec<String>) -> (r: RemovalBatch)
        ensures
            r.wf(),
            r.names == names,
            r.outcomes@.len() == 0,
            names@.len() > 0 ==> r.current.step == Step::Uninstall,
    {
        let current = if names.len() > 0 {
            Removal::new(names[0].as_str())
        } else {
            Removal::new("")
        };
        RemovalBatch { names, outcomes: Vec::new(), current }
    }

    /// The command that is due, or `None` once every package is done.
    pub fn command(&self) -> (r: Option<Vec<String>>)
        requires
            self.wf(),
        ensures
            self.finished() <==> r is None,
            !self.finished() ==> (r matches Some(a) && Some(string_views(a@)) == step_command(
                self.current.package@,
                self.current.step,
            )),
    {
        if self.outcomes.len() >= self.names.len() {
            None
        } else {
            self.current.command()
        }
    }

    /// Takes the answer of the due command. When that ends the package's
    /// removal its outcome is recorded and the next package's removal begins.
    pub fn report(&mut self, succeeded: bool)
        requires
            old(self).wf(),
            !old(self).finished(),
        ensures
            final(self).wf(),
            final(self).names == old(self).names,
            next_step(old(self).current.step, succeeded) matches Step::Done(o) ==> final(self).outcomes@
                == old(self).outcomes@.push(o),
            !(next_step(old(self).current.step, succeeded) is Done) ==> final(self).outcomes@
                == old(self).outcomes@ && final(self).current.step == next_step(
                old(self).current.step,
                succeeded,
            ),
            next_step(old(self).current.step, succeeded) is Done && !final(self).finished()
                ==> final(self).current.step == Step::Uninstall,
    {
        self.current.report(succeeded);
        match self.current.outcome() {
            Some(o) => {
                self.outcomes.push(o);
                let next = self.outcomes.len();
                if next < self.names.len() {
                    self.current = Removal::new(self.names[next].as_str());
                }
            },
            None => {},
        }
    }
}

} // verus!
