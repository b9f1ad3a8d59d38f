//! Bringing up the port driver.
//!
//! The device is opened if it is there. If it is not, the service is
//! opened and started, or, where there is no service yet, the driver file
//! is unpacked and a service is made of it and started. A service that
//! does not start is deleted and made anew, once. The steps themselves are
//! taken by the caller, who reports how each went.

use vstd::prelude::*;

verus! {

/// Why the driver could not be brought up.
#[derive(Clone, Copy, Debug, PartialEq, Eq, Structural)]
pub enum LoadError {
    /// The driver file could not be unpacked.
    Unpack,
    /// The device could not be opened though its service runs.
    OpenDevice,
    /// The service could not be made.
    CreateService,
    /// The path of the driver file cannot be handed to the service manager.
    InvalidPath,
    /// The service could not be deleted.
    DeleteService,
    /// The service did not start though it was made anew.
    StartService,
}

/// The step to take next, or the end.
#[derive(Clone, Copy, Debug, PartialEq, Eq, Structural)]
pub enum Step {
    ExtractFile,
    CreateService,
    OpenService,
    StartService,
    OpenDevice,
    DeleteService,
    Success,
    Failure(LoadError),
}

/// How a step went.
#[derive(Clone, Copy, Debug, PartialEq, Eq, Structural)]
pub enum Outcome {
    Done,
    Failed,
    /// The driver's path is no text; only making the service can end so.
    BadPath,
}

/// Where the loading stands.
#[derive(Clone, Copy, Debug, PartialEq, Eq, Structural)]
pub struct Loader {
    /// The step to take next.
    pub step: Step,
    /// Has the service been started since the device was last tried?
    pub started: bool,
    /// Has the service been deleted to be made anew?
    pub reinstalled: bool,
}

/// Where the loading stands after a step went as told.
pub open spec fn after(loader: Loader, outcome: Outcome) -> Loader {
    let done = outcome == Outcome::Done;
    match loader.step {
        Step::OpenDevice => if done {
            Loader { step: Step::Success, ..loader }
        } else if loader.started {
            Loader { step: Step::Failure(LoadError::OpenDevice), ..loader }
        } else {
            Loader { step: Step::OpenService, ..loader }
        },
        Step::OpenService => if done {
            Loader { step: Step::StartService, ..loader }
        } else {
            Loader { step: Step::ExtractFile, ..loader }
        },
        Step::ExtractFile => if done {
            Loader { step: Step::CreateService, ..loader }
        } else {
            Loader { step: Step::Failure(LoadError::Unpack), ..loader }
        },
        Step::CreateService => if done {
            Loader { step: Step::StartService, ..loader }
        } else if outcome == Outcome::BadPath {
            Loader { step: Step::Failure(LoadError::InvalidPath), ..loader }
        } else {
            Loader { step: Step::Failure(LoadError::CreateService), ..loader }
        },
        Step::StartService => if done {
            Loader { step: Step::OpenDevice, started: true, ..loader }
        } else if loader.reinstalled {
            Loader { step: Step::Failure(LoadError::StartService), ..loader }
        } else {
            Loader { step: Step::DeleteService, ..loader }
        },
        Step::DeleteService => if done {
            Loader { step: Step::ExtractFile, reinstalled: true, ..loader }
        } else {
            Loader { step: Step::Failure(LoadError::DeleteService), ..loader }
        },
        Step::Success => loader,
        Step::Failure(_) => loader,
    }
}

/// Is the loading over?
pub open spec fn is_over(loader: Loader) -> bool {
    loader.step is Success || loader.step is Failure
}

/// Can the loading stand so? The service is never about to be deleted a
/// second time.
pub open spec fn reachable(loader: Loader) -> bool {
    !(loader.step is DeleteService && loader.reinstalled)
}

/// How many steps the loading can take at most from where it stands.
pub open spec fn steps_left(loader: Loader) -> nat {
    let round: nat = match loader.step {
        Step::OpenDevice => if loader.started {
            1
        } else {
            7
        },
        Step::OpenService => 6,
        Step::ExtractFile => 5,
        Step::CreateService => 4,
        Step::StartService => 3,
        Step::DeleteService => 2,
        Step::Success => 0,
        Step::Failure(_) => 0,
    };
    if loader.reinstalled || loader.step is Success || loader.step is Failure {
        round
    } else {
        round + 8
    }
}

/// Every step brings the loading nearer to its end: from its start it is
/// over after fifteen steps at most, and the service is deleted once at
/// most.
pub proof fn lemma_loading_ends(loader: Loader, outcome: Outcome)
    requires
        reachable(loader),
        !is_over(loader),
    ensures
        reachable(after(loader, outcome)),
        steps_left(after(loader, outcome)) < steps_left(loader),
        after(loader, outcome).reinstalled == (loader.reinstalled || (loader.step is DeleteService
            && outcome == Outcome::Done)),
        reachable(Loader::start_state()),
        steps_left(Loader::start_state()) == 15,
{
}

impl Loader {
    /// The start: nothing was done, the device is tried first.
    pub open spec fn start_state() -> Loader {
        Loader { step: Step::OpenDevice, started: false, reinstalled: false }
    }

    pub fn new() -> (r: Loader)
        ensures
            r == Self::start_state(),
    {
        Loader { step: Step::OpenDevice, started: false, reinstalled: false }
    }

    /// The step to take next.
    pub fn step(&self) -> (r: Step)
        ensures
            r == self.step,
    {
        self.step
    }

    /// Is the loading over?
    pub fn is_over(&self) -> (r: bool)
        ensures
            r == is_over(*self),
    {
        match self.step {
            Step::Success => true,
            Step::Failure(_) => true,
            _ => false,
        }
    }

    /// Takes in how the step went and says where the loading stands then.
    pub fn next(self, outcome: Outcome) -> (r: Loader)
        ensures
            r == after(self, outcome),
    {
        let done = match outcome {
            Outcome::Done => true,
            _ => false,
        };
        let bad_path = match outcome {
            Outcome::BadPath => true,
            _ => false,
        };
        let step = match self.step {
            Step::OpenDevice => if done {
                Step::Success
            } else if self.started {
                Step::Failure(LoadError::OpenDevice)
            } else {
                Step::OpenService
            },
            Step::OpenService => if done {
                Step::StartService
            } else {
                Step::ExtractFile
            },
            Step::ExtractFile => if done {
                Step::CreateService
            } else {
                Step::Failure(LoadError::Unpack)
            },
            Step::CreateService => if done {
                Step::StartService
            } else if bad_path {
                Step::Failure(LoadError::InvalidPath)
            } else {
                Step::Failure(LoadError::CreateService)
            },
            Step::StartService => if done {
                Step::OpenDevice
            } else if self.reinstalled {
                Step::Failure(LoadError::StartService)
            } else {
                Step::DeleteService
            },
            Step::DeleteService => if done {
                Step::ExtractFile
            } else {
                Step::Failure(LoadError::DeleteService)
            },
            Step::Success => Step::Success,
            Step::Failure(error) => Step::Failure(error),
        };
        let started = match self.step {
            Step::StartService => self.started || done,
            _ => self.started,
        };
        let reinstalled = match self.step {
            Step::DeleteService => self.reinstalled || done,
            _ => self.reinstalled,
        };
        Loader { step, started, reinstalled }
    }
}

} // verus!
