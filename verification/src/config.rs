//! Where the profiles live: the root directory and the directory of each kind.

use vstd::prelude::*;
use crate::paths::{join, joined};
use crate::store::{step_views, Step, StepView};

verus! {

/// Where the calibration files live.
#[derive(Debug, Clone)]
pub struct Config {
    pub calib_root: String,
}

/// The root directory that is used where none is configured.
pub open spec fn default_root() -> Seq<char> {
    "huggingface/lerobot/calibration"@
}

/// The operation that makes a directory that is missing: none for one that exists.
pub open spec fn missing(dir: Seq<char>, present: bool) -> Seq<StepView> {
    if present {
        Seq::<StepView>::empty()
    } else {
        seq![StepView::CreateDirAll { dir }]
    }
}

impl Config {
    /// The directory of the robots' profiles.
    pub open spec fn robots(&self) -> Seq<char> {
        joined(self.calib_root@, "robots"@)
    }

    /// The directory of the teleoperators' profiles.
    pub open spec fn teleoperators(&self) -> Seq<char> {
        joined(self.calib_root@, "teleoperators"@)
    }

    /// The configuration of a process. `root` is what its environment holds
    /// under `CALIB_ROOT`, if anything.
    pub fn from_env(root: Option<String>) -> (r: Self)
        ensures
            r.calib_root@ == match root {
                Some(dir) => dir@,
                None => default_root(),
            },
    {
        match root {
            Some(dir) => Config { calib_root: dir },
            None => Config { calib_root: "huggingface/lerobot/calibration".to_string() },
        }
    }

    /// The directory of the robots' profiles.
    pub fn robots_dir(&self) -> (r: String)
        ensures
            r@ == self.robots(),
    {
        join(self.calib_root.as_str(), "robots")
    }

    /// The directory of the teleoperators' profiles.
    pub fn teleoperators_dir(&self) -> (r: String)
        ensures
            r@ == self.teleoperators(),
    {
        join(self.calib_root.as_str(), "teleoperators")
    }

    /// The directories to make so that the root and the directory of each
    /// kind exist, given which of the three exist already: the root first,
    /// then the robots', then the teleoperators'.
    pub fn ensure_exists(&self, root_present: bool, robots_present: bool, teleoperators_present: bool) -> (r: Vec<
        Step,
    >)
        ensures
            step_views(r@) == missing(self.calib_root@, root_present) + missing(
                self.robots(),
                robots_present,
            ) + missing(self.teleoperators(), teleoperators_present),
    {
        let mut steps: Vec<Step> = Vec::new();
        if !root_present {
            steps.push(Step::CreateDirAll { dir: self.calib_root.clone() });
        }
        if !robots_present {
            steps.push(Step::CreateDirAll { dir: self.robots_dir() });
        }
        if !teleoperators_present {
            steps.push(Step::CreateDirAll { dir: self.teleoperators_dir() });
        }
        proof {
            assert(step_views(steps@) =~= missing(self.calib_root@, root_present) + missing(
                self.robots(),
                robots_present,
            ) + missing(self.teleoperators(), teleoperators_present));
        }
        steps
    }
}

} // verus!
