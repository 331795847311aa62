//! Lifecycle states and side-file intents.

use vstd::prelude::*;
use crate::text::str_eq_str;

verus! {

/// The per-function lifecycle states and side-file intents.
///
/// `Deploy`, `Undeploy` and `Redeploy` are transient intents read from
/// side-files; `Deployed` and `Undeployed` are the stable states a record
/// rests in between reconciliation ticks.
#[derive(PartialEq, Eq, Structural, Clone, Copy, Debug)]
pub enum FunctionStatus {
    Deploy,
    Deployed,
    Redeploy,
    Undeploy,
    Undeployed,
}

/// The status that a side-file intent word denotes; anything unrecognised
/// means `Undeployed`.
pub open spec fn spec_status_of_word(w: Seq<char>) -> FunctionStatus {
    if w == "deploy"@ {
        FunctionStatus::Deploy
    } else if w == "undeploy"@ {
        FunctionStatus::Undeploy
    } else if w == "running"@ {
        FunctionStatus::Deployed
    } else if w == "undeployed"@ {
        FunctionStatus::Undeployed
    } else if w == "redeploy"@ {
        FunctionStatus::Redeploy
    } else {
        FunctionStatus::Undeployed
    }
}

impl FunctionStatus {
    /// Parses a side-file intent word.
    pub fn from_string(s: &str) -> (r: FunctionStatus)
        ensures
            r == spec_status_of_word(s@),
    {
        if str_eq_str(s, "deploy") {
            FunctionStatus::Deploy
        } else if str_eq_str(s, "undeploy") {
            FunctionStatus::Undeploy
        } else if str_eq_str(s, "running") {
            FunctionStatus::Deployed
        } else if str_eq_str(s, "undeployed") {
            FunctionStatus::Undeployed
        } else if str_eq_str(s, "redeploy") {
            FunctionStatus::Redeploy
        } else {
            FunctionStatus::Undeployed
        }
    }

    /// The wire label of a status.
    pub fn as_string(&self) -> (r: String)
        ensures
            r@ == self.spec_word(),
    {
        match self {
            FunctionStatus::Deploy => String::from_str("deploy"),
            FunctionStatus::Deployed => String::from_str("deployed"),
            FunctionStatus::Undeploy => String::from_str("undeploy"),
            FunctionStatus::Undeployed => String::from_str("undeployed"),
            FunctionStatus::Redeploy => String::from_str("redeploy"),
        }
    }

    /// The word `as_string` prints for each status.
    pub open spec fn spec_word(self) -> Seq<char> {
        match self {
            FunctionStatus::Deploy => "deploy"@,
            FunctionStatus::Deployed => "deployed"@,
            FunctionStatus::Undeploy => "undeploy"@,
            FunctionStatus::Undeployed => "undeployed"@,
            FunctionStatus::Redeploy => "redeploy"@,
        }
    }

    /// Whether this intent asks for the record to run.
    pub open spec fn spec_wants_deploy(self) -> bool {
        self == FunctionStatus::Deploy || self == FunctionStatus::Deployed
            || self == FunctionStatus::Redeploy
    }

    /// Whether this intent asks for the record to go away.
    pub open spec fn spec_wants_undeploy(self) -> bool {
        self == FunctionStatus::Undeploy || self == FunctionStatus::Undeployed
    }

    /// Executable test matching `spec_wants_undeploy`.
    pub fn wants_undeploy(&self) -> (r: bool)
        ensures
            r == self.spec_wants_undeploy(),
    {
        match self {
            FunctionStatus::Undeploy => true,
            FunctionStatus::Undeployed => true,
            _ => false,
        }
    }
}

/// The legacy four-state status kept for the older module-map interface.
#[derive(PartialEq, Eq, Structural, Clone, Copy, Debug)]
pub enum ModuleStatus {
    Deploy,
    Deployed,
    Undeploy,
    Undeployed,
}

impl ModuleStatus {
    /// Parses a side-file intent word; anything unrecognised (including
    /// `redeploy`, which this older interface does not know) means
    /// `Undeployed`.
    pub fn from_string(s: &str) -> (r: ModuleStatus)
        ensures
            r == spec_module_status_of_word(s@),
    {
        if str_eq_str(s, "deploy") {
            ModuleStatus::Deploy
        } else if str_eq_str(s, "undeploy") {
            ModuleStatus::Undeploy
        } else if str_eq_str(s, "running") {
            ModuleStatus::Deployed
        } else {
            ModuleStatus::Undeployed
        }
    }
}

/// The status that a side-file word denotes in the legacy four-state space.
pub open spec fn spec_module_status_of_word(w: Seq<char>) -> ModuleStatus {
    if w == "deploy"@ {
        ModuleStatus::Deploy
    } else if w == "undeploy"@ {
        ModuleStatus::Undeploy
    } else if w == "running"@ {
        ModuleStatus::Deployed
    } else {
        ModuleStatus::Undeployed
    }
}

/// The change a scan observed for one directory entry.
#[derive(PartialEq, Eq, Structural, Clone, Copy, Debug)]
pub enum ChangedEntryStatus {
    Deploy,
    Undeploy,
    Running,
    Undeployed,
}

} // verus!
