//! The error taxonomy of a deployment run. Every fatal error names the unit
//! and, where one is involved, the instance, so the caller can report the
//! first failure precisely.

use vstd::prelude::*;

use vstd::string::StringExecFns;

verus! {

/// The single fatal error a run can end with.
#[derive(Debug)]
pub enum DeployError {
    /// The remaining units can never all become eligible: the graph has a
    /// cycle or references a unit name that was never declared.
    GraphError { detail: String },
    /// Packaging or transport of a unit's artifact failed; nothing remote
    /// was changed yet.
    PipelineError { unit: String, detail: String },
    /// A remote activation command reported non-zero completion status.
    ActivationError { unit: String, instance: String, detail: String },
    /// An instance never answered its health endpoint within the polling
    /// bound.
    VerificationError { unit: String, instance: String, url: String },
}

impl DeployError {
    /// The text of the error's report, naming the unit and, where one is
    /// involved, the instance.
    pub open spec fn message_text(self) -> Seq<char> {
        match self {
            DeployError::GraphError { detail } => "unsatisfiable dependency graph: "@ + detail@,
            DeployError::PipelineError { unit, detail } => "pipeline failure for unit "@ + unit@
                + ": "@ + detail@,
            DeployError::ActivationError { unit, instance, detail } => "activation failure for unit "@
                + unit@ + ", instance "@ + instance@ + ": "@ + detail@,
            DeployError::VerificationError { unit, instance, url } => "instance "@ + instance@
                + " of unit "@ + unit@ + " never became healthy at "@ + url@,
        }
    }

    /// Render the error's report.
    pub fn message(&self) -> (r: String)
        ensures
            r@ =~= self.message_text(),
    {
        match self {
            DeployError::GraphError { detail } => {
                let mut out: String = "unsatisfiable dependency graph: ".to_owned();
                out.append(detail.as_str());
                out
            },
            DeployError::PipelineError { unit, detail } => {
                let mut out: String = "pipeline failure for unit ".to_owned();
                out.append(unit.as_str());
                out.append(": ");
                out.append(detail.as_str());
                out
            },
            DeployError::ActivationError { unit, instance, detail } => {
                let mut out: String = "activation failure for unit ".to_owned();
                out.append(unit.as_str());
                out.append(", instance ");
                out.append(instance.as_str());
                out.append(": ");
                out.append(detail.as_str());
                out
            },
            DeployError::VerificationError { unit, instance, url } => {
                let mut out: String = "instance ".to_owned();
                out.append(instance.as_str());
                out.append(" of unit ");
                out.append(unit.as_str());
                out.append(" never became healthy at ");
                out.append(url.as_str());
                out
            },
        }
    }
}

} // verus!
