//! Mapping of a decision to terminal output and an exit code.
//!
//! An allowed decision prints its reason (or a fixed substitute when none
//! was given); a denial echoes the verb and the original, unparsed resource
//! token. Denial is a well-formed answer, not an error, but shares the
//! non-zero exit convention.

use vstd::prelude::*;
use vstd::string::StringExecFns;
use crate::query::{AccessDecision, DecisionView};

verus! {

/// The line printed for a decision: the reason (or `No reason given`) when
/// allowed, else the verb and the original resource token marked not
/// allowed.
pub open spec fn rendered_decision(
    decision: DecisionView,
    verb: Seq<char>,
    resource_token: Seq<char>,
) -> Seq<char> {
    if decision.allowed {
        "Access allowed: "@ + match decision.reason {
            Some(reason) => reason,
            None => "No reason given"@,
        }
    } else {
        verb + " "@ + resource_token + " not allowed"@
    }
}

/// Renders the decision line; `resource_token` is the original, unparsed
/// resource token exactly as supplied on the command line.
pub fn render_decision(decision: &AccessDecision, verb: &str, resource_token: &str) -> (line:
    String)
    ensures
        line@ == rendered_decision(decision@, verb@, resource_token@),
{
    if decision.allowed {
        let mut line = String::from_str("Access allowed: ");
        match &decision.reason {
            Some(reason) => line.append(reason.as_str()),
            None => line.append("No reason given"),
        }
        line
    } else {
        let mut line = String::from_str(verb);
        line.append(" ");
        line.append(resource_token);
        line.append(" not allowed");
        line
    }
}

/// The process exit code a decision maps to: zero exactly when allowed.
pub open spec fn decision_exit_code_spec(decision: DecisionView) -> int {
    if decision.allowed {
        0
    } else {
        1
    }
}

/// Maps a decision to its process exit code.
pub fn decision_exit_code(decision: &AccessDecision) -> (code: i32)
    ensures
        code as int == decision_exit_code_spec(decision@),
{
    if decision.allowed {
        0
    } else {
        1
    }
}

} // verus!
