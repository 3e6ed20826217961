//! Resolution of the raw command-line inputs into a single authorization
//! query, and interpretation of the decision that comes back.
//!
//! The namespace resolves by precedence: the all-namespaces flag wins and
//! yields the sentinel `*`, an explicit namespace flag comes next (the empty
//! string is a legal explicit value), and otherwise the ambient default
//! namespace of the current context applies. Impersonation groups without an
//! impersonated user are a configuration error, caught before any query is
//! built.

use vstd::prelude::*;
use vstd::string::StrSliceExecFns;
use vstd::string::StringExecFns;
use crate::specifier::{ResourceSpecifier, SpecifierView};

verus! {

/// The principal an authorization query asks about. Only self-checks are
/// supported, so this is a closed enumeration with a single variant.
#[derive(Debug, Clone, Copy, PartialEq, Eq, Structural)]
pub enum Principal {
    /// The caller's own identity (`i` on the command line).
    Myself,
}

/// An invalid flag combination, caught before any network activity.
#[derive(Debug, Clone, Copy, PartialEq, Eq, Structural)]
pub enum ConfigError {
    /// Impersonation groups were supplied without an impersonated user.
    GroupsWithoutUser,
    /// The principal was not the literal `i`.
    UnsupportedPrincipal,
}

/// The authorization query, assembled exactly once per invocation and never
/// mutated afterwards.
#[derive(Debug, Clone, PartialEq, Eq)]
pub struct AccessQuery {
    pub verb: String,
    pub resource: String,
    pub group: Option<String>,
    pub name: Option<String>,
    pub namespace: Option<String>,
    pub subresource: Option<String>,
    pub impersonate_user: Option<String>,
    pub impersonate_groups: Option<Vec<String>>,
}

/// Mathematical model of an `AccessQuery`.
pub struct QueryView {
    pub verb: Seq<char>,
    pub resource: Seq<char>,
    pub group: Option<Seq<char>>,
    pub name: Option<Seq<char>>,
    pub namespace: Option<Seq<char>>,
    pub subresource: Option<Seq<char>>,
    pub impersonate_user: Option<Seq<char>>,
    pub impersonate_groups: Option<Seq<Seq<char>>>,
}

impl View for AccessQuery {
    type V = QueryView;

    open spec fn view(&self) -> QueryView {
        QueryView {
            verb: self.verb@,
            resource: self.resource@,
            group: self.group.deep_view(),
            name: self.name.deep_view(),
            namespace: self.namespace.deep_view(),
            subresource: self.subresource.deep_view(),
            impersonate_user: self.impersonate_user.deep_view(),
            impersonate_groups: self.impersonate_groups.deep_view(),
        }
    }
}

/// The decision the remote evaluator returns for a query.
#[derive(Debug, Clone, PartialEq, Eq)]
pub struct AccessDecision {
    pub allowed: bool,
    pub reason: Option<String>,
}

/// Mathematical model of an `AccessDecision`.
pub struct DecisionView {
    pub allowed: bool,
    pub reason: Option<Seq<char>>,
}

impl View for AccessDecision {
    type V = DecisionView;

    open spec fn view(&self) -> DecisionView {
        DecisionView { allowed: self.allowed, reason: self.reason.deep_view() }
    }
}

/// A failed submission: either the transport broke or the response carried
/// no decision payload.
#[derive(Debug, Clone, PartialEq, Eq)]
pub enum SubmissionError {
    /// The response lacked a decision payload; a protocol violation, never
    /// to be read as "denied".
    MissingStatus,
    /// The request could not be completed; holds the transport's own
    /// description of the failure.
    Transport { message: String },
}

/// The message for an invalid flag combination.
pub open spec fn config_error_message(e: ConfigError) -> Seq<char> {
    match e {
        ConfigError::GroupsWithoutUser => "--as-group is set, but --as is not set"@,
        ConfigError::UnsupportedPrincipal => "Currently, only `i` is supported as principal."@,
    }
}

impl ConfigError {
    /// Human-readable description of the invalid flag combination.
    pub fn message(&self) -> (msg: String)
        ensures
            msg@ == config_error_message(*self),
    {
        match self {
            ConfigError::GroupsWithoutUser => String::from_str(
                "--as-group is set, but --as is not set",
            ),
            ConfigError::UnsupportedPrincipal => String::from_str(
                "Currently, only `i` is supported as principal.",
            ),
        }
    }
}

impl SubmissionError {
    /// Human-readable description of the failed submission.
    pub fn message(&self) -> (msg: String)
        ensures
            self is MissingStatus ==> msg@ == "Access review response carried no status"@,
            self matches SubmissionError::Transport { message } ==> msg@
                == "Failed to submit the access review: "@ + message@,
    {
        match self {
            SubmissionError::MissingStatus => String::from_str(
                "Access review response carried no status",
            ),
            SubmissionError::Transport { message } => {
                let mut msg = String::from_str("Failed to submit the access review: ");
                msg.append(message.as_str());
                msg
            },
        }
    }
}

/// The sentinel namespace meaning "all namespaces".
pub open spec fn all_namespaces_sentinel() -> Seq<char> {
    seq!['*']
}

/// The effective namespace: the all-namespaces sentinel if the flag is set,
/// else the explicit namespace flag, else the ambient default.
pub open spec fn resolved_namespace(
    all_namespaces: bool,
    namespace_flag: Option<Seq<char>>,
    default_namespace: Seq<char>,
) -> Seq<char> {
    if all_namespaces {
        all_namespaces_sentinel()
    } else {
        match namespace_flag {
            Some(ns) => ns,
            None => default_namespace,
        }
    }
}

/// Whether a non-empty impersonation group list comes without an
/// impersonated user.
pub open spec fn groups_without_user(
    user: Option<Seq<char>>,
    groups: Option<Seq<Seq<char>>>,
) -> bool {
    user is None && match groups {
        Some(gs) => gs.len() > 0,
        None => false,
    }
}

/// Model of resolving the raw inputs into an authorization query. A name
/// split off as the empty string stands for "any name" and is left absent;
/// the subresource is never set; impersonation passes through unchanged.
pub open spec fn resolve_spec(
    verb: Seq<char>,
    specifier: SpecifierView,
    namespace_flag: Option<Seq<char>>,
    all_namespaces: bool,
    default_namespace: Seq<char>,
    impersonate_user: Option<Seq<char>>,
    impersonate_groups: Option<Seq<Seq<char>>>,
) -> Result<QueryView, ConfigError> {
    if groups_without_user(impersonate_user, impersonate_groups) {
        Err(ConfigError::GroupsWithoutUser)
    } else {
        Ok(
            QueryView {
                verb: verb,
                resource: specifier.resource,
                group: specifier.group,
                name: if specifier.name.len() == 0 {
                    None
                } else {
                    Some(specifier.name)
                },
                namespace: Some(
                    resolved_namespace(all_namespaces, namespace_flag, default_namespace),
                ),
                subresource: None,
                impersonate_user: impersonate_user,
                impersonate_groups: impersonate_groups,
            },
        )
    }
}

/// Resolves the effective namespace, by the documented precedence.
pub fn resolve_namespace(
    all_namespaces: bool,
    namespace_flag: Option<String>,
    default_namespace: String,
) -> (namespace: String)
    ensures
        namespace@ == resolved_namespace(
            all_namespaces,
            namespace_flag.deep_view(),
            default_namespace@,
        ),
{
    if all_namespaces {
        let sentinel = String::from_str("*");
        proof {
            reveal_strlit("*");
            assert(sentinel@ =~= all_namespaces_sentinel());
        }
        sentinel
    } else {
        match namespace_flag {
            Some(ns) => ns,
            None => default_namespace,
        }
    }
}

/// Resolves the raw command-line inputs into the authorization query,
/// exactly as `resolve_spec` describes; fails on impersonation groups
/// without a user, before any query is built.
pub fn resolve(
    verb: String,
    specifier: ResourceSpecifier,
    namespace_flag: Option<String>,
    all_namespaces: bool,
    default_namespace: String,
    impersonate_user: Option<String>,
    impersonate_groups: Option<Vec<String>>,
) -> (result: Result<AccessQuery, ConfigError>)
    ensures
        match result {
            Ok(q) => resolve_spec(
                verb@,
                specifier@,
                namespace_flag.deep_view(),
                all_namespaces,
                default_namespace@,
                impersonate_user.deep_view(),
                impersonate_groups.deep_view(),
            ) == Ok::<QueryView, ConfigError>(q@),
            Err(e) => resolve_spec(
                verb@,
                specifier@,
                namespace_flag.deep_view(),
                all_namespaces,
                default_namespace@,
                impersonate_user.deep_view(),
                impersonate_groups.deep_view(),
            ) == Err::<QueryView, ConfigError>(e),
        },
{
    let groups_present = match &impersonate_groups {
        Some(gs) => gs.len() > 0,
        None => false,
    };
    if groups_present && impersonate_user.is_none() {
        return Err(ConfigError::GroupsWithoutUser);
    }
    let namespace = resolve_namespace(all_namespaces, namespace_flag, default_namespace);
    let name_absent = specifier.name.as_str().is_empty();
    Ok(
        AccessQuery {
            verb,
            resource: specifier.resource,
            group: specifier.group,
            name: if name_absent {
                None
            } else {
                Some(specifier.name)
            },
            namespace: Some(namespace),
            subresource: None,
            impersonate_user,
            impersonate_groups,
        },
    )
}

/// Recognizes the principal token; only the literal `i` (the caller's own
/// identity) is supported.
pub fn parse_principal(token: &str) -> (result: Result<Principal, ConfigError>)
    ensures
        token@ == "i"@ ==> result == Ok::<Principal, ConfigError>(Principal::Myself),
        token@ != "i"@ ==> result == Err::<Principal, ConfigError>(
            ConfigError::UnsupportedPrincipal,
        ),
{
    proof {
        reveal_strlit("i");
    }
    let n: usize = token.unicode_len();
    if n == 1 && token.get_char(0) == 'i' {
        proof {
            assert(token@ =~= "i"@);
        }
        Ok(Principal::Myself)
    } else {
        proof {
            if token@ == "i"@ {
                assert(token@.len() == 1);
                assert(token@[0] == 'i');
            }
        }
        Err(ConfigError::UnsupportedPrincipal)
    }
}

/// Interprets a response's optional decision payload: its absence is a
/// protocol violation surfaced as an error, never read as "denied".
pub fn interpret_response(status: Option<AccessDecision>) -> (result: Result<
    AccessDecision,
    SubmissionError,
>)
    ensures
        match status {
            Some(d) => result == Ok::<AccessDecision, SubmissionError>(d),
            None => result == Err::<AccessDecision, SubmissionError>(
                SubmissionError::MissingStatus,
            ),
        },
{
    match status {
        Some(d) => Ok(d),
        None => Err(SubmissionError::MissingStatus),
    }
}

/// Law: building an access query is deterministic — parsing one token twice
/// and resolving with equal verbs, flags and defaults yields queries that
/// agree in every field.
pub proof fn lemma_resolution_deterministic(
    q1: QueryView,
    q2: QueryView,
    token: Seq<char>,
    s1: SpecifierView,
    s2: SpecifierView,
    verb: Seq<char>,
    namespace_flag: Option<Seq<char>>,
    all_namespaces: bool,
    default_namespace: Seq<char>,
    impersonate_user: Option<Seq<char>>,
    impersonate_groups: Option<Seq<Seq<char>>>,
)
    requires
        crate::specifier::parse_spec(token) == Ok::<
            SpecifierView,
            crate::specifier::ParseErrorView,
        >(s1),
        crate::specifier::parse_spec(token) == Ok::<
            SpecifierView,
            crate::specifier::ParseErrorView,
        >(s2),
        resolve_spec(
            verb,
            s1,
            namespace_flag,
            all_namespaces,
            default_namespace,
            impersonate_user,
            impersonate_groups,
        ) == Ok::<QueryView, ConfigError>(q1),
        resolve_spec(
            verb,
            s2,
            namespace_flag,
            all_namespaces,
            default_namespace,
            impersonate_user,
            impersonate_groups,
        ) == Ok::<QueryView, ConfigError>(q2),
    ensures
        q1 == q2,
{
}

/// Law: impersonation groups without an impersonated user make resolution
/// fail with a configuration error, so no query is ever built from them.
pub proof fn lemma_groups_without_user_fail(
    verb: Seq<char>,
    specifier: SpecifierView,
    namespace_flag: Option<Seq<char>>,
    all_namespaces: bool,
    default_namespace: Seq<char>,
    groups: Seq<Seq<char>>,
)
    requires
        groups.len() > 0,
    ensures
        resolve_spec(
            verb,
            specifier,
            namespace_flag,
            all_namespaces,
            default_namespace,
            None,
            Some(groups),
        ) == Err::<QueryView, ConfigError>(ConfigError::GroupsWithoutUser),
{
}

/// Law: when the all-namespaces flag is set, the resolved query carries the
/// sentinel namespace `*`, whatever explicit namespace was also supplied.
pub proof fn lemma_all_namespaces_wins(
    verb: Seq<char>,
    specifier: SpecifierView,
    namespace_flag: Option<Seq<char>>,
    default_namespace: Seq<char>,
    impersonate_user: Option<Seq<char>>,
    impersonate_groups: Option<Seq<Seq<char>>>,
)
    ensures
        resolve_spec(
            verb,
            specifier,
            namespace_flag,
            true,
            default_namespace,
            impersonate_user,
            impersonate_groups,
        ) matches Ok(q) ==> q.namespace == Some(all_namespaces_sentinel()),
{
}

} // verus!
