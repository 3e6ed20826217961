use why_can::output::{decision_exit_code, render_decision};
use why_can::query::{
    interpret_response, parse_principal, resolve, resolve_namespace, AccessDecision, ConfigError,
    Principal, SubmissionError,
};
use why_can::specifier::{parse_resource, ParseError, ResourceSpecifier};

#[test]
fn parse_bare_resource() {
    let spec = parse_resource("pods").unwrap();
    assert_eq!(spec.resource, "pods");
    assert_eq!(spec.name, "");
    assert_eq!(spec.group, None);
}

#[test]
fn parse_resource_with_group() {
    let spec = parse_resource("deployments.apps").unwrap();
    assert_eq!(spec.resource, "deployments");
    assert_eq!(spec.name, "");
    assert_eq!(spec.group, Some("apps".to_string()));
}

#[test]
fn parse_multi_segment_group() {
    let spec = parse_resource("foos.group1.group2").unwrap();
    assert_eq!(spec.resource, "foos");
    assert_eq!(spec.group, Some("group1.group2".to_string()));
}

#[test]
fn parse_resource_with_name() {
    let spec = parse_resource("pods/mypod").unwrap();
    assert_eq!(spec.resource, "pods");
    assert_eq!(spec.name, "mypod");
    assert_eq!(spec.group, None);
}

#[test]
fn parse_group_and_name() {
    let spec = parse_resource("deployments.apps/web").unwrap();
    assert_eq!(spec.resource, "deployments");
    assert_eq!(spec.name, "web");
    assert_eq!(spec.group, Some("apps".to_string()));
}

#[test]
fn parse_too_many_separators() {
    let err = parse_resource("a/b/c").unwrap_err();
    assert_eq!(
        err,
        ParseError::TooManyNameSeparators {
            token: "a/b/c".to_string()
        }
    );
    assert_eq!(
        err.message(),
        "Expected only resource type or RESOURCE/NAME, got a/b/c"
    );
}

#[test]
fn parse_lone_dot_fails() {
    let err = parse_resource(".").unwrap_err();
    assert_eq!(
        err,
        ParseError::EmptyResource {
            token: ".".to_string()
        }
    );
    assert_eq!(err.message(), "Can't split resource and group: .");
}

#[test]
fn parse_leading_dot_fails() {
    assert_eq!(
        parse_resource(".apps").unwrap_err(),
        ParseError::EmptyResource {
            token: ".apps".to_string()
        }
    );
    assert_eq!(
        parse_resource(".apps/web").unwrap_err(),
        ParseError::EmptyResource {
            token: ".apps/web".to_string()
        }
    );
}

#[test]
fn parse_empty_token_fails() {
    assert_eq!(
        parse_resource("").unwrap_err(),
        ParseError::EmptyResource {
            token: "".to_string()
        }
    );
}

#[test]
fn parse_trailing_dot_leaves_group_absent() {
    let spec = parse_resource("pods.").unwrap();
    assert_eq!(spec.resource, "pods");
    assert_eq!(spec.group, None);
}

#[test]
fn parse_empty_name_segment() {
    let spec = parse_resource("pods/").unwrap();
    assert_eq!(spec.resource, "pods");
    assert_eq!(spec.name, "");
}

#[test]
fn principal_self_is_supported() {
    assert_eq!(parse_principal("i").unwrap(), Principal::Myself);
}

#[test]
fn principal_other_is_rejected() {
    let err = parse_principal("me").unwrap_err();
    assert_eq!(err, ConfigError::UnsupportedPrincipal);
    assert_eq!(err.message(), "Currently, only `i` is supported as principal.");
}

#[test]
fn resolve_uses_default_namespace() {
    let spec = parse_resource("pods").unwrap();
    let query = resolve(
        "get".to_string(),
        spec,
        None,
        false,
        "default".to_string(),
        None,
        None,
    )
    .unwrap();
    assert_eq!(query.verb, "get");
    assert_eq!(query.resource, "pods");
    assert_eq!(query.group, None);
    assert_eq!(query.name, None);
    assert_eq!(query.namespace, Some("default".to_string()));
    assert_eq!(query.subresource, None);
    assert_eq!(query.impersonate_user, None);
    assert_eq!(query.impersonate_groups, None);
}

#[test]
fn resolve_uses_explicit_namespace() {
    let spec = parse_resource("deployments.apps/web").unwrap();
    let query = resolve(
        "list".to_string(),
        spec,
        Some("staging".to_string()),
        false,
        "default".to_string(),
        None,
        None,
    )
    .unwrap();
    assert_eq!(query.verb, "list");
    assert_eq!(query.resource, "deployments");
    assert_eq!(query.group, Some("apps".to_string()));
    assert_eq!(query.name, Some("web".to_string()));
    assert_eq!(query.namespace, Some("staging".to_string()));
}

#[test]
fn all_namespaces_flag_wins() {
    let spec = parse_resource("pods").unwrap();
    let query = resolve(
        "get".to_string(),
        spec,
        Some("staging".to_string()),
        true,
        "default".to_string(),
        None,
        None,
    )
    .unwrap();
    assert_eq!(query.namespace, Some("*".to_string()));
}

#[test]
fn empty_namespace_flag_is_explicit() {
    assert_eq!(
        resolve_namespace(false, Some("".to_string()), "default".to_string()),
        ""
    );
}

#[test]
fn groups_without_user_fail() {
    let spec = parse_resource("pods").unwrap();
    let err = resolve(
        "get".to_string(),
        spec,
        None,
        false,
        "default".to_string(),
        None,
        Some(vec!["admins".to_string()]),
    )
    .unwrap_err();
    assert_eq!(err, ConfigError::GroupsWithoutUser);
    assert_eq!(err.message(), "--as-group is set, but --as is not set");
}

#[test]
fn groups_with_user_pass_through() {
    let spec = parse_resource("pods").unwrap();
    let query = resolve(
        "get".to_string(),
        spec,
        None,
        false,
        "default".to_string(),
        Some("alice".to_string()),
        Some(vec!["admins".to_string(), "devs".to_string()]),
    )
    .unwrap();
    assert_eq!(query.impersonate_user, Some("alice".to_string()));
    assert_eq!(
        query.impersonate_groups,
        Some(vec!["admins".to_string(), "devs".to_string()])
    );
}

#[test]
fn empty_group_list_without_user_passes() {
    let spec = parse_resource("pods").unwrap();
    let query = resolve(
        "get".to_string(),
        spec,
        None,
        false,
        "default".to_string(),
        None,
        Some(vec![]),
    )
    .unwrap();
    assert_eq!(query.impersonate_user, None);
    assert_eq!(query.impersonate_groups, Some(vec![]));
}

#[test]
fn resolution_is_deterministic() {
    let first = resolve(
        "list".to_string(),
        parse_resource("deployments.apps/web").unwrap(),
        Some("staging".to_string()),
        false,
        "default".to_string(),
        Some("alice".to_string()),
        Some(vec!["admins".to_string()]),
    )
    .unwrap();
    let second = resolve(
        "list".to_string(),
        parse_resource("deployments.apps/web").unwrap(),
        Some("staging".to_string()),
        false,
        "default".to_string(),
        Some("alice".to_string()),
        Some(vec!["admins".to_string()]),
    )
    .unwrap();
    assert_eq!(first, second);
}

#[test]
fn allowed_with_reason() {
    let decision = AccessDecision {
        allowed: true,
        reason: Some("RBAC: allowed by ClusterRoleBinding".to_string()),
    };
    assert_eq!(
        render_decision(&decision, "get", "pods"),
        "Access allowed: RBAC: allowed by ClusterRoleBinding"
    );
    assert_eq!(decision_exit_code(&decision), 0);
}

#[test]
fn allowed_without_reason() {
    let decision = AccessDecision {
        allowed: true,
        reason: None,
    };
    assert_eq!(
        render_decision(&decision, "get", "pods"),
        "Access allowed: No reason given"
    );
    assert_eq!(decision_exit_code(&decision), 0);
}

#[test]
fn denied_echoes_original_token() {
    let decision = AccessDecision {
        allowed: false,
        reason: None,
    };
    assert_eq!(
        render_decision(&decision, "delete", "pods/foo"),
        "delete pods/foo not allowed"
    );
    assert_ne!(decision_exit_code(&decision), 0);
}

#[test]
fn missing_status_is_an_error() {
    let err = interpret_response(None).unwrap_err();
    assert_eq!(err, SubmissionError::MissingStatus);
    let message = err.message();
    assert_eq!(message, "Access review response carried no status");
    assert!(!message.contains("not allowed"));
}

#[test]
fn present_status_passes_through() {
    let decision = AccessDecision {
        allowed: false,
        reason: Some("denied".to_string()),
    };
    assert_eq!(
        interpret_response(Some(decision.clone())).unwrap(),
        decision
    );
}

#[test]
fn transport_error_carries_cause() {
    let err = SubmissionError::Transport {
        message: "connection refused".to_string(),
    };
    assert_eq!(
        err.message(),
        "Failed to submit the access review: connection refused"
    );
}

#[test]
fn specifier_feeds_query_fields() {
    let spec = ResourceSpecifier {
        resource: "jobs".to_string(),
        name: "nightly".to_string(),
        group: Some("batch".to_string()),
    };
    let query = resolve(
        "create".to_string(),
        spec,
        None,
        false,
        "ci".to_string(),
        None,
        None,
    )
    .unwrap();
    assert_eq!(query.resource, "jobs");
    assert_eq!(query.group, Some("batch".to_string()));
    assert_eq!(query.name, Some("nightly".to_string()));
    assert_eq!(query.namespace, Some("ci".to_string()));
}
