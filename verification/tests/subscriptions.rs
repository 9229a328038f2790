use mcpls_core::json::render;
use mcpls_core::paths::FilePath;
use mcpls_core::project::{ProjectEvent, ProjectId, ProjectStatus};
use mcpls_core::session::{project_events_resource_uri, project_status_resource_uri};
use mcpls_core::subscriptions::{
    cleanup_removed_project_subscriptions, starts_forwarding, subscription_list, ForwardOutcome,
    Forwarding, QueuedEvent, ResourceSubscriptions, SessionEventSink, SubscriptionLimit,
    WatchedResource,
};

fn id(text: &str) -> ProjectId {
    ProjectId::new(text).unwrap()
}

fn subscribed(uris: &[&str]) -> ResourceSubscriptions {
    let mut subscriptions = ResourceSubscriptions::new(100);
    for uri in uris {
        subscriptions.subscribe((*uri).to_owned()).unwrap();
    }
    subscriptions
}

fn diagnostics(uri: &str) -> QueuedEvent {
    QueuedEvent::Event(ProjectEvent::DiagnosticsUpdated {
        uri: uri.to_owned(),
        version: Some(1),
        diagnostic_count: 1,
    })
}

fn removal(project: &str) -> ProjectEvent {
    ProjectEvent::ProjectRemoved {
        project_id: id(project),
        root: FilePath::new("/workspace"),
    }
}

#[test]
fn subscriptions_are_listed_in_order() {
    let subscriptions = subscribed(&["lsp-diagnostics:///z.rs", "lsp-diagnostics:///a.rs"]);
    assert_eq!(
        subscriptions.sorted_snapshot(),
        vec![
            "lsp-diagnostics:///a.rs".to_owned(),
            "lsp-diagnostics:///z.rs".to_owned()
        ]
    );
    assert_eq!(
        render(&subscription_list(&subscriptions)),
        r#"{"subscriptions":["lsp-diagnostics:///a.rs","lsp-diagnostics:///z.rs"]}"#
    );
    assert_eq!(
        render(&subscription_list(&subscribed(&[]))),
        r#"{"subscriptions":[]}"#
    );
}

#[test]
fn subscriptions_are_capped() {
    let mut subscriptions = ResourceSubscriptions::new(2);
    subscriptions.subscribe("a".to_owned()).unwrap();
    subscriptions.subscribe("b".to_owned()).unwrap();
    assert_eq!(
        subscriptions.subscribe("c".to_owned()),
        Err(SubscriptionLimit { limit: 2 })
    );
    subscriptions.subscribe("a".to_owned()).unwrap();
    assert!(subscriptions.unsubscribe("a"));
    subscriptions.subscribe("c".to_owned()).unwrap();
    assert!(!subscriptions.contains("a"));
    assert!(subscriptions.contains("c"));
}

#[test]
fn ending_an_unknown_subscription_does_nothing() {
    let mut subscriptions = subscribed(&["a"]);
    assert!(!subscriptions.unsubscribe("lsp-diagnostics:///nonexistent.rs"));
    assert!(subscriptions.contains("a"));
}

#[test]
fn sessions_are_told_of_their_own_resources() {
    let first = subscribed(&["lsp-diagnostics:///workspace/a.rs"]);
    let second = subscribed(&["lsp-diagnostics:///workspace/b.rs"]);
    let event = diagnostics("file:///workspace/a.rs");
    let mut forwarding = Forwarding::start(&id("a"), &event);
    assert_eq!(
        forwarding.next_notification(&first).as_deref(),
        Some("lsp-diagnostics:///workspace/a.rs")
    );
    assert_eq!(forwarding.next_notification(&first), None);
    assert!(!forwarding.ends());
    let mut forwarding = Forwarding::start(&id("b"), &event);
    assert_eq!(forwarding.next_notification(&second), None);
}

#[test]
fn gaps_send_the_session_back_to_the_event_history() {
    let events = project_events_resource_uri(&id("a"));
    let subscriptions = subscribed(&[&events]);
    let mut forwarding = Forwarding::start(&id("a"), &QueuedEvent::Lagged { skipped: 3 });
    assert_eq!(forwarding.next_notification(&subscriptions), Some(events));
    assert!(!forwarding.removed);
}

#[test]
fn an_unreachable_session_is_told_nothing_more() {
    let events = project_events_resource_uri(&id("a"));
    let status = project_status_resource_uri(&id("a"));
    let subscriptions = subscribed(&[&events, &status]);
    let event = QueuedEvent::Event(ProjectEvent::StatusChanged {
        status: ProjectStatus::Ready,
        last_error: None,
    });
    let mut forwarding = Forwarding::start(&id("a"), &event);
    assert_eq!(forwarding.next_notification(&subscriptions), Some(events));
    forwarding.notified(false);
    assert_eq!(forwarding.outcome, ForwardOutcome::Disconnect);
    assert_eq!(forwarding.next_notification(&subscriptions), None);
    assert!(forwarding.ends());

    let mut forwarding = Forwarding::start(&id("a"), &event);
    forwarding.next_notification(&subscriptions);
    forwarding.notified(true);
    assert_eq!(forwarding.next_notification(&subscriptions), Some(status));
}

#[test]
fn the_last_resource_of_a_project_ends_its_forwarding() {
    let mut sink = SessionEventSink::new();
    sink.track_subscription(id("a"), "one".to_owned());
    sink.track_subscription(id("a"), "two".to_owned());
    sink.track_subscription(id("b"), "one".to_owned());
    sink.track_subscription(id("b"), "one".to_owned());
    assert_eq!(sink.untrack_subscription("one"), vec![id("b")]);
    assert_eq!(sink.untrack_subscription("two"), vec![id("a")]);
    assert_eq!(sink.untrack_subscription("two"), Vec::new());
    assert!(sink.watched.is_empty());
}

#[test]
fn a_removed_project_takes_its_own_subscriptions_along() {
    let events = project_events_resource_uri(&id("a"));
    let status = project_status_resource_uri(&id("a"));
    let own = "lsp-diagnostics:///workspace/src/main.rs";
    let other = "lsp-diagnostics:///workspace/other/src/lib.rs";
    let mut subscriptions = subscribed(&[&events, &status, own, other]);
    let mut sink = SessionEventSink::new();
    sink.track_subscription(id("a"), events.clone());
    sink.track_subscription(id("a"), status.clone());
    sink.track_subscription(id("a"), own.to_owned());
    sink.track_subscription(id("other"), other.to_owned());

    let queued = QueuedEvent::Event(removal("a"));
    let mut forwarding = Forwarding::start(&id("a"), &queued);
    assert_eq!(
        forwarding.next_notification(&subscriptions),
        Some(events.clone())
    );
    assert_eq!(
        forwarding.next_notification(&subscriptions),
        Some(status.clone())
    );
    assert!(forwarding.removed && forwarding.ends());

    cleanup_removed_project_subscriptions(&mut subscriptions, &mut sink, &id("a"), &removal("a"));
    for uri in [events.as_str(), status.as_str(), own] {
        assert!(!subscriptions.contains(uri));
    }
    assert!(subscriptions.contains(other));
    assert_eq!(sink.watched.len(), 1);
}

#[test]
fn an_unwatched_project_is_cleaned_up_by_its_removal_event() {
    let events = project_events_resource_uri(&id("a"));
    let mut subscriptions = subscribed(&[&events, "kept"]);
    let mut sink = SessionEventSink::new();
    cleanup_removed_project_subscriptions(&mut subscriptions, &mut sink, &id("a"), &removal("a"));
    assert!(!subscriptions.contains(&events));
    assert!(subscriptions.contains("kept"));
}

#[test]
fn the_removal_of_another_project_is_not_announced() {
    let events = project_events_resource_uri(&id("a"));
    let subscriptions = subscribed(&[&events]);
    let queued = QueuedEvent::Event(removal("b"));
    let mut forwarding = Forwarding::start(&id("a"), &queued);
    assert_eq!(forwarding.next_notification(&subscriptions), None);
    assert!(!forwarding.removed);
}

#[test]
fn finished_tasks_are_replaced() {
    assert!(starts_forwarding(None));
    assert!(starts_forwarding(Some(true)));
    assert!(!starts_forwarding(Some(false)));
}

#[test]
fn removed_projects_give_each_resource_once() {
    let watched = |project: &str, uri: &str| WatchedResource {
        project_id: ProjectId::new(project).unwrap(),
        uri: uri.to_owned(),
    };
    let mut sink = SessionEventSink {
        watched: vec![
            watched("a", "one"),
            watched("b", "one"),
            watched("a", "one"),
            watched("a", "two"),
        ],
    };
    let uris = sink.remove_project(&ProjectId::new("a").unwrap());
    assert_eq!(uris, vec!["one".to_owned(), "two".to_owned()]);
    assert_eq!(sink.watched.len(), 1);
}
