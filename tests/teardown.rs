use podwatcher::chain::{OwnerChainResolver, OwnerStep, ResolvedResource};
use podwatcher::cleanup::{shutdown_url, CleanupPod};
use podwatcher::config::{LogLevel, LoggingOpts, WatcherArgs};
use podwatcher::deletion::{CascadingDeleter, DeleteStep};
use podwatcher::owners::{get_owners, owner_kind, ResourceKind};
use podwatcher::pod::{ContainerStatus, ObjectMeta, OwnerReference, PodSnapshot, PodStatus, TerminatedState};
use podwatcher::termination::KillCondition;
use podwatcher::tracker::DedupTracker;
use podwatcher::watch::{record_teardown, suppression_expiry, teardown_candidate};
use podwatcher::watched::PodContainer;

fn s(v: &str) -> String {
    v.to_string()
}

fn owner(kind: &str, name: &str, controller: Option<bool>) -> OwnerReference {
    OwnerReference { kind: s(kind), api_version: s("apps/v1"), name: s(name), controller }
}

fn object(name: &str, namespace: Option<&str>, owners: Vec<OwnerReference>) -> ObjectMeta {
    ObjectMeta {
        name: Some(s(name)),
        namespace: namespace.map(s),
        uid: Some(format!("uid-{}", name)),
        annotations: vec![],
        owner_references: Some(owners),
    }
}

fn kinds_and_names(order: &[ResolvedResource]) -> Vec<(ResourceKind, String)> {
    order.iter().map(|r| (r.kind, r.meta.name.clone().unwrap())).collect()
}

/// Runs the resolver against a fixed set of objects, failing on a fetch of an unknown one.
/// Returns the names fetched, the owner of unknown kind the walk stopped at, and the resolver.
fn resolve_all(
    pod: ObjectMeta,
    cluster: &[(ResourceKind, ObjectMeta)],
) -> (Vec<String>, Option<OwnerReference>, OwnerChainResolver) {
    let mut resolver = OwnerChainResolver::new(pod);
    let mut fetched = vec![];
    loop {
        match resolver.next_owner() {
            OwnerStep::Fetch(kind, reference) => {
                let (_, meta) = cluster
                    .iter()
                    .find(|(k, m)| *k == kind && m.name.as_deref() == Some(reference.name.as_str()))
                    .expect("owner exists");
                fetched.push(reference.name.clone());
                resolver.add_resolved(kind, meta.clone());
            }
            OwnerStep::Unrecognized(owner) => return (fetched, Some(owner), resolver),
            OwnerStep::Complete => return (fetched, None, resolver),
        }
    }
}

fn resolve(pod: ObjectMeta, cluster: &[(ResourceKind, ObjectMeta)]) -> (Vec<String>, OwnerChainResolver) {
    let (fetched, _, resolver) = resolve_all(pod, cluster);
    (fetched, resolver)
}

#[test]
fn replica_set_and_deployment_chain() {
    let pod = object("app-1", Some("ns"), vec![owner("ReplicaSet", "rs-1", Some(true))]);
    let rs = object("rs-1", Some("ns"), vec![owner("Deployment", "dep-1", Some(true))]);
    let dep = object("dep-1", Some("ns"), vec![]);
    let cluster = vec![(ResourceKind::ReplicaSet, rs), (ResourceKind::Deployment, dep)];
    let (fetched, resolver) = resolve(pod, &cluster);
    assert_eq!(fetched, vec![s("rs-1"), s("dep-1")]);
    assert_eq!(resolver.namespace, "ns");
    assert_eq!(
        kinds_and_names(&resolver.chain),
        vec![
            (ResourceKind::Pod, s("app-1")),
            (ResourceKind::ReplicaSet, s("rs-1")),
            (ResourceKind::Deployment, s("dep-1")),
        ]
    );
    let order = resolver.deletion_order();
    assert_eq!(
        kinds_and_names(&order),
        vec![
            (ResourceKind::Deployment, s("dep-1")),
            (ResourceKind::ReplicaSet, s("rs-1")),
            (ResourceKind::Pod, s("app-1")),
        ]
    );
}

#[test]
fn job_and_deployment_chain_is_the_same_every_time() {
    let pod = object("p", None, vec![owner("Job", "job-1", Some(true))]);
    let job = object("job-1", None, vec![owner("Deployment", "dep-1", Some(true))]);
    let dep = object("dep-1", None, vec![]);
    let cluster = vec![(ResourceKind::Job, job), (ResourceKind::Deployment, dep)];
    for _ in 0..3 {
        let (_, resolver) = resolve(pod.clone(), &cluster);
        assert_eq!(resolver.namespace, "default");
        assert_eq!(
            kinds_and_names(&resolver.deletion_order()),
            vec![
                (ResourceKind::Deployment, s("dep-1")),
                (ResourceKind::Job, s("job-1")),
                (ResourceKind::Pod, s("p")),
            ]
        );
    }
}

#[test]
fn repeated_owner_reference_is_fetched_once() {
    let pod = object(
        "p",
        Some("ns"),
        vec![owner("Job", "job-1", Some(true)), owner("Job", "job-1", Some(true))],
    );
    let job = object("job-1", Some("ns"), vec![owner("Deployment", "dep-1", Some(true))]);
    let dep = object("dep-1", Some("ns"), vec![]);
    let cluster = vec![(ResourceKind::Job, job), (ResourceKind::Deployment, dep)];
    let (fetched, resolver) = resolve(pod, &cluster);
    assert_eq!(fetched, vec![s("job-1"), s("dep-1")]);
    assert_eq!(
        kinds_and_names(&resolver.deletion_order()),
        vec![
            (ResourceKind::Deployment, s("dep-1")),
            (ResourceKind::Job, s("job-1")),
            (ResourceKind::Pod, s("p")),
        ]
    );
}

#[test]
fn owner_cycle_ends_the_walk() {
    let pod = object("p", Some("ns"), vec![owner("Job", "job-1", Some(true))]);
    let job1 = object("job-1", Some("ns"), vec![owner("Job", "job-2", Some(true))]);
    let job2 = object("job-2", Some("ns"), vec![owner("Job", "job-1", Some(true))]);
    let cluster = vec![(ResourceKind::Job, job1.clone()), (ResourceKind::Job, job2)];
    let (fetched, mut resolver) = resolve(pod, &cluster);
    assert_eq!(fetched, vec![s("job-1"), s("job-2")]);
    resolver.add_resolved(ResourceKind::Job, job1);
    assert_eq!(resolver.chain.len(), 3);
    assert!(matches!(resolver.next_owner(), OwnerStep::Complete));
}

#[test]
fn unknown_owner_kind_stops_the_walk() {
    let pod = object("p", Some("ns"), vec![owner("Job", "job-1", Some(true))]);
    let job = object("job-1", Some("ns"), vec![owner("CronJob", "cron-1", Some(true))]);
    let cluster = vec![(ResourceKind::Job, job)];
    let (fetched, stopped_at, mut resolver) = resolve_all(pod, &cluster);
    assert_eq!(fetched, vec![s("job-1")]);
    let stopped_at = stopped_at.expect("walk stops at the unknown owner");
    assert_eq!(stopped_at.kind, "CronJob");
    assert_eq!(stopped_at.name, "cron-1");
    assert!(resolver.pending.is_empty());
    assert!(matches!(resolver.next_owner(), OwnerStep::Complete));
    assert_eq!(
        kinds_and_names(&resolver.deletion_order()),
        vec![(ResourceKind::Job, s("job-1")), (ResourceKind::Pod, s("p"))]
    );
}

#[test]
fn unknown_kind_drops_other_pending_owners() {
    let pod = object(
        "p",
        Some("ns"),
        vec![owner("Job", "job-1", Some(true)), owner("StatefulSet", "st-1", Some(true))],
    );
    let mut resolver = OwnerChainResolver::new(pod);
    match resolver.next_owner() {
        OwnerStep::Unrecognized(owner) => assert_eq!(owner.kind, "StatefulSet"),
        other => panic!("unexpected step {:?}", other),
    }
    assert!(resolver.pending.is_empty());
    assert_eq!(resolver.chain.len(), 1);
}

#[test]
fn only_controller_owners_are_followed() {
    let meta = object(
        "p",
        Some("ns"),
        vec![
            owner("ReplicaSet", "a", Some(false)),
            owner("ReplicaSet", "b", None),
            owner("ReplicaSet", "c", Some(true)),
        ],
    );
    let owners = get_owners(&meta);
    assert_eq!(owners.len(), 1);
    assert_eq!(owners[0].name, "c");
    let none = ObjectMeta { owner_references: None, ..meta };
    assert!(get_owners(&none).is_empty());
}

#[test]
fn owner_kinds() {
    assert_eq!(owner_kind(&s("Job")), Some(ResourceKind::Job));
    assert_eq!(owner_kind(&s("ReplicaSet")), Some(ResourceKind::ReplicaSet));
    assert_eq!(owner_kind(&s("Deployment")), Some(ResourceKind::Deployment));
    assert_eq!(owner_kind(&s("Pod")), None);
    assert_eq!(owner_kind(&s("job")), None);
}

fn resolved(kind: ResourceKind, name: Option<&str>, namespace: Option<&str>) -> ResolvedResource {
    let mut meta = object("x", namespace, vec![]);
    meta.name = name.map(s);
    ResolvedResource { kind, meta }
}

#[test]
fn deleter_issues_deletions_in_order() {
    let order = vec![
        resolved(ResourceKind::Deployment, Some("dep-1"), Some("ns")),
        resolved(ResourceKind::Pod, Some("app-1"), Some("ns")),
    ];
    let mut deleter = CascadingDeleter::new(order);
    match deleter.next_step() {
        DeleteStep::Delete(req) => {
            assert_eq!(req.kind, ResourceKind::Deployment);
            assert_eq!(req.namespace, "ns");
            assert_eq!(req.name, "dep-1");
        }
        other => panic!("unexpected step {:?}", other),
    }
    deleter.record_result(true);
    match deleter.next_step() {
        DeleteStep::Delete(req) => {
            assert_eq!(req.kind, ResourceKind::Pod);
            assert_eq!(req.name, "app-1");
        }
        other => panic!("unexpected step {:?}", other),
    }
    deleter.record_result(true);
    assert!(matches!(deleter.next_step(), DeleteStep::Complete));
}

#[test]
fn deleter_stops_at_first_failure() {
    let order = vec![
        resolved(ResourceKind::Deployment, Some("dep-1"), Some("ns")),
        resolved(ResourceKind::Pod, Some("app-1"), Some("ns")),
    ];
    let mut deleter = CascadingDeleter::new(order);
    assert!(matches!(deleter.next_step(), DeleteStep::Delete(_)));
    deleter.record_result(false);
    assert!(matches!(deleter.next_step(), DeleteStep::Aborted));
    deleter.record_result(true);
    assert!(matches!(deleter.next_step(), DeleteStep::Aborted));
}

#[test]
fn deleter_refuses_objects_without_namespace_or_name() {
    let order = vec![
        resolved(ResourceKind::Job, Some("job-1"), Some("ns")),
        resolved(ResourceKind::Pod, Some("app-1"), None),
    ];
    let mut deleter = CascadingDeleter::new(order);
    assert!(matches!(deleter.next_step(), DeleteStep::Delete(_)));
    deleter.record_result(true);
    assert!(matches!(deleter.next_step(), DeleteStep::MissingMetadata(ResourceKind::Pod)));
    assert!(matches!(deleter.next_step(), DeleteStep::Aborted));
    let mut unnamed = CascadingDeleter::new(vec![resolved(ResourceKind::Job, None, Some("ns"))]);
    assert!(matches!(unnamed.next_step(), DeleteStep::MissingMetadata(ResourceKind::Job)));
}

#[test]
fn empty_deletion_order_is_complete() {
    let mut deleter = CascadingDeleter::new(vec![]);
    assert!(matches!(deleter.next_step(), DeleteStep::Complete));
}

fn pod_with(statuses: Option<Vec<ContainerStatus>>, ip: Option<&str>) -> PodSnapshot {
    PodSnapshot {
        metadata: object("app-1", Some("ns"), vec![]),
        status: Some(PodStatus { pod_ip: ip.map(s), container_statuses: statuses }),
    }
}

#[test]
fn sidecar_absent_means_no_signal() {
    let cleanup = CleanupPod::new("istio-proxy", 5000);
    let pod = pod_with(Some(vec![ContainerStatus { name: s("worker"), terminated: None }]), Some("10.1.2.3"));
    assert_eq!(cleanup.get_istio_container_ip(&pod), None);
    assert_eq!(cleanup.sidecar_shutdown_url(&pod), None);
    let no_status = PodSnapshot { metadata: object("p", None, vec![]), status: None };
    assert_eq!(cleanup.sidecar_shutdown_url(&no_status), None);
    assert_eq!(cleanup.sidecar_shutdown_url(&pod_with(None, Some("10.1.2.3"))), None);
}

#[test]
fn sidecar_present_is_signalled_at_pod_ip() {
    let cleanup = CleanupPod::new("istio-proxy", 5000);
    assert_eq!(cleanup.istio_container_name, "istio-proxy");
    assert_eq!(cleanup.istio_deadline_ms, 5000);
    let pod = pod_with(
        Some(vec![
            ContainerStatus { name: s("worker"), terminated: None },
            ContainerStatus { name: s("istio-proxy"), terminated: None },
        ]),
        Some("10.1.2.3"),
    );
    assert_eq!(cleanup.get_istio_container_ip(&pod), Some(s("10.1.2.3")));
    assert_eq!(
        cleanup.sidecar_shutdown_url(&pod),
        Some(s("http://10.1.2.3:15000/quitquitquit"))
    );
    let pod = pod_with(Some(vec![ContainerStatus { name: s("istio-proxy"), terminated: None }]), None);
    assert_eq!(cleanup.get_istio_container_ip(&pod), None);
}

#[test]
fn grace_period_only_after_a_delivered_signal() {
    let cleanup = CleanupPod::new("istio-proxy", 5000);
    assert_eq!(cleanup.grace_after_signal(true), 5000);
    assert_eq!(cleanup.grace_after_signal(false), 0);
}

#[test]
fn shutdown_endpoint() {
    assert_eq!(shutdown_url("127.0.0.1"), "http://127.0.0.1:15000/quitquitquit");
}

#[test]
fn tracker_records_once_and_prunes_expired() {
    let mut tracker = DedupTracker::new();
    assert!(!tracker.contains(&s("a")));
    tracker.record(s("a"), 100);
    tracker.record(s("a"), 500);
    tracker.record(s("b"), 300);
    assert!(tracker.contains(&s("a")));
    tracker.prune(100);
    assert!(tracker.contains(&s("a")));
    tracker.prune(101);
    assert!(!tracker.contains(&s("a")));
    assert!(tracker.contains(&s("b")));
    tracker.prune(301);
    assert!(!tracker.contains(&s("b")));
}

fn eligible_pod(uid: Option<&str>) -> PodContainer {
    let mut metadata = object("app-1", Some("ns"), vec![]);
    metadata.uid = uid.map(s);
    PodContainer {
        pod: PodSnapshot {
            metadata,
            status: Some(PodStatus {
                pod_ip: None,
                container_statuses: Some(vec![ContainerStatus {
                    name: s("worker"),
                    terminated: Some(TerminatedState { finished_at_ms: Some(0) }),
                }]),
            }),
        },
        name: s("app-1"),
        namespace: s("ns"),
        condition: KillCondition::Any,
        critical_containers: vec![s("worker")],
    }
}

#[test]
fn handled_pod_is_suppressed_until_expiry() {
    let mut tracker = DedupTracker::new();
    let pod = eligible_pod(Some("uid-1"));
    let now = 50_000;
    assert_eq!(teardown_candidate(&tracker, &pod, 1000, now), Some(s("uid-1")));
    record_teardown(&mut tracker, s("uid-1"), now);
    assert_eq!(teardown_candidate(&tracker, &pod, 1000, now), None);
    tracker.prune(now + 10_000);
    assert_eq!(teardown_candidate(&tracker, &pod, 1000, now + 10_000), None);
    tracker.prune(now + 10_001);
    assert_eq!(teardown_candidate(&tracker, &pod, 1000, now + 10_001), Some(s("uid-1")));
}

#[test]
fn pod_without_uid_or_not_eligible_is_skipped() {
    let tracker = DedupTracker::new();
    assert_eq!(teardown_candidate(&tracker, &eligible_pod(None), 1000, 50_000), None);
    assert_eq!(teardown_candidate(&tracker, &eligible_pod(Some("u")), 1000, 500), None);
}

#[test]
fn suppression_window_saturates() {
    assert_eq!(suppression_expiry(1_000), 11_000);
    assert_eq!(suppression_expiry(i64::MAX - 10_000), i64::MAX);
    assert_eq!(suppression_expiry(i64::MAX - 5), i64::MAX);
}

#[test]
fn logging_switches_select_a_level() {
    let opts = |verbose, warn, error| LoggingOpts { verbose, warn, error };
    assert_eq!(opts(3, true, true).to_level_filter(), LogLevel::Error);
    assert_eq!(opts(3, true, false).to_level_filter(), LogLevel::Warn);
    assert_eq!(opts(0, false, false).to_level_filter(), LogLevel::Info);
    assert_eq!(opts(1, false, false).to_level_filter(), LogLevel::Debug);
    assert_eq!(opts(2, false, false).to_level_filter(), LogLevel::Trace);
}

#[test]
fn watcher_args_give_sidecar_settings() {
    let args = WatcherArgs {
        istio_container_name: s("envoy"),
        istio_deadline_ms: 250,
        critical_deadline: 1000,
    };
    let cleanup = args.cleanup();
    assert_eq!(cleanup.istio_container_name, "envoy");
    assert_eq!(cleanup.istio_deadline_ms, 250);
}
