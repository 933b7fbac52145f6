use k8s_job_dispatcher::args::Args;
use k8s_job_dispatcher::json::escape_pointer;
use k8s_job_dispatcher::node_filter::{
    describe_taint, partition_by_tolerations, suggested_toleration, PodAdmission, Toleration,
};
use k8s_job_dispatcher::objects::{Node, Taint};
use k8s_job_dispatcher::order::firsts_in_order;
use k8s_job_dispatcher::selection::{
    dedup_by_name, desired_names, explicit_names, next_page, node_still_selected,
    nodes_owned_but_not_desired, select_nodes, Recheck,
};
use k8s_job_dispatcher::settle::{elapsed_secs, SettleStep, Settling};
use k8s_job_dispatcher::template::{template_admission, JobTemplate, PodFields};
use k8s_job_dispatcher::text::{join, number, sorts_before, space, split, split_once, trim};

const SEC: u64 = 1_000_000_000;

fn node(name: &str) -> Node {
    Node {
        name: Some(name.to_string()),
        ..Default::default()
    }
}

fn taint(key: &str, effect: &str) -> Taint {
    Taint {
        key: key.to_string(),
        effect: effect.to_string(),
        ..Default::default()
    }
}

fn tainted(name: &str, taints: Vec<Taint>) -> Node {
    Node {
        taints: Some(taints),
        ..node(name)
    }
}

fn names(nodes: &[Node]) -> Vec<&str> {
    nodes.iter().filter_map(|n| n.name.as_deref()).collect()
}

fn toleration(key: Option<&str>, operator: Option<&str>, effect: Option<&str>) -> Toleration {
    Toleration {
        key: key.map(str::to_string),
        operator: operator.map(str::to_string),
        value: None,
        effect: effect.map(str::to_string),
        toleration_seconds: None,
    }
}

fn admission(tolerations: Vec<Toleration>) -> PodAdmission {
    PodAdmission {
        tolerations,
        host_network: false,
    }
}

#[test]
fn template_admission_is_read_from_the_pod_spec() {
    let toleration = Toleration {
        key: Some("node-role.kubernetes.io/control-plane".to_string()),
        operator: Some("Exists".to_string()),
        value: None,
        effect: None,
        toleration_seconds: None,
    };
    let template = Some(PodFields {
        tolerations: Some(vec![toleration.clone()]),
        host_network: Some(true),
    });

    let admission = template_admission(&template);
    assert_eq!(admission.tolerations, vec![toleration]);
    assert!(admission.host_network);
}

#[test]
fn a_template_without_tolerations_admits_nothing_extra() {
    let bare = PodFields {
        tolerations: None,
        host_network: None,
    };
    for template in [Some(bare), None] {
        let admission = template_admission(&template);
        assert!(admission.tolerations.is_empty());
        assert!(!admission.host_network);
    }
}

#[test]
fn a_template_is_read_from_yaml() {
    let template = JobTemplate::parse(
        "apiVersion: batch/v1\nkind: Job\nmetadata:\n  name: t\nspec:\n  template:\n    spec:\n      \
         hostNetwork: true\n      containers: []\n      tolerations:\n      - key: a\n        \
         operator: Equal\n        value: b\n        effect: NoExecute\n        \
         tolerationSeconds: 30\n",
    )
    .expect("the text is a Job");
    let admission = template.admission();
    assert!(admission.host_network);
    assert_eq!(
        admission.tolerations,
        vec![Toleration {
            key: Some("a".to_string()),
            operator: Some("Equal".to_string()),
            value: Some("b".to_string()),
            effect: Some("NoExecute".to_string()),
            toleration_seconds: Some(30),
        }]
    );
    assert_eq!(template.job().metadata.name.as_deref(), Some("t"));

    let bare = JobTemplate::parse("apiVersion: batch/v1\nkind: Job\n").expect("an empty Job");
    assert!(bare.admission().tolerations.is_empty());
    assert!(JobTemplate::parse("kind: [").is_err());
}

#[test]
fn a_toleration_is_for_what_it_names() {
    let taints = || vec![tainted("w", vec![taint("k", "NoSchedule")])];
    let admitted = |tolerations: Vec<Toleration>| {
        partition_by_tolerations(&taints(), &admission(tolerations)).0.len() == 1
    };
    assert!(!admitted(vec![]));
    assert!(admitted(vec![toleration(Some("k"), Some("Exists"), None)]));
    assert!(admitted(vec![toleration(None, Some("Exists"), Some("NoSchedule"))]));
    // No operator is Equal, and no value equals no value.
    assert!(admitted(vec![toleration(Some("k"), None, None)]));
    assert!(!admitted(vec![toleration(Some("k"), Some("Exists"), Some("NoExecute"))]));
    assert!(!admitted(vec![toleration(Some("other"), Some("Exists"), None)]));
    assert!(!admitted(vec![toleration(Some("k"), Some("Near"), None)]));
    let mut valued = toleration(Some("k"), Some("Equal"), None);
    valued.value = Some("v".to_string());
    assert!(!admitted(vec![valued]));
}

#[test]
fn the_daemonset_tolerations_are_for_every_pod() {
    let nodes = [
        tainted("a", vec![taint("node.kubernetes.io/not-ready", "NoExecute")]),
        tainted("b", vec![taint("node.kubernetes.io/not-ready", "NoSchedule")]),
        tainted("c", vec![taint("node.kubernetes.io/unschedulable", "NoSchedule")]),
        tainted("d", vec![taint("node.kubernetes.io/network-unavailable", "NoSchedule")]),
        tainted("e", vec![taint("k", "PreferNoSchedule")]),
        Node::default(),
    ];
    let (admitted, skipped) = partition_by_tolerations(&nodes, &admission(vec![]));
    assert_eq!(admitted, vec!["a", "c", "e"]);
    let skipped: Vec<_> = skipped
        .iter()
        .map(|s| (s.name.as_str(), describe_taint(&s.taint)))
        .collect();
    assert_eq!(
        skipped,
        vec![
            ("b", "node.kubernetes.io/not-ready:NoSchedule".to_string()),
            ("d", "node.kubernetes.io/network-unavailable:NoSchedule".to_string()),
        ]
    );
    let host = PodAdmission {
        tolerations: vec![],
        host_network: true,
    };
    assert_eq!(partition_by_tolerations(&nodes, &host).0, vec!["a", "c", "d", "e"]);
    assert_eq!(
        suggested_toleration(&taint("k", "NoExecute")),
        "- key: k\n  operator: Exists\n  effect: NoExecute"
    );
}

#[test]
fn nodes_are_kept_once_and_sorted() {
    let list = || vec![node("b"), node("a"), Node::default(), node("b"), node("c")];
    assert_eq!(names(&dedup_by_name(list(), None)), vec!["a", "b", "c"]);
    let keep = ["c".to_string(), "b".to_string()];
    assert_eq!(names(&dedup_by_name(list(), Some(&keep))), vec!["b", "c"]);
}

#[test]
fn what_matched_is_not_what_is_admitted() {
    let listed = || vec![tainted("b", vec![taint("k", "NoSchedule")]), node("a"), node("a")];
    let selection = select_nodes(listed(), false, &admission(vec![]));
    assert_eq!(selection.matched, vec!["a", "b"]);
    assert_eq!(names(&selection.admitted), vec!["a"]);
    assert_eq!(selection.skipped.len(), 1);

    let selection = select_nodes(listed(), true, &admission(vec![]));
    assert_eq!(names(&selection.admitted), vec!["a", "b"]);
    assert!(selection.skipped.is_empty());
}

#[test]
fn nodes_that_left_the_selection_are_found() {
    let owned = vec![node("a"), Node::default(), node("b")];
    let left = nodes_owned_but_not_desired(owned, &["a".to_string()]);
    assert_eq!(names(&left), vec!["b"]);
}

#[test]
fn explicit_nodes_are_taken_once_and_sorted() {
    assert_eq!(explicit_names(" b,a,,b , c"), vec!["a", "b", "c"]);
    let mut args = Args::new("t".to_string(), "p".to_string());
    args.nodes = Some(" b,a".to_string());
    assert!(matches!(node_still_selected(&args, "b"), Recheck::Known(true)));
    assert!(matches!(node_still_selected(&args, "c"), Recheck::Known(false)));
}

#[test]
fn one_node_is_asked_about_among_the_selected() {
    let mut args = Args::new("t".to_string(), "p".to_string());
    let asked = |args: &Args| match node_still_selected(args, "w") {
        Recheck::Ask { field_selector } => field_selector,
        other => panic!("{other:?}"),
    };
    assert_eq!(asked(&args), "metadata.name=w");
    args.node_field_selector = Some(String::new());
    assert_eq!(asked(&args), "metadata.name=w");
    args.node_field_selector = Some("spec.unschedulable=false".to_string());
    assert_eq!(asked(&args), "spec.unschedulable=false,metadata.name=w");
}

#[test]
fn an_empty_token_ends_a_list() {
    assert_eq!(next_page(None), None);
    assert_eq!(next_page(Some(String::new())), None);
    assert_eq!(next_page(Some("t".to_string())), Some("t".to_string()));
}

fn list(names: &[&str]) -> Vec<String> {
    names.iter().map(|name| name.to_string()).collect()
}

#[test]
fn a_set_is_taken_at_once_without_a_wait() {
    let mut settling = Settling::new(0, 0, 15);
    assert_eq!(settling.look(list(&["a"]), 1), SettleStep::Accept);
    let mut settling = Settling::new(0, 0, 15);
    assert_eq!(settling.look(vec![], 1), SettleStep::Empty);
}

#[test]
fn a_set_has_to_stay_unchanged_while_waiting() {
    let mut settling = Settling::new(0, 120, 15);
    assert_eq!(settling.look(vec![], 0), SettleStep::Wait { changed: true });
    assert_eq!(settling.look(vec![], 5 * SEC), SettleStep::Wait { changed: false });
    assert_eq!(
        settling.look(list(&["a"]), 10 * SEC),
        SettleStep::Wait { changed: true }
    );
    // A node labelled just after starts the wait anew.
    assert_eq!(
        settling.look(list(&["a", "b"]), 20 * SEC),
        SettleStep::Wait { changed: true }
    );
    assert_eq!(
        settling.look(list(&["a", "b"]), 35 * SEC - 1),
        SettleStep::Wait { changed: false }
    );
    assert_eq!(settling.look(list(&["a", "b"]), 35 * SEC), SettleStep::Accept);
}

#[test]
fn a_wait_that_is_over_takes_what_there_is() {
    let mut settling = Settling::new(SEC, 10, 15);
    assert_eq!(
        settling.look(list(&["a"]), 5 * SEC),
        SettleStep::Wait { changed: true }
    );
    assert_eq!(settling.look(list(&["b"]), 11 * SEC), SettleStep::Accept);
    let mut settling = Settling::new(SEC, 10, 15);
    assert_eq!(settling.look(vec![], 11 * SEC), SettleStep::Empty);
    assert_eq!(elapsed_secs(5 * SEC, 4 * SEC), 0);
}

#[test]
fn white_space_is_what_the_standard_library_says_it_is() {
    for n in 0..=0x10ffffu32 {
        if let Some(c) = char::from_u32(n) {
            assert_eq!(space(c), c.is_whitespace(), "{n:x}");
        }
    }
}

#[test]
fn text_is_taken_apart_as_the_standard_library_does() {
    for text in ["", " ", "a", " a b\u{3000}", "a,b", ",a,,b,", "x=y=z", "=", "é/ü/"] {
        assert_eq!(trim(text), text.trim());
        assert_eq!(split(text, ','), text.split(',').collect::<Vec<_>>());
        assert_eq!(split_once(text, '='), text.split_once('='));
        assert_eq!(
            escape_pointer(text),
            text.replace('~', "~0").replace('/', "~1")
        );
        for other in ["", "a", "b", "é", "a,"] {
            assert_eq!(sorts_before(text, other), text < other);
        }
    }
    assert_eq!(join(&list(&["a", "b"]), ", "), "a, b");
    for n in [0, 7, 10, 99, 100, u64::MAX] {
        assert_eq!(number(n), n.to_string());
    }
}

#[test]
fn the_first_of_each_name_is_picked_in_order() {
    assert_eq!(firsts_in_order(&list(&["b", "a", "b", "c", "a"])), vec![1, 0, 3]);
    assert_eq!(firsts_in_order(&list(&[])), Vec::<usize>::new());
}

#[test]
fn an_explicit_list_says_which_nodes_are_desired() {
    let mut args = Args::new("t".to_string(), "p".to_string());
    let nodes = [node("b"), Node::default(), node("a")];
    assert_eq!(desired_names(&args, &nodes), None);
    args.nodes = Some("a,b".to_string());
    assert_eq!(
        desired_names(&args, &nodes),
        Some(vec!["b".to_string(), "a".to_string()])
    );
}
