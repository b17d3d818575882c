use kube_tunnel::config::{Config, InnerConfig};
use kube_tunnel::contexts::{distinct_contexts, find_context, setup_configs};

fn forward(context: &str, pod: &str, local_port: u16) -> Config {
    Config::from(InnerConfig {
        context: context.to_string(),
        pod: pod.to_string(),
        namespace: "default".to_string(),
        pod_port: 80,
        local_port,
    })
}

fn names(names: &[&str]) -> Vec<String> {
    names.iter().map(|name| name.to_string()).collect()
}

#[test]
fn find_context_gives_the_first_place() {
    let known = names(&["dev", "prod", "dev"]);
    assert_eq!(find_context(&known, &"dev".to_string()), Some(0));
    assert_eq!(find_context(&known, &"prod".to_string()), Some(1));
    assert_eq!(find_context(&known, &"test".to_string()), None);
    assert_eq!(find_context(&Vec::new(), &"dev".to_string()), None);
}

#[test]
fn find_context_tells_case_and_length_apart() {
    let known = names(&["dev"]);
    assert_eq!(find_context(&known, &"Dev".to_string()), None);
    assert_eq!(find_context(&known, &"de".to_string()), None);
    assert_eq!(find_context(&known, &"".to_string()), None);
}

#[test]
fn distinct_contexts_keeps_first_occurrences_in_order() {
    let configs = vec![
        forward("prod", "a", 1),
        forward("dev", "b", 2),
        forward("prod", "c", 3),
        forward("test", "d", 4),
        forward("dev", "e", 5),
    ];
    assert_eq!(distinct_contexts(&configs), names(&["prod", "dev", "test"]));
}

#[test]
fn distinct_contexts_of_nothing_is_nothing() {
    assert!(distinct_contexts(&Vec::new()).is_empty());
}

#[test]
fn setup_configs_accepts_known_contexts() {
    let configs = vec![forward("dev", "a", 1), forward("prod", "b", 2)];
    assert_eq!(setup_configs(&configs, &names(&["prod", "dev", "test"])), Vec::<usize>::new());
    assert_eq!(setup_configs(&Vec::new(), &Vec::new()), Vec::<usize>::new());
    assert_eq!(setup_configs(&Vec::new(), &names(&["dev"])), Vec::<usize>::new());
}

#[test]
fn setup_configs_reports_every_unknown_context_in_order() {
    let configs = vec![
        forward("dev", "a", 1),
        forward("staging", "b", 2),
        forward("prod", "c", 3),
        forward("nowhere", "d", 4),
    ];
    assert_eq!(setup_configs(&configs, &names(&["dev", "prod"])), vec![1, 3]);
    assert_eq!(setup_configs(&configs, &names(&["dev", "prod", "staging"])), vec![3]);
    assert_eq!(setup_configs(&configs, &names(&["nowhere"])), vec![0, 1, 2]);
    assert_eq!(setup_configs(&configs, &Vec::new()), vec![0, 1, 2, 3]);
}

#[test]
fn setup_configs_reports_each_forward_of_an_unknown_context() {
    let configs = vec![
        forward("staging", "a", 1),
        forward("dev", "b", 2),
        forward("staging", "c", 3),
        forward("staging", "a", 1),
    ];
    assert_eq!(setup_configs(&configs, &names(&["dev"])), vec![0, 2, 3]);
}
