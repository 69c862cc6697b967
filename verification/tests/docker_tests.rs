use std::collections::HashMap;

use dockpit::docker::{
    block_io_totals, build_container_list, network_totals, parse_container, parse_state, process_table,
    sort_by_name, str_eq, text_less, BlkioEntry, Container, ContainerState, ContainerSummary, NetworkCounters,
    PortSummary, PortType,
};

fn summary(name: Option<&str>, state: Option<&str>) -> ContainerSummary {
    ContainerSummary {
        id: Some(format!("id-{}", name.unwrap_or("none"))),
        names: name.map(|n| vec![format!("/{n}")]),
        image: Some("nginx:latest".to_string()),
        status: Some("Up 2 hours".to_string()),
        state: state.map(|s| s.to_string()),
        created: Some(1700000000),
        ports: None,
        labels: None,
    }
}

fn named(name: &str) -> Container {
    Container {
        id: name.to_string(),
        name: name.to_string(),
        image: String::new(),
        status: String::new(),
        state: ContainerState::Running,
        created: 0,
        ports: Vec::new(),
        labels: HashMap::new(),
    }
}

#[test]
fn parse_state_maps_docker_states() {
    let s = |x: &str| parse_state(&Some(x.to_string()));
    assert_eq!(s("running"), ContainerState::Running);
    assert_eq!(s("paused"), ContainerState::Paused);
    assert_eq!(s("exited"), ContainerState::Stopped);
    assert_eq!(s("stopped"), ContainerState::Stopped);
    assert_eq!(s("dead"), ContainerState::Dead);
    assert_eq!(s("restarting"), ContainerState::Restarting);
    assert_eq!(s("created"), ContainerState::Stopped);
    assert_eq!(parse_state(&None), ContainerState::Stopped);
}

#[test]
fn parse_container_trims_slash_and_fills_defaults() {
    let c = parse_container(summary(Some("web"), Some("running")));
    assert_eq!(c.name, "web");
    assert_eq!(c.id, "id-web");
    assert_eq!(c.image, "nginx:latest");
    assert_eq!(c.status, "Up 2 hours");
    assert_eq!(c.state, ContainerState::Running);
    assert_eq!(c.created, 1700000000);
    assert!(c.ports.is_empty());
    assert!(c.labels.is_empty());

    let bare = ContainerSummary {
        id: None,
        names: None,
        image: None,
        status: None,
        state: None,
        created: None,
        ports: None,
        labels: None,
    };
    let c = parse_container(bare);
    assert_eq!(c.name, "");
    assert_eq!(c.id, "");
    assert_eq!(c.created, 0);
    assert_eq!(c.state, ContainerState::Stopped);
}

#[test]
fn parse_container_takes_first_name_and_trims_all_leading_slashes() {
    let mut s = summary(None, Some("paused"));
    s.names = Some(vec!["//db".to_string(), "/other".to_string()]);
    let c = parse_container(s);
    assert_eq!(c.name, "db");
    assert_eq!(c.state, ContainerState::Paused);
}

#[test]
fn parse_container_names_port_protocols() {
    let mut s = summary(Some("p"), None);
    s.ports = Some(vec![
        PortSummary { private_port: 80, public_port: Some(8080), typ: Some(PortType::Tcp) },
        PortSummary { private_port: 53, public_port: None, typ: Some(PortType::Udp) },
        PortSummary { private_port: 9, public_port: None, typ: Some(PortType::Sctp) },
        PortSummary { private_port: 1, public_port: None, typ: None },
        PortSummary { private_port: 2, public_port: None, typ: Some(PortType::Empty) },
    ]);
    let mut labels = HashMap::new();
    labels.insert("k".to_string(), "v".to_string());
    s.labels = Some(labels);
    let c = parse_container(s);
    let protos: Vec<&str> = c.ports.iter().map(|p| p.protocol.as_str()).collect();
    assert_eq!(protos, vec!["tcp", "udp", "sctp", "tcp", "tcp"]);
    assert_eq!(c.ports[0].private, 80);
    assert_eq!(c.ports[0].public, Some(8080));
    assert_eq!(c.labels.get("k").map(|s| s.as_str()), Some("v"));
}

#[test]
fn container_list_is_sorted_case_insensitively_and_stably() {
    let list = build_container_list(vec![
        summary(Some("beta"), Some("running")),
        summary(Some("Alpha"), Some("exited")),
        summary(Some("Beta"), Some("running")),
        summary(Some("alpha2"), Some("dead")),
    ]);
    let names: Vec<&str> = list.iter().map(|c| c.name.as_str()).collect();
    assert_eq!(names, vec!["Alpha", "alpha2", "beta", "Beta"]);
    assert_eq!(list[0].state, ContainerState::Stopped);
    assert_eq!(list[1].state, ContainerState::Dead);
}

#[test]
fn sort_by_name_orders_by_lowercase() {
    let sorted = sort_by_name(vec![named("zeta"), named("Eta"), named("eta"), named("ALPHA")]);
    let names: Vec<&str> = sorted.iter().map(|c| c.name.as_str()).collect();
    assert_eq!(names, vec!["ALPHA", "Eta", "eta", "zeta"]);
}

#[test]
fn text_less_is_lexicographic() {
    assert!(text_less("abc", "abd"));
    assert!(text_less("ab", "abc"));
    assert!(!text_less("abc", "abc"));
    assert!(!text_less("b", "abc"));
    assert!(text_less("", "a"));
    assert!(str_eq("same", "same"));
    assert!(!str_eq("same", "Same"));
}

#[test]
fn network_totals_sum_interfaces() {
    assert_eq!(network_totals(&None), Some((0, 0)));
    let nets = Some(vec![
        NetworkCounters { rx_bytes: 100, tx_bytes: 7 },
        NetworkCounters { rx_bytes: 23, tx_bytes: 5 },
    ]);
    assert_eq!(network_totals(&nets), Some((123, 12)));
    let huge = Some(vec![
        NetworkCounters { rx_bytes: u64::MAX, tx_bytes: 0 },
        NetworkCounters { rx_bytes: 1, tx_bytes: 0 },
    ]);
    assert_eq!(network_totals(&huge), None);
}

#[test]
fn block_io_totals_match_op_case_insensitively() {
    assert_eq!(block_io_totals(&None), Some((0, 0)));
    let e = |op: &str, value: u64| BlkioEntry { op: op.to_string(), value };
    let entries = Some(vec![e("Read", 10), e("WRITE", 4), e("read", 5), e("Sync", 99), e("Write", 1)]);
    assert_eq!(block_io_totals(&entries), Some((15, 5)));
    let over = Some(vec![e("write", u64::MAX), e("write", 1)]);
    assert_eq!(block_io_totals(&over), None);
}

#[test]
fn process_table_joins_with_tabs_and_newlines() {
    let titles = Some(vec!["PID".to_string(), "CMD".to_string()]);
    let procs = Some(vec![
        vec!["1".to_string(), "nginx".to_string()],
        vec!["7".to_string(), "worker".to_string()],
    ]);
    assert_eq!(process_table(&titles, &procs), "PID\tCMD\n1\tnginx\n7\tworker\n");
    assert_eq!(process_table(&None, &procs), "1\tnginx\n7\tworker\n");
    assert_eq!(process_table(&titles, &None), "PID\tCMD\n");
    assert_eq!(process_table(&None, &None), "");
}
