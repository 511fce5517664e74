use kogiasima::container::network::{
    add_batch_rules, config_container_network, create_and_setup_veth, create_assign_host_bridge,
    enable_host_ip_forwarding, init_network_isolation, interface_address, remove_firewall_rules,
    setup_nftables,
};
use kogiasima::run::Run;
use kogiasima::steps::{ActionOf, InterfaceAddress, Program, Reply, ReplyOf, StatusOf};

const ID: u128 = 0x0123_4567_89ab_4cde_8f01_2345_6789_abcd;

fn strings(list: &[&str]) -> Vec<String> {
    list.iter().map(|s| s.to_string()).collect()
}

fn failed(code: i32) -> Reply {
    ReplyOf::Failed { code: Some(code), why: "why".to_string() }
}

fn usual(action: &str) -> Reply {
    if action.starts_with("FindLink") {
        ReplyOf::Link(Some(3))
    } else {
        ReplyOf::Done
    }
}

/// The actions of a run in which the system replies as told, and else as usual.
fn trace(program: Program, replies: Vec<Reply>) -> (Vec<String>, StatusOf<String, Vec<String>>) {
    let mut run = Run::start(program);
    let mut replies = replies.into_iter();
    let mut seen = Vec::new();
    while let Some(action) = run.current() {
        let action = format!("{:?}", action);
        let reply = replies.next().unwrap_or_else(|| usual(&action));
        seen.push(action);
        let turn = run.resume(reply);
        if turn.status != StatusOf::Going {
            return (seen, turn.status);
        }
        run = turn.run;
    }
    (seen, StatusOf::Going)
}

fn ruleset(program: Program) -> serde_json::Value {
    let mut run = Run::start(program);
    loop {
        if let Some(ActionOf::ApplyRuleset(text)) = run.current() {
            return serde_json::from_str(text).unwrap();
        }
        run = run.resume(ReplyOf::Done).run;
    }
}

#[test]
fn addresses_are_read() {
    let v4 = InterfaceAddress::V4 { address: 0x0a00_0001, prefix: 24 };
    assert_eq!(interface_address("10.0.0.1/24"), Ok(v4));
    let v4 = InterfaceAddress::V4 { address: 0xffff_ffff, prefix: 32 };
    assert_eq!(interface_address("255.255.255.255/32"), Ok(v4));
    let v6 = InterfaceAddress::V6 { address: 1, prefix: 64 };
    assert_eq!(interface_address("::1/64"), Ok(v6));
}

#[test]
fn texts_that_are_no_address_are_handed_back() {
    for text in ["", "10.0.0/24", "10.0.0.1/33", "10.0.0.256/8", "br0"] {
        assert_eq!(interface_address(text), Err(text.to_string()));
    }
}

const BRIDGE_ADDRESS: &str = "AddAddress(V4 { address: 167772161, prefix: 24 })";

#[test]
fn a_new_bridge_gets_an_address() {
    let (seen, status) = trace(create_assign_host_bridge(), vec![]);
    assert_eq!(status, StatusOf::Going);
    assert_eq!(
        seen,
        strings(&[
            "AddBridge(\"br0\")",
            "Print(\"[host network] br0 bridge created successfully.\")",
            "FindLink(\"br0\")",
            BRIDGE_ADDRESS,
        ])
    );
}

#[test]
fn a_bridge_that_cannot_be_found_gets_none() {
    let replies = vec![ReplyOf::Done, ReplyOf::Done, ReplyOf::Link(None)];
    let (seen, status) = trace(create_assign_host_bridge(), replies);
    assert_eq!(status, StatusOf::Going);
    assert_eq!(seen.len(), 3);
}

#[test]
fn an_existing_bridge_is_kept() {
    let (seen, status) = trace(create_assign_host_bridge(), vec![failed(-17)]);
    assert_eq!(status, StatusOf::Going);
    assert_eq!(
        seen,
        strings(&[
            "AddBridge(\"br0\")",
            "Print(\"[host network] br0 bridge already exists, skipping creation.\")",
        ])
    );
}

#[test]
fn a_bridge_that_is_refused_is_a_failure() {
    let (_, status) = trace(create_assign_host_bridge(), vec![failed(-1)]);
    let contexts = strings(&["Failed to create network bridge instance br0"]);
    assert_eq!(status, StatusOf::Failed(contexts));
    let replies = vec![ReplyOf::Done, ReplyOf::Done, ReplyOf::Link(Some(3)), failed(-1)];
    let (_, status) = trace(create_assign_host_bridge(), replies);
    let contexts = strings(&["Failed to set ip address for host bridge"]);
    assert_eq!(status, StatusOf::Failed(contexts));
}

#[test]
fn a_fresh_cable_is_plugged_in() {
    let (seen, status) = trace(create_and_setup_veth(42), vec![]);
    assert_eq!(status, StatusOf::Going);
    assert_eq!(
        seen,
        strings(&[
            "AddVeth { host: \"veth1_host\", peer: \"veth1_cont\" }",
            "Print(\"[host network] Veth cables created fresh.\")",
            "FindLink(\"br0\")",
            "AttachLink(\"veth1_host\")",
            "MoveLink { name: \"veth1_cont\", pid: 42 }",
        ])
    );
}

#[test]
fn a_leftover_cable_is_replaced() {
    let replies = vec![failed(-17), ReplyOf::Done, ReplyOf::Link(Some(9)), failed(-19)];
    let (seen, status) = trace(create_and_setup_veth(42), replies);
    assert_eq!(status, StatusOf::Going);
    assert_eq!(
        seen,
        strings(&[
            "AddVeth { host: \"veth1_host\", peer: \"veth1_cont\" }",
            "Print(\"[host network] Leftover orphan veth detected. Cleaning up and recreating...\")",
            "FindLink(\"veth1_host\")",
            "DeleteLink",
            "AddVeth { host: \"veth1_host\", peer: \"veth1_cont\" }",
            "FindLink(\"br0\")",
            "AttachLink(\"veth1_host\")",
            "MoveLink { name: \"veth1_cont\", pid: 42 }",
        ])
    );
}

#[test]
fn cable_failures_are_explained() {
    let status = |replies| trace(create_and_setup_veth(42), replies).1;
    let failure = |context: &str| StatusOf::Failed(strings(&[context]));
    assert_eq!(status(vec![failed(-1)]), failure("Failed to create veth cables"));
    assert_eq!(
        status(vec![failed(-17), ReplyOf::Done, failed(-1)]),
        failure("Failed to read from network link steam")
    );
    assert_eq!(
        status(vec![failed(-17), ReplyOf::Done, ReplyOf::Link(None)]),
        failure("Failed to find network bridge instance br0")
    );
    assert_eq!(
        status(vec![failed(-17), ReplyOf::Done, ReplyOf::Link(Some(1)), ReplyOf::Done, failed(-17)]),
        failure("Failed to recreate veth cables after cleanup")
    );
    assert_eq!(
        status(vec![ReplyOf::Done, ReplyOf::Done, ReplyOf::Link(None)]),
        failure("Failed to find network bridge instance br0")
    );
    assert_eq!(
        status(vec![ReplyOf::Done, ReplyOf::Done, ReplyOf::Link(Some(1)), failed(-1)]),
        failure("Failed to set veth1_host's master br0")
    );
    assert_eq!(
        status(vec![ReplyOf::Done, ReplyOf::Done, ReplyOf::Link(Some(1)), ReplyOf::Done, failed(-1)]),
        failure("Failed to set namespace for veth1_cont")
    );
}

#[test]
fn isolation_is_the_bridge_and_the_cable() {
    let (seen, _) = trace(init_network_isolation(42), vec![]);
    assert_eq!(seen.len(), 10);
    assert_eq!(seen[0], "OpenNetlink");
    assert_eq!(seen[1], "AddBridge(\"br0\")");
    assert_eq!(seen[9], "MoveLink { name: \"veth1_cont\", pid: 42 }");
    let (_, status) = trace(init_network_isolation(42), vec![ReplyOf::Done, failed(-1)]);
    let contexts = strings(&[
        "Failed to create network bridge instance br0",
        "Failed to create host bridge",
    ]);
    assert_eq!(status, StatusOf::Failed(contexts));
}

#[test]
fn the_container_is_routed_through_the_bridge() {
    let (seen, status) = trace(config_container_network(), vec![]);
    assert_eq!(status, StatusOf::Going);
    assert_eq!(
        seen,
        strings(&[
            "OpenNetlink",
            "RaiseLink(\"lo\")",
            "FindLink(\"veth1_cont\")",
            "AddAddress(V4 { address: 167772162, prefix: 24 })",
            "RaiseLink(\"veth1_cont\")",
            "FindLink(\"veth1_cont\")",
            "AddRoute { destination: V4 { address: 0, prefix: 0 }, gateway: 167772161 }",
        ])
    );
}

#[test]
fn a_container_without_its_cable_is_a_failure() {
    let replies = vec![
        ReplyOf::Done,
        ReplyOf::Done,
        ReplyOf::Link(None),
        ReplyOf::Done,
        ReplyOf::Link(None),
    ];
    let (_, status) = trace(config_container_network(), replies);
    assert_eq!(status, StatusOf::Failed(strings(&["Failed to find veth1-cont"])));
}

fn content(text: &str) -> Reply {
    ReplyOf::Content(text.to_string())
}

#[test]
fn forwarding_is_turned_on() {
    let replies = vec![ReplyOf::Done, content("0\n"), ReplyOf::Done, ReplyOf::Done, content("1\n")];
    let (seen, status) = trace(enable_host_ip_forwarding(), replies);
    assert_eq!(status, StatusOf::Going);
    assert_eq!(
        seen,
        strings(&[
            "Print(\"[host network] Ensuring kernel IPv4 forwarding is active...\")",
            "ReadFile(\"/proc/sys/net/ipv4/ip_forward\")",
            "Print(\"[host network] Toggling net.ipv4.ip_forward to 1\")",
            "WriteFile { path: \"/proc/sys/net/ipv4/ip_forward\", contents: \"1\" }",
            "ReadFile(\"/proc/sys/net/ipv4/ip_forward\")",
            "Print(\"[host network] Kernel IPv6 forwarding is already enabled.\")",
        ])
    );
}

#[test]
fn forwarding_that_is_on_is_left_alone() {
    let replies = vec![ReplyOf::Done, content("1\n"), ReplyOf::Done, content("1")];
    let (seen, _) = trace(enable_host_ip_forwarding(), replies);
    assert!(seen.iter().all(|action| !action.starts_with("WriteFile")));
    assert_eq!(seen.len(), 5);
}

#[test]
fn forwarding_failures_are_explained() {
    let (_, status) = trace(enable_host_ip_forwarding(), vec![ReplyOf::Done, failed(-13)]);
    let contexts = strings(&["Failed to read from /proc/sys/net/ipv4/ip_forward"]);
    assert_eq!(status, StatusOf::Failed(contexts));
    let replies = vec![ReplyOf::Done, content("1"), ReplyOf::Done, content("2"), ReplyOf::Done, failed(-13)];
    let (_, status) = trace(enable_host_ip_forwarding(), replies);
    let contexts = strings(&["Failed to write to /proc/sys/net/ipv6/conf/all/forwarding"]);
    assert_eq!(status, StatusOf::Failed(contexts));
}

#[test]
fn the_firewall_is_a_table_with_two_chains_and_three_rules() {
    let table = "mini-docker-01234567-89ab-4cde-8f01-23456789abcd";
    let expected = r#"{"nftables": [
        {"add": {"table": {"family": "inet", "name": "TABLE"}}},
        {"add": {"chain": {"family": "inet", "table": "TABLE", "name": "forward_chain",
            "type": "filter", "hook": "forward", "prio": 0, "policy": "drop"}}},
        {"add": {"chain": {"family": "inet", "table": "TABLE", "name": "nat_chain",
            "type": "nat", "hook": "postrouting", "prio": 100, "policy": "accept"}}},
        {"add": {"rule": {"family": "inet", "table": "TABLE", "chain": "nat_chain", "expr": [
            {"match": {"left": {"meta": {"key": "oifname"}}, "right": "wlan0", "op": "=="}},
            {"match": {"left": {"meta": {"key": "iifname"}}, "right": "br0", "op": "=="}},
            {"masquerade": null}]}}},
        {"add": {"rule": {"family": "inet", "table": "TABLE", "chain": "forward_chain", "expr": [
            {"match": {"left": {"meta": {"key": "iifname"}}, "right": "wlan0", "op": "=="}},
            {"match": {"left": {"meta": {"key": "oifname"}}, "right": "br0", "op": "=="}},
            {"match": {"left": {"ct": {"key": "state"}}, "right": ["established", "related"],
                "op": "in"}},
            {"accept": null}]}}},
        {"add": {"rule": {"family": "inet", "table": "TABLE", "chain": "forward_chain", "expr": [
            {"match": {"left": {"meta": {"key": "iifname"}}, "right": "br0", "op": "=="}},
            {"match": {"left": {"meta": {"key": "oifname"}}, "right": "wlan0", "op": "=="}},
            {"accept": null}]}}}
    ]}"#
    .replace("TABLE", table);
    let expected: serde_json::Value = serde_json::from_str(&expected).unwrap();
    assert_eq!(ruleset(setup_nftables(ID)), expected);
}

#[test]
fn the_address_has_no_influence_on_the_rules() {
    let rules = |ip: &str| {
        let mut batch = nftables::batch::Batch::new();
        batch.add_cmd(nftables::schema::NfCmd::List(nftables::schema::NfListObject::Table(
            nftables::schema::Table::default(),
        )));
        add_batch_rules(&mut batch, "table", "eth0", ip);
        batch
    };
    assert_eq!(rules("10.0.0.1/24"), rules("192.168.7.7/32"));
    let text = serde_json::to_string(&rules("10.0.0.1/24").to_nftables()).unwrap();
    let value: serde_json::Value = serde_json::from_str(&text).unwrap();
    let objects = value["nftables"].as_array().unwrap();
    assert_eq!(objects.len(), 4);
    assert!(objects[0]["list"].is_object());
    for object in &objects[1..] {
        assert_eq!(object["add"]["rule"]["family"], "inet");
        assert_eq!(object["add"]["rule"]["table"], "table");
    }
}

#[test]
fn the_firewall_is_removed_with_its_table() {
    let expected = r#"{"nftables": [{"delete": {"table": {"family": "inet",
        "name": "mini-docker-01234567-89ab-4cde-8f01-23456789abcd"}}}]}"#;
    let expected: serde_json::Value = serde_json::from_str(expected).unwrap();
    assert_eq!(ruleset(remove_firewall_rules(ID)), expected);
}

#[test]
fn containers_have_tables_of_their_own() {
    assert_ne!(ruleset(remove_firewall_rules(1)), ruleset(remove_firewall_rules(2)));
    assert_ne!(ruleset(setup_nftables(0)), ruleset(setup_nftables(u128::MAX)));
}

#[test]
fn firewall_failures_are_reported_and_explained() {
    let run = Run::start(setup_nftables(ID)).resume(ReplyOf::Done).run;
    let turn = run.resume(failed(-1));
    assert_eq!(turn.said, strings(&["[host firewall] Critical error injecting rules: why"]));
    let contexts = strings(&["Failed to apply firewall rules"]);
    assert_eq!(turn.status, StatusOf::Failed(contexts));
    let run = Run::start(remove_firewall_rules(ID)).resume(ReplyOf::Done).run;
    let turn = run.resume(failed(-1));
    assert_eq!(turn.said, Vec::<String>::new());
    assert_eq!(turn.status, StatusOf::Failed(Vec::new()));
}
