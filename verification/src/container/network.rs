//! The container's network, on the host's side and on its own.
use vstd::prelude::*;
use vstd::string::*;

use std::str::FromStr;

use ipnetwork::{IpNetwork, IpNetworkError};
use nftables::batch::Batch;
use nftables::schema::Rule;
use uuid::Uuid;

use crate::container::ruleset::{
    add_chain, add_rule, add_table, are_spelled_out, batch_commands, decide, delete_table,
    match_connection, match_interface, new_batch, new_rule, rule_object, ruleset_json, ruleset_text,
    ChainKind, ChainPolicy, Comparison, Family, Hook, Outcome, RuleStatement, RulesetCommand,
    RulesetObject, Side,
};
use crate::run::{resumed, started, RunView, ALREADY_EXISTS};
use crate::steps::{
    failing, in_context, no_texts, one_text, or_fail, or_raise, plain, raised, same_course, say,
    saying, step, ActionOf, ActionView, InterfaceAddress, OnErrorOf, OnErrorView, OtherwiseOf,
    OtherwiseView, Program, ReplyOf, ReplyView, StatusView, Step, StepOf, StepView,
};
use crate::text::{digits, joint, texts, trimmed};

verus! {

broadcast use vstd::string::to_string_from_display_ensures_for_str;

/// The host's end of the cable into the container.
pub const VETH1_HOST: &'static str = "veth1_host";

/// The container's end of the cable.
pub const VETH1_CONT: &'static str = "veth1_cont";

/// The bridge that the host's ends of the cables hang on.
pub const BRIDGE: &'static str = "br0";

/// `ipnetwork::IpNetworkError`, of which nothing is claimed.
#[verifier::external_type_specification]
#[verifier::external_body]
pub struct ExIpNetworkError(IpNetworkError);

/// What `IpNetwork::from_str` makes of a text: the address and the prefix length,
/// or nothing where it refuses the text.
pub uninterp spec fn parsed_network(text: Seq<char>) -> Option<InterfaceAddress>;

/// An IPv4 address with a prefix length, in the usual notation.
pub open spec fn ipv4_notation(a: u8, b: u8, c: u8, d: u8, prefix: u8) -> Seq<char> {
    digits(a as nat) + "."@ + digits(b as nat) + "."@ + digits(c as nat) + "."@ + digits(d as nat)
        + "/"@ + digits(prefix as nat)
}

/// The number that the four bytes of an IPv4 address form.
pub open spec fn ipv4_number(a: u8, b: u8, c: u8, d: u8) -> int {
    a * 0x100_0000 + b * 0x1_0000 + c * 0x100 + d
}

/// `IpNetwork::from_str`, with the address and the prefix length of what it
/// returns: a function of the text. It takes the usual notation of an IPv4 address
/// with a prefix length of up to 32 for what it stands for.
#[verifier::external_body]
fn parse_network(text: &str) -> (out: Result<InterfaceAddress, IpNetworkError>)
    ensures
        match out {
            Ok(address) => parsed_network(text@) == Some(address),
            Err(_) => parsed_network(text@) is None,
        },
        forall|a: u8, b: u8, c: u8, d: u8, prefix: u8|
            prefix <= 32 && text@ == #[trigger] ipv4_notation(a, b, c, d, prefix) ==> {
                &&& out is Ok
                &&& out->Ok_0 == (InterfaceAddress::V4 {
                    address: ipv4_number(a, b, c, d) as u32,
                    prefix,
                })
            },
{
    Ok(match IpNetwork::from_str(text)? {
        IpNetwork::V4(net) => InterfaceAddress::V4 { address: net.ip().into(), prefix: net.prefix() },
        IpNetwork::V6(net) => InterfaceAddress::V6 { address: net.ip().into(), prefix: net.prefix() },
    })
}

/// The address and the prefix length that a text stands for. A text that stands
/// for none is handed back.
pub fn interface_address(text: &str) -> (out: Result<InterfaceAddress, String>)
    ensures
        match out {
            Ok(address) => parsed_network(text@) == Some(address),
            Err(refused) => parsed_network(text@) is None && refused@ == text@,
        },
        forall|a: u8, b: u8, c: u8, d: u8, prefix: u8|
            prefix <= 32 && text@ == #[trigger] ipv4_notation(a, b, c, d, prefix) ==> {
                &&& out is Ok
                &&& out->Ok_0 == (InterfaceAddress::V4 {
                    address: ipv4_number(a, b, c, d) as u32,
                    prefix,
                })
            },
{
    match parse_network(text) {
        Ok(address) => Ok(address),
        Err(_) => Err(text.to_owned()),
    }
}

/// The host's address on the bridge.
pub open spec fn bridge_address() -> InterfaceAddress {
    InterfaceAddress::V4 { address: 0x0a00_0001, prefix: 24 }
}

/// The container's address.
pub open spec fn container_address() -> InterfaceAddress {
    InterfaceAddress::V4 { address: 0x0a00_0002, prefix: 24 }
}

/// Every IPv4 address.
pub open spec fn everywhere() -> InterfaceAddress {
    InterfaceAddress::V4 { address: 0, prefix: 0 }
}

fn host_bridge_address() -> (out: InterfaceAddress)
    ensures
        out == bridge_address(),
{
    proof {
        lemma_notation_of_10_0_0(1);
        reveal_strlit("10.0.0.1/24");
        assert("10.0.0.1/24"@ =~= ipv4_notation(10, 0, 0, 1, 24));
    }
    match interface_address("10.0.0.1/24") {
        Ok(address) => address,
        Err(_) => vstd::pervasive::unreached(),
    }
}

fn own_address() -> (out: InterfaceAddress)
    ensures
        out == container_address(),
{
    proof {
        lemma_notation_of_10_0_0(2);
        reveal_strlit("10.0.0.2/24");
        assert("10.0.0.2/24"@ =~= ipv4_notation(10, 0, 0, 2, 24));
    }
    match interface_address("10.0.0.2/24") {
        Ok(address) => address,
        Err(_) => vstd::pervasive::unreached(),
    }
}

proof fn lemma_notation_of_10_0_0(d: u8)
    requires
        d < 10,
    ensures
        ipv4_notation(10, 0, 0, d, 24) == seq![
            '1',
            '0',
            '.',
            '0',
            '.',
            '0',
            '.',
            (48 + d) as char,
            '/',
            '2',
            '4',
        ],
{
    reveal_strlit(".");
    reveal_strlit("/");
    assert(digits(1) =~= seq!['1']);
    assert(digits(2) =~= seq!['2']);
    assert(digits(10) =~= seq!['1', '0']);
    assert(digits(24) =~= seq!['2', '4']);
    assert(digits(0) =~= seq!['0']);
    assert(ipv4_notation(10, 0, 0, d, 24) =~= seq![
        '1',
        '0',
        '.',
        '0',
        '.',
        '0',
        '.',
        (48 + d) as char,
        '/',
        '2',
        '4',
    ]);
}

/// A step that finds a link, and fails where there is none.
pub open spec fn needing_link(
    name: Seq<char>,
    missing: Seq<char>,
    context: Seq<char>,
) -> StepView {
    StepOf {
        no: OtherwiseOf::Fail { contexts: seq![missing], notes: Seq::empty() },
        ..plain(ActionOf::FindLink(name), failing(context))
    }
}

fn need_link(name: &str, missing: &str, context: &str) -> (out: Step)
    ensures
        out@ == needing_link(name@, missing@, context@),
{
    StepOf {
        action: ActionOf::FindLink(name.to_owned()),
        yes: 0,
        no: OtherwiseOf::Fail { contexts: one_text(missing), notes: no_texts() },
        exists: None,
        error: or_fail(context),
    }
}

/// Gives a link an address, if there is a link with the name.
pub open spec fn add_address_program(
    link_name: Seq<char>,
    address: InterfaceAddress,
) -> Seq<StepView> {
    seq![
        StepOf {
            no: OtherwiseOf::Skip(1),
            ..plain(ActionOf::FindLink(link_name), raised())
        },
        plain(
            ActionOf::AddAddress(address),
            failing("Failed to set ip address for host bridge"@),
        ),
    ]
}

/// Gives a link an address, if there is a link with the name.
pub fn add_address(link_name: &str, address: InterfaceAddress) -> (out: Program)
    ensures
        out@ == add_address_program(link_name@, address),
{
    let find: Step = StepOf {
        action: ActionOf::FindLink(link_name.to_owned()),
        yes: 0,
        no: OtherwiseOf::Skip(1),
        exists: None,
        error: or_raise(),
    };
    Program::new().with(find).with(
        step(
            ActionOf::AddAddress(address),
            or_fail("Failed to set ip address for host bridge"),
        ),
    )
}

/// Makes the bridge. A bridge that exists already is left as it is; a new one gets
/// the host's address.
pub open spec fn host_bridge_program() -> Seq<StepView> {
    seq![
        StepOf {
            yes: 1,
            exists: Some(0),
            ..plain(
                ActionOf::AddBridge(BRIDGE@),
                failing("Failed to create network bridge instance br0"@),
            )
        },
        StepOf {
            yes: 3,
            ..saying("[host network] br0 bridge already exists, skipping creation."@)
        },
        saying("[host network] br0 bridge created successfully."@),
    ] + add_address_program(BRIDGE@, bridge_address())
}

/// Makes the bridge.
pub fn create_assign_host_bridge() -> (out: Program)
    ensures
        out@ == host_bridge_program(),
{
    let create: Step = StepOf {
        action: ActionOf::AddBridge(BRIDGE.to_owned()),
        yes: 1,
        no: OtherwiseOf::Skip(0),
        exists: Some(0),
        error: or_fail("Failed to create network bridge instance br0"),
    };
    let mut kept: Step = say("[host network] br0 bridge already exists, skipping creation.");
    kept.yes = 3;
    Program::new()
        .with(create)
        .with(kept)
        .with(say("[host network] br0 bridge created successfully."))
        .followed_by(add_address(BRIDGE, host_bridge_address()))
}

/// Lays the cable between the bridge and the process. Ends that an earlier
/// container left behind are cleared away first.
pub open spec fn veth_program(child_pid: u32) -> Seq<StepView> {
    seq![
        StepOf {
            yes: 4,
            exists: Some(0),
            ..plain(
                ActionOf::AddVeth { host: VETH1_HOST@, peer: VETH1_CONT@ },
                failing("Failed to create veth cables"@),
            )
        },
        saying(
            "[host network] Leftover orphan veth detected. Cleaning up and recreating..."@,
        ),
        needing_link(
            VETH1_HOST@,
            "Failed to find network bridge instance br0"@,
            "Failed to read from network link steam"@,
        ),
        plain(ActionOf::DeleteLink, OnErrorOf::Ignore),
        StepOf {
            yes: 1,
            ..plain(
                ActionOf::AddVeth { host: VETH1_HOST@, peer: VETH1_CONT@ },
                failing("Failed to recreate veth cables after cleanup"@),
            )
        },
        saying("[host network] Veth cables created fresh."@),
        needing_link(
            BRIDGE@,
            "Failed to find network bridge instance br0"@,
            "Failed to read from network link steam"@,
        ),
        plain(
            ActionOf::AttachLink(VETH1_HOST@),
            failing("Failed to set veth1_host's master br0"@),
        ),
        plain(
            ActionOf::MoveLink { name: VETH1_CONT@, pid: child_pid },
            failing("Failed to set namespace for veth1_cont"@),
        ),
    ]
}

fn veth(yes: usize, exists: Option<usize>, context: &str) -> (out: Step)
    ensures
        out@ == (StepOf {
            yes,
            exists,
            ..plain(
                ActionOf::AddVeth { host: VETH1_HOST@, peer: VETH1_CONT@ },
                failing(context@),
            )
        }),
{
    StepOf {
        action: ActionOf::AddVeth { host: VETH1_HOST.to_owned(), peer: VETH1_CONT.to_owned() },
        yes,
        no: OtherwiseOf::Skip(0),
        exists,
        error: or_fail(context),
    }
}

/// Lays the cable between the bridge and the process.
pub fn create_and_setup_veth(child_pid: u32) -> (out: Program)
    ensures
        out@ == veth_program(child_pid),
{
    Program::new()
        .with(veth(4, Some(0), "Failed to create veth cables"))
        .with(
            say("[host network] Leftover orphan veth detected. Cleaning up and recreating..."),
        )
        .with(
            need_link(
                VETH1_HOST,
                "Failed to find network bridge instance br0",
                "Failed to read from network link steam",
            ),
        )
        .with(step(ActionOf::DeleteLink, OnErrorOf::Ignore))
        .with(veth(1, None, "Failed to recreate veth cables after cleanup"))
        .with(say("[host network] Veth cables created fresh."))
        .with(
            need_link(
                BRIDGE,
                "Failed to find network bridge instance br0",
                "Failed to read from network link steam",
            ),
        )
        .with(
            step(
                ActionOf::AttachLink(VETH1_HOST.to_owned()),
                or_fail("Failed to set veth1_host's master br0"),
            ),
        )
        .with(
            step(
                ActionOf::MoveLink { name: VETH1_CONT.to_owned(), pid: child_pid },
                or_fail("Failed to set namespace for veth1_cont"),
            ),
        )
}

/// Connects the process to the host's bridge.
pub open spec fn network_isolation_program(child_pid: u32) -> Seq<StepView> {
    seq![plain(ActionOf::OpenNetlink, raised())] + in_context(
        host_bridge_program(),
        "Failed to create host bridge"@,
    ) + in_context(veth_program(child_pid), "Failed to create and setup veth cables"@)
}

/// Connects the process to the host's bridge.
pub fn init_network_isolation(child_pid: u32) -> (out: Program)
    ensures
        out@ == network_isolation_program(child_pid),
{
    Program::new()
        .with(step(ActionOf::OpenNetlink, or_raise()))
        .followed_by(create_assign_host_bridge().context("Failed to create host bridge"))
        .followed_by(
            create_and_setup_veth(child_pid).context("Failed to create and setup veth cables"),
        )
}

/// Sets up the network from inside the container: the loopback device, the
/// container's address, and the bridge as its gateway.
pub open spec fn container_network_program() -> Seq<StepView> {
    seq![
        plain(ActionOf::OpenNetlink, raised()),
        plain(ActionOf::RaiseLink("lo"@), raised()),
    ] + add_address_program(VETH1_CONT@, container_address()) + seq![
        plain(ActionOf::RaiseLink(VETH1_CONT@), raised()),
        needing_link(
            VETH1_CONT@,
            "Failed to find veth1-cont"@,
            "Failed to read from veth1-cont stream"@,
        ),
        plain(
            ActionOf::AddRoute { destination: everywhere(), gateway: 0x0a00_0001 },
            failing("Failed to set default ip address for veth1-cont"@),
        ),
    ]
}

/// Sets up the network from inside the container.
pub fn config_container_network() -> (out: Program)
    ensures
        out@ == container_network_program(),
{
    let routes: Program = Program::new()
        .with(step(ActionOf::RaiseLink(VETH1_CONT.to_owned()), or_raise()))
        .with(
            need_link(
                VETH1_CONT,
                "Failed to find veth1-cont",
                "Failed to read from veth1-cont stream",
            ),
        )
        .with(
            step(
                ActionOf::AddRoute {
                    destination: InterfaceAddress::V4 { address: 0, prefix: 0 },
                    gateway: 0x0a00_0001,
                },
                or_fail("Failed to set default ip address for veth1-cont"),
            ),
        );
    Program::new()
        .with(step(ActionOf::OpenNetlink, or_raise()))
        .with(step(ActionOf::RaiseLink("lo".to_owned()), or_raise()))
        .followed_by(add_address(VETH1_CONT, own_address()))
        .followed_by(routes)
}

/// The kernel's switch for passing on the packets of others.
pub open spec fn forwarding_switch() -> Seq<char> {
    "/proc/sys/net/ipv4/ip_forward"@
}

/// Turns the switch on, unless it is on.
pub open spec fn switching_on(
    already: Seq<char>,
    toggling: Seq<char>,
    unread: Seq<char>,
    unwritten: Seq<char>,
) -> Seq<StepView> {
    seq![
        StepOf {
            no: OtherwiseOf::Skip(1),
            ..plain(ActionOf::ReadFile(forwarding_switch()), failing(unread))
        },
        StepOf { yes: 2, ..saying(already) },
        saying(toggling),
        plain(
            ActionOf::WriteFile { path: forwarding_switch(), contents: "1"@ },
            failing(unwritten),
        ),
    ]
}

fn switch_on(already: &str, toggling: &str, unread: &str, unwritten: &str) -> (out: Program)
    ensures
        out@ == switching_on(already@, toggling@, unread@, unwritten@),
{
    let read: Step = StepOf {
        action: ActionOf::ReadFile("/proc/sys/net/ipv4/ip_forward".to_owned()),
        yes: 0,
        no: OtherwiseOf::Skip(1),
        exists: None,
        error: or_fail(unread),
    };
    let mut on: Step = say(already);
    on.yes = 2;
    Program::new()
        .with(read)
        .with(on)
        .with(say(toggling))
        .with(
            step(
                ActionOf::WriteFile {
                    path: "/proc/sys/net/ipv4/ip_forward".to_owned(),
                    contents: "1".to_owned(),
                },
                or_fail(unwritten),
            ),
        )
}

/// Makes the host pass on packets. The switch is looked at twice.
pub open spec fn ip_forwarding_program() -> Seq<StepView> {
    seq![saying("[host network] Ensuring kernel IPv4 forwarding is active..."@)] + switching_on(
        "[host network] Kernel IPv4 forwarding is already enabled."@,
        "[host network] Toggling net.ipv4.ip_forward to 1"@,
        "Failed to read from /proc/sys/net/ipv4/ip_forward"@,
        "Failed to write to /proc/sys/net/ipv4/ip_forward"@,
    ) + switching_on(
        "[host network] Kernel IPv6 forwarding is already enabled."@,
        "[host network] Toggling net.ipv6.conf.all.forwarding to 1"@,
        "Failed to read from /proc/sys/net/ipv6/conf/all/forwarding"@,
        "Failed to write to /proc/sys/net/ipv6/conf/all/forwarding"@,
    )
}

/// Makes the host pass on packets.
pub fn enable_host_ip_forwarding() -> (out: Program)
    ensures
        out@ == ip_forwarding_program(),
{
    Program::new()
        .with(say("[host network] Ensuring kernel IPv4 forwarding is active..."))
        .followed_by(
            switch_on(
                "[host network] Kernel IPv4 forwarding is already enabled.",
                "[host network] Toggling net.ipv4.ip_forward to 1",
                "Failed to read from /proc/sys/net/ipv4/ip_forward",
                "Failed to write to /proc/sys/net/ipv4/ip_forward",
            ),
        )
        .followed_by(
            switch_on(
                "[host network] Kernel IPv6 forwarding is already enabled.",
                "[host network] Toggling net.ipv6.conf.all.forwarding to 1",
                "Failed to read from /proc/sys/net/ipv6/conf/all/forwarding",
                "Failed to write to /proc/sys/net/ipv6/conf/all/forwarding",
            ),
        )
}

/// The hexadecimal digit for `d`.
pub open spec fn hex_digit(d: nat) -> char {
    if d < 10 {
        (48 + d) as char
    } else {
        (87 + d) as char
    }
}

/// The last `width` hexadecimal digits of `n`.
pub open spec fn hex(n: nat, width: nat) -> Seq<char>
    decreases width,
{
    if width == 0 {
        Seq::empty()
    } else {
        hex(n / 16, (width - 1) as nat).push(hex_digit(n % 16))
    }
}

/// Digits in groups of 8, 4, 4, 4 and 12 with hyphens between.
pub open spec fn grouped(all: Seq<char>) -> Seq<char> {
    all.subrange(0, 8) + seq!['-'] + all.subrange(8, 12) + seq!['-'] + all.subrange(12, 16) + seq![
        '-',
    ] + all.subrange(16, 20) + seq!['-'] + all.subrange(20, 32)
}

/// An id in groups of hexadecimal digits.
pub open spec fn hyphenated(id: u128) -> Seq<char> {
    grouped(hex(id as nat, 32))
}

/// `Uuid::as_hyphenated`, as text: the id's digits, which are lower case, in groups
/// with hyphens between.
#[verifier::external_body]
fn id_text(id: u128) -> (text: String)
    ensures
        text@ == hyphenated(id),
{
    Uuid::from_u128(id).as_hyphenated().to_string()
}

/// The name of a container's firewall table.
pub open spec fn table_name(id: u128) -> Seq<char> {
    "mini-docker-"@ + hyphenated(id)
}

fn table_of(id: u128) -> (name: String)
    ensures
        name@ == table_name(id),
{
    joint("mini-docker-", id_text(id).as_str())
}

/// The statement that a packet's interface on a side is the one with the name.
pub open spec fn on_interface(side: Side, name: Seq<char>) -> RuleStatement {
    RuleStatement::Interface { side, comparison: Comparison::Equal, name }
}

/// The rules of a container's firewall: what the container sends out goes under
/// the host's address, answers come back in, and the container may send.
pub open spec fn firewall_rules(table: Seq<char>, host_wan: Seq<char>) -> Seq<RulesetCommand> {
    seq![
        RulesetCommand::Add(
            RulesetObject::Rule {
                family: Family::Inet,
                table,
                chain: "nat_chain"@,
                statements: seq![
                    on_interface(Side::Output, host_wan),
                    on_interface(Side::Input, BRIDGE@),
                    RuleStatement::Decide(Outcome::Masquerade),
                ],
            },
        ),
        RulesetCommand::Add(
            RulesetObject::Rule {
                family: Family::Inet,
                table,
                chain: "forward_chain"@,
                statements: seq![
                    on_interface(Side::Input, host_wan),
                    on_interface(Side::Output, BRIDGE@),
                    RuleStatement::Connection {
                        key: "state"@,
                        comparison: Comparison::In,
                        names: seq!["established"@, "related"@],
                    },
                    RuleStatement::Decide(Outcome::Accept),
                ],
            },
        ),
        RulesetCommand::Add(
            RulesetObject::Rule {
                family: Family::Inet,
                table,
                chain: "forward_chain"@,
                statements: seq![
                    on_interface(Side::Input, BRIDGE@),
                    on_interface(Side::Output, host_wan),
                    RuleStatement::Decide(Outcome::Accept),
                ],
            },
        ),
    ]
}

/// The commands of a batch to which the rules of a container's firewall are added. The
/// container's address plays no part: its packets are told by the bridge.
pub open spec fn rules_added(
    before: Seq<RulesetCommand>,
    table: Seq<char>,
    host_wan: Seq<char>,
    container_ip: Seq<char>,
) -> Seq<RulesetCommand> {
    before + firewall_rules(table, host_wan)
}

/// Adds the rules of a container's firewall to a batch.
pub fn add_batch_rules(
    batch: &mut Batch<'static>,
    table_name: &str,
    host_wan: &str,
    _container_ip: &str,
)
    ensures
        batch_commands(*final(batch)) == rules_added(
            batch_commands(*old(batch)),
            table_name@,
            host_wan@,
            _container_ip@,
        ),
{
    let mut masquerade: Rule<'static> = new_rule(Family::Inet, table_name, "nat_chain");
    match_interface(&mut masquerade, Side::Output, Comparison::Equal, host_wan);
    match_interface(&mut masquerade, Side::Input, Comparison::Equal, BRIDGE);
    decide(&mut masquerade, Outcome::Masquerade);

    let mut inbound: Rule<'static> = new_rule(Family::Inet, table_name, "forward_chain");
    match_interface(&mut inbound, Side::Input, Comparison::Equal, host_wan);
    match_interface(&mut inbound, Side::Output, Comparison::Equal, BRIDGE);
    let mut states: Vec<String> = Vec::new();
    states.push("established".to_owned());
    states.push("related".to_owned());
    assert(texts(states@) =~= seq!["established"@, "related"@]);
    match_connection(&mut inbound, "state", Comparison::In, states);
    decide(&mut inbound, Outcome::Accept);

    let mut outbound: Rule<'static> = new_rule(Family::Inet, table_name, "forward_chain");
    match_interface(&mut outbound, Side::Input, Comparison::Equal, BRIDGE);
    match_interface(&mut outbound, Side::Output, Comparison::Equal, host_wan);
    decide(&mut outbound, Outcome::Accept);

    proof {
        let rules = firewall_rules(table_name@, host_wan@);
        assert(rule_object(masquerade)->Rule_statements =~= rules[0]->Add_0->Rule_statements);
        assert(rule_object(inbound)->Rule_statements =~= rules[1]->Add_0->Rule_statements);
        assert(rule_object(outbound)->Rule_statements =~= rules[2]->Add_0->Rule_statements);
        assert(batch_commands(*old(batch)).push(rules[0]).push(rules[1]).push(rules[2])
            =~= batch_commands(*old(batch)) + rules);
    }
    add_rule(batch, masquerade);
    add_rule(batch, inbound);
    add_rule(batch, outbound);
}

/// The firewall of a container: its table, a chain that lets nothing through but
/// what a rule accepts, a chain for address translation, and the rules.
pub open spec fn firewall(id: u128) -> Seq<RulesetCommand> {
    let table = table_name(id);
    seq![
        RulesetCommand::Add(RulesetObject::Table { family: Family::Inet, name: table }),
        RulesetCommand::Add(
            RulesetObject::Chain {
                family: Family::Inet,
                table,
                name: "forward_chain"@,
                kind: ChainKind::Filter,
                hook: Hook::Forward,
                priority: 0,
                policy: ChainPolicy::Drop,
            },
        ),
        RulesetCommand::Add(
            RulesetObject::Chain {
                family: Family::Inet,
                table,
                name: "nat_chain"@,
                kind: ChainKind::Nat,
                hook: Hook::Postrouting,
                priority: 100,
                policy: ChainPolicy::Accept,
            },
        ),
    ] + firewall_rules(table, "wlan0"@)
}

/// Applies a ruleset.
pub open spec fn applying(ruleset: Seq<char>) -> Seq<StepView> {
    seq![
        saying("[host firewall] Injecting netfilter rules via netlink..."@),
        plain(
            ActionOf::ApplyRuleset(ruleset),
            OnErrorOf::Fail {
                contexts: Seq::empty(),
                reports: seq!["[host firewall] Critical error injecting rules"@],
                notes: Seq::empty(),
            },
        ),
        saying(
            "[host firewall] Ruleset applied successfully! Container routing is live."@,
        ),
    ]
}

/// Applies a ruleset.
pub fn apply_ruleset(ruleset: String) -> (out: Program)
    ensures
        out@ == applying(ruleset@),
{
    Program::new()
        .with(say("[host firewall] Injecting netfilter rules via netlink..."))
        .with(
            step(
                ActionOf::ApplyRuleset(ruleset),
                OnErrorOf::Fail {
                    contexts: no_texts(),
                    reports: one_text("[host firewall] Critical error injecting rules"),
                    notes: no_texts(),
                },
            ),
        )
        .with(
            say("[host firewall] Ruleset applied successfully! Container routing is live."),
        )
}

/// Applies the ruleset of a batch.
fn apply_firewall_rules(batch: Batch<'static>) -> (out: Program)
    requires
        are_spelled_out(batch_commands(batch)),
    ensures
        out@ == applying(ruleset_json(batch_commands(batch))),
{
    apply_ruleset(ruleset_text(batch))
}

/// Puts a container's firewall in place.
pub open spec fn setup_nftables_program(id: u128) -> Seq<StepView> {
    in_context(applying(ruleset_json(firewall(id))), "Failed to apply firewall rules"@)
}

/// Puts a container's firewall in place.
pub fn setup_nftables(id: u128) -> (out: Program)
    ensures
        out@ == setup_nftables_program(id),
{
    let mut batch: Batch<'static> = new_batch();
    let table: String = table_of(id);
    add_table(&mut batch, Family::Inet, table.as_str());
    add_chain(
        &mut batch,
        Family::Inet,
        table.as_str(),
        "forward_chain",
        ChainKind::Filter,
        Hook::Forward,
        0,
        ChainPolicy::Drop,
    );
    add_chain(
        &mut batch,
        Family::Inet,
        table.as_str(),
        "nat_chain",
        ChainKind::Nat,
        Hook::Postrouting,
        100,
        ChainPolicy::Accept,
    );
    add_batch_rules(&mut batch, table.as_str(), "wlan0", "10.0.0.1/24");
    assert(batch_commands(batch) =~= firewall(id));
    apply_firewall_rules(batch).context("Failed to apply firewall rules")
}

/// What takes a container's firewall away: its table goes, with all that is in it.
pub open spec fn firewall_removal(id: u128) -> Seq<RulesetCommand> {
    seq![RulesetCommand::Delete(RulesetObject::Table { family: Family::Inet, name: table_name(id) })]
}

/// Applies a ruleset that takes a firewall away.
pub open spec fn removing(ruleset: Seq<char>) -> Seq<StepView> {
    seq![
        saying("[host firewall] removing all firewall rules"@),
        plain(ActionOf::ApplyRuleset(ruleset), raised()),
        saying("[host firewall] Firewall rules removed successfully"@),
    ]
}

/// Applies a ruleset that takes a firewall away.
pub fn apply_removal(ruleset: String) -> (out: Program)
    ensures
        out@ == removing(ruleset@),
{
    Program::new()
        .with(say("[host firewall] removing all firewall rules"))
        .with(step(ActionOf::ApplyRuleset(ruleset), or_raise()))
        .with(say("[host firewall] Firewall rules removed successfully"))
}

/// Takes a container's firewall away.
pub open spec fn remove_firewall_program(id: u128) -> Seq<StepView> {
    removing(ruleset_json(firewall_removal(id)))
}

/// Takes a container's firewall away.
pub fn remove_firewall_rules(id: u128) -> (out: Program)
    ensures
        out@ == remove_firewall_program(id),
{
    let mut batch: Batch<'static> = new_batch();
    let table: String = table_of(id);
    delete_table(&mut batch, Family::Inet, table.as_str());
    assert(batch_commands(batch) =~= firewall_removal(id));
    apply_removal(ruleset_text(batch))
}

/// How many numbers `width` hexadecimal digits can write.
pub open spec fn hex_range(width: nat) -> nat
    decreases width,
{
    if width == 0 {
        1
    } else {
        16 * hex_range((width - 1) as nat)
    }
}

proof fn lemma_hex_len(n: nat, width: nat)
    ensures
        hex(n, width).len() == width,
    decreases width,
{
    if width > 0 {
        lemma_hex_len(n / 16, (width - 1) as nat);
    }
}

/// Numbers that fit into so many hexadecimal digits are told apart by them.
pub proof fn law_hex_tells_numbers_apart(a: nat, b: nat, width: nat)
    requires
        a < hex_range(width),
        b < hex_range(width),
        hex(a, width) == hex(b, width),
    ensures
        a == b,
    decreases width,
{
    if width > 0 {
        let rest = (width - 1) as nat;
        let (x, y) = (hex(a / 16, rest), hex(b / 16, rest));
        assert(x.push(hex_digit(a % 16)).drop_last() =~= x);
        assert(y.push(hex_digit(b % 16)).drop_last() =~= y);
        assert(x.push(hex_digit(a % 16)).last() == y.push(hex_digit(b % 16)).last());
        law_hex_tells_numbers_apart(a / 16, b / 16, rest);
    }
}

proof fn lemma_groups_tell_digits_apart(x: Seq<char>, y: Seq<char>)
    requires
        x.len() == 32,
        y.len() == 32,
        grouped(x) == grouped(y),
    ensures
        x == y,
{
    let (p, q) = (grouped(x), grouped(y));
    assert(x =~= p.subrange(0, 8) + p.subrange(9, 13) + p.subrange(14, 18) + p.subrange(19, 23)
        + p.subrange(24, 36));
    assert(y =~= q.subrange(0, 8) + q.subrange(9, 13) + q.subrange(14, 18) + q.subrange(19, 23)
        + q.subrange(24, 36));
}

proof fn lemma_ids_fit()
    ensures
        hex_range(32) == u128::MAX + 1,
{
    reveal_with_fuel(hex_range, 33);
}

/// Two containers with different ids have different firewall tables.
pub proof fn law_tables_are_distinct(a: u128, b: u128)
    requires
        a != b,
    ensures
        table_name(a) != table_name(b),
{
    let (x, y) = (hex(a as nat, 32), hex(b as nat, 32));
    lemma_hex_len(a as nat, 32);
    lemma_hex_len(b as nat, 32);
    lemma_ids_fit();
    if table_name(a) == table_name(b) {
        let n = "mini-docker-"@.len() as int;
        assert(table_name(a).skip(n) =~= grouped(x));
        assert(table_name(b).skip(n) =~= grouped(y));
        lemma_groups_tell_digits_apart(x, y);
        law_hex_tells_numbers_apart(a as nat, b as nat, 32);
    }
}

/// Removing a container's firewall deletes exactly the table that setting it up
/// adds, and everything that setting it up adds is in that table.
pub proof fn law_removal_undoes_the_firewall(id: u128)
    ensures
        firewall(id)[0] == RulesetCommand::Add(RulesetObject::Table { family: Family::Inet, name: table_name(id) }),
        firewall_removal(id) == seq![
            RulesetCommand::Delete(RulesetObject::Table { family: Family::Inet, name: table_name(id) }),
        ],
        forall|i: int| 1 <= i < firewall(id).len() ==> in_table(#[trigger] firewall(id)[i], table_name(id)),
{
}

/// Whether a command adds a chain or a rule to the table, which is of the family `inet`.
pub open spec fn in_table(command: RulesetCommand, table: Seq<char>) -> bool {
    match command {
        RulesetCommand::Add(RulesetObject::Chain { family, table: t, .. }) => family is Inet && t
            == table,
        RulesetCommand::Add(RulesetObject::Rule { family, table: t, .. }) => family is Inet && t
            == table,
        _ => false,
    }
}

/// Adding the rules of a firewall to a batch keeps what the batch holds and appends three
/// rules of the table. The container's address has no influence on them.
pub proof fn law_rules_are_appended(
    before: Seq<RulesetCommand>,
    table: Seq<char>,
    host_wan: Seq<char>,
    container_ip: Seq<char>,
    other_ip: Seq<char>,
)
    ensures
        ({
            let after = rules_added(before, table, host_wan, container_ip);
            &&& after == rules_added(before, table, host_wan, other_ip)
            &&& after.len() == before.len() + 3
            &&& after.take(before.len() as int) == before
            &&& forall|i: int|
                before.len() <= i < after.len() ==> in_table(#[trigger] after[i], table)
                    && after[i]->Add_0 is Rule
        }),
{
    let after = rules_added(before, table, host_wan, container_ip);
    assert(after.take(before.len() as int) =~= before);
}

/// What a rule can see of a packet.
pub struct Packet {
    pub input: Seq<char>,
    pub output: Seq<char>,
    /// The state of the connection that the packet belongs to.
    pub state: Seq<char>,
}

/// Whether a name is taken for what it says: one with an at sign or an asterisk in it can
/// mean a set of names or a pattern.
pub open spec fn is_literal(name: Seq<char>) -> bool {
    !name.contains('@') && !name.contains('*')
}

/// Whether a packet meets a statement whose names are literal.
pub open spec fn meets(packet: Packet, statement: RuleStatement) -> bool {
    match statement {
        RuleStatement::Interface { side: Side::Input, comparison: Comparison::Equal, name } => {
            packet.input == name
        },
        RuleStatement::Interface { side: Side::Output, comparison: Comparison::Equal, name } => {
            packet.output == name
        },
        RuleStatement::Connection { key, comparison: Comparison::In, names } => {
            key == "state"@ && names.contains(packet.state)
        },
        RuleStatement::Decide(_) => true,
        _ => false,
    }
}

/// Whether a command adds a rule to the chain that decides so on the packet.
pub open spec fn decides(
    command: RulesetCommand,
    chain: Seq<char>,
    outcome: Outcome,
    packet: Packet,
) -> bool {
    match command {
        RulesetCommand::Add(RulesetObject::Rule { chain: c, statements, .. }) => {
            &&& c == chain
            &&& statements.contains(RuleStatement::Decide(outcome))
            &&& forall|i: int| 0 <= i < statements.len() ==> meets(packet, #[trigger] statements[i])
        },
        _ => false,
    }
}

/// Whether some rule of the chain decides so on the packet.
pub open spec fn decided(
    commands: Seq<RulesetCommand>,
    chain: Seq<char>,
    outcome: Outcome,
    packet: Packet,
) -> bool {
    exists|i: int| 0 <= i < commands.len() && decides(#[trigger] commands[i], chain, outcome, packet)
}

/// What the rules of a firewall decide on a packet, whatever the name of the interface to
/// the outside is, as long as it is literal. The packet is passed on if it goes from the bridge to the outside, or if it comes from the
/// outside to the bridge and belongs to a connection that is established or related to
/// one: a stranger's packet does not come in. Just what goes from the bridge to the
/// outside goes under the host's address.
pub proof fn law_only_answers_come_in(table: Seq<char>, wan: Seq<char>, packet: Packet)
    requires
        is_literal(wan),
    ensures
        decided(firewall_rules(table, wan), "forward_chain"@, Outcome::Accept, packet) <==> {
            ||| packet.input == "br0"@ && packet.output == wan
            ||| packet.input == wan && packet.output == "br0"@ && (packet.state
                == "established"@ || packet.state == "related"@)
        },
        decided(firewall_rules(table, wan), "nat_chain"@, Outcome::Masquerade, packet)
            <==> packet.input == "br0"@ && packet.output == wan,
{
    reveal_strlit("forward_chain");
    reveal_strlit("nat_chain");
    let all = firewall_rules(table, wan);
    let masked = all[0]->Add_0->Rule_statements;
    let inward = all[1]->Add_0->Rule_statements;
    let outward = all[2]->Add_0->Rule_statements;
    assert(masked[2] == RuleStatement::Decide(Outcome::Masquerade));
    assert(inward[3] == RuleStatement::Decide(Outcome::Accept));
    assert(outward[2] == RuleStatement::Decide(Outcome::Accept));
    let states = inward[2]->Connection_names;
    assert(states[0] == "established"@ && states[1] == "related"@);
    assert(states.contains(packet.state) <==> packet.state == "established"@ || packet.state
        == "related"@);
    let masquerades = decides(all[0], "nat_chain"@, Outcome::Masquerade, packet);
    let answers = decides(all[1], "forward_chain"@, Outcome::Accept, packet);
    let sends = decides(all[2], "forward_chain"@, Outcome::Accept, packet);
    assert(masquerades ==> meets(packet, masked[0]) && meets(packet, masked[1]));
    assert(answers ==> meets(packet, inward[0]) && meets(packet, inward[1]) && meets(
        packet,
        inward[2],
    ));
    assert(sends ==> meets(packet, outward[0]) && meets(packet, outward[1]));
    assert(packet.input == "br0"@ && packet.output == wan ==> masquerades && sends);
    assert(packet.input == wan && packet.output == "br0"@ && states.contains(packet.state)
        ==> answers);
    assert forall|i: int| 0 <= i < all.len() implies {
        &&& decides(#[trigger] all[i], "forward_chain"@, Outcome::Accept, packet) ==> answers
            || sends
        &&& decides(all[i], "nat_chain"@, Outcome::Masquerade, packet) ==> masquerades
    } by {}
}

/// A container's firewall decides as its rules do, with `wlan0`, which is literal, as the
/// interface to the outside; its table and its chains decide nothing.
pub proof fn law_firewall_decides_by_its_rules(
    id: u128,
    chain: Seq<char>,
    outcome: Outcome,
    packet: Packet,
)
    ensures
        decided(firewall(id), chain, outcome, packet) <==> decided(
            firewall_rules(table_name(id), "wlan0"@),
            chain,
            outcome,
            packet,
        ),
        is_literal("wlan0"@),
{
    reveal_strlit("wlan0");
    let all = firewall(id);
    let rules = firewall_rules(table_name(id), "wlan0"@);
    assert forall|i: int| 0 <= i < rules.len() implies #[trigger] rules[i] == all[i + 3] by {}
    assert forall|i: int| 3 <= i < all.len() implies #[trigger] all[i] == rules[i - 3] by {}
    if decided(all, chain, outcome, packet) {
        let i = choose|i: int|
            0 <= i < all.len() && decides(#[trigger] all[i], chain, outcome, packet);
        assert(decides(rules[i - 3], chain, outcome, packet));
    }
    if decided(rules, chain, outcome, packet) {
        let i = choose|i: int|
            0 <= i < rules.len() && decides(#[trigger] rules[i], chain, outcome, packet);
        assert(decides(all[i + 3], chain, outcome, packet));
    }
}

/// A bridge that exists is left as it is, with whatever address it has; a new one is
/// looked up to get the host's address; any other failure is one of the whole program.
pub proof fn law_existing_bridge_is_kept(code: Option<i32>, why: Seq<char>)
    ensures
        ({
            let run = started(host_bridge_program());
            let failed = resumed(run, ReplyOf::Failed { code, why });
            let made = resumed(run, ReplyOf::Done);
            &&& code == Some(ALREADY_EXISTS) ==> {
                &&& failed.status is Going
                &&& failed.run.pending[0].action is Print
                &&& resumed(failed.run, ReplyOf::Done).run.pending.len() == 0
            }
            &&& code != Some(ALREADY_EXISTS) ==> failed.status == StatusView::Failed(
                seq!["Failed to create network bridge instance br0"@],
            )
            &&& made.status is Going
            &&& made.run.pending.len() == 3
            &&& made.run.pending[0].action is Print
            &&& made.run.pending[1].action == ActionView::FindLink(BRIDGE@)
            &&& made.run.pending[2].action == ActionView::AddAddress(bridge_address())
        }),
{
}

/// A cable that is there already is looked up by its host's end, deleted, and laid
/// anew, whether or not the deletion succeeds. Either way the new cable is then plugged
/// into the bridge and into the container.
pub proof fn law_leftover_cable_is_replaced(
    child_pid: u32,
    why: Seq<char>,
    index: u32,
    deleted: ReplyView,
)
    requires
        deleted is Done || deleted is Failed,
    ensures
        ({
            let run = started(veth_program(child_pid));
            let found = resumed(run, ReplyOf::Failed { code: Some(ALREADY_EXISTS), why });
            let told = resumed(found.run, ReplyOf::Done);
            let looked_up = resumed(told.run, ReplyOf::Link(Some(index)));
            let cleared = resumed(looked_up.run, deleted);
            let laid = resumed(cleared.run, ReplyOf::Done);
            let fresh = resumed(resumed(run, ReplyOf::Done).run, ReplyOf::Done);
            &&& told.run.pending[0].action == ActionView::FindLink(VETH1_HOST@)
            &&& looked_up.run.pending[0].action is DeleteLink
            &&& looked_up.run.link == Some(index)
            &&& cleared.status is Going
            &&& cleared.run.pending[0].action == ActionView::AddVeth {
                host: VETH1_HOST@,
                peer: VETH1_CONT@,
            }
            &&& laid.run.pending == fresh.run.pending
            &&& laid.run.pending.len() == 3
            &&& laid.run.pending[0].action == ActionView::FindLink(BRIDGE@)
            &&& laid.run.pending[1].action == ActionView::AttachLink(VETH1_HOST@)
            &&& laid.run.pending[2].action == ActionView::MoveLink {
                name: VETH1_CONT@,
                pid: child_pid,
            }
        }),
{
    let run = started(veth_program(child_pid));
    let found = resumed(run, ReplyOf::Failed { code: Some(ALREADY_EXISTS), why });
    let told = resumed(found.run, ReplyOf::Done);
    let looked_up = resumed(told.run, ReplyOf::Link(Some(index)));
    let cleared = resumed(looked_up.run, deleted);
    let laid = resumed(cleared.run, ReplyOf::Done);
    let first = resumed(run, ReplyOf::Done);
    let fresh = resumed(first.run, ReplyOf::Done);
    assert(found.run.pending =~= veth_program(child_pid).skip(1));
    assert(told.run.pending =~= veth_program(child_pid).skip(2));
    assert(looked_up.run.pending =~= veth_program(child_pid).skip(3));
    assert(cleared.run.pending =~= veth_program(child_pid).skip(4));
    assert(laid.run.pending =~= veth_program(child_pid).skip(6));
    assert(first.run.pending =~= veth_program(child_pid).skip(5));
    assert(fresh.run.pending =~= veth_program(child_pid).skip(6));
}

/// A switch that is on is not written to; one that is not is turned on.
pub proof fn law_switch_is_turned_on_once(
    already: Seq<char>,
    toggling: Seq<char>,
    unread: Seq<char>,
    unwritten: Seq<char>,
    content: Seq<char>,
)
    ensures
        ({
            let program = switching_on(already, toggling, unread, unwritten);
            let turn = resumed(started(program), ReplyOf::Content(content));
            &&& turn.status is Going
            &&& trimmed(content) == "1"@ ==> {
                &&& turn.run.pending[0] == (StepOf { yes: 2, ..saying(already) })
                &&& resumed(turn.run, ReplyOf::Done).run.pending.len() == 0
            }
            &&& trimmed(content) != "1"@ ==> turn.run.pending == seq![
                saying(toggling),
                plain(
                    ActionOf::WriteFile { path: forwarding_switch(), contents: "1"@ },
                    failing(unwritten),
                ),
            ]
        }),
{
    let program = switching_on(already, toggling, unread, unwritten);
    let turn = resumed(started(program), ReplyOf::Content(content));
    if trimmed(content) != "1"@ {
        assert(turn.run.pending =~= program.skip(2));
        assert(program.skip(2) =~= seq![program[2], program[3]]);
    }
}

/// A link that is found by its name gets the address, and just that address; a name without
/// a link is passed over.
pub proof fn law_a_link_gets_its_address(
    link_name: Seq<char>,
    address: InterfaceAddress,
    index: u32,
)
    ensures
        ({
            let run = started(add_address_program(link_name, address));
            let found = resumed(run, ReplyOf::Link(Some(index)));
            let missing = resumed(run, ReplyOf::Link(None));
            &&& run.pending[0].action == ActionView::FindLink(link_name)
            &&& run.pending[0].error == raised()
            &&& found.status is Going
            &&& found.run.link == Some(index)
            &&& found.run.pending.len() == 1
            &&& found.run.pending[0] == plain(
                ActionOf::AddAddress(address),
                failing("Failed to set ip address for host bridge"@),
            )
            &&& missing.status is Going
            &&& missing.run.pending.len() == 0
        }),
{
}

/// A link that is needed is looked up by its name; that there is none, and that it cannot be
/// looked up, are failures with an explanation of their own.
pub proof fn law_a_needed_link(
    name: Seq<char>,
    missing: Seq<char>,
    context: Seq<char>,
    rest: Seq<StepView>,
    index: u32,
    why: Seq<char>,
)
    ensures
        ({
            let run = started(seq![needing_link(name, missing, context)] + rest);
            &&& run.pending[0].action == ActionView::FindLink(name)
            &&& resumed(run, ReplyOf::Link(None)).status == StatusView::Failed(seq![missing])
            &&& resumed(run, ReplyOf::Failed { code: None, why }).status == StatusView::Failed(
                seq![context],
            )
            &&& resumed(run, ReplyOf::Link(Some(index))).run == (RunView {
                pending: rest,
                link: Some(index),
            })
        }),
{
    let run = started(seq![needing_link(name, missing, context)] + rest);
    assert(resumed(run, ReplyOf::Link(Some(index))).run.pending =~= rest);
}

/// What the container's own network asks for, step by step, and how its failures are
/// explained.
pub proof fn law_the_container_is_on_the_network()
    ensures
        ({
            let program = container_network_program();
            &&& program.len() == 7
            &&& program[0] == plain(ActionOf::OpenNetlink, raised())
            &&& program[1] == plain(ActionOf::RaiseLink("lo"@), raised())
            &&& program[2].action == ActionView::FindLink("veth1_cont"@)
            &&& program[2].no == OtherwiseView::Skip(1)
            &&& program[3].action == ActionView::AddAddress(
                InterfaceAddress::V4 { address: 0x0a00_0002, prefix: 24 },
            )
            &&& program[4] == plain(ActionOf::RaiseLink("veth1_cont"@), raised())
            &&& program[5] == needing_link(
                "veth1_cont"@,
                "Failed to find veth1-cont"@,
                "Failed to read from veth1-cont stream"@,
            )
            &&& program[6] == plain(
                ActionOf::AddRoute {
                    destination: InterfaceAddress::V4 { address: 0, prefix: 0 },
                    gateway: 0x0a00_0001,
                },
                failing("Failed to set default ip address for veth1-cont"@),
            )
        }),
{
}

/// Connecting a process to the bridge is opening the connection to the kernel, making the
/// bridge, and laying the cable to that very process; failures of the two say so.
pub proof fn law_isolation_is_the_bridge_and_the_cable(child_pid: u32)
    ensures
        ({
            let program = network_isolation_program(child_pid);
            let bridge = host_bridge_program();
            let cable = veth_program(child_pid);
            &&& program.len() == 1 + bridge.len() + cable.len()
            &&& program[0] == plain(ActionOf::OpenNetlink, raised())
            &&& same_course(program.subrange(1, 6), bridge)
            &&& same_course(program.subrange(6, 15), cable)
            &&& forall|i: int|
                1 <= i < 15 ==> ((#[trigger] program[i]).error matches OnErrorOf::Fail {
                    contexts,
                    ..
                } ==> contexts.last() == if i < 6 {
                    "Failed to create host bridge"@
                } else {
                    "Failed to create and setup veth cables"@
                })
        }),
{
    let program = network_isolation_program(child_pid);
    assert(program.subrange(1, 6) =~= in_context(
        host_bridge_program(),
        "Failed to create host bridge"@,
    ));
    assert(program.subrange(6, 15) =~= in_context(
        veth_program(child_pid),
        "Failed to create and setup veth cables"@,
    ));
}

/// The switch is read and turned on under the messages that are given.
pub proof fn law_forwarding_messages(
    already: Seq<char>,
    toggling: Seq<char>,
    unread: Seq<char>,
    unwritten: Seq<char>,
)
    ensures
        ({
            let program = switching_on(already, toggling, unread, unwritten);
            &&& program.len() == 4
            &&& program[0].action == ActionView::ReadFile("/proc/sys/net/ipv4/ip_forward"@)
            &&& program[0].error == failing(unread)
            &&& program[0].no == OtherwiseView::Skip(1)
            &&& program[1].action == ActionView::Print(already)
            &&& program[2] == saying(toggling)
            &&& program[3] == plain(
                ActionOf::WriteFile { path: "/proc/sys/net/ipv4/ip_forward"@, contents: "1"@ },
                failing(unwritten),
            )
        }),
        ip_forwarding_program().len() == 9,
        ip_forwarding_program().subrange(1, 5) == switching_on(
            "[host network] Kernel IPv4 forwarding is already enabled."@,
            "[host network] Toggling net.ipv4.ip_forward to 1"@,
            "Failed to read from /proc/sys/net/ipv4/ip_forward"@,
            "Failed to write to /proc/sys/net/ipv4/ip_forward"@,
        ),
        ip_forwarding_program().subrange(5, 9) == switching_on(
            "[host network] Kernel IPv6 forwarding is already enabled."@,
            "[host network] Toggling net.ipv6.conf.all.forwarding to 1"@,
            "Failed to read from /proc/sys/net/ipv6/conf/all/forwarding"@,
            "Failed to write to /proc/sys/net/ipv6/conf/all/forwarding"@,
        ),
{
    let program = ip_forwarding_program();
    assert(program.subrange(1, 5) =~= switching_on(
        "[host network] Kernel IPv4 forwarding is already enabled."@,
        "[host network] Toggling net.ipv4.ip_forward to 1"@,
        "Failed to read from /proc/sys/net/ipv4/ip_forward"@,
        "Failed to write to /proc/sys/net/ipv4/ip_forward"@,
    ));
    assert(program.subrange(5, 9) =~= switching_on(
        "[host network] Kernel IPv6 forwarding is already enabled."@,
        "[host network] Toggling net.ipv6.conf.all.forwarding to 1"@,
        "Failed to read from /proc/sys/net/ipv6/conf/all/forwarding"@,
        "Failed to write to /proc/sys/net/ipv6/conf/all/forwarding"@,
    ));
}

/// A container's firewall is its table, with a chain on the packets that are passed on, of
/// which none goes through that no rule accepts, a chain that translates addresses as the
/// last before they leave, and the rules.
pub proof fn law_the_firewall_is_closed(id: u128)
    ensures
        ({
            let table = table_name(id);
            &&& firewall(id).len() == 6
            &&& firewall(id)[0] == RulesetCommand::Add(
                RulesetObject::Table { family: Family::Inet, name: table },
            )
            &&& firewall(id)[1] == RulesetCommand::Add(
                RulesetObject::Chain {
                    family: Family::Inet,
                    table,
                    name: "forward_chain"@,
                    kind: ChainKind::Filter,
                    hook: Hook::Forward,
                    priority: 0,
                    policy: ChainPolicy::Drop,
                },
            )
            &&& firewall(id)[2] == RulesetCommand::Add(
                RulesetObject::Chain {
                    family: Family::Inet,
                    table,
                    name: "nat_chain"@,
                    kind: ChainKind::Nat,
                    hook: Hook::Postrouting,
                    priority: 100,
                    policy: ChainPolicy::Accept,
                },
            )
        }),
{
}

/// Whichever way a ruleset is applied, it is that ruleset, and it is applied once.
pub proof fn law_rulesets_are_applied_as_they_are(ruleset: Seq<char>, why: Seq<char>)
    ensures
        applying(ruleset).len() == 3,
        applying(ruleset)[0].action is Print,
        applying(ruleset)[1].action == ActionView::ApplyRuleset(ruleset),
        applying(ruleset)[1].error == (OnErrorView::Fail {
            contexts: Seq::empty(),
            reports: seq!["[host firewall] Critical error injecting rules"@],
            notes: Seq::empty(),
        }),
        applying(ruleset)[2].action is Print,
        removing(ruleset).len() == 3,
        removing(ruleset)[0].action is Print,
        removing(ruleset)[1] == plain(ActionOf::ApplyRuleset(ruleset), raised()),
        removing(ruleset)[2].action is Print,
{
}

/// Setting up a container's firewall applies that firewall, and removing it applies its
/// removal: both under the id of the container.
pub proof fn law_firewalls_come_and_go(id: u128)
    ensures
        setup_nftables_program(id).len() == 3,
        setup_nftables_program(id)[1].action == ActionView::ApplyRuleset(
            ruleset_json(firewall(id)),
        ),
        setup_nftables_program(id)[1].error == (OnErrorView::Fail {
            contexts: seq!["Failed to apply firewall rules"@],
            reports: seq!["[host firewall] Critical error injecting rules"@],
            notes: Seq::empty(),
        }),
        remove_firewall_program(id).len() == 3,
        remove_firewall_program(id)[1].action == ActionView::ApplyRuleset(
            ruleset_json(firewall_removal(id)),
        ),
{
    let error = setup_nftables_program(id)[1].error;
    assert(error->Fail_contexts =~= seq!["Failed to apply firewall rules"@]);
}

/// The number that hexadecimal digits write.
pub open spec fn hex_number(s: Seq<char>) -> int
    decreases s.len(),
{
    if s.len() == 0 {
        0
    } else {
        let c = s.last() as int;
        16 * hex_number(s.drop_last()) + if c < 'a' as int {
            c - '0' as int
        } else {
            c - 'a' as int + 10
        }
    }
}

/// The hexadecimal digits of a number that fits write that number. They are the digits 0 to
/// 9 and the letters a to f.
pub proof fn law_hex_writes_its_number(n: nat, width: nat)
    requires
        n < hex_range(width),
    ensures
        hex_number(hex(n, width)) == n,
        hex(n, width).len() == width,
        forall|i: int|
            0 <= i < width ==> '0' <= #[trigger] hex(n, width)[i] <= '9' || 'a' <= hex(n, width)[i]
                <= 'f',
    decreases width,
{
    if width > 0 {
        let rest = (width - 1) as nat;
        law_hex_writes_its_number(n / 16, rest);
        assert(hex(n, width).drop_last() =~= hex(n / 16, rest));
    }
}

/// The name of a container's table is a fixed word and the id: five groups of hexadecimal
/// digits, which together write the id, with hyphens between.
pub proof fn law_tables_bear_the_id(id: u128)
    ensures
        ({
            let n = "mini-docker-"@.len() as int;
            let text = table_name(id).skip(n);
            &&& table_name(id).take(n) == "mini-docker-"@
            &&& text.len() == 36
            &&& text[8] == '-' && text[13] == '-' && text[18] == '-' && text[23] == '-'
            &&& hex_number(
                text.subrange(0, 8) + text.subrange(9, 13) + text.subrange(14, 18)
                    + text.subrange(19, 23) + text.subrange(24, 36),
            ) == id
        }),
{
    let n = "mini-docker-"@.len() as int;
    let x = hex(id as nat, 32);
    lemma_hex_len(id as nat, 32);
    lemma_ids_fit();
    law_hex_writes_its_number(id as nat, 32);
    assert(table_name(id).take(n) =~= "mini-docker-"@);
    assert(table_name(id).skip(n) =~= grouped(x));
    let p = grouped(x);
    assert(x =~= p.subrange(0, 8) + p.subrange(9, 13) + p.subrange(14, 18) + p.subrange(19, 23)
        + p.subrange(24, 36));
}

/// The three rules, statement by statement: what comes from the bridge and leaves to the
/// outside is masqueraded; what comes from the outside to the bridge is accepted where its
/// connection is established or related; and what comes from the bridge and leaves to the
/// outside is accepted.
pub proof fn law_the_three_rules(table: Seq<char>, wan: Seq<char>)
    ensures
        firewall_rules(table, wan).len() == 3,
        firewall_rules(table, wan)[0] == RulesetCommand::Add(
            RulesetObject::Rule {
                family: Family::Inet,
                table,
                chain: "nat_chain"@,
                statements: seq![
                    RuleStatement::Interface {
                        side: Side::Output,
                        comparison: Comparison::Equal,
                        name: wan,
                    },
                    RuleStatement::Interface {
                        side: Side::Input,
                        comparison: Comparison::Equal,
                        name: "br0"@,
                    },
                    RuleStatement::Decide(Outcome::Masquerade),
                ],
            },
        ),
        firewall_rules(table, wan)[1] == RulesetCommand::Add(
            RulesetObject::Rule {
                family: Family::Inet,
                table,
                chain: "forward_chain"@,
                statements: seq![
                    RuleStatement::Interface {
                        side: Side::Input,
                        comparison: Comparison::Equal,
                        name: wan,
                    },
                    RuleStatement::Interface {
                        side: Side::Output,
                        comparison: Comparison::Equal,
                        name: "br0"@,
                    },
                    RuleStatement::Connection {
                        key: "state"@,
                        comparison: Comparison::In,
                        names: seq!["established"@, "related"@],
                    },
                    RuleStatement::Decide(Outcome::Accept),
                ],
            },
        ),
        firewall_rules(table, wan)[2] == RulesetCommand::Add(
            RulesetObject::Rule {
                family: Family::Inet,
                table,
                chain: "forward_chain"@,
                statements: seq![
                    RuleStatement::Interface {
                        side: Side::Input,
                        comparison: Comparison::Equal,
                        name: "br0"@,
                    },
                    RuleStatement::Interface {
                        side: Side::Output,
                        comparison: Comparison::Equal,
                        name: wan,
                    },
                    RuleStatement::Decide(Outcome::Accept),
                ],
            },
        ),
{
}

/// The bridge and the cable, step by step, with the failures that are explained; the cable's
/// other end goes to the very process that is named.
pub proof fn law_the_bridge_and_the_cable(child_pid: u32)
    ensures
        host_bridge_program().len() == 5,
        host_bridge_program()[0].action == ActionView::AddBridge("br0"@),
        host_bridge_program()[0].error == failing("Failed to create network bridge instance br0"@),
        host_bridge_program().skip(3) == add_address_program(
            "br0"@,
            InterfaceAddress::V4 { address: 0x0a00_0001, prefix: 24 },
        ),
        ({
            let program = veth_program(child_pid);
            let cable = ActionView::AddVeth { host: "veth1_host"@, peer: "veth1_cont"@ };
            &&& program.len() == 9
            &&& program[0].action == cable
            &&& program[0].error == failing("Failed to create veth cables"@)
            &&& program[2] == needing_link(
                "veth1_host"@,
                "Failed to find network bridge instance br0"@,
                "Failed to read from network link steam"@,
            )
            &&& program[3] == plain(ActionOf::DeleteLink, OnErrorOf::Ignore)
            &&& program[4].action == cable
            &&& program[4].error == failing("Failed to recreate veth cables after cleanup"@)
            &&& program[4].exists is None
            &&& program[6] == needing_link(
                "br0"@,
                "Failed to find network bridge instance br0"@,
                "Failed to read from network link steam"@,
            )
            &&& program[7] == plain(
                ActionOf::AttachLink("veth1_host"@),
                failing("Failed to set veth1_host's master br0"@),
            )
            &&& program[8] == plain(
                ActionOf::MoveLink { name: "veth1_cont"@, pid: child_pid },
                failing("Failed to set namespace for veth1_cont"@),
            )
        }),
{
    assert(host_bridge_program().skip(3) =~= add_address_program(
        "br0"@,
        InterfaceAddress::V4 { address: 0x0a00_0001, prefix: 24 },
    ));
}

} // verus!
