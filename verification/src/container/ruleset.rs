//! Firewall rulesets, as the `nftables` crate builds them.
//!
//! A `Batch` and a `Rule` are that crate's own values. Contracts speak of what
//! they hold: the commands of a batch and the object that a rule is.
use vstd::prelude::*;

use nftables::batch::Batch;
use nftables::expr::{Expression, Meta, MetaKey, NamedExpression, CT};
use nftables::schema::{Chain, NfListObject, Rule, Table};
use nftables::stmt::{Match, Operator, Statement};
use nftables::types::{NfChainPolicy, NfChainType, NfFamily, NfHook};

use crate::text::texts;

verus! {

/// Which packets a table sees.
#[derive(Clone, Copy, PartialEq, Eq, Structural, Debug)]
pub enum Family {
    Ip,
    Ip6,
    /// Both of them.
    Inet,
}

/// How a rule compares.
#[derive(Clone, Copy, PartialEq, Eq, Structural, Debug)]
pub enum Comparison {
    /// The two sides are equal.
    Equal,
    /// The one side is among those on the other.
    In,
}

/// What a chain is for.
#[derive(Clone, Copy, PartialEq, Eq, Structural, Debug)]
pub enum ChainKind {
    Filter,
    Nat,
}

/// Where in the kernel a chain sees packets.
#[derive(Clone, Copy, PartialEq, Eq, Structural, Debug)]
pub enum Hook {
    Forward,
    Postrouting,
}

/// What becomes of a packet that no rule of a chain decides on.
#[derive(Clone, Copy, PartialEq, Eq, Structural, Debug)]
pub enum ChainPolicy {
    Accept,
    Drop,
}

/// Which of a packet's interfaces a rule looks at.
#[derive(Clone, Copy, PartialEq, Eq, Structural, Debug)]
pub enum Side {
    Input,
    Output,
}

/// What a rule does with the packets that it matches.
#[derive(Clone, Copy, PartialEq, Eq, Structural, Debug)]
pub enum Outcome {
    Accept,
    Masquerade,
}

/// A statement of a rule.
pub enum RuleStatement {
    /// How the packet's interface on a side compares with the name.
    Interface { side: Side, comparison: Comparison, name: Seq<char> },
    /// How the connection's property `key` compares with the names.
    Connection { key: Seq<char>, comparison: Comparison, names: Seq<Seq<char>> },
    /// What becomes of the packet.
    Decide(Outcome),
    /// Another statement.
    Other,
}

/// An object of a ruleset. All is said of the tables, chains and rules.
pub enum RulesetObject {
    Table { family: Family, name: Seq<char> },
    Chain {
        family: Family,
        table: Seq<char>,
        name: Seq<char>,
        kind: ChainKind,
        hook: Hook,
        priority: i32,
        policy: ChainPolicy,
    },
    Rule {
        family: Family,
        table: Seq<char>,
        chain: Seq<char>,
        statements: Seq<RuleStatement>,
    },
    /// Another object.
    Other,
}

/// A command of a ruleset.
pub enum RulesetCommand {
    Add(RulesetObject),
    Delete(RulesetObject),
    /// Another command.
    Other,
}

/// `nftables::batch::Batch`. Nothing is claimed of it here; see `batch_commands`.
#[verifier::external_type_specification]
#[verifier::external_body]
pub struct ExBatch<'a>(Batch<'a>);

/// `nftables::schema::Rule`. Nothing is claimed of it here; see `rule_object`.
#[verifier::external_type_specification]
#[verifier::external_body]
pub struct ExRule<'a>(Rule<'a>);

/// The commands of a batch, in order.
pub uninterp spec fn batch_commands(batch: Batch<'static>) -> Seq<RulesetCommand>;

/// The object that a rule is: where it belongs, and its statements in order.
pub uninterp spec fn rule_object(rule: Rule<'static>) -> RulesetObject;

/// A rule with one more statement at its end.
pub open spec fn with_statement(rule: RulesetObject, statement: RuleStatement) -> RulesetObject {
    match rule {
        RulesetObject::Rule { family, table, chain, statements } => RulesetObject::Rule {
            family,
            table,
            chain,
            statements: statements.push(statement),
        },
        other => other,
    }
}

/// Whether all is said of an object.
pub open spec fn is_spelled_out(object: RulesetObject) -> bool {
    match object {
        RulesetObject::Table { .. } | RulesetObject::Chain { .. } => true,
        RulesetObject::Rule { statements, .. } => forall|i: int|
            0 <= i < statements.len() ==> !(#[trigger] statements[i] is Other),
        RulesetObject::Other => false,
    }
}

/// Whether all is said of each command.
pub open spec fn are_spelled_out(commands: Seq<RulesetCommand>) -> bool {
    forall|i: int|
        0 <= i < commands.len() ==> match #[trigger] commands[i] {
            RulesetCommand::Add(object) | RulesetCommand::Delete(object) => is_spelled_out(object),
            RulesetCommand::Other => false,
        }
}

/// The text in which `serde_json::to_string` writes the ruleset of a batch with
/// these commands.
pub uninterp spec fn ruleset_json(commands: Seq<RulesetCommand>) -> Seq<char>;

/// `Batch::new` gives a batch without commands.
#[verifier::external_body]
pub(crate) fn new_batch() -> (batch: Batch<'static>)
    ensures
        batch_commands(batch) == Seq::<RulesetCommand>::empty(),
{
    Batch::new()
}

/// `Batch::add`, for a table: appends the command to add it.
#[verifier::external_body]
pub(crate) fn add_table(batch: &mut Batch<'static>, family: Family, name: &str)
    ensures
        batch_commands(*final(batch)) == batch_commands(*old(batch)).push(
            RulesetCommand::Add(RulesetObject::Table { family, name: name@ }),
        ),
{
    let family = match family { Family::Ip => NfFamily::IP, Family::Ip6 => NfFamily::IP6, Family::Inet => NfFamily::INet };
    batch.add(NfListObject::Table(Table { family, name: name.to_owned().into(), handle: None }))
}

/// `Batch::delete`, for a table: appends the command to delete it.
#[verifier::external_body]
pub(crate) fn delete_table(batch: &mut Batch<'static>, family: Family, name: &str)
    ensures
        batch_commands(*final(batch)) == batch_commands(*old(batch)).push(
            RulesetCommand::Delete(RulesetObject::Table { family, name: name@ }),
        ),
{
    let family = match family { Family::Ip => NfFamily::IP, Family::Ip6 => NfFamily::IP6, Family::Inet => NfFamily::INet };
    batch.delete(NfListObject::Table(Table { family, name: name.to_owned().into(), handle: None }))
}

/// `Batch::add`, for a chain: appends the command to add it.
#[verifier::external_body]
pub(crate) fn add_chain(
    batch: &mut Batch<'static>,
    family: Family,
    table: &str,
    name: &str,
    kind: ChainKind,
    hook: Hook,
    priority: i32,
    policy: ChainPolicy,
)
    ensures
        batch_commands(*final(batch)) == batch_commands(*old(batch)).push(
            RulesetCommand::Add(
                RulesetObject::Chain {
                    family,
                    table: table@,
                    name: name@,
                    kind,
                    hook,
                    priority,
                    policy,
                },
            ),
        ),
{
    let family = match family { Family::Ip => NfFamily::IP, Family::Ip6 => NfFamily::IP6, Family::Inet => NfFamily::INet };
    let _type = match kind { ChainKind::Filter => NfChainType::Filter, ChainKind::Nat => NfChainType::NAT };
    let hook = match hook { Hook::Forward => NfHook::Forward, Hook::Postrouting => NfHook::Postrouting };
    let policy = match policy { ChainPolicy::Accept => NfChainPolicy::Accept, ChainPolicy::Drop => NfChainPolicy::Drop };
    batch.add(NfListObject::Chain(Chain {
        family,
        table: table.to_owned().into(),
        name: name.to_owned().into(),
        _type: Some(_type),
        hook: Some(hook),
        prio: Some(priority),
        policy: Some(policy),
        ..Default::default()
    }))
}

/// A `Rule` for a chain, made without statements.
#[verifier::external_body]
pub(crate) fn new_rule(family: Family, table: &str, chain: &str) -> (rule: Rule<'static>)
    ensures
        rule_object(rule) == (RulesetObject::Rule {
            family,
            table: table@,
            chain: chain@,
            statements: Seq::empty(),
        }),
{
    let family = match family { Family::Ip => NfFamily::IP, Family::Ip6 => NfFamily::IP6, Family::Inet => NfFamily::INet };
    Rule {
        family,
        table: table.to_owned().into(),
        chain: chain.to_owned().into(),
        expr: Vec::new().into(),
        handle: None,
        index: None,
        comment: None,
    }
}

/// Appends a `Match` of an interface's name to the statements of a `Rule`.
#[verifier::external_body]
pub(crate) fn match_interface(
    rule: &mut Rule<'static>,
    side: Side,
    comparison: Comparison,
    name: &str,
)
    ensures
        rule_object(*old(rule)) is Rule ==> rule_object(*final(rule)) == with_statement(
            rule_object(*old(rule)),
            RuleStatement::Interface { side, comparison, name: name@ },
        ),
{
    let op = match comparison { Comparison::Equal => Operator::EQ, Comparison::In => Operator::IN };
    let key = match side { Side::Input => MetaKey::Iifname, Side::Output => MetaKey::Oifname };
    rule.expr.to_mut().push(Statement::Match(Match {
        left: Expression::Named(NamedExpression::Meta(Meta { key })),
        op,
        right: Expression::String(name.to_owned().into()),
    }))
}

/// Appends a `Match` of a tracked connection's property to the statements of a
/// `Rule`.
#[verifier::external_body]
pub(crate) fn match_connection(
    rule: &mut Rule<'static>,
    key: &str,
    comparison: Comparison,
    names: Vec<String>,
)
    ensures
        rule_object(*old(rule)) is Rule ==> rule_object(*final(rule)) == with_statement(
            rule_object(*old(rule)),
            RuleStatement::Connection { key: key@, comparison, names: texts(names@) },
        ),
{
    let op = match comparison { Comparison::Equal => Operator::EQ, Comparison::In => Operator::IN };
    let key = key.to_owned().into();
    rule.expr.to_mut().push(Statement::Match(Match {
        left: Expression::Named(NamedExpression::CT(CT { key, family: None, dir: None })),
        op,
        right: Expression::List(
            names.into_iter().map(|name| Expression::String(name.into())).collect(),
        ),
    }))
}

/// Appends a verdict or a translation to the statements of a `Rule`.
#[verifier::external_body]
pub(crate) fn decide(rule: &mut Rule<'static>, outcome: Outcome)
    ensures
        rule_object(*old(rule)) is Rule ==> rule_object(*final(rule)) == with_statement(
            rule_object(*old(rule)),
            RuleStatement::Decide(outcome),
        ),
{
    rule.expr.to_mut().push(match outcome {
        Outcome::Accept => Statement::Accept(None),
        Outcome::Masquerade => Statement::Masquerade(None),
    })
}

/// `Batch::add`, for a rule: appends the command to add it.
#[verifier::external_body]
pub(crate) fn add_rule(batch: &mut Batch<'static>, rule: Rule<'static>)
    ensures
        batch_commands(*final(batch)) == batch_commands(*old(batch)).push(
            RulesetCommand::Add(rule_object(rule)),
        ),
{
    batch.add(NfListObject::Rule(rule))
}

/// `Batch::to_nftables`, whose ruleset `serde_json::to_string` then writes as the
/// text that `nft` reads: a function of the batch's commands, as long as they are
/// tables, chains and rules of which all is said. Other objects may hold sets of flags,
/// which are written in no fixed order. Writing it cannot fail: none of the parts of
/// such a ruleset refuses to be written.
#[verifier::external_body]
pub(crate) fn ruleset_text(batch: Batch<'static>) -> (text: String)
    requires
        are_spelled_out(batch_commands(batch)),
    ensures
        text@ == ruleset_json(batch_commands(batch)),
{
    serde_json::to_string(&batch.to_nftables()).unwrap()
}

} // verus!
