//! Verdicts: an ordered table of rules decides what a command may do. The table is
//! data, so no grade and no action is written here but the closing denial.
use vstd::prelude::*;
use vstd::string::*;

use crate::text;

verus! {

#[derive(Debug, Clone, Copy, PartialEq, Eq, Structural)]
pub enum OpClass {
    Read,
    Write,
    Ddl,
    ProfileMutation,
}

#[derive(Debug, Clone, Copy, PartialEq, Eq, Structural)]
pub enum GateAction {
    Allow,
    Confirm,
    Deny,
}

#[derive(Debug, Clone, Copy, PartialEq, Eq, Structural)]
pub enum Environment {
    Dev,
    Staging,
    Prod,
}

/// What is known of the profile that a command addresses.
#[derive(Debug, Clone, Copy)]
pub struct GateProfile {
    pub environment: Option<Environment>,
    pub read_only: Option<bool>,
}

impl Default for GateProfile {
    fn default() -> (r: Self)
        ensures
            r.environment is None,
            r.read_only is None,
    {
        GateProfile { environment: None, read_only: None }
    }
}

/// A command that asks for a verdict.
#[derive(Debug, Clone)]
pub struct GateInput {
    pub command_id: Option<String>,
    pub op_class: OpClass,
    pub profile: GateProfile,
}

/// What a command may do, and the rule that decided.
#[derive(Debug, Clone, PartialEq, Eq)]
pub struct GateVerdict {
    pub grade: u8,
    pub action: GateAction,
    pub rule: String,
}

/// What a rule asks of the profile.
#[derive(Debug, Clone, Copy)]
pub struct RuleProfileMatch {
    pub environment: Option<Environment>,
    pub read_only: Option<bool>,
}

/// What a rule asks of a command. What it does not declare, it does not ask.
#[derive(Debug, Clone)]
pub struct RuleMatch {
    pub op_class: Option<OpClass>,
    pub command_id: Option<String>,
    pub profile: Option<RuleProfileMatch>,
}

#[derive(Debug, Clone)]
pub struct Rule {
    pub id: String,
    pub conditions: Option<RuleMatch>,
    pub grade: u8,
    pub action: GateAction,
}

/// The rule table, in the order in which rules are tried.
#[derive(Debug, Clone)]
pub struct RulesTable {
    pub version: u32,
    pub rules: Vec<Rule>,
}

impl RuleProfileMatch {
    /// Each field that is declared equals the profile's.
    pub open spec fn admits(self, profile: GateProfile) -> bool {
        &&& self.environment is Some ==> self.environment == profile.environment
        &&& self.read_only is Some ==> self.read_only == profile.read_only
    }
}

impl RuleMatch {
    /// Each field that is declared equals the command's.
    pub open spec fn admits(self, input: GateInput) -> bool {
        &&& self.op_class matches Some(c) ==> c == input.op_class
        &&& self.command_id is Some ==> text::opt_text(self.command_id) == text::opt_text(input.command_id)
        &&& self.profile matches Some(p) ==> p.admits(input.profile)
    }

    /// No field is declared.
    pub open spec fn asks_nothing(self) -> bool {
        &&& self.op_class is None
        &&& self.command_id is None
        &&& self.profile matches Some(p) ==> p.environment is None && p.read_only is None
    }
}

impl Rule {
    /// The rule applies to a command; one without conditions applies to every command.
    pub open spec fn applies(self, input: GateInput) -> bool {
        self.conditions matches Some(c) ==> c.admits(input)
    }

    /// The rule has no conditions.
    pub open spec fn is_catch_all(self) -> bool {
        self.conditions matches Some(c) ==> c.asks_nothing()
    }
}

/// Rule `k` applies to the command, and no rule before it does.
pub open spec fn first_applies(rules: Seq<Rule>, input: GateInput, k: int) -> bool {
    &&& 0 <= k < rules.len()
    &&& rules[k].applies(input)
    &&& forall|j: int| 0 <= j < k ==> !(#[trigger] rules[j]).applies(input)
}

/// No rule applies to the command.
pub open spec fn none_applies(rules: Seq<Rule>, input: GateInput) -> bool {
    forall|j: int| 0 <= j < rules.len() ==> !(#[trigger] rules[j]).applies(input)
}

/// The verdict of the first rule that applies, or the closing denial where none does.
pub open spec fn is_verdict(rules: Seq<Rule>, input: GateInput, v: GateVerdict) -> bool {
    &&& forall|k: int| #[trigger]
        first_applies(rules, input, k) ==> {
            &&& v.grade == rules[k].grade
            &&& v.action == rules[k].action
            &&& v.rule@ == rules[k].id@
        }
    &&& none_applies(rules, input) ==> {
        &&& v.grade == 3
        &&& v.action == GateAction::Deny
        &&& v.rule@ == "no-match"@
    }
}

fn same_environment(a: Environment, b: Option<Environment>) -> (r: bool)
    ensures
        r == (Some(a) == b),
{
    match b {
        Some(b) => a == b,
        None => false,
    }
}

fn same_flag(a: bool, b: Option<bool>) -> (r: bool)
    ensures
        r == (Some(a) == b),
{
    match b {
        Some(b) => a == b,
        None => false,
    }
}

/// A rule applies when every field that it declares equals the command's; the fields
/// under `profile` count one by one. A rule that declares nothing applies to
/// everything: the catch-all.
pub fn rule_applies(rule: &Rule, input: &GateInput) -> (r: bool)
    ensures
        r == rule.applies(*input),
{
    let m = match &rule.conditions {
        Some(m) => m,
        None => return true,
    };
    if let Some(op_class) = m.op_class {
        if op_class != input.op_class {
            return false;
        }
    }
    if let Some(command_id) = &m.command_id {
        match &input.command_id {
            Some(given) => {
                if !text::same(command_id.as_str(), given.as_str()) {
                    return false;
                }
            },
            None => return false,
        }
    }
    if let Some(profile) = m.profile {
        if let Some(environment) = profile.environment {
            if !same_environment(environment, input.profile.environment) {
                return false;
            }
        }
        if let Some(read_only) = profile.read_only {
            if !same_flag(read_only, input.profile.read_only) {
                return false;
            }
        }
    }
    true
}

/// The first rule that applies decides. Where none does, the answer is the denial
/// `no-match` at grade 3: a table with a hole in it fails closed.
pub fn classify_gate(table: &RulesTable, input: &GateInput) -> (r: GateVerdict)
    ensures
        is_verdict(table.rules@, *input, r),
{
    let mut i: usize = 0;
    while i < table.rules.len()
        invariant
            i <= table.rules.len(),
            forall|j: int| 0 <= j < i ==> !(#[trigger] table.rules@[j]).applies(*input),
        decreases table.rules.len() - i,
    {
        let rule = &table.rules[i];
        if rule_applies(rule, input) {
            return GateVerdict { grade: rule.grade, action: rule.action, rule: rule.id.clone() };
        }
        i += 1;
    }
    GateVerdict { grade: 3, action: GateAction::Deny, rule: "no-match".to_owned() }
}

proof fn lemma_first(rules: Seq<Rule>, input: GateInput, n: int) -> (k: int)
    requires
        0 <= n < rules.len(),
        rules[n].applies(input),
    ensures
        k <= n,
        first_applies(rules, input, k),
    decreases n,
{
    if exists|j: int| 0 <= j < n && (#[trigger] rules[j]).applies(input) {
        let j = choose|j: int| 0 <= j < n && (#[trigger] rules[j]).applies(input);
        lemma_first(rules, input, j)
    } else {
        n
    }
}

/// A command always gets the verdict of one rule or the closing denial, never both:
/// exactly one rule is the first that applies, unless none does.
pub proof fn law_one_verdict(rules: Seq<Rule>, input: GateInput)
    ensures
        none_applies(rules, input) <==> !exists|k: int| first_applies(rules, input, k),
        forall|k: int, l: int|
            first_applies(rules, input, k) && first_applies(rules, input, l) ==> k == l,
{
    if !none_applies(rules, input) {
        let n = choose|j: int| 0 <= j < rules.len() && (#[trigger] rules[j]).applies(input);
        let k = lemma_first(rules, input, n);
        assert(first_applies(rules, input, k));
    }
}

/// A table that closes with a catch-all never falls through to `no-match`: every
/// command gets the verdict of a rule of the table.
pub proof fn law_catch_all_closes_the_table(rules: Seq<Rule>, input: GateInput)
    requires
        rules.len() > 0,
        rules.last().is_catch_all(),
    ensures
        exists|k: int| first_applies(rules, input, k),
{
    assert(rules.last().applies(input));
    let k = lemma_first(rules, input, rules.len() - 1);
    assert(first_applies(rules, input, k));
}

/// The table closes with the catch-all `default-deny`, and no rule of it goes by the name
/// of the closing denial.
pub open spec fn closes_with_denial(rules: Seq<Rule>) -> bool {
    &&& rules.len() > 0
    &&& rules.last().is_catch_all()
    &&& rules.last().id@ == "default-deny"@
    &&& rules.last().action == GateAction::Deny
    &&& forall|k: int| 0 <= k < rules.len() ==> (#[trigger] rules[k]).id@ != "no-match"@
}

/// A table that closes with `default-deny` fails closed: no command is answered with
/// `no-match`, and one that no earlier rule applies to is denied by `default-deny`.
pub proof fn law_a_closed_table_fails_closed(rules: Seq<Rule>, input: GateInput, v: GateVerdict)
    requires
        closes_with_denial(rules),
        is_verdict(rules, input, v),
    ensures
        v.rule@ != "no-match"@,
        (forall|j: int| 0 <= j < rules.len() - 1 ==> !(#[trigger] rules[j]).applies(input))
            ==> v.rule@ == "default-deny"@ && v.action == GateAction::Deny,
{
    law_catch_all_closes_the_table(rules, input);
    let k = choose|k: int| first_applies(rules, input, k);
    assert(rules[k].id@ != "no-match"@);
}

/// Rules that come later never change the verdict of one that already applies.
pub proof fn law_earlier_rules_win(
    rules: Seq<Rule>,
    more: Seq<Rule>,
    input: GateInput,
    k: int,
)
    requires
        first_applies(rules, input, k),
    ensures
        first_applies(rules + more, input, k),
{
    assert forall|j: int| 0 <= j < k implies !(#[trigger] (rules + more)[j]).applies(input) by {
        assert((rules + more)[j] == rules[j]);
    }
}

/// A rule applies to a command exactly where the class of operation, the command, the
/// environment and the read-only mark are what the rule declares of them; what it does not
/// declare does not count, and a rule without conditions applies always.
pub proof fn law_what_a_rule_applies_to(rule: Rule, input: GateInput)
    ensures
        rule.conditions is None ==> rule.applies(input),
        rule.conditions matches Some(c) ==> rule.applies(input) == {
            &&& c.op_class is None || c.op_class == Some(input.op_class)
            &&& c.command_id is None || (input.command_id is Some && c.command_id->0@
                == input.command_id->0@)
            &&& c.profile is None || c.profile->0.environment is None || c.profile->0.environment
                == input.profile.environment
            &&& c.profile is None || c.profile->0.read_only is None || c.profile->0.read_only
                == input.profile.read_only
        },
        rule.is_catch_all() <==> rule.conditions is None || {
            let c = rule.conditions->0;
            &&& c.op_class is None
            &&& c.command_id is None
            &&& c.profile is None || (c.profile->0.environment is None && c.profile->0.read_only is None)
        },
{
}

/// The verdict on a command is that of the first rule that applies to it, by its grade, its
/// action and its name; where none applies it is a denial of the highest grade by the name of
/// `no-match`.
pub proof fn law_what_the_verdict_is(rules: Seq<Rule>, input: GateInput, v: GateVerdict, k: int)
    requires
        is_verdict(rules, input, v),
    ensures
        0 <= k < rules.len() && rules[k].applies(input) && (forall|j: int|
            0 <= j < k ==> !(#[trigger] rules[j]).applies(input)) ==> v.grade == rules[k].grade
            && v.action == rules[k].action && v.rule@ == rules[k].id@,
        (forall|j: int| 0 <= j < rules.len() ==> !(#[trigger] rules[j]).applies(input)) ==> v.grade
            == 3 && v.action == GateAction::Deny && v.rule@ == "no-match"@,
{
    if 0 <= k < rules.len() && rules[k].applies(input) && (forall|j: int|
        0 <= j < k ==> !(#[trigger] rules[j]).applies(input)) {
        assert(first_applies(rules, input, k));
    }
}

} // verus!
