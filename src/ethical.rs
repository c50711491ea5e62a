//! The ethical decision tree that gates spawning, plugin attachment,
//! execution and recovery.
//!
//! Each internal node names a rule; evaluation starts at the root, takes the
//! right child when the rule holds and the left child otherwise, and stops at
//! the first node carrying a decision. A missing right child denies, a missing
//! left child allows, a missing node denies. A walk that visits more nodes
//! than the tree holds has met a cycle and denies.
use vstd::prelude::*;
use vstd::string::*;
use crate::agent::AgentConfig;
use crate::json::{json_get, member_lookup, JsonValue};
use crate::plugin::{Plugin, RiskLevel};
use crate::text::{contains_text, has_substring, lower_of, lowercase, text_eq};

verus! {

broadcast use vstd::std_specs::vec::group_vec_axioms, vstd::seq::group_seq_axioms, vstd::string::group_string_axioms;

/// Outcome of an ethical evaluation.
#[derive(Debug, Clone, Copy, PartialEq, Eq, Structural)]
pub enum Decision {
    Allow,
    Deny,
}

/// A node of the tree: a rule to test, or a terminal decision.
#[derive(Debug)]
pub struct EthicalNode {
    pub id: String,
    pub rule: String,
    pub parent: Option<String>,
    /// Followed when the rule does not hold.
    pub left: Option<String>,
    /// Followed when the rule holds.
    pub right: Option<String>,
    pub decision: Option<Decision>,
}

pub open spec fn opt_view(o: Option<String>) -> Option<Seq<char>> {
    match o {
        Some(s) => Some(s@),
        None => None,
    }
}

/// The node stored under `id`; a later entry overrides an earlier one.
pub open spec fn node_at(nodes: Seq<EthicalNode>, id: Seq<char>) -> Option<EthicalNode>
    decreases nodes.len(),
{
    if nodes.len() == 0 {
        None
    } else if nodes.last().id@ == id {
        Some(nodes.last())
    } else {
        node_at(nodes.drop_last(), id)
    }
}

proof fn lemma_node_at_push(s: Seq<EthicalNode>, x: EthicalNode, id: Seq<char>)
    ensures
        node_at(s.push(x), id) == if x.id@ == id {
            Some(x)
        } else {
            node_at(s, id)
        },
{
    assert(s.push(x).drop_last() =~= s);
}

proof fn lemma_node_at_id(s: Seq<EthicalNode>, id: Seq<char>)
    ensures
        node_at(s, id) matches Some(x) ==> x.id@ == id,
    decreases s.len(),
{
    if s.len() > 0 && s.last().id@ != id {
        lemma_node_at_id(s.drop_last(), id);
    }
}

/// Lengths and first characters of the literal names the tree works with,
/// from which their pairwise distinctness follows.
proof fn lemma_literals()
    ensures
        "root"@.len() == 4,
        "root"@[0] == 'r',
        "allow"@.len() == 5,
        "allow"@[0] == 'a',
        "harmful"@.len() == 7,
        "harmful"@[0] == 'h',
        "deny"@.len() == 4,
        "deny"@[0] == 'd',
        "check_legal"@.len() == 11,
        "check_legal"@[0] == 'c',
        "deny_illegal"@.len() == 12,
        "deny_illegal"@[0] == 'd',
        "allow_legal"@.len() == 11,
        "allow_legal"@[0] == 'a',
        "agent_spawn"@.len() == 11,
        "agent_spawn"@[0] == 'a',
        "plugin_validation"@.len() == 17,
        "plugin_validation"@[0] == 'p',
        "execution_validation"@.len() == 20,
        "execution_validation"@[0] == 'e',
        "name"@.len() == 4,
        "name"@[0] == 'n',
        "intents"@.len() == 7,
        "intents"@[0] == 'i',
        "id"@.len() == 2,
        "id"@[0] == 'i',
        "risk_level"@.len() == 10,
        "risk_level"@[0] == 'r',
        "high"@.len() == 4,
        "high"@[0] == 'h',
        "medium"@.len() == 6,
        "medium"@[0] == 'm',
        "low"@.len() == 3,
        "low"@[0] == 'l',
        "is_harmful"@.len() == 10,
        "is_harmful"@[0] == 'i',
        "has_consent"@.len() == 11,
        "has_consent"@[0] == 'h',
        "is_legal"@.len() == 8,
        "is_legal"@[0] == 'i',
{
    reveal_strlit("root");
    reveal_strlit("allow");
    reveal_strlit("harmful");
    reveal_strlit("deny");
    reveal_strlit("check_legal");
    reveal_strlit("deny_illegal");
    reveal_strlit("allow_legal");
    reveal_strlit("agent_spawn");
    reveal_strlit("plugin_validation");
    reveal_strlit("execution_validation");
    reveal_strlit("name");
    reveal_strlit("intents");
    reveal_strlit("id");
    reveal_strlit("risk_level");
    reveal_strlit("high");
    reveal_strlit("medium");
    reveal_strlit("low");
    reveal_strlit("is_harmful");
    reveal_strlit("has_consent");
    reveal_strlit("is_legal");
}

/// The decision reached from node `id` with at most `fuel` node visits,
/// where `holds` tells which rules hold.
pub open spec fn walk(
    nodes: Seq<EthicalNode>,
    id: Seq<char>,
    holds: spec_fn(Seq<char>) -> bool,
    fuel: nat,
) -> Decision
    decreases fuel,
{
    if fuel == 0 {
        Decision::Deny
    } else {
        match node_at(nodes, id) {
            None => Decision::Deny,
            Some(n) => match n.decision {
                Some(d) => d,
                None => if holds(n.rule@) {
                    match n.right {
                        Some(r) => walk(nodes, r@, holds, (fuel - 1) as nat),
                        None => Decision::Deny,
                    }
                } else {
                    match n.left {
                        Some(l) => walk(nodes, l@, holds, (fuel - 1) as nat),
                        None => Decision::Allow,
                    }
                },
            },
        }
    }
}

/// A text that names harm: its lower-case form holds `harm`, `attack` or
/// `exploit`.
pub open spec fn harmful_text(s: Seq<char>) -> bool {
    names_harm(lower_of(s))
}

/// A lower-case text holds `harm`, `attack` or `exploit`.
pub open spec fn names_harm(l: Seq<char>) -> bool {
    has_substring(l, "harm"@) || has_substring(l, "attack"@) || has_substring(l, "exploit"@)
}

pub open spec fn harmful_item(v: JsonValue) -> bool {
    match v {
        JsonValue::Str(s) => harmful_text(s@),
        _ => false,
    }
}

/// Some item of the list is a text that names harm.
pub open spec fn some_item_harmful(items: Seq<JsonValue>) -> bool {
    exists|k: int| 0 <= k < items.len() && #[trigger] harmful_item(items[k])
}

/// The payload lists an intent that names harm.
pub open spec fn data_has_harmful_intent(data: JsonValue) -> bool {
    match json_get(data, "intents"@) {
        Some(JsonValue::Array(items)) => some_item_harmful(items@),
        _ => false,
    }
}

/// The payload's `risk_level` is `high`.
pub open spec fn data_risk_is_high(data: JsonValue) -> bool {
    match json_get(data, "risk_level"@) {
        Some(JsonValue::Str(s)) => s@ == "high"@,
        _ => false,
    }
}

/// Whether a named rule holds in a context for a payload. `is_harmful` holds
/// only for a spawn whose intents name harm; `has_consent` fails only for a
/// high-risk plugin; `is_legal` always holds; other rules never do.
pub open spec fn rule_holds(rule: Seq<char>, context: Seq<char>, data: JsonValue) -> bool {
    if rule == "is_harmful"@ {
        context == "agent_spawn"@ && data_has_harmful_intent(data)
    } else if rule == "has_consent"@ {
        !(context == "plugin_validation"@ && data_risk_is_high(data))
    } else {
        rule == "is_legal"@
    }
}

/// The rules as they hold for spawning an agent with these intents.
pub open spec fn spawn_rule(rule: Seq<char>, intents: Seq<String>) -> bool {
    if rule == "is_harmful"@ {
        exists|k: int| 0 <= k < intents.len() && #[trigger] harmful_text(intents[k]@)
    } else if rule == "has_consent"@ {
        true
    } else {
        rule == "is_legal"@
    }
}

/// The rules as they hold for a plugin, high-risk or not.
pub open spec fn plugin_rule(rule: Seq<char>, high_risk: bool) -> bool {
    if rule == "is_harmful"@ {
        false
    } else if rule == "has_consent"@ {
        !high_risk
    } else {
        rule == "is_legal"@
    }
}

/// The rules as they hold in any context but spawning and plugin checks.
pub open spec fn default_rule(rule: Seq<char>) -> bool {
    plugin_rule(rule, false)
}

/// The agent name holds a prohibited term, ignoring case.
pub open spec fn name_prohibited(name: Seq<char>) -> bool {
    names_prohibited_term(lower_of(name))
}

/// A lower-case name holds `malware`, `exploit`, `hack`, `attack` or `virus`.
pub open spec fn names_prohibited_term(l: Seq<char>) -> bool {
    has_substring(l, "malware"@) || has_substring(l, "exploit"@) || has_substring(l, "hack"@)
        || has_substring(l, "attack"@) || has_substring(l, "virus"@)
}

/// The intent names a prohibited action, ignoring case.
pub open spec fn intent_prohibited(intent: Seq<char>) -> bool {
    names_prohibited_action(lower_of(intent))
}

/// A lower-case intent holds `delete_all`, `format`, `wipe` or `destroy`.
pub open spec fn names_prohibited_action(l: Seq<char>) -> bool {
    has_substring(l, "delete_all"@) || has_substring(l, "format"@) || has_substring(l, "wipe"@)
        || has_substring(l, "destroy"@)
}

/// The decision of the default tree under the rules `holds`.
pub open spec fn default_decision(holds: spec_fn(Seq<char>) -> bool) -> Decision {
    if !holds("is_harmful"@) {
        Decision::Allow
    } else if !holds("has_consent"@) {
        Decision::Deny
    } else if !holds("is_legal"@) {
        Decision::Deny
    } else {
        Decision::Allow
    }
}

/// The binary decision tree.
pub struct EthicalBinaryTree {
    nodes: Vec<EthicalNode>,
    root: String,
}

fn leaf(id: &str, parent: &str, decision: Decision) -> (r: EthicalNode)
    ensures
        r.id@ == id@,
        r.rule@ == id@,
        opt_view(r.parent) == Some(parent@),
        r.left is None,
        r.right is None,
        r.decision == Some(decision),
{
    EthicalNode {
        id: id.to_owned(),
        rule: id.to_owned(),
        parent: Some(parent.to_owned()),
        left: None,
        right: None,
        decision: Some(decision),
    }
}

fn branch(id: &str, rule: &str, parent: Option<&str>, left: &str, right: &str) -> (r: EthicalNode)
    ensures
        r.id@ == id@,
        r.rule@ == rule@,
        opt_view(r.parent) == match parent {
            Some(p) => Some(p@),
            None => None::<Seq<char>>,
        },
        opt_view(r.left) == Some(left@),
        opt_view(r.right) == Some(right@),
        r.decision is None,
{
    EthicalNode {
        id: id.to_owned(),
        rule: rule.to_owned(),
        parent: match parent {
            Some(p) => Some(p.to_owned()),
            None => None,
        },
        left: Some(left.to_owned()),
        right: Some(right.to_owned()),
        decision: None,
    }
}

fn clone_opt(o: &Option<String>) -> (r: Option<String>)
    ensures
        r == *o,
{
    match o {
        Some(s) => Some(s.clone()),
        None => None,
    }
}

/// Whether some intent of the list names harm.
fn any_harmful(items: &Vec<JsonValue>) -> (r: bool)
    ensures
        r == some_item_harmful(items@),
{
    let mut k: usize = 0;
    while k < items.len()
        invariant
            0 <= k <= items@.len(),
            forall|j: int| 0 <= j < k ==> !#[trigger] harmful_item(items@[j]),
        decreases items@.len() - k,
    {
        match items[k].as_str() {
            Some(s) => {
                if is_harmful_text(s.as_str()) {
                    assert(harmful_item(items@[k as int]));
                    return true;
                }
            },
            None => {},
        }
        k = k + 1;
    }
    false
}

/// Whether a text names harm.
fn is_harmful_text(s: &str) -> (r: bool)
    ensures
        r == harmful_text(s@),
{
    let l = lowercase(s);
    lower_names_harm(l.as_str())
}

/// Whether a lower-case text holds `harm`, `attack` or `exploit`.
pub fn lower_names_harm(l: &str) -> (r: bool)
    ensures
        r == names_harm(l@),
{
    contains_text(l, "harm") || contains_text(l, "attack") || contains_text(l, "exploit")
}

/// The first of `malware`, `exploit`, `hack`, `attack`, `virus` that a
/// lower-case name holds.
pub fn prohibited_term(lower_name: &str) -> (r: Option<&'static str>)
    ensures
        r is Some <==> names_prohibited_term(lower_name@),
{
    let terms: Vec<&'static str> = vec!["malware", "exploit", "hack", "attack", "virus"];
    match first_term_in(lower_name, &terms) {
        Some(k) => Some(terms[k]),
        None => {
            assert(!has_substring(lower_name@, terms@[0]@));
            assert(!has_substring(lower_name@, terms@[1]@));
            assert(!has_substring(lower_name@, terms@[2]@));
            assert(!has_substring(lower_name@, terms@[3]@));
            assert(!has_substring(lower_name@, terms@[4]@));
            None
        },
    }
}

/// The first of `delete_all`, `format`, `wipe`, `destroy` that a lower-case
/// intent holds.
pub fn prohibited_action(lower_intent: &str) -> (r: Option<&'static str>)
    ensures
        r is Some <==> names_prohibited_action(lower_intent@),
{
    let actions: Vec<&'static str> = vec!["delete_all", "format", "wipe", "destroy"];
    match first_term_in(lower_intent, &actions) {
        Some(k) => Some(actions[k]),
        None => {
            assert(!has_substring(lower_intent@, actions@[0]@));
            assert(!has_substring(lower_intent@, actions@[1]@));
            assert(!has_substring(lower_intent@, actions@[2]@));
            assert(!has_substring(lower_intent@, actions@[3]@));
            None
        },
    }
}

/// Evaluates one rule.
fn evaluate_rule(rule: &str, context: &str, data: &JsonValue) -> (r: bool)
    ensures
        r == rule_holds(rule@, context@, *data),
{
    proof {
        lemma_literals();
    }
    if text_eq(rule, "is_harmful") {
        if text_eq(context, "agent_spawn") {
            match data.get("intents") {
                Some(v) => match v.as_array() {
                    Some(items) => {
                        let found = any_harmful(items);
                        assert(json_get(*data, "intents"@) == Some(JsonValue::Array(*items)));
                        assert(found == data_has_harmful_intent(*data));
                        found
                    },
                    None => false,
                },
                None => false,
            }
        } else {
            false
        }
    } else if text_eq(rule, "has_consent") {
        if text_eq(context, "plugin_validation") {
            match data.get("risk_level") {
                Some(v) => match v.as_str() {
                    Some(s) => {
                        let high = text_eq(s.as_str(), "high");
                        assert(high == data_risk_is_high(*data));
                        !high
                    },
                    None => true,
                },
                None => true,
            }
        } else {
            true
        }
    } else {
        text_eq(rule, "is_legal")
    }
}

/// The first prohibited term found in the lower-case text, if any.
fn first_term_in(l: &str, terms: &Vec<&str>) -> (r: Option<usize>)
    ensures
        r is Some <==> exists|k: int| 0 <= k < terms@.len() && has_substring(l@, #[trigger] terms@[k]@),
        r matches Some(k) ==> k < terms@.len(),
{
    let mut k: usize = 0;
    while k < terms.len()
        invariant
            0 <= k <= terms@.len(),
            forall|j: int| 0 <= j < k ==> !has_substring(l@, #[trigger] terms@[j]@),
        decreases terms@.len() - k,
    {
        if contains_text(l, terms[k]) {
            return Some(k);
        }
        k = k + 1;
    }
    None
}

impl EthicalBinaryTree {
    pub closed spec fn spec_nodes(&self) -> Seq<EthicalNode> {
        self.nodes@
    }

    pub closed spec fn spec_root(&self) -> Seq<char> {
        self.root@
    }

    /// The decision of the tree when `holds` tells which rules hold.
    pub open spec fn decide_with(&self, holds: spec_fn(Seq<char>) -> bool) -> Decision {
        walk(self.spec_nodes(), self.spec_root(), holds, self.spec_nodes().len())
    }

    /// The decision of the tree for a context and payload.
    pub open spec fn decide(&self, context: Seq<char>, data: JsonValue) -> Decision {
        self.decide_with(|r: Seq<char>| rule_holds(r, context, data))
    }

    /// The tree has the default topology: seven nodes, each with its rule,
    /// children, decision and parent.
    pub open spec fn is_default(&self) -> bool {
        let n = self.spec_nodes();
        &&& self.spec_root() == "root"@
        &&& n.len() == 7
        &&& node_at(n, "root"@) matches Some(x) && x.rule@ == "is_harmful"@ && x.decision is None
            && opt_view(x.left) == Some("allow"@) && opt_view(x.right) == Some("harmful"@) && x.parent is None
        &&& node_at(n, "allow"@) matches Some(x) && x.decision == Some(Decision::Allow) && opt_view(x.parent) == Some(
            "root"@,
        ) && x.left is None && x.right is None
        &&& node_at(n, "harmful"@) matches Some(x) && x.rule@ == "has_consent"@ && x.decision is None
            && opt_view(x.left) == Some("deny"@) && opt_view(x.right) == Some("check_legal"@) && opt_view(x.parent)
            == Some("root"@)
        &&& node_at(n, "deny"@) matches Some(x) && x.decision == Some(Decision::Deny) && opt_view(x.parent) == Some(
            "harmful"@,
        ) && x.left is None && x.right is None
        &&& node_at(n, "check_legal"@) matches Some(x) && x.rule@ == "is_legal"@ && x.decision is None
            && opt_view(x.left) == Some("deny_illegal"@) && opt_view(x.right) == Some("allow_legal"@) && opt_view(
            x.parent,
        ) == Some("harmful"@)
        &&& node_at(n, "deny_illegal"@) matches Some(x) && x.decision == Some(Decision::Deny) && opt_view(x.parent)
            == Some("check_legal"@) && x.left is None && x.right is None
        &&& node_at(n, "allow_legal"@) matches Some(x) && x.decision == Some(Decision::Allow) && opt_view(x.parent)
            == Some("check_legal"@) && x.left is None && x.right is None
    }

    /// The default tree: `is_harmful` at the root, then `has_consent`, then
    /// `is_legal`.
    pub fn new() -> (r: EthicalBinaryTree)
        ensures
            r.is_default(),
    {
        let mut nodes: Vec<EthicalNode> = Vec::new();
        nodes.push(branch("root", "is_harmful", None, "allow", "harmful"));
        nodes.push(leaf("allow", "root", Decision::Allow));
        nodes.push(branch("harmful", "has_consent", Some("root"), "deny", "check_legal"));
        nodes.push(leaf("deny", "harmful", Decision::Deny));
        nodes.push(branch("check_legal", "is_legal", Some("harmful"), "deny_illegal", "allow_legal"));
        nodes.push(leaf("deny_illegal", "check_legal", Decision::Deny));
        nodes.push(leaf("allow_legal", "check_legal", Decision::Allow));
        let r = EthicalBinaryTree { nodes, root: String::from_str("root") };
        proof {
            let n = r.nodes@;
            assert(n.drop_last() =~= n.subrange(0, 6));
            assert(n.subrange(0, 6).drop_last() =~= n.subrange(0, 5));
            assert(n.subrange(0, 5).drop_last() =~= n.subrange(0, 4));
            assert(n.subrange(0, 4).drop_last() =~= n.subrange(0, 3));
            assert(n.subrange(0, 3).drop_last() =~= n.subrange(0, 2));
            assert(n.subrange(0, 2).drop_last() =~= n.subrange(0, 1));
            assert(n.subrange(0, 1).drop_last() =~= n.subrange(0, 0));
            lemma_literals();
            reveal_with_fuel(node_at, 8);
        }
        r
    }

    /// Index of the node stored under `id`.
    fn find(&self, id: &str) -> (r: Option<usize>)
        ensures
            match r {
                Some(i) => i < self.spec_nodes().len() && node_at(self.spec_nodes(), id@) == Some(
                    self.spec_nodes()[i as int],
                ),
                None => node_at(self.spec_nodes(), id@) is None,
            },
    {
        let mut i: usize = self.nodes.len();
        assert(self.nodes@.subrange(0, i as int) =~= self.nodes@);
        while i > 0
            invariant
                0 <= i <= self.nodes@.len(),
                node_at(self.nodes@, id@) == node_at(self.nodes@.subrange(0, i as int), id@),
            decreases i,
        {
            let ghost pre = self.nodes@.subrange(0, i as int);
            assert(pre.drop_last() =~= self.nodes@.subrange(0, i - 1));
            assert(pre.last() == self.nodes@[i - 1]);
            i = i - 1;
            if text_eq(self.nodes[i].id.as_str(), id) {
                return Some(i);
            }
        }
        None
    }

    /// Evaluates the tree for a context and payload.
    pub fn evaluate(&self, context: &str, data: &JsonValue) -> (r: Decision)
        ensures
            r == self.decide(context@, *data),
    {
        let ghost holds = |r: Seq<char>| rule_holds(r, context@, *data);
        let mut current: String = self.root.clone();
        let mut fuel: usize = self.nodes.len();
        loop
            invariant
                self.decide(context@, *data) == walk(self.nodes@, current@, holds, fuel as nat),
                holds == (|r: Seq<char>| rule_holds(r, context@, *data)),
            decreases fuel,
        {
            if fuel == 0 {
                return Decision::Deny;
            }
            match self.find(current.as_str()) {
                None => {
                    return Decision::Deny;
                },
                Some(i) => {
                    let node = &self.nodes[i];
                    match node.decision {
                        Some(d) => {
                            return d;
                        },
                        None => {},
                    }
                    if evaluate_rule(node.rule.as_str(), context, data) {
                        match &node.right {
                            Some(next) => {
                                current = next.clone();
                            },
                            None => {
                                return Decision::Deny;
                            },
                        }
                    } else {
                        match &node.left {
                            Some(next) => {
                                current = next.clone();
                            },
                            None => {
                                return Decision::Allow;
                            },
                        }
                    }
                    fuel = fuel - 1;
                },
            }
        }
    }

    /// Checks a spawn: the name must not hold a prohibited term and the tree
    /// must allow the agent's intents.
    pub fn validate_spawn(&self, config: &AgentConfig) -> (r: Result<(), String>)
        ensures
            r is Ok <==> !name_prohibited(config.name@) && self.decide_with(
                |rule: Seq<char>| spawn_rule(rule, config.intents@),
            ) == Decision::Allow,
    {
        let name_lower = lowercase(config.name.as_str());
        match prohibited_term(name_lower.as_str()) {
            Some(term) => {
                let mut msg = String::from_str("Agent name contains prohibited term: ");
                msg.append(term);
                return Err(msg);
            },
            None => {},
        }
        let mut items: Vec<JsonValue> = Vec::new();
        let mut k: usize = 0;
        while k < config.intents.len()
            invariant
                0 <= k <= config.intents@.len(),
                items@.len() == k,
                forall|j: int| 0 <= j < k ==> #[trigger] items@[j] == JsonValue::Str(config.intents@[j]),
            decreases config.intents@.len() - k,
        {
            items.push(JsonValue::Str(config.intents[k].clone()));
            k = k + 1;
        }
        let mut members: Vec<(String, JsonValue)> = Vec::new();
        members.push((String::from_str("name"), JsonValue::Str(config.name.clone())));
        members.push((String::from_str("intents"), JsonValue::Array(items)));
        let data = JsonValue::Object(members);
        let decision = self.evaluate("agent_spawn", &data);
        proof {
            let m = members@;
            lemma_literals();
            assert(m[0].0@ != "intents"@);
            assert(member_lookup(m.drop_first(), "intents"@) == Some(m[1].1));
            assert(member_lookup(m, "intents"@) == member_lookup(m.drop_first(), "intents"@));
            assert(json_get(data, "intents"@) == Some(JsonValue::Array(items)));
            assert(data_has_harmful_intent(data) == exists|j: int|
                0 <= j < config.intents@.len() && #[trigger] harmful_text(config.intents@[j]@)) by {
                if data_has_harmful_intent(data) {
                    assert(some_item_harmful(items@));
                    let j = choose|j: int| 0 <= j < items@.len() && #[trigger] harmful_item(items@[j]);
                    assert(harmful_text(config.intents@[j]@));
                }
                if exists|j: int| 0 <= j < config.intents@.len() && #[trigger] harmful_text(config.intents@[j]@) {
                    let j = choose|j: int| 0 <= j < config.intents@.len() && #[trigger] harmful_text(config.intents@[j]@);
                    assert(harmful_item(items@[j]));
                    assert(some_item_harmful(items@));
                }
            }
            assert forall|r: Seq<char>| #[trigger] rule_holds(r, "agent_spawn"@, data) == spawn_rule(r, config.intents@) by {}
            assert((|r: Seq<char>| rule_holds(r, "agent_spawn"@, data)) =~= (|rule: Seq<char>|
                spawn_rule(rule, config.intents@)));
        }
        match decision {
            Decision::Allow => Ok(()),
            Decision::Deny => Err(String::from_str("Ethical constraints prohibit this agent configuration")),
        }
    }

    /// Checks a plugin: the tree decides with the plugin's risk level, which
    /// is high exactly when it has external access.
    pub fn validate_plugin(&self, plugin: &Plugin) -> (r: Result<(), String>)
        ensures
            r is Ok <==> self.decide_with(
                |rule: Seq<char>| plugin_rule(rule, plugin.spec_capabilities().external_access),
            ) == Decision::Allow,
    {
        let caps = plugin.capabilities();
        let level = match caps.risk_level() {
            RiskLevel::High => "high",
            RiskLevel::Medium => "medium",
            RiskLevel::Low => "low",
        };
        let mut members: Vec<(String, JsonValue)> = Vec::new();
        members.push((String::from_str("id"), JsonValue::Str(plugin.id().clone())));
        members.push((String::from_str("risk_level"), JsonValue::Str(level.to_owned())));
        members.push((String::from_str("external_access"), JsonValue::Bool(caps.external_access)));
        members.push((String::from_str("plugin_call"), JsonValue::Bool(caps.plugin_call)));
        let data = JsonValue::Object(members);
        let decision = self.evaluate("plugin_validation", &data);
        proof {
            let m = members@;
            lemma_literals();
            assert(m[0].0@ != "risk_level"@);
            assert(member_lookup(m.drop_first(), "risk_level"@) == Some(m[1].1));
            assert(member_lookup(m, "risk_level"@) == member_lookup(m.drop_first(), "risk_level"@));
            assert(data_risk_is_high(data) == caps.external_access);
            assert forall|r: Seq<char>| #[trigger] rule_holds(r, "plugin_validation"@, data) == plugin_rule(r, plugin.spec_capabilities().external_access) by {}
            assert((|r: Seq<char>| rule_holds(r, "plugin_validation"@, data)) =~= (|rule: Seq<char>|
                plugin_rule(rule, plugin.spec_capabilities().external_access)));
        }
        match decision {
            Decision::Allow => Ok(()),
            Decision::Deny => Err(String::from_str("Plugin capabilities violate ethical constraints")),
        }
    }

    /// Checks an execution: the intent must not name a prohibited action and
    /// the tree must allow it.
    pub fn validate_execution(&self, agent_id: &str, intent: &str) -> (r: Result<(), String>)
        ensures
            r is Ok <==> !intent_prohibited(intent@) && self.decide_with(
                |rule: Seq<char>| default_rule(rule),
            ) == Decision::Allow,
    {
        let intent_lower = lowercase(intent);
        match prohibited_action(intent_lower.as_str()) {
            Some(action) => {
                let mut msg = String::from_str("Intent contains prohibited action: ");
                msg.append(action);
                return Err(msg);
            },
            None => {},
        }
        let mut members: Vec<(String, JsonValue)> = Vec::new();
        members.push((String::from_str("agent_id"), JsonValue::Str(agent_id.to_owned())));
        members.push((String::from_str("intent"), JsonValue::Str(intent.to_owned())));
        let data = JsonValue::Object(members);
        let decision = self.evaluate("execution_validation", &data);
        proof {
            lemma_literals();
            assert forall|r: Seq<char>| #[trigger] rule_holds(r, "execution_validation"@, data) == default_rule(r) by {}
            assert((|r: Seq<char>| rule_holds(r, "execution_validation"@, data)) =~= (|rule: Seq<char>|
                default_rule(rule)));
        }
        match decision {
            Decision::Allow => Ok(()),
            Decision::Deny => Err(String::from_str("Intent violates ethical constraints")),
        }
    }

    /// Checks a recovery; the default policy allows every recovery.
    pub fn validate_recovery(&self, agent_id: &str) -> (r: Result<(), String>)
        ensures
            r is Ok,
    {
        Ok(())
    }

    /// Grafts a node under `parent_id`, in the parent's left (false) slot. A
    /// node already stored under `rule_id` is replaced.
    pub fn add_rule(&mut self, parent_id: &str, rule_id: &str, rule: &str, decision: Option<Decision>) -> (r: Result<(), String>)
        ensures
            r is Ok <==> node_at(old(self).spec_nodes(), parent_id@) is Some,
            final(self).spec_root() == old(self).spec_root(),
            r is Err ==> final(self).spec_nodes() == old(self).spec_nodes(),
            r is Ok ==> (node_at(final(self).spec_nodes(), rule_id@) matches Some(n) && n.id@ == rule_id@
                && n.rule@ == rule@ && opt_view(n.parent) == Some(parent_id@) && n.left is None
                && n.right is None && n.decision == decision),
            r is Ok && rule_id@ != parent_id@ ==> (node_at(final(self).spec_nodes(), parent_id@) matches Some(p)
                && node_at(old(self).spec_nodes(), parent_id@) matches Some(q) && p.rule == q.rule
                && opt_view(p.left) == Some(rule_id@) && p.right == q.right && p.decision == q.decision
                && p.parent == q.parent),
            r is Ok ==> forall|k: Seq<char>| k != rule_id@ && k != parent_id@ ==> node_at(final(self).spec_nodes(), k)
                == node_at(old(self).spec_nodes(), k),
    {
        match self.find(parent_id) {
            None => {
                let mut msg = String::from_str("Parent node not found: ");
                msg.append(parent_id);
                Err(msg)
            },
            Some(i) => {
                let ghost before = self.nodes@;
                let p = &self.nodes[i];
                let grafted = EthicalNode {
                    id: p.id.clone(),
                    rule: p.rule.clone(),
                    parent: clone_opt(&p.parent),
                    left: Some(rule_id.to_owned()),
                    right: clone_opt(&p.right),
                    decision: p.decision,
                };
                let node = EthicalNode {
                    id: rule_id.to_owned(),
                    rule: rule.to_owned(),
                    parent: Some(parent_id.to_owned()),
                    left: None,
                    right: None,
                    decision,
                };
                self.nodes.push(grafted);
                self.nodes.push(node);
                proof {
                    let n = self.nodes@;
                    assert(n =~= before.push(grafted).push(node));
                    lemma_node_at_id(before, parent_id@);
                    assert(grafted.id@ == parent_id@);
                    lemma_node_at_push(before.push(grafted), node, rule_id@);
                    lemma_node_at_push(before.push(grafted), node, parent_id@);
                    lemma_node_at_push(before, grafted, parent_id@);
                    assert forall|k: Seq<char>| k != rule_id@ && k != parent_id@ implies node_at(n, k) == node_at(before, k) by {
                        lemma_node_at_push(before.push(grafted), node, k);
                        lemma_node_at_push(before, grafted, k);
                    }
                }
                Ok(())
            },
        }
    }
}

impl Default for EthicalBinaryTree {
    fn default() -> (r: Self)
        ensures
            r.is_default(),
    {
        EthicalBinaryTree::new()
    }
}

/// The default tree allows exactly when the action is not harmful, or is
/// harmful with consent and legal.
pub proof fn lemma_default_tree_decision(t: EthicalBinaryTree, holds: spec_fn(Seq<char>) -> bool)
    requires
        t.is_default(),
    ensures
        t.decide_with(holds) == default_decision(holds),
{
    let n = t.spec_nodes();
    let f = n.len();
    assert(walk(n, "root"@, holds, f) == if holds("is_harmful"@) {
        walk(n, "harmful"@, holds, (f - 1) as nat)
    } else {
        walk(n, "allow"@, holds, (f - 1) as nat)
    });
    assert(walk(n, "allow"@, holds, (f - 1) as nat) == Decision::Allow);
    assert(walk(n, "harmful"@, holds, (f - 1) as nat) == if holds("has_consent"@) {
        walk(n, "check_legal"@, holds, (f - 2) as nat)
    } else {
        walk(n, "deny"@, holds, (f - 2) as nat)
    });
    assert(walk(n, "deny"@, holds, (f - 2) as nat) == Decision::Deny);
    assert(walk(n, "check_legal"@, holds, (f - 2) as nat) == if holds("is_legal"@) {
        walk(n, "allow_legal"@, holds, (f - 3) as nat)
    } else {
        walk(n, "deny_illegal"@, holds, (f - 3) as nat)
    });
    assert(walk(n, "deny_illegal"@, holds, (f - 3) as nat) == Decision::Deny);
    assert(walk(n, "allow_legal"@, holds, (f - 3) as nat) == Decision::Allow);
}

/// Under the default tree every rule set in use allows: harmful intents
/// have consent and are legal by default, so a spawn is decided by the name
/// check alone, and plugins and executions by theirs.
pub proof fn lemma_default_tree_allows(t: EthicalBinaryTree, intents: Seq<String>, high_risk: bool)
    requires
        t.is_default(),
    ensures
        t.decide_with(|rule: Seq<char>| spawn_rule(rule, intents)) == Decision::Allow,
        t.decide_with(|rule: Seq<char>| plugin_rule(rule, high_risk)) == Decision::Allow,
        t.decide_with(|rule: Seq<char>| default_rule(rule)) == Decision::Allow,
{
    lemma_literals();
    lemma_default_tree_decision(t, |rule: Seq<char>| spawn_rule(rule, intents));
    lemma_default_tree_decision(t, |rule: Seq<char>| plugin_rule(rule, high_risk));
    lemma_default_tree_decision(t, |rule: Seq<char>| default_rule(rule));
}

} // verus!
