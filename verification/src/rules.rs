//! The rule registry: what each rule code means.

use crate::snapshot::{CodeCount, CodeCountView};
use vstd::prelude::*;

verus! {

/// One rule: its code and the description shown for it.
#[derive(Debug, PartialEq, Eq)]
pub struct Rule {
    pub code: String,
    pub description: String,
}

/// The mapping that a run of registrations makes up; a later registration
/// of a code replaces an earlier one.
pub open spec fn rules_map(rules: Seq<Rule>) -> Map<Seq<char>, Seq<char>>
    decreases rules.len(),
{
    if rules.len() == 0 {
        Map::empty()
    } else {
        rules_map(rules.drop_last()).insert(rules.last().code@, rules.last().description@)
    }
}

/// Every code that is tallied has a description.
pub open spec fn covers(rules: Map<Seq<char>, Seq<char>>, counts: Seq<CodeCountView>) -> bool {
    forall|i: int| 0 <= i < counts.len() ==> rules.dom().contains(#[trigger] counts[i].code)
}

/// A read-only lookup from rule code to rule description.
#[derive(Debug, PartialEq, Eq)]
pub struct RuleRegistry {
    rules: Vec<Rule>,
}

impl View for RuleRegistry {
    type V = Map<Seq<char>, Seq<char>>;

    closed spec fn view(&self) -> Map<Seq<char>, Seq<char>> {
        rules_map(self.rules@)
    }
}

proof fn lemma_unregistered(rules: Seq<Rule>, code: Seq<char>)
    requires
        forall|k: int| 0 <= k < rules.len() ==> rules[k].code@ != code,
    ensures
        !rules_map(rules).dom().contains(code),
    decreases rules.len(),
{
    if rules.len() > 0 {
        lemma_unregistered(rules.drop_last(), code);
    }
}

proof fn lemma_registered(rules: Seq<Rule>, at: int, code: Seq<char>)
    requires
        0 <= at < rules.len(),
        rules[at].code@ == code,
        forall|k: int| at < k < rules.len() ==> rules[k].code@ != code,
    ensures
        rules_map(rules).dom().contains(code),
        rules_map(rules)[code] == rules[at].description@,
    decreases rules.len(),
{
    if at < rules.len() - 1 {
        lemma_registered(rules.drop_last(), at, code);
    }
}

impl RuleRegistry {
    /// A registry without rules.
    pub fn new() -> (registry: RuleRegistry)
        ensures
            registry@ == Map::<Seq<char>, Seq<char>>::empty(),
    {
        RuleRegistry { rules: Vec::new() }
    }

    /// Registers a rule; an earlier description of the same code is
    /// replaced.
    pub fn register(&mut self, code: String, description: String)
        ensures
            final(self)@ == old(self)@.insert(code@, description@),
    {
        self.rules.push(Rule { code, description });
        assert(self.rules@.drop_last() =~= old(self).rules@);
    }

    /// The description of a rule, if the code is registered.
    pub fn describe(&self, code: &str) -> (description: Option<&str>)
        ensures
            description is Some <==> self@.dom().contains(code@),
            description matches Some(text) ==> text@ == self@[code@],
    {
        let wanted = code.to_owned();
        let mut i: usize = self.rules.len();
        while i > 0
            invariant
                i <= self.rules.len(),
                wanted@ == code@,
                forall|k: int| i <= k < self.rules.len() ==> self.rules[k].code@ != code@,
            decreases i,
        {
            i = i - 1;
            if self.rules[i].code == wanted {
                proof {
                    lemma_registered(self.rules@, i as int, code@);
                }
                return Some(self.rules[i].description.as_str());
            }
        }
        proof {
            lemma_unregistered(self.rules@, code@);
        }
        None
    }

    /// Whether every tallied code has a description.
    pub fn describes_all(&self, counts: &Vec<CodeCount>) -> (all: bool)
        ensures
            all == covers(self@, crate::snapshot::code_count_views(counts@)),
    {
        let mut i: usize = 0;
        while i < counts.len()
            invariant
                i <= counts.len(),
                forall|k: int| 0 <= k < i ==> self@.dom().contains(counts[k].code@),
            decreases counts.len() - i,
        {
            if self.describe(counts[i].code.as_str()).is_none() {
                assert(crate::snapshot::code_count_views(counts@)[i as int].code
                    == counts[i as int].code@);
                return false;
            }
            i = i + 1;
        }
        true
    }
}

} // verus!
