//! The rules engine: picks a role for a request from its text, by the
//! first routing rule whose pattern matches.
use vstd::prelude::*;
use crate::config::{Config, RoutingRule};
use crate::patterns::{regex_compiles, regex_matches, regex_is_valid, regex_is_match};

verus! {

/// The rules that take part in role selection, in order: those whose
/// pattern compiles, as (pattern, role) pairs.
pub open spec fn compiled_rules_of(rules: Seq<RoutingRule>) -> Seq<(Seq<char>, Seq<char>)>
    decreases rules.len(),
{
    if rules.len() == 0 {
        Seq::empty()
    } else {
        let prefix = compiled_rules_of(rules.drop_last());
        let r = rules.last();
        if regex_compiles(r.pattern@) {
            prefix.push((r.pattern@, r.role@))
        } else {
            prefix
        }
    }
}

/// The role of the first rule whose pattern matches `content`, or the
/// default role when none does.
pub open spec fn selected_role(
    rules: Seq<(Seq<char>, Seq<char>)>,
    default_role: Seq<char>,
    content: Seq<char>,
) -> Seq<char>
    decreases rules.len(),
{
    if rules.len() == 0 {
        default_role
    } else if regex_compiles(rules[0].0) && regex_matches(rules[0].0, content) {
        rules[0].1
    } else {
        selected_role(rules.drop_first(), default_role, content)
    }
}

/// Rules engine for determining which role to use
#[derive(Clone)]
pub struct RulesEngine {
    config: Config,
    compiled_rules: Vec<(String, String)>,
}

impl RulesEngine {
    /// The configuration the engine was built from.
    pub closed spec fn config(&self) -> Config {
        self.config
    }

    /// The rules in force, as (pattern, role) pairs.
    pub closed spec fn rules(&self) -> Seq<(Seq<char>, Seq<char>)> {
        self.compiled_rules@.map_values(|r: (String, String)| (r.0@, r.1@))
    }

    /// Create a new rules engine: the configured rules whose pattern
    /// compiles, in order.
    pub fn new(config: Config) -> (r: Self)
        ensures
            r.config() == config,
            r.rules() == compiled_rules_of(config.routing.rules@),
    {
        let mut compiled_rules: Vec<(String, String)> = Vec::new();
        let ghost rules = config.routing.rules@;
        let mut i: usize = 0;
        while i < config.routing.rules.len()
            invariant
                i <= config.routing.rules.len(),
                rules == config.routing.rules@,
                compiled_rules@.map_values(|r: (String, String)| (r.0@, r.1@)) == compiled_rules_of(
                    rules.take(i as int),
                ),
            decreases config.routing.rules.len() - i,
        {
            let rule = &config.routing.rules[i];
            assert(rules.take(i + 1).drop_last() == rules.take(i as int));
            assert(rules.take(i + 1).last() == *rule);
            if regex_is_valid(rule.pattern.as_str()) {
                let ghost before = compiled_rules@.map_values(|r: (String, String)| (r.0@, r.1@));
                compiled_rules.push((rule.pattern.clone(), rule.role.clone()));
                assert(compiled_rules@.map_values(|r: (String, String)| (r.0@, r.1@)) =~= before.push(
                    (rule.pattern@, rule.role@),
                ));
            }
            i = i + 1;
        }
        assert(rules.take(config.routing.rules.len() as int) == rules);
        Self { config, compiled_rules }
    }

    /// Select a role based on message content
    pub fn select_role(&self, content: &str) -> (r: String)
        ensures
            r@ == selected_role(self.rules(), self.config().default_role@, content@),
    {
        let ghost rs = self.rules();
        let mut i: usize = 0;
        assert(rs.skip(0) == rs);
        while i < self.compiled_rules.len()
            invariant
                i <= self.compiled_rules.len(),
                rs == self.rules(),
                rs.len() == self.compiled_rules.len(),
                selected_role(rs, self.config().default_role@, content@) == selected_role(
                    rs.skip(i as int),
                    self.config().default_role@,
                    content@,
                ),
            decreases self.compiled_rules.len() - i,
        {
            let (pattern, role) = &self.compiled_rules[i];
            assert(rs.skip(i as int)[0] == (pattern@, role@));
            if regex_is_match(pattern.as_str(), content) {
                return role.clone();
            }
            assert(rs.skip(i as int).drop_first() == rs.skip(i + 1));
            i = i + 1;
        }
        self.config.get_default_role()
    }

    /// Get all available roles
    pub fn get_roles(&self) -> (r: Vec<String>)
        ensures
            r.deep_view() == self.config().roles.spec_keys(),
    {
        self.config.roles.keys()
    }

    /// The configuration the engine was built from.
    pub fn get_config(&self) -> (r: &Config)
        ensures
            *r == self.config(),
    {
        &self.config
    }
}

/// The selected role is the role of some rule, or the default role.
pub proof fn lemma_selected_role_is_known(
    rules: Seq<(Seq<char>, Seq<char>)>,
    default_role: Seq<char>,
    content: Seq<char>,
)
    ensures
        selected_role(rules, default_role, content) == default_role || exists|i: int|
            0 <= i < rules.len() && rules[i].1 == selected_role(rules, default_role, content),
    decreases rules.len(),
{
    if rules.len() > 0 && !(regex_compiles(rules[0].0) && regex_matches(rules[0].0, content)) {
        lemma_selected_role_is_known(rules.drop_first(), default_role, content);
        if selected_role(rules, default_role, content) != default_role {
            let i = choose|i: int| 0 <= i < rules.drop_first().len() && rules.drop_first()[i].1
                == selected_role(rules.drop_first(), default_role, content);
            assert(rules[i + 1] == rules.drop_first()[i]);
        }
    }
}

} // verus!
