//! Declarative proxy policies and their evaluation.
//!
//! A policy is a named record carrying an authentication method, a secret
//! source, and an ordered list of rules.  Each rule is a Rego program with
//! two well-known output keys: a boolean decision at `data.proxy.allowed`
//! and an optional message at `data.proxy.message`.  Rules are evaluated in
//! list order by a fresh engine instance per evaluation.

use vstd::prelude::*;

verus! {

use vstd::string::*;

/// How credentials are applied to an admitted request.
#[derive(Clone, Copy, PartialEq, Eq, Structural, Debug)]
pub enum ProxyPolicyMethod {
    BasicAuth,
    BearerToken,
    CustomHeader,
    Query,
}

impl Default for ProxyPolicyMethod {
    fn default() -> (r: Self)
        ensures
            r == ProxyPolicyMethod::BasicAuth,
    {
        ProxyPolicyMethod::BasicAuth
    }
}

/// Reference to a cluster-managed secret object.
#[derive(Clone)]
pub struct SecretReference {
    pub namespace: Option<String>,
    pub name: Option<String>,
}

/// Where the credential material comes from: a cluster secret object or
/// inline data.  Exactly one side is expected to be set.
#[derive(Clone)]
pub struct ProxyPolicySecret {
    pub reference: Option<SecretReference>,
    pub raw: Option<Vec<(String, String)>>,
}

/// Authentication method plus its secret source.
#[derive(Clone)]
pub struct ProxyPolicyAuth {
    pub method: ProxyPolicyMethod,
    pub secret: ProxyPolicySecret,
}

/// The text of one Rego rule program.
#[derive(Clone)]
pub struct OpaValidator(pub String);

/// One named rule of a policy.
#[derive(Clone)]
pub struct ProxyPolicyRule {
    pub name: String,
    pub validate: OpaValidator,
}

/// The declarative part of a policy.
#[derive(Clone)]
pub struct ProxyPolicySpec {
    pub auth: ProxyPolicyAuth,
    pub rules: Vec<ProxyPolicyRule>,
}

/// A named policy as listed from the policy store.
#[derive(Clone)]
pub struct ProxyPolicy {
    pub name: String,
    pub spec: ProxyPolicySpec,
}

/// Outcome of evaluating one well-known key of a rule program against an
/// input document.  `Ok(Some(b))` is a boolean result, `Ok(None)` an
/// undefined or non-boolean one, `Err` an engine failure with its message.
pub uninterp spec fn rego_eval_key(
    program: Seq<char>,
    path: Seq<char>,
    key: Seq<char>,
    input: Seq<char>,
) -> Result<Option<bool>, Seq<char>>;

/// A `Result` of strings at the view level.
pub open spec fn res_view(r: Result<bool, String>) -> Result<bool, Seq<char>> {
    match r {
        Ok(b) => Ok(b),
        Err(e) => Err(e@),
    }
}

/// Relies on regorus::Engine (`add_policy`, `set_input_json`, `eval_query`):
/// a fresh engine loads `program` as the module named `path`, takes `input`
/// as the input document, and evaluates `key` as a query.  The engine is
/// built without its clock, randomness, environment and network builtins,
/// so the outcome is a function of those three texts alone: `Ok(Some(b))`
/// when the query yields one boolean `b`, `Ok(None)` when it is undefined
/// or yields anything else, `Err` with the engine's message when loading or
/// evaluation fails.
#[verifier::external_body]
fn rego_eval(program: &String, path: &String, key: &String, input: &String) -> (r: Result<
    Option<bool>,
    String,
>)
    ensures
        match (r, rego_eval_key(program@, path@, key@, input@)) {
            (Ok(a), Ok(b)) => a == b,
            (Err(e), Err(s)) => e@ == s,
            _ => false,
        },
{
    let mut engine = regorus::Engine::new();
    if let Err(e) = engine.add_policy(path.clone(), program.clone()) { return Err(e.to_string()); }
    if let Err(e) = engine.set_input_json(input.as_str()) { return Err(e.to_string()); }
    let out = match engine.eval_query(key.clone(), false) { Ok(r) => r, Err(e) => return Err(e.to_string()) };
    match out.result.as_slice() {
        [row] => match row.expressions.as_slice() {
            [expr] => match expr.value { regorus::Value::Bool(b) => Ok(Some(b)), _ => Ok(None) },
            _ => Ok(None),
        },
        _ => Ok(None),
    }
}

/// Outcome of one rule: the decision key read as a boolean, where an
/// undefined or non-boolean decision denies; an engine error on either
/// well-known key aborts with its message.
pub open spec fn spec_rule_eval(program: Seq<char>, input: Seq<char>) -> Result<bool, Seq<char>> {
    match rego_eval_key(program, "policy.rego"@, "data.proxy.allowed"@, input) {
        Err(e) => Err(e),
        Ok(d) => match rego_eval_key(program, "policy.rego"@, "data.proxy.message"@, input) {
            Err(e) => Err(e),
            Ok(_) => Ok(d == Some(true)),
        },
    }
}

impl ProxyPolicyRule {
    /// Evaluate this rule's program against the input document.
    pub fn eval(&self, input: &String) -> (r: Result<bool, String>)
        ensures
            res_view(r) == spec_rule_eval(self.validate.0@, input@),
    {
        let path = String::from_str("policy.rego");
        let result_key = String::from_str("data.proxy.allowed");
        let message_key = String::from_str("data.proxy.message");
        let decision = match rego_eval(&self.validate.0, &path, &result_key, input) {
            Ok(d) => d,
            Err(e) => {
                return Err(e);
            }
        };
        match rego_eval(&self.validate.0, &path, &message_key, input) {
            Ok(_) => (),
            Err(e) => {
                return Err(e);
            }
        }
        match decision {
            Some(b) => Ok(b),
            None => Ok(false),
        }
    }
}

/// Outcome of a whole policy: rules in list order, first deny or error wins,
/// a policy without rules admits.
pub open spec fn spec_eval_policy(rules: Seq<ProxyPolicyRule>, input: Seq<char>) -> Result<
    bool,
    Seq<char>,
>
    decreases rules.len(),
{
    if rules.len() == 0 {
        Ok(true)
    } else {
        match spec_rule_eval(rules[0].validate.0@, input) {
            Err(e) => Err(e),
            Ok(b) => if !b {
                Ok(false)
            } else {
                spec_eval_policy(rules.drop_first(), input)
            },
        }
    }
}

proof fn lemma_eval_policy_skip(rules: Seq<ProxyPolicyRule>, input: Seq<char>, i: int)
    requires
        0 <= i <= rules.len(),
        forall|j: int|
            0 <= j < i ==> spec_rule_eval(rules[j].validate.0@, input) == Ok::<bool, Seq<char>>(
                true,
            ),
    ensures
        spec_eval_policy(rules, input) == spec_eval_policy(rules.skip(i), input),
    decreases i,
{
    if i == 0 {
        assert(rules.skip(0) =~= rules);
    } else {
        let rest = rules.drop_first();
        assert(rules.skip(i) =~= rest.skip(i - 1));
        assert(spec_rule_eval(rules[0].validate.0@, input) == Ok::<bool, Seq<char>>(true));
        assert(spec_eval_policy(rules, input) == spec_eval_policy(rest, input));
        assert forall|j: int| 0 <= j < i - 1 implies spec_rule_eval(rest[j].validate.0@, input)
            == Ok::<bool, Seq<char>>(true) by {
            assert(rest[j] == rules[j + 1]);
            assert(spec_rule_eval(rules[j + 1].validate.0@, input) == Ok::<bool, Seq<char>>(true));
        }
        lemma_eval_policy_skip(rest, input, i - 1);
    }
}

/// Evaluate every rule of `policy` in list order against `input`; the first
/// denying or failing rule decides.
pub fn eval_policy(policy: &ProxyPolicy, input: &String) -> (r: Result<bool, String>)
    ensures
        res_view(r) == spec_eval_policy(policy.spec.rules@, input@),
{
    let ghost rules = policy.spec.rules@;
    let mut i: usize = 0;
    while i < policy.spec.rules.len()
        invariant
            rules == policy.spec.rules@,
            i <= rules.len(),
            forall|j: int|
                0 <= j < i ==> spec_rule_eval(rules[j].validate.0@, input@) == Ok::<
                    bool,
                    Seq<char>,
                >(true),
        decreases rules.len() - i,
    {
        let outcome = policy.spec.rules[i].eval(input);
        proof {
            lemma_eval_policy_skip(rules, input@, i as int);
            assert(rules.skip(i as int)[0] == rules[i as int]);
            assert(rules.skip(i as int).drop_first() =~= rules.skip(i + 1));
        }
        match outcome {
            Ok(b) => {
                if !b {
                    return Ok(false);
                }
            }
            Err(e) => {
                return Err(e);
            }
        }
        i += 1;
    }
    proof {
        lemma_eval_policy_skip(rules, input@, rules.len() as int);
        assert(rules.skip(rules.len() as int) =~= Seq::<ProxyPolicyRule>::empty());
    }
    Ok(true)
}

} // verus!
