//! The bounded retry of generation: after each validation the generator
//! accepts the output, asks again with the errors, or gives up once the
//! attempts are spent.

use vstd::prelude::*;
use crate::advisor::llm::{Exchange, LlmClient, answer_view};
use crate::advisor::prompts::{
    POLICY_SYSTEM, SCHEMA_SYSTEM, policy_prompt, policy_user, retry_prompt, retry_text, schema_prompt, schema_user,
};
use crate::advisor::types::{AgentSpec, DiscoveredTool};
use crate::advisor::validator::{
    CompiledSchema, error_lines, spec_policies_parse, spec_validation_errors, texts_of, spec_policies_validate, spec_schema_compiles, validate_policies,
    validate_schema,
};
use crate::approvals::canonical::{insert_member, members_view};
use crate::approvals::canonical_laws::{
    keys_sorted, lemma_insert_sorted, lemma_value_of, lemma_value_of_index, value_of,
};
use crate::numfmt::{decimal_digits, push_decimal};

verus! {

/// Validations a generated artifact gets before the generator gives up.
pub const MAX_RETRIES: usize = 3;

/// What to do after a validation.
#[derive(Debug)]
pub enum GenStep {
    /// The output validated: keep it.
    Accept,
    /// Ask again with this user message.
    Retry(String),
    /// Give up, with this error message.
    Exhausted(String),
}

/// The final error of a schema whose last validation failed with `e`.
pub open spec fn schema_exhausted(e: Seq<char>) -> Seq<char> {
    "schema validation exhausted after "@ + decimal_digits(MAX_RETRIES as nat) + " attempts: "@ + e
}

/// The final error of the policy file of agent `name`.
pub open spec fn policy_exhausted(name: Seq<char>) -> Seq<char> {
    "policy validation exhausted for agent `"@ + name + "` after "@ + decimal_digits(MAX_RETRIES as nat)
        + " attempts"@
}

/// The decision after validation number `attempt` (from zero) of
/// `last_output`, which failed with `error` (or passed for `None`). The
/// final error is `schema validation exhausted after 3 attempts: <error>`
/// for the schema (`agent` is `None`), and `policy validation exhausted for
/// agent `<name>` after 3 attempts` for an agent's policy file.
pub fn after_validation(attempt: usize, last_output: &str, error: Option<&str>, agent: Option<&str>) -> (res: GenStep)
    requires
        attempt < MAX_RETRIES,
    ensures
        match error {
            None => res is Accept,
            Some(e) => if attempt + 1 < MAX_RETRIES {
                res matches GenStep::Retry(u) && u@ == retry_text(last_output@, e@)
            } else {
                res matches GenStep::Exhausted(m) && m@ == match agent {
                    None => schema_exhausted(e@),
                    Some(a) => policy_exhausted(a@),
                }
            },
        },
{
    match error {
        None => GenStep::Accept,
        Some(e) => {
            if attempt + 1 == MAX_RETRIES {
                let mut m = String::new();
                match agent {
                    None => {
                        m.append("schema validation exhausted after ");
                    },
                    Some(a) => {
                        m.append("policy validation exhausted for agent `");
                        m.append(a);
                        m.append("` after ");
                    },
                }
                push_decimal(&mut m, MAX_RETRIES as u64);
                match agent {
                    None => {
                        m.append(" attempts: ");
                        m.append(e);
                    },
                    Some(_) => {
                        m.append(" attempts");
                    },
                }
                GenStep::Exhausted(m)
            } else {
                GenStep::Retry(retry_prompt(last_output, e))
            }
        },
    }
}

/// How the retries for one artifact show in the exchanges with the model:
/// every exchange carries `system`; the first sends `user` and each later
/// one a follow-up that `retry_user` allows after the previous answer; every
/// answer but the last arrived and failed `valid`; and a last answer that
/// arrived and failed comes only once the attempts are spent.
pub open spec fn retry_run(
    run: Seq<Exchange>,
    system: Seq<char>,
    user: Seq<char>,
    valid: spec_fn(Seq<char>) -> bool,
    retry_user: spec_fn(Seq<char>, Seq<char>) -> bool,
) -> bool {
    &&& 1 <= run.len() <= MAX_RETRIES
    &&& forall|j: int| 0 <= j < run.len() ==> (#[trigger] run[j]).0 == system
    &&& run[0].1 == user
    &&& forall|j: int| 0 <= j < run.len() - 1 ==> ((#[trigger] run[j]).2 matches Ok(t) && !valid(t))
    &&& forall|j: int| 0 < j < run.len() ==> retry_user(run[j - 1].2->Ok_0, (#[trigger] run[j]).1)
    &&& (run.last().2 matches Ok(t) && !valid(t)) ==> run.len() == MAX_RETRIES
}

/// A schema is kept when it compiles.
pub open spec fn schema_valid() -> spec_fn(Seq<char>) -> bool {
    |t: Seq<char>| spec_schema_compiles(t)
}

/// The follow-up after a schema that did not compile.
pub open spec fn schema_retry() -> spec_fn(Seq<char>, Seq<char>) -> bool {
    |t: Seq<char>, u: Seq<char>| u == retry_text(t, "invalid Cedar schema"@)
}

/// What the schema generation returns after `run`: the error of the last
/// call, the last answer when it compiled, or the exhausted error.
pub open spec fn schema_run_result(run: Seq<Exchange>) -> Result<Seq<char>, Seq<char>> {
    match run.last().2 {
        Err(e) => Err(e),
        Ok(t) => if spec_schema_compiles(t) {
            Ok(t)
        } else {
            Err(schema_exhausted("invalid Cedar schema"@))
        },
    }
}

/// `e` is an error that policy validation may give for `text`.
pub open spec fn policy_error(schema: Seq<char>, text: Seq<char>, e: Seq<char>) -> bool {
    &&& !spec_policies_parse(text) ==> e == "failed to parse Cedar policies"@
    &&& spec_policies_parse(text) && !spec_policies_validate(schema, text) ==> exists|errs: Seq<String>|
        errs.len() > 0 && texts_of(errs).to_multiset() == spec_validation_errors(schema, text) && e
            == "policy validation failed:\n"@ + #[trigger] error_lines(errs)
}

/// A policy file is kept when it parses and validates against `schema`.
pub open spec fn policy_valid(schema: Seq<char>) -> spec_fn(Seq<char>) -> bool {
    |t: Seq<char>| spec_policies_parse(t) && spec_policies_validate(schema, t)
}

/// The follow-up after a policy file that failed: the retry message with
/// the validation error.
pub open spec fn policy_retry(schema: Seq<char>) -> spec_fn(Seq<char>, Seq<char>) -> bool {
    |t: Seq<char>, u: Seq<char>| exists|e: Seq<char>| #[trigger] policy_error(schema, t, e) && u == retry_text(t, e)
}

/// What the generation of agent `name`'s policy file returns after `run`.
pub open spec fn policy_run_result(run: Seq<Exchange>, schema: Seq<char>, name: Seq<char>) -> Result<
    Seq<char>,
    Seq<char>,
> {
    match run.last().2 {
        Err(e) => Err(e),
        Ok(t) => if spec_policies_parse(t) && spec_policies_validate(schema, t) {
            Ok(t)
        } else {
            Err(policy_exhausted(name))
        },
    }
}

/// Asks the client for a Cedar schema for `tools` and validates it, asking
/// again with the error after each failure, at most [`MAX_RETRIES`]
/// validations in all. The exchanges it adds to the client's are one
/// bounded retry, and the result is the one that retry calls for.
pub fn generate_schema<C: LlmClient>(client: &mut C, tools: &[DiscoveredTool]) -> (res: Result<(String, CompiledSchema), String>)
    ensures
        ({
            let run = final(client).exchanges().skip(old(client).exchanges().len() as int);
            &&& final(client).exchanges() == old(client).exchanges() + run
            &&& retry_run(run, SCHEMA_SYSTEM@, schema_user(tools@), schema_valid(), schema_retry())
            &&& (match res {
                Ok((t, _)) => Ok(t@),
                Err(m) => Err(m@),
            }) == schema_run_result(run)
        }),
        res matches Ok((text, schema)) ==> schema.source() == text@ && spec_schema_compiles(text@),
{
    let ghost start = client.exchanges();
    let (sys, user) = schema_prompt(tools);
    let r0 = client.complete(sys.as_str(), user.as_str());
    let ghost mut run: Seq<Exchange> = seq![(sys@, user@, answer_view(r0))];
    proof {
        assert(client.exchanges() == start + run);
        assert((start + run).skip(start.len() as int) =~= run);
    }
    let mut last = match r0 {
        Ok(t) => t,
        Err(e) => {
            return Err(e);
        },
    };
    let mut attempt: usize = 0;
    loop
        invariant
            attempt < MAX_RETRIES,
            sys@ == SCHEMA_SYSTEM@,
            user@ == schema_user(tools@),
            start == old(client).exchanges(),
            client.exchanges() == start + run,
            run.len() == attempt + 1,
            forall|j: int| 0 <= j < run.len() ==> (#[trigger] run[j]).0 == sys@,
            run[0].1 == user@,
            forall|j: int| 0 <= j < run.len() - 1 ==> ((#[trigger] run[j]).2 matches Ok(t) && !spec_schema_compiles(t)),
            forall|j: int| 0 < j < run.len() ==> (#[trigger] run[j]).1 == retry_text(
                run[j - 1].2->Ok_0,
                "invalid Cedar schema"@,
            ),
            run.last().2 == Ok::<Seq<char>, Seq<char>>(last@),
        decreases MAX_RETRIES - attempt,
    {
        proof {
            assert((start + run).skip(start.len() as int) =~= run);
        }
        match validate_schema(last.as_str()) {
            Ok(schema) => {
                return Ok((last, schema));
            },
            Err(e) => {
                match after_validation(attempt, last.as_str(), Some(e.as_str()), None) {
                    GenStep::Retry(u) => {
                        let r = client.complete(sys.as_str(), u.as_str());
                        proof {
                            run = run.push((sys@, u@, answer_view(r)));
                            assert((start + run).skip(start.len() as int) =~= run);
                        }
                        last = match r {
                            Ok(t) => t,
                            Err(e) => {
                                return Err(e);
                            },
                        };
                        attempt = attempt + 1;
                    },
                    GenStep::Exhausted(m) => {
                        return Err(m);
                    },
                    GenStep::Accept => {
                        proof {
                            assert(false);
                        }
                    },
                }
            },
        }
    }
}

/// Asks the client for a policy file for `agent` and validates it against
/// `schema`, asking again with the errors after each failure, at most
/// [`MAX_RETRIES`] validations in all. The exchanges it adds are one bounded
/// retry, and the result is the one that retry calls for.
fn generate_policy<C: LlmClient>(
    client: &mut C,
    schema: &CompiledSchema,
    agent: &AgentSpec,
    system_entity_id: &str,
    tools: &[DiscoveredTool],
) -> (res: Result<String, String>)
    ensures
        ({
            let run = final(client).exchanges().skip(old(client).exchanges().len() as int);
            &&& final(client).exchanges() == old(client).exchanges() + run
            &&& retry_run(
                run,
                POLICY_SYSTEM@,
                policy_user(*agent, system_entity_id@, tools@),
                policy_valid(schema.source()),
                policy_retry(schema.source()),
            )
            &&& answer_view(res) == policy_run_result(run, schema.source(), agent.name@)
        }),
{
    let ghost start = client.exchanges();
    let (sys, user) = policy_prompt(agent, system_entity_id, tools);
    let r0 = client.complete(sys.as_str(), user.as_str());
    let ghost mut run: Seq<Exchange> = seq![(sys@, user@, answer_view(r0))];
    proof {
        assert(client.exchanges() == start + run);
        assert((start + run).skip(start.len() as int) =~= run);
    }
    let mut last = match r0 {
        Ok(t) => t,
        Err(e) => {
            return Err(e);
        },
    };
    let mut attempt: usize = 0;
    loop
        invariant
            attempt < MAX_RETRIES,
            sys@ == POLICY_SYSTEM@,
            user@ == policy_user(*agent, system_entity_id@, tools@),
            start == old(client).exchanges(),
            client.exchanges() == start + run,
            run.len() == attempt + 1,
            forall|j: int| 0 <= j < run.len() ==> (#[trigger] run[j]).0 == sys@,
            run[0].1 == user@,
            forall|j: int| 0 <= j < run.len() - 1 ==> ((#[trigger] run[j]).2 matches Ok(t) && !(spec_policies_parse(t)
                && spec_policies_validate(schema.source(), t))),
            forall|j: int| 0 < j < run.len() ==> policy_retry(schema.source())(run[j - 1].2->Ok_0, (#[trigger] run[j]).1),
            run.last().2 == Ok::<Seq<char>, Seq<char>>(last@),
        decreases MAX_RETRIES - attempt,
    {
        proof {
            assert((start + run).skip(start.len() as int) =~= run);
        }
        match validate_policies(schema, last.as_str()) {
            Ok(()) => {
                return Ok(last);
            },
            Err(e) => {
                proof {
                    assert(policy_error(schema.source(), last@, e@));
                }
                match after_validation(attempt, last.as_str(), Some(e.as_str()), Some(agent.name.as_str())) {
                    GenStep::Retry(u) => {
                        let r = client.complete(sys.as_str(), u.as_str());
                        proof {
                            let ghost prev = run;
                            run = run.push((sys@, u@, answer_view(r)));
                            assert((start + run).skip(start.len() as int) =~= run);
                            assert(policy_retry(schema.source())(prev.last().2->Ok_0, u@));
                            assert forall|j: int| 0 < j < run.len() implies policy_retry(schema.source())(
                                run[j - 1].2->Ok_0,
                                (#[trigger] run[j]).1,
                            ) by {
                                if j < run.len() - 1 {
                                    assert(run[j] == prev[j]);
                                    assert(run[j - 1] == prev[j - 1]);
                                }
                            }
                        }
                        last = match r {
                            Ok(t) => t,
                            Err(e) => {
                                return Err(e);
                            },
                        };
                        attempt = attempt + 1;
                    },
                    GenStep::Exhausted(m) => {
                        return Err(m);
                    },
                    GenStep::Accept => {
                        proof {
                            assert(false);
                        }
                    },
                }
            },
        }
    }
}

/// The runs of the policy generation, one per agent from the first: each is
/// a bounded retry with that agent's prompt, every run but the last ended
/// with a file that validated, and a run is missing for an agent only after
/// a run that failed.
pub open spec fn policy_runs(
    runs: Seq<Seq<Exchange>>,
    schema: Seq<char>,
    agents: Seq<AgentSpec>,
    system_entity_id: Seq<char>,
    tools: Seq<DiscoveredTool>,
) -> bool {
    &&& runs.len() <= agents.len()
    &&& forall|a: int| 0 <= a < runs.len() ==> retry_run(
        #[trigger] runs[a],
        POLICY_SYSTEM@,
        policy_user(agents[a], system_entity_id, tools),
        policy_valid(schema),
        policy_retry(schema),
    )
    &&& forall|a: int| 0 <= a < runs.len() - 1 ==> policy_run_result(#[trigger] runs[a], schema, agents[a].name@) is Ok
    &&& runs.len() < agents.len() ==> runs.len() > 0 && policy_run_result(
        runs.last(),
        schema,
        agents[runs.len() - 1].name@,
    ) is Err
}

/// The file kept for name `k` after the first `n` runs: the validated
/// answer of the last of those agents named `k`.
pub open spec fn last_file_for(agents: Seq<AgentSpec>, runs: Seq<Seq<Exchange>>, k: Seq<char>, n: int) -> Option<
    Seq<char>,
>
    decreases n,
{
    if n <= 0 {
        None
    } else if agents[n - 1].name@ == k {
        Some(runs[n - 1].last().2->Ok_0)
    } else {
        last_file_for(agents, runs, k, n - 1)
    }
}

proof fn lemma_last_file_prefix(
    agents: Seq<AgentSpec>,
    runs: Seq<Seq<Exchange>>,
    runs2: Seq<Seq<Exchange>>,
    k: Seq<char>,
    n: int,
)
    requires
        0 <= n <= runs.len(),
        n <= runs2.len(),
        forall|b: int| 0 <= b < n ==> runs[b] == runs2[b],
    ensures
        last_file_for(agents, runs, k, n) == last_file_for(agents, runs2, k, n),
    decreases n,
{
    if n > 0 {
        lemma_last_file_prefix(agents, runs, runs2, k, n - 1);
    }
}

/// One policy file per agent, by agent name in name order (a later agent
/// with a name already seen replaces the earlier one's file). The agents
/// are taken in order, each with its own bounded retry; the first agent
/// whose retry fails ends the generation with that retry's error. On
/// success every file has passed validation against `schema`, the names
/// are exactly those of `agents`, and each name holds the file of the last
/// agent with that name.
pub fn generate_policies<C: LlmClient>(
    client: &mut C,
    schema: &CompiledSchema,
    agents: &[AgentSpec],
    system_entity_id: &str,
    tools: &[DiscoveredTool],
) -> (res: Result<Vec<(String, String)>, String>)
    ensures
        agents@.len() == 0 ==> (res matches Ok(ps) && ps@.len() == 0),
        exists|runs: Seq<Seq<Exchange>>|
            {
                &&& #[trigger] policy_runs(runs, schema.source(), agents@, system_entity_id@, tools@)
                &&& final(client).exchanges() == old(client).exchanges() + runs.flatten()
                &&& match res {
                    Err(m) => runs.len() > 0 && policy_run_result(
                        runs.last(),
                        schema.source(),
                        agents@[runs.len() - 1].name@,
                    ) == Err::<Seq<char>, Seq<char>>(m@),
                    Ok(ps) => runs.len() == agents@.len() && (runs.len() > 0 ==> policy_run_result(
                        runs.last(),
                        schema.source(),
                        agents@[runs.len() - 1].name@,
                    ) is Ok) && forall|k: Seq<char>|
                        #[trigger] value_of(members_view(ps@), k) == last_file_for(agents@, runs, k, runs.len() as int),
                }
            },
        res matches Ok(ps) ==> {
            &&& keys_sorted(members_view(ps@))
            &&& forall|i: int| 0 <= i < ps@.len() ==> spec_policies_parse(#[trigger] ps@[i].1@)
                && spec_policies_validate(schema.source(), ps@[i].1@)
            &&& forall|i: int| 0 <= i < ps@.len() ==> exists|j: int| 0 <= j < agents@.len() && agents@[j].name@
                == (#[trigger] ps@[i]).0@
            &&& forall|j: int| 0 <= j < agents@.len() ==> exists|i: int| 0 <= i < ps@.len() && ps@[i].0@
                == (#[trigger] agents@[j]).name@
        },
{
    let ghost start = client.exchanges();
    let ghost mut runs: Seq<Seq<Exchange>> = Seq::empty();
    proof {
        assert(runs.flatten() =~= Seq::<Exchange>::empty());
        assert(client.exchanges() =~= start + runs.flatten());
    }
    let mut out: Vec<(String, String)> = Vec::new();
    let mut a: usize = 0;
    while a < agents.len()
        invariant
            a <= agents@.len(),
            start == old(client).exchanges(),
            client.exchanges() == start + runs.flatten(),
            runs.len() == a,
            forall|b: int| 0 <= b < a ==> retry_run(
                #[trigger] runs[b],
                POLICY_SYSTEM@,
                policy_user(agents@[b], system_entity_id@, tools@),
                policy_valid(schema.source()),
                policy_retry(schema.source()),
            ),
            forall|b: int| 0 <= b < a ==> policy_run_result(#[trigger] runs[b], schema.source(), agents@[b].name@) is Ok,
            forall|k: Seq<char>| #[trigger] value_of(members_view(out@), k) == last_file_for(agents@, runs, k, a as int),
            keys_sorted(members_view(out@)),
            forall|k: Seq<char>| #[trigger] value_of(members_view(out@), k) matches Some(v) ==> spec_policies_parse(v)
                && spec_policies_validate(schema.source(), v),
            forall|k: Seq<char>| #[trigger] value_of(members_view(out@), k) is Some <==> exists|j: int| 0 <= j < a
                && agents@[j].name@ == k,
        decreases agents@.len() - a,
    {
        let ghost before_ex = client.exchanges();
        let result = generate_policy(client, schema, &agents[a], system_entity_id, tools);
        let ghost r = client.exchanges().skip(before_ex.len() as int);
        let ghost prev = runs;
        proof {
            runs = runs.push(r);
            prev.lemma_flatten_push(r);
            assert(client.exchanges() =~= start + runs.flatten());
            assert forall|b: int| 0 <= b < a implies runs[b] == prev[b] by {}
        }
        let text = match result {
            Ok(t) => t,
            Err(e) => {
                proof {
                    assert(policy_runs(runs, schema.source(), agents@, system_entity_id@, tools@));
                }
                return Err(e);
            },
        };
        let ghost before = members_view(out@);
        let ghost k = agents@[a as int].name@;
        let ghost v = text@;
        proof {
            lemma_insert_sorted(before, k, v);
        }
        insert_member(&mut out, agents[a].name.clone(), text);
        proof {
            assert forall|k2: Seq<char>| #[trigger] value_of(members_view(out@), k2) == last_file_for(
                agents@,
                runs,
                k2,
                a + 1,
            ) by {
                lemma_last_file_prefix(agents@, prev, runs, k2, a as int);
            }
            assert forall|k2: Seq<char>| #[trigger] value_of(members_view(out@), k2) is Some <==> exists|j: int|
                0 <= j < a + 1 && agents@[j].name@ == k2 by {
                if k2 != k {
                    if exists|j: int| 0 <= j < a + 1 && agents@[j].name@ == k2 {
                        let j = choose|j: int| 0 <= j < a + 1 && agents@[j].name@ == k2;
                        assert(j < a);
                    }
                }
            }
        }
        a = a + 1;
    }
    proof {
        let mv = members_view(out@);
        assert(policy_runs(runs, schema.source(), agents@, system_entity_id@, tools@));
        assert forall|i: int| 0 <= i < out@.len() implies spec_policies_parse(#[trigger] out@[i].1@)
            && spec_policies_validate(schema.source(), out@[i].1@) by {
            lemma_value_of_index(mv, i);
            assert(mv[i] == (out@[i].0@, out@[i].1@));
        }
        assert forall|i: int| 0 <= i < out@.len() implies exists|j: int| 0 <= j < agents@.len() && agents@[j].name@
            == (#[trigger] out@[i]).0@ by {
            lemma_value_of_index(mv, i);
            assert(mv[i] == (out@[i].0@, out@[i].1@));
            assert(value_of(mv, mv[i].0) is Some);
        }
        assert forall|j: int| 0 <= j < agents@.len() implies exists|i: int| 0 <= i < out@.len() && out@[i].0@
            == (#[trigger] agents@[j]).name@ by {
            let k = agents@[j].name@;
            assert(value_of(mv, k) is Some);
            lemma_value_of(mv, k);
            let i = choose|i: int| 0 <= i < mv.len() && mv[i].0 == k && mv[i].1 == value_of(mv, k)->Some_0;
            assert(mv[i] == (out@[i].0@, out@[i].1@));
        }
    }
    Ok(out)
}

} // verus!
