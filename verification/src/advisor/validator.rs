//! Checks generated Cedar artifacts with the Cedar policy engine: a schema
//! must compile, and a policy file must parse and pass strict validation
//! against the schema.

use vstd::prelude::*;
use vstd::multiset::Multiset;
use crate::text::joined;
use cedar_policy::{PolicySet, Schema};

verus! {

/// The compiled form of a Cedar schema.
#[verifier::external_type_specification]
#[verifier::external_body]
pub struct ExCedarSchema(cedar_policy::Schema);

/// A parsed set of Cedar policies.
#[verifier::external_type_specification]
#[verifier::external_body]
pub struct ExCedarPolicySet(cedar_policy::PolicySet);

/// Whether `src`, in the Cedar schema syntax, compiles to a schema.
pub uninterp spec fn spec_schema_compiles(src: Seq<char>) -> bool;

/// Whether `src` parses as a set of Cedar policies.
pub uninterp spec fn spec_policies_parse(src: Seq<char>) -> bool;

/// Whether the policies parsed from `policies` pass strict validation
/// against the schema compiled from `schema`.
pub uninterp spec fn spec_policies_validate(schema: Seq<char>, policies: Seq<char>) -> bool;

/// The texts of the errors that strict validation of the policies parsed
/// from `policies` against the schema compiled from `schema` reports, as a
/// multiset: which errors come out depends on the two texts alone, the
/// order they come out in does not (the type checker gathers them in a
/// `HashSet`).
pub uninterp spec fn spec_validation_errors(schema: Seq<char>, policies: Seq<char>) -> Multiset<Seq<char>>;

/// The texts of `errs`.
pub open spec fn texts_of(errs: Seq<String>) -> Seq<Seq<char>> {
    Seq::new(errs.len(), |i: int| errs[i]@)
}

/// A compiled schema and the text it was compiled from.
pub struct CompiledSchema {
    source: String,
    schema: Schema,
}

impl CompiledSchema {
    /// The text the schema was compiled from.
    pub closed spec fn source(&self) -> Seq<char> {
        self.source@
    }
}

/// A parsed policy set and the text it was parsed from.
struct ParsedPolicies {
    source: String,
    set: PolicySet,
}

/// Calls `cedar_policy::Schema::from_cedarschema_str`, keeping the schema
/// and dropping the warnings. Claims only that it succeeds exactly on the
/// texts that compile, which depends on the text alone.
#[verifier::external_body]
fn compile_schema(src: &str) -> (res: Option<Schema>)
    ensures
        res is Some <==> spec_schema_compiles(src@),
{
    Schema::from_cedarschema_str(src).ok().map(|(schema, _warnings)| schema)
}

/// Calls `PolicySet::from_str` (`str::parse`). Claims only that it succeeds
/// exactly on the texts that parse.
#[verifier::external_body]
fn parse_policy_set(src: &str) -> (res: Option<PolicySet>)
    ensures
        res is Some <==> spec_policies_parse(src@),
{
    src.parse::<PolicySet>().ok()
}

/// Builds a `cedar_policy::Validator` over the schema, runs
/// `Validator::validate` in `ValidationMode::Strict` and renders each of
/// `ValidationResult::validation_errors` with `Display`. Claims that no
/// error comes out exactly when validation passes, and that the texts that
/// come out are, as a multiset, the named errors of the two texts. Their
/// order is left unsaid: the type checker's errors come out of a `HashSet`,
/// whose order differs from process to process.
#[verifier::external_body]
fn strict_validation_errors(schema: &CompiledSchema, policies: &ParsedPolicies) -> (res: Vec<String>)
    ensures
        res@.len() == 0 <==> spec_policies_validate(schema.source(), policies.source@),
        texts_of(res@).to_multiset() == spec_validation_errors(schema.source(), policies.source@),
{
    let validator = cedar_policy::Validator::new(schema.schema.clone());
    validator
        .validate(&policies.set, cedar_policy::ValidationMode::Strict)
        .validation_errors()
        .map(|e| e.to_string())
        .collect()
}

/// Compiles a Cedar schema; the error says only that the schema is invalid.
pub fn validate_schema(src: &str) -> (res: Result<CompiledSchema, String>)
    ensures
        match res {
            Ok(c) => c.source() == src@ && spec_schema_compiles(src@),
            Err(e) => !spec_schema_compiles(src@) && e@ == "invalid Cedar schema"@,
        },
{
    match compile_schema(src) {
        Some(schema) => Ok(CompiledSchema { source: src.to_owned(), schema }),
        None => Err("invalid Cedar schema".to_owned()),
    }
}

/// Texts of validation errors, one per line.
pub open spec fn error_lines(errs: Seq<String>) -> Seq<char> {
    joined(Seq::new(errs.len(), |i: int| errs[i]@), "\n"@)
}

/// Parses a policy file and validates it strictly against `schema`. A file
/// that does not parse is refused with `failed to parse Cedar policies`;
/// one that fails validation with `policy validation failed:` and the
/// validator's errors, one per line, in the order the validator gave them.
pub fn validate_policies(schema: &CompiledSchema, policies_src: &str) -> (res: Result<(), String>)
    ensures
        res is Ok <==> (spec_policies_parse(policies_src@) && spec_policies_validate(schema.source(), policies_src@)),
        !spec_policies_parse(policies_src@) ==> (res matches Err(e) && e@ == "failed to parse Cedar policies"@),
        spec_policies_parse(policies_src@) && !spec_policies_validate(schema.source(), policies_src@) ==> (
        res matches Err(e) && exists|errs: Seq<String>|
            errs.len() > 0 && texts_of(errs).to_multiset() == spec_validation_errors(schema.source(), policies_src@)
                && e@ == "policy validation failed:\n"@ + #[trigger] error_lines(errs)),
{
    let set = match parse_policy_set(policies_src) {
        Some(s) => s,
        None => {
            return Err("failed to parse Cedar policies".to_owned());
        },
    };
    let parsed = ParsedPolicies { source: policies_src.to_owned(), set };
    let errors = strict_validation_errors(schema, &parsed);
    if errors.len() == 0 {
        return Ok(());
    }
    let mut msg = "policy validation failed:\n".to_owned();
    let ghost head = msg@;
    let ghost texts = Seq::new(errors@.len(), |i: int| errors@[i]@);
    let mut i: usize = 0;
    while i < errors.len()
        invariant
            0 < errors@.len(),
            i <= errors@.len(),
            texts == Seq::new(errors@.len(), |k: int| errors@[k]@),
            i == 0 ==> msg@ == head,
            i > 0 ==> msg@ == head + joined(texts.take(i as int), "\n"@),
        decreases errors@.len() - i,
    {
        if i > 0 {
            msg.append("\n");
        }
        msg.append(errors[i].as_str());
        proof {
            let t = texts.take(i as int + 1);
            assert(t.drop_last() =~= texts.take(i as int));
            assert(t.last() == errors@[i as int]@);
            if i == 0 {
                assert(t.len() == 1);
                assert(joined(t, "\n"@) == t[0]);
            }
        }
        i = i + 1;
    }
    proof {
        assert(texts.take(errors@.len() as int) =~= texts);
        assert(error_lines(errors@) == joined(texts, "\n"@));
    }
    Err(msg)
}

} // verus!
