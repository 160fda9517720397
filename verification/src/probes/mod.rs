//! The probes: one module per rule, each with what the runner needs to know
//! of it and the rule's decisions on nodes.

pub mod crypto;
pub mod data_exfiltration;
pub mod is_array_expression;
pub mod is_binary_expression;
pub mod is_esm_export;
pub mod is_fetch;
pub mod is_import_declaration;
pub mod is_literal;
pub mod is_literal_regex;
pub mod is_monkey_patch;
pub mod is_prototype_pollution;
pub mod is_random;
pub mod is_regex_object;
pub mod is_require;
pub mod is_serialize_env;
pub mod is_sync_io;
pub mod is_unsafe_callee;
pub mod is_unsafe_command;
pub mod log_usage;
pub mod sql_injection;
pub mod unsafe_vm_context;

use vstd::prelude::*;

use crate::probe::{view_infos, ProbeInfo, ProbeView};
use crate::text::{lemma_view_strings_push, str_eq, to_string, view_strings};

verus! {

/// Owned copies of string slices.
pub fn strings(items: &[&str]) -> (r: Vec<String>)
    ensures
        view_strings(r@) == items@.map_values(|s: &str| s@),
{
    let mut out: Vec<String> = Vec::new();
    let mut i: usize = 0;
    while i < items.len()
        invariant
            0 <= i <= items@.len(),
            view_strings(out@) == items@.take(i as int).map_values(|s: &str| s@),
        decreases items.len() - i,
    {
        let s = to_string(items[i]);
        proof { lemma_view_strings_push(out@, s); }
        out.push(s);
        assert(items@.take(i + 1).map_values(|s: &str| s@) =~= items@.take(i as int).map_values(
            |s: &str| s@,
        ).push(items@[i as int]@));
        i = i + 1;
    }
    assert(items@.take(items@.len() as int) =~= items@);
    out
}

} // verus!

verus! {

/// What the runner knows of each default probe, in the order they run.
pub open spec fn default_infos() -> Seq<ProbeView> {
    seq![
        ("isFetch"@, Some(seq!["CallExpression"@]), false, None),
        ("isRequire"@, Some(seq!["CallExpression"@]), true, Some("import"@)),
        ("isESMExport"@, Some(seq!["ExportNamedDeclaration"@, "ExportAllDeclaration"@]), true, None),
        ("isUnsafeCallee"@, Some(seq!["CallExpression"@]), false, None),
        ("is-literal"@, Some(seq!["Literal"@]), false, None),
        ("is-literal-regex"@, Some(seq!["Literal"@]), false, None),
        ("is-regex-object"@, Some(seq!["NewExpression"@]), false, None),
        ("isImportDeclaration"@, Some(seq!["ImportDeclaration"@, "ImportExpression"@]), true, Some("import"@)),
        ("isWeakCrypto"@, Some(seq!["CallExpression"@]), false, None),
        ("unsafe-vm-context"@, Some(seq!["CallExpression"@]), false, None),
        ("isBinaryExpression"@, Some(seq!["BinaryExpression"@]), false, None),
        ("isArrayExpression"@, Some(seq!["ArrayExpression"@]), false, None),
        ("isUnsafeCommand"@, Some(seq!["CallExpression"@]), false, None),
        ("isSerializeEnv"@, Some(seq!["CallExpression"@, "MemberExpression"@]), false, None),
        ("dataExfiltration"@, Some(seq!["CallExpression"@, "Literal"@]), false, None),
        ("sql-injection"@, Some(seq!["CallExpression"@]), false, None),
        ("isMonkeyPatch"@, Some(seq!["AssignmentExpression"@, "CallExpression"@]), false, None),
        ("isPrototypePollution"@, Some(seq!["Literal"@, "MemberExpression"@]), false, None),
    ]
}

/// What the runner knows of the probe of an optional warning.
pub open spec fn optional_info(name: Seq<char>) -> Option<ProbeView> {
    if name == "synchronous-io"@ {
        Some(("isSyncIO"@, Some(seq!["CallExpression"@]), false, None))
    }
    else if name == "log-usage"@ {
        Some(("log-usage"@, None, false, None))
    }
    else if name == "insecure-random"@ {
        Some(("isRandom"@, Some(seq!["CallExpression"@]), false, None))
    }
    else if name == "crypto.weak-scrypt"@ {
        Some(("isWeakScrypt"@, Some(seq!["CallExpression"@]), false, None))
    }
    else if name == "crypto.unsafe-prehash"@ {
        Some(("isUnsafePrehash"@, Some(seq!["CallExpression"@, "FunctionDeclaration"@, "FunctionExpression"@, "ArrowFunctionExpression"@]), false, None))
    }
    else if name == "crypto.weak-bcrypt"@ {
        Some(("isWeakBcrypt"@, Some(seq!["CallExpression"@]), false, None))
    }
    else if name == "crypto.password-shucking"@ {
        Some(("isPasswordShucking"@, Some(seq!["CallExpression"@, "FunctionDeclaration"@, "FunctionExpression"@, "ArrowFunctionExpression"@]), false, None))
    }
 else {
        None
    }
}

/// The default probes, in the order they run: the order decides which
/// probe of a break group answers first.
pub fn default_probes() -> (r: Vec<ProbeInfo>)
    ensures
        view_infos(r@) == default_infos(),
{
    let mut r: Vec<ProbeInfo> = Vec::new();
    r.push(is_fetch::IsFetch.info());
    r.push(is_require::IsRequire.info());
    r.push(is_esm_export::IsEsmExport.info());
    r.push(is_unsafe_callee::IsUnsafeCallee.info());
    r.push(is_literal::IsLiteral.info());
    r.push(is_literal_regex::IsLiteralRegex.info());
    r.push(is_regex_object::IsRegexObject.info());
    r.push(is_import_declaration::IsImportDeclaration.info());
    r.push(crypto::is_weak_algorithm::IsWeakAlgorithm.info());
    r.push(unsafe_vm_context::UnsafeVmContext::new().info());
    r.push(is_binary_expression::IsBinaryExpression.info());
    r.push(is_array_expression::IsArrayExpression.info());
    r.push(is_unsafe_command::IsUnsafeCommand.info());
    r.push(is_serialize_env::IsSerializeEnv::new().info());
    r.push(data_exfiltration::DataExfiltration::new().info());
    r.push(sql_injection::SqlInjection.info());
    r.push(is_monkey_patch::IsMonkeyPatch.info());
    r.push(is_prototype_pollution::IsPrototypePollution.info());
    proof {
        assert(view_infos(r@) =~= default_infos());
    }
    r
}

/// The probe of an optional warning, by the warning's name.
pub fn optional_probe(name: &str) -> (r: Option<ProbeInfo>)
    ensures
        match r {
            Some(info) => Some(info@),
            None => None::<ProbeView>,
        } == optional_info(name@),
{
    if str_eq(name, "synchronous-io") {
        return Some(is_sync_io::IsSyncIo.info());
    }
    if str_eq(name, "log-usage") {
        return Some(log_usage::LogUsage.info());
    }
    if str_eq(name, "insecure-random") {
        return Some(is_random::IsRandom.info());
    }
    if str_eq(name, "crypto.weak-scrypt") {
        return Some(crypto::is_weak_scrypt::IsWeakScrypt.info());
    }
    if str_eq(name, "crypto.unsafe-prehash") {
        return Some(crypto::is_unsafe_prehash::IsUnsafePrehash::new().info());
    }
    if str_eq(name, "crypto.weak-bcrypt") {
        return Some(crypto::is_weak_bcrypt::IsWeakBcrypt.info());
    }
    if str_eq(name, "crypto.password-shucking") {
        return Some(crypto::is_password_shucking::IsPasswordShucking::new().info());
    }
    None
}

} // verus!
