//! The `isSyncIO` probe.

use vstd::prelude::*;

use crate::probe::{spec_traces, spec_traces_in_own_module, traces, traces_in_own_module, view_traces, TraceRequest, opt_view, ProbeInfo};
use crate::probes::strings;
use crate::text::{to_string, view_strings};
use crate::estree::types::{identifier_name, spec_identifier_name};
use crate::json::JsonValue;
use crate::probes::is_fetch::opt_str_view;
use crate::text::{str_ends_with, strings_contain};

verus! {

/// The `isSyncIO` probe.
pub struct IsSyncIo;

impl IsSyncIo {
    pub fn name(&self) -> (r: String)
        ensures
            r@ == "isSyncIO"@,
    {
        to_string("isSyncIO")
    }

    /// The ESTree node types the probe handles.
    pub fn node_types(&self) -> (r: Option<Vec<String>>)
        ensures
            match r {
                Some(v) => Some(view_strings(v@)),
                None => None::<Seq<Seq<char>>>,
            } == Some(seq!["CallExpression"@]),
    {
        Some(strings(&["CallExpression"]))
    }

    pub fn break_on_match(&self) -> (r: bool)
        ensures
            r == false,
    {
        false
    }

    pub fn break_group(&self) -> (r: Option<String>)
        ensures
            opt_view(r) == None::<Seq<char>>,
    {
        None
    }

    /// What the runner needs to know of the probe.
    pub fn info(&self) -> (r: ProbeInfo)
        ensures
            r.name@ == "isSyncIO"@,
            match r.node_types {
                Some(v) => Some(view_strings(v@)),
                None => None::<Seq<Seq<char>>>,
            } == Some(seq!["CallExpression"@]),
            r.break_on_match == false,
            opt_view(r.break_group) == None::<Seq<char>>,
    {
        ProbeInfo {
            name: self.name(),
            node_types: self.node_types(),
            break_on_match: self.break_on_match(),
            break_group: self.break_group(),
        }
    }
}

} // verus!

verus! {

impl IsSyncIo {
    /// The names the probe asks the variable tracer to follow.
    pub fn initialize(&self) -> (r: Vec<TraceRequest>)
        ensures
            view_traces(r@) == spec_traces_in_own_module(seq!["crypto.pbkdf2Sync"@, "crypto.scryptSync"@, "crypto.generateKeyPairSync"@, "crypto.generateKeySync"@, "crypto.hkdfSync"@, "crypto.randomFillSync"@, "crypto.checkPrimeSync"@, "crypto.argon2Sync"@, "fs.readFileSync"@, "fs.writeFileSync"@, "fs.appendFileSync"@, "fs.readSync"@, "fs.writeSync"@, "fs.readdirSync"@, "fs.statSync"@, "fs.mkdirSync"@, "fs.renameSync"@, "fs.unlinkSync"@, "fs.symlinkSync"@, "fs.openSync"@, "fs.fstatSync"@, "fs.linkSync"@, "fs.realpathSync"@, "child_process.execSync"@, "child_process.spawnSync"@, "child_process.execFileSync"@, "zlib.deflateSync"@, "zlib.inflateSync"@, "zlib.gzipSync"@, "zlib.gunzipSync"@, "zlib.brotliCompressSync"@, "zlib.brotliDecompressSync"@]),
    {
        let mut r = traces_in_own_module(&["crypto.pbkdf2Sync", "crypto.scryptSync", "crypto.generateKeyPairSync", "crypto.generateKeySync", "crypto.hkdfSync", "crypto.randomFillSync", "crypto.checkPrimeSync", "crypto.argon2Sync", "fs.readFileSync", "fs.writeFileSync", "fs.appendFileSync", "fs.readSync", "fs.writeSync", "fs.readdirSync", "fs.statSync", "fs.mkdirSync", "fs.renameSync", "fs.unlinkSync", "fs.symlinkSync", "fs.openSync", "fs.fstatSync", "fs.linkSync", "fs.realpathSync", "child_process.execSync", "child_process.spawnSync", "child_process.execFileSync", "zlib.deflateSync", "zlib.inflateSync", "zlib.gzipSync", "zlib.gunzipSync", "zlib.brotliCompressSync", "zlib.brotliDecompressSync"]);
        proof {
            assert(view_traces(r@) =~= spec_traces_in_own_module(seq!["crypto.pbkdf2Sync"@, "crypto.scryptSync"@, "crypto.generateKeyPairSync"@, "crypto.generateKeySync"@, "crypto.hkdfSync"@, "crypto.randomFillSync"@, "crypto.checkPrimeSync"@, "crypto.argon2Sync"@, "fs.readFileSync"@, "fs.writeFileSync"@, "fs.appendFileSync"@, "fs.readSync"@, "fs.writeSync"@, "fs.readdirSync"@, "fs.statSync"@, "fs.mkdirSync"@, "fs.renameSync"@, "fs.unlinkSync"@, "fs.symlinkSync"@, "fs.openSync"@, "fs.fstatSync"@, "fs.linkSync"@, "fs.realpathSync"@, "child_process.execSync"@, "child_process.spawnSync"@, "child_process.execFileSync"@, "zlib.deflateSync"@, "zlib.inflateSync"@, "zlib.gzipSync"@, "zlib.gunzipSync"@, "zlib.brotliCompressSync"@, "zlib.brotliDecompressSync"@]));
        }
        r
    }
}

} // verus!

verus! {

/// The core modules whose synchronous functions the probe reports.
pub open spec fn traced_core_modules() -> Seq<Seq<char>> {
    seq!["fs"@, "crypto"@, "child_process"@, "zlib"@]
}

/// One of the core modules is imported, and the tracer resolved the call to
/// a name ending in `Sync`.
pub open spec fn spec_is_sync_io(imported_modules: Seq<Seq<char>>, traced_data: Option<Seq<char>>) -> bool {
    &&& exists|i: int| 0 <= i < 4 && imported_modules.contains(#[trigger] traced_core_modules()[i])
    &&& traced_data matches Some(t) && "Sync"@.is_suffix_of(t)
}

impl IsSyncIo {
    /// A synchronous call of a traced core module.
    pub fn validate_node(&self, imported_modules: &Vec<String>, traced_data: Option<&str>) -> (r: bool)
        ensures
            r == spec_is_sync_io(view_strings(imported_modules@), opt_str_view(traced_data)),
    {
        let modules = strings(&["fs", "crypto", "child_process", "zlib"]);
        assert(view_strings(modules@) =~= traced_core_modules());
        let mut found = false;
        let mut i: usize = 0;
        while i < modules.len()
            invariant
                0 <= i <= 4,
                modules@.len() == 4,
                view_strings(modules@) == traced_core_modules(),
                found == exists|j: int|
                    0 <= j < i && view_strings(imported_modules@).contains(
                        #[trigger] traced_core_modules()[j],
                    ),
            decreases 4 - i,
        {
            assert(view_strings(modules@)[i as int] == modules@[i as int]@);
            if strings_contain(imported_modules, modules[i].as_str()) {
                found = true;
            }
            i = i + 1;
        }
        if !found {
            return false;
        }
        match traced_data {
            Some(t) => str_ends_with(t, "Sync"),
            None => false,
        }
    }

    /// The value of the `synchronous-io` warning: the callee's name when it
    /// is an identifier.
    pub fn main(&self, node: &JsonValue) -> (r: Option<String>)
        ensures
            opt_view(r) == match node.spec_get("callee"@) {
                Some(callee) => spec_identifier_name(callee),
                None => None,
            },
    {
        match node.get("callee") {
            Some(callee) => match identifier_name(callee) {
                Some(name) => Some(to_string(name)),
                None => None,
            },
            None => None,
        }
    }
}

} // verus!
