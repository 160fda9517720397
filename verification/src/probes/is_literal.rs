//! The `is-literal` probe.

use vstd::prelude::*;

use crate::probe::{opt_view, ProbeInfo};
use crate::probes::strings;
use crate::text::{to_string, view_strings};
use crate::hex::{decode_hex_lossy, is_hex_str, spec_decode_hex, spec_is_hex};
use crate::json::JsonValue;
use crate::patterns::{pattern_matches, regex_matches, regex_valid};
use crate::text::{str_eq, strings_contain};

verus! {

/// The `is-literal` probe.
pub struct IsLiteral;

impl IsLiteral {
    pub fn name(&self) -> (r: String)
        ensures
            r@ == "is-literal"@,
    {
        to_string("is-literal")
    }

    /// The ESTree node types the probe handles.
    pub fn node_types(&self) -> (r: Option<Vec<String>>)
        ensures
            match r {
                Some(v) => Some(view_strings(v@)),
                None => None::<Seq<Seq<char>>>,
            } == Some(seq!["Literal"@]),
    {
        Some(strings(&["Literal"]))
    }

    pub fn break_on_match(&self) -> (r: bool)
        ensures
            r == false,
    {
        false
    }

    pub fn break_group(&self) -> (r: Option<String>)
        ensures
            opt_view(r) == None::<Seq<char>>,
    {
        None
    }

    /// What the runner needs to know of the probe.
    pub fn info(&self) -> (r: ProbeInfo)
        ensures
            r.name@ == "is-literal"@,
            match r.node_types {
                Some(v) => Some(view_strings(v@)),
                None => None::<Seq<Seq<char>>>,
            } == Some(seq!["Literal"@]),
            r.break_on_match == false,
            opt_view(r.break_group) == None::<Seq<char>>,
    {
        ProbeInfo {
            name: self.name(),
            node_types: self.node_types(),
            break_on_match: self.break_on_match(),
            break_group: self.break_group(),
        }
    }
}

} // verus!

verus! {

/// The modules built into Node.js (`require("node:module").builtinModules`).
pub open spec fn node_builtin_modules() -> Seq<Seq<char>> {
    seq![
        "_http_agent"@, "_http_client"@, "_http_common"@, "_http_incoming"@,
        "_http_outgoing"@, "_http_server"@, "_stream_duplex"@, "_stream_passthrough"@,
        "_stream_readable"@, "_stream_transform"@, "_stream_wrap"@, "_stream_writable"@,
        "_tls_common"@, "_tls_wrap"@, "assert"@, "assert/strict"@,
        "async_hooks"@, "buffer"@, "child_process"@, "cluster"@,
        "console"@, "constants"@, "crypto"@, "dgram"@,
        "diagnostics_channel"@, "dns"@, "dns/promises"@, "domain"@,
        "events"@, "fs"@, "fs/promises"@, "http"@,
        "http2"@, "https"@, "inspector"@, "inspector/promises"@,
        "module"@, "net"@, "os"@, "path"@,
        "path/posix"@, "path/win32"@, "perf_hooks"@, "process"@,
        "punycode"@, "querystring"@, "readline"@, "readline/promises"@,
        "repl"@, "stream"@, "stream/consumers"@, "stream/promises"@,
        "stream/web"@, "string_decoder"@, "sys"@, "timers"@,
        "timers/promises"@, "tls"@, "trace_events"@, "tty"@,
        "url"@, "util"@, "util/types"@, "v8"@,
        "vm"@, "wasi"@, "worker_threads"@, "zlib"@,
    ]
}

/// The regex of an e-mail address.
pub open spec fn email_pattern() -> Seq<char> {
    "^[^.\\s@:](?:[^\\s@:]*[^\\s@:.])?@[^.\\s@]+(?:\\.[^.\\s@]+)*$"@
}

/// Whether a module name is one of Node.js's built-in modules.
pub fn is_node_builtin_module(name: &str) -> (r: bool)
    ensures
        r == node_builtin_modules().contains(name@),
{
    let modules = strings(&[
        "_http_agent", "_http_client", "_http_common", "_http_incoming",
        "_http_outgoing", "_http_server", "_stream_duplex", "_stream_passthrough",
        "_stream_readable", "_stream_transform", "_stream_wrap", "_stream_writable",
        "_tls_common", "_tls_wrap", "assert", "assert/strict",
        "async_hooks", "buffer", "child_process", "cluster",
        "console", "constants", "crypto", "dgram",
        "diagnostics_channel", "dns", "dns/promises", "domain",
        "events", "fs", "fs/promises", "http",
        "http2", "https", "inspector", "inspector/promises",
        "module", "net", "os", "path",
        "path/posix", "path/win32", "perf_hooks", "process",
        "punycode", "querystring", "readline", "readline/promises",
        "repl", "stream", "stream/consumers", "stream/promises",
        "stream/web", "string_decoder", "sys", "timers",
        "timers/promises", "tls", "trace_events", "tty",
        "url", "util", "util/types", "v8",
        "vm", "wasi", "worker_threads", "zlib",
    ]);
    assert(view_strings(modules@) =~= node_builtin_modules());
    strings_contain(&modules, name)
}

/// What the probe makes of a string literal before looking for links.
#[derive(Debug, Clone)]
pub enum LiteralKind {
    /// Hexadecimal text that decodes to the name of a built-in module: a
    /// dependency and an `unsafe-import`.
    BuiltinModule(String),
    /// Other hexadecimal text, with what it decodes to.
    Hex(String),
    /// An e-mail address, collected where e-mails are collected.
    Email,
    /// Anything else: checked as an IP address or a URL.
    Other,
}

/// The kind of a string literal's value, given whether e-mail addresses
/// are collected.
pub open spec fn spec_literal_kind_is(value: Seq<char>, collects_email: bool, kind: LiteralKind) -> bool {
    if spec_is_hex(value) {
        let decoded = spec_decode_hex(value);
        if node_builtin_modules().contains(decoded) {
            kind matches LiteralKind::BuiltinModule(d) && d@ == decoded
        } else {
            kind matches LiteralKind::Hex(d) && d@ == decoded
        }
    } else if collects_email && regex_valid(email_pattern()) && regex_matches(email_pattern(), value) {
        kind is Email
    } else {
        kind is Other
    }
}

impl IsLiteral {
    /// A `Literal` node with a string `value`.
    pub fn validate_node(&self, node: &JsonValue) -> (r: bool)
        ensures
            r == (node.spec_get_str("type"@) == Some("Literal"@) && node.spec_get_str("value"@) is Some),
    {
        let is_literal = match node.get_str("type") {
            Some(t) => str_eq(t, "Literal"),
            None => false,
        };
        is_literal && node.get_str("value").is_some()
    }

    /// The kind of a string literal's value.
    pub fn literal_kind(&self, value: &str, collects_email: bool) -> (r: LiteralKind)
        ensures
            spec_literal_kind_is(value@, collects_email, r),
    {
        if is_hex_str(value) {
            let decoded = decode_hex_lossy(value);
            if is_node_builtin_module(decoded.as_str()) {
                LiteralKind::BuiltinModule(decoded)
            } else {
                LiteralKind::Hex(decoded)
            }
        } else if collects_email && pattern_matches(
            "^[^.\\s@:](?:[^\\s@:]*[^\\s@:.])?@[^.\\s@]+(?:\\.[^.\\s@]+)*$",
            value,
        ) {
            LiteralKind::Email
        } else {
            LiteralKind::Other
        }
    }
}

} // verus!
