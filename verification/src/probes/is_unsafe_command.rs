//! The `isUnsafeCommand` probe.

use vstd::prelude::*;

use crate::estree::functions::{spec_to_literal, to_literal};
use crate::estree::types::{
    is_string_literal, is_template_literal, node_type, spec_is_string_literal,
    spec_is_template_literal, spec_node_type,
};
use crate::json::JsonValue;
use crate::probe::{spec_traces, spec_traces_in_own_module, traces, traces_in_own_module, view_traces, TraceRequest, opt_view, ProbeInfo, Sensitivity};
use crate::probes::strings;
use crate::text::{contains_seq, push_char, str_contains, str_eq, to_string, view_strings};

verus! {

/// The `isUnsafeCommand` probe.
pub struct IsUnsafeCommand;

impl IsUnsafeCommand {
    pub fn name(&self) -> (r: String)
        ensures
            r@ == "isUnsafeCommand"@,
    {
        to_string("isUnsafeCommand")
    }

    /// The ESTree node types the probe handles.
    pub fn node_types(&self) -> (r: Option<Vec<String>>)
        ensures
            match r {
                Some(v) => Some(view_strings(v@)),
                None => None::<Seq<Seq<char>>>,
            } == Some(seq!["CallExpression"@]),
    {
        Some(strings(&["CallExpression"]))
    }

    pub fn break_on_match(&self) -> (r: bool)
        ensures
            r == false,
    {
        false
    }

    pub fn break_group(&self) -> (r: Option<String>)
        ensures
            opt_view(r) == None::<Seq<char>>,
    {
        None
    }

    /// What the runner needs to know of the probe.
    pub fn info(&self) -> (r: ProbeInfo)
        ensures
            r.name@ == "isUnsafeCommand"@,
            match r.node_types {
                Some(v) => Some(view_strings(v@)),
                None => None::<Seq<Seq<char>>>,
            } == Some(seq!["CallExpression"@]),
            r.break_on_match == false,
            opt_view(r.break_group) == None::<Seq<char>>,
    {
        ProbeInfo {
            name: self.name(),
            node_types: self.node_types(),
            break_on_match: self.break_on_match(),
            break_group: self.break_group(),
        }
    }
}

} // verus!

verus! {

/// The commands that are unsafe to run.
pub open spec fn unsafe_commands() -> Seq<Seq<char>> {
    seq!["csrutil"@, "uname"@, "ping"@, "curl"@]
}

/// The functions that run a command.
pub open spec fn command_runners() -> Seq<Seq<char>> {
    seq![
        "child_process.spawn"@,
        "child_process.spawnSync"@,
        "child_process.exec"@,
        "child_process.execSync"@,
    ]
}

/// Whether a command holds the name of an unsafe command.
pub open spec fn spec_is_unsafe_command(command: Seq<char>) -> bool {
    exists|i: int| 0 <= i < unsafe_commands().len() && contains_seq(command, unsafe_commands()[i])
}

/// Whether a command holds the name of an unsafe command.
pub fn is_unsafe_command(command: &str) -> (r: bool)
    ensures
        r == spec_is_unsafe_command(command@),
{
    let r = str_contains(command, "csrutil") || str_contains(command, "uname") || str_contains(
        command,
        "ping",
    ) || str_contains(command, "curl");
    proof {
        if r {
            if contains_seq(command@, "csrutil"@) {
                assert(unsafe_commands()[0] == "csrutil"@);
            } else if contains_seq(command@, "uname"@) {
                assert(unsafe_commands()[1] == "uname"@);
            } else if contains_seq(command@, "ping"@) {
                assert(unsafe_commands()[2] == "ping"@);
            } else {
                assert(unsafe_commands()[3] == "curl"@);
            }
        }
    }
    r
}

/// The command that an argument spells: a literal's string, a template
/// literal's text, else nothing.
pub open spec fn spec_get_command(arg: JsonValue) -> Seq<char> {
    if spec_node_type(arg) == Some("Literal"@) {
        match arg.spec_get_str("value"@) {
            Some(v) => v,
            None => Seq::empty(),
        }
    } else if spec_node_type(arg) == Some("TemplateLiteral"@) {
        spec_to_literal(arg)
    } else {
        Seq::empty()
    }
}

/// The command that an argument spells.
pub fn get_command(command_arg: &JsonValue) -> (r: String)
    ensures
        r@ == spec_get_command(*command_arg),
{
    match node_type(command_arg) {
        Some(t) => {
            if str_eq(t, "Literal") {
                match command_arg.get_str("value") {
                    Some(v) => to_string(v),
                    None => String::new(),
                }
            } else if str_eq(t, "TemplateLiteral") {
                to_literal(command_arg)
            } else {
                String::new()
            }
        },
        None => String::new(),
    }
}

/// The command followed by a space and the string of each string literal
/// among `elements`.
pub open spec fn append_args(command: Seq<char>, elements: Seq<JsonValue>) -> Seq<char>
    decreases elements.len(),
{
    if elements.len() == 0 {
        command
    } else {
        let acc = append_args(command, elements.drop_last());
        let e = elements.last();
        if spec_is_string_literal(e) {
            acc + seq![' '] + match e.spec_get_str("value"@) {
                Some(v) => v,
                None => Seq::empty(),
            }
        } else {
            acc
        }
    }
}

/// The command with the arguments of a `spawn` call appended: each string
/// literal of the array given as second argument, after a space.
pub open spec fn spec_concat_array_args(command: Seq<char>, node: JsonValue) -> Seq<char> {
    match node.spec_get_array("arguments"@) {
        Some(args) => if args.len() > 1 && spec_node_type(args[1]) == Some("ArrayExpression"@) {
            match args[1].spec_get_array("elements"@) {
                Some(elements) => append_args(command, elements),
                None => command,
            }
        } else {
            command
        },
        None => command,
    }
}

/// The command with the arguments of a `spawn` call appended.
pub fn concat_array_args(command: String, node: &JsonValue) -> (r: String)
    ensures
        r@ == spec_concat_array_args(command@, *node),
{
    let args = match node.get_array("arguments") {
        Some(a) => a,
        None => {
            return command;
        },
    };
    if args.len() < 2 {
        return command;
    }
    let arr_expr = &args[1];
    let is_array = match node_type(arr_expr) {
        Some(t) => str_eq(t, "ArrayExpression"),
        None => false,
    };
    if !is_array {
        return command;
    }
    let elements = match arr_expr.get_array("elements") {
        Some(e) => e,
        None => {
            return command;
        },
    };
    let ghost start = command@;
    let mut acc = command;
    let mut i: usize = 0;
    while i < elements.len()
        invariant
            0 <= i <= elements@.len(),
            acc@ == append_args(start, elements@.take(i as int)),
        decreases elements.len() - i,
    {
        proof {
            assert(elements@.take(i + 1).drop_last() =~= elements@.take(i as int));
            assert(elements@.take(i + 1).last() == elements@[i as int]);
        }
        if is_string_literal(&elements[i]) {
            let value = match elements[i].get_str("value") {
                Some(v) => v,
                None => "",
            };
            proof {
                reveal_strlit("");
                assert(""@ =~= Seq::<char>::empty());
            }
            push_char(&mut acc, ' ');
            acc.append(value);
        }
        i = i + 1;
    }
    proof {
        assert(elements@.take(elements@.len() as int) =~= elements@);
    }
    acc
}

/// The validator: the method name (`spawn`, `exec`, ...) when the tracer
/// resolved the call to one of the functions that run a command.
pub open spec fn spec_command_method(traced_name: Option<Seq<char>>) -> Option<Seq<char>> {
    match traced_name {
        Some(name) => if command_runners().contains(name) {
            Some(name.skip(14))
        } else {
            None
        },
        None => None,
    }
}

/// The validator: the method name (`spawn`, `exec`, ...) when the tracer
/// resolved the call (`traced_name`) to one of the functions that run a
/// command.
pub fn validate_node(traced_name: Option<&str>) -> (r: Option<String>)
    ensures
        opt_view(r) == spec_command_method(
            match traced_name {
                Some(t) => Some(t@),
                None => None,
            },
        ),
{
    let name = match traced_name {
        Some(n) => n,
        None => {
            return None;
        },
    };
    let is_runner = str_eq(name, "child_process.spawn") || str_eq(name, "child_process.spawnSync")
        || str_eq(name, "child_process.exec") || str_eq(name, "child_process.execSync");
    proof {
        reveal_strlit("child_process.spawn");
        reveal_strlit("child_process.spawnSync");
        reveal_strlit("child_process.exec");
        reveal_strlit("child_process.execSync");
        if is_runner {
            assert(name@.len() >= 14);
            assert(command_runners().contains(name@)) by {
                if name@ == "child_process.spawn"@ {
                    assert(command_runners()[0] == name@);
                } else if name@ == "child_process.spawnSync"@ {
                    assert(command_runners()[1] == name@);
                } else if name@ == "child_process.exec"@ {
                    assert(command_runners()[2] == name@);
                } else {
                    assert(command_runners()[3] == name@);
                }
            }
        } else {
            assert(!command_runners().contains(name@)) by {
                if command_runners().contains(name@) {
                    let k = choose|k: int| 0 <= k < 4 && command_runners()[k] == name@;
                    assert(k == 0 || k == 1 || k == 2 || k == 3);
                }
            }
        }
    }
    if !is_runner {
        return None;
    }
    let chars = crate::text::chars_of(name);
    Some(crate::text::string_from_range(&chars, 14, chars.len()))
}

/// The command of a call to warn of, if any: its first argument must be a
/// string or template literal; in conservative mode the command must hold
/// an unsafe command's name; for `spawn` the array arguments are appended.
pub open spec fn spec_unsafe_command_warning(
    node: JsonValue,
    method_name: Seq<char>,
    sensitivity: Sensitivity,
) -> Option<Seq<char>> {
    match node.spec_get_array("arguments"@) {
        Some(args) => if args.len() == 0 {
            None
        } else {
            let arg = args[0];
            if !spec_is_string_literal(arg) && !spec_is_template_literal(arg) {
                None
            } else {
                let command = spec_get_command(arg);
                if sensitivity == Sensitivity::Conservative && !spec_is_unsafe_command(command) {
                    None
                } else if method_name == "spawn"@ || method_name == "spawnSync"@ {
                    Some(spec_concat_array_args(command, node))
                } else {
                    Some(command)
                }
            }
        },
        None => None,
    }
}

/// The command of a call to warn of, if any (the probe then skips the
/// call's children), for the method the validator found.
pub fn unsafe_command_warning(node: &JsonValue, method_name: &str, sensitivity: Sensitivity) -> (r:
    Option<String>)
    ensures
        opt_view(r) == spec_unsafe_command_warning(*node, method_name@, sensitivity),
{
    let args = match node.get_array("arguments") {
        Some(a) => a,
        None => {
            return None;
        },
    };
    if args.len() == 0 {
        return None;
    }
    let command_arg = &args[0];
    if !is_string_literal(command_arg) && !is_template_literal(command_arg) {
        return None;
    }
    let command = get_command(command_arg);
    let is_spawn = str_eq(method_name, "spawn") || str_eq(method_name, "spawnSync");
    let matched = match sensitivity {
        Sensitivity::Aggressive => true,
        Sensitivity::Conservative => is_unsafe_command(command.as_str()),
    };
    if !matched {
        return None;
    }
    if is_spawn {
        Some(concat_array_args(command, node))
    } else {
        Some(command)
    }
}

} // verus!

verus! {

impl IsUnsafeCommand {
    /// The names the probe asks the variable tracer to follow.
    pub fn initialize(&self) -> (r: Vec<TraceRequest>)
        ensures
            view_traces(r@) == spec_traces_in_own_module(seq!["child_process.spawn"@, "child_process.spawnSync"@, "child_process.exec"@, "child_process.execSync"@]),
    {
        let mut r = traces_in_own_module(&["child_process.spawn", "child_process.spawnSync", "child_process.exec", "child_process.execSync"]);
        proof {
            assert(view_traces(r@) =~= spec_traces_in_own_module(seq!["child_process.spawn"@, "child_process.spawnSync"@, "child_process.exec"@, "child_process.execSync"@]));
        }
        r
    }
}

} // verus!
