//! Which component's output is the output of a whole rig.
use vstd::prelude::*;
use vstd::string::StringExecFns;

use crate::repository::{find_named, is_first_named};

verus! {

/// The component handles whose output stands for a rig's output, in order of preference.
pub open spec fn output_component_names() -> Seq<Seq<char>> {
    seq!["render"@, "output"@]
}

/// Whether the first component named `name` has produced output.
pub open spec fn has_output_named(states: Seq<(String, bool)>, name: Seq<char>) -> bool {
    exists|k: int| is_first_named(states, name, k) && states[k].1
}

/// The message when no component's output can stand for the rig's.
pub open spec fn no_output_component_message() -> Seq<char> {
    "Failed to identify output component. Expected handles are: [\"render\", \"output\"]"@
}

/// The component whose output is the rig's output, from each component's handle and
/// whether it has produced output: the only component of a rig of one, else `render`,
/// else `output`, each only where it has produced output.
pub fn select_output_component(states: &Vec<(String, bool)>) -> (r: Result<String, String>)
    requires
        states@.len() == 1 ==> states@[0].1,
    ensures
        match r {
            Ok(handle) => if states@.len() == 1 {
                handle@ == states@[0].0@
            } else {
                (handle@ == "render"@ && has_output_named(states@, "render"@)) || (handle@
                    == "output"@ && !has_output_named(states@, "render"@) && has_output_named(
                    states@,
                    "output"@,
                ))
            },
            Err(message) => states@.len() != 1 && !has_output_named(states@, "render"@)
                && !has_output_named(states@, "output"@) && message@ == no_output_component_message(),
        },
{
    if states.len() == 1 {
        return Ok(states[0].0.clone());
    }
    match find_named(states, "render") {
        Some(k) => {
            if states[k].1 {
                return Ok(String::from_str("render"));
            }
        },
        None => {},
    }
    match find_named(states, "output") {
        Some(k) => {
            if states[k].1 {
                return Ok(String::from_str("output"));
            }
        },
        None => {},
    }
    Err(
        String::from_str(
            "Failed to identify output component. Expected handles are: [\"render\", \"output\"]",
        ),
    )
}

/// What a rig's output is written as, by the extension of the file it goes to.
#[derive(Debug, Clone, Copy, PartialEq, Eq, Structural)]
pub enum OutputFileKind {
    /// The output as pretty-printed JSON.
    Json,
    /// The output's canvas as an image.
    Png,
}

/// The message for an extension that names no output kind.
pub open spec fn bad_extension_message(extension: Seq<char>) -> Seq<char> {
    "File extension should be \"json\" or \"png\". Extension was \""@ + extension + "\"."@
}

/// What a file with the given extension receives: `json` the JSON output, `png` the
/// canvas; any other extension is refused.
pub fn output_file_kind(extension: &str) -> (r: Result<OutputFileKind, String>)
    ensures
        match r {
            Ok(kind) => (extension@ == "json"@ && kind == OutputFileKind::Json) || (extension@
                == "png"@ && kind == OutputFileKind::Png),
            Err(message) => extension@ != "json"@ && extension@ != "png"@ && message@
                == bad_extension_message(extension@),
        },
{
    let given = String::from_str(extension);
    let json = String::from_str("json");
    let png = String::from_str("png");
    proof {
        reveal_strlit("json");
        reveal_strlit("png");
    }
    if given == json {
        return Ok(OutputFileKind::Json);
    }
    if given == png {
        return Ok(OutputFileKind::Png);
    }
    let mut message = String::from_str("File extension should be \"json\" or \"png\". Extension was \"");
    message.append(extension);
    message.append("\".");
    proof {
        reveal_strlit("File extension should be \"json\" or \"png\". Extension was \"");
        reveal_strlit("\".");
    }
    Err(message)
}

} // verus!
