//! Finding the component that a debugger command names.
use vstd::prelude::*;
use vstd::string::StringExecFns;

use crate::repository::{find_named, has_named, is_first_named};

verus! {

/// The message for a name that is neither a shortcut nor a component handle.
pub open spec fn unknown_handle_message(name: Seq<char>) -> Seq<char> {
    "No component found for handle or shortcut "@ + name
}

/// The first of `names` equal to `name`.
pub open spec fn is_first_equal(names: Seq<String>, name: Seq<char>, k: int) -> bool {
    &&& 0 <= k < names.len()
    &&& names[k]@ == name
    &&& forall|j: int| 0 <= j < k ==> names[j]@ != name
}

/// The component a debugger command names: the handle of the shortcut so named, else
/// the handle in the execution order so named; else a message saying neither exists.
pub fn get_handle(name: &str, shortcuts: &Vec<(String, String)>, execution_order: &Vec<String>) -> (r: Result<String, String>)
    ensures
        match r {
            Ok(handle) => (exists|k: int| is_first_named(shortcuts@, name@, k) && handle@ == shortcuts@[k].1@)
                || (!has_named(shortcuts@, name@) && exists|k: int|
                is_first_equal(execution_order@, name@, k) && handle@ == name@),
            Err(message) => !has_named(shortcuts@, name@) && (forall|k: int|
                0 <= k < execution_order@.len() ==> execution_order@[k]@ != name@) && message@
                == unknown_handle_message(name@),
        },
{
    if let Some(k) = find_named(shortcuts, name) {
        return Ok(shortcuts[k].1.clone());
    }
    let wanted = String::from_str(name);
    let mut k: usize = 0;
    while k < execution_order.len()
        invariant
            k <= execution_order@.len(),
            wanted@ == name@,
            !has_named(shortcuts@, name@),
            forall|j: int| 0 <= j < k ==> execution_order@[j]@ != name@,
        decreases execution_order@.len() - k,
    {
        if execution_order[k] == wanted {
            assert(is_first_equal(execution_order@, name@, k as int));
            return Ok(execution_order[k].clone());
        }
        k = k + 1;
    }
    let mut message = String::from_str("No component found for handle or shortcut ");
    message.append(name);
    Err(message)
}

} // verus!
