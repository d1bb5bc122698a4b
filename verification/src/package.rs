//! Packaging a component folder as a tar file.
use vstd::prelude::*;
use vstd::string::StringExecFns;

verus! {

/// The name of the tar file of a component: `publisher.name.version.tar`.
pub open spec fn spec_component_tar_name(publisher: Seq<char>, name: Seq<char>, version: Seq<char>) -> Seq<char> {
    publisher + seq!['.'] + name + seq!['.'] + version + seq!['.', 't', 'a', 'r']
}

/// The name of the tar file of a component: `publisher.name.version.tar`.
pub fn component_tar_name(publisher: &str, name: &str, version: &str) -> (r: String)
    ensures
        r@ == spec_component_tar_name(publisher@, name@, version@),
{
    let mut r = String::from_str(publisher);
    crate::text::push_char(&mut r, '.');
    r.append(name);
    crate::text::push_char(&mut r, '.');
    r.append(version);
    crate::text::push_char(&mut r, '.');
    crate::text::push_char(&mut r, 't');
    crate::text::push_char(&mut r, 'a');
    crate::text::push_char(&mut r, 'r');
    r
}

} // verus!
