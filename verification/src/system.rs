//! Names of systems.
use vstd::prelude::*;

verus! {

/// The full name of the system `system_name` of the module `module_name`:
/// the two names joined by `::`.
pub fn system_name_generator(module_name: &str, system_name: &str) -> (r: String)
    ensures
        r@ == module_name@ + "::"@ + system_name@,
{
    String::from_str(module_name).concat("::").concat(system_name)
}

} // verus!
