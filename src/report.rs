use vstd::prelude::*;
use vstd::string::StringExecFns;

verus! {

/// The log line for a failed call of the display surface method
/// `method_name` that failed with the message `err`:
/// `<method_name>() failed: <err>`.
pub fn log_error(method_name: &str, err: &str) -> (r: String)
    ensures
        r@ == method_name@ + "() failed: "@ + err@,
{
    let mut line = String::from_str(method_name);
    line.append("() failed: ");
    line.append(err);
    line
}

} // verus!
