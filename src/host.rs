use vstd::prelude::*;

verus! {

/// Relies on `hostname::get`: the machine's host name, `None` when it cannot
/// be read or is not valid UTF-8. Nothing is promised of the name itself.
#[verifier::external_body]
fn machine_hostname() -> (r: Option<String>) {
    hostname::get().ok().and_then(|h| h.into_string().ok())
}

/// The name to show for a host: the one read, or `unknown` when none was.
pub fn hostname_or_unknown(name: Option<String>) -> (r: String)
    ensures
        name matches Some(h) ==> r@ == h@,
        name is None ==> r@ == "unknown"@,
{
    match name {
        Some(h) => h,
        None => {
            proof {
                reveal_strlit("unknown");
            }
            "unknown".to_owned()
        },
    }
}

/// The host name that log lines carry: the machine's, or `unknown`.
pub fn get_hostname() -> String {
    hostname_or_unknown(machine_hostname())
}

} // verus!
