//! What the address of a relay has to look like.

use vstd::prelude::*;
use vstd::string::StringExecFns;

verus! {

/// Why an address is not the address of a relay.
#[derive(Clone, Copy, Debug, PartialEq, Eq, Structural)]
pub enum RelayUrlError {
    /// The address names no host.
    MissingHost,
    /// The scheme of the address is neither `ws` nor `wss`.
    WrongScheme,
}

/// Whether `scheme` is one that a relay is reached by.
pub open spec fn is_relay_scheme(scheme: Seq<char>) -> bool {
    scheme == "ws"@ || scheme == "wss"@
}

/// What the check of an address gives. The host is looked at first.
pub open spec fn relay_url_checked(has_host: bool, scheme: Option<Seq<char>>) -> Result<
    (),
    RelayUrlError,
> {
    if !has_host {
        Err(RelayUrlError::MissingHost)
    } else if scheme matches Some(s) && is_relay_scheme(s) {
        Ok(())
    } else {
        Err(RelayUrlError::WrongScheme)
    }
}

/// Checks the address of a relay, given whether it names a host and what its
/// scheme is, if it has one: it must name a host and its scheme must be `ws`
/// or `wss`.
pub fn check_relay_url(has_host: bool, scheme: Option<&str>) -> (r: Result<(), RelayUrlError>)
    ensures
        r == relay_url_checked(
            has_host,
            match scheme {
                Some(s) => Some(s@),
                None => None,
            },
        ),
{
    if !has_host {
        return Err(RelayUrlError::MissingHost);
    }
    match scheme {
        Some(s) => {
            let given = s.to_owned();
            if given == String::from_str("ws") || given == String::from_str("wss") {
                Ok(())
            } else {
                Err(RelayUrlError::WrongScheme)
            }
        },
        None => Err(RelayUrlError::WrongScheme),
    }
}

} // verus!
