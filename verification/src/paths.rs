//! Where the local daemon's secret token file lives: either a path the
//! operator supplied, or the platform's well-known location.

use vstd::prelude::*;

verus! {

/// The platforms with a well-known token location.
#[derive(Clone, Copy, Debug, PartialEq, Eq, Structural)]
pub enum HostOs {
    Linux,
    Windows,
    MacOs,
    Unknown,
}

/// The path of the daemon's secret token file: the supplied override, or
/// the platform default. On a platform without a default the caller must
/// supply a path.
pub fn authtoken_path(arg: Option<String>, os: HostOs) -> (r: String)
    requires
        arg is Some || os != HostOs::Unknown,
    ensures
        match arg {
            Some(p) => r@ == p@,
            None => match os {
                HostOs::Linux => r@ == "/var/lib/zerotier-one/authtoken.secret"@,
                HostOs::Windows => r@ == "C:/ProgramData/ZeroTier/One/authtoken.secret"@,
                HostOs::MacOs => r@
                    == "/Library/Application Support/ZeroTier/One/authtoken.secret"@,
                HostOs::Unknown => false,
            },
        },
{
    match arg {
        Some(p) => p,
        None => match os {
            HostOs::Linux => "/var/lib/zerotier-one/authtoken.secret".to_owned(),
            HostOs::Windows => "C:/ProgramData/ZeroTier/One/authtoken.secret".to_owned(),
            HostOs::MacOs => "/Library/Application Support/ZeroTier/One/authtoken.secret"
                .to_owned(),
            HostOs::Unknown => {
                proof {
                    assert(false);
                }
                unreached()
            },
        },
    }
}

} // verus!
