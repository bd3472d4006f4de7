//! The manager slot shared by the FFI entry points.

use vstd::prelude::*;
use crate::error::OpenVpnError;
use crate::openvpn::{LaunchMode, OpenVpnManager};

verus! {

/// Creates a manager for the binary at `binary_path` (which exists when
/// `binary_exists`) and stores it in `slot`, replacing any previous one.
/// On error the slot is left as it was.
pub fn init_manager(
    slot: &mut Option<OpenVpnManager>,
    binary_path: String,
    binary_exists: bool,
) -> (r: Result<(), OpenVpnError>)
    ensures
        r is Ok <==> binary_exists,
        r matches Err(e) ==> e is BinaryNotFound && *final(slot) == *old(slot),
        r matches Err(OpenVpnError::BinaryNotFound(m)) ==> m@ == "OpenVPN binary not found at: "@
            + binary_path@,
        r is Ok ==> (*final(slot) matches Some(m) && m.binary_view() == binary_path@ && m.is_idle()
            && m.launch_mode_view() == LaunchMode::Auto),
{
    let manager = OpenVpnManager::new(binary_path, binary_exists)?;
    *slot = Some(manager);
    Ok(())
}

} // verus!
