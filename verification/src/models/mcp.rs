//! Requests about the MCP endpoint's settings.

use vstd::prelude::*;

verus! {

/// A request to switch the MCP endpoint on or off.
pub struct UpdateMcpSettingsRequest {
    pub enabled: bool,
}

/// The stored `mcp_enabled` value for a switch request.
pub fn enabled_setting_value(req: &UpdateMcpSettingsRequest) -> (r: &'static str)
    ensures
        r@ == if req.enabled {
            "true"@
        } else {
            "false"@
        },
{
    if req.enabled {
        "true"
    } else {
        "false"
    }
}

} // verus!
