use vstd::prelude::*;

use crate::error::{ErrorKind, ToolError};
use crate::text::{debug_quoted, debug_text, decimal, decimal_chars, push_all, push_str, string_of};
use crate::tools::lights::controller::{authority, authority_exec, device_host, LedDevice};

verus! {

/// The URL a light's state is set at: its base URL and `/json/state`.
pub fn state_url(device: &LedDevice) -> (r: String)
    ensures
        r@ == "http://"@ + authority(device_host(device@), device.port) + "/json/state"@,
{
    let host = device.choose_hostname();
    let a = authority_exec(host, device.port);
    let mut out: Vec<char> = Vec::new();
    push_str(&mut out, "http://");
    push_all(&mut out, &a);
    push_str(&mut out, "/json/state");
    string_of(&out)
}

/// `[r, g, b]`, as `format!("{:?}", [r, g, b])` writes three bytes.
pub open spec fn rgb_text(r: u8, g: u8, b: u8) -> Seq<char> {
    "["@ + decimal(r as nat) + ", "@ + decimal(g as nat) + ", "@ + decimal(b as nat) + "]"@
}

/// The answer once a light's color is set.
pub fn color_set_message(id: &str, r: u8, g: u8, b: u8) -> (m: String)
    ensures
        m@ == "set light for "@ + id@ + " to rgb"@ + rgb_text(r, g, b),
{
    let mut out: Vec<char> = Vec::new();
    push_str(&mut out, "set light for ");
    push_str(&mut out, id);
    push_str(&mut out, " to rgb[");
    push_all(&mut out, &decimal_chars(r as u64));
    push_str(&mut out, ", ");
    push_all(&mut out, &decimal_chars(g as u64));
    push_str(&mut out, ", ");
    push_all(&mut out, &decimal_chars(b as u64));
    push_str(&mut out, "]");
    proof {
        reveal_strlit(" to rgb[");
        reveal_strlit(" to rgb");
        reveal_strlit("[");
        assert(" to rgb["@ =~= " to rgb"@ + "["@);
    }
    string_of(&out)
}

/// The refusal when no known light has the requested id.
pub fn unknown_light(id: &str) -> (r: ToolError)
    ensures
        r.kind == ErrorKind::InvalidRequest,
        r.message@ == "no light with id "@ + debug_text(id@) + " found in cache; run lights_info first"@,
{
    let mut out: Vec<char> = Vec::new();
    push_str(&mut out, "no light with id ");
    let q = debug_quoted(id);
    push_str(&mut out, q.as_str());
    push_str(&mut out, " found in cache; run lights_info first");
    ToolError::invalid_request(string_of(&out))
}

} // verus!
