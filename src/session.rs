//! Setup policy of a capture session: which filters a device gets, and in
//! which order they are installed.
use vstd::prelude::*;

verus! {

/// The filter every session installs: UDP, and ICMPv6 neighbour
/// solicitations and advertisements.
pub open spec fn protocol_filter_text() -> Seq<char> {
    "udp or icmp6[0] = 135 or icmp6[0] = 136"@
}

/// The host filter that a device gets, keyed on its name; none for a device
/// that the configuration does not know.
pub open spec fn host_filter_text(device: Seq<char>) -> Option<Seq<char>> {
    if device == "tap0"@ {
        Some("dst host 2001:db8:100::1"@)
    } else if device == "veth0"@ {
        Some("dst host 2001:db8:100::2"@)
    } else {
        None
    }
}

/// The filters installed on a device, in order: its host filter if it has
/// one, then the protocol filter.
pub open spec fn filters_for(device: Seq<char>) -> Seq<Seq<char>> {
    match host_filter_text(device) {
        Some(h) => seq![h, protocol_filter_text()],
        None => seq![protocol_filter_text()],
    }
}

/// The filter that selects UDP and ICMPv6 neighbour discovery messages.
pub fn protocol_filter() -> (r: String)
    ensures
        r@ == protocol_filter_text(),
{
    String::from_str("udp or icmp6[0] = 135 or icmp6[0] = 136")
}

/// The host filter configured for `device`, if any.
pub fn host_filter(device: &str) -> (r: Option<String>)
    ensures
        r matches Some(h) ==> host_filter_text(device@) == Some(h@),
        r is None ==> host_filter_text(device@) is None,
{
    let name = device.to_owned();
    let tap = String::from_str("tap0");
    let veth = String::from_str("veth0");
    if name == tap {
        Some(String::from_str("dst host 2001:db8:100::1"))
    } else if name == veth {
        Some(String::from_str("dst host 2001:db8:100::2"))
    } else {
        None
    }
}

/// The filters to install on `device`, in the order of installation.
pub fn session_filters(device: &str) -> (r: Vec<String>)
    ensures
        r@.len() == filters_for(device@).len(),
        forall|i: int| 0 <= i < r@.len() ==> #[trigger] r@[i]@ == filters_for(device@)[i],
{
    let mut r: Vec<String> = Vec::new();
    match host_filter(device) {
        Some(h) => r.push(h),
        None => {},
    }
    r.push(protocol_filter());
    r
}

} // verus!
