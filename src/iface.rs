//! An interface and its hardware address, as resolved by an interface-control
//! call.
//!
//! The control call itself is made by the caller over an open descriptor:
//! it builds the block with `IfReq::with_if_name`, lets the kernel fill in
//! the reply region, and hands the call's status and the filled block to
//! `Iface::new`, which decides the outcome.
use vstd::prelude::*;

use crate::error::Error;
use crate::hwaddr::HwAddr;
use crate::ifreq::{as_signed8, padded_name, IfReq, NAME_FIELD_LEN};
use vstd::utf8::encode_utf8;

verus! {

/// The hardware address that a filled-in block reports: the first six data
/// bytes of its socket-address reply, which sit at bytes 2 to 7 of the reply
/// region.
pub open spec fn reported_hwaddr(reply: Seq<u8>) -> Seq<u8> {
    reply.subrange(2, 8)
}

/// The byte whose bit pattern the signed byte `x` carries.
fn to_unsigned(x: i8) -> (r: u8)
    ensures
        as_signed8(r) == x as int,
{
    if x >= 0 {
        x as u8
    } else {
        (x as i16 + 256) as u8
    }
}

/// A network interface: its name and its hardware address.
pub struct Iface {
    pub name: String,
    pub hwaddr: HwAddr,
}

impl Iface {
    /// The hardware address held in the reply region of a block that the
    /// kernel answered.
    pub fn hwaddr_from_reply(req: &IfReq) -> (r: HwAddr)
        ensures
            r.spec_octets() == reported_hwaddr(req.reply_region()),
    {
        let sa = req.ifr_hwaddr();
        proof {
            req.lemma_sizes();
        }
        let a = to_unsigned(sa.sa_data[0]);
        let b = to_unsigned(sa.sa_data[1]);
        let c = to_unsigned(sa.sa_data[2]);
        let d = to_unsigned(sa.sa_data[3]);
        let e = to_unsigned(sa.sa_data[4]);
        let f = to_unsigned(sa.sa_data[5]);
        let r = HwAddr::new(a, b, c, d, e, f);
        proof {
            let reply = req.reply_region();
            assert forall|i: int| 0 <= i < 6 implies r.spec_octets()[i] == reply[i + 2] by {
                assert(as_signed8(r.spec_octets()[i]) == sa.sa_data@[i] as int);
                assert(sa.sa_data@[i] as int == as_signed8(reply[i + 2]));
            }
            assert(r.spec_octets() =~= reported_hwaddr(reply));
        }
        r
    }

    /// The outcome of a hardware-address request on interface `name`.
    ///
    /// `reply` is the block built for `name` and handed to the control call,
    /// `status` what the call returned, and `os_error` the operating
    /// system's error number after it. A name that does not fit the name
    /// field is `NameTooLong`, as no block can be built for it. A negative
    /// status is a failed call, reported as `SystemCallFailure` with that
    /// error number. Otherwise the address is read from the reply.
    pub fn new(name: String, status: i32, os_error: i32, reply: &IfReq) -> (r: Result<
        Iface,
        Error,
    >)
        requires
            encode_utf8(name@).len() < NAME_FIELD_LEN ==> reply.name_field() == padded_name(
                encode_utf8(name@),
            ),
        ensures
            r is Err <==> encode_utf8(name@).len() >= NAME_FIELD_LEN || status < 0,
            encode_utf8(name@).len() >= NAME_FIELD_LEN ==> r == Err::<Iface, Error>(
                Error::NameTooLong,
            ),
            encode_utf8(name@).len() < NAME_FIELD_LEN && status < 0 ==> r == Err::<Iface, Error>(
                Error::SystemCallFailure { code: os_error },
            ),
            r matches Ok(iface) ==> iface.name == name && iface.hwaddr.spec_octets()
                == reported_hwaddr(reply.reply_region()),
    {
        if name.as_str().as_bytes().len() >= NAME_FIELD_LEN {
            return Err(Error::NameTooLong);
        }
        if status < 0 {
            return Err(Error::SystemCallFailure { code: os_error });
        }
        let hwaddr = Iface::hwaddr_from_reply(reply);
        Ok(Iface { name, hwaddr })
    }
}

} // verus!
