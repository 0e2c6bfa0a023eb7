//! The interface-control block handed to the kernel to name an interface and
//! to receive its reply.
//!
//! The block is a name field followed by a reply region. The kernel writes
//! its answer into the reply region, which it shapes either as a socket
//! address or as a 32-bit integer depending on the request: the block itself
//! does not record which, so the caller picks the matching decoder.
use vstd::prelude::*;

use vstd::string::StringSliceAdditionalSpecFns;

use crate::error::Error;

verus! {

/// Size of the name field, terminating zero included: the kernel's
/// interface-name size on Linux.
pub const NAME_FIELD_LEN: usize = 16;

/// Size of the reply region that follows the name field.
pub const REPLY_LEN: usize = 24;

/// Number of data bytes in a socket address.
pub const SOCKADDR_DATA_LEN: usize = 14;

/// The name field for `name`: its bytes, then zeros up to the field size.
pub open spec fn padded_name(name: Seq<u8>) -> Seq<u8> {
    name + Seq::new((NAME_FIELD_LEN - name.len()) as nat, |i: int| 0u8)
}

/// Reading back the name field built for a name that fits gives the name's
/// bytes, then zeros to the end of the field.
pub proof fn lemma_name_reads_back(name: Seq<u8>)
    requires
        name.len() < NAME_FIELD_LEN,
    ensures
        padded_name(name).len() == NAME_FIELD_LEN,
        padded_name(name).subrange(0, name.len() as int) == name,
        forall|j: int| name.len() <= j < NAME_FIELD_LEN ==> #[trigger] padded_name(name)[j] == 0,
{
    assert(padded_name(name).subrange(0, name.len() as int) =~= name);
}

/// A reply region that holds nothing but zeros.
pub open spec fn zero_reply() -> Seq<u8> {
    Seq::new(REPLY_LEN as nat, |i: int| 0u8)
}

/// The unsigned big-endian reading of two bytes.
pub open spec fn be16(hi: u8, lo: u8) -> int {
    hi as int * 256 + lo as int
}

/// The unsigned big-endian reading of four bytes.
pub open spec fn be32(b0: u8, b1: u8, b2: u8, b3: u8) -> int {
    b0 as int * 0x100_0000 + b1 as int * 0x1_0000 + b2 as int * 0x100 + b3 as int
}

/// The two's-complement value of a 32-bit pattern.
pub open spec fn as_signed32(v: int) -> int {
    if v < 0x8000_0000 {
        v
    } else {
        v - 0x1_0000_0000
    }
}

/// The two's-complement value of an 8-bit pattern.
pub open spec fn as_signed8(b: u8) -> int {
    if b < 128 {
        b as int
    } else {
        b as int - 256
    }
}

/// A generic socket address: a family tag and fourteen raw data bytes.
#[derive(Debug, Clone, Copy, PartialEq, Eq)]
pub struct SockAddr {
    pub sa_family: u16,
    pub sa_data: [i8; 14],
}

/// An interface-control block: a zero-padded interface name followed by the
/// reply region that the kernel fills in.
pub struct IfReq {
    ifr_name: [u8; 16],
    reply: [u8; 24],
}

/// The bit pattern of `b` read as a signed byte.
fn to_signed(b: u8) -> (r: i8)
    ensures
        r as int == as_signed8(b),
{
    if b < 128 {
        b as i8
    } else {
        (b as i16 - 256) as i8
    }
}

impl Default for IfReq {
    /// A block whose name field and reply region hold nothing but zeros.
    fn default() -> (r: IfReq)
        ensures
            r.name_field() == Seq::new(NAME_FIELD_LEN as nat, |i: int| 0u8),
            r.reply_region() == zero_reply(),
    {
        let r = IfReq { ifr_name: [0u8; 16], reply: [0u8; 24] };
        assert(r.name_field() =~= Seq::new(NAME_FIELD_LEN as nat, |i: int| 0u8));
        assert(r.reply_region() =~= zero_reply());
        r
    }
}

impl IfReq {
    /// The name field, byte by byte.
    pub closed spec fn name_field(&self) -> Seq<u8> {
        self.ifr_name@
    }

    /// The reply region, byte by byte.
    pub closed spec fn reply_region(&self) -> Seq<u8> {
        self.reply@
    }

    /// The two fields always have their fixed sizes.
    pub proof fn lemma_sizes(&self)
        ensures
            self.name_field().len() == NAME_FIELD_LEN,
            self.reply_region().len() == REPLY_LEN,
    {
    }

    /// Create an interface request with the interface name set and the reply
    /// region zeroed. Fails with `NameTooLong` when the name, in bytes, does
    /// not leave room for the terminating zero.
    pub fn with_if_name(if_name: &str) -> (r: Result<IfReq, Error>)
        ensures
            r is Err <==> if_name.spec_bytes().len() >= NAME_FIELD_LEN,
            r is Err ==> r == Err::<IfReq, Error>(Error::NameTooLong),
            r matches Ok(q) ==> q.name_field() == padded_name(if_name.spec_bytes())
                && q.reply_region() == zero_reply(),
    {
        let bytes = if_name.as_bytes();
        if bytes.len() >= NAME_FIELD_LEN {
            return Err(Error::NameTooLong);
        }
        let mut q = IfReq::default();
        let n = bytes.len();
        let mut i: usize = 0;
        while i < n
            invariant
                n == bytes@.len(),
                n < NAME_FIELD_LEN,
                i <= n,
                q.ifr_name@.len() == NAME_FIELD_LEN,
                q.reply_region() == zero_reply(),
                forall|j: int| 0 <= j < i ==> q.ifr_name@[j] == bytes@[j],
                forall|j: int| i <= j < NAME_FIELD_LEN ==> q.ifr_name@[j] == 0,
            decreases n - i,
        {
            q.ifr_name[i] = bytes[i];
            i = i + 1;
        }
        assert(q.name_field() =~= padded_name(if_name.spec_bytes()));
        assert(q.reply_region() =~= zero_reply());
        Ok(q)
    }

    /// Whether this block was built for `name`: either the name does not fit
    /// the name field, or the field holds exactly its bytes and padding.
    pub fn is_for(&self, name: &str) -> (r: bool)
        ensures
            r == (name.spec_bytes().len() < NAME_FIELD_LEN ==> self.name_field() == padded_name(
                name.spec_bytes(),
            )),
    {
        let bytes = name.as_bytes();
        let n = bytes.len();
        if n >= NAME_FIELD_LEN {
            return true;
        }
        let mut i: usize = 0;
        while i < NAME_FIELD_LEN
            invariant
                bytes@ == name.spec_bytes(),
                n == bytes@.len(),
                n < NAME_FIELD_LEN,
                i <= NAME_FIELD_LEN,
                self.ifr_name@.len() == NAME_FIELD_LEN,
                forall|j: int| 0 <= j < i ==> self.ifr_name@[j] == padded_name(bytes@)[j],
            decreases NAME_FIELD_LEN - i,
        {
            let expected: u8 = if i < n {
                bytes[i]
            } else {
                0
            };
            if self.ifr_name[i] != expected {
                assert(self.name_field()[i as int] != padded_name(bytes@)[i as int]);
                return false;
            }
            i = i + 1;
        }
        assert(self.name_field() =~= padded_name(bytes@));
        true
    }

    /// The name field as it is handed to the kernel.
    pub fn name_bytes(&self) -> (r: [u8; 16])
        ensures
            r@ == self.name_field(),
    {
        self.ifr_name
    }

    /// The reply region as it stands.
    pub fn reply_bytes(&self) -> (r: [u8; 24])
        ensures
            r@ == self.reply_region(),
    {
        self.reply
    }

    /// Overwrite the reply region, as the kernel does in place during a
    /// control call. The name field is left alone.
    pub fn set_reply(&mut self, reply: [u8; 24])
        ensures
            final(self).name_field() == old(self).name_field(),
            final(self).reply_region() == reply@,
    {
        self.reply = reply;
    }

    /// The reply region read as a socket address: bytes 0 and 1 are the
    /// family tag in big-endian order, bytes 2 to 15 the data bytes, each
    /// kept bit for bit as a signed byte.
    pub fn ifr_hwaddr(&self) -> (r: SockAddr)
        ensures
            r.sa_family as int == be16(self.reply_region()[0], self.reply_region()[1]),
            r.sa_data@.len() == SOCKADDR_DATA_LEN,
            forall|i: int|
                0 <= i < SOCKADDR_DATA_LEN ==> r.sa_data@[i] as int == as_signed8(
                    #[trigger] self.reply_region()[i + 2],
                ),
    {
        let sa_family: u16 = (self.reply[0] as u16) * 256 + (self.reply[1] as u16);
        let mut sa_data: [i8; 14] = [0i8; 14];
        let mut i: usize = 0;
        while i < SOCKADDR_DATA_LEN
            invariant
                i <= SOCKADDR_DATA_LEN,
                sa_data@.len() == SOCKADDR_DATA_LEN,
                self.reply@.len() == REPLY_LEN,
                forall|j: int|
                    0 <= j < i ==> sa_data@[j] as int == as_signed8(#[trigger] self.reply@[j + 2]),
            decreases SOCKADDR_DATA_LEN - i,
        {
            sa_data[i] = to_signed(self.reply[i + 2]);
            i = i + 1;
        }
        SockAddr { sa_family, sa_data }
    }

    /// The reply region read as an integer: bytes 0 to 3 in big-endian
    /// order, whatever the host's own byte order.
    pub fn ifr_ifindex(&self) -> (r: i32)
        ensures
            r as int == as_signed32(
                be32(
                    self.reply_region()[0],
                    self.reply_region()[1],
                    self.reply_region()[2],
                    self.reply_region()[3],
                ),
            ),
    {
        let v: u32 = (self.reply[0] as u32) * 0x100_0000 + (self.reply[1] as u32) * 0x1_0000
            + (self.reply[2] as u32) * 0x100 + (self.reply[3] as u32);
        if v < 0x8000_0000 {
            v as i32
        } else {
            (v as i64 - 0x1_0000_0000) as i32
        }
    }
}

} // verus!
