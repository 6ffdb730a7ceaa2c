//! The Wake-on-LAN packet and its construction.

use vstd::prelude::*;
use vstd::string::StrSliceExecFns;

use crate::{Error, MAC_PER_MAGIC, MAC_SIZE};
use crate::codec::{
    all_hex, check_hex_digit, first_non_hex_at, hex_decode_digits, is_hex_digit, spec_hex_decode,
    strip_separator,
};

verus! {

/// `p` is the magic-packet payload for the six-byte MAC address `mac`:
/// 102 bytes, opening with six bytes of `0xFF`, followed by `mac`
/// repeated sixteen times.
pub open spec fn is_magic_packet(p: Seq<u8>, mac: Seq<u8>) -> bool {
    &&& p.len() == 102
    &&& forall|i: int| 0 <= i < 6 ==> p[i] == 0xFF
    &&& forall|i: int, j: int| 0 <= i < 16 && 0 <= j < 6 ==> #[trigger] p[6 + 6 * i + j] == mac[j]
}

/// `s` concatenated with itself `n` times.
pub(crate) open spec fn repeat_seq(s: Seq<u8>, n: nat) -> Seq<u8>
    decreases n,
{
    if n == 0 {
        Seq::empty()
    } else {
        repeat_seq(s, (n - 1) as nat) + s
    }
}

proof fn lemma_repeat_seq_len(s: Seq<u8>, n: nat)
    ensures
        repeat_seq(s, n).len() == n * s.len(),
    decreases n,
{
    if n > 0 {
        lemma_repeat_seq_len(s, (n - 1) as nat);
        assert(repeat_seq(s, n).len() == (n - 1) * s.len() + s.len());
        assert((n - 1) * s.len() + s.len() == n * s.len()) by (nonlinear_arith);
    } else {
        assert(n * s.len() == 0) by (nonlinear_arith)
            requires
                n == 0,
        ;
    }
}

proof fn lemma_repeat_seq_index(s: Seq<u8>, n: nat, a: int, b: int)
    requires
        0 <= a < n,
        0 <= b < s.len(),
    ensures
        repeat_seq(s, n)[a * s.len() + b] == s[b],
    decreases n,
{
    let slen = s.len() as int;
    lemma_repeat_seq_len(s, (n - 1) as nat);
    if a == n - 1 {
        assert(a * slen + b - repeat_seq(s, (n - 1) as nat).len() == b);
    } else {
        lemma_repeat_seq_index(s, (n - 1) as nat, a, b);
        assert(a * slen + b < (n - 1) * slen) by (nonlinear_arith)
            requires
                0 <= a,
                a <= n - 2,
                0 <= b,
                b < slen,
        ;
    }
}

/// Wake-on-LAN packet.
pub struct WolPacket {
    /// WOL packet bytes.
    packet: Vec<u8>,
}

impl View for WolPacket {
    type V = Seq<u8>;

    closed spec fn view(&self) -> Seq<u8> {
        self.packet@
    }
}

impl WolPacket {
    /// Extends the MAC address to fill the magic packet: the sixteen
    /// back-to-back copies that follow the packet header.
    pub fn extend_mac(mac: &[u8]) -> (r: Vec<u8>)
        ensures
            r@.len() == 16 * mac@.len(),
            forall|i: int, j: int|
                0 <= i < 16 && 0 <= j < mac@.len() ==> #[trigger] r@[i * mac@.len() + j]
                    == mac@[j],
    {
        let len = mac.len();
        let mut out: Vec<u8> = Vec::new();
        let mut i: usize = 0;
        while i < MAC_PER_MAGIC
            invariant
                i <= 16,
                len == mac@.len(),
                out@ == repeat_seq(mac@, i as nat),
            decreases 16 - i,
        {
            let mut j: usize = 0;
            while j < len
                invariant
                    i < 16,
                    j <= len,
                    len == mac@.len(),
                    out@ == repeat_seq(mac@, i as nat) + mac@.take(j as int),
                decreases len - j,
            {
                out.push(mac[j]);
                proof {
                    assert((repeat_seq(mac@, i as nat) + mac@.take(j as int)).push(
                        mac@[j as int],
                    ) =~= repeat_seq(mac@, i as nat) + mac@.take(j as int + 1));
                }
                j += 1;
            }
            proof {
                assert(mac@.take(len as int) =~= mac@);
                assert(repeat_seq(mac@, (i + 1) as nat) == repeat_seq(mac@, i as nat) + mac@);
            }
            i += 1;
        }
        proof {
            lemma_repeat_seq_len(mac@, 16);
            assert forall|a: int, b: int| 0 <= a < 16 && 0 <= b < mac@.len() implies #[trigger] out@[a
                * mac@.len() + b] == mac@[b] by {
                lemma_repeat_seq_index(mac@, 16, a, b);
            }
        }
        out
    }

    /// Creates the bytes of the magic packet from a MAC address: a header
    /// of six `0xFF` bytes, then the address repeated sixteen times.
    pub fn create_packet_bytes(mac: &[u8]) -> (r: Vec<u8>)
        ensures
            r@.len() == 6 + 16 * mac@.len(),
            forall|i: int| 0 <= i < 6 ==> r@[i] == 0xFF,
            forall|i: int, j: int|
                0 <= i < 16 && 0 <= j < mac@.len() ==> #[trigger] r@[6 + i * mac@.len() + j]
                    == mac@[j],
    {
        let mut packet: Vec<u8> = Vec::new();
        let mut k: usize = 0;
        while k < MAC_SIZE
            invariant
                k <= 6,
                packet@.len() == k,
                forall|i: int| 0 <= i < k ==> packet@[i] == 0xFF,
            decreases 6 - k,
        {
            packet.push(0xFF);
            k += 1;
        }
        let mut tail = WolPacket::extend_mac(mac);
        proof {
            assert forall|i: int, j: int| 0 <= i < 16 && 0 <= j < mac@.len() implies #[trigger] (
            packet@ + tail@)[6 + i * mac@.len() + j] == mac@[j] by {
                assert(0 <= i * mac@.len() + j < 16 * mac@.len()) by (nonlinear_arith)
                    requires
                        0 <= i < 16,
                        0 <= j < mac@.len(),
                ;
                assert(tail@[i * mac@.len() + j] == mac@[j]);
            }
        }
        packet.append(&mut tail);
        packet
    }

    /// Creates a WOL packet from the byte representation of a MAC address.
    /// Exactly six bytes are accepted; any other length is rejected.
    pub fn from_bytes(mac: &[u8]) -> (r: Result<WolPacket, Error>)
        ensures
            mac@.len() == 6 ==> (r matches Ok(w) && is_magic_packet(w@, mac@)),
            mac@.len() != 6 ==> r matches Err(Error::InvalidHexArrayLength),
    {
        if mac.len() == MAC_SIZE {
            let packet = WolPacket::create_packet_bytes(mac);
            proof {
                assert forall|i: int, j: int| 0 <= i < 16 && 0 <= j < 6 implies #[trigger] packet@[6
                    + 6 * i + j] == mac@[j] by {
                    assert(packet@[6 + i * (mac@.len() as int) + j] == mac@[j]);
                }
            }
            Ok(WolPacket { packet })
        } else {
            Err(Error::InvalidHexArrayLength)
        }
    }

    /// Converts the string representation of a MAC address to raw bytes.
    /// Every occurrence of `sep` is stripped, wherever it stands; the
    /// remaining characters are decoded as hexadecimal and must yield
    /// exactly six bytes.
    pub fn mac_to_byte(data: &str, sep: char) -> (r: Result<Vec<u8>, Error>)
        ensures
            ({
                let t = strip_separator(data@, sep);
                &&& (t.len() % 2 != 0 ==> r matches Err(Error::InvalidHexStringLength))
                &&& (t.len() % 2 == 0 && !all_hex(t) ==> (r matches Err(Error::Hex { c, index })
                    && first_non_hex_at(t, c, index)))
                &&& (t.len() % 2 == 0 && all_hex(t) && t.len() != 12 ==> r matches Err(
                Error::InvalidHexStringLength))
                &&& (t.len() % 2 == 0 && all_hex(t) && t.len() == 12 ==> (r matches Ok(v) && v@
                    == spec_hex_decode(t)))
            }),
    {
        let n = data.unicode_len();
        let mut stripped: Vec<char> = Vec::new();
        let mut i: usize = 0;
        while i < n
            invariant
                n == data@.len(),
                i <= n,
                stripped@ == strip_separator(data@.take(i as int), sep),
            decreases n - i,
        {
            let c = data.get_char(i);
            proof {
                let t0 = data@.take(i as int);
                let e = data@[i as int];
                assert(data@.take(i as int + 1) =~= t0.push(e));
                assert(t0.push(e).drop_last() =~= t0);
                assert(strip_separator(t0.push(e), sep) == if e != sep {
                    strip_separator(t0, sep).push(e)
                } else {
                    strip_separator(t0, sep)
                });
            }
            if c != sep {
                stripped.push(c);
            }
            i += 1;
        }
        proof {
            assert(data@.take(n as int) =~= data@);
        }
        if stripped.len() % 2 != 0 {
            return Err(Error::InvalidHexStringLength);
        }
        let mut j: usize = 0;
        while j < stripped.len()
            invariant
                j <= stripped@.len(),
                stripped@ == strip_separator(data@, sep),
                stripped@.len() % 2 == 0,
                forall|k: int| 0 <= k < j ==> is_hex_digit(stripped@[k]),
            decreases stripped@.len() - j,
        {
            let c = stripped[j];
            if !check_hex_digit(c) {
                return Err(Error::Hex { c, index: j });
            }
            j += 1;
        }
        let decoded = hex_decode_digits(&stripped);
        if decoded.len() != MAC_SIZE {
            return Err(Error::InvalidHexStringLength);
        }
        Ok(decoded)
    }

    /// Creates a WOL packet from the string representation of a MAC
    /// address (e.g. `00:01:02:03:04:05`).
    pub fn from_string(data: &str, sep: char) -> (r: Result<WolPacket, Error>)
        ensures
            ({
                let t = strip_separator(data@, sep);
                &&& (t.len() % 2 != 0 ==> r matches Err(Error::InvalidHexStringLength))
                &&& (t.len() % 2 == 0 && !all_hex(t) ==> (r matches Err(Error::Hex { c, index })
                    && first_non_hex_at(t, c, index)))
                &&& (t.len() % 2 == 0 && all_hex(t) && t.len() != 12 ==> r matches Err(
                Error::InvalidHexStringLength))
                &&& (t.len() % 2 == 0 && all_hex(t) && t.len() == 12 ==> (r matches Ok(w)
                    && is_magic_packet(w@, spec_hex_decode(t))))
            }),
    {
        match WolPacket::mac_to_byte(data, sep) {
            Ok(bytes) => WolPacket::from_bytes(bytes.as_slice()),
            Err(e) => Err(e),
        }
    }

    /// The 102 bytes of the packet, ready to be sent as one datagram.
    pub fn payload(&self) -> (r: &Vec<u8>)
        ensures
            r@ == self@,
    {
        &self.packet
    }
}

} // verus!

