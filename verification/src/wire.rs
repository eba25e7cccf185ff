//! The primitives of the wire format: variable-length integers, big-endian
//! integers, length-prefixed strings, and the frame around a packet.

use crate::operation::{from_bits, signed_bits, to_bits, unsigned_bits};
use crate::text::utf8_text;
use vstd::prelude::*;
use vstd::slice::slice_subrange;
use vstd::string::StringSliceAdditionalSpecFns;
use vstd::utf8::{encode_utf8, valid_utf8};

verus! {

/// Why a packet could not be read or handled.
#[derive(Clone, Copy, Debug, PartialEq, Eq, Structural)]
pub enum NetError {
    /// The connection could not be read.
    ReadFailed,
    /// No handshake arrived where one was due.
    HandshakeUnread,
    /// The client asked for a stage that does not exist.
    InvalidClient,
    /// No status packet arrived where one was due.
    StatusUnread,
    /// The bytes received do not make up what was expected.
    Malformed,
    /// The payload is too long for a packet.
    TooLong,
}

impl NetError {
    /// The message that goes with the error.
    pub fn message(&self) -> (s: &'static str)
        ensures
            s@ == match *self {
                NetError::ReadFailed => "Failed to read packet"@,
                NetError::HandshakeUnread => "Failed to read handshake packet"@,
                NetError::InvalidClient => "Invalid client"@,
                NetError::StatusUnread => "Failed to read status packet"@,
                NetError::Malformed => "Malformed packet"@,
                NetError::TooLong => "Packet too long"@,
            },
    {
        match self {
            NetError::ReadFailed => "Failed to read packet",
            NetError::HandshakeUnread => "Failed to read handshake packet",
            NetError::InvalidClient => "Invalid client",
            NetError::StatusUnread => "Failed to read status packet",
            NetError::Malformed => "Malformed packet",
            NetError::TooLong => "Packet too long",
        }
    }
}

/// Most bytes that a variable-length integer may take.
pub const VARINT_BYTES: u8 = 5;

/// The variable-length integer that starts at index `at` of `bytes` and
/// takes `limit` bytes at most, with the index behind it. Each byte carries
/// seven bits, the least significant group first; a set high bit says that
/// another byte follows.
pub open spec fn varint_at(bytes: Seq<u8>, at: int, limit: nat) -> Option<(int, int)>
    decreases limit,
{
    if limit == 0 || at < 0 || at >= bytes.len() {
        None
    } else if bytes[at] < 128 {
        Some((bytes[at] as int, at + 1))
    } else {
        match varint_at(bytes, at + 1, (limit - 1) as nat) {
            Some((rest, end)) => Some((bytes[at] - 128 + 128 * rest, end)),
            None => None,
        }
    }
}

/// The 32-bit value of the variable-length integer at `at`, with the index
/// behind it. Bits beyond the thirty-second are dropped.
pub open spec fn get_varint_spec(bytes: Seq<u8>, at: int) -> Option<(u32, int)> {
    match varint_at(bytes, at, VARINT_BYTES as nat) {
        Some((value, end)) => Some(((value % 0x1_0000_0000) as u32, end)),
        None => None,
    }
}

/// 128 to the power of `n`.
pub open spec fn pow128(n: nat) -> int
    decreases n,
{
    if n == 0 {
        1
    } else {
        128 * pow128((n - 1) as nat)
    }
}

/// Powers of 128 are positive.
pub proof fn lemma_pow128_positive(n: nat)
    ensures
        pow128(n) >= 1,
    decreases n,
{
    if n > 0 {
        lemma_pow128_positive((n - 1) as nat);
    }
}

/// A variable-length integer of `limit` bytes at most is below
/// `128^limit`, and ends inside the bytes, `limit` bytes at most behind its
/// start.
pub proof fn lemma_varint_bounds(bytes: Seq<u8>, at: int, limit: nat)
    ensures
        match varint_at(bytes, at, limit) {
            Some((value, end)) => 0 <= value < pow128(limit) && at < end <= at + limit && end
                <= bytes.len(),
            None => true,
        },
    decreases limit,
{
    if !(limit == 0 || at < 0 || at >= bytes.len()) {
        lemma_pow128_positive((limit - 1) as nat);
        if bytes[at] >= 128 {
            lemma_varint_bounds(bytes, at + 1, (limit - 1) as nat);
        }
    }
}

/// Reads a variable-length integer of `limit` bytes at most.
fn varint_from(bytes: &[u8], at: usize, limit: u8) -> (r: Option<(u64, usize)>)
    requires
        limit <= VARINT_BYTES,
    ensures
        match varint_at(bytes@, at as int, limit as nat) {
            Some((value, end)) => match r {
                Some((v, e)) => v == value && e == end && value < pow128(limit as nat) && end
                    <= bytes@.len(),
                None => false,
            },
            None => r.is_none(),
        },
    decreases limit,
{
    proof {
        lemma_varint_bounds(bytes@, at as int, limit as nat);
        reveal_with_fuel(pow128, 6);
    }
    if limit == 0 || at >= bytes.len() {
        return None;
    }
    let byte: u8 = bytes[at];
    if byte < 128 {
        Some((byte as u64, at + 1))
    } else {
        match varint_from(bytes, at + 1, limit - 1) {
            Some((rest, end)) => Some(((byte - 128) as u64 + 128 * rest, end)),
            None => None,
        }
    }
}

/// Reads the variable-length integer at index `at` of `bytes` and gives its
/// value with the index behind it.
pub fn get_varint(bytes: &[u8], at: usize) -> (r: Result<(u32, usize), NetError>)
    ensures
        match get_varint_spec(bytes@, at as int) {
            Some((value, end)) => match r {
                Ok((v, e)) => v == value && e == end && at < end <= bytes@.len(),
                Err(_) => false,
            },
            None => r == Err::<(u32, usize), NetError>(NetError::Malformed),
        },
{
    proof {
        lemma_varint_bounds(bytes@, at as int, VARINT_BYTES as nat);
        reveal_with_fuel(pow128, 6);
    }
    match varint_from(bytes, at, VARINT_BYTES) {
        Some((value, end)) => Ok(((value % 0x1_0000_0000) as u32, end)),
        None => Err(NetError::Malformed),
    }
}

/// The bytes of `value` as a variable-length integer.
pub open spec fn varint_bytes(value: int) -> Seq<u8>
    decreases value,
{
    if value < 128 {
        seq![value as u8]
    } else {
        seq![(value % 128 + 128) as u8] + varint_bytes(value / 128)
    }
}

/// A value below `128^n` takes `n` bytes at most, and one at least.
pub proof fn lemma_varint_bytes_len(value: int, n: nat)
    requires
        0 <= value < pow128(n),
        n >= 1,
    ensures
        1 <= varint_bytes(value).len() <= n,
    decreases n,
{
    reveal_with_fuel(pow128, 2);
    if value >= 128 {
        lemma_varint_bytes_len(value / 128, (n - 1) as nat);
    }
}

/// What was written as a variable-length integer is read back, whatever
/// stands before and behind it.
pub proof fn law_varint_round_trip(front: Seq<u8>, value: int, back: Seq<u8>, limit: nat)
    requires
        0 <= value < pow128(limit),
        limit >= 1,
    ensures
        varint_at(front + varint_bytes(value) + back, front.len() as int, limit) == Some(
            (value, (front.len() + varint_bytes(value).len()) as int),
        ),
    decreases limit,
{
    let all = front + varint_bytes(value) + back;
    let at = front.len() as int;
    if value < 128 {
        assert(all[at] == value as u8);
        assert(varint_bytes(value).len() == 1);
    } else {
        reveal_with_fuel(pow128, 2);
        let head = seq![(value % 128 + 128) as u8];
        assert(all[at] == (value % 128 + 128) as u8);
        assert(all =~= (front + head) + varint_bytes(value / 128) + back);
        law_varint_round_trip(front + head, value / 128, back, (limit - 1) as nat);
    }
}

/// Every 32-bit value is read back from the bytes written for it.
pub proof fn law_varint_round_trip_32(front: Seq<u8>, value: u32, back: Seq<u8>)
    ensures
        get_varint_spec(front + varint_bytes(value as int) + back, front.len() as int) == Some(
            (value, (front.len() + varint_bytes(value as int).len()) as int),
        ),
        1 <= varint_bytes(value as int).len() <= VARINT_BYTES,
{
    reveal_with_fuel(pow128, 6);
    law_varint_round_trip(front, value as int, back, VARINT_BYTES as nat);
    lemma_varint_bytes_len(value as int, VARINT_BYTES as nat);
}

/// Appends `value` to `out` as a variable-length integer.
pub fn write_varint(out: &mut Vec<u8>, value: u32)
    ensures
        final(out)@ == old(out)@ + varint_bytes(value as int),
{
    let mut rest: u32 = value;
    let ghost start = out@;
    while rest >= 128
        invariant
            start + varint_bytes(value as int) == out@ + varint_bytes(rest as int),
        decreases rest,
    {
        let ghost before = out@;
        out.push((rest % 128 + 128) as u8);
        assert(out@ + varint_bytes(rest as int / 128) =~= before + varint_bytes(rest as int));
        rest = rest / 128;
    }
    let ghost before = out@;
    out.push(rest as u8);
    assert(out@ =~= before + varint_bytes(rest as int));
}

/// The unsigned 16-bit integer that stands big-endian at index `at`, with
/// the index behind it.
pub open spec fn get_u16_spec(bytes: Seq<u8>, at: int) -> Option<(u16, int)> {
    if 0 <= at && at + 2 <= bytes.len() {
        Some(((bytes[at] * 0x100 + bytes[at + 1]) as u16, at + 2))
    } else {
        None
    }
}

/// Reads the big-endian unsigned 16-bit integer at index `at`.
pub fn get_u16(bytes: &[u8], at: usize) -> (r: Result<(u16, usize), NetError>)
    ensures
        match get_u16_spec(bytes@, at as int) {
            Some((value, end)) => match r {
                Ok((v, e)) => v == value && e == end,
                Err(_) => false,
            },
            None => r == Err::<(u16, usize), NetError>(NetError::Malformed),
        },
{
    if bytes.len() < 2 || at > bytes.len() - 2 {
        return Err(NetError::Malformed);
    }
    Ok(((bytes[at] as u16) * 0x100 + bytes[at + 1] as u16, at + 2))
}

/// The number that `bytes` spell, most significant byte first.
pub open spec fn number(bytes: Seq<u8>) -> int
    decreases bytes.len(),
{
    if bytes.len() == 0 {
        0
    } else {
        number(bytes.drop_last()) * 0x100 + bytes.last()
    }
}

/// The lowest `n` bytes of `value`, most significant first.
pub open spec fn number_bytes(value: int, n: nat) -> Seq<u8>
    decreases n,
{
    if n == 0 {
        Seq::empty()
    } else {
        number_bytes(value / 0x100, (n - 1) as nat).push((value % 0x100) as u8)
    }
}

/// 256 to the power of `n`.
pub open spec fn pow256(n: nat) -> int
    decreases n,
{
    if n == 0 {
        1
    } else {
        0x100 * pow256((n - 1) as nat)
    }
}

/// `n` bytes spell a number from 0 up to, but not including, `256^n`.
pub proof fn lemma_number_bounds(bytes: Seq<u8>)
    ensures
        0 <= number(bytes) < pow256(bytes.len()),
    decreases bytes.len(),
{
    if bytes.len() > 0 {
        lemma_number_bounds(bytes.drop_last());
    }
}

/// The bytes written for a number have the length asked for.
pub proof fn lemma_number_bytes_len(value: int, n: nat)
    ensures
        number_bytes(value, n).len() == n,
    decreases n,
{
    if n > 0 {
        lemma_number_bytes_len(value / 0x100, (n - 1) as nat);
    }
}

/// The bytes written for a number that fits into them spell that number.
pub proof fn law_number_round_trip(value: int, n: nat)
    requires
        0 <= value < pow256(n),
    ensures
        number(number_bytes(value, n)) == value,
    decreases n,
{
    if n > 0 {
        let bytes = number_bytes(value, n);
        assert(bytes.drop_last() =~= number_bytes(value / 0x100, (n - 1) as nat));
        law_number_round_trip(value / 0x100, (n - 1) as nat);
    }
}

/// The bytes written for the number that some bytes spell are those bytes.
pub proof fn law_number_bytes_of_number(bytes: Seq<u8>)
    ensures
        number_bytes(number(bytes), bytes.len()) == bytes,
    decreases bytes.len(),
{
    if bytes.len() > 0 {
        lemma_number_bounds(bytes.drop_last());
        law_number_bytes_of_number(bytes.drop_last());
        assert(number(bytes) / 0x100 == number(bytes.drop_last()));
        assert(number_bytes(number(bytes), bytes.len()) =~= bytes.drop_last().push(bytes.last()));
        assert(bytes.drop_last().push(bytes.last()) =~= bytes);
    } else {
        assert(number_bytes(number(bytes), bytes.len()) =~= bytes);
    }
}

/// The signed 64-bit integer that stands big-endian at index `at`, with the
/// index behind it.
pub open spec fn get_i64_spec(bytes: Seq<u8>, at: int) -> Option<(i64, int)> {
    if 0 <= at && at + 8 <= bytes.len() {
        Some((from_bits(number(bytes.subrange(at, at + 8)) as u64), at + 8))
    } else {
        None
    }
}

/// Reads the big-endian signed 64-bit integer at index `at`.
pub fn get_i64(bytes: &[u8], at: usize) -> (r: Result<(i64, usize), NetError>)
    ensures
        match get_i64_spec(bytes@, at as int) {
            Some((value, end)) => match r {
                Ok((v, e)) => v == value && e == end,
                Err(_) => false,
            },
            None => r == Err::<(i64, usize), NetError>(NetError::Malformed),
        },
{
    if bytes.len() < 8 || at > bytes.len() - 8 {
        return Err(NetError::Malformed);
    }
    let mut value: u64 = 0;
    let mut i: usize = 0;
    while i < 8
        invariant
            i <= 8,
            at + 8 <= bytes@.len() <= usize::MAX,
            value == number(bytes@.subrange(at as int, at + i)),
        decreases 8 - i,
    {
        proof {
            reveal_with_fuel(pow256, 9);
            lemma_number_bounds(bytes@.subrange(at as int, at + i));
            assert(bytes@.subrange(at as int, at + i + 1).drop_last() =~= bytes@.subrange(
                at as int,
                at + i,
            ));
        }
        value = value * 0x100 + bytes[at + i] as u64;
        i += 1;
    }
    Ok((signed_bits(value), at + 8))
}

/// The eight bytes of `value`, most significant first.
pub open spec fn i64_bytes(value: i64) -> Seq<u8> {
    number_bytes(to_bits(value) as int, 8)
}

/// Appends the eight bytes of `value` to `out`, most significant first.
pub fn write_i64(out: &mut Vec<u8>, value: i64)
    ensures
        final(out)@ == old(out)@ + i64_bytes(value),
{
    let mut rest: u64 = unsigned_bits(value);
    let mut bytes: [u8; 8] = [0u8;8];
    let mut left: usize = 8;
    while left > 0
        invariant
            left <= 8,
            number_bytes(to_bits(value) as int, 8) == number_bytes(rest as int, left as nat)
                + bytes@.subrange(left as int, 8),
        decreases left,
    {
        let ghost before = bytes@;
        left -= 1;
        bytes[left] = (rest % 0x100) as u8;
        proof {
            assert(number_bytes(rest as int, (left + 1) as nat) + before.subrange(left + 1, 8)
                =~= number_bytes(rest as int / 0x100, left as nat) + bytes@.subrange(
                left as int,
                8,
            ));
        }
        rest = rest / 0x100;
    }
    assert(bytes@.subrange(0, 8) =~= bytes@);
    assert(number_bytes(rest as int, 0) + bytes@ =~= bytes@);
    append(out, bytes.as_slice());
}

/// What was written as a 64-bit integer is read back, whatever stands
/// before and behind it.
pub proof fn law_i64_round_trip(front: Seq<u8>, value: i64, back: Seq<u8>)
    ensures
        get_i64_spec(front + i64_bytes(value) + back, front.len() as int) == Some(
            (value, (front.len() + 8) as int),
        ),
{
    let all = front + i64_bytes(value) + back;
    let at = front.len() as int;
    reveal_with_fuel(pow256, 9);
    lemma_number_bytes_len(to_bits(value) as int, 8);
    law_number_round_trip(to_bits(value) as int, 8);
    assert(all.subrange(at, at + 8) =~= i64_bytes(value));
}

/// The eight bytes from which a 64-bit integer was read are the bytes that
/// are written for it.
pub proof fn law_i64_bytes_of_read(bytes: Seq<u8>, at: int)
    requires
        0 <= at,
        at + 8 <= bytes.len(),
    ensures
        i64_bytes(get_i64_spec(bytes, at).unwrap().0) == bytes.subrange(at, at + 8),
{
    reveal_with_fuel(pow256, 9);
    let word = bytes.subrange(at, at + 8);
    lemma_number_bounds(word);
    law_number_bytes_of_number(word);
}

/// Appends `bytes` to `out`.
pub fn append(out: &mut Vec<u8>, bytes: &[u8])
    ensures
        final(out)@ == old(out)@ + bytes@,
{
    let mut i: usize = 0;
    while i < bytes.len()
        invariant
            i <= bytes@.len(),
            out@ == old(out)@ + bytes@.subrange(0, i as int),
        decreases bytes@.len() - i,
    {
        out.push(bytes[i]);
        i += 1;
        assert(out@ =~= old(out)@ + bytes@.subrange(0, i as int));
    }
    assert(bytes@.subrange(0, i as int) =~= bytes@);
}

/// The bytes of the string that starts at index `at`, with the index behind
/// it: a variable-length integer gives the number of bytes, and that many
/// bytes of valid UTF-8 follow.
pub open spec fn get_string_spec(bytes: Seq<u8>, at: int) -> Option<(Seq<u8>, int)> {
    match get_varint_spec(bytes, at) {
        Some((len, start)) => if start + len <= bytes.len() && valid_utf8(
            bytes.subrange(start, start + len),
        ) {
            Some((bytes.subrange(start, start + len), start + len))
        } else {
            None
        },
        None => None,
    }
}

/// Reads the string at index `at`.
pub fn get_string(bytes: &[u8], at: usize) -> (r: Result<(String, usize), NetError>)
    ensures
        match get_string_spec(bytes@, at as int) {
            Some((text, end)) => match r {
                Ok((read, behind)) => encode_utf8(read@) == text && behind == end,
                Err(_) => false,
            },
            None => r.is_err() && r.unwrap_err() == NetError::Malformed,
        },
{
    let (len, start) = match get_varint(bytes, at) {
        Ok(read) => read,
        Err(e) => {
            return Err(e);
        },
    };
    if len as u64 > (bytes.len() - start) as u64 {
        return Err(NetError::Malformed);
    }
    let end: usize = start + len as usize;
    match utf8_text(slice_subrange(bytes, start, end)) {
        Some(text) => Ok((text, end)),
        None => Err(NetError::Malformed),
    }
}

/// The bytes that stand for the string `text`: its length in bytes as a
/// variable-length integer, then its bytes.
pub open spec fn string_bytes(text: Seq<u8>) -> Seq<u8> {
    varint_bytes(text.len() as int) + text
}

/// Appends the string `text` to `out`, unless it is too long to have its
/// length written.
pub fn write_string(out: &mut Vec<u8>, text: &str) -> (r: Result<(), NetError>)
    ensures
        text.spec_bytes().len() <= u32::MAX ==> r.is_ok() && final(out)@ == old(out)@
            + string_bytes(text.spec_bytes()),
        text.spec_bytes().len() > u32::MAX ==> r == Err::<(), NetError>(NetError::TooLong)
            && final(out)@ == old(out)@,
{
    let bytes = text.as_bytes();
    if bytes.len() as u64 > u32::MAX as u64 {
        return Err(NetError::TooLong);
    }
    write_varint(out, bytes.len() as u32);
    append(out, bytes);
    assert(out@ =~= old(out)@ + string_bytes(text.spec_bytes()));
    Ok(())
}

/// A string that was written is read back, whatever stands before and
/// behind it.
pub proof fn law_string_round_trip(front: Seq<u8>, text: Seq<u8>, back: Seq<u8>)
    requires
        valid_utf8(text),
        text.len() <= u32::MAX,
    ensures
        get_string_spec(front + string_bytes(text) + back, front.len() as int) == Some(
            (text, (front.len() + string_bytes(text).len()) as int),
        ),
{
    let all = front + string_bytes(text) + back;
    assert(all =~= front + varint_bytes(text.len() as int) + (text + back));
    law_varint_round_trip_32(front, text.len() as u32, text + back);
    let start = (front.len() + varint_bytes(text.len() as int).len()) as int;
    assert(all.subrange(start, start + text.len()) =~= text);
}

/// Length and kind of the packet that starts at index `at`, with the index
/// behind them: two variable-length integers.
pub open spec fn read_base_spec(bytes: Seq<u8>, at: int) -> Option<(u32, u32, int)> {
    match get_varint_spec(bytes, at) {
        Some((length, next)) => match get_varint_spec(bytes, next) {
            Some((id, end)) => Some((length, id, end)),
            None => None,
        },
        None => None,
    }
}

/// Reads the length and the kind of the packet at index `at`.
pub fn read_base(bytes: &[u8], at: usize) -> (r: Result<(u32, u32, usize), NetError>)
    ensures
        match read_base_spec(bytes@, at as int) {
            Some((length, id, end)) => match r {
                Ok((l, i, e)) => l == length && i == id && e == end && at < end <= bytes@.len(),
                Err(_) => false,
            },
            None => r == Err::<(u32, u32, usize), NetError>(NetError::Malformed),
        },
{
    let (length, next) = match get_varint(bytes, at) {
        Ok(read) => read,
        Err(e) => {
            return Err(e);
        },
    };
    match get_varint(bytes, next) {
        Ok((id, end)) => Ok((length, id, end)),
        Err(e) => Err(e),
    }
}

/// The packet of kind `id` around `payload`: the number of bytes that
/// follow, the kind, the payload.
pub open spec fn packet_bytes(payload: Seq<u8>, id: u32) -> Seq<u8> {
    varint_bytes((varint_bytes(id as int).len() + payload.len()) as int) + varint_bytes(id as int)
        + payload
}

/// Frames `payload` as a packet of kind `id`, unless it is too long to have
/// its length written.
pub fn create_packet(payload: &[u8], id: u32) -> (r: Result<Vec<u8>, NetError>)
    ensures
        payload@.len() + varint_bytes(id as int).len() <= u32::MAX ==> r.is_ok() && r.unwrap()@
            == packet_bytes(payload@, id),
        payload@.len() + varint_bytes(id as int).len() > u32::MAX ==> r.is_err()
            && r.unwrap_err() == NetError::TooLong,
{
    let mut kind: Vec<u8> = Vec::new();
    write_varint(&mut kind, id);
    proof {
        law_varint_round_trip_32(Seq::empty(), id, Seq::empty());
        assert(kind@ =~= varint_bytes(id as int));
    }
    if payload.len() as u64 > u32::MAX as u64 - kind.len() as u64 {
        return Err(NetError::TooLong);
    }
    let mut packet: Vec<u8> = Vec::new();
    write_varint(&mut packet, (kind.len() + payload.len()) as u32);
    append(&mut packet, kind.as_slice());
    append(&mut packet, payload);
    assert(packet@ =~= packet_bytes(payload@, id));
    Ok(packet)
}

/// The frame of a packet is read back as its length and kind, and the
/// length counts the bytes from the kind on.
pub proof fn law_packet_round_trip(payload: Seq<u8>, id: u32, back: Seq<u8>)
    requires
        payload.len() + varint_bytes(id as int).len() <= u32::MAX,
    ensures
        ({
            let frame = varint_bytes((varint_bytes(id as int).len() + payload.len()) as int);
            let kind = varint_bytes(id as int);
            &&& read_base_spec(packet_bytes(payload, id) + back, 0) == Some(
                ((kind.len() + payload.len()) as u32, id, (frame.len() + kind.len()) as int),
            )
            &&& packet_bytes(payload, id).len() == frame.len() + kind.len() + payload.len()
        }),
{
    let length = (varint_bytes(id as int).len() + payload.len()) as u32;
    let frame = varint_bytes(length as int);
    let kind = varint_bytes(id as int);
    let all = packet_bytes(payload, id) + back;
    assert(all =~= Seq::<u8>::empty() + frame + (kind + payload + back));
    law_varint_round_trip_32(Seq::empty(), length, kind + payload + back);
    assert(all =~= frame + kind + (payload + back));
    law_varint_round_trip_32(frame, id, payload + back);
}

} // verus!
