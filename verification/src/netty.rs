//! The wire format of the Minecraft side: VarInts, strings, longs and length-prefixed packets.

use vstd::prelude::*;
use vstd::utf8::encode_utf8;

verus! {

/// The most bytes a VarInt may take.
pub const MAX_VARINT_BYTES: usize = 5;

/// Why a value could not be read from the front of a packet.
#[derive(Clone, Copy, Debug, PartialEq, Eq, Structural)]
pub enum ReadError {
    /// The bytes end inside the value.
    UnexpectedEnd,
    /// A VarInt goes on past its fifth byte.
    VarIntTooLong,
}

/// What a player came for.
#[derive(Clone, Copy, Debug, PartialEq, Eq, Structural)]
pub enum HandshakeType {
    /// The entry in the server list.
    Status,
    /// The game.
    Login,
}

/// The 32 bits of `value`, read as an unsigned number.
pub open spec fn unsigned(value: i32) -> nat {
    if value < 0 {
        (value + 0x1_0000_0000) as nat
    } else {
        value as nat
    }
}

/// The low 32 bits of `bits`, read as a signed number.
pub open spec fn signed(bits: nat) -> i32 {
    let low = bits % 0x1_0000_0000;
    if low < 0x8000_0000 {
        low as i32
    } else {
        (low - 0x1_0000_0000) as i32
    }
}

/// `bits` in groups of seven, lowest group first; every byte but the last has its top bit set.
pub open spec fn varint_bytes(bits: nat) -> Seq<u8>
    decreases bits,
{
    if bits < 128 {
        seq![bits as u8]
    } else {
        seq![(bits % 128 + 128) as u8] + varint_bytes(bits / 128)
    }
}

/// The number that the low seven bits of `bytes` spell, lowest group first.
pub open spec fn varint_value(bytes: Seq<u8>) -> nat
    decreases bytes.len(),
{
    if bytes.len() == 0 {
        0
    } else {
        bytes[0] as nat % 128 + 128 * varint_value(bytes.drop_first())
    }
}

/// How many bytes at the front of `bytes` have their top bit set.
pub open spec fn continued(bytes: Seq<u8>) -> nat
    decreases bytes.len(),
{
    if bytes.len() == 0 || bytes[0] < 128 {
        0
    } else {
        1 + continued(bytes.drop_first())
    }
}

/// What reading a VarInt from the front of `bytes` gives: the value and how many bytes it took.
pub open spec fn parse_varint(bytes: Seq<u8>) -> Result<(i32, nat), ReadError> {
    let run = continued(bytes);
    if run >= MAX_VARINT_BYTES {
        Err(ReadError::VarIntTooLong)
    } else if run == bytes.len() {
        Err(ReadError::UnexpectedEnd)
    } else {
        Ok((signed(varint_value(bytes.take(run as int + 1))), run + 1))
    }
}

/// `value` in `count` bytes, highest byte first.
pub open spec fn big_endian(value: nat, count: nat) -> Seq<u8>
    decreases count,
{
    if count == 0 {
        Seq::empty()
    } else {
        big_endian(value / 256, (count - 1) as nat).push((value % 256) as u8)
    }
}

/// The number that `bytes` spell, highest byte first.
pub open spec fn big_endian_value(bytes: Seq<u8>) -> nat
    decreases bytes.len(),
{
    if bytes.len() == 0 {
        0
    } else {
        256 * big_endian_value(bytes.drop_last()) + bytes.last() as nat
    }
}

/// A length as the wire carries it: the low 32 bits, as a VarInt.
pub open spec fn length_bytes(len: nat) -> Seq<u8> {
    varint_bytes(len % 0x1_0000_0000)
}

/// A string on the wire: its length in UTF-8 bytes, then those bytes.
pub open spec fn string_bytes(text: Seq<char>) -> Seq<u8> {
    length_bytes(encode_utf8(text).len()) + encode_utf8(text)
}

/// A packet on the wire: the length of its body, then the body.
pub open spec fn packet_bytes(body: Seq<u8>) -> Seq<u8> {
    length_bytes(body.len()) + body
}

/// The 32 bits of `value`, as an unsigned number.
pub fn to_unsigned(value: i32) -> (bits: u32)
    ensures
        bits == unsigned(value),
{
    if value < 0 {
        (value as i64 + 0x1_0000_0000) as u32
    } else {
        value as u32
    }
}

/// The low 32 bits of `bits`, as a signed number.
fn to_signed(bits: u64) -> (value: i32)
    ensures
        value == signed(bits as nat),
{
    let low: u64 = bits % 0x1_0000_0000;
    if low < 0x8000_0000 {
        low as i32
    } else {
        (low as i64 - 0x1_0000_0000) as i32
    }
}

/// Appends `value` to `buf` as a VarInt.
pub fn write_varint(buf: &mut Vec<u8>, value: i32)
    ensures
        final(buf)@ == old(buf)@ + varint_bytes(unsigned(value)),
{
    let mut rest: u32 = to_unsigned(value);
    while rest >= 128
        invariant
            buf@ + varint_bytes(rest as nat) == old(buf)@ + varint_bytes(unsigned(value)),
        decreases rest,
    {
        let ghost before = buf@;
        let ghost bits = rest as nat;
        buf.push((rest % 128 + 128) as u8);
        rest = rest / 128;
        assert(before + varint_bytes(bits) =~= buf@ + varint_bytes(rest as nat));
    }
    let ghost before = buf@;
    buf.push(rest as u8);
    assert(buf@ =~= before + varint_bytes(rest as nat));
}

/// Appends the length `len` to `buf`.
fn write_length(buf: &mut Vec<u8>, len: usize)
    ensures
        final(buf)@ == old(buf)@ + length_bytes(len as nat),
{
    let value: i32 = to_signed(len as u64);
    write_varint(buf, value);
}

/// Appends `text` to `buf`, behind its length.
pub fn write_string(buf: &mut Vec<u8>, text: &str)
    ensures
        final(buf)@ == old(buf)@ + string_bytes(text@),
{
    let bytes: &[u8] = text.as_bytes();
    write_length(buf, bytes.len());
    buf.extend_from_slice(bytes);
    assert(buf@ =~= old(buf)@ + string_bytes(text@));
}

/// The packet with the given body, behind its length.
pub fn packet(body: &Vec<u8>) -> (bytes: Vec<u8>)
    ensures
        bytes@ == packet_bytes(body@),
{
    let mut bytes: Vec<u8> = Vec::new();
    write_length(&mut bytes, body.len());
    bytes.extend_from_slice(body.as_slice());
    assert(bytes@ =~= packet_bytes(body@));
    bytes
}

/// Appends the low `count` bytes of `value` to `buf`, highest byte first.
fn write_big_endian(buf: &mut Vec<u8>, value: u64, count: usize)
    ensures
        final(buf)@ == old(buf)@ + big_endian(value as nat, count as nat),
    decreases count,
{
    if count > 0 {
        write_big_endian(buf, value / 256, count - 1);
        buf.push((value % 256) as u8);
    }
    assert(buf@ =~= old(buf)@ + big_endian(value as nat, count as nat));
}

/// Appends `value` to `buf`, highest byte first.
pub fn write_u64(buf: &mut Vec<u8>, value: u64)
    ensures
        final(buf)@ == old(buf)@ + big_endian(value as nat, 8),
{
    write_big_endian(buf, value, 8);
}

/// The first `run` bytes of `bytes`, and no more, have their top bit set.
proof fn lemma_continued_is(bytes: Seq<u8>, run: nat)
    requires
        run <= bytes.len(),
        forall|i: int| 0 <= i < run ==> bytes[i] >= 128,
        run < bytes.len() ==> bytes[run as int] < 128,
    ensures
        continued(bytes) == run,
    decreases run,
{
    if run > 0 {
        let rest = bytes.drop_first();
        assert forall|i: int| 0 <= i < run - 1 implies rest[i] >= 128 by {
            assert(rest[i] == bytes[i + 1]);
        }
        lemma_continued_is(rest, (run - 1) as nat);
    }
}

/// What `continued` counts.
proof fn lemma_continued(bytes: Seq<u8>)
    ensures
        continued(bytes) <= bytes.len(),
        forall|i: int| 0 <= i < continued(bytes) ==> bytes[i] >= 128,
        continued(bytes) < bytes.len() ==> bytes[continued(bytes) as int] < 128,
    decreases bytes.len(),
{
    if bytes.len() > 0 && bytes[0] >= 128 {
        let rest = bytes.drop_first();
        lemma_continued(rest);
        assert forall|i: int| 0 <= i < continued(bytes) implies bytes[i] >= 128 by {
            if i > 0 {
                assert(bytes[i] == rest[i - 1]);
            }
        }
    }
}

/// One more than the biggest number that `groups` groups of seven bits can spell.
spec fn group_bound(groups: nat) -> nat
    decreases groups,
{
    if groups == 0 {
        1
    } else {
        128 * group_bound((groups - 1) as nat)
    }
}

/// The number that the low seven bits of `bytes`, from index `from` on, spell.
fn value_from(bytes: &Vec<u8>, from: usize) -> (value: u64)
    requires
        from <= bytes.len() <= MAX_VARINT_BYTES,
    ensures
        value == varint_value(bytes@.skip(from as int)),
        value < group_bound((bytes.len() - from) as nat),
    decreases bytes.len() - from,
{
    if from == bytes.len() {
        0
    } else {
        let rest: u64 = value_from(bytes, from + 1);
        assert(bytes@.skip(from as int).drop_first() =~= bytes@.skip(from + 1));
        assert(group_bound((bytes.len() - from) as nat) <= 0x8_0000_0000) by {
            reveal_with_fuel(group_bound, 6);
        }
        (bytes[from] % 128) as u64 + 128 * rest
    }
}

/// Collects the bytes of a VarInt as they arrive.
#[derive(Debug)]
pub struct VarIntReader {
    bytes: Vec<u8>,
}

/// Where a `VarIntReader` stands after a byte.
#[derive(Clone, Copy, Debug, PartialEq, Eq, Structural)]
pub enum VarIntStep {
    /// The value has more bytes.
    More,
    /// The value is complete.
    Done(i32),
    /// The value went on past its fifth byte.
    TooLong,
}

impl View for VarIntReader {
    type V = Seq<u8>;

    /// The bytes of the value that is being read.
    closed spec fn view(&self) -> Seq<u8> {
        self.bytes@
    }
}

impl VarIntReader {
    #[verifier::type_invariant]
    spec fn unfinished(self) -> bool {
        &&& self.bytes@.len() < MAX_VARINT_BYTES
        &&& forall|i: int| 0 <= i < self.bytes@.len() ==> self.bytes@[i] >= 128
    }

    /// A reader that has seen no byte yet.
    pub fn new() -> (reader: VarIntReader)
        ensures
            reader@ == Seq::<u8>::empty(),
    {
        VarIntReader { bytes: Vec::new() }
    }

    /// Takes the next byte. A reader that has finished, either way, starts over.
    pub fn push(&mut self, byte: u8) -> (step: VarIntStep)
        ensures
            match parse_varint(old(self)@.push(byte)) {
                Ok((value, used)) => {
                    &&& step == VarIntStep::Done(value)
                    &&& used == old(self)@.len() + 1
                    &&& final(self)@ == Seq::<u8>::empty()
                },
                Err(ReadError::UnexpectedEnd) => {
                    &&& step == VarIntStep::More
                    &&& final(self)@ == old(self)@.push(byte)
                },
                Err(ReadError::VarIntTooLong) => {
                    &&& step == VarIntStep::TooLong
                    &&& final(self)@ == Seq::<u8>::empty()
                },
            },
    {
        proof {
            use_type_invariant(&*self);
        }
        let ghost seen = self@.push(byte);
        let mut bytes: Vec<u8> = Vec::new();
        std::mem::swap(&mut bytes, &mut self.bytes);
        bytes.push(byte);
        if byte < 128 {
            proof {
                lemma_continued_is(seen, (seen.len() - 1) as nat);
                assert(seen.take(seen.len() as int) =~= seen);
                assert(seen.skip(0) =~= seen);
            }
            VarIntStep::Done(to_signed(value_from(&bytes, 0)))
        } else {
            proof {
                lemma_continued_is(seen, seen.len());
            }
            if bytes.len() == MAX_VARINT_BYTES {
                VarIntStep::TooLong
            } else {
                self.bytes = bytes;
                VarIntStep::More
            }
        }
    }
}

/// Reads a VarInt from the front of `packet`: the value and how many bytes it took.
pub fn read_varint(packet: &[u8]) -> (read: Result<(i32, usize), ReadError>)
    ensures
        match read {
            Ok((value, used)) => parse_varint(packet@) == Ok::<(i32, nat), ReadError>((value, used as nat)) && used <= packet@.len(),
            Err(error) => parse_varint(packet@) == Err::<(i32, nat), ReadError>(error),
        },
{
    let mut bytes: Vec<u8> = Vec::new();
    let mut at: usize = 0;
    while at < packet.len() && at < MAX_VARINT_BYTES
        invariant
            at <= packet.len(),
            at <= MAX_VARINT_BYTES,
            bytes@ == packet@.take(at as int),
            forall|i: int| 0 <= i < at ==> packet@[i] >= 128,
        decreases packet.len() - at,
    {
        let byte: u8 = packet[at];
        bytes.push(byte);
        assert(bytes@ =~= packet@.take(at + 1));
        if byte < 128 {
            proof {
                lemma_continued_is(packet@, at as nat);
                assert(bytes@.skip(0) =~= bytes@);
            }
            return Ok((to_signed(value_from(&bytes, 0)), at + 1));
        }
        at = at + 1;
    }
    proof {
        lemma_continued(packet@);
        if packet.len() == at {
            lemma_continued_is(packet@, at as nat);
        }
    }
    if at == MAX_VARINT_BYTES {
        Err(ReadError::VarIntTooLong)
    } else {
        Err(ReadError::UnexpectedEnd)
    }
}

/// Reads the eight bytes of `packet` from index `at` on, highest byte first.
pub fn read_long(packet: &[u8], at: usize) -> (read: Result<u64, ReadError>)
    requires
        at <= packet@.len(),
    ensures
        match read {
            Ok(value) => {
                &&& at + 8 <= packet@.len()
                &&& value == big_endian_value(packet@.subrange(at as int, at + 8))
            },
            Err(error) => at + 8 > packet@.len() && error == ReadError::UnexpectedEnd,
        },
{
    if packet.len() - at < 8 {
        return Err(ReadError::UnexpectedEnd);
    }
    let end: usize = at + 8;
    let mut value: u64 = 0;
    let mut taken: usize = 0;
    while taken < 8
        invariant
            taken <= 8,
            at + 8 == end <= packet@.len(),
            value == big_endian_value(packet@.subrange(at as int, at + taken)),
        decreases 8 - taken,
    {
        proof {
            let before = packet@.subrange(at as int, at + taken);
            let after = packet@.subrange(at as int, at + taken + 1);
            assert(after.drop_last() =~= before);
            lemma_big_endian_bound(after);
        }
        value = value * 256 + packet[at + taken] as u64;
        taken = taken + 1;
    }
    Ok(value)
}

/// Up to eight bytes spell a number that fits in 64 bits.
proof fn lemma_big_endian_bound(bytes: Seq<u8>)
    requires
        bytes.len() <= 8,
    ensures
        big_endian_value(bytes) <= u64::MAX,
{
    reveal_with_fuel(big_endian_value, 9);
}

/// The bytes of a number below `group_bound(groups)` take at most `groups` bytes, of which only
/// the last has its top bit clear, and spell the number.
proof fn lemma_varint_bytes(bits: nat, groups: nat)
    requires
        bits < group_bound(groups),
    ensures
        1 <= varint_bytes(bits).len(),
        groups >= 1 ==> varint_bytes(bits).len() <= groups,
        varint_bytes(bits).last() < 128,
        forall|i: int| 0 <= i < varint_bytes(bits).len() - 1 ==> varint_bytes(bits)[i] >= 128,
        varint_value(varint_bytes(bits)) == bits,
    decreases bits,
{
    let bytes = varint_bytes(bits);
    if bits < 128 {
        assert(bytes.drop_first() =~= Seq::<u8>::empty());
        assert(varint_value(bytes.drop_first()) == 0);
    } else {
        if groups <= 1 {
            assert(group_bound(groups) <= 128) by {
                reveal_with_fuel(group_bound, 2);
            }
        }
        let rest = varint_bytes(bits / 128);
        lemma_varint_bytes(bits / 128, (groups - 1) as nat);
        if groups == 1 {
            assert(group_bound(0) == 1);
        }
        assert(bytes.drop_first() =~= rest);
        assert forall|i: int| 0 <= i < bytes.len() - 1 implies bytes[i] >= 128 by {
            if i > 0 {
                assert(bytes[i] == rest[i - 1]);
            }
        }
    }
}

/// A VarInt that was written is read back, whatever follows it, and takes at most five bytes.
pub proof fn law_varint_read_back(value: i32, rest: Seq<u8>)
    ensures
        varint_bytes(unsigned(value)).len() <= MAX_VARINT_BYTES,
        parse_varint(varint_bytes(unsigned(value)) + rest) == Ok::<(i32, nat), ReadError>(
            (value, varint_bytes(unsigned(value)).len()),
        ),
{
    let bytes = varint_bytes(unsigned(value));
    let all = bytes + rest;
    assert(group_bound(5) == 0x8_0000_0000) by {
        reveal_with_fuel(group_bound, 6);
    }
    lemma_varint_bytes(unsigned(value), 5);
    let run = (bytes.len() - 1) as nat;
    assert(all[run as int] == bytes.last());
    lemma_continued_is(all, run);
    assert(all.take(run as int + 1) =~= bytes);
}

/// A VarInt takes the same bytes and has the same value whether it is read as a whole or byte by
/// byte: before its last byte it is unfinished, and with it complete.
pub proof fn law_varint_byte_by_byte(bytes: Seq<u8>, value: i32, used: nat, count: nat)
    requires
        parse_varint(bytes) == Ok::<(i32, nat), ReadError>((value, used)),
        count < used,
    ensures
        used <= bytes.len(),
        parse_varint(bytes.take(count as int)) == Err::<(i32, nat), ReadError>(
            ReadError::UnexpectedEnd,
        ),
        parse_varint(bytes.take(used as int)) == Ok::<(i32, nat), ReadError>((value, used)),
{
    lemma_continued(bytes);
    lemma_continued_is(bytes.take(count as int), count);
    lemma_continued_is(bytes.take(used as int), (used - 1) as nat);
    assert(bytes.take(used as int).take(used as int) =~= bytes.take(used as int));
}

/// A packet whose length fits in 31 bits is read back, whatever follows it: first its length,
/// then its body.
pub proof fn law_packet_read_back(body: Seq<u8>, rest: Seq<u8>)
    requires
        body.len() <= i32::MAX,
    ensures
        parse_varint(packet_bytes(body) + rest) matches Ok((len, used)) && len == body.len()
            && (packet_bytes(body) + rest).subrange(used as int, used + len) == body,
{
    let head = length_bytes(body.len());
    let len = body.len() as i32;
    law_varint_read_back(len, body + rest);
    assert(packet_bytes(body) + rest =~= head + (body + rest));
    assert((packet_bytes(body) + rest).subrange(head.len() as int, head.len() + len) =~= body);
}

/// Eight bytes that were read as a long are what writing that long gives back.
pub proof fn law_long_written_back(bytes: Seq<u8>)
    requires
        bytes.len() == 8,
    ensures
        big_endian(big_endian_value(bytes), 8) == bytes,
{
    lemma_big_endian_written_back(bytes);
}

proof fn lemma_big_endian_written_back(bytes: Seq<u8>)
    ensures
        big_endian(big_endian_value(bytes), bytes.len()) == bytes,
    decreases bytes.len(),
{
    if bytes.len() > 0 {
        let front = bytes.drop_last();
        lemma_big_endian_written_back(front);
        assert(big_endian_value(bytes) / 256 == big_endian_value(front));
        assert(big_endian_value(bytes) % 256 == bytes.last());
        assert(front.push(bytes.last()) =~= bytes);
    }
    assert(big_endian(big_endian_value(bytes), bytes.len()) =~= bytes);
}

/// A long that was written is read back.
pub proof fn law_long_read_back(value: u64)
    ensures
        big_endian(value as nat, 8).len() == 8,
        big_endian_value(big_endian(value as nat, 8)) == value,
{
    assert(byte_bound(8) == 0x1_0000_0000_0000_0000) by {
        reveal_with_fuel(byte_bound, 9);
    }
    lemma_big_endian_read_back(value as nat, 8);
}

/// One more than the biggest number that `count` bytes can spell.
spec fn byte_bound(count: nat) -> nat
    decreases count,
{
    if count == 0 {
        1
    } else {
        256 * byte_bound((count - 1) as nat)
    }
}

proof fn lemma_big_endian_read_back(value: nat, count: nat)
    requires
        value < byte_bound(count),
    ensures
        big_endian(value, count).len() == count,
        big_endian_value(big_endian(value, count)) == value,
    decreases count,
{
    if count > 0 {
        lemma_big_endian_read_back(value / 256, (count - 1) as nat);
        let bytes = big_endian(value, count);
        assert(bytes.drop_last() =~= big_endian(value / 256, (count - 1) as nat));
    }
}

/// The bits of a number are the number itself, or 2 to the power of 32 more if it is negative, and
/// are read back as the number.
pub proof fn law_bits_of_numbers(value: i32, bits: nat)
    ensures
        0 <= unsigned(value) < 0x1_0000_0000,
        value >= 0 ==> unsigned(value) == value,
        value < 0 ==> unsigned(value) == value + 0x1_0000_0000,
        signed(unsigned(value)) == value,
        (bits - signed(bits)) % 0x1_0000_0000 == 0,
{
}

/// The bytes of a VarInt: as few as can hold the number, all but the last one with the top bit
/// set, and their low seven bits spell the number with the lowest group first.
pub proof fn law_varint_layout(bits: u32)
    ensures
        ({
            let bytes = varint_bytes(bits as nat);
            &&& bytes.len() == (if bits < 128 {
                1int
            } else if bits < 16384 {
                2
            } else if bits < 2097152 {
                3
            } else if bits < 268435456 {
                4
            } else {
                5
            })
            &&& forall|i: int| 0 <= i < bytes.len() - 1 ==> #[trigger] bytes[i] >= 128
            &&& bytes.last() < 128
            &&& bytes[0] % 128 == bits % 128
            &&& bits >= 128 ==> bytes.drop_first() == varint_bytes((bits / 128) as nat)
            &&& bits == group(bytes, 0) + 128 * group(bytes, 1) + 16384 * group(bytes, 2) + 2097152
                * group(bytes, 3) + 268435456 * group(bytes, 4)
        }),
{
    let b0 = varint_bytes(bits as nat);
    let n1 = bits as nat / 128;
    let n2 = n1 / 128;
    let n3 = n2 / 128;
    let n4 = n3 / 128;
    let b1 = varint_bytes(n1);
    let b2 = varint_bytes(n2);
    let b3 = varint_bytes(n3);
    let b4 = varint_bytes(n4);
    assert(n4 < 128);
    assert(b4 =~= seq![n4 as u8]);
    if n3 >= 128 {
        assert(b3 =~= seq![(n3 % 128 + 128) as u8] + b4);
    } else {
        assert(b3 =~= seq![n3 as u8]);
    }
    if n2 >= 128 {
        assert(b2 =~= seq![(n2 % 128 + 128) as u8] + b3);
    } else {
        assert(b2 =~= seq![n2 as u8]);
    }
    if n1 >= 128 {
        assert(b1 =~= seq![(n1 % 128 + 128) as u8] + b2);
    } else {
        assert(b1 =~= seq![n1 as u8]);
    }
    if bits >= 128 {
        assert(b0 =~= seq![(bits as nat % 128 + 128) as u8] + b1);
        assert(b0.drop_first() =~= b1);
    } else {
        assert(b0 =~= seq![bits as u8]);
    }
}

/// The low seven bits of the byte at index `i`, or 0 if there is none.
pub open spec fn group(bytes: Seq<u8>, i: int) -> int {
    if 0 <= i < bytes.len() {
        bytes[i] as int % 128
    } else {
        0
    }
}

/// Up to five bytes spell the number of their groups, lowest group first.
proof fn lemma_groups(bytes: Seq<u8>)
    requires
        bytes.len() <= 5,
    ensures
        varint_value(bytes) == group(bytes, 0) + 128 * group(bytes, 1) + 16384 * group(bytes, 2)
            + 2097152 * group(bytes, 3) + 268435456 * group(bytes, 4),
    decreases bytes.len(),
{
    if bytes.len() > 0 {
        let rest = bytes.drop_first();
        lemma_groups(rest);
        assert(group(rest, 0) == group(bytes, 1));
        assert(group(rest, 1) == group(bytes, 2));
        assert(group(rest, 2) == group(bytes, 3));
        assert(group(rest, 3) == group(bytes, 4));
        assert(group(rest, 4) == 0);
    }
}

/// A VarInt is read up to and with its first byte without a top bit; its value is the number that
/// the low seven bits spell, lowest group first, up to multiples of 2 to the power of 32.
pub proof fn law_varint_is_read(bytes: Seq<u8>, last: int)
    requires
        0 <= last < 5,
        last < bytes.len(),
        forall|i: int| 0 <= i < last ==> #[trigger] bytes[i] >= 128,
        bytes[last] < 128,
    ensures
        parse_varint(bytes) matches Ok((value, used)) && {
            let taken = bytes.take(last + 1);
            &&& used == last + 1
            &&& (group(taken, 0) + 128 * group(taken, 1) + 16384 * group(taken, 2) + 2097152
                * group(taken, 3) + 268435456 * group(taken, 4) - value) % 0x1_0000_0000 == 0
        },
{
    lemma_continued_is(bytes, last as nat);
    lemma_groups(bytes.take(last + 1));
}

/// A VarInt whose first five bytes all have the top bit set is too long; one that ends before that
/// is cut off. There is no other reason to refuse one.
pub proof fn law_varint_is_refused(bytes: Seq<u8>)
    ensures
        parse_varint(bytes) == Err::<(i32, nat), ReadError>(ReadError::VarIntTooLong) <==> {
            &&& bytes.len() >= 5
            &&& forall|i: int| 0 <= i < 5 ==> #[trigger] bytes[i] >= 128
        },
        parse_varint(bytes) == Err::<(i32, nat), ReadError>(ReadError::UnexpectedEnd) <==> {
            &&& bytes.len() < 5
            &&& forall|i: int| 0 <= i < bytes.len() ==> #[trigger] bytes[i] >= 128
        },
{
    lemma_continued(bytes);
}

/// A long is written in eight bytes which spell it, highest byte first.
pub proof fn law_long_layout(value: u64)
    ensures
        ({
            let bytes = big_endian(value as nat, 8);
            &&& bytes.len() == 8
            &&& value == 0x100_0000_0000_0000 * bytes[0] + 0x1_0000_0000_0000 * bytes[1]
                + 0x100_0000_0000 * bytes[2] + 0x1_0000_0000 * bytes[3] + 0x100_0000 * bytes[4]
                + 0x1_0000 * bytes[5] + 0x100 * bytes[6] + bytes[7]
        }),
{
    law_long_read_back(value);
    law_long_is_read(big_endian(value as nat, 8));
}

/// Eight bytes are read as the long that they spell, highest byte first.
pub proof fn law_long_is_read(bytes: Seq<u8>)
    requires
        bytes.len() == 8,
    ensures
        big_endian_value(bytes) == 0x100_0000_0000_0000 * bytes[0] + 0x1_0000_0000_0000 * bytes[1]
            + 0x100_0000_0000 * bytes[2] + 0x1_0000_0000 * bytes[3] + 0x100_0000 * bytes[4]
            + 0x1_0000 * bytes[5] + 0x100 * bytes[6] + bytes[7],
{
    let s7 = bytes.drop_last();
    let s6 = s7.drop_last();
    let s5 = s6.drop_last();
    let s4 = s5.drop_last();
    let s3 = s4.drop_last();
    let s2 = s3.drop_last();
    let s1 = s2.drop_last();
    assert(big_endian_value(s1.drop_last()) == 0);
    assert(big_endian_value(s1) == bytes[0]);
    assert(big_endian_value(s2) == 256 * big_endian_value(s1) + bytes[1]);
    assert(big_endian_value(s3) == 256 * big_endian_value(s2) + bytes[2]);
    assert(big_endian_value(s4) == 256 * big_endian_value(s3) + bytes[3]);
    assert(big_endian_value(s5) == 256 * big_endian_value(s4) + bytes[4]);
    assert(big_endian_value(s6) == 256 * big_endian_value(s5) + bytes[5]);
    assert(big_endian_value(s7) == 256 * big_endian_value(s6) + bytes[6]);
}

/// A packet ends with its body, byte for byte, and a string with its UTF-8 bytes; what comes before
/// is their length, as the VarInt of its low 32 bits.
pub proof fn law_packet_and_string_layout(body: Seq<u8>, text: Seq<char>)
    ensures
        ({
            let head = varint_bytes(body.len() % 0x1_0000_0000);
            &&& packet_bytes(body).take(head.len() as int) == head
            &&& packet_bytes(body).skip(head.len() as int) == body
        }),
        ({
            let utf8 = encode_utf8(text);
            let head = varint_bytes(utf8.len() % 0x1_0000_0000);
            &&& string_bytes(text).take(head.len() as int) == head
            &&& string_bytes(text).skip(head.len() as int) == utf8
        }),
{
    let head = varint_bytes(body.len() % 0x1_0000_0000);
    assert(packet_bytes(body).take(head.len() as int) =~= head);
    assert(packet_bytes(body).skip(head.len() as int) =~= body);
    let utf8 = encode_utf8(text);
    let text_head = varint_bytes(utf8.len() % 0x1_0000_0000);
    assert(string_bytes(text).take(text_head.len() as int) =~= text_head);
    assert(string_bytes(text).skip(text_head.len() as int) =~= utf8);
}

} // verus!
