//! The log of a game: one record of 23 bytes for each turn.

use crate::board::Board;
use crate::single::Single;
use byteorder::{BigEndian, ByteOrder, LittleEndian};
use vstd::bytes::{
    lemma_auto_spec_u32_to_from_le_bytes, lemma_auto_spec_u64_to_from_le_bytes,
    spec_u32_from_le_bytes, spec_u32_to_le_bytes, spec_u64_from_le_bytes, spec_u64_to_le_bytes,
};
use vstd::prelude::*;
use vstd::slice::slice_subrange;

verus! {

/// The length of a record in bytes.
pub const RECORD_LEN: usize = 23;

/// What is kept of one turn: the board before the move, the number of tiles
/// that had entered as a 4, the expected score and end probability of the
/// move chosen, its direction, and how deep and how often the turn searched.
#[derive(Debug, Copy, Clone, PartialEq, Eq, Structural)]
pub struct TurnRecord {
    /// The board before the move.
    pub board: Board,
    /// The number of tiles that had entered as a 4.
    pub fours: i32,
    /// The expected score of the move.
    pub score: Single,
    /// The end probability of the move.
    pub end_prob: Single,
    /// The direction of the move, -1 for none.
    pub dir: i8,
    /// The depth of the last search of the turn.
    pub depth: u8,
    /// The number of searches of the turn.
    pub searches: u8,
}

/// The eight bytes of `n`, the lowest first if `little` and the highest
/// first if not.
pub open spec fn word_bytes(n: u64, little: bool) -> Seq<u8> {
    if little {
        spec_u64_to_le_bytes(n)
    } else {
        spec_u64_to_le_bytes(n).reverse()
    }
}

/// The four bytes of `n`, the lowest first if `little` and the highest
/// first if not.
pub open spec fn half_bytes(n: u32, little: bool) -> Seq<u8> {
    if little {
        spec_u32_to_le_bytes(n)
    } else {
        spec_u32_to_le_bytes(n).reverse()
    }
}

/// The number that eight bytes stand for.
pub open spec fn word_of(bytes: Seq<u8>, little: bool) -> u64 {
    if little {
        spec_u64_from_le_bytes(bytes)
    } else {
        spec_u64_from_le_bytes(bytes.reverse())
    }
}

/// The number that four bytes stand for.
pub open spec fn half_of(bytes: Seq<u8>, little: bool) -> u32 {
    if little {
        spec_u32_from_le_bytes(bytes)
    } else {
        spec_u32_from_le_bytes(bytes.reverse())
    }
}

/// The 23 bytes of a record: the board in eight bytes, the count of 4s, the
/// score and the end probability in four bytes each, then one byte each for
/// the direction, the depth and the number of searches.
pub open spec fn record_bytes(rec: TurnRecord, little: bool) -> Seq<u8> {
    word_bytes(rec.board.0, little) + half_bytes(rec.fours as u32, little) + half_bytes(
        rec.score.0,
        little,
    ) + half_bytes(rec.end_prob.0, little) + seq![rec.dir as u8, rec.depth, rec.searches]
}

/// The record that 23 bytes stand for.
pub open spec fn record_of(bytes: Seq<u8>, little: bool) -> TurnRecord {
    TurnRecord {
        board: Board(word_of(bytes.subrange(0, 8), little)),
        fours: half_of(bytes.subrange(8, 12), little) as i32,
        score: Single(half_of(bytes.subrange(12, 16), little)),
        end_prob: Single(half_of(bytes.subrange(16, 20), little)),
        dir: bytes[20] as i8,
        depth: bytes[21],
        searches: bytes[22],
    }
}

/// `byteorder::LittleEndian::write_u64` on a buffer of eight bytes: the
/// buffer then holds the bytes of `n`, the lowest first.
#[verifier::external_body]
fn write_u64_le(n: u64) -> (bytes: Vec<u8>)
    ensures
        bytes@ == spec_u64_to_le_bytes(n),
{
    let mut buf = vec![0u8; 8];
    LittleEndian::write_u64(&mut buf, n);
    buf
}

/// `byteorder::BigEndian::write_u64` on a buffer of eight bytes: the buffer
/// then holds the bytes of `n`, the highest first.
#[verifier::external_body]
fn write_u64_be(n: u64) -> (bytes: Vec<u8>)
    ensures
        bytes@ == spec_u64_to_le_bytes(n).reverse(),
{
    let mut buf = vec![0u8; 8];
    BigEndian::write_u64(&mut buf, n);
    buf
}

/// `byteorder::LittleEndian::write_u32` on a buffer of four bytes: the
/// buffer then holds the bytes of `n`, the lowest first.
#[verifier::external_body]
fn write_u32_le(n: u32) -> (bytes: Vec<u8>)
    ensures
        bytes@ == spec_u32_to_le_bytes(n),
{
    let mut buf = vec![0u8; 4];
    LittleEndian::write_u32(&mut buf, n);
    buf
}

/// `byteorder::BigEndian::write_u32` on a buffer of four bytes: the buffer
/// then holds the bytes of `n`, the highest first.
#[verifier::external_body]
fn write_u32_be(n: u32) -> (bytes: Vec<u8>)
    ensures
        bytes@ == spec_u32_to_le_bytes(n).reverse(),
{
    let mut buf = vec![0u8; 4];
    BigEndian::write_u32(&mut buf, n);
    buf
}

/// `byteorder::LittleEndian::read_u64`: the number whose bytes, the lowest
/// first, are the first eight of `buf`. The call panics on a shorter
/// buffer.
#[verifier::external_body]
fn read_u64_le(buf: &[u8]) -> (n: u64)
    requires
        buf@.len() >= 8,
    ensures
        n == spec_u64_from_le_bytes(buf@.subrange(0, 8)),
{
    LittleEndian::read_u64(buf)
}

/// `byteorder::BigEndian::read_u64`: the number whose bytes, the highest
/// first, are the first eight of `buf`. The call panics on a shorter
/// buffer.
#[verifier::external_body]
fn read_u64_be(buf: &[u8]) -> (n: u64)
    requires
        buf@.len() >= 8,
    ensures
        n == spec_u64_from_le_bytes(buf@.subrange(0, 8).reverse()),
{
    BigEndian::read_u64(buf)
}

/// `byteorder::LittleEndian::read_u32`: the number whose bytes, the lowest
/// first, are the first four of `buf`. The call panics on a shorter buffer.
#[verifier::external_body]
fn read_u32_le(buf: &[u8]) -> (n: u32)
    requires
        buf@.len() >= 4,
    ensures
        n == spec_u32_from_le_bytes(buf@.subrange(0, 4)),
{
    LittleEndian::read_u32(buf)
}

/// `byteorder::BigEndian::read_u32`: the number whose bytes, the highest
/// first, are the first four of `buf`. The call panics on a shorter buffer.
#[verifier::external_body]
fn read_u32_be(buf: &[u8]) -> (n: u32)
    requires
        buf@.len() >= 4,
    ensures
        n == spec_u32_from_le_bytes(buf@.subrange(0, 4).reverse()),
{
    BigEndian::read_u32(buf)
}

/// A signed number read as unsigned and back is the number.
proof fn lemma_signed_casts(fours: i32, dir: i8)
    by (bit_vector)
    ensures
        (fours as u32) as i32 == fours,
        (dir as u8) as i8 == dir,
{
}

/// Appends the eight bytes of `n`.
fn put_word(out: &mut Vec<u8>, n: u64, little: bool)
    ensures
        final(out)@ == old(out)@ + word_bytes(n, little),
{
    let mut part = if little {
        write_u64_le(n)
    } else {
        write_u64_be(n)
    };
    out.append(&mut part);
}

/// Appends the four bytes of `n`.
fn put_half(out: &mut Vec<u8>, n: u32, little: bool)
    ensures
        final(out)@ == old(out)@ + half_bytes(n, little),
{
    let mut part = if little {
        write_u32_le(n)
    } else {
        write_u32_be(n)
    };
    out.append(&mut part);
}

/// The number in the eight bytes from `at` on.
fn get_word(bytes: &[u8], at: usize, little: bool) -> (n: u64)
    requires
        at + 8 <= bytes@.len(),
    ensures
        n == word_of(bytes@.subrange(at as int, at + 8), little),
{
    let len = bytes.len();
    let part = slice_subrange(bytes, at, at + 8);
    proof {
        assert(part@.subrange(0, 8) =~= part@);
    }
    if little {
        read_u64_le(part)
    } else {
        read_u64_be(part)
    }
}

/// The number in the four bytes from `at` on.
fn get_half(bytes: &[u8], at: usize, little: bool) -> (n: u32)
    requires
        at + 4 <= bytes@.len(),
    ensures
        n == half_of(bytes@.subrange(at as int, at + 4), little),
{
    let len = bytes.len();
    let part = slice_subrange(bytes, at, at + 4);
    proof {
        assert(part@.subrange(0, 4) =~= part@);
    }
    if little {
        read_u32_le(part)
    } else {
        read_u32_be(part)
    }
}

/// The bytes of a record, in the byte order asked for.
pub fn encode(rec: &TurnRecord, little: bool) -> (bytes: Vec<u8>)
    ensures
        bytes@ == record_bytes(*rec, little),
        bytes@.len() == RECORD_LEN,
{
    proof {
        lemma_auto_spec_u64_to_from_le_bytes();
        lemma_auto_spec_u32_to_from_le_bytes();
    }
    let mut out: Vec<u8> = Vec::new();
    put_word(&mut out, rec.board.0, little);
    put_half(&mut out, rec.fours as u32, little);
    put_half(&mut out, rec.score.0, little);
    put_half(&mut out, rec.end_prob.0, little);
    out.push(rec.dir as u8);
    out.push(rec.depth);
    out.push(rec.searches);
    out
}

/// The record at the head of `bytes`, or `None` if there are fewer bytes
/// than a record has.
pub fn decode(bytes: &[u8], little: bool) -> (rec: Option<TurnRecord>)
    ensures
        bytes@.len() < RECORD_LEN ==> rec.is_none(),
        bytes@.len() >= RECORD_LEN ==> rec == Some(
            record_of(bytes@.subrange(0, RECORD_LEN as int), little),
        ),
{
    if bytes.len() < RECORD_LEN {
        return None;
    }
    let ghost head = bytes@.subrange(0, RECORD_LEN as int);
    proof {
        assert(bytes@.subrange(0, 8) =~= head.subrange(0, 8));
        assert(bytes@.subrange(8, 12) =~= head.subrange(8, 12));
        assert(bytes@.subrange(12, 16) =~= head.subrange(12, 16));
        assert(bytes@.subrange(16, 20) =~= head.subrange(16, 20));
    }
    let board = Board(get_word(bytes, 0, little));
    let fours = get_half(bytes, 8, little) as i32;
    let score = Single(get_half(bytes, 12, little));
    let end_prob = Single(get_half(bytes, 16, little));
    let dir = bytes[20] as i8;
    let depth = bytes[21];
    let searches = bytes[22];
    Some(TurnRecord { board, fours, score, end_prob, dir, depth, searches })
}

/// The records of a log: as many as fit whole into `bytes`, in their order.
/// Bytes after the last whole record are left out.
pub fn decode_log(bytes: &[u8], little: bool) -> (records: Vec<TurnRecord>)
    ensures
        records@.len() == bytes@.len() as int / RECORD_LEN as int,
        forall|i: int|
            0 <= i < records@.len() ==> #[trigger] records@[i] == record_of(
                bytes@.subrange(i * RECORD_LEN, i * RECORD_LEN + RECORD_LEN),
                little,
            ),
{
    let count = bytes.len() / RECORD_LEN;
    let mut records: Vec<TurnRecord> = Vec::new();
    let mut i: usize = 0;
    while i < count
        invariant
            0 <= i <= count,
            count == bytes@.len() as int / RECORD_LEN as int,
            count * RECORD_LEN <= bytes@.len() <= usize::MAX,
            records@.len() == i,
            forall|k: int|
                0 <= k < i ==> #[trigger] records@[k] == record_of(
                    bytes@.subrange(k * RECORD_LEN, k * RECORD_LEN + RECORD_LEN),
                    little,
                ),
        decreases count - i,
    {
        let start = i * RECORD_LEN;
        let part = slice_subrange(bytes, start, start + RECORD_LEN);
        proof {
            assert(part@.subrange(0, RECORD_LEN as int) =~= part@);
        }
        match decode(part, little) {
            Some(rec) => records.push(rec),
            None => {},
        }
        i += 1;
    }
    records
}

/// Reading back what was written gives the record that was written.
pub proof fn lemma_record_roundtrip(rec: TurnRecord, little: bool)
    ensures
        record_bytes(rec, little).len() == RECORD_LEN,
        record_of(record_bytes(rec, little), little) == rec,
{
    lemma_auto_spec_u64_to_from_le_bytes();
    lemma_auto_spec_u32_to_from_le_bytes();
    lemma_signed_casts(rec.fours, rec.dir);
    let bytes = record_bytes(rec, little);
    let board = word_bytes(rec.board.0, little);
    let fours = half_bytes(rec.fours as u32, little);
    let score = half_bytes(rec.score.0, little);
    let end_prob = half_bytes(rec.end_prob.0, little);
    assert(bytes.subrange(0, 8) =~= board);
    assert(bytes.subrange(8, 12) =~= fours);
    assert(bytes.subrange(12, 16) =~= score);
    assert(bytes.subrange(16, 20) =~= end_prob);
    assert(spec_u64_to_le_bytes(rec.board.0).reverse().reverse() =~= spec_u64_to_le_bytes(
        rec.board.0,
    ));
    assert(spec_u32_to_le_bytes(rec.fours as u32).reverse().reverse() =~= spec_u32_to_le_bytes(
        rec.fours as u32,
    ));
    assert(spec_u32_to_le_bytes(rec.score.0).reverse().reverse() =~= spec_u32_to_le_bytes(
        rec.score.0,
    ));
    assert(spec_u32_to_le_bytes(rec.end_prob.0).reverse().reverse() =~= spec_u32_to_le_bytes(
        rec.end_prob.0,
    ));
}

} // verus!
