//! SGPU list payload. All wire integers are little-endian and independent of
//! host pointer width. Clear colors travel as the IEEE-754 bit patterns of
//! their `f32` channels.
use vstd::prelude::*;
use crate::wire::{
    lemma_u32_roundtrip, lemma_u64_roundtrip, lemma_u32_rewrite, lemma_u64_rewrite,
    extend_bytes, read_u32_le, read_u64_le, spec_u32_bytes, spec_u32_le, spec_u64_bytes,
    spec_u64_le, u32_bytes, u64_bytes,
};

verus! {

pub const SGPU_MAX_COMMANDS: usize = 1024;

pub const SGPU_MAX_COMMAND_BYTES: usize = 4 + SGPU_MAX_COMMANDS * 29;

#[derive(Debug, Clone, Copy, PartialEq, Eq, Structural)]
pub enum SgpuWireError {
    /// Malformed SGPU command payload.
    Malformed,
    /// SGPU command count or byte limit exceeded.
    Limit,
    /// SGPU snapshot range overflow or out of bounds.
    Range,
}

impl SgpuWireError {
    pub open spec fn spec_message(&self) -> Seq<char> {
        match self {
            SgpuWireError::Malformed => "malformed SGPU command payload"@,
            SgpuWireError::Limit => "SGPU command count or byte limit exceeded"@,
            SgpuWireError::Range => "SGPU snapshot range overflow or out of bounds"@,
        }
    }

    /// The error's text.
    pub fn message(&self) -> (r: String)
        ensures
            r@ == self.spec_message(),
    {
        match self {
            SgpuWireError::Malformed => String::from_str("malformed SGPU command payload"),
            SgpuWireError::Limit => String::from_str("SGPU command count or byte limit exceeded"),
            SgpuWireError::Range => String::from_str("SGPU snapshot range overflow or out of bounds"),
        }
    }
}

#[derive(Debug, Clone, Copy, PartialEq, Eq)]
pub enum SgpuCommand {
    CopyBuffer { src: u64, dst: u64, size: u64 },
    /// Clear color, each channel an `f32` bit pattern.
    RenderClear { color_bits: [u32; 4] },
    ComputeDispatch { kernel_id: u32, grid: (u32, u32, u32), block: (u32, u32, u32) },
    Present { buffer: u64 },
}

/// Length of the record a tag byte starts, or 0 for an unknown tag.
pub open spec fn spec_record_len(tag: u8) -> int {
    if tag == 1 {
        25
    } else if tag == 2 {
        17
    } else if tag == 3 {
        29
    } else if tag == 4 {
        9
    } else {
        0
    }
}

/// The command a record of the right length for its tag describes.
pub open spec fn spec_read_record(b: Seq<u8>) -> SgpuCommand {
    if b[0] == 1 {
        SgpuCommand::CopyBuffer { src: spec_u64_le(b, 1), dst: spec_u64_le(b, 9), size: spec_u64_le(b, 17) }
    } else if b[0] == 2 {
        SgpuCommand::RenderClear {
            color_bits: [spec_u32_le(b, 1), spec_u32_le(b, 5), spec_u32_le(b, 9), spec_u32_le(b, 13)],
        }
    } else if b[0] == 3 {
        SgpuCommand::ComputeDispatch {
            kernel_id: spec_u32_le(b, 1),
            grid: (spec_u32_le(b, 5), spec_u32_le(b, 9), spec_u32_le(b, 13)),
            block: (spec_u32_le(b, 17), spec_u32_le(b, 21), spec_u32_le(b, 25)),
        }
    } else {
        SgpuCommand::Present { buffer: spec_u64_le(b, 1) }
    }
}

/// What `SgpuCommand::decode` answers for a single record.
pub open spec fn spec_decode_command(b: Seq<u8>) -> Result<SgpuCommand, SgpuWireError> {
    if b.len() == 0 || spec_record_len(b[0]) == 0 || b.len() != spec_record_len(b[0]) {
        Err(SgpuWireError::Malformed)
    } else {
        Ok(spec_read_record(b))
    }
}

impl SgpuCommand {
    pub open spec fn spec_tag(self) -> u8 {
        match self {
            SgpuCommand::CopyBuffer { .. } => 1,
            SgpuCommand::RenderClear { .. } => 2,
            SgpuCommand::ComputeDispatch { .. } => 3,
            SgpuCommand::Present { .. } => 4,
        }
    }

    /// The wire record of the command.
    pub open spec fn spec_encode(self) -> Seq<u8> {
        match self {
            SgpuCommand::CopyBuffer { src, dst, size } => seq![1u8] + spec_u64_bytes(src)
                + spec_u64_bytes(dst) + spec_u64_bytes(size),
            SgpuCommand::RenderClear { color_bits } => seq![2u8] + spec_u32_bytes(color_bits[0])
                + spec_u32_bytes(color_bits[1]) + spec_u32_bytes(color_bits[2]) + spec_u32_bytes(
                color_bits[3],
            ),
            SgpuCommand::ComputeDispatch { kernel_id, grid, block } => seq![3u8] + spec_u32_bytes(
                kernel_id,
            ) + spec_u32_bytes(grid.0) + spec_u32_bytes(grid.1) + spec_u32_bytes(grid.2)
                + spec_u32_bytes(block.0) + spec_u32_bytes(block.1) + spec_u32_bytes(block.2),
            SgpuCommand::Present { buffer } => seq![4u8] + spec_u64_bytes(buffer),
        }
    }

    pub fn tag(&self) -> (r: u8)
        ensures
            r == self.spec_tag(),
    {
        match self {
            SgpuCommand::CopyBuffer { .. } => 1,
            SgpuCommand::RenderClear { .. } => 2,
            SgpuCommand::ComputeDispatch { .. } => 3,
            SgpuCommand::Present { .. } => 4,
        }
    }

    pub fn encode(&self) -> (r: Vec<u8>)
        ensures
            r@ == self.spec_encode(),
    {
        let mut out: Vec<u8> = Vec::new();
        out.push(self.tag());
        match self {
            SgpuCommand::CopyBuffer { src, dst, size } => {
                extend_bytes(&mut out, &u64_bytes(*src));
                extend_bytes(&mut out, &u64_bytes(*dst));
                extend_bytes(&mut out, &u64_bytes(*size));
            },
            SgpuCommand::RenderClear { color_bits } => {
                extend_bytes(&mut out, &u32_bytes(color_bits[0]));
                extend_bytes(&mut out, &u32_bytes(color_bits[1]));
                extend_bytes(&mut out, &u32_bytes(color_bits[2]));
                extend_bytes(&mut out, &u32_bytes(color_bits[3]));
            },
            SgpuCommand::ComputeDispatch { kernel_id, grid, block } => {
                extend_bytes(&mut out, &u32_bytes(*kernel_id));
                extend_bytes(&mut out, &u32_bytes(grid.0));
                extend_bytes(&mut out, &u32_bytes(grid.1));
                extend_bytes(&mut out, &u32_bytes(grid.2));
                extend_bytes(&mut out, &u32_bytes(block.0));
                extend_bytes(&mut out, &u32_bytes(block.1));
                extend_bytes(&mut out, &u32_bytes(block.2));
            },
            SgpuCommand::Present { buffer } => {
                extend_bytes(&mut out, &u64_bytes(*buffer));
            },
        }
        assert(out@ =~= self.spec_encode());
        out
    }

    pub fn decode(bytes: &[u8]) -> (r: Result<Self, SgpuWireError>)
        ensures
            r == spec_decode_command(bytes@),
    {
        if bytes.len() == 0 {
            return Err(SgpuWireError::Malformed);
        }
        let tag = bytes[0];
        if tag == 1 {
            if bytes.len() != 25 {
                return Err(SgpuWireError::Malformed);
            }
            Ok(SgpuCommand::CopyBuffer {
                src: read_u64_le(bytes, 1),
                dst: read_u64_le(bytes, 9),
                size: read_u64_le(bytes, 17),
            })
        } else if tag == 2 {
            if bytes.len() != 17 {
                return Err(SgpuWireError::Malformed);
            }
            let color_bits = [
                read_u32_le(bytes, 1),
                read_u32_le(bytes, 5),
                read_u32_le(bytes, 9),
                read_u32_le(bytes, 13),
            ];
            Ok(SgpuCommand::RenderClear { color_bits })
        } else if tag == 3 {
            if bytes.len() != 29 {
                return Err(SgpuWireError::Malformed);
            }
            Ok(SgpuCommand::ComputeDispatch {
                kernel_id: read_u32_le(bytes, 1),
                grid: (read_u32_le(bytes, 5), read_u32_le(bytes, 9), read_u32_le(bytes, 13)),
                block: (read_u32_le(bytes, 17), read_u32_le(bytes, 21), read_u32_le(bytes, 25)),
            })
        } else if tag == 4 {
            if bytes.len() != 9 {
                return Err(SgpuWireError::Malformed);
            }
            Ok(SgpuCommand::Present { buffer: read_u64_le(bytes, 1) })
        } else {
            Err(SgpuWireError::Malformed)
        }
    }
}

/// Decoding records from `cursor` on when `remaining` of them are still owed,
/// after `acc` was read.
pub open spec fn spec_decode_from(
    b: Seq<u8>,
    cursor: int,
    remaining: nat,
    acc: Seq<SgpuCommand>,
) -> Result<Seq<SgpuCommand>, SgpuWireError>
    decreases remaining,
{
    if remaining == 0 {
        if cursor == b.len() {
            Ok(acc)
        } else {
            Err(SgpuWireError::Malformed)
        }
    } else if cursor < 0 || cursor >= b.len() || spec_record_len(b[cursor]) == 0 || cursor
        + spec_record_len(b[cursor]) > b.len() {
        Err(SgpuWireError::Malformed)
    } else {
        let len = spec_record_len(b[cursor]);
        spec_decode_from(
            b,
            cursor + len,
            (remaining - 1) as nat,
            acc.push(spec_read_record(b.subrange(cursor, cursor + len))),
        )
    }
}

/// What `SgpuCommandList::decode` answers.
pub open spec fn spec_decode_list(b: Seq<u8>) -> Result<Seq<SgpuCommand>, SgpuWireError> {
    if b.len() > SGPU_MAX_COMMAND_BYTES {
        Err(SgpuWireError::Limit)
    } else if b.len() < 4 {
        Err(SgpuWireError::Malformed)
    } else if spec_u32_le(b, 0) > SGPU_MAX_COMMANDS {
        Err(SgpuWireError::Limit)
    } else if spec_u32_le(b, 0) > (b.len() - 4) / 9 {
        Err(SgpuWireError::Malformed)
    } else {
        spec_decode_from(b, 4, spec_u32_le(b, 0) as nat, Seq::empty())
    }
}

/// Concatenated records of `cmds`.
pub open spec fn spec_encode_records(cmds: Seq<SgpuCommand>) -> Seq<u8>
    decreases cmds.len(),
{
    if cmds.len() == 0 {
        Seq::empty()
    } else {
        spec_encode_records(cmds.drop_last()) + cmds.last().spec_encode()
    }
}

/// The record of a command has the length its tag announces and starts with
/// that tag.
pub proof fn lemma_record_shape(cmd: SgpuCommand)
    ensures
        cmd.spec_encode().len() == spec_record_len(cmd.spec_tag()),
        cmd.spec_encode().len() > 0,
        cmd.spec_encode()[0] == cmd.spec_tag(),
        9 <= cmd.spec_encode().len() <= 29,
{
}

/// Decoding the record of a command gives the command back.
pub proof fn law_command_roundtrip(cmd: SgpuCommand)
    ensures
        spec_decode_command(cmd.spec_encode()) == Ok::<SgpuCommand, SgpuWireError>(cmd),
{
    lemma_record_shape(cmd);
    let e = cmd.spec_encode();
    match cmd {
        SgpuCommand::CopyBuffer { src, dst, size } => {
            assert(e.subrange(1, 9) =~= spec_u64_bytes(src));
            assert(e.subrange(9, 17) =~= spec_u64_bytes(dst));
            assert(e.subrange(17, 25) =~= spec_u64_bytes(size));
            lemma_u64_roundtrip(src, e, 1);
            lemma_u64_roundtrip(dst, e, 9);
            lemma_u64_roundtrip(size, e, 17);
            assert(e[0] == 1u8);
            assert(e.len() == 25);
            assert(spec_read_record(e) == cmd);
            assert(spec_record_len(e[0]) == 25);
            assert(spec_decode_command(e) == Ok::<SgpuCommand, SgpuWireError>(cmd));
        },
        SgpuCommand::RenderClear { color_bits } => {
            assert(e.subrange(1, 5) =~= spec_u32_bytes(color_bits[0]));
            assert(e.subrange(5, 9) =~= spec_u32_bytes(color_bits[1]));
            assert(e.subrange(9, 13) =~= spec_u32_bytes(color_bits[2]));
            assert(e.subrange(13, 17) =~= spec_u32_bytes(color_bits[3]));
            lemma_u32_roundtrip(color_bits[0], e, 1);
            lemma_u32_roundtrip(color_bits[1], e, 5);
            lemma_u32_roundtrip(color_bits[2], e, 9);
            lemma_u32_roundtrip(color_bits[3], e, 13);
            let got = spec_read_record(e);
            assert(got->color_bits =~= color_bits);
            assert(got == cmd);
        },
        SgpuCommand::ComputeDispatch { kernel_id, grid, block } => {
            assert(e.subrange(1, 5) =~= spec_u32_bytes(kernel_id));
            assert(e.subrange(5, 9) =~= spec_u32_bytes(grid.0));
            assert(e.subrange(9, 13) =~= spec_u32_bytes(grid.1));
            assert(e.subrange(13, 17) =~= spec_u32_bytes(grid.2));
            assert(e.subrange(17, 21) =~= spec_u32_bytes(block.0));
            assert(e.subrange(21, 25) =~= spec_u32_bytes(block.1));
            assert(e.subrange(25, 29) =~= spec_u32_bytes(block.2));
            lemma_u32_roundtrip(kernel_id, e, 1);
            lemma_u32_roundtrip(grid.0, e, 5);
            lemma_u32_roundtrip(grid.1, e, 9);
            lemma_u32_roundtrip(grid.2, e, 13);
            lemma_u32_roundtrip(block.0, e, 17);
            lemma_u32_roundtrip(block.1, e, 21);
            lemma_u32_roundtrip(block.2, e, 25);
        },
        SgpuCommand::Present { buffer } => {
            assert(e.subrange(1, 9) =~= spec_u64_bytes(buffer));
            lemma_u64_roundtrip(buffer, e, 1);
        },
    }
}

/// The records of a non-empty list are the first record, then the rest.
pub proof fn lemma_records_first(cmds: Seq<SgpuCommand>)
    requires
        cmds.len() > 0,
    ensures
        spec_encode_records(cmds) == cmds[0].spec_encode() + spec_encode_records(
            cmds.subrange(1, cmds.len() as int),
        ),
    decreases cmds.len(),
{
    let n = cmds.len() as int;
    if n == 1 {
        assert(cmds.drop_last() =~= Seq::<SgpuCommand>::empty());
        assert(spec_encode_records(cmds.drop_last()) =~= Seq::<u8>::empty());
        assert(cmds.subrange(1, 1) =~= Seq::<SgpuCommand>::empty());
        assert(spec_encode_records(cmds.subrange(1, 1)) =~= Seq::<u8>::empty());
        assert(spec_encode_records(cmds) =~= cmds[0].spec_encode());
    } else {
        let d = cmds.drop_last();
        lemma_records_first(d);
        let tail = cmds.subrange(1, n);
        assert(tail.drop_last() =~= d.subrange(1, d.len() as int));
        assert(tail.last() == cmds.last());
        assert(spec_encode_records(cmds) =~= cmds[0].spec_encode() + spec_encode_records(tail));
    }
}

/// Every record takes between 9 and 29 bytes.
pub proof fn lemma_records_len(cmds: Seq<SgpuCommand>)
    ensures
        9 * cmds.len() <= spec_encode_records(cmds).len() <= 29 * cmds.len(),
    decreases cmds.len(),
{
    if cmds.len() > 0 {
        lemma_records_len(cmds.drop_last());
        lemma_record_shape(cmds.last());
    }
}

/// Decoding the records of `cmds`, laid out from `cursor` to the end of `b`,
/// appends `cmds` to what was read before.
#[verifier::rlimit(60)]
pub proof fn lemma_decode_records(b: Seq<u8>, cursor: int, cmds: Seq<SgpuCommand>, acc: Seq<SgpuCommand>)
    requires
        0 <= cursor <= b.len(),
        b.subrange(cursor, b.len() as int) == spec_encode_records(cmds),
    ensures
        spec_decode_from(b, cursor, cmds.len(), acc) == Ok::<Seq<SgpuCommand>, SgpuWireError>(
            acc + cmds,
        ),
    decreases cmds.len(),
{
    if cmds.len() == 0 {
        assert(acc + cmds =~= acc);
        assert(b.subrange(cursor, b.len() as int).len() == 0);
    } else {
        let c0 = cmds[0];
        let e0 = c0.spec_encode();
        let rest = cmds.subrange(1, cmds.len() as int);
        let len = e0.len() as int;
        let tailb = b.subrange(cursor, b.len() as int);
        assert(tailb == e0 + spec_encode_records(rest)) by {
            lemma_records_first(cmds);
        }
        assert(9 <= len <= 29 && e0[0] == c0.spec_tag() && len == spec_record_len(c0.spec_tag()))
            by {
            lemma_record_shape(c0);
        }
        assert(tailb.len() >= len);
        assert(cursor < b.len());
        assert(b[cursor] == tailb[0]);
        assert(b[cursor] == c0.spec_tag());
        assert(cursor + len <= b.len());
        assert(b.subrange(cursor, cursor + len) == e0) by {
            assert(b.subrange(cursor, cursor + len) =~= tailb.subrange(0, len));
            assert(tailb.subrange(0, len) =~= e0);
        }
        assert(b.subrange(cursor + len, b.len() as int) == spec_encode_records(rest)) by {
            assert(b.subrange(cursor + len, b.len() as int) =~= tailb.subrange(len, tailb.len() as int));
            assert(tailb.subrange(len, tailb.len() as int) =~= spec_encode_records(rest));
        }
        assert(spec_read_record(e0) == c0) by {
            law_command_roundtrip(c0);
            lemma_record_shape(c0);
        }
        assert(rest.len() == (cmds.len() - 1) as nat);
        assert(spec_decode_from(b, cursor, cmds.len(), acc) == spec_decode_from(
            b,
            cursor + len,
            rest.len(),
            acc.push(c0),
        ));
        lemma_decode_records(b, cursor + len, rest, acc.push(c0));
        assert(acc.push(c0) + rest =~= acc + cmds);
    }
}

/// Encoding then decoding a list of at most `SGPU_MAX_COMMANDS` commands gives
/// the same commands back.
pub proof fn law_list_roundtrip(list: SgpuCommandList)
    requires
        list.cmds@.len() <= SGPU_MAX_COMMANDS,
    ensures
        spec_decode_list(list.spec_encode()) == Ok::<Seq<SgpuCommand>, SgpuWireError>(list.cmds@),
{
    let cmds = list.cmds@;
    let b = list.spec_encode();
    let n = cmds.len();
    lemma_records_len(cmds);
    assert(b.subrange(0, 4) =~= spec_u32_bytes(n as u32));
    lemma_u32_roundtrip(n as u32, b, 0);
    assert(spec_u32_le(b, 0) == n);
    assert(b.subrange(4, b.len() as int) =~= spec_encode_records(cmds));
    lemma_decode_records(b, 4, cmds, Seq::empty());
    assert(Seq::<SgpuCommand>::empty() + cmds =~= cmds);
}

/// The whole list payload of `cmds`: count, then the records.
pub open spec fn spec_encode_list(cmds: Seq<SgpuCommand>) -> Seq<u8> {
    spec_u32_bytes(cmds.len() as u32) + spec_encode_records(cmds)
}

/// The payload of at most `SGPU_MAX_COMMANDS` commands fits in
/// `SGPU_MAX_COMMAND_BYTES` bytes.
pub proof fn law_list_encoding_fits(cmds: Seq<SgpuCommand>)
    requires
        cmds.len() <= SGPU_MAX_COMMANDS,
    ensures
        spec_encode_list(cmds).len() <= SGPU_MAX_COMMAND_BYTES,
{
    lemma_records_len(cmds);
}

/// Re-encoding the command read from a well-formed record gives the record.
pub proof fn lemma_record_rewrite(r: Seq<u8>)
    requires
        r.len() > 0,
        spec_record_len(r[0]) != 0,
        r.len() == spec_record_len(r[0]),
    ensures
        spec_read_record(r).spec_encode() == r,
{
    if r[0] == 1 {
        lemma_u64_rewrite(r, 1);
        lemma_u64_rewrite(r, 9);
        lemma_u64_rewrite(r, 17);
        assert(spec_read_record(r).spec_encode() =~= r);
    } else if r[0] == 2 {
        lemma_u32_rewrite(r, 1);
        lemma_u32_rewrite(r, 5);
        lemma_u32_rewrite(r, 9);
        lemma_u32_rewrite(r, 13);
        assert(spec_read_record(r).spec_encode() =~= r);
    } else if r[0] == 3 {
        lemma_u32_rewrite(r, 1);
        lemma_u32_rewrite(r, 5);
        lemma_u32_rewrite(r, 9);
        lemma_u32_rewrite(r, 13);
        lemma_u32_rewrite(r, 17);
        lemma_u32_rewrite(r, 21);
        lemma_u32_rewrite(r, 25);
        assert(spec_read_record(r).spec_encode() =~= r);
    } else {
        lemma_u64_rewrite(r, 1);
        assert(spec_read_record(r).spec_encode() =~= r);
    }
}

/// What a successful decode from `cursor` appends to `acc` are `remaining`
/// commands whose records are exactly the bytes from `cursor` to the end.
#[verifier::rlimit(60)]
pub proof fn lemma_decode_from_rewrite(
    b: Seq<u8>,
    cursor: int,
    remaining: nat,
    acc: Seq<SgpuCommand>,
    out: Seq<SgpuCommand>,
)
    requires
        0 <= cursor,
        spec_decode_from(b, cursor, remaining, acc) == Ok::<Seq<SgpuCommand>, SgpuWireError>(out),
    ensures
        cursor <= b.len(),
        out.len() == acc.len() + remaining,
        out.subrange(0, acc.len() as int) == acc,
        spec_encode_records(out.subrange(acc.len() as int, out.len() as int)) == b.subrange(
            cursor,
            b.len() as int,
        ),
    decreases remaining,
{
    if remaining == 0 {
        assert(out == acc);
        assert(out.subrange(0, acc.len() as int) =~= acc);
        assert(out.subrange(acc.len() as int, out.len() as int) =~= Seq::<SgpuCommand>::empty());
        assert(b.subrange(cursor, b.len() as int) =~= Seq::<u8>::empty());
    } else {
        let len = spec_record_len(b[cursor]);
        let rec = b.subrange(cursor, cursor + len);
        let c = spec_read_record(rec);
        let acc2 = acc.push(c);
        lemma_decode_from_rewrite(b, cursor + len, (remaining - 1) as nat, acc2, out);
        assert(rec[0] == b[cursor]);
        lemma_record_rewrite(rec);
        let cmds = out.subrange(acc.len() as int, out.len() as int);
        let tail = out.subrange(acc2.len() as int, out.len() as int);
        assert(out.subrange(0, acc2.len() as int) == acc2);
        assert(out[acc.len() as int] == out.subrange(0, acc2.len() as int)[acc.len() as int]);
        assert(cmds[0] == c);
        assert(cmds.subrange(1, cmds.len() as int) =~= tail);
        lemma_records_first(cmds);
        assert(out.subrange(0, acc.len() as int) =~= acc2.subrange(0, acc.len() as int));
        assert(b.subrange(cursor, b.len() as int) =~= rec + b.subrange(cursor + len, b.len() as int));
    }
}

/// A payload that decodes holds at most `SGPU_MAX_COMMANDS` commands, and
/// re-encoding them gives back exactly the payload: every byte was consumed
/// and nothing trails. A payload over `SGPU_MAX_COMMAND_BYTES` never decodes.
pub proof fn law_list_decode_reencodes(b: Seq<u8>)
    ensures
        b.len() > SGPU_MAX_COMMAND_BYTES ==> spec_decode_list(b) == Err::<Seq<SgpuCommand>, SgpuWireError>(
            SgpuWireError::Limit,
        ),
        spec_decode_list(b) matches Ok(cmds) ==> {
            &&& cmds.len() <= SGPU_MAX_COMMANDS
            &&& spec_encode_list(cmds) == b
        },
{
    if let Ok(cmds) = spec_decode_list(b) {
        let count = spec_u32_le(b, 0);
        lemma_decode_from_rewrite(b, 4, count as nat, Seq::empty(), cmds);
        assert(cmds.subrange(0, cmds.len() as int) =~= cmds);
        lemma_u32_rewrite(b, 0);
        assert(cmds.len() as u32 == count);
        assert(spec_u32_bytes(count) + spec_encode_records(cmds) =~= b);
    }
}

#[derive(Debug, Clone, PartialEq, Eq)]
pub struct SgpuCommandList {
    pub cmds: Vec<SgpuCommand>,
}

impl SgpuCommandList {
    /// The whole list payload: count, then the records.
    pub open spec fn spec_encode(self) -> Seq<u8> {
        spec_encode_list(self.cmds@)
    }

    pub fn encode(&self) -> (r: Vec<u8>)
        ensures
            r@ == self.spec_encode(),
    {
        let mut out: Vec<u8> = Vec::new();
        extend_bytes(&mut out, &u32_bytes(self.cmds.len() as u32));
        let mut i: usize = 0;
        while i < self.cmds.len()
            invariant
                i <= self.cmds@.len(),
                out@ == spec_u32_bytes(self.cmds@.len() as u32) + spec_encode_records(
                    self.cmds@.subrange(0, i as int),
                ),
            decreases self.cmds@.len() - i,
        {
            let rec = self.cmds[i].encode();
            extend_bytes(&mut out, rec.as_slice());
            proof {
                let p = self.cmds@.subrange(0, i + 1);
                assert(p.drop_last() =~= self.cmds@.subrange(0, i as int));
                assert(out@ =~= spec_u32_bytes(self.cmds@.len() as u32) + spec_encode_records(p));
            }
            i = i + 1;
        }
        assert(self.cmds@.subrange(0, self.cmds@.len() as int) =~= self.cmds@);
        out
    }

    pub fn decode(bytes: &[u8]) -> (r: Result<Self, SgpuWireError>)
        ensures
            match spec_decode_list(bytes@) {
                Ok(cmds) => r matches Ok(l) && l.cmds@ == cmds,
                Err(e) => r matches Err(e2) && e2 == e,
            },
    {
        if bytes.len() > SGPU_MAX_COMMAND_BYTES {
            return Err(SgpuWireError::Limit);
        }
        if bytes.len() < 4 {
            return Err(SgpuWireError::Malformed);
        }
        let count = read_u32_le(bytes, 0);
        if count as usize > SGPU_MAX_COMMANDS {
            return Err(SgpuWireError::Limit);
        }
        if count as usize > (bytes.len() - 4) / 9 {
            return Err(SgpuWireError::Malformed);
        }
        let mut cursor: usize = 4;
        let mut cmds: Vec<SgpuCommand> = Vec::new();
        let mut i: u32 = 0;
        while i < count
            invariant
                i <= count,
                4 <= cursor <= bytes@.len(),
                bytes@.len() <= SGPU_MAX_COMMAND_BYTES,
                spec_decode_list(bytes@) == spec_decode_from(
                    bytes@,
                    cursor as int,
                    (count - i) as nat,
                    cmds@,
                ),
            decreases count - i,
        {
            if cursor >= bytes.len() {
                return Err(SgpuWireError::Malformed);
            }
            let tag = bytes[cursor];
            let length: usize = if tag == 1 {
                25
            } else if tag == 2 {
                17
            } else if tag == 3 {
                29
            } else if tag == 4 {
                9
            } else {
                return Err(SgpuWireError::Malformed);
            };
            let end = cursor + length;
            if end > bytes.len() {
                return Err(SgpuWireError::Malformed);
            }
            let record = sub_slice(bytes, cursor, end);
            let cmd = match SgpuCommand::decode(record) {
                Ok(c) => c,
                Err(e) => return Err(e),
            };
            cmds.push(cmd);
            cursor = end;
            i = i + 1;
        }
        if cursor != bytes.len() {
            return Err(SgpuWireError::Malformed);
        }
        Ok(SgpuCommandList { cmds })
    }

    /// What `decode_window` answers.
    pub open spec fn spec_decode_window(snapshot: Seq<u8>, offset: u64, length: u64) -> Result<
        Seq<SgpuCommand>,
        SgpuWireError,
    > {
        if length > SGPU_MAX_COMMAND_BYTES {
            Err(SgpuWireError::Limit)
        } else if offset + length > u64::MAX {
            Err(SgpuWireError::Range)
        } else if offset + length > snapshot.len() {
            Err(SgpuWireError::Range)
        } else {
            spec_decode_list(snapshot.subrange(offset as int, offset + length))
        }
    }

    /// Decode copied command values from a caller-validated immutable snapshot.
    /// Offsets are byte indices, never host pointers or dereferenced guest VAs.
    pub fn decode_window(snapshot: &[u8], offset: u64, length: u64) -> (r: Result<Self, SgpuWireError>)
        ensures
            match Self::spec_decode_window(snapshot@, offset, length) {
                Ok(cmds) => r matches Ok(l) && l.cmds@ == cmds,
                Err(e) => r matches Err(e2) && e2 == e,
            },
    {
        if length > SGPU_MAX_COMMAND_BYTES as u64 {
            return Err(SgpuWireError::Limit);
        }
        let end = match offset.checked_add(length) {
            Some(e) => e,
            None => return Err(SgpuWireError::Range),
        };
        if end > snapshot.len() as u64 {
            return Err(SgpuWireError::Range);
        }
        let window = sub_slice(snapshot, offset as usize, end as usize);
        Self::decode(window)
    }
}

/// The bytes of `b` in `[start, end)`.
pub fn sub_slice(b: &[u8], start: usize, end: usize) -> (r: &[u8])
    requires
        start <= end <= b@.len(),
    ensures
        r@ == b@.subrange(start as int, end as int),
{
    let (head, _) = b.split_at(end);
    let (_, mid) = head.split_at(start);
    mid
}

} // verus!
