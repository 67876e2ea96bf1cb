//! Byte-exact layout of every message on the serial link.
//!
//! Every numeric field is little-endian and packed at its natural width with
//! no padding; message boundaries are implicit in the fixed sizes.  Fields
//! that carry IEEE-754 single-precision values on the wire are held here as
//! their raw 32-bit patterns, so encoding and decoding are exact.

use vstd::bytes::*;
use vstd::prelude::*;

use crate::error::ProtoError;

verus! {

broadcast use vstd::seq::group_seq_axioms;

/// Size in bytes of an encoded `Config`.
pub const CONFIG_SIZE: usize = 49;

/// Size in bytes of an encoded `Command` (one tag byte plus a `Config`).
pub const COMMAND_SIZE: usize = 50;

/// Size in bytes of an encoded `StatusData` (one flag byte plus a `Config`).
pub const STATUS_SIZE: usize = 50;

/// Size in bytes of an encoded `Frame`.
pub const FRAME_SIZE: usize = 82;

/// Number of `Frame` slots in one telemetry batch.
pub const FRAMES_PER_BATCH: usize = 42;

/// Size in bytes of an encoded `SensorBuf`: sentinel, count, 42 frames.
pub const SENSOR_BUF_SIZE: usize = 3449;

/// Size in bytes of one encoded `ReplayData` step.
pub const REPLAY_STEP_SIZE: usize = 8;

// ---------------------------------------------------------------------------
// Little-endian field helpers
// ---------------------------------------------------------------------------

pub open spec fn spec_i32_to_le_bytes(x: i32) -> Seq<u8> {
    spec_u32_to_le_bytes(x as u32)
}

pub open spec fn spec_i32_from_le_bytes(s: Seq<u8>) -> i32 {
    spec_u32_from_le_bytes(s) as i32
}

/// The single wire byte that stands for a boolean.
pub open spec fn spec_bool_byte(b: bool) -> u8 {
    if b {
        1
    } else {
        0
    }
}

/// Round trip of the signed-integer cast pair used by the i32 field helpers.
pub proof fn lemma_i32_le_round_trip(x: i32)
    ensures
        spec_i32_from_le_bytes(spec_i32_to_le_bytes(x)) == x,
{
    lemma_auto_spec_u32_to_from_le_bytes();
    assert(spec_u32_to_le_bytes((x as u32)).len() == 4);
    assert(((x as u32) as i32) == x) by (bit_vector);
}

/// How the elements of a concatenation relate to its two parts.
proof fn lemma_concat_piece(s: Seq<u8>, a: Seq<u8>, b: Seq<u8>)
    requires
        s == a + b,
    ensures
        s.len() == a.len() + b.len(),
        forall|i: int| 0 <= i < a.len() ==> s[i] == a[i],
        forall|i: int| a.len() <= i < s.len() ==> s[i] == b[i - a.len()],
{
}

fn push_u32_le(out: &mut Vec<u8>, x: u32)
    ensures
        final(out)@ == old(out)@ + spec_u32_to_le_bytes(x),
{
    let mut s = u32_to_le_bytes(x);
    out.append(&mut s);
}

fn push_i32_le(out: &mut Vec<u8>, x: i32)
    ensures
        final(out)@ == old(out)@ + spec_i32_to_le_bytes(x),
{
    push_u32_le(out, x as u32);
}

fn push_bool(out: &mut Vec<u8>, b: bool)
    ensures
        final(out)@ == old(out)@ + seq![spec_bool_byte(b)],
{
    out.push(if b {
        1
    } else {
        0
    });
    proof {
        assert(out@ =~= old(out)@ + seq![spec_bool_byte(b)]);
    }
}

fn read_u32_le(bytes: &[u8], off: usize) -> (r: u32)
    requires
        off + 4 <= bytes@.len(),
    ensures
        r == spec_u32_from_le_bytes(bytes@.subrange(off as int, off as int + 4)),
{
    let n: usize = bytes.len();
    assert(off + 4 <= n);
    let s = vstd::slice::slice_subrange(bytes, off, off + 4);
    u32_from_le_bytes(s)
}

fn read_i32_le(bytes: &[u8], off: usize) -> (r: i32)
    requires
        off + 4 <= bytes@.len(),
    ensures
        r == spec_i32_from_le_bytes(bytes@.subrange(off as int, off as int + 4)),
{
    read_u32_le(bytes, off) as i32
}

// ---------------------------------------------------------------------------
// Config
// ---------------------------------------------------------------------------

/// Calibration and control parameters, transmitted verbatim to the device.
///
/// `param`, `p_gain`, `alpha` and `mass` carry IEEE-754 single-precision bit
/// patterns; the remaining fields are plain integers and a flag.
#[derive(Clone, Copy, PartialEq, Eq, Structural, Debug)]
pub struct Config {
    pub init: u32,
    pub s1min: i32,
    pub s2min: i32,
    pub s3min: i32,
    pub s1max: i32,
    pub s2max: i32,
    pub s3max: i32,
    pub control: bool,
    pub param: u32,
    pub starttime: u32,
    pub p_gain: u32,
    pub alpha: u32,
    pub mass: u32,
}

/// The all-zero configuration used as the payload of commands that carry none.
pub open spec fn spec_config_zero() -> Config {
    Config {
        init: 0,
        s1min: 0,
        s2min: 0,
        s3min: 0,
        s1max: 0,
        s2max: 0,
        s3max: 0,
        control: false,
        param: 0,
        starttime: 0,
        p_gain: 0,
        alpha: 0,
        mass: 0,
    }
}

impl Default for Config {
    fn default() -> (r: Config)
        ensures
            r == spec_config_zero(),
    {
        Config {
            init: 0,
            s1min: 0,
            s2min: 0,
            s3min: 0,
            s1max: 0,
            s2max: 0,
            s3max: 0,
            control: false,
            param: 0,
            starttime: 0,
            p_gain: 0,
            alpha: 0,
            mass: 0,
        }
    }
}

/// Exact wire image of a `Config`: field order and widths are fixed by the
/// firmware and must never change silently.
pub open spec fn spec_config_bytes(c: Config) -> Seq<u8> {
    spec_u32_to_le_bytes(c.init) + spec_i32_to_le_bytes(c.s1min) + spec_i32_to_le_bytes(c.s2min)
        + spec_i32_to_le_bytes(c.s3min) + spec_i32_to_le_bytes(c.s1max) + spec_i32_to_le_bytes(
        c.s2max,
    ) + spec_i32_to_le_bytes(c.s3max) + seq![spec_bool_byte(c.control)] + spec_u32_to_le_bytes(
        c.param,
    ) + spec_u32_to_le_bytes(c.starttime) + spec_u32_to_le_bytes(c.p_gain) + spec_u32_to_le_bytes(
        c.alpha,
    ) + spec_u32_to_le_bytes(c.mass)
}

/// The `Config` read from 49 bytes starting at `off`.
pub open spec fn spec_config_of_bytes(s: Seq<u8>, off: int) -> Config {
    Config {
        init: spec_u32_from_le_bytes(s.subrange(off, off + 4)),
        s1min: spec_i32_from_le_bytes(s.subrange(off + 4, off + 8)),
        s2min: spec_i32_from_le_bytes(s.subrange(off + 8, off + 12)),
        s3min: spec_i32_from_le_bytes(s.subrange(off + 12, off + 16)),
        s1max: spec_i32_from_le_bytes(s.subrange(off + 16, off + 20)),
        s2max: spec_i32_from_le_bytes(s.subrange(off + 20, off + 24)),
        s3max: spec_i32_from_le_bytes(s.subrange(off + 24, off + 28)),
        control: s[off + 28] != 0,
        param: spec_u32_from_le_bytes(s.subrange(off + 29, off + 33)),
        starttime: spec_u32_from_le_bytes(s.subrange(off + 33, off + 37)),
        p_gain: spec_u32_from_le_bytes(s.subrange(off + 37, off + 41)),
        alpha: spec_u32_from_le_bytes(s.subrange(off + 41, off + 45)),
        mass: spec_u32_from_le_bytes(s.subrange(off + 45, off + 49)),
    }
}

/// Appends the 49-byte image of `c` to `out`.
pub fn encode_config_into(out: &mut Vec<u8>, c: &Config)
    ensures
        final(out)@ == old(out)@ + spec_config_bytes(*c),
        spec_config_bytes(*c).len() == CONFIG_SIZE,
{
    push_u32_le(out, c.init);
    push_i32_le(out, c.s1min);
    push_i32_le(out, c.s2min);
    push_i32_le(out, c.s3min);
    push_i32_le(out, c.s1max);
    push_i32_le(out, c.s2max);
    push_i32_le(out, c.s3max);
    push_bool(out, c.control);
    push_u32_le(out, c.param);
    push_u32_le(out, c.starttime);
    push_u32_le(out, c.p_gain);
    push_u32_le(out, c.alpha);
    push_u32_le(out, c.mass);
    proof {
        lemma_auto_spec_u32_to_from_le_bytes();
        assert(out@ =~= old(out)@ + spec_config_bytes(*c));
    }
}

/// Reads the `Config` at `off`; always succeeds when the slice is long enough.
pub fn decode_config_at(bytes: &[u8], off: usize) -> (r: Config)
    requires
        off + CONFIG_SIZE <= bytes@.len(),
    ensures
        r == spec_config_of_bytes(bytes@, off as int),
{
    let n: usize = bytes.len();
    assert(off + CONFIG_SIZE <= n);
    Config {
        init: read_u32_le(bytes, off),
        s1min: read_i32_le(bytes, off + 4),
        s2min: read_i32_le(bytes, off + 8),
        s3min: read_i32_le(bytes, off + 12),
        s1max: read_i32_le(bytes, off + 16),
        s2max: read_i32_le(bytes, off + 20),
        s3max: read_i32_le(bytes, off + 24),
        control: bytes[off + 28] != 0,
        param: read_u32_le(bytes, off + 29),
        starttime: read_u32_le(bytes, off + 33),
        p_gain: read_u32_le(bytes, off + 37),
        alpha: read_u32_le(bytes, off + 41),
        mass: read_u32_le(bytes, off + 45),
    }
}

/// Decoding undoes encoding for every `Config` value, wherever its image
/// stands inside a larger buffer.
pub proof fn lemma_config_round_trip(s: Seq<u8>, off: int, c: Config)
    requires
        0 <= off,
        off + CONFIG_SIZE <= s.len(),
        s.subrange(off, off + CONFIG_SIZE) == spec_config_bytes(c),
    ensures
        spec_config_of_bytes(s, off) == c,
{
    lemma_auto_spec_u32_to_from_le_bytes();
    let p0 = spec_u32_to_le_bytes(c.init);
    let p1 = spec_u32_to_le_bytes((c.s1min as u32));
    let p2 = spec_u32_to_le_bytes((c.s2min as u32));
    let p3 = spec_u32_to_le_bytes((c.s3min as u32));
    let p4 = spec_u32_to_le_bytes((c.s1max as u32));
    let p5 = spec_u32_to_le_bytes((c.s2max as u32));
    let p6 = spec_u32_to_le_bytes((c.s3max as u32));
    let p7 = seq![spec_bool_byte(c.control)];
    let p8 = spec_u32_to_le_bytes(c.param);
    let p9 = spec_u32_to_le_bytes(c.starttime);
    let p10 = spec_u32_to_le_bytes(c.p_gain);
    let p11 = spec_u32_to_le_bytes(c.alpha);
    let p12 = spec_u32_to_le_bytes(c.mass);
    assert(p0.len() == 4 && p1.len() == 4 && p2.len() == 4 && p3.len() == 4 && p4.len() == 4
        && p5.len() == 4 && p6.len() == 4 && p7.len() == 1 && p8.len() == 4 && p9.len() == 4
        && p10.len() == 4 && p11.len() == 4 && p12.len() == 4);
    let q1 = p0 + p1;
    let q2 = q1 + p2;
    let q3 = q2 + p3;
    let q4 = q3 + p4;
    let q5 = q4 + p5;
    let q6 = q5 + p6;
    let q7 = q6 + p7;
    let q8 = q7 + p8;
    let q9 = q8 + p9;
    let q10 = q9 + p10;
    let q11 = q10 + p11;
    let q12 = q11 + p12;
    assert(spec_config_bytes(c) == q12);
    lemma_concat_piece(q1, p0, p1);
    lemma_concat_piece(q2, q1, p2);
    lemma_concat_piece(q3, q2, p3);
    lemma_concat_piece(q4, q3, p4);
    lemma_concat_piece(q5, q4, p5);
    lemma_concat_piece(q6, q5, p6);
    lemma_concat_piece(q7, q6, p7);
    lemma_concat_piece(q8, q7, p8);
    lemma_concat_piece(q9, q8, p9);
    lemma_concat_piece(q10, q9, p10);
    lemma_concat_piece(q11, q10, p11);
    lemma_concat_piece(q12, q11, p12);
    assert forall|i: int| 0 <= i < 49 implies #[trigger] s[off + i] == q12[i] by {
        assert(s.subrange(off, off + 49)[i] == q12[i]);
    }
    assert forall|j: int| 0 <= j < 4 implies s.subrange(off, off + 4)[j] == p0[j] by {
        assert(s[off + j] == q12[j]);
    }
    assert(s.subrange(off, off + 4) =~= p0);
    assert forall|j: int| 0 <= j < 4 implies s.subrange(off + 4, off + 8)[j] == p1[j] by {
        assert(s[off + (4 + j)] == q12[4 + j]);
    }
    assert(s.subrange(off + 4, off + 8) =~= p1);
    assert forall|j: int| 0 <= j < 4 implies s.subrange(off + 8, off + 12)[j] == p2[j] by {
        assert(s[off + (8 + j)] == q12[8 + j]);
    }
    assert(s.subrange(off + 8, off + 12) =~= p2);
    assert forall|j: int| 0 <= j < 4 implies s.subrange(off + 12, off + 16)[j] == p3[j] by {
        assert(s[off + (12 + j)] == q12[12 + j]);
    }
    assert(s.subrange(off + 12, off + 16) =~= p3);
    assert forall|j: int| 0 <= j < 4 implies s.subrange(off + 16, off + 20)[j] == p4[j] by {
        assert(s[off + (16 + j)] == q12[16 + j]);
    }
    assert(s.subrange(off + 16, off + 20) =~= p4);
    assert forall|j: int| 0 <= j < 4 implies s.subrange(off + 20, off + 24)[j] == p5[j] by {
        assert(s[off + (20 + j)] == q12[20 + j]);
    }
    assert(s.subrange(off + 20, off + 24) =~= p5);
    assert forall|j: int| 0 <= j < 4 implies s.subrange(off + 24, off + 28)[j] == p6[j] by {
        assert(s[off + (24 + j)] == q12[24 + j]);
    }
    assert(s.subrange(off + 24, off + 28) =~= p6);
    assert(s[off + 28] == spec_bool_byte(c.control));
    assert forall|j: int| 0 <= j < 4 implies s.subrange(off + 29, off + 33)[j] == p8[j] by {
        assert(s[off + (29 + j)] == q12[29 + j]);
    }
    assert(s.subrange(off + 29, off + 33) =~= p8);
    assert forall|j: int| 0 <= j < 4 implies s.subrange(off + 33, off + 37)[j] == p9[j] by {
        assert(s[off + (33 + j)] == q12[33 + j]);
    }
    assert(s.subrange(off + 33, off + 37) =~= p9);
    assert forall|j: int| 0 <= j < 4 implies s.subrange(off + 37, off + 41)[j] == p10[j] by {
        assert(s[off + (37 + j)] == q12[37 + j]);
    }
    assert(s.subrange(off + 37, off + 41) =~= p10);
    assert forall|j: int| 0 <= j < 4 implies s.subrange(off + 41, off + 45)[j] == p11[j] by {
        assert(s[off + (41 + j)] == q12[41 + j]);
    }
    assert(s.subrange(off + 41, off + 45) =~= p11);
    assert forall|j: int| 0 <= j < 4 implies s.subrange(off + 45, off + 49)[j] == p12[j] by {
        assert(s[off + (45 + j)] == q12[45 + j]);
    }
    assert(s.subrange(off + 45, off + 49) =~= p12);
    lemma_i32_le_round_trip(c.s1min);
    lemma_i32_le_round_trip(c.s2min);
    lemma_i32_le_round_trip(c.s3min);
    lemma_i32_le_round_trip(c.s1max);
    lemma_i32_le_round_trip(c.s2max);
    lemma_i32_le_round_trip(c.s3max);
}

// ---------------------------------------------------------------------------
// Command
// ---------------------------------------------------------------------------

/// The operation requested of the device.
#[derive(Clone, Copy, PartialEq, Eq, Structural, Debug)]
pub enum CommandType {
    ServoMin,
    ServoMax,
    Status,
    ConfigWrite,
    DataRead,
    FlightReplay,
}

/// The one-byte wire tag of each operation.
pub open spec fn spec_command_tag(t: CommandType) -> u8 {
    match t {
        CommandType::ServoMin => 0,
        CommandType::ServoMax => 1,
        CommandType::Status => 2,
        CommandType::ConfigWrite => 3,
        CommandType::DataRead => 4,
        CommandType::FlightReplay => 5,
    }
}

/// The operation named by a wire tag, if the tag is known.
pub open spec fn spec_command_of_tag(b: u8) -> Option<CommandType> {
    if b == 0 {
        Some(CommandType::ServoMin)
    } else if b == 1 {
        Some(CommandType::ServoMax)
    } else if b == 2 {
        Some(CommandType::Status)
    } else if b == 3 {
        Some(CommandType::ConfigWrite)
    } else if b == 4 {
        Some(CommandType::DataRead)
    } else if b == 5 {
        Some(CommandType::FlightReplay)
    } else {
        None
    }
}

impl CommandType {
    pub fn tag(&self) -> (r: u8)
        ensures
            r == spec_command_tag(*self),
    {
        match self {
            CommandType::ServoMin => 0,
            CommandType::ServoMax => 1,
            CommandType::Status => 2,
            CommandType::ConfigWrite => 3,
            CommandType::DataRead => 4,
            CommandType::FlightReplay => 5,
        }
    }

    pub fn of_tag(b: u8) -> (r: Option<CommandType>)
        ensures
            r == spec_command_of_tag(b),
    {
        if b == 0 {
            Some(CommandType::ServoMin)
        } else if b == 1 {
            Some(CommandType::ServoMax)
        } else if b == 2 {
            Some(CommandType::Status)
        } else if b == 3 {
            Some(CommandType::ConfigWrite)
        } else if b == 4 {
            Some(CommandType::DataRead)
        } else if b == 5 {
            Some(CommandType::FlightReplay)
        } else {
            None
        }
    }
}

/// A full request: one tag byte followed by a `Config` payload.
#[derive(Clone, Copy, PartialEq, Eq, Structural, Debug)]
pub struct Command {
    pub command_type: CommandType,
    pub config: Config,
}

/// Exact wire image of a `Command`: always `1 + CONFIG_SIZE` bytes.
pub open spec fn spec_command_bytes(cmd: Command) -> Seq<u8> {
    seq![spec_command_tag(cmd.command_type)] + spec_config_bytes(cmd.config)
}

/// Encodes a command; the result has constant length `COMMAND_SIZE`
/// regardless of the field values.
pub fn encode_command(cmd: &Command) -> (r: Vec<u8>)
    ensures
        r@ == spec_command_bytes(*cmd),
        r@.len() == COMMAND_SIZE,
{
    let mut out: Vec<u8> = Vec::new();
    out.push(cmd.command_type.tag());
    proof {
        assert(out@ =~= seq![spec_command_tag(cmd.command_type)]);
    }
    encode_config_into(&mut out, &cmd.config);
    proof {
        lemma_auto_spec_u32_to_from_le_bytes();
    }
    out
}

/// Decodes a command buffer.  Fails exactly when the length is not
/// `COMMAND_SIZE` or the tag byte names no operation.
pub fn decode_command(bytes: &[u8]) -> (r: Result<Command, ProtoError>)
    ensures
        r is Ok <==> (bytes@.len() == COMMAND_SIZE && spec_command_of_tag(bytes@[0]) is Some),
        r is Ok ==> r->Ok_0 == (Command {
            command_type: spec_command_of_tag(bytes@[0])->Some_0,
            config: spec_config_of_bytes(bytes@, 1),
        }),
        r is Err ==> r->Err_0 == ProtoError::FormatError,
{
    if bytes.len() != COMMAND_SIZE {
        return Err(ProtoError::FormatError);
    }
    let tag = bytes[0];
    match CommandType::of_tag(tag) {
        None => Err(ProtoError::FormatError),
        Some(t) => Ok(Command { command_type: t, config: decode_config_at(bytes, 1) }),
    }
}

/// Encoding then decoding recovers every command exactly, so re-encoding
/// recovers the exact byte sequence of length `1 + CONFIG_SIZE`.
pub proof fn lemma_command_round_trip(cmd: Command)
    ensures
        spec_command_bytes(cmd).len() == COMMAND_SIZE,
        spec_command_of_tag(spec_command_bytes(cmd)[0]) == Some(cmd.command_type),
        spec_config_of_bytes(spec_command_bytes(cmd), 1) == cmd.config,
{
    lemma_auto_spec_u32_to_from_le_bytes();
    let s = spec_command_bytes(cmd);
    assert(s.subrange(1, 1 + CONFIG_SIZE as int) =~= spec_config_bytes(cmd.config));
    lemma_config_round_trip(s, 1, cmd.config);
}

// ---------------------------------------------------------------------------
// StatusData
// ---------------------------------------------------------------------------

/// The device's reply to a status query: whether a completed flight log is
/// available, and an echo of the active configuration.
#[derive(Clone, Copy, PartialEq, Eq, Structural, Debug)]
pub struct StatusData {
    pub has_data: bool,
    pub config: Config,
}

impl Default for StatusData {
    fn default() -> (r: StatusData)
        ensures
            r == (StatusData { has_data: false, config: spec_config_zero() }),
    {
        StatusData { has_data: false, config: Config::default() }
    }
}

/// Exact wire image of a `StatusData`.
pub open spec fn spec_status_bytes(st: StatusData) -> Seq<u8> {
    seq![spec_bool_byte(st.has_data)] + spec_config_bytes(st.config)
}

pub fn encode_status(st: &StatusData) -> (r: Vec<u8>)
    ensures
        r@ == spec_status_bytes(*st),
        r@.len() == STATUS_SIZE,
{
    let mut out: Vec<u8> = Vec::new();
    push_bool(&mut out, st.has_data);
    proof {
        assert(out@ =~= seq![spec_bool_byte(st.has_data)]);
    }
    encode_config_into(&mut out, &st.config);
    proof {
        lemma_auto_spec_u32_to_from_le_bytes();
    }
    out
}

/// Decodes a status reply.  Fails exactly when the length is not
/// `STATUS_SIZE`.
pub fn decode_status(bytes: &[u8]) -> (r: Result<StatusData, ProtoError>)
    ensures
        r is Ok <==> bytes@.len() == STATUS_SIZE,
        r is Ok ==> r->Ok_0 == (StatusData {
            has_data: bytes@[0] != 0,
            config: spec_config_of_bytes(bytes@, 1),
        }),
        r is Err ==> r->Err_0 == ProtoError::FormatError,
{
    if bytes.len() != STATUS_SIZE {
        return Err(ProtoError::FormatError);
    }
    Ok(StatusData { has_data: bytes[0] != 0, config: decode_config_at(bytes, 1) })
}

/// Encoding then decoding recovers every status value exactly.
pub proof fn lemma_status_round_trip(st: StatusData)
    ensures
        spec_status_bytes(st).len() == STATUS_SIZE,
        spec_status_bytes(st)[0] != 0 <==> st.has_data,
        spec_config_of_bytes(spec_status_bytes(st), 1) == st.config,
{
    lemma_auto_spec_u32_to_from_le_bytes();
    let s = spec_status_bytes(st);
    assert(s.subrange(1, 1 + CONFIG_SIZE as int) =~= spec_config_bytes(st.config));
    lemma_config_round_trip(s, 1, st.config);
}

// ---------------------------------------------------------------------------
// Frame
// ---------------------------------------------------------------------------

/// One telemetry sample.  `time` is the monotonic device timestamp; `state`
/// is the discrete flight-state code and `samples` the per-batch sample
/// count; every other field carries an IEEE-754 single-precision bit pattern.
#[derive(Clone, Copy, PartialEq, Eq, Structural, Debug)]
pub struct Frame {
    pub time: u32,
    pub alt: u32,
    pub vz: u32,
    pub vx: u32,
    pub vy: u32,
    pub az: u32,
    pub pre: u32,
    pub servo: u32,
    pub ax: u32,
    pub ay: u32,
    pub axr: u32,
    pub ayr: u32,
    pub azr: u32,
    pub gxr: u32,
    pub gyr: u32,
    pub gzr: u32,
    pub target: u32,
    pub altr: u32,
    pub baro: u32,
    pub temp: u32,
    pub state: u8,
    pub samples: u8,
}

/// The `Frame` read from 82 bytes starting at `off`.
pub open spec fn spec_frame_of_bytes(s: Seq<u8>, off: int) -> Frame {
    Frame {
        time: spec_u32_from_le_bytes(s.subrange(off, off + 4)),
        alt: spec_u32_from_le_bytes(s.subrange(off + 4, off + 8)),
        vz: spec_u32_from_le_bytes(s.subrange(off + 8, off + 12)),
        vx: spec_u32_from_le_bytes(s.subrange(off + 12, off + 16)),
        vy: spec_u32_from_le_bytes(s.subrange(off + 16, off + 20)),
        az: spec_u32_from_le_bytes(s.subrange(off + 20, off + 24)),
        pre: spec_u32_from_le_bytes(s.subrange(off + 24, off + 28)),
        servo: spec_u32_from_le_bytes(s.subrange(off + 28, off + 32)),
        ax: spec_u32_from_le_bytes(s.subrange(off + 32, off + 36)),
        ay: spec_u32_from_le_bytes(s.subrange(off + 36, off + 40)),
        axr: spec_u32_from_le_bytes(s.subrange(off + 40, off + 44)),
        ayr: spec_u32_from_le_bytes(s.subrange(off + 44, off + 48)),
        azr: spec_u32_from_le_bytes(s.subrange(off + 48, off + 52)),
        gxr: spec_u32_from_le_bytes(s.subrange(off + 52, off + 56)),
        gyr: spec_u32_from_le_bytes(s.subrange(off + 56, off + 60)),
        gzr: spec_u32_from_le_bytes(s.subrange(off + 60, off + 64)),
        target: spec_u32_from_le_bytes(s.subrange(off + 64, off + 68)),
        altr: spec_u32_from_le_bytes(s.subrange(off + 68, off + 72)),
        baro: spec_u32_from_le_bytes(s.subrange(off + 72, off + 76)),
        temp: spec_u32_from_le_bytes(s.subrange(off + 76, off + 80)),
        state: s[off + 80],
        samples: s[off + 81],
    }
}

/// Reads the `Frame` at `off`; always succeeds when the slice is long enough.
pub fn decode_frame_at(bytes: &[u8], off: usize) -> (r: Frame)
    requires
        off + FRAME_SIZE <= bytes@.len(),
    ensures
        r == spec_frame_of_bytes(bytes@, off as int),
{
    let n: usize = bytes.len();
    assert(off + FRAME_SIZE <= n);
    Frame {
        time: read_u32_le(bytes, off),
        alt: read_u32_le(bytes, off + 4),
        vz: read_u32_le(bytes, off + 8),
        vx: read_u32_le(bytes, off + 12),
        vy: read_u32_le(bytes, off + 16),
        az: read_u32_le(bytes, off + 20),
        pre: read_u32_le(bytes, off + 24),
        servo: read_u32_le(bytes, off + 28),
        ax: read_u32_le(bytes, off + 32),
        ay: read_u32_le(bytes, off + 36),
        axr: read_u32_le(bytes, off + 40),
        ayr: read_u32_le(bytes, off + 44),
        azr: read_u32_le(bytes, off + 48),
        gxr: read_u32_le(bytes, off + 52),
        gyr: read_u32_le(bytes, off + 56),
        gzr: read_u32_le(bytes, off + 60),
        target: read_u32_le(bytes, off + 64),
        altr: read_u32_le(bytes, off + 68),
        baro: read_u32_le(bytes, off + 72),
        temp: read_u32_le(bytes, off + 76),
        state: bytes[off + 80],
        samples: bytes[off + 81],
    }
}

// ---------------------------------------------------------------------------
// SensorBuf
// ---------------------------------------------------------------------------

/// One telemetry batch envelope: a zero/non-zero end-of-stream sentinel, the
/// number of valid frames, and 42 frame slots of which only the first
/// `sample_count` are meaningful.
#[derive(Clone, PartialEq, Eq, Debug)]
pub struct SensorBuf {
    pub zero: u32,
    pub sample_count: u8,
    pub frames: Vec<Frame>,
}

/// The 42 frame slots read from a full batch buffer.
pub open spec fn spec_sensor_frames(s: Seq<u8>) -> Seq<Frame> {
    Seq::new(FRAMES_PER_BATCH as nat, |i: int| spec_frame_of_bytes(s, 5 + 82 * i))
}

/// Decodes a telemetry batch.  Fails exactly when the input is not exactly
/// `SENSOR_BUF_SIZE` bytes, whatever those bytes hold.
pub fn decode_sensor_buf(bytes: &[u8]) -> (r: Result<SensorBuf, ProtoError>)
    ensures
        r is Ok <==> bytes@.len() == SENSOR_BUF_SIZE,
        r is Ok ==> r->Ok_0.zero == spec_u32_from_le_bytes(bytes@.subrange(0, 4)),
        r is Ok ==> r->Ok_0.sample_count == bytes@[4],
        r is Ok ==> r->Ok_0.frames@ == spec_sensor_frames(bytes@),
        r is Err ==> r->Err_0 == ProtoError::FormatError,
{
    if bytes.len() != SENSOR_BUF_SIZE {
        return Err(ProtoError::FormatError);
    }
    let zero = read_u32_le(bytes, 0);
    let sample_count = bytes[4];
    let mut frames: Vec<Frame> = Vec::new();
    for i in 0..FRAMES_PER_BATCH
        invariant
            bytes@.len() == SENSOR_BUF_SIZE,
            frames@.len() == i,
            forall|j: int| 0 <= j < i ==> frames@[j] == spec_frame_of_bytes(bytes@, 5 + 82 * j),
    {
        let f = decode_frame_at(bytes, 5 + FRAME_SIZE * i);
        frames.push(f);
    }
    proof {
        assert(frames@ =~= spec_sensor_frames(bytes@));
    }
    Ok(SensorBuf { zero, sample_count, frames })
}

// ---------------------------------------------------------------------------
// ReplayData
// ---------------------------------------------------------------------------

/// One actuator-replay step: a delay in milliseconds (`-1` marks a padding
/// slot carrying no step) and a target angle as an IEEE-754 bit pattern.
#[derive(Clone, Copy, PartialEq, Eq, Structural, Debug)]
pub struct ReplayData {
    pub delay: i32,
    pub servo: u32,
}

/// Exact wire image of one replay step.
pub open spec fn spec_replay_bytes(r: ReplayData) -> Seq<u8> {
    spec_i32_to_le_bytes(r.delay) + spec_u32_to_le_bytes(r.servo)
}

/// Appends the 8-byte image of one replay step to `out`.
pub fn encode_replay_into(out: &mut Vec<u8>, r: &ReplayData)
    ensures
        final(out)@ == old(out)@ + spec_replay_bytes(*r),
        spec_replay_bytes(*r).len() == REPLAY_STEP_SIZE,
{
    push_i32_le(out, r.delay);
    push_u32_le(out, r.servo);
    proof {
        lemma_auto_spec_u32_to_from_le_bytes();
        assert(out@ =~= old(out)@ + spec_replay_bytes(*r));
    }
}

} // verus!
