//! The wire format: how each operation becomes a frame, and how a
//! reply is read.

use vstd::prelude::*;

verus! {

/// First byte of every frame.
pub const PREFIX_HIGH: u8 = 0x32;

/// Second byte of every frame.
pub const PREFIX_LOW: u8 = 0xAC;

/// Number of bytes in every reply of the panel.
pub const RESPONSE_SIZE: usize = 32;

/// Number of bytes in a full black-and-white image.
pub const BW_BUFFER_SIZE: usize = 39;

/// Number of pixel rows in a column.
pub const COLUMN_SIZE: usize = 34;

/// Number of columns on the panel.
pub const COLUMNS: usize = 9;

/// The two bytes that open every frame.
pub open spec fn prefix() -> Seq<u8> {
    seq![PREFIX_HIGH, PREFIX_LOW]
}

/// What a frame with the given body looks like on the wire.
pub open spec fn framed(body: Seq<u8>) -> Seq<u8> {
    prefix() + body
}

/// One logical operation of the panel.
#[derive(Clone, Copy, Debug)]
pub enum Command {
    GetBrightness,
    SetBrightness(u8),
    Percent(u8),
    Gradient,
    DoubleGradient,
    LotusHorizontal,
    Zigzag,
    FullBrightness,
    Panic,
    LotusVertical,
    Test,
    GetSleep,
    SetSleep(bool),
    GetAnimate,
    SetAnimate(bool),
    DrawBwBuffer([u8; 39]),
    StageCol(u8, [u8; 34]),
    FlushCols,
}

/// The byte that stands for a flag on the wire: 1 for `true`, 0 for `false`.
pub open spec fn flag_byte(flag: bool) -> u8 {
    if flag {
        1
    } else {
        0
    }
}

/// The flag that a status byte stands for: any nonzero byte is `true`.
pub open spec fn byte_flag(status: u8) -> bool {
    status != 0
}

impl Command {
    /// The byte that follows the prefix.
    pub open spec fn opcode(self) -> u8 {
        match self {
            Command::GetBrightness | Command::SetBrightness(_) => 0x00,
            Command::Percent(_)
            | Command::Gradient
            | Command::DoubleGradient
            | Command::LotusHorizontal
            | Command::Zigzag
            | Command::FullBrightness
            | Command::Panic
            | Command::LotusVertical
            | Command::Test => 0x01,
            Command::GetSleep | Command::SetSleep(_) => 0x03,
            Command::GetAnimate | Command::SetAnimate(_) => 0x04,
            Command::DrawBwBuffer(_) => 0x06,
            Command::StageCol(_, _) => 0x07,
            Command::FlushCols => 0x08,
        }
    }

    /// The bytes that follow the opcode.
    pub open spec fn payload(self) -> Seq<u8> {
        match self {
            Command::GetBrightness => seq![],
            Command::SetBrightness(level) => seq![level],
            Command::Percent(pct) => seq![0x00u8, pct],
            Command::Gradient => seq![0x01u8],
            Command::DoubleGradient => seq![0x02u8],
            Command::LotusHorizontal => seq![0x03u8],
            Command::Zigzag => seq![0x04u8],
            Command::FullBrightness => seq![0x05u8],
            Command::Panic => seq![0x06u8],
            Command::LotusVertical => seq![0x07u8],
            Command::Test => seq![0x08u8],
            Command::GetSleep => seq![],
            Command::SetSleep(sleep) => seq![flag_byte(sleep)],
            Command::GetAnimate => seq![],
            Command::SetAnimate(animate) => seq![flag_byte(animate)],
            Command::DrawBwBuffer(bytes) => bytes@,
            Command::StageCol(col, bytes) => seq![col] + bytes@,
            Command::FlushCols => seq![],
        }
    }

    /// The opcode followed by the payload.
    pub open spec fn body(self) -> Seq<u8> {
        seq![self.opcode()] + self.payload()
    }

    /// The exact bytes written to the link for this operation.
    pub open spec fn frame(self) -> Seq<u8> {
        framed(self.body())
    }

    /// Whether the panel answers this operation with a reply.
    pub open spec fn expects_reply(self) -> bool {
        self is GetBrightness || self is GetSleep || self is GetAnimate
    }
}

/// The frame that stages `pixels` as column `col`.
pub open spec fn stage_frame(col: u8, pixels: Seq<u8>) -> Seq<u8> {
    framed(seq![0x07u8, col] + pixels)
}

/// Appends `bytes` to `out`.
fn append(out: &mut Vec<u8>, bytes: &[u8])
    ensures
        final(out)@ == old(out)@ + bytes@,
{
    let n = bytes.len();
    let mut i: usize = 0;
    while i < n
        invariant
            i <= n,
            n == bytes@.len(),
            out@ == old(out)@ + bytes@.take(i as int),
        decreases n - i,
    {
        out.push(bytes[i]);
        i += 1;
        assert(bytes@.take(i as int) == bytes@.take(i - 1).push(bytes@[i - 1]));
    }
    assert(bytes@.take(n as int) == bytes@);
}

/// Puts the prefix before `body`.
pub fn frame_of(body: &[u8]) -> (frame: Vec<u8>)
    ensures
        frame@ == framed(body@),
{
    let mut frame: Vec<u8> = Vec::new();
    frame.push(PREFIX_HIGH);
    frame.push(PREFIX_LOW);
    append(&mut frame, body);
    frame
}

/// The byte sent for a flag.
pub fn encode_flag(flag: bool) -> (byte: u8)
    ensures
        byte == flag_byte(flag),
{
    if flag {
        1
    } else {
        0
    }
}

/// The status byte of a reply: its first byte. The other 31 bytes
/// carry nothing.
pub fn status_byte(response: &[u8; 32]) -> (status: u8)
    ensures
        status == response@[0],
{
    response[0]
}

/// Reads a status byte as a flag.
pub fn decode_flag(status: u8) -> (flag: bool)
    ensures
        flag == byte_flag(status),
{
    status != 0
}

/// Reads each status byte as a flag.
pub fn decode_flags(statuses: &Vec<u8>) -> (flags: Vec<bool>)
    ensures
        flags@ == statuses@.map_values(|status: u8| byte_flag(status)),
{
    let mut flags: Vec<bool> = Vec::new();
    let n = statuses.len();
    let mut i: usize = 0;
    while i < n
        invariant
            i <= n,
            n == statuses.len(),
            flags.len() == i,
            forall|j: int| 0 <= j < i ==> flags@[j] == byte_flag(statuses@[j]),
        decreases n - i,
    {
        flags.push(decode_flag(statuses[i]));
        i += 1;
    }
    assert(flags@ =~= statuses@.map_values(|status: u8| byte_flag(status)));
    flags
}

impl Command {
    /// Encodes the opcode and the payload of the operation.
    pub fn encode_body(&self) -> (body: Vec<u8>)
        ensures
            body@ == self.body(),
    {
        let mut body: Vec<u8> = Vec::new();
        match self {
            Command::GetBrightness => {
                body.push(0x00);
            },
            Command::SetBrightness(level) => {
                body.push(0x00);
                body.push(*level);
            },
            Command::Percent(pct) => {
                body.push(0x01);
                body.push(0x00);
                body.push(*pct);
            },
            Command::Gradient => {
                body.push(0x01);
                body.push(0x01);
            },
            Command::DoubleGradient => {
                body.push(0x01);
                body.push(0x02);
            },
            Command::LotusHorizontal => {
                body.push(0x01);
                body.push(0x03);
            },
            Command::Zigzag => {
                body.push(0x01);
                body.push(0x04);
            },
            Command::FullBrightness => {
                body.push(0x01);
                body.push(0x05);
            },
            Command::Panic => {
                body.push(0x01);
                body.push(0x06);
            },
            Command::LotusVertical => {
                body.push(0x01);
                body.push(0x07);
            },
            Command::Test => {
                body.push(0x01);
                body.push(0x08);
            },
            Command::GetSleep => {
                body.push(0x03);
            },
            Command::SetSleep(sleep) => {
                body.push(0x03);
                body.push(encode_flag(*sleep));
            },
            Command::GetAnimate => {
                body.push(0x04);
            },
            Command::SetAnimate(animate) => {
                body.push(0x04);
                body.push(encode_flag(*animate));
            },
            Command::DrawBwBuffer(bytes) => {
                body.push(0x06);
                append(&mut body, bytes.as_slice());
            },
            Command::StageCol(col, bytes) => {
                body.push(0x07);
                body.push(*col);
                append(&mut body, bytes.as_slice());
            },
            Command::FlushCols => {
                body.push(0x08);
            },
        }
        body
    }

    /// Encodes the operation as the frame to write.
    pub fn encode(&self) -> (frame: Vec<u8>)
        ensures
            frame@ == self.frame(),
    {
        let body = self.encode_body();
        frame_of(body.as_slice())
    }

    /// Whether a reply must be read after the frame is written.
    pub fn awaits_reply(&self) -> (reply: bool)
        ensures
            reply == self.expects_reply(),
    {
        match self {
            Command::GetBrightness | Command::GetSleep | Command::GetAnimate => true,
            _ => false,
        }
    }
}

/// Every frame opens with the prefix, whatever the operation.
pub proof fn lemma_frame_starts_with_prefix(command: Command)
    ensures
        command.frame().len() >= 3,
        command.frame().subrange(0, 2) == prefix(),
        command.frame()[0] == PREFIX_HIGH,
        command.frame()[1] == PREFIX_LOW,
        command.frame()[2] == command.opcode(),
{
}

/// The length of a frame is fixed by the operation alone.
pub proof fn lemma_frame_length(command: Command)
    ensures
        command.frame().len() == 3 + command.payload().len(),
        command.payload().len() == match command {
            Command::SetBrightness(_) | Command::SetSleep(_) | Command::SetAnimate(_) => 1nat,
            Command::Percent(_) => 2nat,
            Command::Gradient
            | Command::DoubleGradient
            | Command::LotusHorizontal
            | Command::Zigzag
            | Command::FullBrightness
            | Command::Panic
            | Command::LotusVertical
            | Command::Test => 1nat,
            Command::DrawBwBuffer(_) => BW_BUFFER_SIZE as nat,
            Command::StageCol(_, _) => (1 + COLUMN_SIZE) as nat,
            Command::GetBrightness
            | Command::GetSleep
            | Command::GetAnimate
            | Command::FlushCols => 0nat,
        },
{
}

/// The frame of a staged column is the staging frame of its pixels.
pub proof fn lemma_stage_frame(col: u8, pixels: [u8; 34])
    ensures
        Command::StageCol(col, pixels).frame() == stage_frame(col, pixels@),
{
    assert(Command::StageCol(col, pixels).body() =~= seq![0x07u8, col] + pixels@);
}

/// A flag survives the trip through its wire byte.
pub proof fn lemma_flag_round_trip(flag: bool)
    ensures
        byte_flag(flag_byte(flag)) == flag,
        flag_byte(flag) == 0 || flag_byte(flag) == 1,
{
}

} // verus!
