//! A model of the panel's firmware: what a panel does with the frames
//! it is sent and what it replies.

use vstd::prelude::*;
use core::time::Duration;
use crate::codec::{
    byte_flag, decode_flag, encode_flag, flag_byte, Command, COLUMNS, COLUMN_SIZE, PREFIX_HIGH,
    PREFIX_LOW,
};
use crate::discovery::Endpoint;
use crate::error::{Error, IoKind};
use crate::codec::stage_frame;
use crate::fanout::{
    delivered, delivered_all, delivered_each, fanned, queried, reply_of, served, status_of,
    statuses_of, Request,
};
use crate::led_matrix::{columns_of, draw_frames, flags_of};
use crate::transport::{Exchange, Transport};

verus! {

/// What a frame asks of the panel, as the panel reads it.
pub enum Instruction {
    GetBrightness,
    SetBrightness(u8),
    Percent(u8),
    /// One of the eight fixed patterns, by its number in the opcode table.
    Preset(u8),
    GetSleep,
    SetSleep(bool),
    GetAnimate,
    SetAnimate(bool),
    DrawBw(Seq<u8>),
    Stage(u8, Seq<u8>),
    Flush,
}

/// What the panel shows.
pub enum Display {
    Blank,
    /// Filled to a level in percent.
    Percent(u8),
    /// One of the eight fixed patterns.
    Preset(u8),
    /// A black-and-white image of 39 bytes.
    Bitmap(Seq<u8>),
    /// Nine columns of 34 pixels each.
    Columns(Seq<Seq<u8>>),
}

/// The state of one panel.
pub struct PanelState {
    pub brightness: u8,
    pub asleep: bool,
    pub animating: bool,
    /// The columns uploaded so far and not yet shown.
    pub staged: Seq<Seq<u8>>,
    pub display: Display,
    /// The replies that the panel has sent and nobody has read yet, oldest first.
    pub pending: Seq<Seq<u8>>,
}

impl Command {
    /// The instruction that the panel reads from the frame of this operation.
    pub open spec fn instruction(self) -> Instruction {
        match self {
            Command::GetBrightness => Instruction::GetBrightness,
            Command::SetBrightness(level) => Instruction::SetBrightness(level),
            Command::Percent(pct) => Instruction::Percent(pct),
            Command::Gradient => Instruction::Preset(1),
            Command::DoubleGradient => Instruction::Preset(2),
            Command::LotusHorizontal => Instruction::Preset(3),
            Command::Zigzag => Instruction::Preset(4),
            Command::FullBrightness => Instruction::Preset(5),
            Command::Panic => Instruction::Preset(6),
            Command::LotusVertical => Instruction::Preset(7),
            Command::Test => Instruction::Preset(8),
            Command::GetSleep => Instruction::GetSleep,
            Command::SetSleep(sleep) => Instruction::SetSleep(sleep),
            Command::GetAnimate => Instruction::GetAnimate,
            Command::SetAnimate(animate) => Instruction::SetAnimate(animate),
            Command::DrawBwBuffer(bytes) => Instruction::DrawBw(bytes@),
            Command::StageCol(col, bytes) => Instruction::Stage(col, bytes@),
            Command::FlushCols => Instruction::Flush,
        }
    }
}

/// The instruction that a payload carries under the given opcode, if
/// the two make up a frame of the protocol.
pub open spec fn instruction_of(opcode: u8, payload: Seq<u8>) -> Option<Instruction> {
    if opcode == 0x00 && payload.len() == 0 {
        Some(Instruction::GetBrightness)
    } else if opcode == 0x00 && payload.len() == 1 {
        Some(Instruction::SetBrightness(payload[0]))
    } else if opcode == 0x01 && payload.len() == 2 && payload[0] == 0 {
        Some(Instruction::Percent(payload[1]))
    } else if opcode == 0x01 && payload.len() == 1 && 1 <= payload[0] <= 8 {
        Some(Instruction::Preset(payload[0]))
    } else if opcode == 0x03 && payload.len() == 0 {
        Some(Instruction::GetSleep)
    } else if opcode == 0x03 && payload.len() == 1 {
        Some(Instruction::SetSleep(byte_flag(payload[0])))
    } else if opcode == 0x04 && payload.len() == 0 {
        Some(Instruction::GetAnimate)
    } else if opcode == 0x04 && payload.len() == 1 {
        Some(Instruction::SetAnimate(byte_flag(payload[0])))
    } else if opcode == 0x06 && payload.len() == 39 {
        Some(Instruction::DrawBw(payload))
    } else if opcode == 0x07 && payload.len() == 35 {
        Some(Instruction::Stage(payload[0], payload.skip(1)))
    } else if opcode == 0x08 && payload.len() == 0 {
        Some(Instruction::Flush)
    } else {
        None
    }
}

/// The instruction that the panel reads from `frame`, if `frame` is a
/// frame of the protocol.
pub open spec fn decoded(frame: Seq<u8>) -> Option<Instruction> {
    if frame.len() < 3 || frame[0] != PREFIX_HIGH || frame[1] != PREFIX_LOW {
        None
    } else {
        instruction_of(frame[2], frame.skip(3))
    }
}

/// The reply that carries `status`: the status byte, then 31 bytes of padding.
pub open spec fn reply_with(status: u8) -> Seq<u8> {
    Seq::new(
        32,
        |i: int|
            if i == 0 {
                status
            } else {
                0u8
            },
    )
}

impl PanelState {
    /// A panel that was just powered: dark, awake, nothing staged, nothing to read.
    pub open spec fn fresh() -> PanelState {
        PanelState {
            brightness: 0,
            asleep: false,
            animating: false,
            staged: Seq::new(9, |col: int| Seq::new(34, |row: int| 0u8)),
            display: Display::Blank,
            pending: Seq::empty(),
        }
    }

    /// The panel with one more reply waiting to be read.
    pub open spec fn replying(self, status: u8) -> PanelState {
        PanelState { pending: self.pending.push(reply_with(status)), ..self }
    }

    /// The panel after it carried out `instruction`.
    pub open spec fn obey(self, instruction: Instruction) -> PanelState {
        match instruction {
            Instruction::GetBrightness => self.replying(self.brightness),
            Instruction::SetBrightness(level) => PanelState { brightness: level, ..self },
            Instruction::Percent(pct) => PanelState { display: Display::Percent(pct), ..self },
            Instruction::Preset(number) => PanelState { display: Display::Preset(number), ..self },
            Instruction::GetSleep => self.replying(flag_byte(self.asleep)),
            Instruction::SetSleep(sleep) => PanelState { asleep: sleep, ..self },
            Instruction::GetAnimate => self.replying(flag_byte(self.animating)),
            Instruction::SetAnimate(animate) => PanelState { animating: animate, ..self },
            Instruction::DrawBw(bytes) => PanelState { display: Display::Bitmap(bytes), ..self },
            Instruction::Stage(col, pixels) => if col < 9 {
                PanelState { staged: self.staged.update(col as int, pixels), ..self }
            } else {
                self
            },
            Instruction::Flush => PanelState { display: Display::Columns(self.staged), ..self },
        }
    }

    /// The panel after `bytes` arrived in one write. Bytes that are no
    /// frame of the protocol are dropped.
    pub open spec fn receive(self, bytes: Seq<u8>) -> PanelState {
        match decoded(bytes) {
            Some(instruction) => self.obey(instruction),
            None => self,
        }
    }

    /// The panel after its oldest reply was read.
    pub open spec fn taken(self) -> PanelState {
        PanelState { pending: self.pending.skip(1), ..self }
    }

    /// The panel after one exchange on its link.
    pub open spec fn step(self, exchange: Exchange) -> PanelState {
        match exchange {
            Exchange::Write(bytes, None) => self.receive(bytes),
            Exchange::Read(Ok(_)) => self.taken(),
            _ => self,
        }
    }

    /// Whether the panel in this state may answer as `exchange` records.
    /// A panel takes every write, flush and timeout; it answers a read
    /// with its oldest pending reply and lets the read fail when it has none.
    pub open spec fn agrees(self, exchange: Exchange) -> bool {
        match exchange {
            Exchange::Open(_, _, _) => true,
            Exchange::Write(_, failure) => failure is None,
            Exchange::Flush(failure) => failure is None,
            Exchange::Read(Ok(reply)) => self.pending.len() > 0 && reply == self.pending[0],
            Exchange::Read(Err(_)) => self.pending.len() == 0,
            Exchange::SetTimeout(_, failure) => failure is None,
        }
    }

    /// The panel after the whole of `history`.
    pub open spec fn after(self, history: Seq<Exchange>) -> PanelState
        decreases history.len(),
    {
        if history.len() == 0 {
            self
        } else {
            self.after(history.drop_last()).step(history.last())
        }
    }

    /// Whether `history` is what a link to a panel that started in
    /// this state records.
    pub open spec fn explains(self, history: Seq<Exchange>) -> bool
        decreases history.len(),
    {
        history.len() == 0 || {
            &&& self.explains(history.drop_last())
            &&& self.after(history.drop_last()).agrees(history.last())
        }
    }
}

/// The panel reads from the frame of each operation the instruction
/// of that operation: decoding undoes encoding.
pub proof fn lemma_decode_encode(command: Command)
    ensures
        decoded(command.frame()) == Some(command.instruction()),
{
    let frame = command.frame();
    assert(frame.skip(3) =~= command.payload());
    assert(frame[2] == command.opcode());
    match command {
        Command::StageCol(col, bytes) => {
            assert(command.payload().skip(1) =~= bytes@);
        },
        _ => {},
    }
}

/// A history with one more exchange is explained if the history
/// before it is and the panel agrees with the exchange.
pub proof fn lemma_after_push(panel: PanelState, history: Seq<Exchange>, exchange: Exchange)
    ensures
        panel.after(history.push(exchange)) == panel.after(history).step(exchange),
        panel.explains(history.push(exchange)) == (panel.explains(history) && panel.after(
            history,
        ).agrees(exchange)),
{
    assert(history.push(exchange).drop_last() =~= history);
}

/// Delivering the frame of an operation makes the panel obey its instruction.
pub proof fn lemma_after_delivered(panel: PanelState, before: Seq<Exchange>, command: Command)
    ensures
        panel.after(delivered(before, command.frame())) == panel.after(before).obey(
            command.instruction(),
        ),
        panel.explains(delivered(before, command.frame())) == panel.explains(before),
{
    let frame = command.frame();
    let written = before.push(Exchange::Write(frame, None));
    lemma_decode_encode(command);
    lemma_after_push(panel, before, Exchange::Write(frame, None));
    lemma_after_push(panel, written, Exchange::Flush(None));
}

/// A query of a panel that has nothing pending is answered with the
/// value that the panel holds: its brightness, or its sleep or
/// animation flag as a byte.
pub proof fn lemma_query_reads_state(
    panel: PanelState,
    before: Seq<Exchange>,
    after: Seq<Exchange>,
    query: Command,
)
    requires
        query.expects_reply(),
        served(delivered(before, query.frame()), after, Request::Receive),
        panel.explains(after),
        panel.after(before).pending.len() == 0,
    ensures
        status_of(after) == match query {
            Command::GetBrightness => panel.after(before).brightness,
            Command::GetSleep => flag_byte(panel.after(before).asleep),
            _ => flag_byte(panel.after(before).animating),
        },
        panel.after(after) == panel.after(before),
        panel.explains(before),
{
    let asked = delivered(before, query.frame());
    let reply = reply_of(after);
    lemma_after_delivered(panel, before, query);
    lemma_after_push(panel, asked, Exchange::Read(Ok(reply)));
    let waiting = panel.after(asked);
    assert(waiting.pending.len() == 1);
    assert(waiting.taken().pending =~= Seq::<Seq<u8>>::empty());
    assert(panel.after(before).pending =~= Seq::<Seq<u8>>::empty());
}

/// The brightness that was set is the brightness that is read back:
/// a port that served `set_brightness(level)` and then a
/// `get_brightness`, on the link to a panel that had no reply
/// pending, reports `level`.
pub proof fn lemma_brightness_round_trip(
    panel: PanelState,
    before: Seq<Exchange>,
    after: Seq<Exchange>,
    level: u8,
)
    requires
        served(
            delivered(
                delivered(before, Command::SetBrightness(level).frame()),
                Command::GetBrightness.frame(),
            ),
            after,
            Request::Receive,
        ),
        panel.explains(after),
        panel.after(before).pending.len() == 0,
    ensures
        status_of(after) == level,
{
    let set = delivered(before, Command::SetBrightness(level).frame());
    lemma_after_delivered(panel, before, Command::SetBrightness(level));
    lemma_query_reads_state(panel, set, after, Command::GetBrightness);
}

/// The sleep flag that was set is the flag that is read back.
pub proof fn lemma_sleep_round_trip(
    panel: PanelState,
    before: Seq<Exchange>,
    after: Seq<Exchange>,
    sleep: bool,
)
    requires
        served(
            delivered(
                delivered(before, Command::SetSleep(sleep).frame()),
                Command::GetSleep.frame(),
            ),
            after,
            Request::Receive,
        ),
        panel.explains(after),
        panel.after(before).pending.len() == 0,
    ensures
        byte_flag(status_of(after)) == sleep,
{
    let set = delivered(before, Command::SetSleep(sleep).frame());
    lemma_after_delivered(panel, before, Command::SetSleep(sleep));
    lemma_query_reads_state(panel, set, after, Command::GetSleep);
}

/// The animation flag that was set is the flag that is read back.
pub proof fn lemma_animate_round_trip(
    panel: PanelState,
    before: Seq<Exchange>,
    after: Seq<Exchange>,
    animate: bool,
)
    requires
        served(
            delivered(
                delivered(before, Command::SetAnimate(animate).frame()),
                Command::GetAnimate.frame(),
            ),
            after,
            Request::Receive,
        ),
        panel.explains(after),
        panel.after(before).pending.len() == 0,
    ensures
        byte_flag(status_of(after)) == animate,
{
    let set = delivered(before, Command::SetAnimate(animate).frame());
    lemma_after_delivered(panel, before, Command::SetAnimate(animate));
    lemma_query_reads_state(panel, set, after, Command::GetAnimate);
}

/// On a group of panels, the brightness that was set is the
/// brightness that every panel reports: if `set_brightness(level)` and
/// then `get_brightness()` both succeed on ports whose links lead to
/// panels with no reply pending, the statuses returned are `level`,
/// one for each port.
pub proof fn lemma_group_brightness_round_trip(
    panels: Seq<PanelState>,
    before: Seq<Seq<Exchange>>,
    middle: Seq<Seq<Exchange>>,
    after: Seq<Seq<Exchange>>,
    level: u8,
)
    requires
        panels.len() == before.len(),
        fanned(before, middle, Request::Send(Command::SetBrightness(level).frame()), None),
        queried(middle, after, Command::GetBrightness.frame(), None),
        forall|i: int|
            0 <= i < panels.len() ==> (#[trigger] panels[i]).explains(after[i]) && panels[i].after(
                before[i],
            ).pending.len() == 0,
    ensures
        statuses_of(after) == Seq::new(before.len(), |i: int| level),
{
    assert forall|i: int| 0 <= i < before.len() implies status_of(#[trigger] after[i])
        == level by {
        assert(panels[i].explains(after[i]));
        assert(middle[i] == delivered(before[i], Command::SetBrightness(level).frame()));
        assert(delivered_all(middle, Command::GetBrightness.frame())[i] == delivered(
            middle[i],
            Command::GetBrightness.frame(),
        ));
        lemma_brightness_round_trip(panels[i], before[i], after[i], level);
    }
    assert(statuses_of(after) =~= Seq::new(before.len(), |i: int| level));
}

/// On a group of panels, each panel answers for itself: if
/// `get_sleep()` succeeds on ports whose links lead to panels with no
/// reply pending, the flag returned for each port is the sleep flag of
/// the panel behind that port.
pub proof fn lemma_group_sleep_is_per_panel(
    panels: Seq<PanelState>,
    before: Seq<Seq<Exchange>>,
    after: Seq<Seq<Exchange>>,
)
    requires
        panels.len() == before.len(),
        queried(before, after, Command::GetSleep.frame(), None),
        forall|i: int|
            0 <= i < panels.len() ==> (#[trigger] panels[i]).explains(after[i]) && panels[i].after(
                before[i],
            ).pending.len() == 0,
    ensures
        flags_of(after) == Seq::new(before.len(), |i: int| panels[i].after(before[i]).asleep),
{
    assert forall|i: int| 0 <= i < before.len() implies byte_flag(status_of(#[trigger] after[i]))
        == panels[i].after(before[i]).asleep by {
        assert(panels[i].explains(after[i]));
        assert(delivered_all(before, Command::GetSleep.frame())[i] == delivered(
            before[i],
            Command::GetSleep.frame(),
        ));
        lemma_query_reads_state(panels[i], before[i], after[i], Command::GetSleep);
    }
    assert(flags_of(after) =~= Seq::new(
        before.len(),
        |i: int| panels[i].after(before[i]).asleep,
    ));
}

/// On a group of panels, the sleep flag that was set is the flag that
/// every panel reports.
pub proof fn lemma_group_sleep_round_trip(
    panels: Seq<PanelState>,
    before: Seq<Seq<Exchange>>,
    middle: Seq<Seq<Exchange>>,
    after: Seq<Seq<Exchange>>,
    sleep: bool,
)
    requires
        panels.len() == before.len(),
        fanned(before, middle, Request::Send(Command::SetSleep(sleep).frame()), None),
        queried(middle, after, Command::GetSleep.frame(), None),
        forall|i: int|
            0 <= i < panels.len() ==> (#[trigger] panels[i]).explains(after[i]) && panels[i].after(
                before[i],
            ).pending.len() == 0,
    ensures
        flags_of(after) == Seq::new(before.len(), |i: int| sleep),
{
    assert forall|i: int| 0 <= i < before.len() implies byte_flag(status_of(#[trigger] after[i]))
        == sleep by {
        assert(panels[i].explains(after[i]));
        assert(middle[i] == delivered(before[i], Command::SetSleep(sleep).frame()));
        assert(delivered_all(middle, Command::GetSleep.frame())[i] == delivered(
            middle[i],
            Command::GetSleep.frame(),
        ));
        lemma_sleep_round_trip(panels[i], before[i], after[i], sleep);
    }
    assert(flags_of(after) =~= Seq::new(before.len(), |i: int| sleep));
}

/// Whether `cols` are nine columns of 34 pixels each.
pub open spec fn is_picture(cols: Seq<Seq<u8>>) -> bool {
    &&& cols.len() == COLUMNS
    &&& forall|col: int| 0 <= col < COLUMNS ==> (#[trigger] cols[col]).len() == COLUMN_SIZE
}

/// After the first `count` columns of a picture were staged, the
/// panel holds them in its staging area and shows what it showed.
proof fn lemma_staged(panel: PanelState, before: Seq<Exchange>, cols: Seq<Seq<u8>>, count: int)
    requires
        is_picture(cols),
        0 <= count <= 9,
        panel.after(before).staged.len() == 9,
    ensures
        panel.after(delivered_each(before, draw_frames(cols).take(count))).staged.len() == 9,
        forall|col: int|
            0 <= col < count ==> panel.after(
                delivered_each(before, draw_frames(cols).take(count)),
            ).staged[col] == cols[col],
        panel.after(delivered_each(before, draw_frames(cols).take(count))).display == panel.after(
            before,
        ).display,
        panel.explains(delivered_each(before, draw_frames(cols).take(count))) == panel.explains(
            before,
        ),
    decreases count,
{
    let frames = draw_frames(cols);
    if count == 0 {
        assert(frames.take(0) =~= Seq::<Seq<u8>>::empty());
    } else {
        let col = count - 1;
        let earlier = delivered_each(before, frames.take(col));
        lemma_staged(panel, before, cols, col);
        assert(frames.take(count).drop_last() =~= frames.take(col));
        assert(frames.take(count).last() == stage_frame(col as u8, cols[col]));
        lemma_after_stage(panel, earlier, col as u8, cols[col]);
    }
}

/// Delivering the frame that stages a column puts the column into
/// the staging area and changes nothing else.
proof fn lemma_after_stage(panel: PanelState, before: Seq<Exchange>, col: u8, pixels: Seq<u8>)
    requires
        pixels.len() == 34,
        col < 9,
    ensures
        panel.after(delivered(before, stage_frame(col, pixels))) == (PanelState {
            staged: panel.after(before).staged.update(col as int, pixels),
            ..panel.after(before)
        }),
        panel.explains(delivered(before, stage_frame(col, pixels))) == panel.explains(before),
{
    let frame = stage_frame(col, pixels);
    let written = before.push(Exchange::Write(frame, None));
    assert(frame.skip(3) =~= seq![col] + pixels);
    assert(frame.skip(3).skip(1) =~= pixels);
    assert(decoded(frame) == Some(Instruction::Stage(col, pixels)));
    lemma_after_push(panel, before, Exchange::Write(frame, None));
    lemma_after_push(panel, written, Exchange::Flush(None));
}

/// A panel shows what was drawn: after the frames of a successful
/// `draw_cols(cols)` the panel shows exactly `cols`, whatever was
/// staged or shown before.
pub proof fn lemma_draw_cols_shows(panel: PanelState, before: Seq<Exchange>, cols: Seq<Seq<u8>>)
    requires
        is_picture(cols),
        panel.after(before).staged.len() == 9,
    ensures
        panel.after(delivered_each(before, draw_frames(cols))).display == Display::Columns(cols),
        panel.explains(delivered_each(before, draw_frames(cols))) == panel.explains(before),
{
    let frames = draw_frames(cols);
    let staged = delivered_each(before, frames.take(9));
    lemma_staged(panel, before, cols, 9);
    assert(frames.drop_last() =~= frames.take(9));
    assert(frames.last() == Command::FlushCols.frame());
    lemma_after_delivered(panel, staged, Command::FlushCols);
    assert(panel.after(staged).staged =~= cols);
}

/// What a simulated panel shows.
#[derive(Clone, Copy, Debug, PartialEq, Eq)]
pub enum Shown {
    Blank,
    Percent(u8),
    Preset(u8),
    Bitmap([u8; 39]),
    Columns([[u8; 34]; 9]),
}

impl Shown {
    /// The display that this value stands for.
    pub open spec fn display(self) -> Display {
        match self {
            Shown::Blank => Display::Blank,
            Shown::Percent(pct) => Display::Percent(pct),
            Shown::Preset(number) => Display::Preset(number),
            Shown::Bitmap(bytes) => Display::Bitmap(bytes@),
            Shown::Columns(cols) => Display::Columns(columns_of(cols@)),
        }
    }
}

/// A panel held in memory, which does with each frame what the model
/// of the firmware says. It takes the place of a panel on a serial
/// link where none is at hand.
pub struct SimulatedPanel {
    brightness: u8,
    asleep: bool,
    animating: bool,
    staged: [[u8; 34]; 9],
    shown: Shown,
    pending: Vec<[u8; 32]>,
    name: Option<String>,
}

/// The bytes of each reply, in order.
pub open spec fn replies_of(pending: Seq<[u8; 32]>) -> Seq<Seq<u8>> {
    Seq::new(pending.len(), |i: int| pending[i]@)
}

impl View for SimulatedPanel {
    type V = PanelState;

    closed spec fn view(&self) -> PanelState {
        PanelState {
            brightness: self.brightness,
            asleep: self.asleep,
            animating: self.animating,
            staged: columns_of(self.staged@),
            display: self.shown.display(),
            pending: replies_of(self.pending@),
        }
    }
}

/// Copies `N` bytes of `bytes`, from `start` on.
fn copy_from<const N: usize>(bytes: &[u8], start: usize) -> (copy: [u8; N])
    requires
        start + N <= bytes@.len(),
    ensures
        copy@ == bytes@.subrange(start as int, start + N),
{
    let mut copy: [u8; N] = [0u8; N];
    let len = bytes.len();
    let mut i: usize = 0;
    while i < N
        invariant
            i <= N,
            len == bytes@.len(),
            start + N <= len,
            forall|j: int| 0 <= j < i ==> copy@[j] == bytes@[start + j],
        decreases N - i,
    {
        copy[i] = bytes[start + i];
        i += 1;
    }
    assert(copy@ =~= bytes@.subrange(start as int, start + N));
    copy
}

/// The reply that carries `status`.
fn reply(status: u8) -> (reply: [u8; 32])
    ensures
        reply@ == reply_with(status),
{
    let mut reply: [u8; 32] = [0u8; 32];
    reply[0] = status;
    assert(reply@ =~= reply_with(status));
    reply
}

impl SimulatedPanel {
    /// The name that the panel goes by, if it has one.
    pub closed spec fn label(&self) -> Option<String> {
        self.name
    }

    /// A panel that was just powered, with the given name.
    pub fn new(name: Option<String>) -> (panel: Self)
        ensures
            panel@ == PanelState::fresh(),
            panel.label() == name,
    {
        let panel = SimulatedPanel {
            brightness: 0,
            asleep: false,
            animating: false,
            staged: [[0u8; 34]; 9],
            shown: Shown::Blank,
            pending: Vec::new(),
            name,
        };
        assert(panel@.pending =~= Seq::<Seq<u8>>::empty());
        assert forall|col: int| 0 <= col < 9 implies #[trigger] panel@.staged[col]
            =~= PanelState::fresh().staged[col] by {}
        assert(panel@.staged =~= PanelState::fresh().staged);
        panel
    }

    /// The brightness that the panel was last set to.
    pub fn brightness(&self) -> (level: u8)
        ensures
            level == self@.brightness,
    {
        self.brightness
    }

    /// Whether the panel sleeps.
    pub fn asleep(&self) -> (asleep: bool)
        ensures
            asleep == self@.asleep,
    {
        self.asleep
    }

    /// Whether the panel animates.
    pub fn animating(&self) -> (animating: bool)
        ensures
            animating == self@.animating,
    {
        self.animating
    }

    /// What the panel shows.
    pub fn shown(&self) -> (shown: Shown)
        ensures
            shown.display() == self@.display,
    {
        self.shown
    }

    /// How many replies wait to be read.
    pub fn pending(&self) -> (count: usize)
        ensures
            count == self@.pending.len(),
    {
        self.pending.len()
    }

    /// Queues the reply that carries `status`.
    fn answer(&mut self, status: u8)
        ensures
            final(self)@ == old(self)@.replying(status),
    {
        self.pending.push(reply(status));
        assert(self@.pending =~= old(self)@.pending.push(reply_with(status)));
    }

    /// Takes in the bytes of one write: carries out the frame they
    /// make up, or drops them if they make up none.
    pub fn receive(&mut self, bytes: &[u8])
        ensures
            final(self)@ == old(self)@.receive(bytes@),
    {
        let n = bytes.len();
        if n < 3 || bytes[0] != PREFIX_HIGH || bytes[1] != PREFIX_LOW {
            return ;
        }
        let opcode = bytes[2];
        let ghost payload = bytes@.skip(3);
        if opcode == 0x00 && n == 3 {
            self.answer(self.brightness);
        } else if opcode == 0x00 && n == 4 {
            assert(payload[0] == bytes@[3]);
            self.brightness = bytes[3];
        } else if opcode == 0x01 && n == 5 && bytes[3] == 0 {
            assert(payload[0] == bytes@[3] && payload[1] == bytes@[4]);
            self.shown = Shown::Percent(bytes[4]);
        } else if opcode == 0x01 && n == 4 && 1 <= bytes[3] && bytes[3] <= 8 {
            assert(payload[0] == bytes@[3]);
            self.shown = Shown::Preset(bytes[3]);
        } else if opcode == 0x03 && n == 3 {
            self.answer(encode_flag(self.asleep));
        } else if opcode == 0x03 && n == 4 {
            assert(payload[0] == bytes@[3]);
            self.asleep = decode_flag(bytes[3]);
        } else if opcode == 0x04 && n == 3 {
            self.answer(encode_flag(self.animating));
        } else if opcode == 0x04 && n == 4 {
            assert(payload[0] == bytes@[3]);
            self.animating = decode_flag(bytes[3]);
        } else if opcode == 0x06 && n == 42 {
            let image: [u8; 39] = copy_from(bytes, 3);
            assert(image@ =~= payload);
            self.shown = Shown::Bitmap(image);
        } else if opcode == 0x07 && n == 38 {
            assert(payload[0] == bytes@[3]);
            let col = bytes[3];
            if col < 9 {
                let pixels: [u8; 34] = copy_from(bytes, 4);
                assert(pixels@ =~= payload.skip(1));
                let ghost previous = columns_of(self.staged@);
                self.staged[col as usize] = pixels;
                assert(columns_of(self.staged@) =~= previous.update(col as int, pixels@));
            }
        } else if opcode == 0x08 && n == 3 {
            self.shown = Shown::Columns(self.staged);
        } else {
            if opcode == 0x01 && n == 5 {
                assert(payload[0] == bytes@[3]);
            }
            if opcode == 0x01 && n == 4 {
                assert(payload[0] == bytes@[3]);
            }
        }
    }

    /// Hands out the oldest reply that waits to be read, if there is one.
    pub fn take_reply(&mut self) -> (reply: Option<[u8; 32]>)
        ensures
            match reply {
                Some(bytes) => {
                    &&& old(self)@.pending.len() > 0
                    &&& bytes@ == old(self)@.pending[0]
                    &&& final(self)@ == old(self)@.taken()
                },
                None => old(self)@.pending.len() == 0 && final(self)@ == old(self)@,
            },
    {
        if self.pending.len() == 0 {
            return None;
        }
        let reply = self.pending.remove(0);
        assert(self@.pending =~= old(self)@.pending.skip(1));
        Some(reply)
    }
}

impl Transport for SimulatedPanel {
    /// The simulated host lists no endpoint.
    fn endpoints() -> (listing: Result<Vec<Endpoint>, Error>)
        ensures
            listing matches Ok(endpoints) && endpoints@.len() == 0,
    {
        Ok(Vec::new())
    }

    /// Powers a panel up under the name `path`.
    fn open(path: &str, baud_rate: u32, timeout: Duration) -> (opened: Result<Self, Error>)
        ensures
            opened matches Ok(panel) && panel@ == PanelState::fresh() && (panel.label() matches Some(
                name,
            ) && name@ == path@),
    {
        Ok(SimulatedPanel::new(Some(path.to_owned())))
    }

    fn write(&mut self, bytes: &[u8]) -> (outcome: Result<(), Error>)
        ensures
            outcome is Ok,
            final(self)@ == old(self)@.receive(bytes@),
    {
        self.receive(bytes);
        Ok(())
    }

    fn flush(&mut self) -> (outcome: Result<(), Error>)
        ensures
            outcome is Ok,
            final(self)@ == old(self)@,
    {
        Ok(())
    }

    fn read_exact(&mut self, buf: &mut [u8; 32]) -> (outcome: Result<(), Error>)
        ensures
            outcome is Ok <==> old(self)@.pending.len() > 0,
            outcome is Ok ==> final(buf)@ == old(self)@.pending[0] && final(self)@ == old(
                self,
            )@.taken(),
            outcome is Err ==> final(self)@ == old(self)@,
    {
        match self.take_reply() {
            Some(reply) => {
                *buf = reply;
                Ok(())
            },
            None => Err(Error::Io(IoKind::TimedOut, "timed out".to_owned())),
        }
    }

    fn set_timeout(&mut self, timeout: Duration) -> (outcome: Result<(), Error>)
        ensures
            outcome is Ok,
            final(self)@ == old(self)@,
    {
        Ok(())
    }

    fn name(&self) -> (name: Option<String>)
        ensures
            name == self.label(),
    {
        self.name.clone()
    }
}

} // verus!
