//! The button pad controller: the colours of its sixteen keys, the state of its buttons,
//! and the bus transaction that sends the colours and reads the buttons back.

use vstd::prelude::*;

use crate::wire::{buttons_from_frame, frame_from_wire, frame_of_wire, wire_bits, wire_order};

verus! {

/// Bits sent during one commit: the red, green and blue frames.
pub const OUTGOING_BITS: usize = 384;

/// Bits read back during one commit: the button frame.
pub const INCOMING_BITS: usize = 128;

/// Where the bus transaction of a commit stands.
#[derive(Clone, Copy, PartialEq, Eq, Structural, Debug)]
pub enum BusStage {
    /// No transaction is running; the last one, if any, succeeded.
    Idle,
    /// The last transaction stopped on a pin failure.
    Failed,
    /// The bus is about to be locked.
    Lock,
    /// The colour frames are being clocked out.
    Write,
    /// The button frame is being clocked in.
    Read,
    /// The bus is about to be released.
    Unlock,
}

/// What the driver of the pins is asked to do next.
#[derive(Clone, Copy, PartialEq, Eq, Structural, Debug)]
pub enum BusAction {
    /// Nothing: the last transaction succeeded, or none was started.
    Idle,
    /// Nothing: the last transaction stopped on a pin failure.
    Failed,
    /// Raise the clock and the chip select, then wait.
    Lock,
    /// Clock one bit out on the data line.
    ClockOut(bool),
    /// Clock one bit in and report its level.
    ClockIn,
    /// Lower the chip select, then wait.
    Unlock,
}

/// What the driver of the pins reports back.
#[derive(Clone, Copy, PartialEq, Eq, Structural, Debug)]
pub enum BusEvent {
    /// The requested pin operations succeeded.
    Done,
    /// A pin operation failed.
    Failed,
    /// A clocked-in bit was sampled at this level.
    Level(bool),
}

/// The abstract state of a controller.
pub struct PadView {
    /// Red level of each key.
    pub red: Seq<u8>,
    /// Green level of each key.
    pub green: Seq<u8>,
    /// Blue level of each key.
    pub blue: Seq<u8>,
    /// Whether each key was pressed at the last read.
    pub buttons: Seq<bool>,
    /// Where the bus transaction stands.
    pub stage: BusStage,
    /// The bits of the current commit, in the order they are clocked out.
    pub outgoing: Seq<bool>,
    /// How many of them have been clocked out.
    pub sent: nat,
    /// The levels clocked in so far.
    pub incoming: Seq<bool>,
}

/// Drives a SparkFun button pad: sixteen RGB keys behind a bit-banged SPI bus.
pub struct ButtonPadController {
    red: [u8; 16],
    green: [u8; 16],
    blue: [u8; 16],
    buttons: [bool; 16],
    stage: BusStage,
    outgoing: Vec<bool>,
    sent: usize,
    incoming: Vec<bool>,
}

impl View for ButtonPadController {
    type V = PadView;

    closed spec fn view(&self) -> PadView {
        PadView {
            red: self.red@,
            green: self.green@,
            blue: self.blue@,
            buttons: self.buttons@,
            stage: self.stage,
            outgoing: self.outgoing@,
            sent: self.sent as nat,
            incoming: self.incoming@,
        }
    }
}

/// A frame with every byte equal to `b`.
pub open spec fn uniform_frame(b: u8) -> Seq<u8> {
    Seq::new(16, |i: int| b)
}

/// The keys that a button frame reports pressed: those whose byte is zero.
pub open spec fn pressed_in(frame: Seq<u8>) -> Seq<bool> {
    Seq::new(16, |i: int| frame[i] == 0)
}

/// The bits that a commit of these colours clocks out: red, green, then blue frame.
pub open spec fn outgoing_of(red: Seq<u8>, green: Seq<u8>, blue: Seq<u8>) -> Seq<bool> {
    wire_order(red) + wire_order(green) + wire_order(blue)
}

/// A controller holding these colours and buttons, with a commit of the colours just started.
pub open spec fn commit_started(
    red: Seq<u8>,
    green: Seq<u8>,
    blue: Seq<u8>,
    buttons: Seq<bool>,
) -> PadView {
    PadView {
        red,
        green,
        blue,
        buttons,
        stage: BusStage::Lock,
        outgoing: outgoing_of(red, green, blue),
        sent: 0,
        incoming: Seq::empty(),
    }
}

/// The red level of each key of a `0xRRGGBB` matrix.
pub open spec fn red_channel(matrix: Seq<u32>) -> Seq<u8> {
    Seq::new(16, |i: int| ((matrix[i] >> 16u32) & 255u32) as u8)
}

/// The green level of each key of a `0xRRGGBB` matrix.
pub open spec fn green_channel(matrix: Seq<u32>) -> Seq<u8> {
    Seq::new(16, |i: int| ((matrix[i] >> 8u32) & 255u32) as u8)
}

/// The blue level of each key of a `0xRRGGBB` matrix.
pub open spec fn blue_channel(matrix: Seq<u32>) -> Seq<u8> {
    Seq::new(16, |i: int| (matrix[i] & 255u32) as u8)
}

/// The colour of a key rebuilt from its three channels as `0xRRGGBB`.
pub open spec fn recombined(red: u8, green: u8, blue: u8) -> u32 {
    ((red as u32) << 16u32) | ((green as u32) << 8u32) | (blue as u32)
}

proof fn lemma_channels_of_word(x: u32)
    by (bit_vector)
    ensures
        (((((x >> 16u32) & 255u32) as u8) as u32) << 16u32) | (((((x >> 8u32) & 255u32) as u8)
            as u32) << 8u32) | (((x & 255u32) as u8) as u32) == x & 0xffffffu32,
{
}

/// The three channels taken from a matrix give back each key's colour, less any bits
/// above the low 24.
pub proof fn lemma_channels_recombine(matrix: Seq<u32>)
    requires
        matrix.len() == 16,
    ensures
        forall|i: int|
            0 <= i < 16 ==> recombined(
                #[trigger] red_channel(matrix)[i],
                green_channel(matrix)[i],
                blue_channel(matrix)[i],
            ) == matrix[i] & 0xffffffu32,
{
    assert forall|i: int| 0 <= i < 16 implies recombined(
        #[trigger] red_channel(matrix)[i],
        green_channel(matrix)[i],
        blue_channel(matrix)[i],
    ) == matrix[i] & 0xffffffu32 by {
        lemma_channels_of_word(matrix[i]);
    }
}

/// The next thing the pin driver is asked to do.
pub open spec fn next_action(v: PadView) -> BusAction {
    match v.stage {
        BusStage::Idle => BusAction::Idle,
        BusStage::Failed => BusAction::Failed,
        BusStage::Lock => BusAction::Lock,
        BusStage::Write => BusAction::ClockOut(v.outgoing[v.sent as int]),
        BusStage::Read => BusAction::ClockIn,
        BusStage::Unlock => BusAction::Unlock,
    }
}

/// How a controller moves on when the pin driver reports `e`. A pin failure stops the
/// transaction; buttons change only when a whole button frame has been read. An event
/// that does not answer the pending action leaves it as it is.
pub open spec fn after_event(v: PadView, e: BusEvent) -> PadView {
    match v.stage {
        BusStage::Lock => match e {
            BusEvent::Done => PadView { stage: BusStage::Write, sent: 0, ..v },
            BusEvent::Failed => PadView { stage: BusStage::Failed, ..v },
            BusEvent::Level(_) => v,
        },
        BusStage::Write => match e {
            BusEvent::Done => if v.sent + 1 == OUTGOING_BITS {
                PadView { stage: BusStage::Read, sent: v.sent + 1, incoming: Seq::empty(), ..v }
            } else {
                PadView { sent: v.sent + 1, ..v }
            },
            BusEvent::Failed => PadView { stage: BusStage::Failed, ..v },
            BusEvent::Level(_) => v,
        },
        BusStage::Read => match e {
            BusEvent::Level(b) => if v.incoming.len() + 1 == INCOMING_BITS {
                PadView {
                    stage: BusStage::Unlock,
                    incoming: v.incoming.push(b),
                    buttons: pressed_in(frame_of_wire(v.incoming.push(b))),
                    ..v
                }
            } else {
                PadView { incoming: v.incoming.push(b), ..v }
            },
            BusEvent::Failed => PadView { stage: BusStage::Failed, ..v },
            BusEvent::Done => v,
        },
        BusStage::Unlock => match e {
            BusEvent::Done => PadView { stage: BusStage::Idle, ..v },
            BusEvent::Failed => PadView { stage: BusStage::Failed, ..v },
            BusEvent::Level(_) => v,
        },
        _ => v,
    }
}

impl ButtonPadController {
    #[verifier::type_invariant]
    spec fn well_formed(self) -> bool {
        &&& (self.stage == BusStage::Lock || self.stage == BusStage::Write) ==> self.outgoing@.len()
            == OUTGOING_BITS
        &&& self.stage == BusStage::Write ==> self.sent < OUTGOING_BITS
        &&& self.stage == BusStage::Read ==> self.incoming@.len() < INCOMING_BITS
    }

    /// A controller with every key dark, no button pressed and no transaction running.
    pub fn new() -> (pad: Self)
        ensures
            pad@ == (PadView {
                red: uniform_frame(0),
                green: uniform_frame(0),
                blue: uniform_frame(0),
                buttons: Seq::new(16, |i: int| false),
                stage: BusStage::Idle,
                outgoing: Seq::empty(),
                sent: 0,
                incoming: Seq::empty(),
            }),
    {
        let pad = ButtonPadController {
            red: [0; 16],
            green: [0; 16],
            blue: [0; 16],
            buttons: [false; 16],
            stage: BusStage::Idle,
            outgoing: Vec::new(),
            sent: 0,
            incoming: Vec::new(),
        };
        assert(pad@.red =~= uniform_frame(0));
        assert(pad@.green =~= uniform_frame(0));
        assert(pad@.blue =~= uniform_frame(0));
        assert(pad@.buttons =~= Seq::new(16, |i: int| false));
        pad
    }

    /// The state of the buttons as read by the last commit: `true` for a pressed key.
    pub fn buttons(&self) -> (pressed: [bool; 16])
        ensures
            pressed@ == self@.buttons,
    {
        self.buttons
    }

    /// The next thing the pin driver is asked to do.
    pub fn bus_action(&self) -> (action: BusAction)
        ensures
            action == next_action(self@),
    {
        proof {
            use_type_invariant(self);
        }
        match self.stage {
            BusStage::Idle => BusAction::Idle,
            BusStage::Failed => BusAction::Failed,
            BusStage::Lock => BusAction::Lock,
            BusStage::Write => BusAction::ClockOut(self.outgoing[self.sent]),
            BusStage::Read => BusAction::ClockIn,
            BusStage::Unlock => BusAction::Unlock,
        }
    }

    /// Moves the bus transaction on by what the pin driver reports.
    pub fn bus_event(&mut self, event: BusEvent)
        ensures
            final(self)@ == after_event(old(self)@, event),
    {
        proof {
            use_type_invariant(&*self);
        }
        match self.stage {
            BusStage::Lock => match event {
                BusEvent::Done => {
                    self.sent = 0;
                    self.stage = BusStage::Write;
                },
                BusEvent::Failed => {
                    self.stage = BusStage::Failed;
                },
                BusEvent::Level(_) => {},
            },
            BusStage::Write => match event {
                BusEvent::Done => {
                    if self.sent + 1 == OUTGOING_BITS {
                        self.incoming = Vec::new();
                        self.stage = BusStage::Read;
                        self.sent = self.sent + 1;
                    } else {
                        self.sent = self.sent + 1;
                    }
                },
                BusEvent::Failed => {
                    self.stage = BusStage::Failed;
                },
                BusEvent::Level(_) => {},
            },
            BusStage::Read => match event {
                BusEvent::Level(b) => {
                    let mut incoming = Vec::new();
                    std::mem::swap(&mut incoming, &mut self.incoming);
                    let complete = incoming.len() + 1 == INCOMING_BITS;
                    incoming.push(b);
                    if complete {
                        self.stage = BusStage::Unlock;
                        let frame = frame_from_wire(incoming.as_slice());
                        self.buttons = buttons_from_frame(&frame);
                        proof {
                            assert(self.buttons@ =~= pressed_in(frame@));
                        }
                    }
                    self.incoming = incoming;
                },
                BusEvent::Failed => {
                    self.stage = BusStage::Failed;
                },
                BusEvent::Done => {},
            },
            BusStage::Unlock => match event {
                BusEvent::Done => {
                    self.stage = BusStage::Idle;
                },
                BusEvent::Failed => {
                    self.stage = BusStage::Failed;
                },
                BusEvent::Level(_) => {},
            },
            _ => {},
        }
    }

    /// Starts sending the current colours: the red, green and blue frames are clocked out
    /// in that order, then the button frame is clocked in.
    fn commit(&mut self)
        ensures
            final(self)@ == commit_started(old(self)@.red, old(self)@.green, old(self)@.blue, old(self)@.buttons),
    {
        self.stage = BusStage::Idle;
        let mut outgoing = wire_bits(&self.red);
        let mut green = wire_bits(&self.green);
        let mut blue = wire_bits(&self.blue);
        outgoing.append(&mut green);
        outgoing.append(&mut blue);
        assert(outgoing@.len() == OUTGOING_BITS);
        self.outgoing = outgoing;
        self.incoming = Vec::new();
        self.sent = 0;
        self.stage = BusStage::Lock;
    }

    /// Sets every key to the given levels of red, green and blue, then starts a commit.
    fn fill(&mut self, red: u8, green: u8, blue: u8)
        ensures
            final(self)@ == commit_started(uniform_frame(red), uniform_frame(green), uniform_frame(blue), old(self)@.buttons),
    {
        self.stage = BusStage::Idle;
        self.red = [red; 16];
        self.green = [green; 16];
        self.blue = [blue; 16];
        proof {
            assert(self.red@ =~= uniform_frame(red));
            assert(self.green@ =~= uniform_frame(green));
            assert(self.blue@ =~= uniform_frame(blue));
        }
        self.commit();
    }

    /// Turns every key off, then starts a commit.
    pub fn blackout(&mut self)
        ensures
            final(self)@ == commit_started(uniform_frame(0), uniform_frame(0), uniform_frame(0), old(self)@.buttons),
    {
        self.fill(0, 0, 0);
    }

    /// Lights every key in full white, then starts a commit.
    pub fn lightup(&mut self)
        ensures
            final(self)@ == commit_started(uniform_frame(255), uniform_frame(255), uniform_frame(255), old(self)@.buttons),
    {
        self.fill(255, 255, 255);
    }

    /// Lights every key in full red, then starts a commit.
    pub fn red(&mut self)
        ensures
            final(self)@ == commit_started(uniform_frame(255), uniform_frame(0), uniform_frame(0), old(self)@.buttons),
    {
        self.fill(255, 0, 0);
    }

    /// Lights every key in full green, then starts a commit.
    pub fn green(&mut self)
        ensures
            final(self)@ == commit_started(uniform_frame(0), uniform_frame(255), uniform_frame(0), old(self)@.buttons),
    {
        self.fill(0, 255, 0);
    }

    /// Lights every key in full blue, then starts a commit.
    pub fn blue(&mut self)
        ensures
            final(self)@ == commit_started(uniform_frame(0), uniform_frame(0), uniform_frame(255), old(self)@.buttons),
    {
        self.fill(0, 0, 255);
    }

    /// Colours each key from a `0xRRGGBB` value, then starts a commit.
    pub fn write_matrix(&mut self, matrix: &[u32; 16])
        ensures
            final(self)@ == commit_started(
                red_channel(matrix@),
                green_channel(matrix@),
                blue_channel(matrix@),
                old(self)@.buttons,
            ),
    {
        self.stage = BusStage::Idle;
        let mut i: usize = 0;
        while i < 16
            invariant
                i <= 16,
                self.stage == BusStage::Idle,
                self.buttons@ == old(self)@.buttons,
                forall|k: int| 0 <= k < i ==> self.red@[k] == red_channel(matrix@)[k],
                forall|k: int| 0 <= k < i ==> self.green@[k] == green_channel(matrix@)[k],
                forall|k: int| 0 <= k < i ==> self.blue@[k] == blue_channel(matrix@)[k],
            decreases 16 - i,
        {
            let num = matrix[i];
            self.red[i] = ((num >> 16) & 255) as u8;
            self.green[i] = ((num >> 8) & 255) as u8;
            self.blue[i] = (num & 255) as u8;
            i = i + 1;
        }
        proof {
            assert(self.red@ =~= red_channel(matrix@));
            assert(self.green@ =~= green_channel(matrix@));
            assert(self.blue@ =~= blue_channel(matrix@));
        }
        self.commit();
    }
}

} // verus!
