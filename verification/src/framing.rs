//! Frames on the control connection: a length in four bytes, then as many bytes of payload.

use vstd::prelude::*;

use crate::text::{decimal, format_decimal};
use crate::wire::{copy_range, le32, le32_at, push_bytes, push_u32_le, read_u32_le};

verus! {

/// Longest payload that is accepted.
pub const MAX_FRAME_LEN: usize = 67_108_864;

/// Length of the field in front of the payload.
pub const FRAME_LENGTH_SIZE: usize = 4;

/// Which part of a frame is being read.
#[derive(Clone, Copy, Debug, PartialEq, Eq, Structural)]
pub enum FrameStage {
    Length,
    Payload,
}

/// Why no frame was read or built.
#[derive(Clone, Copy, Debug, PartialEq, Eq, Structural)]
pub enum FrameError {
    /// The session ends.
    Shutdown { waiting_for: FrameStage },
    /// The peer closed the connection.
    Closed { during: FrameStage },
    /// The connection failed.
    ReadFailed { part: FrameStage },
    /// The frame announces a payload that is too long.
    TooLarge { length: usize },
    /// The payload is longer than the length field can say.
    Unsendable,
}

impl FrameStage {
    /// The step as the log names it.
    pub open spec fn spec_text(self) -> Seq<char> {
        match self {
            FrameStage::Length => "read ALVR frame length"@,
            FrameStage::Payload => "read ALVR frame payload"@,
        }
    }

    /// The step as the log names it.
    pub fn text(self) -> (text: &'static str)
        ensures
            text@ == self.spec_text(),
    {
        match self {
            FrameStage::Length => "read ALVR frame length",
            FrameStage::Payload => "read ALVR frame payload",
        }
    }
}

impl FrameError {
    /// The error in words.
    pub open spec fn spec_text(self) -> Seq<char> {
        match self {
            FrameError::Shutdown { waiting_for } =>
                "ALVR control session shutdown requested while waiting to "@
                + waiting_for.spec_text(),
            FrameError::Closed { during } => "ALVR control socket closed while trying to "@
                + during.spec_text(),
            FrameError::ReadFailed { part } => part.spec_text(),
            FrameError::TooLarge { length } => "ALVR frame too large: "@ + decimal(length as nat)
                + " bytes"@,
            FrameError::Unsendable => "ALVR framed packet too large"@,
        }
    }

    /// The error in words.
    pub fn text(self) -> (text: String)
        ensures
            text@ == self.spec_text(),
    {
        match self {
            FrameError::Shutdown { waiting_for } => {
                let mut text: String =
                    "ALVR control session shutdown requested while waiting to ".to_owned();
                text.append(waiting_for.text());
                text
            },
            FrameError::Closed { during } => {
                let mut text: String = "ALVR control socket closed while trying to ".to_owned();
                text.append(during.text());
                text
            },
            FrameError::ReadFailed { part } => part.text().to_owned(),
            FrameError::TooLarge { length } => {
                let mut text: String = "ALVR frame too large: ".to_owned();
                let number: String = format_decimal(length as u128);
                text.append(number.as_str());
                text.append(" bytes");
                text
            },
            FrameError::Unsendable => "ALVR framed packet too large".to_owned(),
        }
    }
}

// ---------------------------------------------------------------------------
// Writing
// ---------------------------------------------------------------------------

/// A frame on the wire.
pub open spec fn frame_bytes(payload: Seq<u8>) -> Seq<u8> {
    le32(payload.len() as u32) + payload
}

/// Builds a frame. Fails where the payload is longer than the length field can say.
pub fn build_frame(payload: &[u8]) -> (frame: Result<Vec<u8>, FrameError>)
    ensures
        match frame {
            Ok(frame) => payload@.len() <= u32::MAX && frame@ == frame_bytes(payload@),
            Err(error) => payload@.len() > u32::MAX && error == FrameError::Unsendable,
        },
{
    if payload.len() > u32::MAX as usize {
        return Err(FrameError::Unsendable);
    }
    let mut frame: Vec<u8> = Vec::new();
    push_u32_le(&mut frame, payload.len() as u32);
    push_bytes(&mut frame, payload);
    assert(frame@ =~= frame_bytes(payload@));
    Ok(frame)
}

// ---------------------------------------------------------------------------
// Reading
// ---------------------------------------------------------------------------

/// The length that the first four bytes announce.
pub open spec fn announced(bytes: Seq<u8>) -> int {
    le32_at(bytes, 0)
}

/// Reads the length field. Fails where the payload is too long.
pub fn frame_length(field: &[u8]) -> (length: Result<usize, FrameError>)
    requires
        field@.len() >= FRAME_LENGTH_SIZE,
    ensures
        match length {
            Ok(length) => length == announced(field@) && length <= MAX_FRAME_LEN,
            Err(error) => {
                &&& announced(field@) > MAX_FRAME_LEN
                &&& error == (FrameError::TooLarge { length: announced(field@) as usize })
            },
        },
{
    let length: usize = read_u32_le(field, 0) as usize;
    if length > MAX_FRAME_LEN {
        return Err(FrameError::TooLarge { length });
    }
    Ok(length)
}

/// What came of a read from the connection.
#[derive(Clone, Debug, PartialEq, Eq)]
pub enum ControlRead {
    /// Nothing was tried, because the session ends.
    Shutdown,
    /// The peer closed the connection.
    Closed,
    /// Nothing is there yet.
    Nothing,
    /// The connection failed.
    Failed,
    /// Bytes arrived.
    Bytes(Vec<u8>),
}

/// What to do next.
#[derive(Clone, Debug, PartialEq, Eq)]
pub enum FrameStep {
    /// Read at most so many bytes.
    Read(usize),
    /// The payload is complete.
    Complete(Vec<u8>),
    /// The connection gives no frame.
    Stop(FrameError),
}

/// Collects the bytes of one frame.
#[derive(Clone, Debug, PartialEq, Eq)]
pub struct FrameReader {
    pub received: Vec<u8>,
}

/// Bytes that are the beginning of a frame that is accepted.
pub open spec fn is_frame_start(bytes: Seq<u8>) -> bool {
    bytes.len() >= FRAME_LENGTH_SIZE ==> {
        &&& announced(bytes) <= MAX_FRAME_LEN
        &&& bytes.len() <= FRAME_LENGTH_SIZE + announced(bytes)
    }
}

/// Number of bytes that the current part of the frame lacks.
pub open spec fn missing(bytes: Seq<u8>) -> int {
    if bytes.len() < FRAME_LENGTH_SIZE {
        FRAME_LENGTH_SIZE - bytes.len()
    } else {
        FRAME_LENGTH_SIZE + announced(bytes) - bytes.len()
    }
}

/// The part of the frame that is being read.
pub open spec fn stage_of(bytes: Seq<u8>) -> FrameStage {
    if bytes.len() < FRAME_LENGTH_SIZE {
        FrameStage::Length
    } else {
        FrameStage::Payload
    }
}

/// All bytes of the frame are there.
pub open spec fn is_complete(bytes: Seq<u8>) -> bool {
    bytes.len() >= FRAME_LENGTH_SIZE && bytes.len() == FRAME_LENGTH_SIZE + announced(bytes)
}

impl FrameReader {
    /// What was collected is the beginning of a frame.
    pub open spec fn well_formed(&self) -> bool {
        is_frame_start(self.received@)
    }

    /// No bytes yet.
    pub fn new() -> (reader: Self)
        ensures
            reader.well_formed(),
            reader.received@ == Seq::<u8>::empty(),
    {
        FrameReader { received: Vec::new() }
    }

    fn lacking(&self) -> (lacking: usize)
        requires
            self.well_formed(),
        ensures
            lacking == missing(self.received@),
    {
        if self.received.len() < FRAME_LENGTH_SIZE {
            FRAME_LENGTH_SIZE - self.received.len()
        } else {
            let length: usize = read_u32_le(self.received.as_slice(), 0) as usize;
            length - (self.received.len() - FRAME_LENGTH_SIZE)
        }
    }

    /// The part of the frame that is being read.
    pub fn stage(&self) -> (stage: FrameStage)
        ensures
            stage == stage_of(self.received@),
    {
        if self.received.len() < FRAME_LENGTH_SIZE {
            FrameStage::Length
        } else {
            FrameStage::Payload
        }
    }

    /// Takes in what came of a read. A read brings at most the bytes that were asked for.
    pub fn advance(&mut self, read: ControlRead) -> (step: FrameStep)
        requires
            old(self).well_formed(),
            read matches ControlRead::Bytes(bytes) ==> bytes@.len() <= missing(
                old(self).received@,
            ),
        ensures
            match read {
                ControlRead::Bytes(bytes) => {
                    let received = old(self).received@ + bytes@;
                    &&& final(self).received@ == received
                    &&& if received.len() == FRAME_LENGTH_SIZE && announced(received)
                        > MAX_FRAME_LEN {
                        step == FrameStep::Stop(
                            FrameError::TooLarge { length: announced(received) as usize },
                        )
                    } else {
                        &&& final(self).well_formed()
                        &&& if is_complete(received) {
                            &&& step is Complete
                            &&& step->Complete_0@ == received.skip(FRAME_LENGTH_SIZE as int)
                        } else {
                            step == FrameStep::Read(missing(received) as usize)
                        }
                    }
                },
                ControlRead::Nothing => {
                    &&& final(self).received@ == old(self).received@
                    &&& step == FrameStep::Read(missing(old(self).received@) as usize)
                },
                ControlRead::Shutdown => {
                    &&& final(self).received@ == old(self).received@
                    &&& step == FrameStep::Stop(
                        FrameError::Shutdown { waiting_for: stage_of(old(self).received@) },
                    )
                },
                ControlRead::Closed => {
                    &&& final(self).received@ == old(self).received@
                    &&& step == FrameStep::Stop(
                        FrameError::Closed { during: stage_of(old(self).received@) },
                    )
                },
                ControlRead::Failed => {
                    &&& final(self).received@ == old(self).received@
                    &&& step == FrameStep::Stop(
                        FrameError::ReadFailed { part: stage_of(old(self).received@) },
                    )
                },
            },
    {
        match read {
            ControlRead::Shutdown => FrameStep::Stop(
                FrameError::Shutdown { waiting_for: self.stage() },
            ),
            ControlRead::Closed => FrameStep::Stop(FrameError::Closed { during: self.stage() }),
            ControlRead::Failed => FrameStep::Stop(FrameError::ReadFailed { part: self.stage() }),
            ControlRead::Nothing => FrameStep::Read(self.lacking()),
            ControlRead::Bytes(bytes) => {
                let ghost before = self.received@;
                push_bytes(&mut self.received, bytes.as_slice());
                assert(before.len() >= FRAME_LENGTH_SIZE ==> announced(self.received@)
                    == announced(before)) by {
                    assert(self.received@.subrange(0, 4) =~= (before + bytes@).subrange(0, 4));
                }
                if self.received.len() < FRAME_LENGTH_SIZE {
                    return FrameStep::Read(self.lacking());
                }
                let length: usize = match frame_length(self.received.as_slice()) {
                    Ok(length) => length,
                    Err(error) => {
                        return FrameStep::Stop(error);
                    },
                };
                if self.received.len() - FRAME_LENGTH_SIZE == length {
                    FrameStep::Complete(
                        copy_range(
                            self.received.as_slice(),
                            FRAME_LENGTH_SIZE,
                            self.received.len(),
                        ),
                    )
                } else {
                    FrameStep::Read(self.lacking())
                }
            },
        }
    }
}

// ---------------------------------------------------------------------------
// Waiting for the connection
// ---------------------------------------------------------------------------

/// What came of waiting for the connection to become readable.
#[derive(Clone, Copy, Debug, PartialEq, Eq, Structural)]
pub enum PollOutcome {
    /// The connection can be read.
    Ready,
    /// The connection is no longer valid.
    Invalid,
    /// Wait again.
    Again,
    /// Waiting failed.
    Failed,
}

/// Interprets a poll of the connection: `result` descriptors are ready, the events among
/// `invalid_events` are reported, or the call failed, perhaps because it was interrupted.
pub fn poll_outcome(result: i32, invalid_events: bool, interrupted: bool) -> (outcome: PollOutcome)
    ensures
        outcome == if result > 0 {
            if invalid_events {
                PollOutcome::Invalid
            } else {
                PollOutcome::Ready
            }
        } else if result == 0 || interrupted {
            PollOutcome::Again
        } else {
            PollOutcome::Failed
        },
{
    if result > 0 {
        if invalid_events {
            PollOutcome::Invalid
        } else {
            PollOutcome::Ready
        }
    } else if result == 0 || interrupted {
        PollOutcome::Again
    } else {
        PollOutcome::Failed
    }
}

// ---------------------------------------------------------------------------
// Laws
// ---------------------------------------------------------------------------

/// The length field of a frame announces its payload, so a reader that has all of its bytes, in
/// whatever pieces they came, has the payload.
pub proof fn law_frames_round_trip(payload: Seq<u8>)
    requires
        payload.len() <= MAX_FRAME_LEN,
    ensures
        announced(frame_bytes(payload)) == payload.len(),
        is_frame_start(frame_bytes(payload)),
        is_complete(frame_bytes(payload)),
        frame_bytes(payload).skip(FRAME_LENGTH_SIZE as int) == payload,
{
    let frame = frame_bytes(payload);
    let length = payload.len() as u32;
    assert(frame.subrange(0, 4) =~= le32(length));
    crate::wire::lemma_le32_round_trip(length, frame, 0);
    assert(frame.skip(FRAME_LENGTH_SIZE as int) =~= payload);
}

/// While a frame's bytes arrive in pieces, a reader never asks for a byte beyond the frame, and
/// takes no proper beginning of the frame for the whole.
pub proof fn law_readers_stop_at_the_frame(payload: Seq<u8>, arrived: int)
    requires
        payload.len() <= MAX_FRAME_LEN,
        0 <= arrived < frame_bytes(payload).len(),
    ensures
        ({
            let bytes = frame_bytes(payload).take(arrived);
            &&& is_frame_start(bytes)
            &&& !is_complete(bytes)
            &&& 0 < missing(bytes) <= frame_bytes(payload).len() - arrived
        }),
{
    let frame = frame_bytes(payload);
    let bytes = frame.take(arrived);
    law_frames_round_trip(payload);
    if arrived >= FRAME_LENGTH_SIZE {
        assert(bytes.subrange(0, 4) =~= frame.subrange(0, 4));
        assert(announced(bytes) == announced(frame));
    }
}

/// A frame starts with the length of its payload in four bytes, the low byte first.
pub proof fn law_frames_start_with_their_length(payload: Seq<u8>)
    requires
        payload.len() <= u32::MAX,
    ensures
        ({
            let frame = frame_bytes(payload);
            &&& frame.len() == 4 + payload.len()
            &&& frame[0] + 256 * frame[1] + 65536 * frame[2] + 16777216 * frame[3] == payload.len()
            &&& frame.skip(4) == payload
        }),
{
    let frame = frame_bytes(payload);
    assert(frame.subrange(0, 4) =~= le32(payload.len() as u32));
    crate::wire::lemma_le32_round_trip(payload.len() as u32, frame, 0);
    assert(frame.skip(4) =~= payload);
}

/// A reader asks for exactly what the part that it reads still lacks: first for the rest of the
/// length, then for the rest of the payload.
pub proof fn law_readers_ask_for_the_rest(payload: Seq<u8>, arrived: int)
    requires
        payload.len() <= MAX_FRAME_LEN,
        0 <= arrived < frame_bytes(payload).len(),
    ensures
        ({
            let bytes = frame_bytes(payload).take(arrived);
            &&& arrived < 4 ==> missing(bytes) == 4 - arrived && stage_of(bytes)
                == FrameStage::Length
            &&& arrived >= 4 ==> missing(bytes) == frame_bytes(payload).len() - arrived
                && stage_of(bytes) == FrameStage::Payload
        }),
{
    let frame = frame_bytes(payload);
    law_frames_round_trip(payload);
    if arrived >= 4 {
        let bytes = frame.take(arrived);
        assert(bytes[0] == frame[0] && bytes[1] == frame[1] && bytes[2] == frame[2] && bytes[3]
            == frame[3]);
    }
}

/// Payloads of up to 64 mebibytes are read, and longer ones refused, whatever the length says.
pub proof fn law_long_frames_are_refused(field: &[u8], length: Result<usize, FrameError>)
    requires
        call_ensures(frame_length, (field,), length),
        field@.len() >= 4,
    ensures
        ({
            let said = field@[0] + 256 * field@[1] + 65536 * field@[2] + 16777216 * field@[3];
            &&& length is Ok <==> said <= 67_108_864
            &&& length is Ok ==> length->Ok_0 == said
            &&& length is Err ==> length->Err_0 == (FrameError::TooLarge { length: said as usize })
        }),
{
}

/// Every payload that the length can name is framed, and no other.
pub proof fn law_payloads_are_framed(payload: &[u8], frame: Result<Vec<u8>, FrameError>)
    requires
        call_ensures(build_frame, (payload,), frame),
    ensures
        frame is Ok <==> payload@.len() < 0x1_0000_0000,
        frame matches Ok(bytes) ==> bytes@.skip(4) == payload@ && announced(bytes@)
            == payload@.len(),
        frame matches Err(error) ==> error == FrameError::Unsendable,
{
    if payload@.len() < 0x1_0000_0000 {
        law_frames_start_with_their_length(payload@);
    }
}

/// Errors say in words what was being read, and how long a payload was that was too long.
pub proof fn law_frame_errors_name_their_part(length: usize)
    ensures
        (FrameError::Shutdown { waiting_for: FrameStage::Length }).spec_text()
            == "ALVR control session shutdown requested while waiting to "@
            + "read ALVR frame length"@,
        (FrameError::Shutdown { waiting_for: FrameStage::Payload }).spec_text()
            == "ALVR control session shutdown requested while waiting to "@
            + "read ALVR frame payload"@,
        (FrameError::Closed { during: FrameStage::Length }).spec_text()
            == "ALVR control socket closed while trying to "@ + "read ALVR frame length"@,
        (FrameError::Closed { during: FrameStage::Payload }).spec_text()
            == "ALVR control socket closed while trying to "@ + "read ALVR frame payload"@,
        (FrameError::ReadFailed { part: FrameStage::Length }).spec_text()
            == "read ALVR frame length"@,
        (FrameError::ReadFailed { part: FrameStage::Payload }).spec_text()
            == "read ALVR frame payload"@,
        (FrameError::TooLarge { length }).spec_text() == "ALVR frame too large: "@ + decimal(
            length as nat,
        ) + " bytes"@,
        FrameError::Unsendable.spec_text() == "ALVR framed packet too large"@,
{
}

/// A connection can be read only where the poll says so and nothing speaks against it. A poll that
/// saw nothing, or was interrupted, is made again.
pub proof fn law_polls_are_repeated_until_ready(
    result: i32,
    invalid_events: bool,
    interrupted: bool,
    outcome: PollOutcome,
)
    requires
        call_ensures(poll_outcome, (result, invalid_events, interrupted), outcome),
    ensures
        outcome == PollOutcome::Ready <==> result > 0 && !invalid_events,
        outcome == PollOutcome::Invalid <==> result > 0 && invalid_events,
        outcome == PollOutcome::Again <==> result == 0 || (result < 0 && interrupted),
        outcome == PollOutcome::Failed <==> result < 0 && !interrupted,
{
}

/// A frame that arrives in two parts is read in two steps: the length says how much is still to be
/// read, and what follows it is the payload.
pub proof fn law_frames_are_read_in_two_steps(
    head: Vec<u8>,
    body: Vec<u8>,
    fresh: FrameReader,
    first: FrameStep,
    second: FrameStep,
)
    requires
        head@.len() == 4,
        0 < body@.len() <= 67_108_864,
        head@[0] + 256 * head@[1] + 65536 * head@[2] + 16777216 * head@[3] == body@.len(),
        call_ensures(FrameReader::new, (), fresh),
    ensures
        fresh.received@.len() == 0,
        forall|reader: &mut FrameReader, later: &mut FrameReader|
            *reader == fresh && #[trigger] call_ensures(
                FrameReader::advance,
                (reader, ControlRead::Bytes(head)),
                first,
            ) && *later == *final(reader) && #[trigger] call_ensures(
                FrameReader::advance,
                (later, ControlRead::Bytes(body)),
                second,
            ) ==> {
                &&& first is Read && first->Read_0 == body@.len()
                &&& second is Complete && second->Complete_0@ == body@
            },
{
    assert forall|reader: &mut FrameReader, later: &mut FrameReader|
        *reader == fresh && #[trigger] call_ensures(
            FrameReader::advance,
            (reader, ControlRead::Bytes(head)),
            first,
        ) && *later == *final(reader) && #[trigger] call_ensures(
            FrameReader::advance,
            (later, ControlRead::Bytes(body)),
            second,
        ) implies {
        &&& first is Read && first->Read_0 == body@.len()
        &&& second is Complete && second->Complete_0@ == body@
    } by {
        assert(fresh.received@ + head@ =~= head@);
        let both = head@ + body@;
        assert(both[0] == head@[0] && both[1] == head@[1] && both[2] == head@[2] && both[3]
            == head@[3]);
        assert(announced(head@) == body@.len());
        assert(announced(both) == body@.len());
        assert(both.skip(4) =~= body@);
        assert(final(reader).received@ == head@);
    }
}

/// A reader that is interrupted keeps what arrived and names the part that it waits for.
pub proof fn law_interrupted_readers_name_their_part(step: FrameStep)
    ensures
        forall|reader: &mut FrameReader|
            (*reader).well_formed() && #[trigger] call_ensures(
                FrameReader::advance,
                (reader, ControlRead::Closed),
                step,
            ) ==> final(reader).received@ == (*reader).received@ && step == FrameStep::Stop(
                FrameError::Closed {
                    during: if (*reader).received@.len() < 4 {
                        FrameStage::Length
                    } else {
                        FrameStage::Payload
                    },
                },
            ),
        forall|reader: &mut FrameReader|
            (*reader).well_formed() && #[trigger] call_ensures(
                FrameReader::advance,
                (reader, ControlRead::Shutdown),
                step,
            ) ==> final(reader).received@ == (*reader).received@ && step == FrameStep::Stop(
                FrameError::Shutdown {
                    waiting_for: if (*reader).received@.len() < 4 {
                        FrameStage::Length
                    } else {
                        FrameStage::Payload
                    },
                },
            ),
        forall|reader: &mut FrameReader|
            (*reader).well_formed() && #[trigger] call_ensures(
                FrameReader::advance,
                (reader, ControlRead::Failed),
                step,
            ) ==> final(reader).received@ == (*reader).received@ && step == FrameStep::Stop(
                FrameError::ReadFailed {
                    part: if (*reader).received@.len() < 4 {
                        FrameStage::Length
                    } else {
                        FrameStage::Payload
                    },
                },
            ),
        forall|reader: &mut FrameReader|
            (*reader).well_formed() && #[trigger] call_ensures(
                FrameReader::advance,
                (reader, ControlRead::Nothing),
                step,
            ) ==> final(reader).received@ == (*reader).received@ && step is Read,
{
}

} // verus!
