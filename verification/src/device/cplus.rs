//! The query engines of the CPlus protocol.
//!
//! On the serial line a query clears the input, writes its command and the
//! delimiter, and reads bytes up to the next delimiter. On USB HID the device
//! sends its messages in turn on one feature report, and a query polls that
//! report until it holds a whole message of the kind asked for.

use crate::error::Error;
use crate::model::cplus::{
    AlarmInquiryResponse, AutonomyResponse, BatteryLifeResponse, ExtraPowerInfoResponse,
    StatusInquiryResponse, UPSInformation, UPSRating,
};
use crate::model::wire::{find_byte, lemma_first_occurrence, lemma_no_occurrence};
use crate::model::FromBytes;
use vstd::prelude::*;
use vstd::slice::slice_subrange;

verus! {

/// End byte of CPlus messages: a carriage return.
pub const END_BYTE: u8 = 0x0D;

/// The USB HID feature report on which the device sends its messages in turn.
pub const DATA_FEATURE_REPORT: u8 = 5;

/// The size of the buffer that a feature report is read into.
pub const REPORT_SIZE: usize = 48;

/// The byte that fills a report after a message.
pub const REPORT_PADDING: u8 = 0;

/// Prefix of the status message on HID: `(`.
pub const STATUS_MSG_PREFIX: u8 = 0x28;

/// Prefix of the rating message on HID: `#`.
pub const RATING_MSG_PREFIX: u8 = 0x23;

/// What can be asked of the UPS.
pub trait CPlusInterface {
    /// Queries the input/output voltage, load percentage, input AC frequency,
    /// battery capacity temperature and the UPS status and errors/warnings (battery, etc.)
    fn query_ups_status(&mut self) -> Result<StatusInquiryResponse, Error>;

    /// Queries the UPS output AC frequency, per-battery voltage, UPS load in watts,
    /// UPS error code, and the UPS load current in amperes.
    fn query_extra_power_info(&mut self) -> Result<ExtraPowerInfoResponse, Error>;

    /// Queries the UPS for alarm notifications: whether the inverter is on or off,
    /// or if the UPS itself is in the state of an alarm.
    fn query_alarm(&mut self) -> Result<AlarmInquiryResponse, Error>;

    /// Queries the UPS for the length of time during which the UPS can
    /// provide power, taking in account the current load and battery capacity.
    fn query_ups_autonomy(&mut self) -> Result<AutonomyResponse, Error>;

    /// Queries the UPS for the remaining lifetime of its battery.
    fn query_ups_battery_life(&mut self) -> Result<BatteryLifeResponse, Error>;

    /// Queries the UPS for info about its manufacturer, model name and version.
    fn query_ups_info(&mut self) -> Result<UPSInformation, Error>;

    /// Queries the UPS for info about its rated output voltage, current, frequency and battery voltage.
    fn query_ups_rating(&mut self) -> Result<UPSRating, Error>;
}

/// The kinds of query.
#[derive(Debug, Clone, Copy, PartialEq, Eq, Structural)]
pub enum Query {
    Status,
    Alarm,
    ExtraPowerInfo,
    Autonomy,
    BatteryLife,
    Information,
    Rating,
}

impl Query {
    /// The command that asks for the response, as it goes over the serial
    /// line before the delimiter: `Q1`, `Q4`, `Q5`, `At`, `BL`, `I` and `F`.
    pub open spec fn command_bytes(self) -> Seq<u8> {
        match self {
            Query::Status => seq![0x51u8, 0x31u8],
            Query::Alarm => seq![0x51u8, 0x34u8],
            Query::ExtraPowerInfo => seq![0x51u8, 0x35u8],
            Query::Autonomy => seq![0x41u8, 0x74u8],
            Query::BatteryLife => seq![0x42u8, 0x4Cu8],
            Query::Information => seq![0x49u8],
            Query::Rating => seq![0x46u8],
        }
    }

    /// The command that asks for the response.
    pub fn command(&self) -> (r: Vec<u8>)
        ensures
            r@ == self.command_bytes(),
    {
        let mut command: Vec<u8> = Vec::new();
        match self {
            Query::Status => {
                command.push(0x51);
                command.push(0x31);
            },
            Query::Alarm => {
                command.push(0x51);
                command.push(0x34);
            },
            Query::ExtraPowerInfo => {
                command.push(0x51);
                command.push(0x35);
            },
            Query::Autonomy => {
                command.push(0x41);
                command.push(0x74);
            },
            Query::BatteryLife => {
                command.push(0x42);
                command.push(0x4C);
            },
            Query::Information => {
                command.push(0x49);
            },
            Query::Rating => {
                command.push(0x46);
            },
        }
        assert(command@ =~= self.command_bytes());
        command
    }

    /// The prefix of the response on HID. Only status and rating are sent there.
    pub open spec fn hid_prefix_of(self) -> Result<u8, Error> {
        match self {
            Query::Status => Ok(STATUS_MSG_PREFIX),
            Query::Rating => Ok(RATING_MSG_PREFIX),
            _ => Err(Error::UnsupportedOnTransport),
        }
    }

    /// The prefix by which the response is known on HID, or
    /// `UnsupportedOnTransport` for a query that HID does not answer.
    pub fn hid_prefix(&self) -> (r: Result<u8, Error>)
        ensures
            r == self.hid_prefix_of(),
    {
        match self {
            Query::Status => Ok(STATUS_MSG_PREFIX),
            Query::Rating => Ok(RATING_MSG_PREFIX),
            _ => Err(Error::UnsupportedOnTransport),
        }
    }
}

/// How far a serial query has come.
#[derive(Debug, Clone, Copy, PartialEq, Eq, Structural)]
pub enum SerialPhase {
    /// Nothing has been asked of the port yet.
    Idle,
    /// The input buffer is being cleared.
    Clearing,
    /// The command is being written.
    WritingCommand,
    /// The delimiter after the command is being written.
    WritingDelimiter,
    /// The response is being read.
    Reading,
    /// The query has ended, with a frame or with an error.
    Finished,
}

/// What the port has to do next for a serial query.
#[derive(Debug, Clone, Copy, PartialEq, Eq, Structural)]
pub enum SerialAction {
    /// Discard what the port has buffered.
    ClearInput,
    /// Write the command of the query.
    WriteCommand,
    /// Write one delimiter byte.
    WriteDelimiter,
    /// Read one byte.
    ReadByte,
    /// Nothing more: the frame of the query is complete.
    Deliver,
    /// Nothing more: the query has failed.
    Fail(Error),
}

/// What came of the last action of a serial query.
#[derive(Debug, Clone, Copy, PartialEq, Eq, Structural)]
pub enum SerialEvent {
    /// The query is to start.
    Begin,
    /// The input was cleared, or the bytes were written.
    Completed,
    /// This byte was read.
    Byte(u8),
    /// The port reported an error or ran into its timeout.
    Failed,
}

/// The error of a failure in a phase: clearing the input is the serial
/// port's own matter, writing and reading are I/O.
pub open spec fn serial_failure(phase: SerialPhase) -> Error {
    if phase == SerialPhase::Clearing {
        Error::SerialPort
    } else {
        Error::Io
    }
}

/// One step of a serial query: the phase and the frame after an event, and
/// the action that follows. An event that does not answer the action that
/// was asked for ends the query like a failure.
pub open spec fn serial_next(phase: SerialPhase, frame: Seq<u8>, event: SerialEvent) -> (
    SerialPhase,
    Seq<u8>,
    SerialAction,
) {
    match (phase, event) {
        (SerialPhase::Idle, SerialEvent::Begin) => (
            SerialPhase::Clearing,
            Seq::empty(),
            SerialAction::ClearInput,
        ),
        (SerialPhase::Clearing, SerialEvent::Completed) => (
            SerialPhase::WritingCommand,
            frame,
            SerialAction::WriteCommand,
        ),
        (SerialPhase::WritingCommand, SerialEvent::Completed) => (
            SerialPhase::WritingDelimiter,
            frame,
            SerialAction::WriteDelimiter,
        ),
        (SerialPhase::WritingDelimiter, SerialEvent::Completed) => (
            SerialPhase::Reading,
            frame,
            SerialAction::ReadByte,
        ),
        (SerialPhase::Reading, SerialEvent::Byte(b)) => if b == END_BYTE {
            (SerialPhase::Finished, frame, SerialAction::Deliver)
        } else {
            (SerialPhase::Reading, frame.push(b), SerialAction::ReadByte)
        },
        _ => (SerialPhase::Finished, frame, SerialAction::Fail(serial_failure(phase))),
    }
}

/// A query on the serial line.
#[derive(Debug)]
pub struct SerialQuery {
    pub phase: SerialPhase,
    /// The bytes read so far, without the delimiter.
    pub frame: Vec<u8>,
}

impl SerialQuery {
    /// A query that has not started.
    pub fn new() -> (r: SerialQuery)
        ensures
            r.phase == SerialPhase::Idle,
            r.frame@ == Seq::<u8>::empty(),
    {
        SerialQuery { phase: SerialPhase::Idle, frame: Vec::new() }
    }

    /// Takes what came of the last action and says what to do next.
    pub fn step(&mut self, event: SerialEvent) -> (action: SerialAction)
        ensures
            (final(self).phase, final(self).frame@, action) == serial_next(
                old(self).phase,
                old(self).frame@,
                event,
            ),
    {
        match (self.phase, event) {
            (SerialPhase::Idle, SerialEvent::Begin) => {
                self.phase = SerialPhase::Clearing;
                self.frame = Vec::new();
                SerialAction::ClearInput
            },
            (SerialPhase::Clearing, SerialEvent::Completed) => {
                self.phase = SerialPhase::WritingCommand;
                SerialAction::WriteCommand
            },
            (SerialPhase::WritingCommand, SerialEvent::Completed) => {
                self.phase = SerialPhase::WritingDelimiter;
                SerialAction::WriteDelimiter
            },
            (SerialPhase::WritingDelimiter, SerialEvent::Completed) => {
                self.phase = SerialPhase::Reading;
                SerialAction::ReadByte
            },
            (SerialPhase::Reading, SerialEvent::Byte(b)) => {
                if b == END_BYTE {
                    self.phase = SerialPhase::Finished;
                    SerialAction::Deliver
                } else {
                    self.frame.push(b);
                    SerialAction::ReadByte
                }
            },
            (phase, _) => {
                self.phase = SerialPhase::Finished;
                if phase == SerialPhase::Clearing {
                    SerialAction::Fail(Error::SerialPort)
                } else {
                    SerialAction::Fail(Error::Io)
                }
            },
        }
    }
}

/// The phase and the frame of a query after a run of events, from its start.
pub open spec fn serial_state_after(events: Seq<SerialEvent>) -> (SerialPhase, Seq<u8>)
    decreases events.len(),
{
    if events.len() == 0 {
        (SerialPhase::Idle, Seq::empty())
    } else {
        let before = serial_state_after(events.drop_last());
        let after = serial_next(before.0, before.1, events.last());
        (after.0, after.1)
    }
}

/// The action that a query asks for after the last of a run of events.
pub open spec fn serial_action_after(events: Seq<SerialEvent>) -> SerialAction
    recommends
        events.len() > 0,
{
    let before = serial_state_after(events.drop_last());
    serial_next(before.0, before.1, events.last()).2
}

/// The events of a query whose port does what is asked of it and then hands
/// over the bytes `read`, one by one.
pub open spec fn serial_reading(read: Seq<u8>) -> Seq<SerialEvent> {
    seq![
        SerialEvent::Begin,
        SerialEvent::Completed,
        SerialEvent::Completed,
        SerialEvent::Completed,
    ] + Seq::new(read.len(), |i: int| SerialEvent::Byte(read[i]))
}

/// While no delimiter has come, a query goes on reading and its frame is what
/// it has read.
pub proof fn lemma_serial_reading(read: Seq<u8>)
    requires
        !read.contains(END_BYTE),
    ensures
        serial_state_after(serial_reading(read)) == (SerialPhase::Reading, read),
        serial_action_after(serial_reading(read)) == SerialAction::ReadByte,
    decreases read.len(),
{
    let events = serial_reading(read);
    if read.len() == 0 {
        reveal_with_fuel(serial_state_after, 5);
        let e3 = events.drop_last();
        let e2 = e3.drop_last();
        let e1 = e2.drop_last();
        let e0 = e1.drop_last();
        assert(e0.len() == 0);
        assert(e1.last() == SerialEvent::Begin);
        assert(e2.last() == SerialEvent::Completed);
        assert(e3.last() == SerialEvent::Completed);
        assert(events.last() == SerialEvent::Completed);
        assert(read =~= Seq::<u8>::empty());
    } else {
        let shorter = read.drop_last();
        assert forall|i: int| 0 <= i < shorter.len() implies shorter[i] != END_BYTE by {
            assert(read.contains(read[i]));
        }
        lemma_serial_reading(shorter);
        assert(events.drop_last() =~= serial_reading(shorter));
        assert(events.last() == SerialEvent::Byte(read.last()));
        assert(read.contains(read.last()));
        assert(shorter.push(read.last()) =~= read);
    }
}

/// A query whose port does all that is asked of it delivers the bytes that
/// came before the first delimiter, and nothing of the delimiter.
pub proof fn lemma_serial_query_delivers(read: Seq<u8>)
    requires
        !read.contains(END_BYTE),
    ensures
        serial_state_after(serial_reading(read).push(SerialEvent::Byte(END_BYTE))) == (
            SerialPhase::Finished,
            read,
        ),
        serial_action_after(serial_reading(read).push(SerialEvent::Byte(END_BYTE)))
            == SerialAction::Deliver,
{
    lemma_serial_reading(read);
    let events = serial_reading(read).push(SerialEvent::Byte(END_BYTE));
    assert(events.drop_last() =~= serial_reading(read));
}

/// A query whose port fails or runs into its timeout before the delimiter has
/// come ends with an I/O error, however much it had read: it delivers no frame.
pub proof fn lemma_serial_timeout_fails(read: Seq<u8>)
    requires
        !read.contains(END_BYTE),
    ensures
        serial_state_after(serial_reading(read).push(SerialEvent::Failed)).0
            == SerialPhase::Finished,
        serial_action_after(serial_reading(read).push(SerialEvent::Failed)) == SerialAction::Fail(
            Error::Io,
        ),
{
    lemma_serial_reading(read);
    let events = serial_reading(read).push(SerialEvent::Failed);
    assert(events.drop_last() =~= serial_reading(read));
}

/// Once a query has finished, no event makes it deliver a frame: it stays
/// finished and answers with a failure.
pub proof fn lemma_serial_finished_stays(frame: Seq<u8>, event: SerialEvent)
    ensures
        serial_next(SerialPhase::Finished, frame, event) == (
            SerialPhase::Finished,
            frame,
            SerialAction::Fail(Error::Io),
        ),
{
}

/// Whether `r` is what a frame read from the serial line decodes to: its
/// first byte is the start marker, and the rest is the message.
pub open spec fn serial_frame_decodes<T: FromBytes<Err = Error>>(
    frame: Seq<u8>,
    r: Result<T, Error>,
) -> bool {
    if frame.len() == 0 {
        r == Err::<T, Error>(Error::InvalidFormat)
    } else {
        T::decodes_to(frame.subrange(1, frame.len() as int), r)
    }
}

/// Decodes the frame of a serial query.
pub fn decode_serial_frame<T: FromBytes<Err = Error>>(frame: &[u8]) -> (r: Result<T, Error>)
    ensures
        serial_frame_decodes(frame@, r),
{
    if frame.len() == 0 {
        return Err(Error::InvalidFormat);
    }
    T::from_bytes(slice_subrange(frame, 1, frame.len()))
}

/// Where the message in a report ends, if the report holds a whole message of
/// the kind asked for: at the first delimiter, if that is the last byte of the
/// report or stands before a padding byte, and if the report starts with the
/// prefix where one is asked for.
pub open spec fn accepted_end(report: Seq<u8>, prefix: Option<u8>) -> Option<int> {
    match report.index_of_first(END_BYTE) {
        Some(end) => if (end + 1 == report.len() || report[end + 1] == REPORT_PADDING) && (
        prefix matches Some(p) ==> report[0] == p) {
            Some(end)
        } else {
            None
        },
        None => None,
    }
}

/// Looks for the end of a whole message of the kind asked for.
pub fn find_frame_end(report: &[u8], prefix: Option<u8>) -> (r: Option<usize>)
    ensures
        r is Some <==> accepted_end(report@, prefix) is Some,
        r matches Some(end) ==> accepted_end(report@, prefix) == Some(end as int) && end
            < report@.len(),
{
    let end = match find_byte(report, END_BYTE) {
        Some(end) => end,
        None => {
            return None;
        },
    };
    let last = report.len() - 1;
    let padded = end == last || report[end + 1] == REPORT_PADDING;
    let tagged = match prefix {
        Some(p) => report[0] == p,
        None => true,
    };
    if padded && tagged {
        Some(end)
    } else {
        None
    }
}

/// What polling comes to on a run of reports, read one after the other: the
/// number of the first report that holds a whole message of the kind asked
/// for, and where that message ends. Polling never gets past that report.
pub open spec fn hid_poll(reports: Seq<Seq<u8>>, prefix: Option<u8>) -> Option<(int, int)>
    decreases reports.len(),
{
    if reports.len() == 0 {
        None
    } else {
        match accepted_end(reports[0], prefix) {
            Some(end) => Some((0, end)),
            None => match hid_poll(reports.drop_first(), prefix) {
                Some(found) => Some((found.0 + 1, found.1)),
                None => None,
            },
        }
    }
}

/// A query passes over every report that holds no whole message of the kind
/// asked for, whatever else it holds, and takes the first report that does.
pub proof fn lemma_hid_poll_takes_first_whole_message(
    reports: Seq<Seq<u8>>,
    prefix: Option<u8>,
    n: int,
)
    requires
        0 <= n < reports.len(),
        accepted_end(reports[n], prefix) is Some,
        forall|k: int| 0 <= k < n ==> accepted_end(#[trigger] reports[k], prefix) is None,
    ensures
        hid_poll(reports, prefix) == Some((n, accepted_end(reports[n], prefix)->0)),
    decreases n,
{
    if n > 0 {
        let rest = reports.drop_first();
        assert(rest[n - 1] == reports[n]);
        assert forall|k: int| 0 <= k < n - 1 implies accepted_end(#[trigger] rest[k], prefix)
            is None by {
            assert(rest[k] == reports[k + 1]);
        }
        lemma_hid_poll_takes_first_whole_message(rest, prefix, n - 1);
    }
}

/// A report is passed over if it holds no delimiter, if it starts with
/// another byte than the prefix asked for, or if its first delimiter is
/// followed by anything but padding. `first` is where the first delimiter
/// stands, or the length of the report if there is none.
pub proof fn lemma_fragment_is_passed_over(report: Seq<u8>, prefix: Option<u8>, first: int)
    requires
        0 <= first <= report.len(),
        forall|j: int| 0 <= j < first ==> report[j] != END_BYTE,
        first < report.len() ==> report[first] == END_BYTE,
        ({
            ||| first == report.len()
            ||| (prefix matches Some(p) && report[0] != p)
            ||| (first + 1 < report.len() && report[first + 1] != REPORT_PADDING)
        }),
    ensures
        accepted_end(report, prefix) is None,
{
    if first == report.len() {
        lemma_no_occurrence(report, END_BYTE);
    } else {
        lemma_first_occurrence(report, END_BYTE, first);
    }
}

/// A report is taken if it starts with the prefix asked for and its first
/// delimiter is its last byte or is followed by padding. The message ends at
/// that delimiter.
pub proof fn lemma_whole_message_is_taken(report: Seq<u8>, prefix: Option<u8>, end: int)
    requires
        0 <= end < report.len(),
        report[end] == END_BYTE,
        forall|j: int| 0 <= j < end ==> report[j] != END_BYTE,
        end + 1 == report.len() || report[end + 1] == REPORT_PADDING,
        prefix matches Some(p) ==> report[0] == p,
    ensures
        accepted_end(report, prefix) == Some(end),
{
    lemma_first_occurrence(report, END_BYTE, end);
}

/// Puts the number of the data feature report into the first byte of a
/// report buffer, where the HID layer reads it from.
pub fn prepare_report(report: &mut [u8]) -> (r: Result<(), Error>)
    ensures
        old(report)@.len() == 0 ==> r == Err::<(), Error>(
            Error::BufferTooSmall { expected: 1, provided: 0 },
        ) && final(report)@ == old(report)@,
        old(report)@.len() > 0 ==> r is Ok && final(report)@ == old(report)@.update(
            0,
            DATA_FEATURE_REPORT,
        ),
{
    if report.len() == 0 {
        return Err(Error::BufferTooSmall { expected: 1, provided: 0 });
    }
    report[0] = DATA_FEATURE_REPORT;
    Ok(())
}

/// What a HID query does with a report.
#[derive(Debug)]
pub enum HidStep<T> {
    /// The report holds no whole message of the kind asked for: read again.
    ReadAgain,
    /// The report held the message, and this came of decoding it.
    Finished(Result<T, Error>),
}

/// Whether `r` is what the message that ends at `end` decodes to: the first
/// byte of the report is the prefix, and the message goes up to the delimiter.
pub open spec fn hid_frame_decodes<T: FromBytes<Err = Error>>(
    report: Seq<u8>,
    end: int,
    r: Result<T, Error>,
) -> bool {
    if 1 <= end <= report.len() {
        T::decodes_to(report.subrange(1, end), r)
    } else {
        r == Err::<T, Error>(Error::InvalidFormat)
    }
}

/// Decodes the message that ends at `end` in a report.
pub fn decode_hid_frame<T: FromBytes<Err = Error>>(report: &[u8], end: usize) -> (r: Result<
    T,
    Error,
>)
    ensures
        hid_frame_decodes(report@, end as int, r),
{
    if end < 1 || end > report.len() {
        return Err(Error::InvalidFormat);
    }
    T::from_bytes(slice_subrange(report, 1, end))
}

/// What came of reading the feature report.
#[derive(Debug)]
pub enum HidEvent<'a> {
    /// The report was read into this buffer.
    Report(&'a [u8]),
    /// The HID layer reported an error.
    Failed,
}

/// Whether `step` is what a HID query does with what came of reading the
/// report: a failure ends it, a report with a whole message of the kind asked
/// for is decoded, and any other report is passed over.
pub open spec fn hid_step_holds<T: FromBytes<Err = Error>>(
    event: HidEvent,
    prefix: Option<u8>,
    step: HidStep<T>,
) -> bool {
    match event {
        HidEvent::Report(report) => match accepted_end(report@, prefix) {
            Some(end) => step matches HidStep::Finished(r) && hid_frame_decodes(report@, end, r),
            None => step is ReadAgain,
        },
        HidEvent::Failed => step == HidStep::Finished(Err::<T, Error>(Error::HidApi)),
    }
}

/// Takes what came of reading the report and either ends the query or asks
/// for the next report.
pub fn read_processed_data<T: FromBytes<Err = Error>>(event: HidEvent, prefix: Option<u8>) -> (step:
    HidStep<T>)
    ensures
        hid_step_holds(event, prefix, step),
{
    match event {
        HidEvent::Report(report) => match find_frame_end(report, prefix) {
            Some(end) => HidStep::Finished(decode_hid_frame(report, end)),
            None => HidStep::ReadAgain,
        },
        HidEvent::Failed => HidStep::Finished(Err(Error::HidApi)),
    }
}

} // verus!
