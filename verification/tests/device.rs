use alphamon_rs::device::cplus::{
    decode_hid_frame, decode_serial_frame, find_frame_end, prepare_report, read_processed_data,
    HidEvent, HidStep, Query, SerialAction, SerialEvent, SerialPhase, SerialQuery,
    DATA_FEATURE_REPORT, END_BYTE, RATING_MSG_PREFIX, REPORT_SIZE, STATUS_MSG_PREFIX,
};
use alphamon_rs::model::cplus::{
    AlarmInquiryResponse, AutonomyResponse, StatusInquiryResponse, UPSRating, BAUD_RATE,
};
use alphamon_rs::Error;

/// A report buffer that holds `message` and then padding.
fn report(message: &[u8]) -> Vec<u8> {
    let mut buffer = vec![0u8; REPORT_SIZE];
    buffer[..message.len()].copy_from_slice(message);
    buffer
}

/// Runs a query against a port that does what is asked and then sends
/// `incoming`, and fails when that is used up.
fn run_serial(incoming: &[u8]) -> (SerialQuery, Vec<SerialAction>) {
    let mut query = SerialQuery::new();
    let mut actions = vec![query.step(SerialEvent::Begin)];
    let mut next = 0;
    loop {
        let event = match actions[actions.len() - 1] {
            SerialAction::ClearInput | SerialAction::WriteCommand | SerialAction::WriteDelimiter => {
                SerialEvent::Completed
            }
            SerialAction::ReadByte => {
                if next < incoming.len() {
                    next += 1;
                    SerialEvent::Byte(incoming[next - 1])
                } else {
                    SerialEvent::Failed
                }
            }
            SerialAction::Deliver | SerialAction::Fail(_) => return (query, actions),
        };
        actions.push(query.step(event));
    }
}

#[test]
fn protocol_constants() {
    assert_eq!(END_BYTE, b'\r');
    assert_eq!(DATA_FEATURE_REPORT, 5);
    assert_eq!(STATUS_MSG_PREFIX, b'(');
    assert_eq!(RATING_MSG_PREFIX, b'#');
    assert_eq!(REPORT_SIZE, 48);
    assert_eq!(BAUD_RATE, 2400);
}

#[test]
fn commands() {
    assert_eq!(Query::Status.command(), b"Q1");
    assert_eq!(Query::Alarm.command(), b"Q4");
    assert_eq!(Query::ExtraPowerInfo.command(), b"Q5");
    assert_eq!(Query::Autonomy.command(), b"At");
    assert_eq!(Query::BatteryLife.command(), b"BL");
    assert_eq!(Query::Information.command(), b"I");
    assert_eq!(Query::Rating.command(), b"F");
}

#[test]
fn hid_answers_status_and_rating_only() {
    assert_eq!(Query::Status.hid_prefix(), Ok(b'('));
    assert_eq!(Query::Rating.hid_prefix(), Ok(b'#'));
    for query in [
        Query::Alarm,
        Query::ExtraPowerInfo,
        Query::Autonomy,
        Query::BatteryLife,
        Query::Information,
    ] {
        assert_eq!(query.hid_prefix(), Err(Error::UnsupportedOnTransport));
    }
}

#[test]
fn serial_query_order_of_actions() {
    let (query, actions) = run_serial(b"(10\r");
    assert_eq!(
        actions,
        [
            SerialAction::ClearInput,
            SerialAction::WriteCommand,
            SerialAction::WriteDelimiter,
            SerialAction::ReadByte,
            SerialAction::ReadByte,
            SerialAction::ReadByte,
            SerialAction::ReadByte,
            SerialAction::Deliver,
        ]
    );
    assert_eq!(query.phase, SerialPhase::Finished);
    assert_eq!(query.frame, b"(10");
    assert_eq!(
        decode_serial_frame::<AlarmInquiryResponse>(&query.frame),
        Ok(AlarmInquiryResponse { inverter_on: true, ups_alarm_on: false })
    );
}

#[test]
fn serial_query_stops_at_the_first_delimiter() {
    let (query, actions) = run_serial(b"(01\r(10\r");
    assert_eq!(actions[actions.len() - 1], SerialAction::Deliver);
    assert_eq!(query.frame, b"(01");
}

#[test]
fn serial_query_status() {
    let (query, _) = run_serial(b"(208.4 140.0 208.4 034 59.9 2.05 35.0 00110000\r");
    let status = decode_serial_frame::<StatusInquiryResponse>(&query.frame).unwrap();
    assert_eq!(status.battery_capacity, 62);
    assert_eq!(status.output_load_percentage, 34);
}

#[test]
fn serial_timeout_before_the_delimiter_is_an_io_error() {
    for incoming in [&b""[..], b"(", b"(208.4 140.0 208.4 034 59.9 2.05 35.0 00110000", b"(10"] {
        let (query, actions) = run_serial(incoming);
        assert_eq!(actions[actions.len() - 1], SerialAction::Fail(Error::Io));
        assert_eq!(query.phase, SerialPhase::Finished);
        assert!(!actions.contains(&SerialAction::Deliver));
    }
}

#[test]
fn serial_failures_by_phase() {
    let mut query = SerialQuery::new();
    assert_eq!(query.step(SerialEvent::Begin), SerialAction::ClearInput);
    assert_eq!(query.step(SerialEvent::Failed), SerialAction::Fail(Error::SerialPort));
    assert_eq!(query.phase, SerialPhase::Finished);

    let mut query = SerialQuery::new();
    query.step(SerialEvent::Begin);
    assert_eq!(query.step(SerialEvent::Completed), SerialAction::WriteCommand);
    assert_eq!(query.step(SerialEvent::Failed), SerialAction::Fail(Error::Io));

    let mut query = SerialQuery::new();
    query.step(SerialEvent::Begin);
    query.step(SerialEvent::Completed);
    assert_eq!(query.step(SerialEvent::Completed), SerialAction::WriteDelimiter);
    assert_eq!(query.step(SerialEvent::Failed), SerialAction::Fail(Error::Io));
}

#[test]
fn serial_event_out_of_turn_ends_the_query() {
    let mut query = SerialQuery::new();
    assert_eq!(query.step(SerialEvent::Byte(b'(')), SerialAction::Fail(Error::Io));
    assert_eq!(query.phase, SerialPhase::Finished);
    assert_eq!(query.step(SerialEvent::Begin), SerialAction::Fail(Error::Io));

    let mut query = SerialQuery::new();
    query.step(SerialEvent::Begin);
    query.step(SerialEvent::Completed);
    query.step(SerialEvent::Completed);
    assert_eq!(query.step(SerialEvent::Completed), SerialAction::ReadByte);
    assert_eq!(query.step(SerialEvent::Completed), SerialAction::Fail(Error::Io));
    assert_eq!(query.step(SerialEvent::Byte(b'\r')), SerialAction::Fail(Error::Io));
}

#[test]
fn serial_frame_without_start_byte() {
    assert_eq!(decode_serial_frame::<AlarmInquiryResponse>(b""), Err(Error::InvalidFormat));
    assert_eq!(decode_serial_frame::<AutonomyResponse>(b""), Err(Error::InvalidFormat));
    assert_eq!(
        decode_serial_frame::<AutonomyResponse>(b"("),
        Err(Error::InvalidParameterLength)
    );
    assert_eq!(
        decode_serial_frame::<AutonomyResponse>(&[b'(', 0, 0, 5, 68]),
        Ok(AutonomyResponse { time: 1348 })
    );
    // Whatever the first byte is, it is taken off.
    assert_eq!(
        decode_serial_frame::<AlarmInquiryResponse>(b"110"),
        Ok(AlarmInquiryResponse { inverter_on: true, ups_alarm_on: false })
    );
}

#[test]
fn report_buffer_gets_the_report_number() {
    let mut buffer = vec![0u8; REPORT_SIZE];
    buffer[1] = 7;
    assert_eq!(prepare_report(&mut buffer), Ok(()));
    assert_eq!(buffer[0], 5);
    assert_eq!(buffer[1], 7);
    assert_eq!(buffer.len(), REPORT_SIZE);
    assert!(buffer[2..].iter().all(|b| *b == 0));

    let mut one = vec![9u8];
    assert_eq!(prepare_report(&mut one), Ok(()));
    assert_eq!(one, [5]);
}

#[test]
fn report_buffer_too_small() {
    let mut empty: Vec<u8> = Vec::new();
    assert_eq!(
        prepare_report(&mut empty),
        Err(Error::BufferTooSmall { expected: 1, provided: 0 })
    );
    assert!(empty.is_empty());
}

#[test]
fn frame_end_in_a_report() {
    assert_eq!(find_frame_end(&report(b"(abc\r"), Some(b'(')), Some(4));
    assert_eq!(find_frame_end(&report(b"(abc\r"), None), Some(4));
    assert_eq!(find_frame_end(&report(b"#abc\r"), Some(b'#')), Some(4));
    // The delimiter as the last byte of the report.
    let mut full = vec![b'x'; REPORT_SIZE];
    full[0] = b'(';
    full[REPORT_SIZE - 1] = b'\r';
    assert_eq!(find_frame_end(&full, Some(b'(')), Some(REPORT_SIZE - 1));
    assert_eq!(find_frame_end(b"\r", None), Some(0));
}

#[test]
fn frame_end_rejected() {
    // No delimiter.
    assert_eq!(find_frame_end(&report(b"(abc"), Some(b'(')), None);
    assert_eq!(find_frame_end(b"", None), None);
    // Another message's prefix.
    assert_eq!(find_frame_end(&report(b"#abc\r"), Some(b'(')), None);
    assert_eq!(find_frame_end(&report(b"(abc\r"), Some(b'#')), None);
    // The delimiter is followed by more of the carousel.
    assert_eq!(find_frame_end(&report(b"(abc\r(de"), Some(b'(')), None);
    assert_eq!(find_frame_end(&report(b"(abc\r(de"), None), None);
    // Only the first delimiter counts.
    assert_eq!(find_frame_end(&report(b"(abc\r(de\r"), Some(b'(')), None);
    // Padding other than zero.
    assert_eq!(find_frame_end(b"(abc\r ", Some(b'(')), None);
}

#[test]
fn hid_query_passes_over_a_fragment_and_takes_the_whole_frame() {
    let fragment = report(b"0 35.0 00110000\r#230.0 008 072");
    let whole = report(b"(208.4 140.0 208.4 034 59.9 2.05 35.0 00110000\r");
    let reports = [fragment, whole];
    let mut reads = 0;
    let mut result = None;
    for buffer in &reports {
        reads += 1;
        match read_processed_data::<StatusInquiryResponse>(
            HidEvent::Report(buffer),
            Some(STATUS_MSG_PREFIX),
        ) {
            HidStep::ReadAgain => {}
            HidStep::Finished(r) => {
                result = Some(r);
                break;
            }
        }
    }
    assert_eq!(reads, 2);
    let status = result.unwrap().unwrap();
    assert_eq!(status.battery_capacity, 62);
    assert!(status.ups_status.battery_abnormal);
    assert_eq!(status.battery_capacity_parameter, "2.05");
}

#[test]
fn hid_query_waits_for_its_own_message() {
    let rating = report(b"#230.0 008 072.0 50.0\r");
    let status = report(b"(208.4 140.0 208.4 034 59.9 2.05 35.0 00110000\r");
    assert!(matches!(
        read_processed_data::<StatusInquiryResponse>(HidEvent::Report(&rating), Some(b'(')),
        HidStep::ReadAgain
    ));
    assert!(matches!(
        read_processed_data::<UPSRating>(HidEvent::Report(&status), Some(b'#')),
        HidStep::ReadAgain
    ));
    match read_processed_data::<UPSRating>(HidEvent::Report(&rating), Some(b'#')) {
        HidStep::Finished(Ok(r)) => assert_eq!(r.output_rating_current, 8),
        _ => panic!("the rating was not decoded"),
    }
}

#[test]
fn hid_query_hands_on_decode_errors() {
    let broken = report(b"(208.4 140.0 208.4 034 59.9 2.05 35.0\r");
    assert!(matches!(
        read_processed_data::<StatusInquiryResponse>(HidEvent::Report(&broken), Some(b'(')),
        HidStep::Finished(Err(Error::InvalidFormat))
    ));
    let unlisted = report(b"(208.4 140.0 208.4 034 59.9 2.5 35.0 00110000\r");
    assert!(matches!(
        read_processed_data::<StatusInquiryResponse>(HidEvent::Report(&unlisted), Some(b'(')),
        HidStep::Finished(Err(Error::InvalidBatteryCapacityParameter))
    ));
}

#[test]
fn hid_read_failure_ends_the_query() {
    assert!(matches!(
        read_processed_data::<StatusInquiryResponse>(HidEvent::Failed, Some(b'(')),
        HidStep::Finished(Err(Error::HidApi))
    ));
    assert!(matches!(
        read_processed_data::<UPSRating>(HidEvent::Failed, None),
        HidStep::Finished(Err(Error::HidApi))
    ));
}

#[test]
fn hid_frame_bounds() {
    assert_eq!(
        decode_hid_frame::<AlarmInquiryResponse>(b"(10\r", 3),
        Ok(AlarmInquiryResponse { inverter_on: true, ups_alarm_on: false })
    );
    assert_eq!(decode_hid_frame::<AlarmInquiryResponse>(b"\r", 0), Err(Error::InvalidFormat));
    assert_eq!(decode_hid_frame::<AlarmInquiryResponse>(b"(10\r", 5), Err(Error::InvalidFormat));
    assert_eq!(decode_hid_frame::<AlarmInquiryResponse>(b"(10\r", 1), Err(Error::InvalidFormat));
    // A delimiter in the first byte, with no prefix asked for, leaves no message.
    assert!(matches!(
        read_processed_data::<AlarmInquiryResponse>(HidEvent::Report(b"\r"), None),
        HidStep::Finished(Err(Error::InvalidFormat))
    ));
}
