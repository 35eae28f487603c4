//! The responses of the CPlus protocol and the commands that ask for them.

use crate::error::Error;
use crate::model::capacity::{capacity_of, find_row, Mode};
use crate::model::text::{read_text_field, text_field};
use crate::model::wire::{
    be16, be32, decimal_of, digits_value, fields, flag, is_decimal_literal, is_u32_literal,
    parse_decimal, parse_u32, read_flag, split_fields, u16_from_be, u32_from_be, unsigned_part,
    Decimal,
};
use crate::model::FromBytes;
use vstd::prelude::*;
use vstd::slice::slice_subrange;
use vstd::utf8::encode_utf8;

verus! {

/// The line speed of the serial transport, in baud.
pub const BAUD_RATE: u32 = 2_400;

/// The eight status flags of the UPS.
#[derive(Debug, Clone, Copy, PartialEq, Eq, Structural)]
pub struct UPSStatus {
    pub utility_fail: bool,
    pub battery_low: bool,
    /// In offline mode: the boost/buck converter is active. In online mode:
    /// the UPS is in bypass mode.
    pub bypass_or_transformer_active: bool,
    pub battery_abnormal: bool,
    pub offline: bool,
    pub test_in_progress: bool,
    pub shutdown_active: bool,
    pub beeper_on: bool,
}

impl UPSStatus {
    /// The capacity table that the battery voltage is read against.
    pub open spec fn mode(self) -> Mode {
        if self.offline {
            Mode::Offline
        } else {
            Mode::Online
        }
    }

    /// The capacity table that the battery voltage is read against.
    pub fn capacity_mode(&self) -> (r: Mode)
        ensures
            r == self.mode(),
    {
        if self.offline {
            Mode::Offline
        } else {
            Mode::Online
        }
    }
}

/// The status that eight flag octets denote, each by its position.
pub open spec fn ups_status_of(s: Seq<u8>) -> Result<UPSStatus, Error> {
    if s.len() != 8 {
        Err(Error::InvalidFormat)
    } else {
        Ok(
            UPSStatus {
                utility_fail: flag(s[0]),
                battery_low: flag(s[1]),
                bypass_or_transformer_active: flag(s[2]),
                battery_abnormal: flag(s[3]),
                offline: flag(s[4]),
                test_in_progress: flag(s[5]),
                shutdown_active: flag(s[6]),
                beeper_on: flag(s[7]),
            },
        )
    }
}

impl FromBytes for UPSStatus {
    type Err = Error;

    open spec fn decodes_to(s: Seq<u8>, r: Result<Self, Error>) -> bool {
        r == ups_status_of(s)
    }

    fn from_bytes(s: &[u8]) -> (r: Result<Self, Error>) {
        if s.len() != 8 {
            return Err(Error::InvalidFormat);
        }
        Ok(
            UPSStatus {
                utility_fail: read_flag(s[0]),
                battery_low: read_flag(s[1]),
                bypass_or_transformer_active: read_flag(s[2]),
                battery_abnormal: read_flag(s[3]),
                offline: read_flag(s[4]),
                test_in_progress: read_flag(s[5]),
                shutdown_active: read_flag(s[6]),
                beeper_on: read_flag(s[7]),
            },
        )
    }
}

/// The answer to a status inquiry.
#[derive(Debug, PartialEq, Eq)]
pub struct StatusInquiryResponse {
    /// V
    pub input_voltage: Decimal,
    /// "Do not use" (V)
    pub input_fault_voltage: Decimal,
    /// V
    pub output_voltage: Decimal,
    /// %
    pub output_load_percentage: u32,
    /// Hz
    pub input_frequency: Decimal,
    /// %
    pub battery_capacity: u32,
    /// The battery voltage literal from which the capacity was looked up.
    pub battery_capacity_parameter: String,
    /// °C
    pub temperature: Decimal,
    pub ups_status: UPSStatus,
}

/// The error of a status inquiry, if its fields hold one: the first that
/// decoding in the order status flags, battery voltage, then the numeric
/// fields from left to right comes upon.
pub open spec fn status_inquiry_error(f: Seq<Seq<u8>>) -> Option<Error> {
    if f.len() != 8 {
        Some(Error::InvalidFormat)
    } else if ups_status_of(f[7]) is Err {
        Some(Error::InvalidFormat)
    } else if capacity_of(ups_status_of(f[7])->Ok_0.mode(), f[5]) is Err {
        Some(Error::InvalidBatteryCapacityParameter)
    } else if !is_decimal_literal(f[0]) || !is_decimal_literal(f[1]) || !is_decimal_literal(f[2]) {
        Some(Error::FloatParse)
    } else if !is_u32_literal(f[3]) {
        Some(Error::IntParse)
    } else if !is_decimal_literal(f[4]) || !is_decimal_literal(f[6]) {
        Some(Error::FloatParse)
    } else {
        None
    }
}

/// Whether a status holds what the eight fields of a status inquiry denote.
pub open spec fn status_inquiry_holds(f: Seq<Seq<u8>>, m: StatusInquiryResponse) -> bool {
    &&& m.input_voltage == decimal_of(f[0])
    &&& m.input_fault_voltage == decimal_of(f[1])
    &&& m.output_voltage == decimal_of(f[2])
    &&& m.output_load_percentage == digits_value(unsigned_part(f[3]))
    &&& m.input_frequency == decimal_of(f[4])
    &&& encode_utf8(m.battery_capacity_parameter@) == f[5]
    &&& Ok::<u32, Error>(m.battery_capacity) == capacity_of(m.ups_status.mode(), f[5])
    &&& m.temperature == decimal_of(f[6])
    &&& Ok::<UPSStatus, Error>(m.ups_status) == ups_status_of(f[7])
}

impl FromBytes for StatusInquiryResponse {
    type Err = Error;

    open spec fn decodes_to(s: Seq<u8>, r: Result<Self, Error>) -> bool {
        match status_inquiry_error(split_fields(s)) {
            Some(e) => r == Err::<Self, Error>(e),
            None => r matches Ok(m) && status_inquiry_holds(split_fields(s), m),
        }
    }

    fn from_bytes(s: &[u8]) -> (r: Result<Self, Error>) {
        let f = fields(s);
        if f.len() != 8 {
            return Err(Error::InvalidFormat);
        }
        let ups_status = match UPSStatus::from_bytes(f[7]) {
            Ok(status) => status,
            Err(e) => {
                return Err(e);
            },
        };
        let (literal, battery_capacity) = match find_row(ups_status.capacity_mode(), f[5]) {
            Some(found) => found,
            None => {
                return Err(Error::InvalidBatteryCapacityParameter);
            },
        };
        let input_voltage = match parse_decimal(f[0]) {
            Ok(v) => v,
            Err(e) => {
                return Err(e);
            },
        };
        let input_fault_voltage = match parse_decimal(f[1]) {
            Ok(v) => v,
            Err(e) => {
                return Err(e);
            },
        };
        let output_voltage = match parse_decimal(f[2]) {
            Ok(v) => v,
            Err(e) => {
                return Err(e);
            },
        };
        let output_load_percentage = match parse_u32(f[3]) {
            Ok(v) => v,
            Err(e) => {
                return Err(e);
            },
        };
        let input_frequency = match parse_decimal(f[4]) {
            Ok(v) => v,
            Err(e) => {
                return Err(e);
            },
        };
        let temperature = match parse_decimal(f[6]) {
            Ok(v) => v,
            Err(e) => {
                return Err(e);
            },
        };
        Ok(
            StatusInquiryResponse {
                input_voltage,
                input_fault_voltage,
                output_voltage,
                output_load_percentage,
                input_frequency,
                battery_capacity,
                battery_capacity_parameter: literal.to_owned(),
                temperature,
                ups_status,
            },
        )
    }
}

/// Decoding a status inquiry and decoding its eighth field alone give the
/// same flags.
pub proof fn lemma_status_flags_round_trip(s: Seq<u8>, m: StatusInquiryResponse)
    requires
        StatusInquiryResponse::decodes_to(s, Ok(m)),
    ensures
        split_fields(s).len() == 8,
        UPSStatus::decodes_to(split_fields(s)[7], Ok(m.ups_status)),
{
}

/// The answer to an alarm inquiry.
#[derive(Debug, Clone, Copy, PartialEq, Eq, Structural)]
pub struct AlarmInquiryResponse {
    pub inverter_on: bool,
    pub ups_alarm_on: bool,
}

/// The alarm state that two flag octets denote.
pub open spec fn alarm_of(s: Seq<u8>) -> Result<AlarmInquiryResponse, Error> {
    if s.len() != 2 {
        Err(Error::InvalidFormat)
    } else {
        Ok(AlarmInquiryResponse { inverter_on: flag(s[0]), ups_alarm_on: flag(s[1]) })
    }
}

impl FromBytes for AlarmInquiryResponse {
    type Err = Error;

    open spec fn decodes_to(s: Seq<u8>, r: Result<Self, Error>) -> bool {
        r == alarm_of(s)
    }

    fn from_bytes(s: &[u8]) -> (r: Result<Self, Error>) {
        if s.len() != 2 {
            return Err(Error::InvalidFormat);
        }
        Ok(AlarmInquiryResponse { inverter_on: read_flag(s[0]), ups_alarm_on: read_flag(s[1]) })
    }
}

/// The answer to an inquiry for the extra power parameters.
#[derive(Debug, Clone, Copy, PartialEq, Eq, Structural)]
pub struct ExtraPowerInfoResponse {
    /// Hz
    pub ups_output_freq: Decimal,
    /// V
    pub battery_voltage: Decimal,
    /// V
    pub battery_cut_voltage: Decimal,
    /// W
    pub ups_wattage: u32,
    /// Undocumented error code, handed on as it came.
    pub error_code: u16,
    /// A
    pub load_current: Decimal,
}

/// A binary field read as so many tenths.
pub open spec fn tenths(raw: u16) -> Decimal {
    Decimal { negative: false, mantissa: raw as u64, scale: 1 }
}

/// A binary field read as so many hundredths.
pub open spec fn hundredths(raw: u16) -> Decimal {
    Decimal { negative: false, mantissa: raw as u64, scale: 2 }
}

/// The binary field with the given number, counted from zero.
pub open spec fn binary_field(s: Seq<u8>, k: int) -> u16 {
    be16(s[2 * k], s[2 * k + 1])
}

/// The extra power parameters that ten two-byte fields denote. The fields
/// with the numbers 1, 2, 8 and 9 are reserved.
pub open spec fn extra_power_info_of(s: Seq<u8>) -> Result<ExtraPowerInfoResponse, Error> {
    if s.len() % 2 != 0 {
        Err(Error::InvalidParameterLength)
    } else if s.len() != 20 {
        Err(Error::InvalidFormat)
    } else {
        Ok(
            ExtraPowerInfoResponse {
                ups_output_freq: tenths(binary_field(s, 0)),
                battery_voltage: hundredths(binary_field(s, 3)),
                battery_cut_voltage: hundredths(binary_field(s, 4)),
                ups_wattage: binary_field(s, 5) as u32,
                error_code: binary_field(s, 6),
                load_current: tenths(binary_field(s, 7)),
            },
        )
    }
}

fn read_binary_field(s: &[u8], k: usize) -> (r: u16)
    requires
        s@.len() == 20,
        k < 10,
    ensures
        r == binary_field(s@, k as int),
{
    u16_from_be(s[2 * k], s[2 * k + 1])
}

fn read_tenths(raw: u16) -> (r: Decimal)
    ensures
        r == tenths(raw),
{
    Decimal { negative: false, mantissa: raw as u64, scale: 1 }
}

fn read_hundredths(raw: u16) -> (r: Decimal)
    ensures
        r == hundredths(raw),
{
    Decimal { negative: false, mantissa: raw as u64, scale: 2 }
}

impl FromBytes for ExtraPowerInfoResponse {
    type Err = Error;

    open spec fn decodes_to(s: Seq<u8>, r: Result<Self, Error>) -> bool {
        r == extra_power_info_of(s)
    }

    fn from_bytes(s: &[u8]) -> (r: Result<Self, Error>) {
        if s.len() % 2 != 0 {
            return Err(Error::InvalidParameterLength);
        }
        if s.len() != 20 {
            return Err(Error::InvalidFormat);
        }
        Ok(
            ExtraPowerInfoResponse {
                ups_output_freq: read_tenths(read_binary_field(s, 0)),
                battery_voltage: read_hundredths(read_binary_field(s, 3)),
                battery_cut_voltage: read_hundredths(read_binary_field(s, 4)),
                ups_wattage: read_binary_field(s, 5) as u32,
                error_code: read_binary_field(s, 6),
                load_current: read_tenths(read_binary_field(s, 7)),
            },
        )
    }
}

/// The time for which the UPS can run on its battery.
#[derive(Debug, Clone, Copy, PartialEq, Eq, Structural)]
pub struct AutonomyResponse {
    /// s
    pub time: u64,
}

/// The autonomy that four bytes denote: a big-endian number of seconds.
pub open spec fn autonomy_of(s: Seq<u8>) -> Result<AutonomyResponse, Error> {
    if s.len() != 4 {
        Err(Error::InvalidParameterLength)
    } else {
        Ok(AutonomyResponse { time: be32(s) as u64 })
    }
}

impl FromBytes for AutonomyResponse {
    type Err = Error;

    open spec fn decodes_to(s: Seq<u8>, r: Result<Self, Error>) -> bool {
        r == autonomy_of(s)
    }

    fn from_bytes(s: &[u8]) -> (r: Result<Self, Error>) {
        match u32_from_be(s) {
            Ok(seconds) => Ok(AutonomyResponse { time: seconds as u64 }),
            Err(e) => Err(e),
        }
    }
}

/// The number of seconds in an hour.
pub const SECONDS_PER_HOUR: u64 = 3_600;

/// The remaining life of the battery.
#[derive(Debug, Clone, Copy, PartialEq, Eq, Structural)]
pub struct BatteryLifeResponse {
    /// s
    pub time: u64,
}

/// The battery life that four bytes denote: a big-endian number of hours,
/// given in seconds.
pub open spec fn battery_life_of(s: Seq<u8>) -> Result<BatteryLifeResponse, Error> {
    if s.len() != 4 {
        Err(Error::InvalidParameterLength)
    } else {
        Ok(BatteryLifeResponse { time: (be32(s) * SECONDS_PER_HOUR) as u64 })
    }
}

impl FromBytes for BatteryLifeResponse {
    type Err = Error;

    open spec fn decodes_to(s: Seq<u8>, r: Result<Self, Error>) -> bool {
        r == battery_life_of(s)
    }

    fn from_bytes(s: &[u8]) -> (r: Result<Self, Error>) {
        match u32_from_be(s) {
            Ok(hours) => Ok(BatteryLifeResponse { time: hours as u64 * SECONDS_PER_HOUR }),
            Err(e) => Err(e),
        }
    }
}

/// The same four bytes read as a battery life give 3600 times the seconds
/// that they give read as an autonomy.
pub proof fn lemma_battery_life_counts_hours(s: Seq<u8>)
    requires
        s.len() == 4,
    ensures
        autonomy_of(s) is Ok,
        battery_life_of(s) is Ok,
        battery_life_of(s)->Ok_0.time == 3_600 * autonomy_of(s)->Ok_0.time,
        autonomy_of(s)->Ok_0.time == s[0] * 0x100_0000 + s[1] * 0x1_0000 + s[2] * 0x100 + s[3],
{
}

/// The width of the manufacturer's name in the device information.
pub const MANUFACTURER_WIDTH: usize = 15;

/// The width of the model name in the device information.
pub const MODEL_WIDTH: usize = 10;

/// The width of the version in the device information.
pub const VERSION_WIDTH: usize = 10;

/// What the UPS says of itself.
#[derive(Debug, PartialEq, Eq)]
pub struct UPSInformation {
    pub manufacturer_name: String,
    pub model: String,
    pub version: String,
}

/// Whether `r` is the device information in `s`: three text fields of 15, 10
/// and 10 bytes with nothing between them. What follows them is not read.
pub open spec fn ups_information_decodes(s: Seq<u8>, r: Result<UPSInformation, Error>) -> bool {
    if s.len() < 35 {
        r == Err::<UPSInformation, Error>(Error::InvalidFormat)
    } else {
        &&& r matches Ok(m)
        &&& m.manufacturer_name@ == text_field(s.subrange(0, 15))
        &&& m.model@ == text_field(s.subrange(15, 25))
        &&& m.version@ == text_field(s.subrange(25, 35))
    }
}

impl FromBytes for UPSInformation {
    type Err = Error;

    open spec fn decodes_to(s: Seq<u8>, r: Result<Self, Error>) -> bool {
        ups_information_decodes(s, r)
    }

    fn from_bytes(s: &[u8]) -> (r: Result<Self, Error>) {
        let model_start = MANUFACTURER_WIDTH;
        let version_start = model_start + MODEL_WIDTH;
        let end = version_start + VERSION_WIDTH;
        if s.len() < end {
            return Err(Error::InvalidFormat);
        }
        Ok(
            UPSInformation {
                manufacturer_name: read_text_field(slice_subrange(s, 0, model_start)),
                model: read_text_field(slice_subrange(s, model_start, version_start)),
                version: read_text_field(slice_subrange(s, version_start, end)),
            },
        )
    }
}

/// What the UPS is rated for.
#[derive(Debug, Clone, Copy, PartialEq, Eq, Structural)]
pub struct UPSRating {
    /// V
    pub output_rating_voltage: Decimal,
    /// A
    pub output_rating_current: u32,
    /// V
    pub battery_voltage: Decimal,
    /// Hz
    pub output_rating_frequency: Decimal,
}

/// The rating that the four fields of a rating message denote, or the first
/// error that decoding them from left to right comes upon.
pub open spec fn ups_rating_of(f: Seq<Seq<u8>>) -> Result<UPSRating, Error> {
    if f.len() != 4 {
        Err(Error::InvalidFormat)
    } else if !is_decimal_literal(f[0]) {
        Err(Error::FloatParse)
    } else if !is_u32_literal(f[1]) {
        Err(Error::IntParse)
    } else if !is_decimal_literal(f[2]) || !is_decimal_literal(f[3]) {
        Err(Error::FloatParse)
    } else {
        Ok(
            UPSRating {
                output_rating_voltage: decimal_of(f[0]),
                output_rating_current: digits_value(unsigned_part(f[1])) as u32,
                battery_voltage: decimal_of(f[2]),
                output_rating_frequency: decimal_of(f[3]),
            },
        )
    }
}

impl FromBytes for UPSRating {
    type Err = Error;

    open spec fn decodes_to(s: Seq<u8>, r: Result<Self, Error>) -> bool {
        r == ups_rating_of(split_fields(s))
    }

    fn from_bytes(s: &[u8]) -> (r: Result<Self, Error>) {
        let f = fields(s);
        if f.len() != 4 {
            return Err(Error::InvalidFormat);
        }
        let output_rating_voltage = match parse_decimal(f[0]) {
            Ok(v) => v,
            Err(e) => {
                return Err(e);
            },
        };
        let output_rating_current = match parse_u32(f[1]) {
            Ok(v) => v,
            Err(e) => {
                return Err(e);
            },
        };
        let battery_voltage = match parse_decimal(f[2]) {
            Ok(v) => v,
            Err(e) => {
                return Err(e);
            },
        };
        let output_rating_frequency = match parse_decimal(f[3]) {
            Ok(v) => v,
            Err(e) => {
                return Err(e);
            },
        };
        Ok(
            UPSRating {
                output_rating_voltage,
                output_rating_current,
                battery_voltage,
                output_rating_frequency,
            },
        )
    }
}

} // verus!
