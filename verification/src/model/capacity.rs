//! Battery capacity as a function of the measured battery voltage.
//!
//! The UPS reports the battery voltage as fixed-precision decimal text. Each
//! operating mode has a table from the literals that the hardware emits to a
//! percentage. A literal is looked up as it stands: one that is in no row is
//! an error, and no neighbouring row stands in for it.

use crate::error::Error;
use crate::model::wire::bytes_equal;
use vstd::prelude::*;
use vstd::string::StringSliceAdditionalSpecFns;

verus! {

/// The operating mode of the UPS, which selects the capacity table.
#[derive(Debug, Clone, Copy, PartialEq, Eq, Structural)]
pub enum Mode {
    /// Line-interactive: the voltage is that of the whole battery.
    Offline,
    /// Double conversion: the voltage is that of one cell.
    Online,
}

/// Battery voltage in volts and capacity in percent, in offline mode.
pub const OFFLINE_TABLE: [(&'static str, u32); 35] = [
    ("13.5", 100),
    ("13.3", 90),
    ("13.2", 88),
    ("13.1", 86),
    ("13", 83),
    ("12.9", 80),
    ("12.8", 77),
    ("12.7", 74),
    ("12.6", 72),
    ("12.5", 69),
    ("12.4", 66),
    ("12.3", 63),
    ("12.2", 61),
    ("12.1", 58),
    ("12", 55),
    ("11.9", 52),
    ("11.8", 49),
    ("11.7", 47),
    ("11.6", 44),
    ("11.5", 41),
    ("11.4", 38),
    ("11.3", 36),
    ("11.2", 33),
    ("11.1", 30),
    ("11", 27),
    ("10.9", 24),
    ("10.8", 22),
    ("10.7", 19),
    ("10.6", 16),
    ("10.5", 13),
    ("10.4", 11),
    ("10.3", 8),
    ("10.2", 5),
    ("10.1", 2),
    ("10", 0),
];

/// Cell voltage in volts and capacity in percent, in online mode.
pub const ONLINE_TABLE: [(&'static str, u32); 56] = [
    ("2.22", 100),
    ("2.21", 90),
    ("2.20", 88),
    ("2.19", 87),
    ("2.18", 85),
    ("2.17", 83),
    ("2.16", 82),
    ("2.15", 80),
    ("2.14", 78),
    ("2.13", 77),
    ("2.12", 75),
    ("2.11", 73),
    ("2.10", 72),
    ("2.09", 70),
    ("2.08", 68),
    ("2.07", 65),
    ("2.06", 65),
    ("2.05", 62),
    ("2.04", 62),
    ("2.03", 58),
    ("2.02", 58),
    ("2.01", 55),
    ("2.00", 55),
    ("1.99", 53),
    ("1.98", 52),
    ("1.97", 50),
    ("1.96", 48),
    ("1.95", 47),
    ("1.94", 45),
    ("1.93", 43),
    ("1.92", 42),
    ("1.91", 40),
    ("1.90", 38),
    ("1.89", 37),
    ("1.88", 35),
    ("1.87", 33),
    ("1.86", 32),
    ("1.85", 30),
    ("1.84", 28),
    ("1.83", 27),
    ("1.82", 25),
    ("1.81", 23),
    ("1.80", 22),
    ("1.79", 20),
    ("1.78", 18),
    ("1.77", 17),
    ("1.76", 15),
    ("1.75", 13),
    ("1.74", 12),
    ("1.73", 10),
    ("1.72", 8),
    ("1.71", 7),
    ("1.70", 5),
    ("1.69", 3),
    ("1.68", 2),
    ("1.67", 0),
];

/// The capacity table of a mode.
pub open spec fn table(mode: Mode) -> Seq<(&'static str, u32)> {
    match mode {
        Mode::Offline => OFFLINE_TABLE@,
        Mode::Online => ONLINE_TABLE@,
    }
}

/// The percentage in the first row whose literal is `text`, byte for byte.
pub open spec fn lookup(rows: Seq<(&'static str, u32)>, text: Seq<u8>) -> Option<u32>
    decreases rows.len(),
{
    if rows.len() == 0 {
        None
    } else if rows[0].0.spec_bytes() == text {
        Some(rows[0].1)
    } else {
        lookup(rows.drop_first(), text)
    }
}

/// The capacity that a voltage literal stands for in a mode.
pub open spec fn capacity_of(mode: Mode, text: Seq<u8>) -> Result<u32, Error> {
    match lookup(table(mode), text) {
        Some(percentage) => Ok(percentage),
        None => Err(Error::InvalidBatteryCapacityParameter),
    }
}

/// A lookup fails exactly when no row holds the literal.
pub proof fn lemma_lookup_none(rows: Seq<(&'static str, u32)>, text: Seq<u8>)
    ensures
        lookup(rows, text) is None <==> forall|k: int|
            0 <= k < rows.len() ==> (#[trigger] rows[k]).0.spec_bytes() != text,
    decreases rows.len(),
{
    if rows.len() > 0 {
        let rest = rows.drop_first();
        lemma_lookup_none(rest, text);
        if lookup(rows, text) is None {
            assert forall|k: int| 0 <= k < rows.len() implies (#[trigger] rows[k]).0.spec_bytes()
                != text by {
                if k > 0 {
                    assert(rows[k] == rest[k - 1]);
                }
            }
        } else if rows[0].0.spec_bytes() != text {
            let k = choose|k: int|
                0 <= k < rest.len() && (#[trigger] rest[k]).0.spec_bytes() == text;
            assert(rows[k + 1] == rest[k]);
        }
    }
}

/// A lookup that succeeds gives the percentage of a row that holds the literal.
pub proof fn lemma_lookup_some(rows: Seq<(&'static str, u32)>, text: Seq<u8>)
    requires
        lookup(rows, text) is Some,
    ensures
        exists|k: int|
            0 <= k < rows.len() && (#[trigger] rows[k]).0.spec_bytes() == text && rows[k].1
                == lookup(rows, text)->0,
    decreases rows.len(),
{
    if rows[0].0.spec_bytes() == text {
        assert(rows[0].1 == lookup(rows, text)->0);
    } else {
        let rest = rows.drop_first();
        lemma_lookup_some(rest, text);
        let k = choose|k: int|
            0 <= k < rest.len() && (#[trigger] rest[k]).0.spec_bytes() == text && rest[k].1
                == lookup(rest, text)->0;
        assert(rows[k + 1] == rest[k]);
    }
}

/// A voltage literal that no row of the table of a mode holds is rejected,
/// whatever rows are near it; one that a row holds is not.
pub proof fn lemma_unlisted_voltage_is_rejected(mode: Mode, text: Seq<u8>)
    ensures
        capacity_of(mode, text) == Err::<u32, Error>(Error::InvalidBatteryCapacityParameter)
            <==> forall|k: int|
            0 <= k < table(mode).len() ==> (#[trigger] table(mode)[k]).0.spec_bytes() != text,
{
    lemma_lookup_none(table(mode), text);
}

/// A capacity that is given is the percentage of a row that holds the literal.
pub proof fn lemma_capacity_is_listed(mode: Mode, text: Seq<u8>, percentage: u32)
    requires
        capacity_of(mode, text) == Ok::<u32, Error>(percentage),
    ensures
        exists|k: int|
            0 <= k < table(mode).len() && (#[trigger] table(mode)[k]).0.spec_bytes() == text
                && table(mode)[k].1 == percentage,
{
    lemma_lookup_some(table(mode), text);
}

fn row(mode: Mode, i: usize) -> (r: (&'static str, u32))
    requires
        i < table(mode).len(),
    ensures
        r == table(mode)[i as int],
{
    match mode {
        Mode::Offline => OFFLINE_TABLE[i],
        Mode::Online => ONLINE_TABLE[i],
    }
}

fn row_count(mode: Mode) -> (r: usize)
    ensures
        r == table(mode).len(),
{
    match mode {
        Mode::Offline => 35,
        Mode::Online => 56,
    }
}

/// Finds the row of a voltage literal: the literal as the table spells it,
/// and its percentage.
pub fn find_row(mode: Mode, voltage: &[u8]) -> (r: Option<(&'static str, u32)>)
    ensures
        r is Some <==> lookup(table(mode), voltage@) is Some,
        r matches Some(found) ==> found.0.spec_bytes() == voltage@ && Some(found.1) == lookup(
            table(mode),
            voltage@,
        ),
{
    let n = row_count(mode);
    let mut i: usize = 0;
    assert(table(mode).subrange(0, n as int) =~= table(mode));
    while i < n
        invariant
            i <= n,
            n == table(mode).len(),
            lookup(table(mode), voltage@) == lookup(
                table(mode).subrange(i as int, n as int),
                voltage@,
            ),
        decreases n - i,
    {
        let found = row(mode, i);
        assert(table(mode).subrange(i as int, n as int).drop_first() =~= table(mode).subrange(
            i + 1,
            n as int,
        ));
        if bytes_equal(found.0.as_bytes(), voltage) {
            return Some(found);
        }
        i += 1;
    }
    None
}

/// Looks a voltage literal up in the capacity table of a mode.
pub fn battery_capacity(mode: Mode, voltage: &[u8]) -> (r: Result<u32, Error>)
    ensures
        r == capacity_of(mode, voltage@),
{
    match find_row(mode, voltage) {
        Some(found) => Ok(found.1),
        None => Err(Error::InvalidBatteryCapacityParameter),
    }
}

} // verus!
