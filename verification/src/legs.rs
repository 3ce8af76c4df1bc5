use vstd::prelude::*;

use crate::decode::{
    cells_fault_from, cells_of, decode_cells, int_value, parse_next, skip, split_fields,
    split_fields_spec, valid_i64_field, FieldCursor,
};
use crate::errors::AcqError;
use crate::extract::{extract_value, extraction};
use crate::sanitize::sanitize;
use crate::stats::{
    sum_of, temp_stats, temp_stats_for, voltage_stats, stats_for, TempStats, VoltageStats,
};

verus! {

/// The key of the main-panel assignment: `Parametersatz`.
pub open spec fn main_key() -> Seq<u8> {
    seq![80u8, 97u8, 114u8, 97u8, 109u8, 101u8, 116u8, 101u8, 114u8, 115u8, 97u8, 116u8, 122u8]
}

/// The key of the cell-array assignments: `PSet`.
pub open spec fn pset_key() -> Seq<u8> {
    seq![80u8, 83u8, 101u8, 116u8]
}

/// The key of the cell-topology assignment: `PSet0`.
pub open spec fn pset0_key() -> Seq<u8> {
    seq![80u8, 83u8, 101u8, 116u8, 48u8]
}

/// The bytes of `PSet` as a vector.
fn pset_key_vec() -> (k: Vec<u8>)
    ensures
        k@ == pset_key(),
{
    let mut k: Vec<u8> = Vec::new();
    k.push(80);
    k.push(83);
    k.push(101);
    k.push(116);
    proof {
        assert(k@ =~= pset_key());
    }
    k
}

/// The bytes of `PSet0` as a vector.
fn pset0_key_vec() -> (k: Vec<u8>)
    ensures
        k@ == pset0_key(),
{
    let mut k: Vec<u8> = Vec::new();
    k.push(80);
    k.push(83);
    k.push(101);
    k.push(116);
    k.push(48);
    proof {
        assert(k@ =~= pset0_key());
    }
    k
}

/// The bytes of `Parametersatz` as a vector.
fn main_key_vec() -> (k: Vec<u8>)
    ensures
        k@ == main_key(),
{
    let mut k: Vec<u8> = Vec::new();
    k.push(80);
    k.push(97);
    k.push(114);
    k.push(97);
    k.push(109);
    k.push(101);
    k.push(116);
    k.push(101);
    k.push(114);
    k.push(115);
    k.push(97);
    k.push(116);
    k.push(122);
    proof {
        assert(k@ =~= main_key());
    }
    k
}

/// Pack-level readings, kept in the raw wire units: voltage in millivolts,
/// current in milliamperes, state of charge in tenths of a percent, and the
/// temperatures in tenths of a degree Celsius.  The display layer divides by
/// 1000 (volts) or 10 (percent, degrees).
#[derive(Clone, Copy, Debug, PartialEq, Eq)]
pub struct Main {
    /// Pack voltage in millivolts.
    pub voltage: i64,
    /// Pack current in milliamperes.
    pub current: i64,
    /// State of charge in tenths of a percent.
    pub state_of_charge: i64,
    /// Average cell temperature in tenths of a degree Celsius.
    pub temp_avg: i64,
    /// Smallest cell temperature in tenths of a degree Celsius.
    pub temp_min: i64,
    /// Largest cell temperature in tenths of a degree Celsius.
    pub temp_max: i64,
    /// Master-controller temperature in tenths of a degree Celsius.
    pub temp_master: i64,
}

/// The main-panel plan reads seven fields: one leading skip, then two skips
/// between readings, so reading `n` sits at payload position `1 + 3n`.
pub open spec fn main_position(n: int) -> int {
    1 + 3 * n
}

/// The first fault the main-panel plan meets from reading `n` on: a payload
/// with too few fields is missing the field at the plan position, and a field
/// that is no integer literal cannot be parsed.
pub open spec fn main_fault_from(fs: Seq<Seq<u8>>, n: int) -> Option<AcqError>
    decreases 7 - n,
{
    if n < 0 || n >= 7 {
        None
    } else if fs.len() <= main_position(n) {
        Some(AcqError::FieldMissing(main_position(n) as usize))
    } else if !valid_i64_field(fs[main_position(n)]) {
        Some(AcqError::FieldUnparseable(main_position(n) as usize))
    } else {
        main_fault_from(fs, n + 1)
    }
}

/// Plan readings whose fields are present and parse do not change the
/// plan's first fault.
proof fn lemma_main_fault_skip_valid(fs: Seq<Seq<u8>>, i: int, n: int)
    requires
        0 <= i <= n <= 7,
        forall|k: int| i <= k < n ==> #[trigger] main_position(k) < fs.len() && valid_i64_field(
            fs[main_position(k)],
        ),
    ensures
        main_fault_from(fs, i) == main_fault_from(fs, n),
    decreases n - i,
{
    if i < n {
        lemma_main_fault_skip_valid(fs, i + 1, n);
    }
}

/// A payload with fewer fields than the decode plan requires is refused
/// with `FieldMissing` naming the first plan position past the payload's
/// end — provided the plan fields before that position do parse: the plan
/// is positional, so an earlier unparseable field would be its first fault
/// instead.
pub proof fn lemma_main_plan_short_payload(fs: Seq<Seq<u8>>, n: int)
    requires
        0 <= n < 7,
        fs.len() <= main_position(n),
        forall|k: int| 0 <= k < n ==> #[trigger] main_position(k) < fs.len() && valid_i64_field(
            fs[main_position(k)],
        ),
    ensures
        main_fault_from(fs, 0) == Some(AcqError::FieldMissing(main_position(n) as usize)),
{
    lemma_main_fault_skip_valid(fs, 0, n);
}

/// The first fault of the whole document on the main-panel leg, if any.
pub open spec fn main_fault(doc: Seq<u8>) -> Option<AcqError> {
    match extraction(doc, main_key()) {
        Some(payload) => main_fault_from(split_fields_spec(payload), 0),
        None => Some(AcqError::MalformedDocument),
    }
}

/// What a fault-free main-panel document decodes to.
pub open spec fn main_reading_ok(doc: Seq<u8>, m: Main) -> bool {
    let fs = split_fields_spec(extraction(doc, main_key()).unwrap());
    &&& m.voltage as int == int_value(fs[main_position(0)])
    &&& m.current as int == int_value(fs[main_position(1)])
    &&& m.state_of_charge as int == int_value(fs[main_position(2)])
    &&& m.temp_avg as int == int_value(fs[main_position(3)])
    &&& m.temp_min as int == int_value(fs[main_position(4)])
    &&& m.temp_max as int == int_value(fs[main_position(5)])
    &&& m.temp_master as int == int_value(fs[main_position(6)])
}

/// Decodes the main-panel document: extracts the `Parametersatz` payload and
/// reads the seven plan fields.  Fails with `MalformedDocument` when the
/// assignment is absent, and with the plan's first `FieldMissing` or
/// `FieldUnparseable` fault otherwise.
pub fn main_data(doc: &Vec<u8>) -> (r: Result<Main, AcqError>)
    ensures
        match r {
            Ok(m) => main_fault(doc@) is None && main_reading_ok(doc@, m),
            Err(e) => main_fault(doc@) == Some(e),
        },
{
    let key = main_key_vec();
    let payload = match extract_value(doc, &key) {
        Ok(p) => p,
        Err(e) => {
            return Err(e);
        },
    };
    let fields = split_fields(&payload);
    let ghost fs = fields.deep_view();
    let mut c = FieldCursor::new(fields);
    let mut vals: Vec<i64> = Vec::new();
    let mut n: usize = 0;
    while n < 7
        invariant
            n <= 7,
            c.fields.deep_view() == fs,
            c.pos as int == if n == 0 {
                0
            } else {
                main_position(n as int) - 2
            },
            c.index as int == if c.pos as int <= fs.len() {
                c.pos as int
            } else {
                fs.len() as int
            },
            vals@.len() == n,
            forall|k: int| 0 <= k < n ==> vals@[k] as int == int_value(
                #[trigger] fs[main_position(k)],
            ),
            forall|k: int| 0 <= k < n ==> main_position(k) < fs.len() && valid_i64_field(
                #[trigger] fs[main_position(k)],
            ),
            main_fault(doc@) == main_fault_from(fs, n as int),
        decreases 7 - n,
    {
        if n == 0 {
            skip(&mut c, 1);
        } else {
            skip(&mut c, 2);
        }
        assert(c.pos as int == main_position(n as int));
        match parse_next(&mut c) {
            Ok(v) => {
                vals.push(v);
            },
            Err(e) => {
                proof {
                    assert(main_fault_from(fs, n as int) == Some(e));
                }
                return Err(e);
            },
        }
        n = n + 1;
        proof {
            assert(main_fault_from(fs, n - 1) == main_fault_from(fs, n as int));
        }
    }
    proof {
        assert(main_fault(doc@) is None);
    }
    let m = Main {
        voltage: vals[0],
        current: vals[1],
        state_of_charge: vals[2],
        temp_avg: vals[3],
        temp_min: vals[4],
        temp_max: vals[5],
        temp_master: vals[6],
    };
    Ok(m)
}

/// The cell-voltage report: topology counts, the per-cell millivolt array in
/// physical order, and the statistics of the first 72 cells (`right`), the
/// remaining cells (`left`), and both together (`overall`).
#[derive(Clone, Debug, PartialEq, Eq)]
pub struct Ucell {
    /// Number of slave controllers.
    pub num_slaves: usize,
    /// Number of cells.
    pub num_cells: usize,
    /// Cells per slave controller.
    pub num_cells_per_slave: usize,
    /// Number of temperature sensors.
    pub num_temp_sensors: usize,
    /// Number of safety resistors.
    pub num_safe_resistors: usize,
    /// Statistics over the whole array.
    pub overall: VoltageStats,
    /// Statistics over the cells after the first 72.
    pub left: VoltageStats,
    /// Statistics over the first 72 cells.
    pub right: VoltageStats,
    /// Per-cell voltage in millivolts, insertion order = physical cell index.
    pub cell_voltage: Vec<u16>,
}

/// A topology field must be an integer literal that fits a `usize`.
pub open spec fn valid_topology_field(s: Seq<u8>) -> bool {
    &&& valid_i64_field(s)
    &&& 0 <= int_value(s) <= usize::MAX
}

/// The first fault the five-field topology plan meets from position `n` on.
pub open spec fn topology_fault_from(fs: Seq<Seq<u8>>, n: int) -> Option<AcqError>
    decreases 5 - n,
{
    if n < 0 || n >= 5 {
        None
    } else if fs.len() <= n {
        Some(AcqError::FieldMissing(n as usize))
    } else if !valid_topology_field(fs[n]) {
        Some(AcqError::FieldUnparseable(n as usize))
    } else {
        topology_fault_from(fs, n + 1)
    }
}

/// The raw millivolt samples of the cell-voltage document: every `PSet`
/// payload field after the first two.
pub open spec fn ucell_raw_cells(doc: Seq<u8>) -> Seq<u16>
    recommends
        extraction(doc, pset_key()) is Some,
{
    cells_of(split_fields_spec(extraction(doc, pset_key()).unwrap()), 2)
}

/// Truncated mean of a non-empty series.
pub open spec fn raw_mean(s: Seq<u16>) -> int
    recommends
        s.len() > 0,
{
    sum_of(s) / s.len() as int
}

/// The cell array as reported: with sanitization enabled, every sample
/// outside the plausibility fence [3000, 4200] mV is replaced by the
/// truncated mean of the raw array.
pub open spec fn ucell_cells(doc: Seq<u8>, safe: bool) -> Seq<u16>
    recommends
        extraction(doc, pset_key()) is Some,
        ucell_raw_cells(doc).len() > 0,
{
    let raw = ucell_raw_cells(doc);
    if safe {
        crate::sanitize::sanitized(raw, 3000, 4200, raw_mean(raw) as u16)
    } else {
        raw
    }
}

/// The first fault of the whole document on the cell-voltage leg, if any:
/// a missing `PSet` assignment, an array field that is no unsigned 16-bit
/// integer, an array too short to fill both partitions, a missing `PSet0`
/// assignment, then the topology plan's first fault.
pub open spec fn ucell_fault(doc: Seq<u8>) -> Option<AcqError> {
    match extraction(doc, pset_key()) {
        None => Some(AcqError::MalformedDocument),
        Some(payload) => {
            let cf = cells_fault_from(split_fields_spec(payload), 2);
            if cf is Some {
                cf
            } else if ucell_raw_cells(doc).len() < 73 {
                Some(AcqError::EmptySeries)
            } else if extraction(doc, pset0_key()) is None {
                Some(AcqError::MalformedDocument)
            } else {
                topology_fault_from(split_fields_spec(extraction(doc, pset0_key()).unwrap()), 0)
            }
        },
    }
}

/// What a fault-free cell-voltage document decodes to: the (optionally
/// sanitized) array; per-partition statistics over that array; an overall
/// group whose average is the raw truncated mean and whose extremes combine
/// the partitions; and the five topology counts.
pub open spec fn ucell_ok(doc: Seq<u8>, safe: bool, u: Ucell) -> bool {
    let raw = ucell_raw_cells(doc);
    let cells = ucell_cells(doc, safe);
    let fs0 = split_fields_spec(extraction(doc, pset0_key()).unwrap());
    &&& u.cell_voltage@ == cells
    &&& stats_for(cells.take(72), u.right)
    &&& stats_for(cells.skip(72), u.left)
    &&& u.overall.avg_voltage as int == raw_mean(raw)
    &&& u.overall.min_voltage == if u.right.min_voltage <= u.left.min_voltage {
        u.right.min_voltage
    } else {
        u.left.min_voltage
    }
    &&& u.overall.max_voltage == if u.right.max_voltage >= u.left.max_voltage {
        u.right.max_voltage
    } else {
        u.left.max_voltage
    }
    &&& u.overall.delta_voltage == u.overall.max_voltage - u.overall.min_voltage
    &&& u.num_slaves as int == int_value(fs0[0])
    &&& u.num_cells as int == int_value(fs0[1])
    &&& u.num_cells_per_slave as int == int_value(fs0[2])
    &&& u.num_temp_sensors as int == int_value(fs0[3])
    &&& u.num_safe_resistors as int == int_value(fs0[4])
}

/// Reads the five topology counts from the start of the `PSet0` payload.
fn read_topology(fields: Vec<Vec<u8>>) -> (r: Result<Vec<usize>, AcqError>)
    ensures
        match r {
            Ok(vals) => {
                &&& topology_fault_from(fields.deep_view(), 0) is None
                &&& vals@.len() == 5
                &&& forall|k: int| 0 <= k < 5 ==> vals@[k] as int == int_value(
                    #[trigger] fields.deep_view()[k],
                )
            },
            Err(e) => topology_fault_from(fields.deep_view(), 0) == Some(e),
        },
{
    let ghost fs = fields.deep_view();
    let mut c = FieldCursor::new(fields);
    let mut vals: Vec<usize> = Vec::new();
    let mut n: usize = 0;
    while n < 5
        invariant
            n <= 5,
            fs == fields.deep_view(),
            c.fields.deep_view() == fs,
            c.pos == n,
            c.index as int == if n <= fs.len() {
                n as int
            } else {
                fs.len() as int
            },
            vals@.len() == n,
            forall|k: int| 0 <= k < n ==> vals@[k] as int == int_value(#[trigger] fs[k]),
            forall|k: int| 0 <= k < n ==> k < fs.len() && valid_topology_field(#[trigger] fs[k]),
            topology_fault_from(fs, 0) == topology_fault_from(fs, n as int),
        decreases 5 - n,
    {
        let v = match parse_next(&mut c) {
            Ok(v) => v,
            Err(e) => {
                proof {
                    assert(topology_fault_from(fs, n as int) == Some(e));
                }
                return Err(e);
            },
        };
        if v < 0 {
            proof {
                assert(!valid_topology_field(fs[n as int]));
                assert(topology_fault_from(fs, n as int) == Some(
                    AcqError::FieldUnparseable(n as usize),
                ));
            }
            return Err(AcqError::FieldUnparseable(n));
        }
        if v as u64 > usize::MAX as u64 {
            proof {
                assert(!valid_topology_field(fs[n as int]));
                assert(topology_fault_from(fs, n as int) == Some(
                    AcqError::FieldUnparseable(n as usize),
                ));
            }
            return Err(AcqError::FieldUnparseable(n));
        }
        vals.push(v as usize);
        n = n + 1;
        proof {
            assert(topology_fault_from(fs, n - 1) == topology_fault_from(fs, n as int));
        }
    }
    Ok(vals)
}

/// Decodes the cell-voltage document: extracts the `PSet` array, optionally
/// sanitizes it against the [3000, 4200] mV fence using the raw truncated
/// mean, aggregates the fixed 72-cell partitions, and reads the `PSet0`
/// topology counts.  An array field that does not parse as an unsigned
/// 16-bit integer is refused with `FieldUnparseable` naming its payload
/// position; an array of 72 or fewer cells leaves the second partition
/// empty and is refused with `EmptySeries`.
pub fn ucell(doc: &Vec<u8>, safe: bool) -> (r: Result<Ucell, AcqError>)
    ensures
        match r {
            Ok(u) => ucell_fault(doc@) is None && ucell_ok(doc@, safe, u),
            Err(e) => ucell_fault(doc@) == Some(e),
        },
{
    let pset = pset_key_vec();
    let payload = match extract_value(doc, &pset) {
        Ok(p) => p,
        Err(e) => {
            return Err(e);
        },
    };
    let fields = split_fields(&payload);
    let mut voltage = match decode_cells(&fields, 2) {
        Ok(cells) => cells,
        Err(e) => {
            return Err(e);
        },
    };
    assert(voltage@ == ucell_raw_cells(doc@));
    if voltage.len() < 73 {
        return Err(AcqError::EmptySeries);
    }
    let len = voltage.len();
    let avg = match voltage_stats(&voltage, 0, len) {
        Ok(st) => {
            proof {
                assert(voltage@.subrange(0, len as int) =~= voltage@);
            }
            st.avg_voltage
        },
        Err(_) => {
            assert(false);
            return Err(AcqError::EmptySeries);
        },
    };
    if safe {
        sanitize(&mut voltage, 3000, 4200, avg);
    }
    assert(voltage@ == ucell_cells(doc@, safe));
    let right = match voltage_stats(&voltage, 0, 72) {
        Ok(st) => st,
        Err(_) => {
            assert(false);
            return Err(AcqError::EmptySeries);
        },
    };
    let left = match voltage_stats(&voltage, 72, len) {
        Ok(st) => st,
        Err(_) => {
            assert(false);
            return Err(AcqError::EmptySeries);
        },
    };
    proof {
        assert(voltage@.subrange(0, 72) =~= ucell_cells(doc@, safe).take(72));
        assert(voltage@.subrange(72, len as int) =~= ucell_cells(doc@, safe).skip(72));
    }
    let max_voltage = if right.max_voltage >= left.max_voltage {
        right.max_voltage
    } else {
        left.max_voltage
    };
    let min_voltage = if right.min_voltage <= left.min_voltage {
        right.min_voltage
    } else {
        left.min_voltage
    };
    let overall = VoltageStats {
        avg_voltage: avg,
        min_voltage,
        max_voltage,
        delta_voltage: max_voltage - min_voltage,
    };
    let pset0 = pset0_key_vec();
    let tpayload = match extract_value(doc, &pset0) {
        Ok(p) => p,
        Err(e) => {
            return Err(e);
        },
    };
    let tfields = split_fields(&tpayload);
    let vals = match read_topology(tfields) {
        Ok(vals) => vals,
        Err(e) => {
            return Err(e);
        },
    };
    Ok(
        Ucell {
            num_slaves: vals[0],
            num_cells: vals[1],
            num_cells_per_slave: vals[2],
            num_temp_sensors: vals[3],
            num_safe_resistors: vals[4],
            overall,
            left,
            right,
            cell_voltage: voltage,
        },
    )
}

/// The cell-temperature report: the per-sensor array in tenths of a degree
/// Celsius, and the statistics of the first 8 sensors (`right`), the
/// remaining sensors (`left`), and both together (`overall`).
#[derive(Clone, Debug, PartialEq, Eq)]
pub struct Tcell {
    /// Statistics over the whole array.
    pub overall: TempStats,
    /// Statistics over the sensors after the first 8.
    pub left: TempStats,
    /// Statistics over the first 8 sensors.
    pub right: TempStats,
    /// Per-sensor temperature in tenths of a degree Celsius.
    pub temp: Vec<u16>,
}

/// The raw temperature samples of the cell-temperature document: every
/// `PSet` payload field after the first.
pub open spec fn tcell_raw_temps(doc: Seq<u8>) -> Seq<u16>
    recommends
        extraction(doc, pset_key()) is Some,
{
    cells_of(split_fields_spec(extraction(doc, pset_key()).unwrap()), 1)
}

/// The temperature array as reported: with sanitization enabled, every
/// sample outside the plausibility fence [15.0, 45.0] °C (150 to 450 tenths)
/// is replaced by the truncated mean of the raw array.
pub open spec fn tcell_temps(doc: Seq<u8>, safe: bool) -> Seq<u16>
    recommends
        extraction(doc, pset_key()) is Some,
        tcell_raw_temps(doc).len() > 0,
{
    let raw = tcell_raw_temps(doc);
    if safe {
        crate::sanitize::sanitized(raw, 150, 450, raw_mean(raw) as u16)
    } else {
        raw
    }
}

/// The first fault of the whole document on the cell-temperature leg, if
/// any: a missing `PSet` assignment, an array field that is no unsigned
/// 16-bit integer, or an array too short to fill both partitions.
pub open spec fn tcell_fault(doc: Seq<u8>) -> Option<AcqError> {
    match extraction(doc, pset_key()) {
        None => Some(AcqError::MalformedDocument),
        Some(payload) => {
            let cf = cells_fault_from(split_fields_spec(payload), 1);
            if cf is Some {
                cf
            } else if tcell_raw_temps(doc).len() < 9 {
                Some(AcqError::EmptySeries)
            } else {
                None
            }
        },
    }
}

/// What a fault-free cell-temperature document decodes to: the (optionally
/// sanitized) array; per-partition statistics over that array; and an
/// overall group whose average is the raw truncated mean — the sanitizer's
/// own replacement value — and whose extremes combine the partitions.
pub open spec fn tcell_ok(doc: Seq<u8>, safe: bool, t: Tcell) -> bool {
    let raw = tcell_raw_temps(doc);
    let temps = tcell_temps(doc, safe);
    &&& t.temp@ == temps
    &&& temp_stats_for(temps.take(8), t.right)
    &&& temp_stats_for(temps.skip(8), t.left)
    &&& t.overall.avg_temp as int == raw_mean(raw)
    &&& t.overall.min_temp == if t.right.min_temp <= t.left.min_temp {
        t.right.min_temp
    } else {
        t.left.min_temp
    }
    &&& t.overall.max_temp == if t.right.max_temp >= t.left.max_temp {
        t.right.max_temp
    } else {
        t.left.max_temp
    }
    &&& t.overall.delta_temp == t.overall.max_temp - t.overall.min_temp
}

/// Decodes the cell-temperature document: extracts the `PSet` array,
/// optionally sanitizes it against the [150, 450] fence using the raw
/// truncated mean, and aggregates the fixed 8-sensor partitions.  An array
/// field that does not parse as an unsigned 16-bit integer is refused with
/// `FieldUnparseable` naming its payload position; an array of 8 or fewer
/// sensors leaves the second partition empty and is refused with
/// `EmptySeries`.
pub fn tcell(doc: &Vec<u8>, safe: bool) -> (r: Result<Tcell, AcqError>)
    ensures
        match r {
            Ok(t) => tcell_fault(doc@) is None && tcell_ok(doc@, safe, t),
            Err(e) => tcell_fault(doc@) == Some(e),
        },
{
    let pset = pset_key_vec();
    let payload = match extract_value(doc, &pset) {
        Ok(p) => p,
        Err(e) => {
            return Err(e);
        },
    };
    let fields = split_fields(&payload);
    let mut temp = match decode_cells(&fields, 1) {
        Ok(cells) => cells,
        Err(e) => {
            return Err(e);
        },
    };
    assert(temp@ == tcell_raw_temps(doc@));
    if temp.len() < 9 {
        return Err(AcqError::EmptySeries);
    }
    let len = temp.len();
    let avg = match voltage_stats(&temp, 0, len) {
        Ok(st) => {
            proof {
                assert(temp@.subrange(0, len as int) =~= temp@);
            }
            st.avg_voltage
        },
        Err(_) => {
            assert(false);
            return Err(AcqError::EmptySeries);
        },
    };
    if safe {
        sanitize(&mut temp, 150, 450, avg);
    }
    assert(temp@ == tcell_temps(doc@, safe));
    let right = match temp_stats(&temp, 0, 8) {
        Ok(st) => st,
        Err(_) => {
            assert(false);
            return Err(AcqError::EmptySeries);
        },
    };
    let left = match temp_stats(&temp, 8, len) {
        Ok(st) => st,
        Err(_) => {
            assert(false);
            return Err(AcqError::EmptySeries);
        },
    };
    proof {
        assert(temp@.subrange(0, 8) =~= tcell_temps(doc@, safe).take(8));
        assert(temp@.subrange(8, len as int) =~= tcell_temps(doc@, safe).skip(8));
    }
    let max_temp = if right.max_temp >= left.max_temp {
        right.max_temp
    } else {
        left.max_temp
    };
    let min_temp = if right.min_temp <= left.min_temp {
        right.min_temp
    } else {
        left.min_temp
    };
    let overall = TempStats {
        avg_temp: avg,
        min_temp,
        max_temp,
        delta_temp: max_temp - min_temp,
    };
    Ok(Tcell { overall, left, right, temp })
}

} // verus!
