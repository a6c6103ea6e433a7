//! The `MeterReading` snapshot and how it is built from a decoded datagram.
use vstd::prelude::*;

use crate::datagram::{Datagram, Message, RawEntry, Time};
use crate::obis::{field_of, lookup, Field, ObisCode};
use crate::unit::{unit_of_code, Unit};

verus! {

/// A decimal number `raw * 10^scaler`, kept exactly.
#[derive(Clone, Copy, Debug, PartialEq, Eq, Structural)]
pub struct ScaledValue {
    pub raw: i128,
    pub scaler: i8,
}

/// `10^n`.
pub open spec fn pow10(n: nat) -> int
    decreases n,
{
    if n == 0 {
        1
    } else {
        10 * pow10((n - 1) as nat)
    }
}

impl ScaledValue {
    /// The numerator of the value over `denominator()`.
    pub open spec fn numerator(self) -> int {
        if self.scaler >= 0 {
            self.raw * pow10(self.scaler as nat)
        } else {
            self.raw as int
        }
    }

    /// The denominator of the value: a positive power of ten.
    pub open spec fn denominator(self) -> int {
        if self.scaler >= 0 {
            1
        } else {
            pow10((-self.scaler) as nat)
        }
    }

    /// Whether the value is `v * 10^s`, read as the fraction `numerator / denominator`.
    pub open spec fn equals_scaled(self, v: int, s: int) -> bool {
        if s >= 0 {
            self.numerator() == v * pow10(s as nat) && self.denominator() == 1
        } else {
            self.numerator() == v && self.denominator() == pow10((-s) as nat)
        }
    }
}

/// A snapshot of the meter's measurements. A unit is only set beside a
/// value, but a value can stand without a unit (see `wf`).
#[derive(Clone, Copy, Debug, PartialEq, Eq, Structural)]
pub struct MeterReading {
    pub meter_time: Option<u32>,
    pub total_energy_inbound: Option<ScaledValue>,
    pub total_energy_inbound_unit: Option<Unit>,
    pub total_energy_outbound: Option<ScaledValue>,
    pub total_energy_outbound_unit: Option<Unit>,
    pub current_net_power: Option<ScaledValue>,
    pub current_net_power_unit: Option<Unit>,
    pub line_one: Option<ScaledValue>,
    pub line_one_unit: Option<Unit>,
    pub line_two: Option<ScaledValue>,
    pub line_two_unit: Option<Unit>,
    pub line_three: Option<ScaledValue>,
    pub line_three_unit: Option<Unit>,
}

/// Why a datagram gives no reading.
#[derive(Clone, Copy, Debug, PartialEq, Eq, Structural)]
pub enum StructureError {
    /// the datagram does not hold three messages; the count it holds
    MessageCount(usize),
    /// the second message is not a value-list response
    UnexpectedMessage,
}

/// The reading with every field absent.
pub open spec fn empty_reading() -> MeterReading {
    MeterReading {
        meter_time: None,
        total_energy_inbound: None,
        total_energy_inbound_unit: None,
        total_energy_outbound: None,
        total_energy_outbound_unit: None,
        current_net_power: None,
        current_net_power_unit: None,
        line_one: None,
        line_one_unit: None,
        line_two: None,
        line_two_unit: None,
        line_three: None,
        line_three_unit: None,
    }
}

impl MeterReading {
    /// The value recorded for a field.
    pub open spec fn value_of(self, f: Field) -> Option<ScaledValue> {
        match f {
            Field::TotalInbound => self.total_energy_inbound,
            Field::TotalOutbound => self.total_energy_outbound,
            Field::NetPower => self.current_net_power,
            Field::LineOne => self.line_one,
            Field::LineTwo => self.line_two,
            Field::LineThree => self.line_three,
        }
    }

    /// The unit recorded for a field.
    pub open spec fn unit_of(self, f: Field) -> Option<Unit> {
        match f {
            Field::TotalInbound => self.total_energy_inbound_unit,
            Field::TotalOutbound => self.total_energy_outbound_unit,
            Field::NetPower => self.current_net_power_unit,
            Field::LineOne => self.line_one_unit,
            Field::LineTwo => self.line_two_unit,
            Field::LineThree => self.line_three_unit,
        }
    }

    /// No field has a unit without a value. The converse does not hold: an
    /// entry's value is stored even when its unit code is absent or not in
    /// the unit table, and the unit is then left absent, so a value can
    /// stand without a unit.
    pub open spec fn wf(self) -> bool {
        forall|f: Field| #[trigger] self.unit_of(f) is Some ==> self.value_of(f) is Some
    }

    /// The reading with the value and unit of `f` replaced.
    pub open spec fn with_field(self, f: Field, v: ScaledValue, u: Option<Unit>) -> MeterReading {
        match f {
            Field::TotalInbound => MeterReading {
                total_energy_inbound: Some(v),
                total_energy_inbound_unit: u,
                ..self
            },
            Field::TotalOutbound => MeterReading {
                total_energy_outbound: Some(v),
                total_energy_outbound_unit: u,
                ..self
            },
            Field::NetPower => MeterReading {
                current_net_power: Some(v),
                current_net_power_unit: u,
                ..self
            },
            Field::LineOne => MeterReading { line_one: Some(v), line_one_unit: u, ..self },
            Field::LineTwo => MeterReading { line_two: Some(v), line_two_unit: u, ..self },
            Field::LineThree => MeterReading { line_three: Some(v), line_three_unit: u, ..self },
        }
    }
}

/// The identifier of an entry, when its name has six bytes.
pub open spec fn entry_code(e: RawEntry) -> Option<ObisCode> {
    if e.obj_name@.len() == 6 {
        Some(
            ObisCode {
                a: e.obj_name@[0],
                b: e.obj_name@[1],
                c: e.obj_name@[2],
                d: e.obj_name@[3],
                e: e.obj_name@[4],
                f: e.obj_name@[5],
            },
        )
    } else {
        None
    }
}

/// The field an entry is stored into: its identifier is well formed and in
/// the table, and its value is an integer. `None` when the entry is skipped.
pub open spec fn entry_target(e: RawEntry) -> Option<Field> {
    match entry_code(e) {
        Some(code) => match field_of(code) {
            Some(f) => if e.value.spec_integer() is Some {
                Some(f)
            } else {
                None
            },
            None => None,
        },
        None => None,
    }
}

/// The value an entry contributes: its integer with its scaler (0 when absent).
pub open spec fn entry_scaled(e: RawEntry) -> ScaledValue {
    ScaledValue {
        raw: e.value.spec_integer().unwrap() as i128,
        scaler: match e.scaler {
            Some(s) => s,
            None => 0,
        },
    }
}

/// The unit an entry contributes.
pub open spec fn entry_unit(e: RawEntry) -> Option<Unit> {
    match e.unit {
        Some(code) => unit_of_code(code),
        None => None,
    }
}

/// The meter time an energy-total entry sets.
pub open spec fn entry_time(e: RawEntry) -> Option<u32> {
    match e.val_time {
        Some(Time::SecIndex(s)) => Some(s),
        None => None,
    }
}

/// The reading after one entry: a skipped entry leaves it as it is; an
/// energy total also replaces the meter time.
pub open spec fn apply_entry(r: MeterReading, e: RawEntry) -> MeterReading {
    match entry_target(e) {
        Some(f) => {
            let r2 = r.with_field(f, entry_scaled(e), entry_unit(e));
            if f.spec_is_energy_total() {
                MeterReading { meter_time: entry_time(e), ..r2 }
            } else {
                r2
            }
        },
        None => r,
    }
}

/// The reading after applying the entries in order, starting from `r`.
pub open spec fn apply_entries(r: MeterReading, entries: Seq<RawEntry>) -> MeterReading
    decreases entries.len(),
{
    if entries.len() == 0 {
        r
    } else {
        apply_entries(apply_entry(r, entries[0]), entries.drop_first())
    }
}

/// What a datagram builds: an error unless it holds three messages of which
/// the second is a value-list response; otherwise the reading its entries give.
pub open spec fn build(d: Datagram) -> Result<MeterReading, StructureError> {
    if d.messages@.len() != 3 {
        Err(StructureError::MessageCount(d.messages@.len() as usize))
    } else {
        match d.messages@[1] {
            Message::GetListResponse(entries) => Ok(apply_entries(empty_reading(), entries@)),
            _ => Err(StructureError::UnexpectedMessage),
        }
    }
}

/// Applying `a + b` is applying `a`, then `b`.
pub proof fn lemma_apply_concat(r: MeterReading, a: Seq<RawEntry>, b: Seq<RawEntry>)
    ensures
        apply_entries(r, a + b) == apply_entries(apply_entries(r, a), b),
    decreases a.len(),
{
    if a.len() == 0 {
        assert(a + b =~= b);
    } else {
        assert((a + b).drop_first() =~= a.drop_first() + b);
        lemma_apply_concat(apply_entry(r, a[0]), a.drop_first(), b);
    }
}

/// Applying an entry keeps a reading well formed.
pub proof fn lemma_apply_wf(r: MeterReading, entries: Seq<RawEntry>)
    requires
        r.wf(),
    ensures
        apply_entries(r, entries).wf(),
    decreases entries.len(),
{
    if entries.len() > 0 {
        let r1 = apply_entry(r, entries[0]);
        assert(r1.wf()) by {
            assert forall|f: Field| #[trigger] r1.unit_of(f) is Some implies r1.value_of(
                f,
            ) is Some by {
                assert(r.unit_of(f) is Some ==> r.value_of(f) is Some);
            }
        }
        lemma_apply_wf(r1, entries.drop_first());
    }
}

/// Entries that target other fields leave the value and unit of `f` alone.
proof fn lemma_other_entries_keep_field(r: MeterReading, entries: Seq<RawEntry>, f: Field)
    requires
        forall|j: int| 0 <= j < entries.len() ==> entry_target(#[trigger] entries[j]) != Some(f),
    ensures
        apply_entries(r, entries).value_of(f) == r.value_of(f),
        apply_entries(r, entries).unit_of(f) == r.unit_of(f),
    decreases entries.len(),
{
    if entries.len() > 0 {
        assert(entry_target(entries[0]) != Some(f));
        let rest = entries.drop_first();
        assert forall|j: int| 0 <= j < rest.len() implies entry_target(#[trigger] rest[j]) != Some(
            f,
        ) by {
            assert(rest[j] == entries[j + 1]);
        }
        lemma_other_entries_keep_field(apply_entry(r, entries[0]), rest, f);
    }
}

/// Scaling law: in a datagram of three messages whose value list holds
/// exactly one entry stored into field `f`, with integer `v`, scaler `s`
/// (0 when absent) and unit code `u`, the reading holds `v * 10^s` for `f`,
/// with the unit that `u` resolves to.
pub proof fn lemma_field_is_scaled_entry(d: Datagram, entries: Seq<RawEntry>, f: Field, i: int)
    requires
        d.messages@.len() == 3,
        d.messages@[1] matches Message::GetListResponse(es) && es@ == entries,
        0 <= i < entries.len(),
        entry_target(entries[i]) == Some(f),
        forall|j: int|
            0 <= j < entries.len() && j != i ==> entry_target(#[trigger] entries[j]) != Some(f),
    ensures
        build(d) is Ok,
        build(d)->Ok_0.value_of(f) == Some(entry_scaled(entries[i])),
        build(d)->Ok_0.unit_of(f) == entry_unit(entries[i]),
        entry_scaled(entries[i]).equals_scaled(
            entries[i].value.spec_integer().unwrap(),
            match entries[i].scaler {
                Some(s) => s as int,
                None => 0,
            },
        ),
{
    let pre = entries.take(i);
    let post = entries.skip(i + 1);
    let e = entries[i];
    assert(entries =~= pre + seq![e] + post);
    lemma_apply_concat(empty_reading(), pre + seq![e], post);
    lemma_apply_concat(empty_reading(), pre, seq![e]);
    let r0 = apply_entries(empty_reading(), pre);
    assert(seq![e].drop_first() =~= Seq::<RawEntry>::empty());
    assert(apply_entries(r0, seq![e]) == apply_entries(apply_entry(r0, e), Seq::<RawEntry>::empty()));
    let r1 = apply_entry(r0, e);
    assert(r1.value_of(f) == Some(entry_scaled(e)));
    assert forall|j: int| 0 <= j < post.len() implies entry_target(#[trigger] post[j]) != Some(f) by {
        assert(post[j] == entries[i + 1 + j]);
    }
    lemma_other_entries_keep_field(r1, post, f);
    let v = e.value.spec_integer().unwrap();
    assert(i64::MIN <= v <= u64::MAX);
    assert(entry_scaled(e).raw as int == v);
}

/// An entry that is not stored into any field (malformed or unknown
/// identifier, or a value that is not an integer) changes no reading.
proof fn lemma_skipped_entry(r: MeterReading, before: Seq<RawEntry>, e: RawEntry, after: Seq<RawEntry>)
    requires
        entry_target(e) is None,
    ensures
        apply_entries(r, before + seq![e] + after) == apply_entries(r, before + after),
{
    lemma_apply_concat(r, before + seq![e], after);
    lemma_apply_concat(r, before, seq![e]);
    lemma_apply_concat(r, before, after);
    assert(seq![e].drop_first() =~= Seq::<RawEntry>::empty());
    let r0 = apply_entries(r, before);
    assert(apply_entries(r0, seq![e]) == apply_entries(apply_entry(r0, e), Seq::<RawEntry>::empty()));
}

/// An entry whose identifier is not in the table is skipped: inserting it
/// anywhere in a value list leaves every field of the reading as it was.
pub proof fn lemma_unknown_identifier_ignored(
    before: Seq<RawEntry>,
    e: RawEntry,
    after: Seq<RawEntry>,
)
    requires
        entry_code(e) matches Some(code) ==> field_of(code) is None,
    ensures
        apply_entries(empty_reading(), before + seq![e] + after) == apply_entries(
            empty_reading(),
            before + after,
        ),
{
    lemma_skipped_entry(empty_reading(), before, e, after);
}

/// An entry whose value is not an integer is skipped: the fields are as
/// they would be without it, and a field that no other entry sets stays
/// absent, value and unit.
pub proof fn lemma_non_integer_value_ignored(
    before: Seq<RawEntry>,
    e: RawEntry,
    after: Seq<RawEntry>,
)
    requires
        e.value.spec_integer() is None,
    ensures
        apply_entries(empty_reading(), before + seq![e] + after) == apply_entries(
            empty_reading(),
            before + after,
        ),
        forall|f: Field|
            (forall|j: int|
                0 <= j < (before + after).len() ==> entry_target(#[trigger] (before + after)[j])
                    != Some(f)) ==> apply_entries(empty_reading(), before + seq![e] + after).value_of(
                f,
            ) is None && apply_entries(empty_reading(), before + seq![e] + after).unit_of(f) is None,
{
    lemma_skipped_entry(empty_reading(), before, e, after);
    assert forall|f: Field|
        (forall|j: int|
            0 <= j < (before + after).len() ==> entry_target(#[trigger] (before + after)[j]) != Some(
                f,
            )) implies apply_entries(empty_reading(), before + seq![e] + after).value_of(f) is None
        && apply_entries(empty_reading(), before + seq![e] + after).unit_of(f) is None by {
        lemma_other_entries_keep_field(empty_reading(), before + after, f);
    }
}

/// Every reading that a datagram builds is well formed.
pub proof fn lemma_build_wf(d: Datagram)
    ensures
        build(d) matches Ok(r) ==> r.wf(),
{
    assert(empty_reading().wf());
    if d.messages@.len() == 3 {
        if let Message::GetListResponse(es) = d.messages@[1] {
            lemma_apply_wf(empty_reading(), es@);
        }
    }
}

impl MeterReading {
    /// The reading with every field absent.
    pub fn empty() -> (r: MeterReading)
        ensures
            r == empty_reading(),
    {
        MeterReading {
            meter_time: None,
            total_energy_inbound: None,
            total_energy_inbound_unit: None,
            total_energy_outbound: None,
            total_energy_outbound_unit: None,
            current_net_power: None,
            current_net_power_unit: None,
            line_one: None,
            line_one_unit: None,
            line_two: None,
            line_two_unit: None,
            line_three: None,
            line_three_unit: None,
        }
    }

    fn set_field(&mut self, f: Field, v: ScaledValue, u: Option<Unit>)
        ensures
            *final(self) == old(self).with_field(f, v, u),
    {
        match f {
            Field::TotalInbound => {
                self.total_energy_inbound = Some(v);
                self.total_energy_inbound_unit = u;
            },
            Field::TotalOutbound => {
                self.total_energy_outbound = Some(v);
                self.total_energy_outbound_unit = u;
            },
            Field::NetPower => {
                self.current_net_power = Some(v);
                self.current_net_power_unit = u;
            },
            Field::LineOne => {
                self.line_one = Some(v);
                self.line_one_unit = u;
            },
            Field::LineTwo => {
                self.line_two = Some(v);
                self.line_two_unit = u;
            },
            Field::LineThree => {
                self.line_three = Some(v);
                self.line_three_unit = u;
            },
        }
    }

    /// Records one value-list entry; entries with a malformed or unknown
    /// identifier, or with a value that is not an integer, are skipped.
    pub fn apply(&mut self, e: &RawEntry)
        ensures
            *final(self) == apply_entry(*old(self), *e),
    {
        let code = match ObisCode::try_from_octet_str(e.obj_name.as_slice()) {
            Ok(code) => code,
            Err(_) => {
                return;
            },
        };
        assert(entry_code(*e) == Some(code)) by {
            assert(code.spec_bytes() == e.obj_name@);
            assert(code.spec_bytes()[0] == code.a);
        }
        let field = match lookup(&code) {
            Some(f) => f,
            None => {
                return;
            },
        };
        let raw = match e.value.integer() {
            Some(v) => v,
            None => {
                return;
            },
        };
        let scaler: i8 = match e.scaler {
            Some(s) => s,
            None => 0,
        };
        let unit = match e.unit {
            Some(c) => Unit::from_u8(c),
            None => None,
        };
        self.set_field(field, ScaledValue { raw, scaler }, unit);
        if field.is_energy_total() {
            self.meter_time = match e.val_time {
                Some(Time::SecIndex(s)) => Some(s),
                None => None,
            };
        }
    }

    /// Builds a reading from a decoded datagram. The datagram must hold three
    /// messages, the second a value-list response; each of its entries is
    /// recorded in order, later entries for a field replacing earlier ones.
    pub fn parse(datagram: &Datagram) -> (r: Result<MeterReading, StructureError>)
        ensures
            r == build(*datagram),
            datagram.messages@.len() != 3 ==> r == Err::<MeterReading, StructureError>(
                StructureError::MessageCount(datagram.messages@.len() as usize),
            ),
            r is Err <==> datagram.messages@.len() != 3 || !(datagram.messages@[1] is GetListResponse),
            r matches Ok(reading) ==> reading.wf(),
    {
        if datagram.messages.len() != 3 {
            return Err(StructureError::MessageCount(datagram.messages.len()));
        }
        let entries = match &datagram.messages[1] {
            Message::GetListResponse(entries) => entries,
            _ => {
                return Err(StructureError::UnexpectedMessage);
            },
        };
        let mut reading = MeterReading::empty();
        let mut i: usize = 0;
        while i < entries.len()
            invariant
                0 <= i <= entries@.len(),
                reading == apply_entries(empty_reading(), entries@.take(i as int)),
            decreases entries@.len() - i,
        {
            let ghost prev = reading;
            reading.apply(&entries[i]);
            proof {
                let x = entries@[i as int];
                lemma_apply_concat(empty_reading(), entries@.take(i as int), seq![x]);
                assert(seq![x].drop_first() =~= Seq::<RawEntry>::empty());
                assert(apply_entries(prev, seq![x]) == apply_entries(
                    apply_entry(prev, x),
                    Seq::<RawEntry>::empty(),
                ));
                assert(entries@.take(i as int) + seq![x] =~= entries@.take(i + 1));
            }
            i = i + 1;
        }
        proof {
            assert(entries@.take(i as int) =~= entries@);
            lemma_apply_wf(empty_reading(), entries@);
        }
        Ok(reading)
    }
}

} // verus!
