//! Decimal text of numbers and the human-readable renderings of a reading.
use vstd::prelude::*;

use crate::reading::{pow10, MeterReading, ScaledValue};
use crate::unit::Unit;

verus! {

/// The character of a decimal digit.
pub open spec fn digit_char(d: int) -> char {
    seq!['0', '1', '2', '3', '4', '5', '6', '7', '8', '9'][d]
}

/// The decimal digits of `n`, most significant first, without leading zeros.
pub open spec fn nat_text(n: nat) -> Seq<char>
    decreases n,
{
    if n < 10 {
        seq![digit_char(n as int)]
    } else {
        nat_text(n / 10) + seq![digit_char((n % 10) as int)]
    }
}

/// `k` zero digits.
pub open spec fn zeros(k: nat) -> Seq<char> {
    Seq::new(k, |i: int| '0')
}

/// The absolute value of an integer.
pub open spec fn magnitude(raw: int) -> nat {
    if raw < 0 {
        (-raw) as nat
    } else {
        raw as nat
    }
}

/// The decimal text of `raw * 10^scaler`: a minus sign for a negative value,
/// the integer part, and for a negative scaler a point followed by exactly
/// `-scaler` fraction digits (`12345`, `-2` gives `123.45`).
pub open spec fn number_text(v: ScaledValue) -> Seq<char> {
    let m = magnitude(v.raw as int);
    let sign = if v.raw < 0 {
        seq!['-']
    } else {
        Seq::<char>::empty()
    };
    if v.scaler >= 0 {
        if m == 0 {
            seq!['0']
        } else {
            sign + nat_text(m) + zeros(v.scaler as nat)
        }
    } else {
        let p = pow10((-v.scaler) as nat);
        let frac = nat_text(m % p as nat);
        let pad = if frac.len() < -v.scaler {
            zeros((-v.scaler - frac.len()) as nat)
        } else {
            Seq::<char>::empty()
        };
        sign + nat_text(m / p as nat) + seq!['.'] + pad + frac
    }
}

/// The text a missing value is written as.
pub open spec fn unknown_text() -> Seq<char> {
    seq!['U', 'n', 'k', 'n', 'o', 'w', 'n']
}

/// The text of an optional value, or `Unknown`.
pub open spec fn value_or_unknown(o: Option<ScaledValue>) -> Seq<char> {
    match o {
        Some(v) => number_text(v),
        None => unknown_text(),
    }
}

/// The text of an optional unit, or `Unknown`.
pub open spec fn unit_or_unknown(o: Option<Unit>) -> Seq<char> {
    match o {
        Some(u) => u.spec_symbol(),
        None => unknown_text(),
    }
}

/// The text of an optional meter time, or `Unknown`.
pub open spec fn time_or_unknown(o: Option<u32>) -> Seq<char> {
    match o {
        Some(t) => nat_text(t as nat),
        None => unknown_text(),
    }
}

/// A value followed by its unit, separated by a space.
pub open spec fn pair_text(v: Option<ScaledValue>, u: Option<Unit>) -> Seq<char> {
    value_or_unknown(v) + seq![' '] + unit_or_unknown(u)
}

/// One line: the meter time in seconds, then each field with its unit.
pub open spec fn compact_text(r: MeterReading) -> Seq<char> {
    time_or_unknown(r.meter_time) + seq!['s', ',', ' '] + pair_text(
        r.total_energy_inbound,
        r.total_energy_inbound_unit,
    ) + seq![',', ' '] + pair_text(r.total_energy_outbound, r.total_energy_outbound_unit) + seq![
        ',',
        ' ',
    ] + pair_text(r.current_net_power, r.current_net_power_unit) + seq![',', ' '] + pair_text(
        r.line_one,
        r.line_one_unit,
    ) + seq![',', ' '] + pair_text(r.line_two, r.line_two_unit) + seq![',', ' '] + pair_text(
        r.line_three,
        r.line_three_unit,
    )
}

fn digit_str(d: u8) -> (r: &'static str)
    requires
        d < 10,
    ensures
        r@ == seq![digit_char(d as int)],
{
    match d {
        0 => {
            proof { reveal_strlit("0"); }
            "0"
        },
        1 => {
            proof { reveal_strlit("1"); }
            "1"
        },
        2 => {
            proof { reveal_strlit("2"); }
            "2"
        },
        3 => {
            proof { reveal_strlit("3"); }
            "3"
        },
        4 => {
            proof { reveal_strlit("4"); }
            "4"
        },
        5 => {
            proof { reveal_strlit("5"); }
            "5"
        },
        6 => {
            proof { reveal_strlit("6"); }
            "6"
        },
        7 => {
            proof { reveal_strlit("7"); }
            "7"
        },
        8 => {
            proof { reveal_strlit("8"); }
            "8"
        },
        _ => {
            proof { reveal_strlit("9"); }
            "9"
        },
    }
}

/// Appends the decimal digits of `n` to `s`.
pub fn push_nat(s: &mut String, n: u128)
    ensures
        final(s)@ == old(s)@ + nat_text(n as nat),
    decreases n,
{
    if n < 10 {
        s.append(digit_str(n as u8));
    } else {
        push_nat(s, n / 10);
        s.append(digit_str((n % 10) as u8));
        assert(final(s)@ =~= old(s)@ + nat_text(n as nat));
    }
}

/// The number of decimal digits of `n`.
fn nat_len(n: u128) -> (r: u32)
    ensures
        r as nat == nat_text(n as nat).len(),
    decreases n,
{
    proof { lemma_nat_text_len(n as nat); }
    if n < 10 {
        1
    } else {
        nat_len(n / 10) + 1
    }
}

proof fn lemma_nat_text_len(n: nat)
    ensures
        nat_text(n).len() >= 1,
        n < 0x1_0000_0000_0000_0000_0000_0000_0000_0000 ==> nat_text(n).len() <= 39,
{
    lemma_nat_text_fits(n, 39);
    reveal_with_fuel(pow10, 40);
}

/// A number below `10^d` has at most `d` digits.
proof fn lemma_nat_text_fits(n: nat, d: nat)
    ensures
        nat_text(n).len() >= 1,
        d >= 1 && n < pow10(d) ==> nat_text(n).len() <= d,
    decreases n,
{
    if n >= 10 {
        lemma_nat_text_fits(n / 10, (d - 1) as nat);
        if d >= 1 && n < pow10(d) {
            if d == 1 {
                assert(pow10(1) == 10) by {
                    reveal_with_fuel(pow10, 2);
                }
            } else {
                assert(n / 10 < pow10((d - 1) as nat));
            }
        }
    }
}

/// Appends `k` zero digits to `s`.
fn push_zeros(s: &mut String, k: u32)
    ensures
        final(s)@ == old(s)@ + zeros(k as nat),
{
    let mut i: u32 = 0;
    while i < k
        invariant
            i <= k,
            s@ == old(s)@ + zeros(i as nat),
        decreases k - i,
    {
        proof { reveal_strlit("0"); }
        s.append("0");
        i = i + 1;
        assert(s@ =~= old(s)@ + zeros(i as nat));
    }
}

/// `10^n` for exponents whose power fits in a `u128`.
fn pow10_u128(n: u32) -> (r: u128)
    requires
        n <= 38,
    ensures
        r == pow10(n as nat),
{
    let mut r: u128 = 1;
    let mut i: u32 = 0;
    while i < n
        invariant
            i <= n <= 38,
            r == pow10(i as nat),
        decreases n - i,
    {
        proof { lemma_pow10_bound(i as nat, 38); }
        r = r * 10;
        i = i + 1;
    }
    r
}

proof fn lemma_pow10_monotonic(a: nat, b: nat)
    requires
        a <= b,
    ensures
        0 < pow10(a) <= pow10(b),
    decreases b,
{
    if a < b {
        lemma_pow10_monotonic(a, (b - 1) as nat);
    } else if a > 0 {
        lemma_pow10_monotonic((a - 1) as nat, (a - 1) as nat);
    }
}

proof fn lemma_pow10_bound(i: nat, n: nat)
    requires
        i < n <= 38,
    ensures
        pow10(i) * 10 <= pow10(38),
        pow10(38) == 100000000000000000000000000000000000000,
{
    reveal_with_fuel(pow10, 39);
    lemma_pow10_monotonic(i + 1, 38);
}

/// The absolute value of `raw`, which always fits in a `u128`.
fn magnitude_u128(raw: i128) -> (m: u128)
    ensures
        m as nat == magnitude(raw as int),
        m <= 0x8000_0000_0000_0000_0000_0000_0000_0000,
{
    if raw < 0 {
        ((-(raw + 1)) as u128) + 1
    } else {
        raw as u128
    }
}

/// The integer part and the remainder of `m / 10^k`.
fn split_decimal(m: u128, k: u32) -> (r: (u128, u128))
    requires
        m <= 0x8000_0000_0000_0000_0000_0000_0000_0000,
    ensures
        pow10(k as nat) > 0,
        r.0 as nat == (m as nat) / (pow10(k as nat) as nat),
        r.1 as nat == (m as nat) % (pow10(k as nat) as nat),
{
    proof { lemma_pow10_monotonic(0, k as nat); }
    if k >= 39 {
        proof {
            let pk = pow10(k as nat);
            assert(pow10(39) == 1_000_000_000_000_000_000_000_000_000_000_000_000_000) by {
                reveal_with_fuel(pow10, 40);
            }
            lemma_pow10_monotonic(39, k as nat);
            assert((m as nat) / (pk as nat) == 0 && (m as nat) % (pk as nat) == m)
                by (nonlinear_arith)
                requires
                    m < pk,
                    0 <= m,
            ;
        }
        (0, m)
    } else {
        let p = pow10_u128(k);
        (m / p, m % p)
    }
}

/// Appends the fraction digits of a value: `frac` written with exactly `k`
/// digits when it has fewer, zero-padded on the left.
fn push_fraction(s: &mut String, frac: u128, k: u32)
    ensures
        final(s)@ == old(s)@ + (if nat_text(frac as nat).len() < k {
            zeros((k - nat_text(frac as nat).len()) as nat)
        } else {
            Seq::<char>::empty()
        }) + nat_text(frac as nat),
{
    let ghost s0 = s@;
    let flen = nat_len(frac);
    if flen < k {
        push_zeros(s, k - flen);
    }
    let ghost s1 = s@;
    push_nat(s, frac);
    assert(s@ =~= s1 + nat_text(frac as nat));
}

impl ScaledValue {
    /// Appends the decimal text of the value to `s`.
    pub fn push_text(&self, s: &mut String)
        ensures
            final(s)@ == old(s)@ + number_text(*self),
    {
        let ghost s0 = s@;
        let m = magnitude_u128(self.raw);
        if self.raw < 0 {
            proof { reveal_strlit("-"); }
            s.append("-");
        }
        let ghost s1 = s@;
        if self.scaler >= 0 {
            if m == 0 {
                proof { reveal_strlit("0"); }
                s.append("0");
            } else {
                push_nat(s, m);
                push_zeros(s, self.scaler as u32);
            }
            assert(s@ =~= s0 + number_text(*self));
        } else {
            let k: u32 = (0 - (self.scaler as i32)) as u32;
            let (ip, fp) = split_decimal(m, k);
            push_nat(s, ip);
            proof { reveal_strlit("."); }
            s.append(".");
            push_fraction(s, fp, k);
            assert(s@ =~= s0 + number_text(*self));
        }
    }

    /// The decimal text of the value (`123.45` for `12345` with scaler `-2`).
    pub fn to_text(&self) -> (r: String)
        ensures
            r@ == number_text(*self),
    {
        let mut s = String::new();
        self.push_text(&mut s);
        assert(s@ =~= number_text(*self));
        s
    }
}

/// The multi-line description: one labelled line per field.
pub open spec fn full_text(r: MeterReading) -> Seq<char> {
    "Meter Time: "@ + time_or_unknown(r.meter_time) + "\n"@ + "Total Energy Inbound: "@ + pair_text(
        r.total_energy_inbound,
        r.total_energy_inbound_unit,
    ) + "\n"@ + "Total Energy Outbound: "@ + pair_text(
        r.total_energy_outbound,
        r.total_energy_outbound_unit,
    ) + "\n"@ + "Current Power: "@ + pair_text(r.current_net_power, r.current_net_power_unit)
        + "\n"@ + "Line One: "@ + pair_text(r.line_one, r.line_one_unit) + "\n"@ + "Line Two: "@
        + pair_text(r.line_two, r.line_two_unit) + "\n"@ + "Line Three: "@ + pair_text(
        r.line_three,
        r.line_three_unit,
    ) + "\n"@
}

/// The rendered text of a present value, or `Unknown` for a missing one.
pub fn map_unknown(rendered: Option<String>) -> (r: String)
    ensures
        r@ == match rendered {
            Some(t) => t@,
            None => unknown_text(),
        },
{
    match rendered {
        Some(t) => t,
        None => {
            proof { reveal_strlit("Unknown"); }
            String::from_str("Unknown")
        },
    }
}

fn value_text(o: &Option<ScaledValue>) -> (r: Option<String>)
    ensures
        r is Some <==> o is Some,
        r matches Some(t) ==> t@ == number_text(o->Some_0),
{
    match o {
        Some(v) => Some(v.to_text()),
        None => None,
    }
}

fn unit_text(o: &Option<Unit>) -> (r: Option<String>)
    ensures
        r is Some <==> o is Some,
        r matches Some(t) ==> t@ == o->Some_0.spec_symbol(),
{
    match o {
        Some(u) => Some(String::from_str(u.symbol())),
        None => None,
    }
}

fn time_text(o: Option<u32>) -> (r: Option<String>)
    ensures
        r is Some <==> o is Some,
        r matches Some(t) ==> t@ == nat_text(o->Some_0 as nat),
{
    match o {
        Some(t) => {
            let mut s = String::new();
            push_nat(&mut s, t as u128);
            assert(s@ =~= nat_text(t as nat));
            Some(s)
        },
        None => None,
    }
}

/// Appends a value and its unit, separated by a space.
fn push_pair(s: &mut String, v: &Option<ScaledValue>, u: &Option<Unit>)
    ensures
        final(s)@ == old(s)@ + pair_text(*v, *u),
{
    let vt = map_unknown(value_text(v));
    s.append(vt.as_str());
    proof { reveal_strlit(" "); }
    s.append(" ");
    let ut = map_unknown(unit_text(u));
    s.append(ut.as_str());
    assert(final(s)@ =~= old(s)@ + pair_text(*v, *u));
}

impl MeterReading {
    /// The reading on one line: `<time>s, <value> <unit>, ...`, with
    /// `Unknown` for each missing part.
    pub fn display_compact(&self) -> (r: String)
        ensures
            r@ == compact_text(*self),
    {
        let mut s = map_unknown(time_text(self.meter_time));
        proof { reveal_strlit("s, "); reveal_strlit(", "); }
        s.append("s, ");
        push_pair(&mut s, &self.total_energy_inbound, &self.total_energy_inbound_unit);
        s.append(", ");
        push_pair(&mut s, &self.total_energy_outbound, &self.total_energy_outbound_unit);
        s.append(", ");
        push_pair(&mut s, &self.current_net_power, &self.current_net_power_unit);
        s.append(", ");
        push_pair(&mut s, &self.line_one, &self.line_one_unit);
        s.append(", ");
        push_pair(&mut s, &self.line_two, &self.line_two_unit);
        s.append(", ");
        push_pair(&mut s, &self.line_three, &self.line_three_unit);
        assert(s@ =~= compact_text(*self));
        s
    }

    /// The reading as labelled lines, one per field, each ending in a newline.
    pub fn describe(&self) -> (r: String)
        ensures
            r@ == full_text(*self),
    {
        let mut s = String::from_str("Meter Time: ");
        s.append(map_unknown(time_text(self.meter_time)).as_str());
        s.append("\n");
        s.append("Total Energy Inbound: ");
        push_pair(&mut s, &self.total_energy_inbound, &self.total_energy_inbound_unit);
        s.append("\n");
        s.append("Total Energy Outbound: ");
        push_pair(&mut s, &self.total_energy_outbound, &self.total_energy_outbound_unit);
        s.append("\n");
        s.append("Current Power: ");
        push_pair(&mut s, &self.current_net_power, &self.current_net_power_unit);
        s.append("\n");
        s.append("Line One: ");
        push_pair(&mut s, &self.line_one, &self.line_one_unit);
        s.append("\n");
        s.append("Line Two: ");
        push_pair(&mut s, &self.line_two, &self.line_two_unit);
        s.append("\n");
        s.append("Line Three: ");
        push_pair(&mut s, &self.line_three, &self.line_three_unit);
        s.append("\n");
        assert(s@ =~= full_text(*self));
        s
    }
}

/// Whether a character is a decimal digit.
pub open spec fn is_digit(c: char) -> bool {
    '0' <= c && c <= '9'
}

/// The value of a decimal digit character.
pub open spec fn digit_value(c: char) -> int {
    (c as u32) - ('0' as u32)
}

/// Reads a decimal text from the left: the value of all its digits taken as
/// one integer, the number of digits after the point, and whether a point
/// was seen. `None` for any other character, or a second point.
pub open spec fn scan_decimal(t: Seq<char>) -> Option<(int, nat, bool)>
    decreases t.len(),
{
    if t.len() == 0 {
        Some((0, 0, false))
    } else {
        match scan_decimal(t.drop_last()) {
            Some((v, k, seen)) => {
                let c = t.last();
                if is_digit(c) {
                    Some((v * 10 + digit_value(c), if seen { k + 1 } else { k }, seen))
                } else if c == '.' && !seen {
                    Some((v, k, true))
                } else {
                    None
                }
            },
            None => None,
        }
    }
}

/// The value of a decimal text `[-]digits[.digits]`, as a numerator over
/// `10^places`; `None` when the text is not of that form.
pub open spec fn decimal_value(t: Seq<char>) -> Option<(int, nat)> {
    let neg = t.len() > 0 && t[0] == '-';
    let body = if neg {
        t.drop_first()
    } else {
        t
    };
    match scan_decimal(body) {
        Some((v, k, _)) => if body.len() > 0 {
            Some((if neg { -v } else { v }, k))
        } else {
            None
        },
        None => None,
    }
}

/// A digit's character reads back as the digit.
proof fn lemma_digit_char(d: int)
    requires
        0 <= d < 10,
    ensures
        is_digit(digit_char(d)),
        digit_value(digit_char(d)) == d,
{
    let ds = seq!['0', '1', '2', '3', '4', '5', '6', '7', '8', '9'];
    assert(digit_char(d) == ds[d]);
}

/// Appending digits to a text read as `(v, k, seen)`: each digit shifts `v`
/// by one place, and counts as a place after the point once one was seen.
proof fn lemma_scan_digits(a: Seq<char>, b: Seq<char>, v: int, k: nat, seen: bool, w: int)
    requires
        scan_decimal(a) == Some((v, k, seen)),
        scan_decimal(b) == Some((w, 0nat, false)),
        forall|i: int| 0 <= i < b.len() ==> is_digit(#[trigger] b[i]),
    ensures
        scan_decimal(a + b) == Some(
            (v * pow10(b.len()) + w, if seen { k + b.len() } else { k as nat }, seen),
        ),
    decreases b.len(),
{
    if b.len() == 0 {
        assert(a + b =~= a);
        assert(w == 0);
    } else {
        let b0 = b.drop_last();
        assert((a + b).drop_last() =~= a + b0);
        assert((a + b).last() == b.last());
        assert(b.last() == b[b.len() - 1]);
        let c = b.last();
        assert(is_digit(c));
        let (w0, k0, s0) = scan_decimal(b0).unwrap();
        assert(scan_decimal(b0) is Some) by {
            if scan_decimal(b0) is None {
                assert(scan_decimal(b) is None);
            }
        }
        assert(k0 == 0 && !s0);
        assert forall|i: int| 0 <= i < b0.len() implies is_digit(#[trigger] b0[i]) by {
            assert(b0[i] == b[i]);
        }
        lemma_scan_digits(a, b0, v, k, seen, w0);
        assert(w == w0 * 10 + digit_value(c));
        assert(pow10(b.len()) == 10 * pow10(b0.len()));
        assert((v * pow10(b0.len()) + w0) * 10 + digit_value(c) == v * pow10(b.len()) + w)
            by (nonlinear_arith)
            requires
                pow10(b.len()) == 10 * pow10(b0.len()),
                w == w0 * 10 + digit_value(c),
        ;
    }
}

/// The digits of `n` read back as `n`.
pub proof fn lemma_scan_nat_text(n: nat)
    ensures
        scan_decimal(nat_text(n)) == Some((n as int, 0nat, false)),
        forall|i: int| 0 <= i < nat_text(n).len() ==> is_digit(#[trigger] nat_text(n)[i]),
    decreases n,
{
    let empty = Seq::<char>::empty();
    assert(scan_decimal(empty) == Some((0int, 0nat, false)));
    if n < 10 {
        lemma_digit_char(n as int);
        let t = nat_text(n);
        assert(t.drop_last() =~= empty);
        assert(t.last() == digit_char(n as int));
    } else {
        lemma_scan_nat_text(n / 10);
        lemma_digit_char((n % 10) as int);
        let t = nat_text(n);
        assert(t.drop_last() =~= nat_text(n / 10));
        assert(t.last() == digit_char((n % 10) as int));
        assert((n / 10) as int * 10 + (n % 10) as int == n);
        assert forall|i: int| 0 <= i < t.len() implies is_digit(#[trigger] t[i]) by {
            if i < t.len() - 1 {
                assert(t[i] == nat_text(n / 10)[i]);
            }
        }
    }
}

/// Zero digits read back as zero.
proof fn lemma_scan_zeros(k: nat)
    ensures
        scan_decimal(zeros(k)) == Some((0int, 0nat, false)),
        forall|i: int| 0 <= i < zeros(k).len() ==> is_digit(#[trigger] zeros(k)[i]),
    decreases k,
{
    if k > 0 {
        lemma_scan_zeros((k - 1) as nat);
        assert(zeros(k).drop_last() =~= zeros((k - 1) as nat));
        assert(digit_value('0') == 0);
    }
}

proof fn lemma_pow10_add(a: nat, b: nat)
    ensures
        pow10(a + b) == pow10(a) * pow10(b),
    decreases a,
{
    if a > 0 {
        lemma_pow10_add((a - 1) as nat, b);
        assert(pow10(a + b) == 10 * pow10((a - 1 + b) as nat));
        assert(10 * (pow10((a - 1) as nat) * pow10(b)) == (10 * pow10((a - 1) as nat)) * pow10(b))
            by (nonlinear_arith);
    }
}

/// The unsigned part of a value's text (after any minus sign) reads back as
/// the magnitude of its numerator, with `-scaler` places for a negative scaler.
proof fn lemma_unsigned_text(v: ScaledValue, body: Seq<char>)
    requires
        magnitude(v.raw as int) > 0 || v.scaler < 0,
        body == (if v.scaler >= 0 {
            nat_text(magnitude(v.raw as int)) + zeros(v.scaler as nat)
        } else {
            let m = magnitude(v.raw as int);
            let p = pow10((-v.scaler) as nat);
            let frac = nat_text(m % p as nat);
            let pad = if frac.len() < -v.scaler {
                zeros((-v.scaler - frac.len()) as nat)
            } else {
                Seq::<char>::empty()
            };
            nat_text(m / p as nat) + seq!['.'] + pad + frac
        }),
    ensures
        body.len() > 0,
        is_digit(body[0]),
        scan_decimal(body) matches Some((w, k, _)) && (if v.scaler >= 0 {
            w == magnitude(v.raw as int) * pow10(v.scaler as nat) && k == 0
        } else {
            w == magnitude(v.raw as int) && k == -v.scaler
        }),
{
    let m = magnitude(v.raw as int);
    if v.scaler >= 0 {
        lemma_scan_nat_text(m);
        lemma_scan_zeros(v.scaler as nat);
        lemma_scan_digits(nat_text(m), zeros(v.scaler as nat), m as int, 0, false, 0);
        assert(body[0] == nat_text(m)[0]);
    } else {
        let k = (-v.scaler) as nat;
        let p = pow10(k);
        lemma_pow10_monotonic(0, k);
        let ip = (m / p as nat) as nat;
        let fp = (m % p as nat) as nat;
        let frac = nat_text(fp);
        lemma_nat_text_fits(fp, k);
        assert(frac.len() <= k);
        let pad = zeros((k - frac.len()) as nat);
        assert(body == nat_text(ip) + seq!['.'] + pad + frac);
        lemma_scan_nat_text(ip);
        lemma_scan_nat_text(fp);
        lemma_scan_zeros(pad.len());
        let a = nat_text(ip) + seq!['.'];
        assert(a.drop_last() =~= nat_text(ip));
        assert(scan_decimal(a) == Some((ip as int, 0nat, true)));
        lemma_scan_digits(a, pad, ip as int, 0, true, 0);
        lemma_scan_digits(a + pad, frac, ip * pow10(pad.len()), pad.len(), true, fp as int);
        lemma_pow10_add(pad.len(), frac.len());
        assert(pad.len() + frac.len() == k);
        assert(ip * pow10(pad.len()) * pow10(frac.len()) + fp == m) by (nonlinear_arith)
            requires
                pow10(k) == pow10(pad.len()) * pow10(frac.len()),
                p == pow10(k),
                p > 0,
                ip == (m as int) / p,
                fp == (m as int) % p,
        ;
        assert(body[0] == nat_text(ip)[0]);
    }
}

/// Round trip of the decimal text: reading back the text of a value gives
/// its numerator over a power of ten equal to its denominator.
pub proof fn lemma_number_text_round_trip(v: ScaledValue)
    ensures
        decimal_value(number_text(v)) matches Some((n, k)) && n == v.numerator() && pow10(k)
            == v.denominator(),
{
    let m = magnitude(v.raw as int);
    let neg = v.raw < 0;
    let sign = if neg {
        seq!['-']
    } else {
        Seq::<char>::empty()
    };
    let t = number_text(v);
    if v.scaler >= 0 && m == 0 {
        let empty = Seq::<char>::empty();
        assert(scan_decimal(empty) == Some((0int, 0nat, false)));
        assert(t == seq!['0']);
        assert(t.drop_last() =~= empty);
        assert(t.last() == '0');
        assert(digit_value('0') == 0);
        assert(scan_decimal(t) == Some((0int, 0nat, false)));
        assert(v.raw == 0);
        assert(v.numerator() == 0) by (nonlinear_arith)
            requires
                v.raw == 0,
                v.numerator() == v.raw * pow10(v.scaler as nat),
        ;
        assert(pow10(0) == 1);
    } else {
        let body = if v.scaler >= 0 {
            nat_text(m) + zeros(v.scaler as nat)
        } else {
            let p = pow10((-v.scaler) as nat);
            let frac = nat_text(m % p as nat);
            let pad = if frac.len() < -v.scaler {
                zeros((-v.scaler - frac.len()) as nat)
            } else {
                Seq::<char>::empty()
            };
            nat_text(m / p as nat) + seq!['.'] + pad + frac
        };
        assert(t =~= sign + body);
        lemma_unsigned_text(v, body);
        if neg {
            assert(t[0] == '-');
            assert(t.drop_first() =~= body);
        } else {
            assert(t =~= body);
        }
        assert(pow10(0) == 1);
        if v.scaler >= 0 {
            assert(v.numerator() == (if neg { -(m * pow10(v.scaler as nat)) } else { m * pow10(
                v.scaler as nat,
            ) })) by (nonlinear_arith)
                requires
                    v.numerator() == v.raw * pow10(v.scaler as nat),
                    m == (if v.raw < 0 { -v.raw } else { v.raw as int }),
                    neg == (v.raw < 0),
            ;
        }
    }
}

} // verus!
