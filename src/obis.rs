//! Six-byte OBIS object identifiers and the fixed table of the fields they name.
use vstd::prelude::*;

verus! {

/// An OBIS object identifier: the six value groups A to F.
#[derive(Clone, Copy, Debug, PartialEq, Eq, Structural)]
pub struct ObisCode {
    pub a: u8,
    pub b: u8,
    pub c: u8,
    pub d: u8,
    pub e: u8,
    pub f: u8,
}

/// An identifier given as a byte string that does not have six bytes.
#[derive(Clone, Copy, Debug, PartialEq, Eq, Structural)]
pub struct ObisLengthError {
    pub len: usize,
}

impl ObisCode {
    /// The six bytes of the identifier, in order.
    pub open spec fn spec_bytes(self) -> Seq<u8> {
        seq![self.a, self.b, self.c, self.d, self.e, self.f]
    }

    /// Builds an identifier from its six value groups.
    pub fn new(a: u8, b: u8, c: u8, d: u8, e: u8, f: u8) -> (r: ObisCode)
        ensures
            r.spec_bytes() == seq![a, b, c, d, e, f],
    {
        ObisCode { a, b, c, d, e, f }
    }

    /// Reads an identifier from a byte string, which must hold exactly six bytes.
    pub fn try_from_octet_str(s: &[u8]) -> (r: Result<ObisCode, ObisLengthError>)
        ensures
            r is Ok <==> s@.len() == 6,
            r matches Ok(code) ==> code.spec_bytes() == s@,
            r matches Err(e) ==> e.len == s@.len(),
    {
        if s.len() != 6 {
            return Err(ObisLengthError { len: s.len() });
        }
        let code = ObisCode { a: s[0], b: s[1], c: s[2], d: s[3], e: s[4], f: s[5] };
        assert(code.spec_bytes() =~= s@);
        Ok(code)
    }

    /// The six bytes of the identifier.
    pub fn to_bytes(&self) -> (r: Vec<u8>)
        ensures
            r@ == self.spec_bytes(),
    {
        let r = vec![self.a, self.b, self.c, self.d, self.e, self.f];
        assert(r@ =~= self.spec_bytes());
        r
    }
}

/// The measured quantities that the identifier table knows.
#[derive(Clone, Copy, Debug, PartialEq, Eq, Structural)]
pub enum Field {
    /// total energy drawn from the grid, 1-0:1.8.0*255
    TotalInbound,
    /// total energy fed into the grid, 1-0:2.8.0*255
    TotalOutbound,
    /// current net power over all phases, 1-0:16.7.0*255
    NetPower,
    /// current power on phase one, 1-0:36.7.0*255
    LineOne,
    /// current power on phase two, 1-0:56.7.0*255
    LineTwo,
    /// current power on phase three, 1-0:76.7.0*255
    LineThree,
}

impl Field {
    /// The value group C of the field's identifier; the other groups are
    /// `1-0:_.x.0*255` with `x` being 8 for energy totals and 7 for powers.
    pub open spec fn spec_group_c(self) -> u8 {
        match self {
            Field::TotalInbound => 1,
            Field::TotalOutbound => 2,
            Field::NetPower => 16,
            Field::LineOne => 36,
            Field::LineTwo => 56,
            Field::LineThree => 76,
        }
    }

    /// Whether the field is one of the two energy totals.
    pub open spec fn spec_is_energy_total(self) -> bool {
        self is TotalInbound || self is TotalOutbound
    }

    /// The identifier of the field.
    pub open spec fn spec_code(self) -> ObisCode {
        ObisCode {
            a: 1,
            b: 0,
            c: self.spec_group_c(),
            d: if self.spec_is_energy_total() { 8 } else { 7 },
            e: 0,
            f: 255,
        }
    }

    /// The identifier of the field.
    pub fn code(&self) -> (r: ObisCode)
        ensures
            r == self.spec_code(),
    {
        match self {
            Field::TotalInbound => ObisCode::new(1, 0, 1, 8, 0, 255),
            Field::TotalOutbound => ObisCode::new(1, 0, 2, 8, 0, 255),
            Field::NetPower => ObisCode::new(1, 0, 16, 7, 0, 255),
            Field::LineOne => ObisCode::new(1, 0, 36, 7, 0, 255),
            Field::LineTwo => ObisCode::new(1, 0, 56, 7, 0, 255),
            Field::LineThree => ObisCode::new(1, 0, 76, 7, 0, 255),
        }
    }

    /// Whether the field is one of the two energy totals.
    pub fn is_energy_total(&self) -> (r: bool)
        ensures
            r == self.spec_is_energy_total(),
    {
        match self {
            Field::TotalInbound | Field::TotalOutbound => true,
            _ => false,
        }
    }
}

/// The fields of the identifier table, in table order.
pub open spec fn table_fields() -> Seq<Field> {
    seq![
        Field::TotalInbound,
        Field::TotalOutbound,
        Field::NetPower,
        Field::LineOne,
        Field::LineTwo,
        Field::LineThree,
    ]
}

/// The field that the table gives for an identifier, if any.
pub open spec fn field_of(code: ObisCode) -> Option<Field> {
    if code == Field::TotalInbound.spec_code() {
        Some(Field::TotalInbound)
    } else if code == Field::TotalOutbound.spec_code() {
        Some(Field::TotalOutbound)
    } else if code == Field::NetPower.spec_code() {
        Some(Field::NetPower)
    } else if code == Field::LineOne.spec_code() {
        Some(Field::LineOne)
    } else if code == Field::LineTwo.spec_code() {
        Some(Field::LineTwo)
    } else if code == Field::LineThree.spec_code() {
        Some(Field::LineThree)
    } else {
        None
    }
}

/// Looks an identifier up in the table; unknown identifiers give `None`.
pub fn lookup(code: &ObisCode) -> (r: Option<Field>)
    ensures
        r == field_of(*code),
        r matches Some(f) ==> f.spec_code() == *code,
{
    let fields = [
        Field::TotalInbound,
        Field::TotalOutbound,
        Field::NetPower,
        Field::LineOne,
        Field::LineTwo,
        Field::LineThree,
    ];
    let mut i: usize = 0;
    while i < 6
        invariant
            0 <= i <= 6,
            fields@ == table_fields(),
            forall|j: int| 0 <= j < i ==> table_fields()[j].spec_code() != *code,
        decreases 6 - i,
    {
        let f = fields[i];
        if f.code() == *code {
            return Some(f);
        }
        i = i + 1;
    }
    None
}

} // verus!
