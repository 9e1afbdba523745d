use vstd::prelude::*;

use crate::errors::Error;

verus! {

/// A calendar value of day, month and year. `new` is the validating factory;
/// the catalog and the ledger re-validate every date they are handed before
/// storing it, so each stored date satisfies `valid`. A date is never patched
/// field by field in storage: it is replaced wholesale.
#[derive(Clone, Copy, Debug, PartialEq, Eq, Structural)]
pub struct Date {
    pub day: u8,
    pub month: u8,
    pub year: u64,
}

impl Date {
    /// A date is valid when the day and the month are in calendar range and
    /// the year has at least four digits. No day-of-month or leap-year
    /// cross-check is made.
    pub open spec fn valid(self) -> bool {
        &&& 1 <= self.day <= 31
        &&& 1 <= self.month <= 12
        &&& self.year >= 1000
    }

    /// Builds a date from its fields, succeeding exactly on valid values.
    pub fn new(day: u8, month: u8, year: u64) -> (r: Result<Date, Error>)
        ensures
            r is Ok <==> (Date { day, month, year }).valid(),
            r matches Ok(d) ==> d == (Date { day, month, year }),
            r is Err ==> r == Err::<Date, Error>(Error::InvalidDate),
    {
        if day < 1 || day > 31 || month < 1 || month > 12 || year < 1000 {
            return Err(Error::InvalidDate);
        }
        Ok(Date { day, month, year })
    }

    /// Upper bound on the serialized size of a date: one byte each for the
    /// day and the month, and an eight-byte year.
    pub fn max_encoded_len() -> (r: usize)
        ensures
            r == 10,
    {
        let day_len: usize = 1;
        let month_len: usize = 1;
        let year_len: usize = 8;
        day_len + month_len + year_len
    }
}

} // verus!
