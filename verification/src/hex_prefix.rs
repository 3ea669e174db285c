//! Prefixes of hexadecimal object ids.

use vstd::prelude::*;

use crate::text::chars_of;

verus! {

/// Whether a character is a hexadecimal digit, in either case.
pub open spec fn is_hex_digit(c: char) -> bool {
    ('0' <= c <= '9') || ('a' <= c <= 'f') || ('A' <= c <= 'F')
}

/// Whether every character is a hexadecimal digit.
pub open spec fn is_hex(s: Seq<char>) -> bool {
    forall|i: int| 0 <= i < s.len() ==> is_hex_digit(#[trigger] s[i])
}

/// The value of a hexadecimal digit.
pub open spec fn hex_value(c: char) -> u8 {
    if '0' <= c <= '9' {
        (c as int - '0' as int) as u8
    } else if 'a' <= c <= 'f' {
        (c as int - 'a' as int + 10) as u8
    } else {
        (c as int - 'A' as int + 10) as u8
    }
}

/// The values of hexadecimal digits.
pub open spec fn hex_values(s: Seq<char>) -> Seq<u8> {
    s.map_values(|c: char| hex_value(c))
}

/// The lower-case digit of a value below sixteen.
pub open spec fn hex_digit(value: u8) -> char {
    if value < 10 {
        ('0' as int + value) as char
    } else {
        ('a' as int + value - 10) as char
    }
}

/// Values below sixteen written as lower-case hexadecimal digits.
pub open spec fn hex_text(values: Seq<u8>) -> Seq<char> {
    values.map_values(|value: u8| hex_digit(value))
}

/// A prefix of an object id: any number of hexadecimal digits, even or odd.
pub struct HexPrefix {
    values: Vec<u8>,
}

impl View for HexPrefix {
    type V = Seq<u8>;

    /// The values of the digits, each below sixteen.
    closed spec fn view(&self) -> Seq<u8> {
        self.values@
    }
}

impl HexPrefix {
    #[verifier::type_invariant]
    spec fn well_formed(self) -> bool {
        forall|i: int| 0 <= i < self.values@.len() ==> #[trigger] self.values@[i] < 16
    }

    /// Reads a prefix. `None` where a character is not a hexadecimal digit.
    pub fn new(prefix: &str) -> (r: Option<HexPrefix>)
        ensures
            match r {
                Some(p) => is_hex(prefix@) && p@ == hex_values(prefix@),
                None => !is_hex(prefix@),
            },
            r is Some <==> forall|i: int|
                0 <= i < prefix@.len() ==> ('0' <= #[trigger] prefix@[i] <= '9') || ('a'
                    <= prefix@[i] <= 'f') || ('A' <= prefix@[i] <= 'F'),
    {
        let chars = chars_of(prefix);
        let mut values: Vec<u8> = Vec::new();
        for i in 0..chars.len()
            invariant
                chars@ == prefix@,
                values@ == hex_values(prefix@.take(i as int)),
                is_hex(prefix@.take(i as int)),
                forall|j: int| 0 <= j < values@.len() ==> #[trigger] values@[j] < 16,
        {
            let c = chars[i];
            let value: u8;
            if '0' <= c && c <= '9' {
                value = c as u8 - '0' as u8;
            } else if 'a' <= c && c <= 'f' {
                value = c as u8 - 'a' as u8 + 10;
            } else if 'A' <= c && c <= 'F' {
                value = c as u8 - 'A' as u8 + 10;
            } else {
                assert(!is_hex_digit(prefix@[i as int]));
                return None;
            }
            values.push(value);
            assert(prefix@.take(i + 1) == prefix@.take(i as int).push(c));
            assert(value == hex_value(c));
        }
        assert(prefix@.take(prefix@.len() as int) == prefix@);
        Some(HexPrefix { values })
    }

    /// The prefix in lower-case hexadecimal digits.
    pub fn hex(&self) -> (s: String)
        ensures
            s@ == hex_text(self@),
            s@.len() == self@.len(),
            forall|i: int|
                0 <= i < self@.len() ==> (#[trigger] s@[i]) as int == (if self@[i] < 10 {
                    '0' as int + self@[i]
                } else {
                    'a' as int + (self@[i] - 10)
                }),
    {
        proof {
            use_type_invariant(self);
        }
        let mut s = String::new();
        for i in 0..self.values.len()
            invariant
                s@ == hex_text(self.values@.take(i as int)),
                self.well_formed(),
        {
            let value: u8 = self.values[i];
            if value < 10 {
                s.push(('0' as u8 + value) as char);
            } else {
                s.push(('a' as u8 + (value - 10)) as char);
            }
            assert(self.values@.take(i + 1) == self.values@.take(i as int).push(value));
        }
        assert(self.values@.take(self.values@.len() as int) == self.values@);
        s
    }
}

impl Clone for HexPrefix {
    fn clone(&self) -> (r: HexPrefix)
        ensures
            r@ == self@,
    {
        proof {
            use_type_invariant(self);
        }
        let values = self.values.clone();
        assert(values@ == self.values@);
        HexPrefix { values }
    }
}

} // verus!
