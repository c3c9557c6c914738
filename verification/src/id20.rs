//! Twenty-byte identifiers: info hashes and peer ids.

use vstd::prelude::*;

verus! {

/// The hexadecimal digit, in lower case, of a number below 16.
pub open spec fn hex_digit(n: int) -> char {
    if n == 0 {
        '0'
    } else if n == 1 {
        '1'
    } else if n == 2 {
        '2'
    } else if n == 3 {
        '3'
    } else if n == 4 {
        '4'
    } else if n == 5 {
        '5'
    } else if n == 6 {
        '6'
    } else if n == 7 {
        '7'
    } else if n == 8 {
        '8'
    } else if n == 9 {
        '9'
    } else if n == 10 {
        'a'
    } else if n == 11 {
        'b'
    } else if n == 12 {
        'c'
    } else if n == 13 {
        'd'
    } else if n == 14 {
        'e'
    } else {
        'f'
    }
}

/// The number that a hexadecimal digit, in either case, stands for.
pub open spec fn hex_value(c: char) -> Option<int> {
    if c == '0' {
        Some(0)
    } else if c == '1' {
        Some(1)
    } else if c == '2' {
        Some(2)
    } else if c == '3' {
        Some(3)
    } else if c == '4' {
        Some(4)
    } else if c == '5' {
        Some(5)
    } else if c == '6' {
        Some(6)
    } else if c == '7' {
        Some(7)
    } else if c == '8' {
        Some(8)
    } else if c == '9' {
        Some(9)
    } else if c == 'a' || c == 'A' {
        Some(10)
    } else if c == 'b' || c == 'B' {
        Some(11)
    } else if c == 'c' || c == 'C' {
        Some(12)
    } else if c == 'd' || c == 'D' {
        Some(13)
    } else if c == 'e' || c == 'E' {
        Some(14)
    } else if c == 'f' || c == 'F' {
        Some(15)
    } else {
        None
    }
}

/// Bytes written as hexadecimal digits, two per byte, high half first.
pub open spec fn hex_of(bytes: Seq<u8>) -> Seq<char> {
    Seq::new(
        2 * bytes.len(),
        |i: int|
            if i % 2 == 0 {
                hex_digit(bytes[i / 2] as int / 16)
            } else {
                hex_digit(bytes[i / 2] as int % 16)
            },
    )
}

/// `true` when the text is an even number of hexadecimal digits.
pub open spec fn is_hex(text: Seq<char>) -> bool {
    &&& text.len() % 2 == 0
    &&& forall|i: int| 0 <= i < text.len() ==> (#[trigger] hex_value(text[i])).is_some()
}

/// The bytes that hexadecimal text stands for.
pub open spec fn unhex(text: Seq<char>) -> Seq<u8>
    recommends
        is_hex(text),
{
    Seq::new(
        text.len() / 2,
        |i: int| (hex_value(text[2 * i]).unwrap() * 16 + hex_value(text[2 * i + 1]).unwrap()) as u8,
    )
}

/// Reading back what was written as hexadecimal gives the bytes again.
pub proof fn lemma_hex_round_trip(bytes: Seq<u8>)
    ensures
        hex_of(bytes).len() == 2 * bytes.len(),
        is_hex(hex_of(bytes)),
        unhex(hex_of(bytes)) == bytes,
{
    let text = hex_of(bytes);
    assert forall|i: int| 0 <= i < text.len() implies (#[trigger] hex_value(text[i])).is_some() by {
        let b = bytes[i / 2] as int;
        assert(0 <= b / 16 < 16 && 0 <= b % 16 < 16);
    }
    assert forall|i: int| 0 <= i < bytes.len() implies unhex(text)[i] == bytes[i] by {
        let b = bytes[i] as int;
        assert((2 * i) / 2 == i && (2 * i + 1) / 2 == i);
        assert((2 * i) % 2 == 0 && (2 * i + 1) % 2 == 1);
        assert(0 <= b / 16 < 16 && 0 <= b % 16 < 16);
        assert(hex_value(hex_digit(b / 16)) == Some(b / 16));
        assert(hex_value(hex_digit(b % 16)) == Some(b % 16));
        assert(b == (b / 16) * 16 + b % 16);
    }
    assert(unhex(text) =~= bytes);
}

fn hex_digit_of(n: u8) -> (digit: &'static str)
    requires
        n < 16,
    ensures
        digit@ == seq![hex_digit(n as int)],
{
    proof {
        reveal_strlit("0");
        reveal_strlit("1");
        reveal_strlit("2");
        reveal_strlit("3");
        reveal_strlit("4");
        reveal_strlit("5");
        reveal_strlit("6");
        reveal_strlit("7");
        reveal_strlit("8");
        reveal_strlit("9");
        reveal_strlit("a");
        reveal_strlit("b");
        reveal_strlit("c");
        reveal_strlit("d");
        reveal_strlit("e");
        reveal_strlit("f");
    }
    let digit = if n == 0 {
        "0"
    } else if n == 1 {
        "1"
    } else if n == 2 {
        "2"
    } else if n == 3 {
        "3"
    } else if n == 4 {
        "4"
    } else if n == 5 {
        "5"
    } else if n == 6 {
        "6"
    } else if n == 7 {
        "7"
    } else if n == 8 {
        "8"
    } else if n == 9 {
        "9"
    } else if n == 10 {
        "a"
    } else if n == 11 {
        "b"
    } else if n == 12 {
        "c"
    } else if n == 13 {
        "d"
    } else if n == 14 {
        "e"
    } else {
        "f"
    }
    ;
    assert(digit@ =~= seq![hex_digit(n as int)]);
    digit
}

fn hex_value_of(c: char) -> (v: Option<u8>)
    ensures
        match v {
            Some(v) => hex_value(c) == Some(v as int) && v < 16,
            None => hex_value(c).is_none(),
        },
{
    if c == '0' {
        Some(0)
    } else if c == '1' {
        Some(1)
    } else if c == '2' {
        Some(2)
    } else if c == '3' {
        Some(3)
    } else if c == '4' {
        Some(4)
    } else if c == '5' {
        Some(5)
    } else if c == '6' {
        Some(6)
    } else if c == '7' {
        Some(7)
    } else if c == '8' {
        Some(8)
    } else if c == '9' {
        Some(9)
    } else if c == 'a' || c == 'A' {
        Some(10)
    } else if c == 'b' || c == 'B' {
        Some(11)
    } else if c == 'c' || c == 'C' {
        Some(12)
    } else if c == 'd' || c == 'D' {
        Some(13)
    } else if c == 'e' || c == 'E' {
        Some(14)
    } else if c == 'f' || c == 'F' {
        Some(15)
    } else {
        None
    }
}

/// Why a text is not a twenty-byte identifier.
#[derive(Clone, Copy, Debug, PartialEq, Eq, Structural)]
pub enum Id20Error {
    /// The text does not have exactly forty characters.
    WrongLength,
    /// A character is not a hexadecimal digit.
    NotHex,
}

/// A twenty-byte identifier.
#[derive(Clone, Copy, Debug, PartialEq, Eq, Hash)]
pub struct Id20(pub [u8; 20]);

impl View for Id20 {
    type V = Seq<u8>;

    open spec fn view(&self) -> Seq<u8> {
        self.0@
    }
}

impl Id20 {
    /// `true` when the two identifiers hold the same bytes.
    pub fn same_as(&self, other: &Id20) -> (same: bool)
        ensures
            same == (self@ == other@),
    {
        let mut i: usize = 0;
        while i < 20
            invariant
                0 <= i <= 20,
                forall|j: int| 0 <= j < i ==> self.0[j] == other.0[j],
            decreases 20 - i,
        {
            if self.0[i] != other.0[i] {
                return false;
            }
            i = i + 1;
        }
        assert(self@ =~= other@);
        true
    }

    /// The identifier as forty hexadecimal digits in lower case.
    pub fn as_string(&self) -> (s: String)
        ensures
            s@ == hex_of(self@),
    {
        let mut s = String::new();
        let mut i: usize = 0;
        while i < 20
            invariant
                0 <= i <= 20,
                s@ == hex_of(self@.subrange(0, i as int)),
            decreases 20 - i,
        {
            let b: u8 = self.0[i];
            let ghost before = s@;
            s.append(hex_digit_of(b / 16));
            s.append(hex_digit_of(b % 16));
            proof {
                let prefix = self@.subrange(0, i as int);
                let longer = self@.subrange(0, i + 1);
                assert forall|k: int| 0 <= k < 2 * (i + 1) implies s@[k] == hex_of(longer)[k] by {
                    if k < 2 * i {
                        assert(s@[k] == before[k]);
                        assert(prefix[k / 2] == longer[k / 2]);
                    } else {
                        assert(k / 2 == i);
                        assert(longer[i as int] == b);
                    }
                }
                assert(s@ =~= hex_of(longer));
            }
            i = i + 1;
        }
        assert(self@.subrange(0, 20) =~= self@);
        s
    }

    /// Reads an identifier from forty hexadecimal digits, in either case.
    pub fn from_str(s: &str) -> (r: Result<Id20, Id20Error>)
        ensures
            match r {
                Ok(id) => s@.len() == 40 && is_hex(s@) && id@ == unhex(s@),
                Err(Id20Error::WrongLength) => s@.len() != 40,
                Err(Id20Error::NotHex) => s@.len() == 40 && !is_hex(s@),
            },
    {
        if s.unicode_len() != 40 {
            return Err(Id20Error::WrongLength);
        }
        let mut out: [u8; 20] = [0u8; 20];
        let mut i: usize = 0;
        while i < 20
            invariant
                0 <= i <= 20,
                s@.len() == 40,
                forall|k: int| 0 <= k < 2 * i ==> (#[trigger] hex_value(s@[k])).is_some(),
                forall|j: int|
                    0 <= j < i ==> #[trigger] out[j] == (hex_value(s@[2 * j]).unwrap() * 16
                        + hex_value(s@[2 * j + 1]).unwrap()) as u8,
            decreases 20 - i,
        {
            let high: u8 = match hex_value_of(s.get_char(2 * i)) {
                Some(v) => v,
                None => {
                    return Err(Id20Error::NotHex);
                },
            };
            let low: u8 = match hex_value_of(s.get_char(2 * i + 1)) {
                Some(v) => v,
                None => {
                    return Err(Id20Error::NotHex);
                },
            };
            out[i] = high * 16 + low;
            i = i + 1;
        }
        let id = Id20(out);
        assert(id@ =~= unhex(s@));
        Ok(id)
    }
}

} // verus!
