//! Version numbers and their three-digit base-64 wire form.
use vstd::prelude::*;

use crate::errors::Error;

verus! {

/// The largest version number: three base-64 digits.
pub const MAX_VERSION_NUMBER: u32 = 262143;

/// The digit for value `d` (0 to 63): `0-9`, `A-Z`, `a-z`, `+`, `/`.
pub open spec fn digit_char(d: nat) -> u8 {
    if d < 10 {
        (48 + d) as u8
    } else if d < 36 {
        (65 + d - 10) as u8
    } else if d < 62 {
        (97 + d - 36) as u8
    } else if d == 62 {
        43u8
    } else {
        47u8
    }
}

/// The value of digit `c`, if `c` is one of the 64 digits.
pub open spec fn digit_value(c: u8) -> Option<nat> {
    if 48 <= c <= 57 {
        Some((c - 48) as nat)
    } else if 65 <= c <= 90 {
        Some((c - 65 + 10) as nat)
    } else if 97 <= c <= 122 {
        Some((c - 97 + 36) as nat)
    } else if c == 43 {
        Some(62nat)
    } else if c == 47 {
        Some(63nat)
    } else {
        None
    }
}

/// The three digits of `n`, most significant first.
pub open spec fn version_digits(n: nat) -> Seq<u8> {
    seq![digit_char((n / 4096) % 64), digit_char((n / 64) % 64), digit_char(n % 64)]
}

/// The number that `s` spells, if it is three digits.
pub open spec fn parse_version(s: Seq<u8>) -> Option<nat> {
    if s.len() == 3 && digit_value(s[0]) is Some && digit_value(s[1]) is Some && digit_value(
        s[2],
    ) is Some {
        Some(
            digit_value(s[0])->Some_0 * 4096 + digit_value(s[1])->Some_0 * 64 + digit_value(
                s[2],
            )->Some_0,
        )
    } else {
        None
    }
}

/// A version number, at most `MAX_VERSION_NUMBER`.
#[derive(Clone, Copy, Debug, PartialEq, Eq, Structural)]
pub struct Version(u32);

impl View for Version {
    type V = nat;

    closed spec fn view(&self) -> nat {
        self.0 as nat
    }
}

/// The digit for value `d`.
fn digit_of(d: u8) -> (r: u8)
    requires
        d < 64,
    ensures
        r == digit_char(d as nat),
{
    if d < 10 {
        48 + d
    } else if d < 36 {
        65 + d - 10
    } else if d < 62 {
        97 + d - 36
    } else if d == 62 {
        43
    } else {
        47
    }
}

/// The value of digit `c`.
fn value_of_digit(c: u8) -> (r: Option<u8>)
    ensures
        match digit_value(c) {
            Some(v) => r == Some(v as u8) && v < 64,
            None => r is None,
        },
{
    if 48 <= c && c <= 57 {
        Some(c - 48)
    } else if 65 <= c && c <= 90 {
        Some(c - 65 + 10)
    } else if 97 <= c && c <= 122 {
        Some(c - 97 + 36)
    } else if c == 43 {
        Some(62)
    } else if c == 47 {
        Some(63)
    } else {
        None
    }
}

impl Version {
    /// Every version is within bounds.
    #[verifier::type_invariant]
    pub open spec fn inv(self) -> bool {
        self@ <= MAX_VERSION_NUMBER
    }

    /// The version `number`, which must be within bounds.
    pub fn from(number: u32) -> (r: Version)
        requires
            number <= MAX_VERSION_NUMBER,
        ensures
            r@ == number,
    {
        Version(number)
    }

    /// The version `number`; fails where it is out of bounds.
    pub fn try_from(number: u32) -> (r: Result<Version, Error>)
        ensures
            number <= MAX_VERSION_NUMBER ==> (r matches Ok(v) && v@ == number),
            number > MAX_VERSION_NUMBER ==> r == Err::<Version, Error>(Error::VersionOutOfBounds),
    {
        if number <= MAX_VERSION_NUMBER {
            Ok(Version(number))
        } else {
            Err(Error::VersionOutOfBounds)
        }
    }

    /// The three digits of this version.
    pub fn as_bytes(self) -> (r: [u8; 3])
        ensures
            r@ == version_digits(self@),
    {
        proof {
            use_type_invariant(&self);
        }
        let n = self.0;
        let hi = ((n / 4096) % 64) as u8;
        let mid = ((n / 64) % 64) as u8;
        let lo = (n % 64) as u8;
        let r = [digit_of(hi), digit_of(mid), digit_of(lo)];
        assert(r@ =~= version_digits(self@));
        r
    }

    /// The number of this version.
    pub fn as_u32(self) -> (r: u32)
        ensures
            r == self@,
            r <= MAX_VERSION_NUMBER,
    {
        proof {
            use_type_invariant(&self);
        }
        self.0
    }

    /// Reads three digits; fails where the length is not three or a byte is no
    /// digit.
    pub fn parse(s: &[u8]) -> (r: Result<Version, Error>)
        ensures
            match parse_version(s@) {
                Some(n) => r matches Ok(v) && v@ == n,
                None => r == Err::<Version, Error>(Error::VersionFromStrError),
            },
    {
        if s.len() != 3 {
            return Err(Error::VersionFromStrError);
        }
        let hnds = value_of_digit(s[0]);
        let tens = value_of_digit(s[1]);
        let units = value_of_digit(s[2]);
        match (hnds, tens, units) {
            (Some(h), Some(t), Some(u)) => {
                let version = (h as u32) * 4096 + (t as u32) * 64 + (u as u32);
                if version > MAX_VERSION_NUMBER {
                    return Err(Error::VersionFromStrError);
                }
                Ok(Version(version))
            },
            _ => Err(Error::VersionFromStrError),
        }
    }
}

/// Reading the digits of a version gives back its number.
pub proof fn lemma_version_round_trip(n: nat)
    requires
        n <= MAX_VERSION_NUMBER,
    ensures
        parse_version(version_digits(n)) == Some(n),
{
    let a = (n / 4096) % 64;
    let b = (n / 64) % 64;
    let c = n % 64;
    assert(digit_value(digit_char(a)) == Some(a));
    assert(digit_value(digit_char(b)) == Some(b));
    assert(digit_value(digit_char(c)) == Some(c));
    assert(n / 4096 < 64);
    assert(n == a * 4096 + b * 64 + c) by (nonlinear_arith)
        requires
            n <= 262143,
            a == (n / 4096) % 64,
            b == (n / 64) % 64,
            c == n % 64,
            n / 4096 < 64,
    ;
}

} // verus!
