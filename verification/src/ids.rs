//! Strongly-typed ULID-based identifiers, so that ids of different kinds
//! cannot be mixed up. Each holds the 128-bit ULID value; new values, their
//! text form and its decoding come from the `ulid` crate.

use vstd::prelude::*;
use ulid::DecodeError;

verus! {

#[verifier::external_type_specification]
#[verifier::external_body]
pub struct ExDecodeError(ulid::DecodeError);

/// Character code of Crockford base-32 digit `d` (0 to 31): `0`-`9`, then
/// the capital letters without `I`, `L`, `O` and `U`.
pub open spec fn crockford_code(d: int) -> int {
    if d < 10 {
        48 + d
    } else {
        65 + (d - 10) + (if d >= 18 { 1int } else { 0 }) + (if d >= 20 { 1int } else { 0 }) + (if d
            >= 22 { 1int } else { 0 }) + (if d >= 27 { 1int } else { 0 })
    }
}

/// Value of a Crockford base-32 character, capital or small letter, if it
/// is one.
pub open spec fn crockford_digit(c: char) -> Option<int> {
    let x = c as int;
    let u = if 97 <= x <= 122 {
        x - 32
    } else {
        x
    };
    if 48 <= x <= 57 {
        Some(x - 48)
    } else if 65 <= u <= 90 && u != 73 && u != 76 && u != 79 && u != 85 {
        Some(
            10 + (u - 65) - (if u > 73 { 1int } else { 0 }) - (if u > 76 { 1int } else { 0 }) - (if u
                > 79 { 1int } else { 0 }) - (if u > 85 { 1int } else { 0 }),
        )
    } else {
        None
    }
}

/// The last `n` base-32 digits of `v`, most significant first.
pub open spec fn base32_text(v: nat, n: nat) -> Seq<char>
    decreases n,
{
    if n == 0 {
        Seq::empty()
    } else {
        base32_text(v / 32, (n - 1) as nat).push(crockford_code((v % 32) as int) as char)
    }
}

/// The number a text of base-32 digits spells, if every character is one.
pub open spec fn base32_value(s: Seq<char>) -> Option<nat>
    decreases s.len(),
{
    if s.len() == 0 {
        Some(0)
    } else {
        match (base32_value(s.drop_last()), crockford_digit(s.last())) {
            (Some(a), Some(d)) => Some(a * 32 + d as nat),
            _ => None,
        }
    }
}

/// The text `ulid::Ulid::to_string` gives for a value: its 26 base-32
/// digits (the first carries only the top three bits).
pub open spec fn ulid_text(value: u128) -> Seq<char> {
    base32_text(value as nat, 26)
}

/// The value `ulid::Ulid::from_string` decodes from a text: 26 base-32
/// characters, read as a number and kept to its low 128 bits.
pub open spec fn ulid_value(text: Seq<char>) -> Option<u128> {
    if text.len() == 26 {
        match base32_value(text) {
            Some(n) => Some((n % (u128::MAX as nat + 1)) as u128),
            None => None,
        }
    } else {
        None
    }
}

/// Each digit's character reads back as the digit.
proof fn lemma_crockford_roundtrip(d: int)
    requires
        0 <= d < 32,
    ensures
        crockford_digit(crockford_code(d) as char) == Some(d),
{
    assert((crockford_code(d) as char) as int == crockford_code(d));
}

/// Digits of a number below `32^n` read back as the number.
proof fn lemma_base32_roundtrip(v: nat, n: nat)
    requires
        v < vstd::arithmetic::power::pow(32, n),
    ensures
        base32_text(v, n).len() == n,
        base32_value(base32_text(v, n)) == Some(v),
    decreases n,
{
    reveal(vstd::arithmetic::power::pow);
    if n == 0 {
    } else {
        let q = v / 32;
        let d = v % 32;
        assert(q < vstd::arithmetic::power::pow(32, (n - 1) as nat)) by (nonlinear_arith)
            requires
                v < 32 * vstd::arithmetic::power::pow(32, (n - 1) as nat),
                q == v / 32,
        ;
        lemma_base32_roundtrip(q, (n - 1) as nat);
        lemma_crockford_roundtrip(d as int);
        let t = base32_text(v, n);
        assert(t.drop_last() =~= base32_text(q, (n - 1) as nat));
        assert(v == q * 32 + d) by (nonlinear_arith)
            requires
                q == v / 32,
                d == v % 32,
        ;
    }
}

/// The text of a ULID value is 26 characters that decode to the value.
pub proof fn lemma_ulid_roundtrip(v: u128)
    ensures
        ulid_text(v).len() == 26,
        ulid_value(ulid_text(v)) == Some(v),
{
    assert(vstd::arithmetic::power::pow(32, 26) == 4 * (u128::MAX as int + 1)) by {
        reveal_with_fuel(vstd::arithmetic::power::pow, 27);
    }
    lemma_base32_roundtrip(v as nat, 26);
}

/// A fresh ULID value (`ulid::Ulid::new`): the current time and random bits,
/// so nothing is stated of it.
#[verifier::external_body]
fn fresh_ulid() -> u128 {
    ulid::Ulid::new().0
}

/// `ulid::Ulid::to_string`: the value's 26 Crockford base-32 digits.
#[verifier::external_body]
fn encode_ulid(value: u128) -> (s: String)
    ensures
        s@ == ulid_text(value),
{
    ulid::Ulid(value).to_string()
}

/// `ulid::Ulid::from_string`.
#[verifier::external_body]
fn decode_ulid(text: &str) -> (r: Result<u128, DecodeError>)
    ensures
        r is Ok <==> ulid_value(text@) is Some,
        r is Ok ==> r->Ok_0 == ulid_value(text@)->0,
{
    match ulid::Ulid::from_string(text) {
        Ok(u) => Ok(u.0),
        Err(e) => Err(e),
    }
}

/// Identifier for a [`Job`](crate::job::Job).
#[derive(Debug, Clone, Copy, PartialEq, Eq, Hash, Structural)]
pub struct JobId(pub u128);

impl JobId {
    /// Generate a new random ID.
    pub fn new() -> Self {
        JobId(fresh_ulid())
    }

    /// Underlying ULID value.
    pub fn ulid(&self) -> (r: u128)
        ensures
            r == self.0,
    {
        self.0
    }

    /// Text form (26 Crockford base-32 characters); it parses back to `self`.
    pub fn to_text(&self) -> (s: String)
        ensures
            s@ == ulid_text(self.0),
            s@.len() == 26,
            ulid_value(s@) == Some(self.0),
    {
        proof {
            lemma_ulid_roundtrip(self.0);
        }
        encode_ulid(self.0)
    }

    /// Parse the text form.
    pub fn parse_text(s: &str) -> (r: Result<Self, DecodeError>)
        ensures
            r is Ok <==> ulid_value(s@) is Some,
            r is Ok ==> r->Ok_0.0 == ulid_value(s@)->0,
    {
        match decode_ulid(s) {
            Ok(u) => Ok(JobId(u)),
            Err(e) => Err(e),
        }
    }
}

impl Default for JobId {
    fn default() -> Self {
        Self::new()
    }
}

impl std::str::FromStr for JobId {
    type Err = DecodeError;

    fn from_str(s: &str) -> (r: Result<Self, Self::Err>)
        ensures
            r is Ok <==> ulid_value(s@) is Some,
            r is Ok ==> r->Ok_0.0 == ulid_value(s@)->0,
    {
        Self::parse_text(s)
    }
}

/// Identifier for a run.
#[derive(Debug, Clone, Copy, PartialEq, Eq, Hash, Structural)]
pub struct RunId(pub u128);

impl RunId {
    /// Generate a new random ID.
    pub fn new() -> Self {
        RunId(fresh_ulid())
    }

    /// Underlying ULID value.
    pub fn ulid(&self) -> (r: u128)
        ensures
            r == self.0,
    {
        self.0
    }

    /// Text form (26 Crockford base-32 characters); it parses back to `self`.
    pub fn to_text(&self) -> (s: String)
        ensures
            s@ == ulid_text(self.0),
            s@.len() == 26,
            ulid_value(s@) == Some(self.0),
    {
        proof {
            lemma_ulid_roundtrip(self.0);
        }
        encode_ulid(self.0)
    }

    /// Parse the text form.
    pub fn parse_text(s: &str) -> (r: Result<Self, DecodeError>)
        ensures
            r is Ok <==> ulid_value(s@) is Some,
            r is Ok ==> r->Ok_0.0 == ulid_value(s@)->0,
    {
        match decode_ulid(s) {
            Ok(u) => Ok(RunId(u)),
            Err(e) => Err(e),
        }
    }
}

impl Default for RunId {
    fn default() -> Self {
        Self::new()
    }
}

impl std::str::FromStr for RunId {
    type Err = DecodeError;

    fn from_str(s: &str) -> (r: Result<Self, Self::Err>)
        ensures
            r is Ok <==> ulid_value(s@) is Some,
            r is Ok ==> r->Ok_0.0 == ulid_value(s@)->0,
    {
        Self::parse_text(s)
    }
}

/// Identifier for a job [`JobBox`](crate::boxes::JobBox).
#[derive(Debug, Clone, Copy, PartialEq, Eq, Hash, Structural)]
pub struct BoxId(pub u128);

impl BoxId {
    /// Generate a new random ID.
    pub fn new() -> Self {
        BoxId(fresh_ulid())
    }

    /// Underlying ULID value.
    pub fn ulid(&self) -> (r: u128)
        ensures
            r == self.0,
    {
        self.0
    }

    /// Text form (26 Crockford base-32 characters); it parses back to `self`.
    pub fn to_text(&self) -> (s: String)
        ensures
            s@ == ulid_text(self.0),
            s@.len() == 26,
            ulid_value(s@) == Some(self.0),
    {
        proof {
            lemma_ulid_roundtrip(self.0);
        }
        encode_ulid(self.0)
    }

    /// Parse the text form.
    pub fn parse_text(s: &str) -> (r: Result<Self, DecodeError>)
        ensures
            r is Ok <==> ulid_value(s@) is Some,
            r is Ok ==> r->Ok_0.0 == ulid_value(s@)->0,
    {
        match decode_ulid(s) {
            Ok(u) => Ok(BoxId(u)),
            Err(e) => Err(e),
        }
    }
}

impl Default for BoxId {
    fn default() -> Self {
        Self::new()
    }
}

impl std::str::FromStr for BoxId {
    type Err = DecodeError;

    fn from_str(s: &str) -> (r: Result<Self, Self::Err>)
        ensures
            r is Ok <==> ulid_value(s@) is Some,
            r is Ok ==> r->Ok_0.0 == ulid_value(s@)->0,
    {
        Self::parse_text(s)
    }
}

/// Identifier for a [`Calendar`](crate::calendar::Calendar).
#[derive(Debug, Clone, Copy, PartialEq, Eq, Hash, Structural)]
pub struct CalendarId(pub u128);

impl CalendarId {
    /// Generate a new random ID.
    pub fn new() -> Self {
        CalendarId(fresh_ulid())
    }

    /// Underlying ULID value.
    pub fn ulid(&self) -> (r: u128)
        ensures
            r == self.0,
    {
        self.0
    }

    /// Text form (26 Crockford base-32 characters); it parses back to `self`.
    pub fn to_text(&self) -> (s: String)
        ensures
            s@ == ulid_text(self.0),
            s@.len() == 26,
            ulid_value(s@) == Some(self.0),
    {
        proof {
            lemma_ulid_roundtrip(self.0);
        }
        encode_ulid(self.0)
    }

    /// Parse the text form.
    pub fn parse_text(s: &str) -> (r: Result<Self, DecodeError>)
        ensures
            r is Ok <==> ulid_value(s@) is Some,
            r is Ok ==> r->Ok_0.0 == ulid_value(s@)->0,
    {
        match decode_ulid(s) {
            Ok(u) => Ok(CalendarId(u)),
            Err(e) => Err(e),
        }
    }
}

impl Default for CalendarId {
    fn default() -> Self {
        Self::new()
    }
}

impl std::str::FromStr for CalendarId {
    type Err = DecodeError;

    fn from_str(s: &str) -> (r: Result<Self, Self::Err>)
        ensures
            r is Ok <==> ulid_value(s@) is Some,
            r is Ok ==> r->Ok_0.0 == ulid_value(s@)->0,
    {
        Self::parse_text(s)
    }
}

/// Identifier for an agent.
#[derive(Debug, Clone, Copy, PartialEq, Eq, Hash, Structural)]
pub struct AgentId(pub u128);

impl AgentId {
    /// Generate a new random ID.
    pub fn new() -> Self {
        AgentId(fresh_ulid())
    }

    /// Underlying ULID value.
    pub fn ulid(&self) -> (r: u128)
        ensures
            r == self.0,
    {
        self.0
    }

    /// Text form (26 Crockford base-32 characters); it parses back to `self`.
    pub fn to_text(&self) -> (s: String)
        ensures
            s@ == ulid_text(self.0),
            s@.len() == 26,
            ulid_value(s@) == Some(self.0),
    {
        proof {
            lemma_ulid_roundtrip(self.0);
        }
        encode_ulid(self.0)
    }

    /// Parse the text form.
    pub fn parse_text(s: &str) -> (r: Result<Self, DecodeError>)
        ensures
            r is Ok <==> ulid_value(s@) is Some,
            r is Ok ==> r->Ok_0.0 == ulid_value(s@)->0,
    {
        match decode_ulid(s) {
            Ok(u) => Ok(AgentId(u)),
            Err(e) => Err(e),
        }
    }
}

impl Default for AgentId {
    fn default() -> Self {
        Self::new()
    }
}

impl std::str::FromStr for AgentId {
    type Err = DecodeError;

    fn from_str(s: &str) -> (r: Result<Self, Self::Err>)
        ensures
            r is Ok <==> ulid_value(s@) is Some,
            r is Ok ==> r->Ok_0.0 == ulid_value(s@)->0,
    {
        Self::parse_text(s)
    }
}

/// Identifier for a user.
#[derive(Debug, Clone, Copy, PartialEq, Eq, Hash, Structural)]
pub struct UserId(pub u128);

impl UserId {
    /// Generate a new random ID.
    pub fn new() -> Self {
        UserId(fresh_ulid())
    }

    /// Underlying ULID value.
    pub fn ulid(&self) -> (r: u128)
        ensures
            r == self.0,
    {
        self.0
    }

    /// Text form (26 Crockford base-32 characters); it parses back to `self`.
    pub fn to_text(&self) -> (s: String)
        ensures
            s@ == ulid_text(self.0),
            s@.len() == 26,
            ulid_value(s@) == Some(self.0),
    {
        proof {
            lemma_ulid_roundtrip(self.0);
        }
        encode_ulid(self.0)
    }

    /// Parse the text form.
    pub fn parse_text(s: &str) -> (r: Result<Self, DecodeError>)
        ensures
            r is Ok <==> ulid_value(s@) is Some,
            r is Ok ==> r->Ok_0.0 == ulid_value(s@)->0,
    {
        match decode_ulid(s) {
            Ok(u) => Ok(UserId(u)),
            Err(e) => Err(e),
        }
    }
}

impl Default for UserId {
    fn default() -> Self {
        Self::new()
    }
}

impl std::str::FromStr for UserId {
    type Err = DecodeError;

    fn from_str(s: &str) -> (r: Result<Self, Self::Err>)
        ensures
            r is Ok <==> ulid_value(s@) is Some,
            r is Ok ==> r->Ok_0.0 == ulid_value(s@)->0,
    {
        Self::parse_text(s)
    }
}

/// Identifier for an API key.
#[derive(Debug, Clone, Copy, PartialEq, Eq, Hash, Structural)]
pub struct ApiKeyId(pub u128);

impl ApiKeyId {
    /// Generate a new random ID.
    pub fn new() -> Self {
        ApiKeyId(fresh_ulid())
    }

    /// Underlying ULID value.
    pub fn ulid(&self) -> (r: u128)
        ensures
            r == self.0,
    {
        self.0
    }

    /// Text form (26 Crockford base-32 characters); it parses back to `self`.
    pub fn to_text(&self) -> (s: String)
        ensures
            s@ == ulid_text(self.0),
            s@.len() == 26,
            ulid_value(s@) == Some(self.0),
    {
        proof {
            lemma_ulid_roundtrip(self.0);
        }
        encode_ulid(self.0)
    }

    /// Parse the text form.
    pub fn parse_text(s: &str) -> (r: Result<Self, DecodeError>)
        ensures
            r is Ok <==> ulid_value(s@) is Some,
            r is Ok ==> r->Ok_0.0 == ulid_value(s@)->0,
    {
        match decode_ulid(s) {
            Ok(u) => Ok(ApiKeyId(u)),
            Err(e) => Err(e),
        }
    }
}

impl Default for ApiKeyId {
    fn default() -> Self {
        Self::new()
    }
}

impl std::str::FromStr for ApiKeyId {
    type Err = DecodeError;

    fn from_str(s: &str) -> (r: Result<Self, Self::Err>)
        ensures
            r is Ok <==> ulid_value(s@) is Some,
            r is Ok ==> r->Ok_0.0 == ulid_value(s@)->0,
    {
        Self::parse_text(s)
    }
}

/// Identifier for a [`Resource`](crate::resource::Resource).
#[derive(Debug, Clone, Copy, PartialEq, Eq, Hash, Structural)]
pub struct ResourceId(pub u128);

impl ResourceId {
    /// Generate a new random ID.
    pub fn new() -> Self {
        ResourceId(fresh_ulid())
    }

    /// Underlying ULID value.
    pub fn ulid(&self) -> (r: u128)
        ensures
            r == self.0,
    {
        self.0
    }

    /// Text form (26 Crockford base-32 characters); it parses back to `self`.
    pub fn to_text(&self) -> (s: String)
        ensures
            s@ == ulid_text(self.0),
            s@.len() == 26,
            ulid_value(s@) == Some(self.0),
    {
        proof {
            lemma_ulid_roundtrip(self.0);
        }
        encode_ulid(self.0)
    }

    /// Parse the text form.
    pub fn parse_text(s: &str) -> (r: Result<Self, DecodeError>)
        ensures
            r is Ok <==> ulid_value(s@) is Some,
            r is Ok ==> r->Ok_0.0 == ulid_value(s@)->0,
    {
        match decode_ulid(s) {
            Ok(u) => Ok(ResourceId(u)),
            Err(e) => Err(e),
        }
    }
}

impl Default for ResourceId {
    fn default() -> Self {
        Self::new()
    }
}

impl std::str::FromStr for ResourceId {
    type Err = DecodeError;

    fn from_str(s: &str) -> (r: Result<Self, Self::Err>)
        ensures
            r is Ok <==> ulid_value(s@) is Some,
            r is Ok ==> r->Ok_0.0 == ulid_value(s@)->0,
    {
        Self::parse_text(s)
    }
}

} // verus!
