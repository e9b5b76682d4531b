//! Positions, the loan-to-value policy, and the persisted record format.

use vstd::prelude::*;
use vstd::bytes::*;
use vstd::slice::*;

verus! {

/// A user's collateral and debt.
///
/// Both fields are value-denominated in the smallest unit of account: the
/// oracle price plays no part in comparing one with the other. A user without
/// a stored record holds the empty position.
#[derive(Clone, Copy, Debug, PartialEq, Eq, Structural)]
pub struct Position {
    pub collateral: u64,
    pub debt: u64,
}

impl Position {
    /// The position of a user who has deposited and borrowed nothing.
    pub open spec fn empty() -> Position {
        Position { collateral: 0, debt: 0 }
    }

    pub fn new(collateral: u64, debt: u64) -> (p: Position)
        ensures
            p == (Position { collateral, debt }),
    {
        Position { collateral, debt }
    }
}

impl Default for Position {
    fn default() -> (p: Position)
        ensures
            p == Position::empty(),
    {
        Position { collateral: 0, debt: 0 }
    }
}

/// The loan-to-value ratio `numerator / denominator`, at most one.
#[derive(Clone, Copy, Debug, PartialEq, Eq)]
pub struct LtvPolicy {
    numerator: u64,
    denominator: u64,
}

impl LtvPolicy {
    /// A ratio is usable when its denominator is positive and it does not
    /// exceed one.
    #[verifier::type_invariant]
    pub closed spec fn wf(self) -> bool {
        0 < self.denominator && self.numerator <= self.denominator
    }

    pub closed spec fn spec_numerator(&self) -> u64 {
        self.numerator
    }

    pub closed spec fn spec_denominator(&self) -> u64 {
        self.denominator
    }

    /// `floor(collateral * numerator / denominator)`.
    pub open spec fn spec_max_debt(&self, collateral: u64) -> int {
        (collateral as int * self.spec_numerator() as int) / (self.spec_denominator() as int)
    }

    /// Whether the debt of `p` is within what its collateral backs.
    pub open spec fn healthy(&self, p: Position) -> bool {
        p.debt as int <= self.spec_max_debt(p.collateral)
    }

    /// What a usable ratio is, in terms of its two parts.
    pub proof fn lemma_wf(self)
        requires
            self.wf(),
        ensures
            0 < self.spec_denominator(),
            self.spec_numerator() <= self.spec_denominator(),
    {
    }

    /// Builds the ratio `numerator / denominator`, or nothing when the
    /// denominator is zero or the ratio exceeds one.
    pub fn new(numerator: u64, denominator: u64) -> (policy: Option<LtvPolicy>)
        ensures
            policy is Some <==> 0 < denominator && numerator <= denominator,
            policy matches Some(p) ==> p.wf() && p.spec_numerator() == numerator
                && p.spec_denominator() == denominator,
    {
        if denominator == 0 || numerator > denominator {
            None
        } else {
            Some(LtvPolicy { numerator, denominator })
        }
    }

    #[verifier::when_used_as_spec(spec_numerator)]
    pub fn numerator(&self) -> (n: u64)
        ensures
            n == self.spec_numerator(),
    {
        self.numerator
    }

    #[verifier::when_used_as_spec(spec_denominator)]
    pub fn denominator(&self) -> (d: u64)
        ensures
            d == self.spec_denominator(),
    {
        self.denominator
    }

    /// The largest debt that `collateral` backs.
    pub fn max_debt(&self, collateral: u64) -> (limit: u64)
        ensures
            limit as int == self.spec_max_debt(collateral),
            limit <= collateral,
    {
        proof {
            use_type_invariant(self);
            lemma_max_debt_bounds(
                collateral as int,
                self.numerator as int,
                self.denominator as int,
            );
        }
        let product: u128 = (collateral as u128) * (self.numerator as u128);
        let limit: u128 = product / (self.denominator as u128);
        limit as u64
    }
}

/// The version byte that every record written by this library starts with.
pub const RECORD_VERSION: u8 = 1;

/// The length of a record: the version byte and two 64-bit amounts.
pub const RECORD_LEN: usize = 17;

/// Why the bytes of a persisted record are not a position.
#[derive(Clone, Copy, Debug, PartialEq, Eq, Structural)]
pub enum StorageError {
    /// The record is empty, or its length is not that of its version.
    WrongLength,
    /// The record starts with a version byte that is not known.
    UnknownVersion,
}

/// The persisted form of a position: the version byte, then the collateral
/// and the debt, each as eight little-endian bytes.
pub open spec fn encode_position(p: Position) -> Seq<u8> {
    seq![RECORD_VERSION] + spec_u64_to_le_bytes(p.collateral) + spec_u64_to_le_bytes(p.debt)
}

/// The position that a record holds. The version byte is read first, so that
/// a record of another version is told apart from a damaged one.
pub open spec fn decode_position(bytes: Seq<u8>) -> Result<Position, StorageError> {
    if bytes.len() == 0 {
        Err(StorageError::WrongLength)
    } else if bytes[0] != RECORD_VERSION {
        Err(StorageError::UnknownVersion)
    } else if bytes.len() != RECORD_LEN {
        Err(StorageError::WrongLength)
    } else {
        Ok(
            Position {
                collateral: spec_u64_from_le_bytes(bytes.subrange(1, 9)),
                debt: spec_u64_from_le_bytes(bytes.subrange(9, 17)),
            },
        )
    }
}

impl Position {
    /// Encodes the position for persistence.
    pub fn to_bytes(&self) -> (bytes: Vec<u8>)
        ensures
            bytes@ == encode_position(*self),
            bytes@.len() == RECORD_LEN,
    {
        let mut bytes: Vec<u8> = Vec::new();
        bytes.push(RECORD_VERSION);
        let mut collateral = u64_to_le_bytes(self.collateral);
        let mut debt = u64_to_le_bytes(self.debt);
        bytes.append(&mut collateral);
        bytes.append(&mut debt);
        assert(bytes@ =~= encode_position(*self));
        bytes
    }

    /// Decodes a persisted record.
    pub fn from_bytes(bytes: &[u8]) -> (decoded: Result<Position, StorageError>)
        ensures
            decoded == decode_position(bytes@),
    {
        if bytes.len() == 0 {
            return Err(StorageError::WrongLength);
        }
        if bytes[0] != RECORD_VERSION {
            return Err(StorageError::UnknownVersion);
        }
        if bytes.len() != RECORD_LEN {
            return Err(StorageError::WrongLength);
        }
        let collateral = u64_from_le_bytes(slice_subrange(bytes, 1, 9));
        let debt = u64_from_le_bytes(slice_subrange(bytes, 9, 17));
        Ok(Position { collateral, debt })
    }
}

/// Encoding then decoding gives the position back, whatever its two amounts.
pub proof fn lemma_decode_encode(p: Position)
    ensures
        decode_position(encode_position(p)) == Ok::<Position, StorageError>(p),
        encode_position(p).len() == RECORD_LEN,
{
    lemma_auto_spec_u64_to_from_le_bytes();
    let bytes = encode_position(p);
    assert(bytes.subrange(1, 9) =~= spec_u64_to_le_bytes(p.collateral));
    assert(bytes.subrange(9, 17) =~= spec_u64_to_le_bytes(p.debt));
}

/// A record that decodes is the encoding of what it decodes to: no two
/// records hold the same position.
pub proof fn lemma_encode_decode(bytes: Seq<u8>)
    requires
        decode_position(bytes) is Ok,
    ensures
        encode_position(decode_position(bytes)->Ok_0) == bytes,
{
    lemma_auto_spec_u64_to_from_le_bytes();
    let p = decode_position(bytes)->Ok_0;
    assert(spec_u64_to_le_bytes(p.collateral) == bytes.subrange(1, 9));
    assert(spec_u64_to_le_bytes(p.debt) == bytes.subrange(9, 17));
    assert(encode_position(p) =~= bytes);
}

/// A share `n / d` of `c`, with `n <= d`, lies between zero and `c`, and the
/// product `c * n` fits in 128 bits when both factors fit in 64.
pub proof fn lemma_max_debt_bounds(c: int, n: int, d: int)
    requires
        0 <= c,
        0 <= n <= d,
        0 < d,
    ensures
        0 <= (c * n) / d <= c,
        c <= u64::MAX && n <= u64::MAX ==> c * n <= u128::MAX,
{
    assert(0 <= c * n <= c * d) by (nonlinear_arith)
        requires
            0 <= c,
            0 <= n <= d,
    ;
    assert(0 <= (c * n) / d <= c) by (nonlinear_arith)
        requires
            0 <= c * n <= c * d,
            0 < d,
    ;
    assert(c <= u64::MAX && n <= u64::MAX ==> c * n <= u128::MAX) by (nonlinear_arith)
        requires
            0 <= c,
            0 <= n,
    ;
}

} // verus!
