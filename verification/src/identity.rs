//! User identities.

use vstd::prelude::*;
use candid::Principal;

verus! {

/// Whether the byte string `a` comes before `b` in lexicographic order: at the
/// first index where they differ `a` holds the smaller byte, or `a` is a
/// proper prefix of `b`.
pub open spec fn bytes_before(a: Seq<u8>, b: Seq<u8>) -> bool
    decreases a.len(),
{
    if b.len() == 0 {
        false
    } else if a.len() == 0 {
        true
    } else if a[0] != b[0] {
        a[0] < b[0]
    } else {
        bytes_before(a.skip(1), b.skip(1))
    }
}

/// The order of identities is a strict total order: nothing comes before
/// itself, the order is transitive, and of two different byte strings one
/// comes before the other. So a set of identities has one ascending order.
pub proof fn lemma_bytes_before_is_total_order(a: Seq<u8>, b: Seq<u8>, c: Seq<u8>)
    ensures
        !bytes_before(a, a),
        bytes_before(a, b) ==> !bytes_before(b, a),
        bytes_before(a, b) && bytes_before(b, c) ==> bytes_before(a, c),
        a != b ==> bytes_before(a, b) || bytes_before(b, a),
    decreases a.len(),
{
    if a.len() == 0 {
        if b.len() == 0 {
            assert(a =~= b);
        }
    } else {
        let rest_a = a.skip(1);
        lemma_bytes_before_is_total_order(rest_a, rest_a, rest_a);
        if b.len() > 0 {
            let rest_b = b.skip(1);
            let rest_c = if c.len() == 0 {
                c
            } else {
                c.skip(1)
            };
            lemma_bytes_before_is_total_order(rest_a, rest_b, rest_c);
            if a[0] == b[0] && rest_a == rest_b {
                assert(a =~= seq![a[0]] + rest_a);
                assert(b =~= seq![b[0]] + rest_b);
            }
        }
    }
}

/// The bytes of the principal that `text` is the textual form of, if it is
/// the textual form of one.
pub uninterp spec fn principal_of_text(text: Seq<char>) -> Option<Seq<u8>>;

/// `Principal::from_text`, then `Principal::as_slice`: the significant bytes
/// of the principal that `text` spells, or nothing where the text is refused.
#[verifier::external_body]
fn principal_bytes(text: &str) -> (bytes: Option<Vec<u8>>)
    ensures
        bytes is Some <==> principal_of_text(text@) is Some,
        bytes matches Some(b) ==> principal_of_text(text@) == Some(b@),
{
    match Principal::from_text(text) {
        Ok(principal) => Some(principal.as_slice().to_vec()),
        Err(_) => None,
    }
}

/// The opaque identity of a caller: the bytes of its principal.
///
/// Identities are equal when their bytes are equal, and are ordered as their
/// bytes are, lexicographically.
#[derive(Clone, Debug, PartialEq, Eq, PartialOrd, Ord, Hash)]
pub struct UserId {
    bytes: Vec<u8>,
}

impl View for UserId {
    type V = Seq<u8>;

    closed spec fn view(&self) -> Seq<u8> {
        self.bytes@
    }
}

impl UserId {
    pub fn new(bytes: Vec<u8>) -> (user: UserId)
        ensures
            user@ == bytes@,
    {
        UserId { bytes }
    }

    /// The identity whose principal `text` spells, if it spells one.
    pub fn from_text(text: &str) -> (user: Option<UserId>)
        ensures
            user is Some <==> principal_of_text(text@) is Some,
            user matches Some(u) ==> principal_of_text(text@) == Some(u@),
    {
        match principal_bytes(text) {
            Some(bytes) => Some(UserId::new(bytes)),
            None => None,
        }
    }

    pub fn as_bytes(&self) -> (bytes: &Vec<u8>)
        ensures
            bytes@ == self@,
    {
        &self.bytes
    }

    /// A second handle on the same identity.
    pub fn duplicate(&self) -> (user: UserId)
        ensures
            user@ == self@,
    {
        UserId { bytes: self.bytes.clone() }
    }

    /// Whether `self` comes before `other` in the order of identities.
    pub fn precedes(&self, other: &UserId) -> (before: bool)
        ensures
            before == bytes_before(self@, other@),
    {
        let n = self.bytes.len();
        let m = other.bytes.len();
        let mut i: usize = 0;
        assert(self.bytes@.skip(0) =~= self.bytes@ && other.bytes@.skip(0) =~= other.bytes@);
        while i < n && i < m
            invariant
                n == self.bytes@.len(),
                m == other.bytes@.len(),
                i <= n,
                i <= m,
                bytes_before(self.bytes@, other.bytes@) == bytes_before(
                    self.bytes@.skip(i as int),
                    other.bytes@.skip(i as int),
                ),
            decreases n - i,
        {
            let a = self.bytes[i];
            let b = other.bytes[i];
            if a != b {
                return a < b;
            }
            proof {
                let rest_a = self.bytes@.skip(i as int);
                let rest_b = other.bytes@.skip(i as int);
                assert(rest_a[0] == a && rest_b[0] == b);
                assert(rest_a.skip(1) =~= self.bytes@.skip(i + 1));
                assert(rest_b.skip(1) =~= other.bytes@.skip(i + 1));
            }
            i += 1;
        }
        i < m
    }

    /// Whether `self` and `other` are the same identity.
    pub fn same_as(&self, other: &UserId) -> (same: bool)
        ensures
            same == (self@ == other@),
    {
        let n = self.bytes.len();
        if n != other.bytes.len() {
            return false;
        }
        let mut i: usize = 0;
        while i < n
            invariant
                n == self.bytes.len(),
                n == other.bytes.len(),
                i <= n,
                forall|j: int| 0 <= j < i ==> self.bytes@[j] == other.bytes@[j],
            decreases n - i,
        {
            if self.bytes[i] != other.bytes[i] {
                return false;
            }
            i += 1;
        }
        assert(self.bytes@ =~= other.bytes@);
        true
    }
}

} // verus!
