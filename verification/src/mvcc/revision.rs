//! Revisions of the key-value space.
use vstd::prelude::*;

verus! {

/// The byte length of a revision in its stored form: the main revision in
/// eight big-endian bytes, a `_`, and the sub revision in eight big-endian
/// bytes.
pub const REV_BYTES_LEN: usize = 8 + 1 + 8;

/// A modification of the key-value space. The changes that share a main
/// revision change the space atomically; each of them has its own,
/// increasing, sub revision.
#[derive(Debug, Clone, Copy, PartialEq, Eq, Structural)]
pub struct Revision {
    pub main: i64,
    pub sub: i64,
}

/// Whether `a` comes after `b`: by main revision, then by sub revision.
pub open spec fn later(a: Revision, b: Revision) -> bool {
    a.main > b.main || (a.main == b.main && a.sub > b.sub)
}

/// Revisions are strictly and totally ordered by `greater_than`: no
/// revision comes after itself, of two distinct revisions exactly one comes
/// after the other, and the order is transitive.
pub proof fn lemma_revision_order(a: Revision, b: Revision, c: Revision)
    ensures
        !later(a, a),
        a != b ==> (later(a, b) != later(b, a)),
        a == b ==> !later(a, b),
        later(a, b) && later(b, c) ==> later(a, c),
{
}

impl Revision {
    /// Whether this revision comes after `b`: by main revision, then by sub
    /// revision.
    pub fn greater_than(&self, b: &Revision) -> (r: bool)
        ensures
            r == later(*self, *b),
    {
        if self.main > b.main {
            return true;
        }
        if self.main < b.main {
            return false;
        }
        return self.sub > b.sub;
    }
}

} // verus!
