use vstd::prelude::*;

use crate::bytes::{
    bytes_less, lemma_lex_irreflexive, lemma_lex_total, lemma_lex_transitive,
    lemma_text_bytes_injective, lex_less, text_bytes,
};

verus! {

/// The tenant and owner that a record belongs to.
#[derive(Clone, Debug, PartialEq, Eq)]
pub struct OwnerRef {
    pub tenant_id: String,
    pub owner_id: String,
}

impl OwnerRef {
    pub fn new(tenant_id: String, owner_id: String) -> (owner: Self)
        ensures
            owner.tenant_id == tenant_id,
            owner.owner_id == owner_id,
    {
        OwnerRef { tenant_id, owner_id }
    }

    pub fn duplicate(&self) -> (copy: Self)
        ensures
            copy == *self,
    {
        OwnerRef { tenant_id: self.tenant_id.clone(), owner_id: self.owner_id.clone() }
    }

    /// Whether both name the same owner.
    pub fn same_as(&self, other: &OwnerRef) -> (same: bool)
        ensures
            same == (self.tenant_id@ == other.tenant_id@ && self.owner_id@ == other.owner_id@),
    {
        self.tenant_id == other.tenant_id && self.owner_id == other.owner_id
    }
}

/// One exact version of an immutable object.
#[derive(Clone, Debug, PartialEq, Eq)]
pub struct VersionRef {
    pub id: String,
    pub version: u64,
}

impl View for VersionRef {
    type V = (Seq<char>, u64);

    open spec fn view(&self) -> (Seq<char>, u64) {
        (self.id@, self.version)
    }
}

/// The order of version references: by identifier bytes, then by version.
pub open spec fn version_ref_less(a: (Seq<char>, u64), b: (Seq<char>, u64)) -> bool {
    lex_less(text_bytes(a.0), text_bytes(b.0)) || (a.0 == b.0 && a.1 < b.1)
}

impl VersionRef {
    pub fn new(id: String, version: u64) -> (reference: Self)
        ensures
            reference.id == id,
            reference.version == version,
    {
        VersionRef { id, version }
    }

    pub fn duplicate(&self) -> (copy: Self)
        ensures
            copy == *self,
    {
        VersionRef { id: self.id.clone(), version: self.version }
    }

    /// Whether both name the same version of the same object.
    pub fn same_as(&self, other: &VersionRef) -> (same: bool)
        ensures
            same == (self@ == other@),
    {
        self.version == other.version && self.id == other.id
    }
}

/// The order of version references is a strict total order.
pub proof fn lemma_version_ref_order(a: (Seq<char>, u64), b: (Seq<char>, u64), c: (Seq<char>, u64))
    ensures
        !version_ref_less(a, a),
        version_ref_less(a, b) && version_ref_less(b, c) ==> version_ref_less(a, c),
        a != b ==> version_ref_less(a, b) || version_ref_less(b, a),
        version_ref_less(a, b) ==> !version_ref_less(b, a),
{
    lemma_lex_irreflexive(text_bytes(a.0));
    if version_ref_less(a, b) && version_ref_less(b, c) {
        if lex_less(text_bytes(a.0), text_bytes(b.0)) && lex_less(text_bytes(b.0), text_bytes(c.0)) {
            lemma_lex_transitive(text_bytes(a.0), text_bytes(b.0), text_bytes(c.0));
        }
    }
    if a != b {
        if text_bytes(a.0) != text_bytes(b.0) {
            lemma_lex_total(text_bytes(a.0), text_bytes(b.0));
        } else {
            lemma_text_bytes_injective(a.0, b.0);
        }
    }
    if version_ref_less(a, b) && version_ref_less(b, a) {
        if lex_less(text_bytes(a.0), text_bytes(b.0)) && lex_less(text_bytes(b.0), text_bytes(a.0)) {
            lemma_lex_transitive(text_bytes(a.0), text_bytes(b.0), text_bytes(a.0));
        }
    }
}

/// Whether `a` orders strictly before `b`.
pub fn version_ref_lt(a: &VersionRef, b: &VersionRef) -> (less: bool)
    ensures
        less == version_ref_less(a@, b@),
{
    bytes_less(a.id.as_str().as_bytes(), b.id.as_str().as_bytes()) || (a.id == b.id && a.version
        < b.version)
}

/// A lineage reference: an object, optionally pinned to a version and a content hash.
#[derive(Clone, Debug, PartialEq, Eq)]
pub struct LineageRef {
    pub object_id: String,
    pub version: Option<u64>,
    pub content_hash: Option<Vec<u8>>,
}

impl LineageRef {
    pub fn new(object_id: String, version: Option<u64>, content_hash: Option<Vec<u8>>) -> (reference:
        Self)
        ensures
            reference.object_id == object_id,
            reference.version == version,
            reference.content_hash == content_hash,
    {
        LineageRef { object_id, version, content_hash }
    }

    pub fn duplicate(&self) -> (copy: Self)
        ensures
            copy.object_id == self.object_id,
            copy.version == self.version,
            copy.content_hash.is_some() == self.content_hash.is_some(),
            copy.content_hash is Some ==> copy.content_hash->0@ == self.content_hash->0@,
    {
        let content_hash = match &self.content_hash {
            Some(hash) => Some(hash.clone()),
            None => None,
        };
        LineageRef { object_id: self.object_id.clone(), version: self.version, content_hash }
    }
}

/// A point in time: whole seconds since the Unix epoch and the nanoseconds past them, ordered
/// as `chrono` orders instants.
#[derive(Clone, Copy, Debug, PartialEq, Eq, Structural)]
pub struct Instant {
    pub seconds: i64,
    pub nanos: u32,
}

/// `a` is strictly earlier than `b`.
pub open spec fn instant_less(a: Instant, b: Instant) -> bool {
    a.seconds < b.seconds || (a.seconds == b.seconds && a.nanos < b.nanos)
}

/// Whether `a` is strictly earlier than `b`.
pub fn instant_before(a: Instant, b: Instant) -> (earlier: bool)
    ensures
        earlier == instant_less(a, b),
{
    a.seconds < b.seconds || (a.seconds == b.seconds && a.nanos < b.nanos)
}

/// A calendar date in a market's local time.
#[derive(Clone, Copy, Debug, PartialEq, Eq, Structural)]
pub struct LocalDate {
    pub year: i32,
    pub month: u32,
    pub day: u32,
}

/// An instant together with the market time zone and local trading date it was taken in.
#[derive(Clone, Debug, PartialEq, Eq)]
pub struct MarketTime {
    pub instant: Instant,
    pub market_timezone: String,
    pub local_trading_date: LocalDate,
}

impl MarketTime {
    /// An owned copy.
    pub fn duplicate(&self) -> (copy: Self)
        ensures
            copy == *self,
    {
        MarketTime {
            instant: self.instant,
            market_timezone: self.market_timezone.clone(),
            local_trading_date: self.local_trading_date,
        }
    }
}

} // verus!
