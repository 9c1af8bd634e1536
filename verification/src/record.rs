//! One fetched note and its structural equality.

use vstd::prelude::*;

verus! {

/// Number of bytes in a public key and in a record identifier.
pub const KEY_LEN: usize = 32;

/// One fetched note. The author key and the identifier are held as raw bytes,
/// so that two spellings of the same key compare equal.
#[derive(Debug, Clone)]
pub struct Record {
    pub content: String,
    pub pubkey: Vec<u8>,
    /// Seconds since the epoch.
    pub created_at: u64,
    pub sig: String,
    pub tags: Vec<Vec<String>>,
    pub id: Vec<u8>,
}

/// The mathematical value of a [`Record`].
pub struct RecordView {
    pub content: Seq<char>,
    pub pubkey: Seq<u8>,
    pub created_at: int,
    pub sig: Seq<char>,
    pub tags: Seq<Seq<Seq<char>>>,
    pub id: Seq<u8>,
}

impl View for Record {
    type V = RecordView;

    open spec fn view(&self) -> RecordView {
        RecordView {
            content: self.content@,
            pubkey: self.pubkey@,
            created_at: self.created_at as int,
            sig: self.sig@,
            tags: self.tags.deep_view(),
            id: self.id@,
        }
    }
}

/// The values of a sequence of records, in order.
pub open spec fn views(records: Seq<Record>) -> Seq<RecordView> {
    records.map_values(|r: Record| r@)
}

/// Whether two byte strings hold the same bytes.
pub fn bytes_equal(a: &Vec<u8>, b: &Vec<u8>) -> (r: bool)
    ensures
        r == (a@ == b@),
{
    if a.len() != b.len() {
        return false;
    }
    let mut i: usize = 0;
    while i < a.len()
        invariant
            a.len() == b.len(),
            i <= a.len(),
            forall|j: int| 0 <= j < i ==> a@[j] == b@[j],
        decreases a.len() - i,
    {
        if a[i] != b[i] {
            return false;
        }
        i += 1;
    }
    proof {
        assert(a@ =~= b@);
    }
    true
}

/// Whether two tag entries hold the same strings in the same order.
pub fn entry_equal(a: &Vec<String>, b: &Vec<String>) -> (r: bool)
    ensures
        r == (a.deep_view() == b.deep_view()),
{
    if a.len() != b.len() {
        proof {
            assert(a.deep_view().len() != b.deep_view().len());
        }
        return false;
    }
    let mut i: usize = 0;
    while i < a.len()
        invariant
            a.len() == b.len(),
            i <= a.len(),
            forall|j: int| 0 <= j < i ==> a@[j]@ == b@[j]@,
        decreases a.len() - i,
    {
        if !(a[i] == b[i]) {
            proof {
                assert(a.deep_view()[i as int] != b.deep_view()[i as int]);
            }
            return false;
        }
        i += 1;
    }
    proof {
        assert(a.deep_view() =~= b.deep_view());
    }
    true
}

/// Whether two tag lists hold the same entries in the same order.
pub fn tags_equal(a: &Vec<Vec<String>>, b: &Vec<Vec<String>>) -> (r: bool)
    ensures
        r == (a.deep_view() == b.deep_view()),
{
    if a.len() != b.len() {
        proof {
            assert(a.deep_view().len() != b.deep_view().len());
        }
        return false;
    }
    let mut i: usize = 0;
    while i < a.len()
        invariant
            a.len() == b.len(),
            i <= a.len(),
            forall|j: int| 0 <= j < i ==> a@[j].deep_view() == b@[j].deep_view(),
        decreases a.len() - i,
    {
        if !entry_equal(&a[i], &b[i]) {
            proof {
                assert(a.deep_view()[i as int] != b.deep_view()[i as int]);
            }
            return false;
        }
        i += 1;
    }
    proof {
        assert(a.deep_view() =~= b.deep_view());
    }
    true
}

impl Record {
    /// A record is well formed when its key and its identifier have the fixed length.
    pub open spec fn wf(&self) -> bool {
        self.pubkey@.len() == KEY_LEN && self.id@.len() == KEY_LEN
    }

    /// Structural equality: every field is equal, bit for bit.
    pub fn same(&self, other: &Record) -> (r: bool)
        ensures
            r == (self@ == other@),
    {
        self.created_at == other.created_at && self.content == other.content && self.sig
            == other.sig && bytes_equal(&self.id, &other.id) && bytes_equal(
            &self.pubkey,
            &other.pubkey,
        ) && tags_equal(&self.tags, &other.tags)
    }
}

} // verus!
