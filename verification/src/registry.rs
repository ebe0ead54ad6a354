use crate::icd::Endpoint;
use vstd::prelude::*;

verus! {

/// The discipline under which an endpoint's handler runs.
#[derive(Debug, Clone, Copy, PartialEq, Eq, Structural)]
pub enum HandlerKind {
    /// Runs to its end before the next frame is looked at, and never suspends.
    Blocking,
    /// May suspend, and still holds up the next frame until it is done.
    InlineAsync,
    /// Runs in one of `pool_size` slots of its own while further frames are
    /// served.
    Pooled { pool_size: u8 },
}

/// One row of the registry: the key that selects the endpoint, how its handler
/// runs, and which handler that is.
#[derive(Debug, Clone, PartialEq, Eq)]
pub struct DispatchEntry {
    pub key_prefix: Vec<u8>,
    pub handler_kind: HandlerKind,
    pub handler_ref: Endpoint,
}

/// A row of the registry with its key as a sequence.
pub struct EntryView {
    pub key_prefix: Seq<u8>,
    pub handler_kind: HandlerKind,
    pub handler_ref: Endpoint,
}

impl View for DispatchEntry {
    type V = EntryView;

    open spec fn view(&self) -> EntryView {
        EntryView {
            key_prefix: self.key_prefix@,
            handler_kind: self.handler_kind,
            handler_ref: self.handler_ref,
        }
    }
}

/// The rows of a table, each by its view.
pub open spec fn views(table: Seq<DispatchEntry>) -> Seq<EntryView> {
    Seq::new(table.len(), |i: int| table[i]@)
}

/// Every key has at least `len` bytes, and no two keys begin with the same
/// `len` bytes.
pub open spec fn distinct_at(entries: Seq<EntryView>, len: nat) -> bool {
    &&& forall|i: int| 0 <= i < entries.len() ==> len <= (#[trigger] entries[i]).key_prefix.len()
    &&& forall|i: int, j: int|
        0 <= i < j < entries.len() ==> (#[trigger] entries[i]).key_prefix.subrange(0, len as int)
            != (#[trigger] entries[j]).key_prefix.subrange(0, len as int)
}

/// `len` is the least number of leading key bytes, and at least one, by which
/// all keys can be told apart.
pub open spec fn is_min_key_len(entries: Seq<EntryView>, len: nat) -> bool {
    &&& 1 <= len
    &&& distinct_at(entries, len)
    &&& forall|shorter: nat| 1 <= shorter < len ==> !distinct_at(entries, shorter)
}

/// The row with its key cut down to its first `len` bytes.
pub open spec fn truncated(entry: EntryView, len: nat) -> EntryView {
    EntryView { key_prefix: entry.key_prefix.subrange(0, len as int), ..entry }
}

/// A frame's key selects a row when it begins with that row's key.
pub open spec fn selects(key: Seq<u8>, entry: EntryView) -> bool {
    &&& entry.key_prefix.len() <= key.len()
    &&& key.subrange(0, entry.key_prefix.len() as int) == entry.key_prefix
}

/// Index of the first row at or after `start` that `key` selects.
pub open spec fn resolve_from(entries: Seq<EntryView>, key: Seq<u8>, start: int) -> Option<int>
    decreases entries.len() - start,
{
    if start < 0 || start >= entries.len() {
        None
    } else if selects(key, entries[start]) {
        Some(start)
    } else {
        resolve_from(entries, key, start + 1)
    }
}

/// The endpoint registry as a value: its rows and the key length they are
/// compared by.
pub struct RegistryView {
    pub entries: Seq<EntryView>,
    pub min_key_len: nat,
}

impl RegistryView {
    /// Every row's key has the minimum key length, which is at least one, and
    /// no two rows have the same key.
    pub open spec fn wf(self) -> bool {
        &&& 1 <= self.min_key_len
        &&& forall|i: int|
            0 <= i < self.entries.len() ==> (#[trigger] self.entries[i]).key_prefix.len()
                == self.min_key_len
        &&& forall|i: int, j: int|
            0 <= i < j < self.entries.len() ==> (#[trigger] self.entries[i]).key_prefix != (
            #[trigger] self.entries[j]).key_prefix
    }

    /// Index of the row that `key` selects, if there is one.
    pub open spec fn resolve(self, key: Seq<u8>) -> Option<int> {
        resolve_from(self.entries, key, 0)
    }
}

proof fn lemma_resolve_from(entries: Seq<EntryView>, key: Seq<u8>, start: int)
    requires
        0 <= start,
    ensures
        match resolve_from(entries, key, start) {
            Some(i) => {
                &&& start <= i < entries.len()
                &&& selects(key, entries[i])
                &&& forall|j: int| start <= j < i ==> !selects(key, entries[j])
            },
            None => forall|j: int| start <= j < entries.len() ==> !selects(key, entries[j]),
        },
    decreases entries.len() - start,
{
    if start < entries.len() && !selects(key, entries[start]) {
        lemma_resolve_from(entries, key, start + 1);
    }
}

/// A key resolves to a row that it selects, and to none exactly when it
/// selects no row. In a well-formed registry a key selects one row at most, so
/// the row it resolves to is the only one it could mean; and a key shorter than
/// the minimum key length selects nothing.
pub proof fn lemma_resolve(registry: RegistryView, key: Seq<u8>)
    requires
        registry.wf(),
    ensures
        match registry.resolve(key) {
            Some(i) => {
                &&& 0 <= i < registry.entries.len()
                &&& selects(key, registry.entries[i])
                &&& forall|j: int|
                    0 <= j < registry.entries.len() && j != i ==> !selects(
                        key,
                        registry.entries[j],
                    )
            },
            None => forall|j: int|
                0 <= j < registry.entries.len() ==> !selects(key, registry.entries[j]),
        },
        key.len() < registry.min_key_len ==> registry.resolve(key) is None,
{
    lemma_resolve_from(registry.entries, key, 0);
    match registry.resolve(key) {
        Some(i) => {
            assert forall|j: int| 0 <= j < registry.entries.len() && j != i implies !selects(
                key,
                registry.entries[j],
            ) by {
                if selects(key, registry.entries[j]) {
                    assert(registry.entries[i].key_prefix == registry.entries[j].key_prefix);
                }
            }
        },
        None => {},
    }
}

/// The static table of endpoints, fixed once it is built.
#[derive(Debug, PartialEq, Eq)]
pub struct EndpointRegistry {
    entries: Vec<DispatchEntry>,
    min_key_len: usize,
}

impl View for EndpointRegistry {
    type V = RegistryView;

    closed spec fn view(&self) -> RegistryView {
        RegistryView { entries: views(self.entries@), min_key_len: self.min_key_len as nat }
    }
}

/// Whether two keys begin with the same `len` bytes.
fn same_prefix(a: &Vec<u8>, b: &Vec<u8>, len: usize) -> (same: bool)
    requires
        len <= a@.len(),
        len <= b@.len(),
    ensures
        same == (a@.subrange(0, len as int) == b@.subrange(0, len as int)),
{
    let mut k: usize = 0;
    while k < len
        invariant
            k <= len,
            len <= a@.len(),
            len <= b@.len(),
            forall|x: int| 0 <= x < k ==> a@[x] == b@[x],
        decreases len - k,
    {
        if a[k] != b[k] {
            assert(a@.subrange(0, len as int)[k as int] != b@.subrange(0, len as int)[k as int]);
            return false;
        }
        k += 1;
    }
    assert(a@.subrange(0, len as int) =~= b@.subrange(0, len as int));
    true
}

/// Whether no two keys of the table begin with the same `len` bytes.
fn all_distinct(table: &Vec<DispatchEntry>, len: usize) -> (distinct: bool)
    requires
        forall|i: int| 0 <= i < table@.len() ==> len <= (#[trigger] table@[i]).key_prefix@.len(),
    ensures
        distinct == distinct_at(views(table@), len as nat),
{
    let n: usize = table.len();
    let ghost entries = views(table@);
    let mut j: usize = 0;
    while j < n
        invariant
            j <= n,
            n == table@.len(),
            entries == views(table@),
            forall|i: int| 0 <= i < table@.len() ==> len <= (#[trigger] table@[i]).key_prefix@.len(),
            forall|a: int, b: int|
                0 <= a < b < j ==> (#[trigger] entries[a]).key_prefix.subrange(0, len as int) != (
                #[trigger] entries[b]).key_prefix.subrange(0, len as int),
        decreases n - j,
    {
        let mut i: usize = 0;
        while i < j
            invariant
                i <= j,
                j < n,
                n == table@.len(),
                entries == views(table@),
                forall|i: int|
                    0 <= i < table@.len() ==> len <= (#[trigger] table@[i]).key_prefix@.len(),
                forall|a: int|
                    0 <= a < i ==> (#[trigger] entries[a]).key_prefix.subrange(0, len as int)
                        != entries[j as int].key_prefix.subrange(0, len as int),
            decreases j - i,
        {
            if same_prefix(&table[i].key_prefix, &table[j].key_prefix, len) {
                assert(entries[i as int].key_prefix.subrange(0, len as int) == entries[j as int].key_prefix.subrange(
                    0,
                    len as int,
                ));
                return false;
            }
            i += 1;
        }
        j += 1;
    }
    assert forall|i: int| 0 <= i < entries.len() implies len <= (
    #[trigger] entries[i]).key_prefix.len() by {
        assert(len <= table@[i].key_prefix@.len());
    }
    true
}

/// Length of the shortest key of a table that has a row.
fn shortest_key(table: &Vec<DispatchEntry>) -> (shortest: usize)
    requires
        table@.len() > 0,
    ensures
        forall|i: int| 0 <= i < table@.len() ==> shortest <= (#[trigger] table@[i]).key_prefix@.len(),
        exists|i: int| 0 <= i < table@.len() && shortest == (#[trigger] table@[i]).key_prefix@.len(),
{
    let n: usize = table.len();
    let mut shortest: usize = table[0].key_prefix.len();
    let ghost mut at: int = 0;
    let mut i: usize = 1;
    while i < n
        invariant
            1 <= i <= n,
            n == table@.len(),
            0 <= at < i,
            shortest == table@[at].key_prefix@.len(),
            forall|k: int| 0 <= k < i ==> shortest <= (#[trigger] table@[k]).key_prefix@.len(),
        decreases n - i,
    {
        if table[i].key_prefix.len() < shortest {
            shortest = table[i].key_prefix.len();
            proof {
                at = i as int;
            }
        }
        i += 1;
    }
    shortest
}

/// The rows of the table with their keys cut down to `len` bytes.
fn truncate_all(table: &Vec<DispatchEntry>, len: usize) -> (cut: Vec<DispatchEntry>)
    requires
        forall|i: int| 0 <= i < table@.len() ==> len <= (#[trigger] table@[i]).key_prefix@.len(),
    ensures
        views(cut@) == Seq::new(table@.len(), |i: int| truncated(table@[i]@, len as nat)),
{
    let n: usize = table.len();
    let mut cut: Vec<DispatchEntry> = Vec::new();
    let mut i: usize = 0;
    while i < n
        invariant
            i <= n,
            n == table@.len(),
            cut@.len() == i,
            forall|k: int| 0 <= k < table@.len() ==> len <= (#[trigger] table@[k]).key_prefix@.len(),
            forall|k: int| 0 <= k < i ==> (#[trigger] cut@[k])@ == truncated(table@[k]@, len as nat),
        decreases n - i,
    {
        let row = &table[i];
        let mut key: Vec<u8> = Vec::new();
        let mut b: usize = 0;
        while b < len
            invariant
                b <= len,
                len <= row.key_prefix@.len(),
                key@ == row.key_prefix@.subrange(0, b as int),
            decreases len - b,
        {
            key.push(row.key_prefix[b]);
            b += 1;
            assert(key@ =~= row.key_prefix@.subrange(0, b as int));
        }
        cut.push(
            DispatchEntry {
                key_prefix: key,
                handler_kind: row.handler_kind,
                handler_ref: row.handler_ref,
            },
        );
        i += 1;
    }
    assert(views(cut@) =~= Seq::new(table@.len(), |i: int| truncated(table@[i]@, len as nat)));
    cut
}

impl EndpointRegistry {
    #[verifier::type_invariant]
    spec fn inv(self) -> bool {
        self@.wf()
    }

    /// Builds the registry from the table of endpoints, each row given with
    /// its full key. The minimum key length is the least number of leading
    /// bytes, one or more, that tells all keys apart; rows are kept in the
    /// table's order, with their keys cut down to that length. There is no
    /// registry where no such length exists: where a key is empty, or where
    /// two keys agree over the whole length of the shortest key.
    pub fn new(table: Vec<DispatchEntry>) -> (made: Option<EndpointRegistry>)
        ensures
            made is Some <==> exists|len: nat| 1 <= len && distinct_at(views(table@), len),
            made matches Some(r) ==> {
                &&& is_min_key_len(views(table@), r@.min_key_len)
                &&& r@.entries == Seq::new(
                    table@.len(),
                    |i: int| truncated(table@[i]@, r@.min_key_len),
                )
                &&& r@.wf()
            },
    {
        let n: usize = table.len();
        let ghost entries = views(table@);
        if n == 0 {
            let r = EndpointRegistry { entries: table, min_key_len: 1 };
            proof {
                assert(distinct_at(entries, 1));
                assert(r@.entries =~= Seq::new(0, |i: int| truncated(table@[i]@, 1)));
            }
            return Some(r);
        }
        let shortest: usize = shortest_key(&table);
        let mut len: usize = 0;
        while len < shortest
            invariant
                len <= shortest,
                n == table@.len(),
                n > 0,
                entries == views(table@),
                forall|i: int|
                    0 <= i < table@.len() ==> shortest <= (#[trigger] table@[i]).key_prefix@.len(),
                forall|l: nat| 1 <= l <= len ==> !distinct_at(entries, l),
            decreases shortest - len,
        {
            len += 1;
            if all_distinct(&table, len) {
                let cut = truncate_all(&table, len);
                proof {
                    let made = views(cut@);
                    assert forall|i: int, j: int| 0 <= i < j < made.len() implies (
                    #[trigger] made[i]).key_prefix != (#[trigger] made[j]).key_prefix by {
                        assert(entries[i].key_prefix.subrange(0, len as int) != entries[j].key_prefix.subrange(
                            0,
                            len as int,
                        ));
                    }
                    assert forall|i: int| 0 <= i < made.len() implies (
                    #[trigger] made[i]).key_prefix.len() == len by {
                        assert(len <= entries[i].key_prefix.len());
                    }
                }
                let r = EndpointRegistry { entries: cut, min_key_len: len };
                return Some(r);
            }
        }
        proof {
            let at = choose|i: int|
                0 <= i < table@.len() && shortest == (#[trigger] table@[i]).key_prefix@.len();
            assert forall|l: nat| 1 <= l implies !distinct_at(entries, l) by {
                if l > shortest {
                    assert(entries[at].key_prefix.len() < l);
                }
            }
        }
        None
    }

    /// The number of leading key bytes by which rows are told apart.
    pub fn min_key_len(&self) -> (len: usize)
        ensures
            len == self@.min_key_len,
            self@.wf(),
    {
        proof {
            use_type_invariant(self);
        }
        self.min_key_len
    }

    /// Number of rows.
    pub fn len(&self) -> (n: usize)
        ensures
            n == self@.entries.len(),
            self@.wf(),
    {
        proof {
            use_type_invariant(self);
        }
        self.entries.len()
    }

    /// The row at `index`.
    pub fn entry(&self, index: usize) -> (row: &DispatchEntry)
        requires
            index < self@.entries.len(),
        ensures
            row@ == self@.entries[index as int],
    {
        &self.entries[index]
    }

    /// Index of the row that the key of a frame selects: the row whose key the
    /// frame's key begins with.
    pub fn lookup(&self, frame_key: &Vec<u8>) -> (found: Option<usize>)
        ensures
            match found {
                Some(i) => i < self@.entries.len() && self@.resolve(frame_key@) == Some(i as int),
                None => self@.resolve(frame_key@) is None,
            },
            self@.wf(),
    {
        proof {
            use_type_invariant(self);
        }
        let n: usize = self.entries.len();
        let ghost entries = views(self.entries@);
        let mut i: usize = 0;
        while i < n
            invariant
                i <= n,
                n == self.entries@.len(),
                entries == views(self.entries@),
                self@.wf(),
                resolve_from(entries, frame_key@, 0) == resolve_from(entries, frame_key@, i as int),
            decreases n - i,
        {
            let key = &self.entries[i].key_prefix;
            if key.len() <= frame_key.len() && same_prefix(frame_key, key, key.len()) {
                assert(key@.subrange(0, key@.len() as int) =~= key@);
                assert(selects(frame_key@, entries[i as int]));
                return Some(i);
            }
            proof {
                if key@.len() <= frame_key@.len() {
                    assert(key@.subrange(0, key@.len() as int) =~= key@);
                }
                assert(!selects(frame_key@, entries[i as int]));
            }
            i += 1;
        }
        None
    }

    /// The row that the key of a frame selects, or nothing for a key that no
    /// endpoint answers to.
    pub fn resolve(&self, frame_key: &Vec<u8>) -> (found: Option<&DispatchEntry>)
        ensures
            match self@.resolve(frame_key@) {
                Some(i) => found matches Some(row) && row@ == self@.entries[i],
                None => found is None,
            },
            self@.wf(),
    {
        match self.lookup(frame_key) {
            Some(i) => {
                assert(views(self.entries@)[i as int] == self.entries@[i as int]@);
                Some(&self.entries[i])
            },
            None => None,
        }
    }
}

} // verus!
