//! Clipboard entries of two devices side by side: which of two versions is newer,
//! what one could bring to the other, and in which order they stand.

use vstd::hash_map::StringHashMap;
use vstd::prelude::*;
use vstd::string::*;

use crate::domain;
use crate::text::{str_eq, str_less};

verus! {

/// The number of entries or labels on a page.
pub const PAGE_LIMIT: usize = 100;

/// True when one stamp comes before another: stamps are ordered by their number,
/// and by their text where the number is the same.
pub open spec fn stamp_less(a: int, a_text: Seq<char>, b: int, b_text: Seq<char>) -> bool {
    a < b || (a == b && crate::text::text_less(a_text, b_text))
}

/// No stamp comes before itself, no two come before each other, and two of which
/// neither comes before the other are the same.
pub proof fn lemma_stamp_less(a: int, a_text: Seq<char>, b: int, b_text: Seq<char>)
    ensures
        !stamp_less(a, a_text, a, a_text),
        !(stamp_less(a, a_text, b, b_text) && stamp_less(b, b_text, a, a_text)),
        !stamp_less(a, a_text, b, b_text) && !stamp_less(b, b_text, a, a_text) ==> a == b && a_text
            == b_text,
{
    crate::text::lemma_text_less_irreflexive(a_text);
    crate::text::lemma_text_less_total(a_text, b_text);
    if crate::text::text_less(a_text, b_text) && crate::text::text_less(b_text, a_text) {
        crate::text::lemma_text_less_transitive(a_text, b_text, a_text);
    }
}

/// A stamp that does not come before another, which does not come before a third,
/// does not come before the third.
pub proof fn lemma_not_less_transitive(
    a: int,
    a_text: Seq<char>,
    b: int,
    b_text: Seq<char>,
    c: int,
    c_text: Seq<char>,
)
    requires
        !stamp_less(a, a_text, b, b_text),
        !stamp_less(b, b_text, c, c_text),
    ensures
        !stamp_less(a, a_text, c, c_text),
{
    if stamp_less(a, a_text, c, c_text) {
        crate::text::lemma_text_less_total(b_text, c_text);
        crate::text::lemma_text_less_total(a_text, b_text);
        if a == c {
            if b_text != c_text {
                crate::text::lemma_text_less_transitive(a_text, c_text, b_text);
            }
        }
    }
}

/// True when one version comes before another: versions are ordered by their
/// revision, and by the device that made them where the revision is the same.
pub open spec fn older(a: u64, a_device: Seq<char>, b: u64, b_device: Seq<char>) -> bool {
    stamp_less(a as int, a_device, b as int, b_device)
}

fn is_older(a: u64, a_device: &str, b: u64, b_device: &str) -> (r: bool)
    ensures
        r == older(a, a_device@, b, b_device@),
{
    a < b || (a == b && str_less(a_device, b_device))
}

/// True when the labels of an entry include one with a version that is not older
/// than a given one.
pub open spec fn has_membership(
    list: Seq<domain::ClipboardLabelMembership>,
    m: domain::ClipboardLabelMembership,
) -> bool {
    exists|i: int|
        0 <= i < list.len() && (#[trigger] list[i]).label_id@ == m.label_id@ && !older(
            list[i].revision,
            list[i].updated_by_device_id@,
            m.revision,
            m.updated_by_device_id@,
        )
}

/// True when an entry has all that another one could bring: its content, its
/// mark as a favorite and each of its labels are at least as new, and so is the
/// history of its copies.
pub open spec fn covered(
    current: domain::ClipboardReplicaRecord,
    incoming: domain::ClipboardReplicaRecord,
) -> bool {
    let (a, b) = (current.record, incoming.record);
    &&& !older(a.revision, a.updated_by_device_id@, b.revision, b.updated_by_device_id@)
    &&& !older(
        a.favorite_revision,
        a.favorite_updated_by_device_id@,
        b.favorite_revision,
        b.favorite_updated_by_device_id@,
    )
    &&& a.captured_at_ms >= b.captured_at_ms
    &&& current.first_captured_at_ms <= incoming.first_captured_at_ms
    &&& current.copy_count >= incoming.copy_count
    &&& forall|i: int|
        0 <= i < b.label_memberships@.len() ==> has_membership(
            a.label_memberships@,
            #[trigger] b.label_memberships@[i],
        )
}

fn holds_membership(
    list: &Vec<domain::ClipboardLabelMembership>,
    m: &domain::ClipboardLabelMembership,
) -> (r: bool)
    ensures
        r == has_membership(list@, *m),
{
    let mut i: usize = 0;
    while i < list.len()
        invariant
            i <= list@.len(),
            forall|k: int|
                0 <= k < i ==> !((#[trigger] list@[k]).label_id@ == m.label_id@ && !older(
                    list@[k].revision,
                    list@[k].updated_by_device_id@,
                    m.revision,
                    m.updated_by_device_id@,
                )),
        decreases list@.len() - i,
    {
        if str_eq(list[i].label_id.as_str(), m.label_id.as_str()) && !is_older(
            list[i].revision,
            list[i].updated_by_device_id.as_str(),
            m.revision,
            m.updated_by_device_id.as_str(),
        ) {
            return true;
        }
        i += 1;
    }
    false
}

/// Tells whether an entry has all that another one could bring.
pub fn covers(
    current: &domain::ClipboardReplicaRecord,
    incoming: &domain::ClipboardReplicaRecord,
) -> (r: bool)
    ensures
        r == covered(*current, *incoming),
{
    let a = &current.record;
    let b = &incoming.record;
    if is_older(
        a.revision,
        a.updated_by_device_id.as_str(),
        b.revision,
        b.updated_by_device_id.as_str(),
    ) || is_older(
        a.favorite_revision,
        a.favorite_updated_by_device_id.as_str(),
        b.favorite_revision,
        b.favorite_updated_by_device_id.as_str(),
    ) || a.captured_at_ms < b.captured_at_ms || current.first_captured_at_ms
        > incoming.first_captured_at_ms || current.copy_count < incoming.copy_count {
        return false;
    }
    let mut i: usize = 0;
    while i < b.label_memberships.len()
        invariant
            i <= b.label_memberships@.len(),
            a == current.record,
            b == incoming.record,
            forall|k: int|
                0 <= k < i ==> has_membership(
                    a.label_memberships@,
                    #[trigger] b.label_memberships@[k],
                ),
        decreases b.label_memberships@.len() - i,
    {
        if !holds_membership(&a.label_memberships, &b.label_memberships[i]) {
            return false;
        }
        i += 1;
    }
    true
}

/// An entry has all that it could bring itself.
pub proof fn lemma_covers_itself(a: domain::ClipboardReplicaRecord)
    ensures
        covered(a, a),
{
    let r = a.record;
    lemma_stamp_less(
        r.revision as int,
        r.updated_by_device_id@,
        r.revision as int,
        r.updated_by_device_id@,
    );
    lemma_stamp_less(
        r.favorite_revision as int,
        r.favorite_updated_by_device_id@,
        r.favorite_revision as int,
        r.favorite_updated_by_device_id@,
    );
    assert forall|i: int| 0 <= i < r.label_memberships@.len() implies has_membership(
        r.label_memberships@,
        #[trigger] r.label_memberships@[i],
    ) by {
        let m = r.label_memberships@[i];
        lemma_stamp_less(
        m.revision as int,
        m.updated_by_device_id@,
        m.revision as int,
        m.updated_by_device_id@,
    );
    }
}

/// What has all that a second entry could bring, which has all that a third
/// could bring, has all that the third could bring.
pub proof fn lemma_covers_transitive(
    a: domain::ClipboardReplicaRecord,
    b: domain::ClipboardReplicaRecord,
    c: domain::ClipboardReplicaRecord,
)
    requires
        covered(a, b),
        covered(b, c),
    ensures
        covered(a, c),
{
    let (x, y, z) = (a.record, b.record, c.record);
    lemma_not_less_transitive(
        x.revision as int,
        x.updated_by_device_id@,
        y.revision as int,
        y.updated_by_device_id@,
        z.revision as int,
        z.updated_by_device_id@,
    );
    lemma_not_less_transitive(
        x.favorite_revision as int,
        x.favorite_updated_by_device_id@,
        y.favorite_revision as int,
        y.favorite_updated_by_device_id@,
        z.favorite_revision as int,
        z.favorite_updated_by_device_id@,
    );
    assert forall|i: int| 0 <= i < z.label_memberships@.len() implies has_membership(
        x.label_memberships@,
        #[trigger] z.label_memberships@[i],
    ) by {
        let m = z.label_memberships@[i];
        assert(has_membership(y.label_memberships@, m));
        let j = choose|j: int|
            0 <= j < y.label_memberships@.len() && (#[trigger] y.label_memberships@[j]).label_id@
                == m.label_id@ && !older(
                y.label_memberships@[j].revision,
                y.label_memberships@[j].updated_by_device_id@,
                m.revision,
                m.updated_by_device_id@,
            );
        let n = y.label_memberships@[j];
        assert(has_membership(x.label_memberships@, n));
        let k = choose|k: int|
            0 <= k < x.label_memberships@.len() && (#[trigger] x.label_memberships@[k]).label_id@
                == n.label_id@ && !older(
                x.label_memberships@[k].revision,
                x.label_memberships@[k].updated_by_device_id@,
                n.revision,
                n.updated_by_device_id@,
            );
        let o = x.label_memberships@[k];
        lemma_not_less_transitive(
        o.revision as int,
        o.updated_by_device_id@,
        n.revision as int,
        n.updated_by_device_id@,
        m.revision as int,
        m.updated_by_device_id@,
    );
    }
}

/// Two entries that have all that the other could bring are at the same version,
/// in their content, as favorites and in the history of their copies.
pub proof fn lemma_mutual_cover(
    a: domain::ClipboardReplicaRecord,
    b: domain::ClipboardReplicaRecord,
)
    requires
        covered(a, b),
        covered(b, a),
    ensures
        a.record.revision == b.record.revision,
        a.record.updated_by_device_id@ == b.record.updated_by_device_id@,
        a.record.favorite_revision == b.record.favorite_revision,
        a.record.favorite_updated_by_device_id@ == b.record.favorite_updated_by_device_id@,
        a.record.captured_at_ms == b.record.captured_at_ms,
        a.first_captured_at_ms == b.first_captured_at_ms,
        a.copy_count == b.copy_count,
{
    let (x, y) = (a.record, b.record);
    lemma_stamp_less(
        x.revision as int,
        x.updated_by_device_id@,
        y.revision as int,
        y.updated_by_device_id@,
    );
    lemma_stamp_less(
        x.favorite_revision as int,
        x.favorite_updated_by_device_id@,
        y.favorite_revision as int,
        y.favorite_updated_by_device_id@,
    );
}

/// True when the content of an entry has to be brought to a device that has
/// `current` of it.
pub open spec fn payload_needed(
    current: Option<domain::ClipboardReplicaRecord>,
    incoming: domain::ClipboardReplicaRecord,
) -> bool {
    &&& !incoming.record.deleted
    &&& current is None || older(
        current->0.record.revision,
        current->0.record.updated_by_device_id@,
        incoming.record.revision,
        incoming.record.updated_by_device_id@,
    )
}

/// What a reference points at, if there is one.
pub open spec fn pointed<T>(reference: Option<&T>) -> Option<T> {
    match reference {
        Some(value) => Some(*value),
        None => None,
    }
}

/// Tells whether the content of an entry has to be brought.
pub fn needs_payload(
    current: Option<&domain::ClipboardReplicaRecord>,
    incoming: &domain::ClipboardReplicaRecord,
) -> (r: bool)
    ensures
        r == payload_needed(pointed(current), *incoming),
{
    !incoming.record.deleted && match current {
        None => true,
        Some(current) => is_older(
            current.record.revision,
            current.record.updated_by_device_id.as_str(),
            incoming.record.revision,
            incoming.record.updated_by_device_id.as_str(),
        ),
    }
}

/// Of an entry that brings nothing new no content is brought.
pub proof fn lemma_covered_needs_no_payload(
    current: domain::ClipboardReplicaRecord,
    incoming: domain::ClipboardReplicaRecord,
)
    requires
        covered(current, incoming),
    ensures
        !payload_needed(Some(current), incoming),
{
}

/// True when one of the entries has this identifier.
pub open spec fn listed(records: Seq<domain::ClipboardReplicaRecord>, id: Seq<char>) -> bool {
    exists|i: int| 0 <= i < records.len() && (#[trigger] records[i]).record.sync_id@ == id
}

/// Where the entry with this identifier stands.
pub open spec fn place(records: Seq<domain::ClipboardReplicaRecord>, id: Seq<char>) -> int {
    choose|i: int| 0 <= i < records.len() && (#[trigger] records[i]).record.sync_id@ == id
}

/// True when no two entries have one identifier.
pub open spec fn distinct_records(records: Seq<domain::ClipboardReplicaRecord>) -> bool {
    forall|i: int, j: int|
        0 <= i < records.len() && 0 <= j < records.len() && i != j ==> (
        #[trigger] records[i]).record.sync_id@ != (#[trigger] records[j]).record.sync_id@
}

/// The entry with this identifier, if there is one.
pub open spec fn lookup(records: Seq<domain::ClipboardReplicaRecord>, id: Seq<char>) -> Option<
    domain::ClipboardReplicaRecord,
> {
    if listed(records, id) {
        Some(records[place(records, id)])
    } else {
        None
    }
}

/// The entries with one more, which replaces the one with the same identifier.
pub open spec fn with_record(
    records: Seq<domain::ClipboardReplicaRecord>,
    record: domain::ClipboardReplicaRecord,
) -> Seq<domain::ClipboardReplicaRecord> {
    let id = record.record.sync_id@;
    if listed(records, id) {
        records.update(place(records, id), record)
    } else {
        records.push(record)
    }
}

proof fn lemma_place(records: Seq<domain::ClipboardReplicaRecord>, i: int)
    requires
        distinct_records(records),
        0 <= i < records.len(),
    ensures
        listed(records, records[i].record.sync_id@),
        place(records, records[i].record.sync_id@) == i,
{
    let id = records[i].record.sync_id@;
    let j = place(records, id);
    assert(records[i].record.sync_id@ == id);
    assert(0 <= j < records.len() && records[j].record.sync_id@ == id);
}

/// An entry that was added is found under its identifier, and every other one is
/// found as before.
pub proof fn lemma_lookup_after_insert(
    records: Seq<domain::ClipboardReplicaRecord>,
    record: domain::ClipboardReplicaRecord,
    id: Seq<char>,
)
    requires
        distinct_records(records),
    ensures
        distinct_records(with_record(records, record)),
        lookup(with_record(records, record), id) == if id == record.record.sync_id@ {
            Some(record)
        } else {
            lookup(records, id)
        },
{
    let new_id = record.record.sync_id@;
    let after = with_record(records, record);
    let at = if listed(records, new_id) {
        place(records, new_id)
    } else {
        records.len() as int
    };
    assert(after[at] == record);
    assert forall|i: int| 0 <= i < after.len() && i != at implies (
    #[trigger] after[i]).record.sync_id@ != new_id && after[i] == records[i] by {
        if listed(records, new_id) {
            assert(records[at].record.sync_id@ == new_id);
            assert(records[i].record.sync_id@ != records[at].record.sync_id@);
        } else {
            assert(records[i].record.sync_id@ != new_id);
        }
    }
    assert forall|i: int, j: int|
        0 <= i < after.len() && 0 <= j < after.len() && i != j implies (
    #[trigger] after[i]).record.sync_id@ != (#[trigger] after[j]).record.sync_id@ by {
        if i != at && j != at {
            assert(after[i] == records[i] && after[j] == records[j]);
        }
    }
    lemma_place(after, at);
    if id != new_id {
        if listed(records, id) {
            let k = place(records, id);
            assert(records[k].record.sync_id@ == id);
            if k == at {
                assert(listed(records, new_id));
            }
            assert(after[k] == records[k]);
            lemma_place(after, k);
        }
        if listed(after, id) {
            let k = place(after, id);
            assert(after[k].record.sync_id@ == id);
            assert(after[k] == records[k]);
            lemma_place(records, k);
        }
    }
}

/// The entries that a device has, each under its identifier.
pub struct Manifest {
    index: StringHashMap<usize>,
    records: Vec<domain::ClipboardReplicaRecord>,
}

impl Manifest {
    /// The entries, in the order in which they were first seen.
    pub closed spec fn view(&self) -> Seq<domain::ClipboardReplicaRecord> {
        self.records@
    }

    /// What holds of every manifest: no two entries have one identifier.
    pub closed spec fn wf(&self) -> bool {
        &&& distinct_records(self.records@)
        &&& forall|id: Seq<char>| #[trigger]
            self.index@.contains_key(id) <==> listed(self.records@, id)
        &&& forall|id: Seq<char>| #[trigger]
            self.index@.contains_key(id) ==> self.index@[id] == place(self.records@, id)
    }

    /// What is known of every manifest.
    pub proof fn lemma_distinct(&self)
        requires
            self.wf(),
        ensures
            distinct_records(self@),
    {
    }

    /// A manifest without entries.
    pub fn new() -> (r: Manifest)
        ensures
            r.wf(),
            r@ == Seq::<domain::ClipboardReplicaRecord>::empty(),
    {
        Manifest { index: StringHashMap::new(), records: Vec::new() }
    }

    /// The number of entries.
    pub fn len(&self) -> (r: usize)
        ensures
            r == self@.len(),
    {
        self.records.len()
    }

    /// The entry with an identifier.
    pub fn get(&self, id: &str) -> (r: Option<&domain::ClipboardReplicaRecord>)
        requires
            self.wf(),
        ensures
            pointed(r) == lookup(self@, id@),
    {
        match self.index.get(id) {
            Some(i) => {
                let i: usize = *i;
                assert(listed(self.records@, id@));
                Some(&self.records[i])
            },
            None => None,
        }
    }

    /// Adds an entry; it replaces the one with the same identifier.
    pub fn insert(&mut self, record: domain::ClipboardReplicaRecord)
        requires
            old(self).wf(),
        ensures
            final(self).wf(),
            final(self)@ == with_record(old(self)@, record),
    {
        let ghost before = self.records@;
        let ghost id = record.record.sync_id@;
        proof {
            lemma_lookup_after_insert(before, record, id);
        }
        let found: Option<usize> = match self.index.get(record.record.sync_id.as_str()) {
            Some(i) => Some(*i),
            None => None,
        };
        match found {
            Some(i) => {
                assert(listed(before, id));
                self.records.set(i, record);
                proof {
                    let after = self.records@;
                    assert(after =~= before.update(i as int, record));
                    assert forall|other: Seq<char>| #[trigger]
                        self.index@.contains_key(other) implies listed(after, other)
                        && self.index@[other] == place(after, other) by {
                        lemma_lookup_after_insert(before, record, other);
                        let k = place(before, other);
                        assert(listed(before, other));
                        assert(before[k].record.sync_id@ == other);
                        assert(after[k].record.sync_id@ == other);
                        lemma_place(after, k);
                    }
                    assert forall|other: Seq<char>| listed(after, other) implies #[trigger]
                    self.index@.contains_key(other) by {
                        let k = place(after, other);
                        assert(after[k].record.sync_id@ == other);
                        if k != i {
                            assert(before[k].record.sync_id@ == other);
                        }
                    }
                }
            },
            None => {
                let at: usize = self.records.len();
                let key = record.record.sync_id.clone();
                self.index.insert(key, at);
                self.records.push(record);
                proof {
                    let after = self.records@;
                    assert(after[at as int] == record);
                    assert forall|other: Seq<char>| #[trigger]
                        self.index@.contains_key(other) implies listed(after, other)
                        && self.index@[other] == place(after, other) by {
                        if other == id {
                            lemma_place(after, at as int);
                        } else {
                            let k = place(before, other);
                            assert(listed(before, other));
                            assert(before[k].record.sync_id@ == other);
                            assert(after[k] == before[k]);
                            lemma_place(after, k);
                        }
                    }
                    assert forall|other: Seq<char>| listed(after, other) implies #[trigger]
                    self.index@.contains_key(other) by {
                        let k = place(after, other);
                        assert(after[k].record.sync_id@ == other);
                        if k < before.len() {
                            assert(before[k].record.sync_id@ == other);
                        }
                    }
                }
            },
        }
    }

    /// The entry at a place, from zero on.
    pub fn at(&self, i: usize) -> (r: &domain::ClipboardReplicaRecord)
        requires
            i < self@.len(),
        ensures
            *r == self@[i as int],
    {
        &self.records[i]
    }
}

/// True when one entry was copied after another; of two that were copied at the
/// same time, the one whose identifier comes later counts as the later one.
pub open spec fn newer(
    a: domain::ClipboardReplicaRecord,
    b: domain::ClipboardReplicaRecord,
) -> bool {
    stamp_less(
        b.record.captured_at_ms as int,
        b.record.sync_id@,
        a.record.captured_at_ms as int,
        a.record.sync_id@,
    )
}

fn is_newer(a: &domain::ClipboardReplicaRecord, b: &domain::ClipboardReplicaRecord) -> (r: bool)
    ensures
        r == newer(*a, *b),
{
    b.record.captured_at_ms < a.record.captured_at_ms || (b.record.captured_at_ms
        == a.record.captured_at_ms && str_less(
        b.record.sync_id.as_str(),
        a.record.sync_id.as_str(),
    ))
}

/// True when `order` lists every place of `records` once, from the newest entry
/// to the oldest.
pub open spec fn newest_first(
    order: Seq<usize>,
    records: Seq<domain::ClipboardReplicaRecord>,
) -> bool {
    &&& order.len() == records.len()
    &&& lists_newest_first(order, records)
}

/// True when `order` lists places of `records`, none twice, from the newest entry
/// to the oldest.
pub open spec fn lists_newest_first(
    order: Seq<usize>,
    records: Seq<domain::ClipboardReplicaRecord>,
) -> bool {
    &&& forall|i: int| 0 <= i < order.len() ==> (#[trigger] order[i]) < records.len()
    &&& forall|i: int, j: int|
        0 <= i < j < order.len() ==> #[trigger] order[i] != #[trigger] order[j] && !newer(
            records[order[j] as int],
            records[order[i] as int],
        )
}

fn place_for(
    order: &Vec<usize>,
    records: &Vec<domain::ClipboardReplicaRecord>,
    record: &domain::ClipboardReplicaRecord,
) -> (r: usize)
    requires
        lists_newest_first(order@, records@),
    ensures
        r <= order@.len(),
        forall|k: int|
            0 <= k < r ==> !newer(*record, #[trigger] records@[order@[k] as int]),
        forall|k: int|
            r <= k < order@.len() ==> newer(*record, #[trigger] records@[order@[k] as int]),
{
    let mut low: usize = 0;
    let mut high: usize = order.len();
    while low < high
        invariant
            low <= high <= order@.len(),
            lists_newest_first(order@, records@),
            forall|k: int|
                0 <= k < low ==> !newer(*record, #[trigger] records@[order@[k] as int]),
            forall|k: int|
                high <= k < order@.len() ==> newer(*record, #[trigger] records@[order@[k] as int]),
        decreases high - low,
    {
        let middle: usize = low + (high - low) / 2;
        let ghost other = records@[order@[middle as int] as int];
        if is_newer(record, &records[order[middle]]) {
            assert forall|k: int| middle <= k < order@.len() implies newer(
                *record,
                #[trigger] records@[order@[k] as int],
            ) by {
                let next = records@[order@[k] as int];
                if middle < k {
                    assert(order@[middle as int] != order@[k]);
                    lemma_stamp_order(*record, other, next);
                }
            }
            high = middle;
        } else {
            assert forall|k: int| 0 <= k <= middle implies !newer(
                *record,
                #[trigger] records@[order@[k] as int],
            ) by {
                let earlier = records@[order@[k] as int];
                if k < middle {
                    assert(order@[k] != order@[middle as int]);
                    lemma_not_less_transitive(
                        earlier.record.captured_at_ms as int,
                        earlier.record.sync_id@,
                        other.record.captured_at_ms as int,
                        other.record.sync_id@,
                        record.record.captured_at_ms as int,
                        record.record.sync_id@,
                    );
                }
            }
            low = middle + 1;
        }
    }
    low
}

proof fn lemma_stamp_order(
    a: domain::ClipboardReplicaRecord,
    b: domain::ClipboardReplicaRecord,
    c: domain::ClipboardReplicaRecord,
)
    requires
        newer(a, b),
        !newer(c, b),
    ensures
        newer(a, c),
{
    if !newer(a, c) {
        lemma_not_less_transitive(
            b.record.captured_at_ms as int,
            b.record.sync_id@,
            c.record.captured_at_ms as int,
            c.record.sync_id@,
            a.record.captured_at_ms as int,
            a.record.sync_id@,
        );
    }
}

/// Orders entries from the newest to the oldest.
pub fn order_newest_first(records: &Vec<domain::ClipboardReplicaRecord>) -> (r: Vec<usize>)
    ensures
        newest_first(r@, records@),
{
    let mut order: Vec<usize> = Vec::new();
    let mut i: usize = 0;
    while i < records.len()
        invariant
            i <= records@.len(),
            order@.len() == i,
            lists_newest_first(order@, records@),
            forall|k: int| 0 <= k < order@.len() ==> (#[trigger] order@[k]) < i,
        decreases records@.len() - i,
    {
        let at: usize = place_for(&order, records, &records[i]);
        let ghost before = order@;
        order.insert(at, i);
        proof {
            let after = order@;
            assert(after =~= before.insert(at as int, i));
            assert forall|j: int, k: int|
                0 <= j < k < after.len() implies #[trigger] after[j] != #[trigger] after[k]
                && !newer(records@[after[k] as int], records@[after[j] as int]) by {
                let x = records@[i as int];
                let p = if j < at {
                    j
                } else {
                    j - 1
                };
                let q = if k < at {
                    k
                } else {
                    k - 1
                };
                if j == at {
                    assert(after[k] == before[q]);
                    let y = records@[before[q] as int];
                    lemma_stamp_less(
                        y.record.captured_at_ms as int,
                        y.record.sync_id@,
                        x.record.captured_at_ms as int,
                        x.record.sync_id@,
                    );
                } else if k == at {
                    assert(after[j] == before[p]);
                } else {
                    assert(after[j] == before[p]);
                    assert(after[k] == before[q]);
                    assert(before[p] != before[q]);
                }
            }
        }
        i += 1;
    }
    order
}

/// The number of entries that are not deleted.
pub open spec fn count_present(records: Seq<domain::ClipboardReplicaRecord>) -> nat
    decreases records.len(),
{
    if records.len() == 0 {
        0
    } else {
        count_present(records.drop_last()) + if records.last().record.deleted {
            0nat
        } else {
            1nat
        }
    }
}

impl Manifest {
    /// The number of entries that are not deleted.
    pub fn present(&self) -> (r: usize)
        ensures
            r == count_present(self@),
    {
        let mut count: usize = 0;
        let mut i: usize = 0;
        while i < self.records.len()
            invariant
                i <= self.records@.len(),
                count == count_present(self.records@.take(i as int)),
                count <= i,
            decreases self.records@.len() - i,
        {
            proof {
                assert(self.records@.take(i as int + 1).drop_last() =~= self.records@.take(
                    i as int,
                ));
                assert(self.records@.take(i as int + 1).last() == self.records@[i as int]);
            }
            if !self.records[i].record.deleted {
                count += 1;
            }
            i += 1;
        }
        assert(self.records@.take(i as int) =~= self.records@);
        count
    }

    /// The places of the entries, from the newest to the oldest.
    pub fn newest_first(&self) -> (r: Vec<usize>)
        ensures
            newest_first(r@, self@),
    {
        order_newest_first(&self.records)
    }
}

/// Of two versions of an entry that differ in their stamps, whatever their kind,
/// the content of the newer one is brought to a device that has the older one, and
/// never the other way round. The higher revision is the newer one, and of two with
/// the same revision the one whose device comes later.
pub proof fn lemma_newer_content_travels(
    a: domain::ClipboardReplicaRecord,
    b: domain::ClipboardReplicaRecord,
)
    requires
        !a.record.deleted,
        !b.record.deleted,
        a.record.revision != b.record.revision || a.record.updated_by_device_id@
            != b.record.updated_by_device_id@,
    ensures
        payload_needed(Some(a), b) != payload_needed(Some(b), a),
        a.record.revision < b.record.revision ==> payload_needed(Some(a), b),
        b.record.revision < a.record.revision ==> payload_needed(Some(b), a),
        a.record.revision == b.record.revision && crate::text::text_less(
            a.record.updated_by_device_id@,
            b.record.updated_by_device_id@,
        ) ==> payload_needed(Some(a), b),
{
    let (x, y) = (a.record, b.record);
    crate::text::lemma_text_less_total(x.updated_by_device_id@, y.updated_by_device_id@);
    lemma_stamp_less(
        x.revision as int,
        x.updated_by_device_id@,
        y.revision as int,
        y.updated_by_device_id@,
    );
}

/// The content of an entry that a device does not know is brought unless the entry
/// is deleted; that of a version which it has, and that of a deleted entry, never is.
pub proof fn lemma_content_that_travels(
    current: domain::ClipboardReplicaRecord,
    incoming: domain::ClipboardReplicaRecord,
)
    ensures
        payload_needed(None, incoming) == !incoming.record.deleted,
        incoming.record.deleted ==> !payload_needed(Some(current), incoming),
        current.record.revision == incoming.record.revision
            && current.record.updated_by_device_id@ == incoming.record.updated_by_device_id@
            ==> !payload_needed(Some(current), incoming),
{
    crate::text::lemma_text_less_irreflexive(current.record.updated_by_device_id@);
}

/// An entry that has all that another could bring is behind it in nothing: neither
/// in its content, nor as a favorite, nor in a label, nor in the history of its
/// copies.
pub proof fn lemma_covered_is_behind_in_nothing(
    current: domain::ClipboardReplicaRecord,
    incoming: domain::ClipboardReplicaRecord,
    i: int,
)
    requires
        covered(current, incoming),
    ensures
        current.record.revision >= incoming.record.revision,
        current.record.revision == incoming.record.revision ==> !crate::text::text_less(
            current.record.updated_by_device_id@,
            incoming.record.updated_by_device_id@,
        ),
        current.record.favorite_revision >= incoming.record.favorite_revision,
        current.record.favorite_revision == incoming.record.favorite_revision
            ==> !crate::text::text_less(
            current.record.favorite_updated_by_device_id@,
            incoming.record.favorite_updated_by_device_id@,
        ),
        current.record.captured_at_ms >= incoming.record.captured_at_ms,
        current.first_captured_at_ms <= incoming.first_captured_at_ms,
        current.copy_count >= incoming.copy_count,
        0 <= i < incoming.record.label_memberships@.len() ==> exists|k: int|
            0 <= k < current.record.label_memberships@.len() && ({
                let mine = #[trigger] current.record.label_memberships@[k];
                let theirs = incoming.record.label_memberships@[i];
                &&& mine.label_id@ == theirs.label_id@
                &&& mine.revision >= theirs.revision
                &&& mine.revision == theirs.revision ==> !crate::text::text_less(
                    mine.updated_by_device_id@,
                    theirs.updated_by_device_id@,
                )
            }),
{
    if 0 <= i < incoming.record.label_memberships@.len() {
        assert(has_membership(
            current.record.label_memberships@,
            incoming.record.label_memberships@[i],
        ));
    }
}

/// An entry that is behind another in nothing has all that it could bring.
pub proof fn lemma_behind_in_nothing_is_covered(
    current: domain::ClipboardReplicaRecord,
    incoming: domain::ClipboardReplicaRecord,
)
    requires
        current.record.revision > incoming.record.revision || (current.record.revision
            == incoming.record.revision && current.record.updated_by_device_id@
            == incoming.record.updated_by_device_id@),
        current.record.favorite_revision > incoming.record.favorite_revision || (
        current.record.favorite_revision == incoming.record.favorite_revision
            && current.record.favorite_updated_by_device_id@
            == incoming.record.favorite_updated_by_device_id@),
        current.record.captured_at_ms >= incoming.record.captured_at_ms,
        current.first_captured_at_ms <= incoming.first_captured_at_ms,
        current.copy_count >= incoming.copy_count,
        forall|i: int|
            0 <= i < incoming.record.label_memberships@.len()
                ==> current.record.label_memberships@.contains(
                #[trigger] incoming.record.label_memberships@[i],
            ),
    ensures
        covered(current, incoming),
{
    let (x, y) = (current.record, incoming.record);
    crate::text::lemma_text_less_irreflexive(x.updated_by_device_id@);
    crate::text::lemma_text_less_irreflexive(x.favorite_updated_by_device_id@);
    assert forall|i: int| 0 <= i < y.label_memberships@.len() implies has_membership(
        x.label_memberships@,
        #[trigger] y.label_memberships@[i],
    ) by {
        let m = y.label_memberships@[i];
        assert(x.label_memberships@.contains(m));
        let k = choose|k: int|
            0 <= k < x.label_memberships@.len() && x.label_memberships@[k] == m;
        assert(x.label_memberships@[k].label_id@ == m.label_id@);
        crate::text::lemma_text_less_irreflexive(m.updated_by_device_id@);
    }
}

/// An entry that was copied later counts as newer, and never the other way round.
pub proof fn lemma_copied_later_is_newer(
    a: domain::ClipboardReplicaRecord,
    b: domain::ClipboardReplicaRecord,
)
    ensures
        a.record.captured_at_ms > b.record.captured_at_ms ==> newer(a, b) && !newer(b, a),
        newer(a, b) ==> a.record.captured_at_ms >= b.record.captured_at_ms,
        a.record.captured_at_ms == b.record.captured_at_ms ==> newer(a, b)
            == crate::text::text_less(b.record.sync_id@, a.record.sync_id@),
{
}

/// In the order of a history, an entry never stands before one that was copied
/// later.
pub proof fn lemma_history_runs_back_in_time(
    order: Seq<usize>,
    records: Seq<domain::ClipboardReplicaRecord>,
    i: int,
    j: int,
)
    requires
        newest_first(order, records),
        0 <= i < j < order.len(),
    ensures
        order.len() == records.len(),
        order[i] != order[j],
        order[i] < records.len(),
        order[j] < records.len(),
        records[order[i] as int].record.captured_at_ms
            >= records[order[j] as int].record.captured_at_ms,
{
}

/// As many entries are counted as there are ones that are not deleted.
pub proof fn lemma_present_are_not_deleted(
    records: Seq<domain::ClipboardReplicaRecord>,
    more: domain::ClipboardReplicaRecord,
)
    ensures
        count_present(Seq::<domain::ClipboardReplicaRecord>::empty()) == 0,
        more.record.deleted ==> count_present(records.push(more)) == count_present(records),
        !more.record.deleted ==> count_present(records.push(more)) == count_present(records) + 1,
{
    assert(records.push(more).drop_last() =~= records);
}

} // verus!
