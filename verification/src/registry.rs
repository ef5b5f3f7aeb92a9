//! Local device registry (discovered / claimed TerraLink nodes), keyed by identity.

use vstd::prelude::*;
use vstd::string::StringExecFns;

verus! {

/// Whether a discovered node has been claimed yet.
#[derive(Debug, Clone, Copy, PartialEq, Eq, Structural)]
pub enum ClaimState {
    /// Discovered, awaiting a claim from the cloud or the admin.
    Pending,
    /// Claimed and given a routing address.
    Claimed,
}

/// One TerraLink node known to the hub.
#[derive(Debug, Clone)]
pub struct DeviceRecord {
    pub identity: String,
    pub routing_addr: u16,
    pub claim: ClaimState,
    pub last_seen_seq: u16,
    pub node_class: Option<u8>,
}

/// What a [`DeviceRecord`] holds, with its identity as characters.
pub ghost struct DeviceRecordView {
    pub identity: Seq<char>,
    pub routing_addr: u16,
    pub claim: ClaimState,
    pub last_seen_seq: u16,
    pub node_class: Option<u8>,
}

impl View for DeviceRecord {
    type V = DeviceRecordView;

    open spec fn view(&self) -> DeviceRecordView {
        DeviceRecordView {
            identity: self.identity@,
            routing_addr: self.routing_addr,
            claim: self.claim,
            last_seen_seq: self.last_seen_seq,
            node_class: self.node_class,
        }
    }
}

/// The views of a list of records, in order.
pub open spec fn record_views(records: Seq<DeviceRecord>) -> Seq<DeviceRecordView> {
    records.map_values(|r: DeviceRecord| r@)
}

/// No two records of the list share an identity.
pub open spec fn distinct_identities(s: Seq<DeviceRecordView>) -> bool {
    forall|i: int, j: int|
        0 <= i < s.len() && 0 <= j < s.len() && i != j ==> #[trigger] s[i].identity
            != #[trigger] s[j].identity
}

/// The records of a list, looked up by identity (a later record wins).
pub open spec fn index_by_identity(s: Seq<DeviceRecordView>) -> Map<Seq<char>, DeviceRecordView>
    decreases s.len(),
{
    if s.len() == 0 {
        Map::empty()
    } else {
        index_by_identity(s.drop_last()).insert(s.last().identity, s.last())
    }
}

/// The records of a table that still await a claim.
pub open spec fn pending_only(m: Map<Seq<char>, DeviceRecordView>) -> Map<
    Seq<char>,
    DeviceRecordView,
> {
    Map::new(|k: Seq<char>| m.contains_key(k) && m[k].claim == ClaimState::Pending, |k: Seq<char>| m[k])
}

/// The record that [`DeviceRegistry::mark_claimed`] leaves behind.
pub open spec fn claimed_record(r: DeviceRecordView, routing_addr: u16) -> DeviceRecordView {
    DeviceRecordView { claim: ClaimState::Claimed, routing_addr, ..r }
}

/// The pending records of a list, in order.
pub open spec fn pending_records(s: Seq<DeviceRecordView>) -> Seq<DeviceRecordView>
    decreases s.len(),
{
    if s.len() == 0 {
        Seq::empty()
    } else if s.last().claim == ClaimState::Pending {
        pending_records(s.drop_last()).push(s.last())
    } else {
        pending_records(s.drop_last())
    }
}

/// With distinct identities, the table holds exactly the records of the list.
proof fn lemma_index_facts(s: Seq<DeviceRecordView>)
    requires
        distinct_identities(s),
    ensures
        forall|i: int|
            0 <= i < s.len() ==> #[trigger] index_by_identity(s).contains_key(s[i].identity)
                && index_by_identity(s)[s[i].identity] == s[i],
        forall|k: Seq<char>|
            #[trigger] index_by_identity(s).contains_key(k) ==> exists|i: int|
                0 <= i < s.len() && #[trigger] s[i].identity == k,
    decreases s.len(),
{
    if s.len() > 0 {
        let p = s.drop_last();
        assert(distinct_identities(p)) by {
            assert forall|i: int, j: int|
                0 <= i < p.len() && 0 <= j < p.len() && i != j implies #[trigger] p[i].identity
                != #[trigger] p[j].identity by {
                assert(p[i] == s[i] && p[j] == s[j]);
            }
        }
        lemma_index_facts(p);
        assert forall|i: int| 0 <= i < s.len() implies #[trigger] index_by_identity(
            s,
        ).contains_key(s[i].identity) && index_by_identity(s)[s[i].identity] == s[i] by {
            assert(index_by_identity(s) == index_by_identity(p).insert(s.last().identity, s.last()));
            if i < s.len() - 1 {
                assert(p[i] == s[i]);
                assert(s[i].identity != s[s.len() - 1].identity);
                assert(index_by_identity(p).contains_key(p[i].identity));
            }
        }
        assert forall|k: Seq<char>| #[trigger] index_by_identity(s).contains_key(k) implies exists|
            i: int,
        | 0 <= i < s.len() && #[trigger] s[i].identity == k by {
            if k != s.last().identity {
                assert(index_by_identity(p).contains_key(k));
                let i = choose|i: int| 0 <= i < p.len() && #[trigger] p[i].identity == k;
                assert(s[i] == p[i]);
            } else {
                assert(s[s.len() - 1].identity == k);
            }
        }
    }
}

/// Replacing a record by one with the same identity updates the table at that identity.
proof fn lemma_index_update(s: Seq<DeviceRecordView>, i: int, x: DeviceRecordView)
    requires
        distinct_identities(s),
        0 <= i < s.len(),
        s[i].identity == x.identity,
    ensures
        distinct_identities(s.update(i, x)),
        index_by_identity(s.update(i, x)) == index_by_identity(s).insert(x.identity, x),
{
    let u = s.update(i, x);
    assert(distinct_identities(u)) by {
        assert forall|a: int, b: int|
            0 <= a < u.len() && 0 <= b < u.len() && a != b implies #[trigger] u[a].identity
            != #[trigger] u[b].identity by {
            assert(u[a].identity == s[a].identity);
            assert(u[b].identity == s[b].identity);
        }
    }
    lemma_index_facts(s);
    lemma_index_facts(u);
    let l = index_by_identity(u);
    let r = index_by_identity(s).insert(x.identity, x);
    assert forall|k: Seq<char>| #[trigger] l.contains_key(k) <==> r.contains_key(k) by {
        if l.contains_key(k) {
            let j = choose|j: int| 0 <= j < u.len() && #[trigger] u[j].identity == k;
            assert(s[j].identity == k);
        }
        if r.contains_key(k) && k != x.identity {
            let j = choose|j: int| 0 <= j < s.len() && #[trigger] s[j].identity == k;
            assert(u[j].identity == k);
        }
        if k == x.identity {
            assert(u[i].identity == k);
        }
    }
    assert forall|k: Seq<char>| #[trigger] l.contains_key(k) implies l[k] == r[k] by {
        let j = choose|j: int| 0 <= j < u.len() && #[trigger] u[j].identity == k;
        assert(s[j].identity == k);
        if j != i {
            assert(k != x.identity);
            assert(u[j] == s[j]);
        }
    }
    assert(l =~= r);
}

/// Adding a record whose identity is new keeps the identities distinct.
proof fn lemma_push_new(s: Seq<DeviceRecordView>, x: DeviceRecordView)
    requires
        distinct_identities(s),
        forall|i: int| 0 <= i < s.len() ==> #[trigger] s[i].identity != x.identity,
    ensures
        distinct_identities(s.push(x)),
        index_by_identity(s.push(x)) == index_by_identity(s).insert(x.identity, x),
{
    let t = s.push(x);
    assert(t.drop_last() =~= s);
    assert forall|a: int, b: int|
        0 <= a < t.len() && 0 <= b < t.len() && a != b implies #[trigger] t[a].identity
        != #[trigger] t[b].identity by {
        if a < s.len() {
            assert(t[a] == s[a]);
        }
        if b < s.len() {
            assert(t[b] == s[b]);
        }
    }
}

/// The pending records of a list of distinct records are distinct, come from the
/// list, and form the pending part of its table.
proof fn lemma_pending_records(s: Seq<DeviceRecordView>)
    requires
        distinct_identities(s),
    ensures
        distinct_identities(pending_records(s)),
        forall|j: int|
            0 <= j < pending_records(s).len() ==> exists|i: int|
                0 <= i < s.len() && s[i] == #[trigger] pending_records(s)[j],
        index_by_identity(pending_records(s)) == pending_only(index_by_identity(s)),
    decreases s.len(),
{
    if s.len() == 0 {
        assert(index_by_identity(pending_records(s)) =~= pending_only(index_by_identity(s)));
    } else {
        let p = s.drop_last();
        let x = s.last();
        assert(distinct_identities(p)) by {
            assert forall|i: int, j: int|
                0 <= i < p.len() && 0 <= j < p.len() && i != j implies #[trigger] p[i].identity
                != #[trigger] p[j].identity by {
                assert(p[i] == s[i] && p[j] == s[j]);
            }
        }
        lemma_pending_records(p);
        lemma_index_facts(p);
        let pp = pending_records(p);
        assert forall|j: int| 0 <= j < pp.len() implies #[trigger] pp[j].identity != x.identity by {
            let i = choose|i: int| 0 <= i < p.len() && p[i] == #[trigger] pp[j];
            assert(s[i] == p[i]);
            assert(s[i].identity != s[s.len() - 1].identity);
        }
        assert(!index_by_identity(p).contains_key(x.identity)) by {
            if index_by_identity(p).contains_key(x.identity) {
                let i = choose|i: int| 0 <= i < p.len() && #[trigger] p[i].identity == x.identity;
                assert(s[i] == p[i]);
            }
        }
        if x.claim == ClaimState::Pending {
            lemma_push_new(pp, x);
            assert forall|j: int| 0 <= j < pending_records(s).len() implies exists|i: int|
                0 <= i < s.len() && s[i] == #[trigger] pending_records(s)[j] by {
                if j < pp.len() {
                    let i = choose|i: int| 0 <= i < p.len() && p[i] == #[trigger] pp[j];
                    assert(s[i] == p[i]);
                } else {
                    assert(s[s.len() - 1] == pending_records(s)[j]);
                }
            }
        } else {
            assert forall|j: int| 0 <= j < pending_records(s).len() implies exists|i: int|
                0 <= i < s.len() && s[i] == #[trigger] pending_records(s)[j] by {
                let i = choose|i: int| 0 <= i < p.len() && p[i] == #[trigger] pp[j];
                assert(s[i] == p[i]);
            }
        }
        assert(index_by_identity(pending_records(s)) =~= pending_only(index_by_identity(s)));
    }
}

/// A lookup of the identity just written finds the record written.
pub proof fn lemma_upsert_then_get(m: Map<Seq<char>, DeviceRecordView>, r: DeviceRecordView)
    ensures
        m.insert(r.identity, r).contains_key(r.identity),
        m.insert(r.identity, r)[r.identity] == r,
        forall|k: Seq<char>| k != r.identity ==> #[trigger] m.insert(r.identity, r).contains_key(k)
            == m.contains_key(k),
{
}

/// Claiming a known node takes it out of the pending ones and leaves every other
/// identity as pending as it was.
pub proof fn lemma_claim_leaves_pending(
    m: Map<Seq<char>, DeviceRecordView>,
    identity: Seq<char>,
    routing_addr: u16,
)
    requires
        m.contains_key(identity),
    ensures
        !pending_only(m.insert(identity, claimed_record(m[identity], routing_addr))).contains_key(
            identity,
        ),
        forall|k: Seq<char>|
            k != identity ==> #[trigger] pending_only(
                m.insert(identity, claimed_record(m[identity], routing_addr)),
            ).contains_key(k) == pending_only(m).contains_key(k),
{
}

/// A table built from a list files each record under its own identity.
proof fn lemma_index_keys(s: Seq<DeviceRecordView>)
    ensures
        forall|k: Seq<char>| #[trigger] index_by_identity(s).contains_key(k) ==> index_by_identity(
            s,
        )[k].identity == k,
    decreases s.len(),
{
    if s.len() > 0 {
        lemma_index_keys(s.drop_last());
    }
}

/// A copy of a record, field by field.
fn copy_record(r: &DeviceRecord) -> (c: DeviceRecord)
    ensures
        c@ == r@,
{
    DeviceRecord {
        identity: r.identity.clone(),
        routing_addr: r.routing_addr,
        claim: r.claim,
        last_seen_seq: r.last_seen_seq,
        node_class: r.node_class,
    }
}

/// The table of known nodes, one record per identity.
#[derive(Debug, Default)]
pub struct DeviceRegistry {
    records: Vec<DeviceRecord>,
}

impl View for DeviceRegistry {
    type V = Map<Seq<char>, DeviceRecordView>;

    /// The records, looked up by identity.
    closed spec fn view(&self) -> Map<Seq<char>, DeviceRecordView> {
        index_by_identity(record_views(self.records@))
    }
}

impl DeviceRegistry {
    /// The records never share an identity.
    #[verifier::type_invariant]
    closed spec fn well_formed(self) -> bool {
        distinct_identities(record_views(self.records@))
    }

    /// An empty registry.
    pub fn new() -> (r: Self)
        ensures
            r@ == Map::<Seq<char>, DeviceRecordView>::empty(),
    {
        let r = DeviceRegistry { records: Vec::new() };
        assert(record_views(r.records@) =~= Seq::<DeviceRecordView>::empty());
        r
    }

    /// The position of the record with this identity, if any.
    fn find(&self, key: &String) -> (r: Option<usize>)
        ensures
            match r {
                Some(i) => i < self.records@.len() && self.records@[i as int].identity@ == key@,
                None => forall|i: int|
                    0 <= i < self.records@.len() ==> #[trigger] self.records@[i].identity@ != key@,
            },
    {
        let mut i: usize = 0;
        while i < self.records.len()
            invariant
                i <= self.records@.len(),
                forall|j: int| 0 <= j < i ==> #[trigger] self.records@[j].identity@ != key@,
            decreases self.records@.len() - i,
        {
            if self.records[i].identity == *key {
                return Some(i);
            }
            i = i + 1;
        }
        None
    }

    /// Inserts the record, replacing the one with the same identity if there is one.
    pub fn upsert(&mut self, record: DeviceRecord)
        ensures
            final(self)@ == old(self)@.insert(record.identity@, record@),
    {
        proof {
            use_type_invariant(&*self);
        }
        let ghost s = record_views(self.records@);
        let ghost x = record@;
        match self.find(&record.identity) {
            Some(i) => {
                assert(s[i as int].identity == x.identity);
                proof {
                    lemma_index_update(s, i as int, x);
                }
                let mut recs: Vec<DeviceRecord> = Vec::new();
                std::mem::swap(&mut recs, &mut self.records);
                recs.set(i, record);
                assert(record_views(recs@) =~= s.update(i as int, x));
                self.records = recs;
            },
            None => {
                assert forall|j: int| 0 <= j < s.len() implies #[trigger] s[j].identity
                    != x.identity by {
                    assert(s[j] == self.records@[j]@);
                }
                proof {
                    lemma_push_new(s, x);
                }
                let mut recs: Vec<DeviceRecord> = Vec::new();
                std::mem::swap(&mut recs, &mut self.records);
                recs.push(record);
                assert(record_views(recs@) =~= s.push(x));
                self.records = recs;
            },
        }
    }

    /// The record with this identity, if any.
    pub fn get(&self, identity: &str) -> (r: Option<&DeviceRecord>)
        ensures
            match r {
                Some(rec) => self@.contains_key(identity@) && rec@ == self@[identity@]
                    && rec.identity@ == identity@,
                None => !self@.contains_key(identity@),
            },
    {
        proof {
            use_type_invariant(self);
            lemma_index_facts(record_views(self.records@));
        }
        let key = String::from_str(identity);
        let ghost s = record_views(self.records@);
        match self.find(&key) {
            Some(i) => {
                assert(s[i as int] == self.records@[i as int]@);
                assert(index_by_identity(s).contains_key(s[i as int].identity));
                Some(&self.records[i])
            },
            None => {
                proof {
                    if self@.contains_key(identity@) {
                        let j = choose|j: int| 0 <= j < s.len() && #[trigger] s[j].identity == identity@;
                        assert(s[j] == self.records@[j]@);
                    }
                }
                None
            },
        }
    }

    /// All records, in no particular order, each identity once.
    pub fn list(&self) -> (r: Vec<DeviceRecord>)
        ensures
            distinct_identities(record_views(r@)),
            index_by_identity(record_views(r@)) == self@,
    {
        proof {
            use_type_invariant(self);
        }
        let mut out: Vec<DeviceRecord> = Vec::new();
        let mut i: usize = 0;
        while i < self.records.len()
            invariant
                i <= self.records@.len(),
                record_views(out@) == record_views(self.records@).take(i as int),
            decreases self.records@.len() - i,
        {
            let c = copy_record(&self.records[i]);
            let ghost before = out@;
            out.push(c);
            assert(out@ == before.push(c));
            assert(record_views(out@) =~= record_views(before).push(c@));
            i = i + 1;
            assert(record_views(self.records@).take(i as int) =~= record_views(self.records@).take(
                i - 1,
            ).push(self.records@[i - 1]@));
        }
        assert(record_views(self.records@).take(i as int) =~= record_views(self.records@));
        out
    }

    /// Marks the node with this identity as claimed at `routing_addr`; false when it is unknown.
    pub fn mark_claimed(&mut self, identity: &str, routing_addr: u16) -> (found: bool)
        ensures
            found == old(self)@.contains_key(identity@),
            found ==> final(self)@ == old(self)@.insert(
                identity@,
                claimed_record(old(self)@[identity@], routing_addr),
            ),
            !found ==> final(self)@ == old(self)@,
    {
        proof {
            use_type_invariant(&*self);
            lemma_index_facts(record_views(self.records@));
        }
        let key = String::from_str(identity);
        let ghost s = record_views(self.records@);
        match self.find(&key) {
            Some(i) => {
                let old_rec = &self.records[i];
                let updated = DeviceRecord {
                    identity: old_rec.identity.clone(),
                    routing_addr,
                    claim: ClaimState::Claimed,
                    last_seen_seq: old_rec.last_seen_seq,
                    node_class: old_rec.node_class,
                };
                let ghost x = updated@;
                assert(s[i as int] == self.records@[i as int]@);
                assert(x == claimed_record(s[i as int], routing_addr));
                proof {
                    lemma_index_update(s, i as int, x);
                }
                let mut recs: Vec<DeviceRecord> = Vec::new();
                std::mem::swap(&mut recs, &mut self.records);
                recs.set(i, updated);
                assert(record_views(recs@) =~= s.update(i as int, x));
                self.records = recs;
                true
            },
            None => {
                proof {
                    if self@.contains_key(identity@) {
                        let j = choose|j: int| 0 <= j < s.len() && #[trigger] s[j].identity == identity@;
                        assert(s[j] == self.records@[j]@);
                    }
                }
                false
            },
        }
    }

    /// Pending discoveries awaiting TerraTactics cloud / admin claim, each identity once.
    pub fn pending(&self) -> (r: Vec<DeviceRecord>)
        ensures
            distinct_identities(record_views(r@)),
            index_by_identity(record_views(r@)) == pending_only(self@),
    {
        proof {
            use_type_invariant(self);
        }
        let ghost s = record_views(self.records@);
        let mut out: Vec<DeviceRecord> = Vec::new();
        let mut i: usize = 0;
        while i < self.records.len()
            invariant
                i <= self.records@.len(),
                s == record_views(self.records@),
                record_views(out@) == pending_records(s.take(i as int)),
            decreases self.records@.len() - i,
        {
            assert(s.take(i + 1).drop_last() =~= s.take(i as int));
            assert(s.take(i + 1).last() == self.records@[i as int]@);
            if self.records[i].claim == ClaimState::Pending {
                let c = copy_record(&self.records[i]);
                out.push(c);
                assert(record_views(out@) =~= pending_records(s.take(i as int)).push(s[i as int]));
            }
            i = i + 1;
        }
        assert(s.take(i as int) =~= s);
        proof {
            lemma_pending_records(s);
        }
        out
    }
}

/// Every record of a registry is filed under its own identity.
pub proof fn lemma_records_keyed_by_identity(registry: DeviceRegistry)
    ensures
        forall|k: Seq<char>| #[trigger] registry@.contains_key(k) ==> registry@[k].identity == k,
{
    lemma_index_keys(record_views(registry.records@));
}

} // verus!
