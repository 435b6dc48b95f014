//! The record catalog: a name-indexed snapshot of a zone's records.
//!
//! A catalog is built fresh from one listing response. Names are unique by
//! construction; when the provider returns two records with the same name,
//! the later one in response order silently overwrites the earlier one
//! (last-write-wins), keeping the name's place in the order of first
//! occurrence. The folding policy itself, and its laws, live in
//! [`crate::namemap`].

use vstd::prelude::*;

use crate::content::{render, ipv4_text, ContentVariant, ContentView};
use crate::namemap::{
    fold_entries,
    fold_insert,
    has_name,
    lemma_fold_insert_props,
    lemma_unique_name_index,
    unique_names,
};

verus! {

/// What the catalog holds for one record name: the provider-assigned
/// identifier and the typed content.
pub struct DnsDetails {
    pub dns_id: String,
    pub dns_content: ContentVariant,
}

/// The mathematical shape of `DnsDetails`.
pub struct DetailsView {
    pub dns_id: Seq<char>,
    pub dns_content: ContentView,
}

impl View for DnsDetails {
    type V = DetailsView;

    open spec fn view(&self) -> DetailsView {
        DetailsView { dns_id: self.dns_id@, dns_content: self.dns_content@ }
    }
}

/// One record as the provider lists it: identifier, fully-qualified name,
/// and typed content.
pub struct DnsRecord {
    pub id: String,
    pub name: String,
    pub content: ContentVariant,
}

impl View for DnsRecord {
    /// A record is viewed as the catalog entry it induces: its name paired
    /// with its detail.
    type V = (Seq<char>, DetailsView);

    open spec fn view(&self) -> (Seq<char>, DetailsView) {
        (self.name@, DetailsView { dns_id: self.id@, dns_content: self.content@ })
    }
}

/// The views of a list of records, as catalog entries in response order.
pub open spec fn records_view(v: Seq<DnsRecord>) -> Seq<(Seq<char>, DetailsView)> {
    v.map_values(|r: DnsRecord| r@)
}

/// The listing rows of a catalog, in entry order: (name, display value,
/// type label), skipping entries whose content does not render.
pub open spec fn rows_of(entries: Seq<(Seq<char>, DetailsView)>) -> Seq<
    (Seq<char>, Seq<char>, Seq<char>),
>
    decreases entries.len(),
{
    if entries.len() == 0 {
        Seq::empty()
    } else {
        let rest = rows_of(entries.drop_last());
        let e = entries.last();
        match e.1.dns_content {
            ContentView::Address { octets } => rest.push((e.0, ipv4_text(octets), "A"@)),
            ContentView::CanonicalName { target } => rest.push((e.0, target, "CNAME"@)),
            ContentView::Other => rest,
        }
    }
}

/// The catalog as held in memory: entries in first-occurrence order.
pub struct DnsInfo {
    entries: Vec<(String, DnsDetails)>,
}

impl View for DnsInfo {
    type V = Seq<(Seq<char>, DetailsView)>;

    closed spec fn view(&self) -> Seq<(Seq<char>, DetailsView)> {
        self.entries@.map_values(|e: (String, DnsDetails)| (e.0@, e.1@))
    }
}

impl DnsInfo {
    /// The catalog's invariant: no two entries share a name.
    pub open spec fn wf(&self) -> bool {
        unique_names(self@)
    }

    /// The number of entries.
    pub fn len(&self) -> (r: usize)
        ensures
            r == self@.len(),
    {
        self.entries.len()
    }

    /// Insert one record's name and detail, replacing the detail in place
    /// when the name is already catalogued.
    fn insert_entry(&mut self, name: String, details: DnsDetails)
        requires
            old(self).wf(),
        ensures
            final(self)@ == fold_insert(old(self)@, name@, details@),
            final(self).wf(),
    {
        let n = self.entries.len();
        let mut t: usize = 0;
        while t < n
            invariant
                n == self.entries@.len(),
                t <= n,
                *self == *old(self),
                old(self).wf(),
                forall|u: int| 0 <= u < t ==> (#[trigger] self@[u]).0 != name@,
            decreases n - t,
        {
            if self.entries[t].0 == name {
                assert(self@[t as int].0 == name@);
                assert(old(self)@[t as int].0 == name@);
                assert(has_name(old(self)@, name@));
                let ghost chosen = choose|x: int|
                    0 <= x < old(self)@.len() && old(self)@[x].0 == name@;
                proof {
                    lemma_unique_name_index(old(self)@, chosen, t as int);
                    lemma_fold_insert_props(old(self)@, name@, details@);
                }
                self.entries[t] = (name, details);
                assert(self@ =~= fold_insert(old(self)@, name@, details@));
                return ;
            }
            t = t + 1;
        }
        assert(!has_name(self@, name@));
        proof {
            lemma_fold_insert_props(old(self)@, name@, details@);
        }
        self.entries.push((name, details));
        assert(self@ =~= fold_insert(old(self)@, name@, details@));
    }

    /// Build the catalog from one listing response, folding the records in
    /// response order with last-write-wins on duplicate names.
    pub fn from_records(records: Vec<DnsRecord>) -> (r: DnsInfo)
        ensures
            r@ == fold_entries(records_view(records@)),
            r.wf(),
    {
        let ghost orig = records@;
        let mut rest = records;
        let mut info = DnsInfo { entries: Vec::new() };
        let ghost done: int = 0;
        assert(info@ =~= fold_entries(records_view(orig.subrange(0, 0))));
        while rest.len() > 0
            invariant
                0 <= done <= orig.len(),
                rest@ =~= orig.subrange(done, orig.len() as int),
                info@ == fold_entries(records_view(orig.subrange(0, done))),
                info.wf(),
            decreases rest@.len(),
        {
            let rec = rest.remove(0);
            assert(rec == orig[done]);
            let DnsRecord { id, name, content } = rec;
            info.insert_entry(name, DnsDetails { dns_id: id, dns_content: content });
            proof {
                let prev = orig.subrange(0, done);
                let cur = orig.subrange(0, done + 1);
                assert(records_view(cur).drop_last() =~= records_view(prev));
                assert(records_view(cur).last() == orig[done]@);
                done = done + 1;
            }
        }
        assert(orig.subrange(0, orig.len() as int) =~= orig);
        info
    }

    /// The names in the catalog, in catalog order: the Selection Snapshot
    /// for any selection workflow built on this catalog.
    pub fn names(&self) -> (r: Vec<String>)
        ensures
            r@.len() == self@.len(),
            forall|i: int| 0 <= i < r@.len() ==> (#[trigger] r@[i])@ == self@[i].0,
    {
        let n = self.entries.len();
        let mut r: Vec<String> = Vec::new();
        let mut i: usize = 0;
        while i < n
            invariant
                n == self.entries@.len(),
                i <= n,
                r@.len() == i,
                forall|u: int| 0 <= u < i ==> (#[trigger] r@[u])@ == self@[u].0,
            decreases n - i,
        {
            let name = self.entries[i].0.clone();
            assert(name@ == self@[i as int].0);
            r.push(name);
            i = i + 1;
        }
        r
    }

    /// The name of the entry at index `i`.
    pub fn name_at(&self, i: usize) -> (r: &String)
        requires
            i < self@.len(),
        ensures
            r@ == self@[i as int].0,
    {
        &self.entries[i].0
    }

    /// The record identifier of the entry at index `i`.
    pub fn id_at(&self, i: usize) -> (r: &String)
        requires
            i < self@.len(),
        ensures
            r@ == self@[i as int].1.dns_id,
    {
        &self.entries[i].1.dns_id
    }

    /// The listing rows for this catalog, in catalog order: name, display
    /// value, type label. Entries whose content does not render are skipped.
    pub fn list_rows(&self) -> (r: Vec<(String, String, String)>)
        ensures
            r@.map_values(|row: (String, String, String)| (row.0@, row.1@, row.2@)) == rows_of(
                self@,
            ),
    {
        let n = self.entries.len();
        let mut r: Vec<(String, String, String)> = Vec::new();
        let mut i: usize = 0;
        assert(r@.map_values(|row: (String, String, String)| (row.0@, row.1@, row.2@)) =~= rows_of(
            self@.subrange(0, 0),
        ));
        while i < n
            invariant
                n == self.entries@.len(),
                i <= n,
                r@.map_values(|row: (String, String, String)| (row.0@, row.1@, row.2@)) == rows_of(
                    self@.subrange(0, i as int),
                ),
            decreases n - i,
        {
            match render(&self.entries[i].1.dns_content) {
                Some(pair) => {
                    let (value, label) = pair;
                    let name = self.entries[i].0.clone();
                    assert(name@ == self@[i as int].0);
                    r.push((name, value, label));
                },
                None => {
                },
            }
            proof {
                assert(self@.subrange(0, i + 1).drop_last() =~= self@.subrange(0, i as int));
                assert(self@.subrange(0, i + 1).last() == self@[i as int]);
                assert(r@.map_values(|row: (String, String, String)| (row.0@, row.1@, row.2@))
                    =~= rows_of(self@.subrange(0, i + 1)));
            }
            i = i + 1;
        }
        assert(self@.subrange(0, n as int) =~= self@);
        r
    }

    /// Look a name up. With unique names, the result is exactly the detail
    /// catalogued under that name, if any.
    pub fn get(&self, name: &String) -> (r: Option<&DnsDetails>)
        requires
            self.wf(),
        ensures
            r is Some <==> has_name(self@, name@),
            r matches Some(d) ==> exists|t: int|
                0 <= t < self@.len() && #[trigger] self@[t] == (name@, d@),
    {
        let n = self.entries.len();
        let mut t: usize = 0;
        while t < n
            invariant
                n == self.entries@.len(),
                t <= n,
                forall|u: int| 0 <= u < t ==> (#[trigger] self@[u]).0 != name@,
            decreases n - t,
        {
            if self.entries[t].0 == *name {
                let d = &self.entries[t].1;
                assert(self@[t as int] == (name@, d@));
                return Some(d);
            }
            t = t + 1;
        }
        assert(!has_name(self@, name@));
        None
    }
}

} // verus!
