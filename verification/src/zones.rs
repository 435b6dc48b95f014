//! The zone resolver: from the provider's account and zone listings to the
//! one (zone identifier, zone name) pair the rest of the run works on.
//!
//! The account selection is advisory only: it does not scope the zone
//! listing, which always covers all active zones. The zone names fold into
//! a catalog with the same last-write-wins policy as the record catalog.

use vstd::prelude::*;

use crate::errors::Error;
use crate::namemap::{
    fold_entries,
    fold_insert,
    has_name,
    lemma_fold_insert_props,
    lemma_unique_name_index,
    unique_names,
};

verus! {

/// One provider account, as far as this tool reads it: its display name.
pub struct Account {
    pub name: String,
}

/// One zone as the provider lists it: opaque identifier and domain name.
pub struct Zone {
    pub id: String,
    pub name: String,
}

/// The resolved working pair for the rest of the run.
#[derive(Clone, Debug)]
pub struct ZoneInfo {
    pub zone_identifier: String,
    pub zone_name: String,
}

/// The views of a zone listing, as (name, identifier) entries in response
/// order.
pub open spec fn zones_view(v: Seq<Zone>) -> Seq<(Seq<char>, Seq<char>)> {
    v.map_values(|z: Zone| (z.name@, z.id@))
}

/// The account names to present for selection.
///
/// An empty account list is fatal: no selection can be made.
pub fn account_names(accounts: &Vec<Account>) -> (r: Result<Vec<String>, Error>)
    ensures
        r is Ok <==> accounts@.len() > 0,
        r matches Ok(names) ==> names@.len() == accounts@.len() && forall|i: int|
            0 <= i < names@.len() ==> (#[trigger] names@[i])@ == accounts@[i].name@,
        r is Err ==> r == Result::<Vec<String>, Error>::Err(Error::NoAccounts),
{
    if accounts.len() == 0 {
        return Err(Error::NoAccounts);
    }
    let n = accounts.len();
    let mut names: Vec<String> = Vec::new();
    let mut i: usize = 0;
    while i < n
        invariant
            n == accounts@.len(),
            i <= n,
            names@.len() == i,
            forall|u: int| 0 <= u < i ==> (#[trigger] names@[u])@ == accounts@[u].name@,
        decreases n - i,
    {
        names.push(accounts[i].name.clone());
        i = i + 1;
    }
    Ok(names)
}

/// The zone catalog: zone name to zone identifier, names unique, entries
/// in first-occurrence order.
pub struct ZoneCatalog {
    entries: Vec<(String, String)>,
}

impl View for ZoneCatalog {
    type V = Seq<(Seq<char>, Seq<char>)>;

    closed spec fn view(&self) -> Seq<(Seq<char>, Seq<char>)> {
        self.entries@.map_values(|e: (String, String)| (e.0@, e.1@))
    }
}

impl ZoneCatalog {
    /// The zone catalog's invariant: no two entries share a name.
    pub open spec fn wf(&self) -> bool {
        unique_names(self@)
    }

    /// The number of zones catalogued.
    pub fn len(&self) -> (r: usize)
        ensures
            r == self@.len(),
    {
        self.entries.len()
    }

    /// Insert one zone's name and identifier, replacing the identifier in
    /// place when the name is already catalogued.
    fn insert_entry(&mut self, name: String, id: String)
        requires
            old(self).wf(),
        ensures
            final(self)@ == fold_insert(old(self)@, name@, id@),
            final(self).wf(),
    {
        let n = self.entries.len();
        let mut t: usize = 0;
        while t < n
            invariant
                n == self.entries@.len(),
                t <= n,
                *self == *old(self),
                old(self).wf(),
                forall|u: int| 0 <= u < t ==> (#[trigger] self@[u]).0 != name@,
            decreases n - t,
        {
            if self.entries[t].0 == name {
                assert(self@[t as int].0 == name@);
                assert(old(self)@[t as int].0 == name@);
                assert(has_name(old(self)@, name@));
                let ghost chosen = choose|x: int|
                    0 <= x < old(self)@.len() && old(self)@[x].0 == name@;
                proof {
                    lemma_unique_name_index(old(self)@, chosen, t as int);
                    lemma_fold_insert_props(old(self)@, name@, id@);
                }
                self.entries[t] = (name, id);
                assert(self@ =~= fold_insert(old(self)@, name@, id@));
                return ;
            }
            t = t + 1;
        }
        assert(!has_name(self@, name@));
        proof {
            lemma_fold_insert_props(old(self)@, name@, id@);
        }
        self.entries.push((name, id));
        assert(self@ =~= fold_insert(old(self)@, name@, id@));
    }

    /// Build the zone catalog from one zone listing, folding the zones in
    /// response order with last-write-wins on duplicate names.
    pub fn from_zones(zones: Vec<Zone>) -> (r: ZoneCatalog)
        ensures
            r@ == fold_entries(zones_view(zones@)),
            r.wf(),
    {
        let ghost orig = zones@;
        let mut rest = zones;
        let mut cat = ZoneCatalog { entries: Vec::new() };
        let ghost done: int = 0;
        assert(cat@ =~= fold_entries(zones_view(orig.subrange(0, 0))));
        while rest.len() > 0
            invariant
                0 <= done <= orig.len(),
                rest@ =~= orig.subrange(done, orig.len() as int),
                cat@ == fold_entries(zones_view(orig.subrange(0, done))),
                cat.wf(),
            decreases rest@.len(),
        {
            let z = rest.remove(0);
            assert(z == orig[done]);
            let Zone { id, name } = z;
            cat.insert_entry(name, id);
            proof {
                let prev = orig.subrange(0, done);
                let cur = orig.subrange(0, done + 1);
                assert(zones_view(cur).drop_last() =~= zones_view(prev));
                assert(zones_view(cur).last() == (orig[done].name@, orig[done].id@));
                done = done + 1;
            }
        }
        assert(orig.subrange(0, orig.len() as int) =~= orig);
        cat
    }

    /// The zone names to present for selection, in catalog order.
    ///
    /// An empty zone catalog is fatal: no zone can be worked on.
    pub fn zone_options(&self) -> (r: Result<Vec<String>, Error>)
        ensures
            r is Ok <==> self@.len() > 0,
            r matches Ok(names) ==> names@.len() == self@.len() && forall|i: int|
                0 <= i < names@.len() ==> (#[trigger] names@[i])@ == self@[i].0,
            r is Err ==> r == Result::<Vec<String>, Error>::Err(Error::NoZones),
    {
        let n = self.entries.len();
        if n == 0 {
            return Err(Error::NoZones);
        }
        let mut names: Vec<String> = Vec::new();
        let mut i: usize = 0;
        while i < n
            invariant
                n == self.entries@.len(),
                i <= n,
                names@.len() == i,
                forall|u: int| 0 <= u < i ==> (#[trigger] names@[u])@ == self@[u].0,
            decreases n - i,
        {
            names.push(self.entries[i].0.clone());
            i = i + 1;
        }
        Ok(names)
    }

    /// Resolve the selected index into the working pair: the name shown at
    /// that place in the options, with the identifier catalogued under it.
    pub fn resolve(&self, selected: usize) -> (r: Result<ZoneInfo, Error>)
        ensures
            r is Ok <==> selected < self@.len(),
            r matches Ok(z) ==> z.zone_name@ == self@[selected as int].0 && z.zone_identifier@
                == self@[selected as int].1,
            r is Err ==> r == Result::<ZoneInfo, Error>::Err(Error::SelectionOutOfRange),
    {
        if selected >= self.entries.len() {
            return Err(Error::SelectionOutOfRange);
        }
        let name = self.entries[selected].0.clone();
        let id = self.entries[selected].1.clone();
        Ok(ZoneInfo { zone_identifier: id, zone_name: name })
    }
}

} // verus!
