//! The persistent capture-date catalog: an ordered list of
//! filename/datetime entries, reconciled against a live directory listing by
//! adding entries for newly listed files and dropping entries whose file is
//! gone. An entry, once written, is never rewritten.

use vstd::prelude::*;

use crate::text::str_eq;

verus! {

/// One catalog record: a media file name and its resolved capture datetime
/// in the catalog's `YYYY-MM-DDTHH:MM:SS` form.
#[derive(Debug)]
pub struct MetaMedia {
    pub name: String,
    pub datetime: String,
}

impl Clone for MetaMedia {
    fn clone(&self) -> (r: Self)
        ensures
            r == *self,
    {
        MetaMedia { name: self.name.clone(), datetime: self.datetime.clone() }
    }
}

/// What one reconciliation did.
#[derive(Clone, Copy, Debug, PartialEq, Eq, Structural)]
pub struct UpdateReport {
    pub added: usize,
    pub removed: usize,
}

/// The loaded catalog. Persistence is the caller's concern; reconciliation
/// and lookup are this type's.
#[derive(Debug)]
pub struct MediaLibrary {
    pub entries: Vec<MetaMedia>,
}

/// Whether some entry carries the name `n`.
pub open spec fn contains_name(entries: Seq<MetaMedia>, n: Seq<char>) -> bool {
    exists|i: int| 0 <= i < entries.len() && entries[i].name@ == n
}

/// Whether the listing carries the name `n`.
pub open spec fn listing_has(listing: Seq<String>, n: Seq<char>) -> bool {
    exists|i: int| 0 <= i < listing.len() && listing[i]@ == n
}

/// The datetime of the first entry named `n`.
pub open spec fn lookup_spec(entries: Seq<MetaMedia>, n: Seq<char>) -> Option<Seq<char>>
    decreases entries.len(),
{
    if entries.len() == 0 {
        None
    } else if entries[0].name@ == n {
        Some(entries[0].datetime@)
    } else {
        lookup_spec(entries.skip(1), n)
    }
}

/// The listed names that no entry carries yet, in listing order.
pub open spec fn missing_spec(entries: Seq<MetaMedia>, listing: Seq<String>) -> Seq<String>
    decreases listing.len(),
{
    if listing.len() == 0 {
        Seq::empty()
    } else {
        let rest = missing_spec(entries, listing.drop_last());
        if !contains_name(entries, listing.last()@) {
            rest.push(listing.last())
        } else {
            rest
        }
    }
}

/// The entries whose file is still listed, in their original order.
pub open spec fn retained_spec(entries: Seq<MetaMedia>, listing: Seq<String>) -> Seq<MetaMedia>
    decreases entries.len(),
{
    if entries.len() == 0 {
        Seq::empty()
    } else {
        let rest = retained_spec(entries.drop_last(), listing);
        if listing_has(listing, entries.last().name@) {
            rest.push(entries.last())
        } else {
            rest
        }
    }
}

proof fn lemma_lookup_skip(entries: Seq<MetaMedia>, n: Seq<char>, i: int)
    requires
        0 <= i <= entries.len(),
        forall|j: int| 0 <= j < i ==> entries[j].name@ != n,
    ensures
        lookup_spec(entries, n) == lookup_spec(entries.skip(i), n),
    decreases i,
{
    if i > 0 {
        lemma_lookup_skip(entries.skip(1), n, i - 1);
        assert(entries.skip(1).skip(i - 1) =~= entries.skip(i));
    } else {
        assert(entries.skip(0) =~= entries);
    }
}

fn has_entry_name(entries: &Vec<MetaMedia>, n: &str) -> (r: bool)
    ensures
        r == contains_name(entries@, n@),
{
    let mut i: usize = 0;
    while i < entries.len()
        invariant
            0 <= i <= entries@.len(),
            forall|j: int| 0 <= j < i ==> entries@[j].name@ != n@,
        decreases entries@.len() - i,
    {
        if str_eq(entries[i].name.as_str(), n) {
            return true;
        }
        i += 1;
    }
    false
}

fn listing_has_name(listing: &Vec<String>, n: &str) -> (r: bool)
    ensures
        r == listing_has(listing@, n@),
{
    let mut i: usize = 0;
    while i < listing.len()
        invariant
            0 <= i <= listing@.len(),
            forall|j: int| 0 <= j < i ==> listing@[j]@ != n@,
        decreases listing@.len() - i,
    {
        if str_eq(listing[i].as_str(), n) {
            return true;
        }
        i += 1;
    }
    false
}

impl MediaLibrary {
    /// A catalog with no entries yet.
    pub fn empty() -> (r: MediaLibrary)
        ensures
            r.entries@ == Seq::<MetaMedia>::empty(),
    {
        MediaLibrary { entries: Vec::new() }
    }

    /// The recorded capture datetime of `filename`, if it is catalogued.
    pub fn get_datetime<'a>(&'a self, filename: &str) -> (r: Option<&'a str>)
        ensures
            match r {
                Some(d) => lookup_spec(self.entries@, filename@) == Some(d@),
                None => lookup_spec(self.entries@, filename@) is None,
            },
    {
        let mut i: usize = 0;
        while i < self.entries.len()
            invariant
                0 <= i <= self.entries@.len(),
                forall|j: int| 0 <= j < i ==> self.entries@[j].name@ != filename@,
            decreases self.entries@.len() - i,
        {
            if str_eq(self.entries[i].name.as_str(), filename) {
                proof {
                    lemma_lookup_skip(self.entries@, filename@, i as int);
                    assert(self.entries@.skip(i as int)[0] == self.entries@[i as int]);
                }
                return Some(self.entries[i].datetime.as_str());
            }
            i += 1;
        }
        proof {
            lemma_lookup_skip(self.entries@, filename@, i as int);
            assert(self.entries@.skip(i as int) =~= Seq::<MetaMedia>::empty());
        }
        None
    }

    /// The listed file names that are not catalogued yet, in listing order:
    /// the files whose capture date reconciliation must resolve.
    pub fn missing_names(&self, listing: &Vec<String>) -> (r: Vec<String>)
        ensures
            r@ == missing_spec(self.entries@, listing@),
    {
        let mut r: Vec<String> = Vec::new();
        let mut i: usize = 0;
        while i < listing.len()
            invariant
                0 <= i <= listing@.len(),
                r@ == missing_spec(self.entries@, listing@.take(i as int)),
            decreases listing@.len() - i,
        {
            proof {
                assert(listing@.take(i + 1).drop_last() =~= listing@.take(i as int));
                assert(listing@.take(i + 1).last() == listing@[i as int]);
            }
            if !has_entry_name(&self.entries, listing[i].as_str()) {
                r.push(listing[i].clone());
            }
            i += 1;
        }
        proof {
            assert(listing@.take(listing@.len() as int) =~= listing@);
        }
        r
    }

    /// Reconcile the catalog against a directory listing: keep the entries
    /// whose file is still listed, append one resolved entry per newly listed
    /// file, and report how many were added and removed. Existing entries are
    /// never rewritten.
    ///
    /// `resolved` must carry exactly the names [`missing_names`] reports, in
    /// that order, each with its resolved capture datetime.
    pub fn update_metadata(&mut self, listing: &Vec<String>, resolved: Vec<MetaMedia>) -> (r:
        UpdateReport)
        requires
            resolved@.len() == missing_spec(old(self).entries@, listing@).len(),
            forall|j: int|
                0 <= j < resolved@.len() ==> resolved@[j].name@ == missing_spec(
                    old(self).entries@,
                    listing@,
                )[j]@,
        ensures
            final(self).entries@ == retained_spec(old(self).entries@, listing@) + resolved@,
            r.added == resolved@.len(),
            r.removed == old(self).entries@.len() - retained_spec(
                old(self).entries@,
                listing@,
            ).len(),
    {
        let before_len = self.entries.len();
        let added = resolved.len();
        let mut kept: Vec<MetaMedia> = Vec::new();
        let mut i: usize = 0;
        while i < self.entries.len()
            invariant
                0 <= i <= self.entries@.len(),
                kept@ == retained_spec(self.entries@.take(i as int), listing@),
                kept@.len() <= i,
                self.entries@ == old(self).entries@,
            decreases self.entries@.len() - i,
        {
            proof {
                assert(self.entries@.take(i + 1).drop_last() =~= self.entries@.take(i as int));
                assert(self.entries@.take(i + 1).last() == self.entries@[i as int]);
            }
            if listing_has_name(listing, self.entries[i].name.as_str()) {
                kept.push(self.entries[i].clone());
            }
            i += 1;
        }
        proof {
            assert(self.entries@.take(self.entries@.len() as int) =~= self.entries@);
        }
        let removed = before_len - kept.len();
        let mut resolved = resolved;
        kept.append(&mut resolved);
        self.entries = kept;
        UpdateReport { added, removed }
    }
}

/// With no source changes — every catalogued name still listed and every
/// listed name already catalogued — reconciliation adds nothing, removes
/// nothing, and leaves the entries exactly as they were.
pub proof fn lemma_reconcile_idempotent(entries: Seq<MetaMedia>, listing: Seq<String>)
    requires
        forall|i: int| 0 <= i < listing.len() ==> contains_name(entries, listing[i]@),
        forall|i: int| 0 <= i < entries.len() ==> listing_has(listing, entries[i].name@),
    ensures
        missing_spec(entries, listing) == Seq::<String>::empty(),
        retained_spec(entries, listing) == entries,
{
    lemma_reconcile_missing_empty(entries, listing);
    lemma_reconcile_retained_all(entries, listing);
}

proof fn lemma_reconcile_missing_empty(entries: Seq<MetaMedia>, listing: Seq<String>)
    requires
        forall|i: int| 0 <= i < listing.len() ==> contains_name(entries, listing[i]@),
    ensures
        missing_spec(entries, listing) == Seq::<String>::empty(),
    decreases listing.len(),
{
    if listing.len() > 0 {
        lemma_reconcile_missing_empty(entries, listing.drop_last());
        assert(contains_name(entries, listing.last()@));
    }
}

proof fn lemma_reconcile_retained_all(entries: Seq<MetaMedia>, listing: Seq<String>)
    requires
        forall|i: int| 0 <= i < entries.len() ==> listing_has(listing, entries[i].name@),
    ensures
        retained_spec(entries, listing) == entries,
    decreases entries.len(),
{
    if entries.len() > 0 {
        lemma_reconcile_retained_all(entries.drop_last(), listing);
        assert(listing_has(listing, entries.last().name@));
        assert(retained_spec(entries, listing) =~= entries);
    }
}

} // verus!
