//! The factoid and error-record store: the narrow storage interface the
//! resolver and the bulk converter rely on, realized in memory with verified
//! contracts — exact label lookup, create-or-replace insertion, and
//! append-only error records.

use vstd::prelude::*;

use crate::model::ErrorRecord;
use crate::model::ErrorRecordView;
use crate::model::Factoid;
use crate::model::FactoidView;
use crate::model::WinErrorVariant;
use crate::text::str_eq;

verus! {

/// The label-to-factoid map denoted by a sequence of factoids, later entries
/// overriding earlier ones with the same label.
pub open spec fn factoids_as_map(s: Seq<FactoidView>) -> Map<Seq<char>, FactoidView>
    decreases s.len(),
{
    if s.len() == 0 {
        Map::empty()
    } else {
        factoids_as_map(s.drop_last()).insert(s.last().label, s.last())
    }
}

proof fn lemma_factoids_as_map_domain(s: Seq<FactoidView>, label: Seq<char>)
    ensures
        factoids_as_map(s).contains_key(label) <==> exists|i: int|
            0 <= i < s.len() && s[i].label == label,
    decreases s.len(),
{
    if s.len() > 0 {
        lemma_factoids_as_map_domain(s.drop_last(), label);
        if s.last().label != label && factoids_as_map(s).contains_key(label) {
            let i = choose|i: int| 0 <= i < s.drop_last().len() && s.drop_last()[i].label == label;
            assert(s[i].label == label);
        }
        if exists|i: int| 0 <= i < s.len() && s[i].label == label {
            let i = choose|i: int| 0 <= i < s.len() && s[i].label == label;
            if i < s.len() - 1 {
                assert(s.drop_last()[i].label == label);
            }
        }
    }
}

proof fn lemma_factoids_as_map_at(s: Seq<FactoidView>, i: int)
    requires
        0 <= i < s.len(),
        forall|j: int, k: int| 0 <= j < k < s.len() ==> s[j].label != s[k].label,
    ensures
        factoids_as_map(s).contains_key(s[i].label),
        factoids_as_map(s)[s[i].label] == s[i],
    decreases s.len(),
{
    if i == s.len() - 1 {
    } else {
        lemma_factoids_as_map_at(s.drop_last(), i);
        assert(s.last().label != s[i].label);
    }
}

/// The store of factoids and error records. Factoid labels are unique, so
/// the sequence of factoids denotes a map without loss.
pub struct Store {
    factoids: Vec<Factoid>,
    errors: Vec<ErrorRecord>,
}

impl Store {
    /// Well-formedness: no two stored factoids share a label.
    pub closed spec fn wf(self) -> bool {
        forall|j: int, k: int|
            0 <= j < k < self.factoids_seq().len() ==> self.factoids_seq()[j].label
                != self.factoids_seq()[k].label
    }

    /// The stored factoids, in iteration order. The order carries no
    /// meaning; it is exposed only because export walks it.
    pub closed spec fn factoids_seq(self) -> Seq<FactoidView> {
        self.factoids@.map_values(|f: Factoid| f@)
    }

    /// The label-to-factoid map the store denotes.
    pub open spec fn factoid_map(self) -> Map<Seq<char>, FactoidView> {
        factoids_as_map(self.factoids_seq())
    }

    /// The stored error records, in insertion order.
    pub closed spec fn errors_seq(self) -> Seq<ErrorRecordView> {
        self.errors@.map_values(|e: ErrorRecord| e@)
    }

    /// An empty store.
    pub fn new() -> (r: Store)
        ensures
            r.wf(),
            r.factoid_map() == Map::<Seq<char>, FactoidView>::empty(),
            r.factoids_seq() == Seq::<FactoidView>::empty(),
            r.errors_seq() == Seq::<ErrorRecordView>::empty(),
    {
        let r = Store { factoids: Vec::new(), errors: Vec::new() };
        proof {
            assert(r.factoids_seq() =~= Seq::<FactoidView>::empty());
            assert(r.errors_seq() =~= Seq::<ErrorRecordView>::empty());
        }
        r
    }

    /// Exact, case-sensitive lookup of a factoid by label.
    pub fn get_factoid(&self, label: &str) -> (r: Option<&Factoid>)
        requires
            self.wf(),
        ensures
            match r {
                Some(f) => self.factoid_map().contains_key(label@) && f@
                    == self.factoid_map()[label@],
                None => !self.factoid_map().contains_key(label@),
            },
    {
        let ghost s = self.factoids_seq();
        let mut i: usize = 0;
        while i < self.factoids.len()
            invariant
                self.wf(),
                s == self.factoids_seq(),
                i <= self.factoids@.len(),
                s.len() == self.factoids@.len(),
                forall|j: int| 0 <= j < i ==> s[j].label != label@,
            decreases self.factoids@.len() - i,
        {
            if str_eq(self.factoids[i].label.as_str(), label) {
                proof {
                    lemma_factoids_as_map_at(s, i as int);
                }
                return Some(&self.factoids[i]);
            }
            i += 1;
        }
        proof {
            lemma_factoids_as_map_domain(s, label@);
        }
        None
    }

    /// Inserts a factoid, replacing any stored factoid with the same label.
    pub fn create_or_replace(&mut self, factoid: Factoid)
        requires
            old(self).wf(),
        ensures
            final(self).wf(),
            final(self).factoid_map() =~= old(self).factoid_map().insert(factoid@.label, factoid@),
            final(self).errors_seq() == old(self).errors_seq(),
    {
        let ghost s = self.factoids_seq();
        let ghost fv = factoid@;
        let mut i: usize = 0;
        while i < self.factoids.len()
            invariant
                *self == *old(self),
                self.wf(),
                s == self.factoids_seq(),
                i <= self.factoids@.len(),
                s.len() == self.factoids@.len(),
                forall|j: int| 0 <= j < i ==> s[j].label != fv.label,
                fv == factoid@,
            decreases self.factoids@.len() - i,
        {
            if str_eq(self.factoids[i].label.as_str(), factoid.label.as_str()) {
                let ghost idx = i as int;
                self.factoids.set(i, factoid);
                proof {
                    assert(self.factoids_seq() =~= s.update(idx, fv));
                    lemma_update_as_insert(s, idx, fv);
                }
                return ;
            }
            i += 1;
        }
        self.factoids.push(factoid);
        proof {
            assert(self.factoids_seq() =~= s.push(fv));
            assert(self.factoids_seq().drop_last() =~= s);
            lemma_factoids_as_map_domain(s, fv.label);
            assert forall|j: int, k: int|
                0 <= j < k < self.factoids_seq().len() implies self.factoids_seq()[j].label
                != self.factoids_seq()[k].label by {
                if k == s.len() {
                    assert(s[j].label != fv.label);
                }
            }
        }
    }

    /// Every stored factoid, for export.
    pub fn all_factoids(&self) -> (r: &Vec<Factoid>)
        ensures
            r@.map_values(|f: Factoid| f@) == self.factoids_seq(),
    {
        &self.factoids
    }

    /// Appends an error-table record.
    pub fn create_error(
        &mut self,
        code: u32,
        variant: WinErrorVariant,
        name: String,
        description: String,
    )
        ensures
            final(self).wf() == old(self).wf(),
            final(self).factoid_map() == old(self).factoid_map(),
            final(self).factoids_seq() == old(self).factoids_seq(),
            final(self).errors_seq() =~= old(self).errors_seq().push(
                ErrorRecordView { code, variant, name: name@, description: description@ },
            ),
    {
        self.errors.push(ErrorRecord { code, variant, name, description });
    }

    /// Every stored error record.
    pub fn all_errors(&self) -> (r: &Vec<ErrorRecord>)
        ensures
            r@.map_values(|e: ErrorRecord| e@) == self.errors_seq(),
    {
        &self.errors
    }
}

proof fn lemma_update_as_insert(s: Seq<FactoidView>, i: int, fv: FactoidView)
    requires
        0 <= i < s.len(),
        s[i].label == fv.label,
        forall|j: int, k: int| 0 <= j < k < s.len() ==> s[j].label != s[k].label,
    ensures
        forall|j: int, k: int|
            0 <= j < k < s.update(i, fv).len() ==> s.update(i, fv)[j].label != s.update(
                i,
                fv,
            )[k].label,
        factoids_as_map(s.update(i, fv)) =~= factoids_as_map(s).insert(fv.label, fv),
    decreases s.len(),
{
    if i == s.len() - 1 {
        assert(s.update(i, fv).drop_last() =~= s.drop_last());
        assert(s.update(i, fv).last() == fv);
    } else {
        lemma_update_as_insert(s.drop_last(), i, fv);
        assert(s.update(i, fv).drop_last() =~= s.drop_last().update(i, fv));
        assert(s.update(i, fv).last() == s.last());
        assert(s.last().label != fv.label);
        assert(factoids_as_map(s.update(i, fv)) =~= factoids_as_map(s.drop_last()).insert(
            fv.label,
            fv,
        ).insert(s.last().label, s.last()));
        assert(factoids_as_map(s.drop_last()).insert(fv.label, fv).insert(
            s.last().label,
            s.last(),
        ) =~= factoids_as_map(s).insert(fv.label, fv));
    }
}

} // verus!
