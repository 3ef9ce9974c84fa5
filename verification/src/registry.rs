//! The taxon registry: stable integer identifiers for named tips.
//!
//! Ids are assigned by position in the tip list the external data loader
//! produced, counted from one, so the id assignment is a bijection from
//! ordinal position to position + 1. If the loader allowed duplicate
//! names, a lookup finds the last-assigned id for that name.

use vstd::prelude::*;

verus! {

/// The id the registry over `names` gives to `name`: one more than the
/// position of the last occurrence of `name`, or `None` if `name` does
/// not occur.
pub open spec fn taxon_id(names: Seq<Seq<char>>, name: Seq<char>) -> Option<usize>
    decreases names.len(),
{
    if names.len() == 0 {
        None
    } else if names.last() == name {
        Some(names.len() as usize)
    } else {
        taxon_id(names.drop_last(), name)
    }
}

/// Every id the registry hands out lies in `[1, N]`.
pub proof fn lemma_taxon_id_range(names: Seq<Seq<char>>, name: Seq<char>)
    requires
        taxon_id(names, name) is Some,
        names.len() <= usize::MAX,
    ensures
        1 <= taxon_id(names, name).unwrap() <= names.len(),
    decreases names.len(),
{
    if names.len() > 0 && names.last() != name {
        lemma_taxon_id_range(names.drop_last(), name);
    }
}

/// Registry of the ordered tip list: a read-only view that maps each tip
/// name to its id.
#[derive(Clone, Debug)]
pub struct TaxonRegistry {
    names: Vec<String>,
}

impl View for TaxonRegistry {
    type V = Seq<Seq<char>>;

    closed spec fn view(&self) -> Seq<Seq<char>> {
        self.names.deep_view()
    }
}

impl TaxonRegistry {
    /// Builds the registry from the ordered tip list, assigning
    /// `id = position + 1` to each name.
    pub fn new(names: Vec<String>) -> (r: TaxonRegistry)
        ensures
            r@ == names.deep_view(),
    {
        TaxonRegistry { names }
    }

    /// The number of tips registered.
    pub fn len(&self) -> (n: usize)
        ensures
            n == self@.len(),
    {
        self.names.len()
    }

    /// Hands the ordered tip list back, unchanged, once lookups are done.
    pub fn into_names(self) -> (names: Vec<String>)
        ensures
            names.deep_view() == self@,
    {
        self.names
    }

    /// Looks `name` up, returning the last-assigned id for it.
    pub fn lookup(&self, name: &String) -> (r: Option<usize>)
        ensures
            r == taxon_id(self@, name@),
    {
        proof {
            assert(self@ =~= self@.take(self.names@.len() as int));
        }
        let mut i: usize = self.names.len();
        while i > 0
            invariant
                i <= self.names.len(),
                self@.len() == self.names@.len(),
                taxon_id(self@, name@) == taxon_id(self@.take(i as int), name@),
            decreases i,
        {
            i = i - 1;
            proof {
                assert(self@.take(i + 1).last() == self@[i as int]);
                assert(self@.take(i + 1).drop_last() =~= self@.take(i as int));
            }
            if self.names[i].eq(name) {
                assert(taxon_id(self@.take(i + 1), name@) == Some((i + 1) as usize));
                return Some(i + 1);
            }
        }
        assert(self@.take(0) =~= Seq::<Seq<char>>::empty());
        None
    }
}

/// When tip names are unique, the registry's ids are exactly
/// `{1, …, N}`, one per name, in input order: the name at position `i`
/// gets id `i + 1`.
pub proof fn lemma_registry_ids_match_order(names: Seq<Seq<char>>)
    requires
        forall|i: int, j: int|
            0 <= i < j < names.len() ==> names[i] != names[j],
        names.len() <= usize::MAX,
    ensures
        forall|i: int| 0 <= i < names.len() ==> taxon_id(names, #[trigger] names[i]) == Some((i + 1) as usize),
    decreases names.len(),
{
    if names.len() > 0 {
        let prefix = names.drop_last();
        lemma_registry_ids_match_order(prefix);
        assert forall|i: int| 0 <= i < names.len() implies taxon_id(names, #[trigger] names[i])
            == Some((i + 1) as usize) by {
            if i == names.len() - 1 {
                assert(names.last() == names[i]);
            } else {
                assert(names.last() != names[i]);
                assert(prefix[i] == names[i]);
                assert(taxon_id(prefix, names[i]) == Some((i + 1) as usize));
            }
        }
    }
}

} // verus!
