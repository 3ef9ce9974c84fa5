//! The calibration mapper: resolves named age-calibration bounds against
//! the taxon registry.
//!
//! Lookups are fail-fast, not best-effort: a single unknown name aborts
//! the whole build, and nothing after it is processed.

use vstd::prelude::*;

use crate::config::{Calibration, Real};
use crate::error::{ConfigError, ErrorModel};
use crate::registry::{taxon_id, TaxonRegistry};

verus! {

/// What the mapper returns for the calibration list `cals` over the tip
/// names `names`: each entry's taxon name replaced by its id and its
/// bounds kept exactly, in input order, or the unknown name of the first
/// entry that does not resolve.
pub open spec fn spec_map_calibrations(
    names: Seq<Seq<char>>,
    cals: Seq<(Seq<char>, (Real, Real))>,
) -> Result<Seq<(usize, Calibration)>, ErrorModel>
    decreases cals.len(),
{
    if cals.len() == 0 {
        Ok(Seq::empty())
    } else {
        match spec_map_calibrations(names, cals.drop_last()) {
            Err(e) => Err(e),
            Ok(s) => match taxon_id(names, cals.last().0) {
                Some(id) => Ok(
                    s.push((id, Calibration { low: cals.last().1.0, high: cals.last().1.1 })),
                ),
                None => Err(ErrorModel::UnknownTaxon { name: cals.last().0 }),
            },
        }
    }
}

/// Once some prefix of the calibration list has failed, every longer
/// list fails the same way: the first error is the build's error.
pub proof fn lemma_map_calibrations_err_extends(
    names: Seq<Seq<char>>,
    cals: Seq<(Seq<char>, (Real, Real))>,
    k: int,
)
    requires
        0 <= k <= cals.len(),
        spec_map_calibrations(names, cals.take(k)) is Err,
    ensures
        spec_map_calibrations(names, cals) == spec_map_calibrations(names, cals.take(k)),
    decreases cals.len(),
{
    if k == cals.len() {
        assert(cals.take(k) =~= cals);
    } else {
        assert(cals.drop_last().take(k) =~= cals.take(k));
        lemma_map_calibrations_err_extends(names, cals.drop_last(), k);
    }
}

/// Maps each calibration's taxon name to its id, keeping the bounds
/// exactly; see [`spec_map_calibrations`].
pub fn map_calibrations(reg: &TaxonRegistry, cals: &Vec<(String, (Real, Real))>) -> (r: Result<
    Vec<(usize, Calibration)>,
    ConfigError,
>)
    ensures
        (match r {
            Ok(v) => spec_map_calibrations(reg@, cals.deep_view()) == Ok::<
                Seq<(usize, Calibration)>,
                ErrorModel,
            >(v@),
            Err(e) => spec_map_calibrations(reg@, cals.deep_view()) == Err::<
                Seq<(usize, Calibration)>,
                ErrorModel,
            >(e@),
        }),
{
    let ghost model = cals.deep_view();
    let mut out: Vec<(usize, Calibration)> = Vec::new();
    proof {
        assert(model.take(0) =~= Seq::<(Seq<char>, (Real, Real))>::empty());
    }
    for i in 0..cals.len()
        invariant
            model == cals.deep_view(),
            spec_map_calibrations(reg@, model.take(i as int)) == Ok::<
                Seq<(usize, Calibration)>,
                ErrorModel,
            >(out@),
    {
        proof {
            assert(model.take(i + 1).drop_last() =~= model.take(i as int));
            assert(model.take(i + 1).last() == model[i as int]);
            assert(model[i as int].0 == cals@[i as int].0@);
            assert(model[i as int].1 == cals@[i as int].1);
        }
        let name = &cals[i].0;
        match reg.lookup(name) {
            Some(id) => {
                let c = Calibration { low: cals[i].1.0, high: cals[i].1.1 };
                out.push((id, c));
            },
            None => {
                proof {
                    lemma_map_calibrations_err_extends(reg@, model, i + 1);
                }
                return Err(ConfigError::UnknownTaxon { name: name.clone() });
            },
        }
    }
    proof {
        assert(model.take(cals@.len() as int) =~= model);
    }
    Ok(out)
}

} // verus!
