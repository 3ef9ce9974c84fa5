//! The constraint graph resolver: turns the ordered list of named,
//! possibly interdependent constraint declarations into concrete tip-id
//! sets plus optional ancestor ids.
//!
//! Declarations are processed strictly in input order and each becomes
//! visible to later ones only after it has fully resolved, so a
//! declaration can reference only declarations that appear earlier: the
//! total order of processing, not a cycle check, rules out forward and
//! self references. Within a clade, a tag is tried as a taxon name first
//! and as a declaration name second, so a taxon always shadows a
//! same-named earlier declaration. The resolved clade is kept duplicate
//! free, in order of first occurrence; an id contributed both by a
//! referenced declaration and directly (or by the ancestor tag) appears
//! once.

use vstd::prelude::*;

use crate::config::{Constraint, ConstraintModel};
use crate::error::{ConfigError, ErrorModel};
use crate::manifest::{DeclModel, MConstraint};
use crate::registry::{taxon_id, TaxonRegistry};

verus! {

/// The position of the last declaration named `tag` in `decl_names`, or
/// `None` if no declaration has that name. With duplicate declaration
/// names the last one wins, mirroring [`taxon_id`](crate::registry::taxon_id).
pub open spec fn decl_index(decl_names: Seq<Seq<char>>, tag: Seq<char>) -> Option<usize>
    decreases decl_names.len(),
{
    if decl_names.len() == 0 {
        None
    } else if decl_names.last() == tag {
        Some((decl_names.len() - 1) as usize)
    } else {
        decl_index(decl_names.drop_last(), tag)
    }
}

/// Every index [`decl_index`] hands out points at a declaration.
pub proof fn lemma_decl_index_range(decl_names: Seq<Seq<char>>, tag: Seq<char>)
    requires
        decl_index(decl_names, tag) is Some,
        decl_names.len() <= usize::MAX,
    ensures
        decl_index(decl_names, tag).unwrap() < decl_names.len(),
    decreases decl_names.len(),
{
    if decl_names.len() > 0 && decl_names.last() != tag {
        lemma_decl_index_range(decl_names.drop_last(), tag);
    }
}

/// The ancestor id's contribution to a referencing declaration: itself,
/// or nothing when the constraint is clade-only.
pub open spec fn opt_id_seq(ancestor: Option<usize>) -> Seq<usize> {
    match ancestor {
        Some(id) => seq![id],
        None => Seq::empty(),
    }
}

/// The tip ids a single clade tag contributes, in a context of tip
/// `names` and already-resolved constraints: a known taxon name
/// contributes its id (taxa take priority); otherwise the name of an
/// already-resolved declaration contributes that declaration's whole
/// clade followed by its ancestor id, if it carries one; any other tag
/// contributes nothing and fails the build.
pub open spec fn tag_expansion(
    names: Seq<Seq<char>>,
    resolved: Seq<ConstraintModel>,
    decl_names: Seq<Seq<char>>,
    tag: Seq<char>,
) -> Option<Seq<usize>> {
    match taxon_id(names, tag) {
        Some(id) => Some(seq![id]),
        None => match decl_index(decl_names, tag) {
            Some(j) => if j < resolved.len() {
                Some(resolved[j as int].tips + opt_id_seq(resolved[j as int].ancestor))
            } else {
                None
            },
            None => None,
        },
    }
}

/// The concatenated expansions of a clade's tags, or the first tag that
/// expands to nothing.
pub open spec fn clade_expansion(
    names: Seq<Seq<char>>,
    resolved: Seq<ConstraintModel>,
    decl_names: Seq<Seq<char>>,
    tags: Seq<Seq<char>>,
) -> Result<Seq<usize>, Seq<char>>
    decreases tags.len(),
{
    if tags.len() == 0 {
        Ok(Seq::empty())
    } else {
        match clade_expansion(names, resolved, decl_names, tags.drop_last()) {
            Err(t) => Err(t),
            Ok(s) => match tag_expansion(names, resolved, decl_names, tags.last()) {
                Some(e) => Ok(s + e),
                None => Err(tags.last()),
            },
        }
    }
}

/// `acc` extended with each element of `s` in turn, skipping those
/// already present: left-to-right deduplication into an accumulator.
pub open spec fn dedup_into(acc: Seq<usize>, s: Seq<usize>) -> Seq<usize>
    decreases s.len(),
{
    if s.len() == 0 {
        acc
    } else {
        let r = dedup_into(acc, s.drop_last());
        if r.contains(s.last()) {
            r
        } else {
            r.push(s.last())
        }
    }
}

/// `s` with every repeated element dropped, keeping first occurrences in
/// order.
pub open spec fn dedup(s: Seq<usize>) -> Seq<usize> {
    dedup_into(Seq::empty(), s)
}

/// Deduplication processes a concatenation left part first.
pub proof fn lemma_dedup_into_concat(acc: Seq<usize>, a: Seq<usize>, b: Seq<usize>)
    ensures
        dedup_into(acc, a + b) == dedup_into(dedup_into(acc, a), b),
    decreases b.len(),
{
    if b.len() == 0 {
        assert(a + b =~= a);
    } else {
        assert((a + b).drop_last() =~= a + b.drop_last());
        assert((a + b).last() == b.last());
        lemma_dedup_into_concat(acc, a, b.drop_last());
    }
}

/// Absorbing a single id deduplicates exactly one step.
pub proof fn lemma_dedup_into_one(acc: Seq<usize>, x: usize)
    ensures
        dedup_into(acc, seq![x]) == (if acc.contains(x) {
            acc
        } else {
            acc.push(x)
        }),
{
    assert(seq![x].drop_last() =~= Seq::<usize>::empty());
    assert(dedup_into(acc, seq![x].drop_last()) == acc);
}

/// The fully resolved form of one declaration in a given context, or the
/// error that aborts the build: the first unresolvable clade tag, else an
/// ancestor tag that names no taxon. The ancestor is resolved through
/// the registry alone — a declaration name is not accepted there.
pub open spec fn resolve_decl(
    names: Seq<Seq<char>>,
    resolved: Seq<ConstraintModel>,
    decl_names: Seq<Seq<char>>,
    d: DeclModel,
) -> Result<ConstraintModel, ErrorModel> {
    match clade_expansion(names, resolved, decl_names, d.clade) {
        Err(t) => Err(ErrorModel::UnresolvedTag { constraint: d.name, tag: t }),
        Ok(s) => match d.ancestor {
            None => Ok(ConstraintModel { tips: dedup(s), ancestor: None }),
            Some(t) => match taxon_id(names, t) {
                Some(id) => Ok(ConstraintModel { tips: dedup(s), ancestor: Some(id) }),
                None => Err(ErrorModel::UnknownTaxon { name: t }),
            },
        },
    }
}

/// The names of the declarations in `decls`, in order.
pub open spec fn decl_names_of(decls: Seq<DeclModel>) -> Seq<Seq<char>> {
    decls.map_values(|d: DeclModel| d.name)
}

/// The resolved forms of the first `n` declarations, or the error of the
/// first one that fails.
pub open spec fn resolve_prefix(names: Seq<Seq<char>>, decls: Seq<DeclModel>, n: int) -> Result<
    Seq<ConstraintModel>,
    ErrorModel,
>
    decreases n,
{
    if n <= 0 {
        Ok(Seq::empty())
    } else {
        match resolve_prefix(names, decls, n - 1) {
            Err(e) => Err(e),
            Ok(c) => match resolve_decl(names, c, decl_names_of(decls.take(n - 1)), decls[n - 1]) {
                Err(e) => Err(e),
                Ok(r) => Ok(c.push(r)),
            },
        }
    }
}

/// What the resolver returns for the whole declaration list.
pub open spec fn spec_resolve_constraints(
    names: Seq<Seq<char>>,
    decls: Seq<DeclModel>,
) -> Result<Seq<ConstraintModel>, ErrorModel> {
    resolve_prefix(names, decls, decls.len() as int)
}

/// Once some prefix of the declarations has failed, the whole list fails
/// the same way: the first error is the build's error.
pub proof fn lemma_resolve_prefix_err_extends(
    names: Seq<Seq<char>>,
    decls: Seq<DeclModel>,
    k: int,
    n: int,
)
    requires
        0 <= k <= n <= decls.len(),
        resolve_prefix(names, decls, k) is Err,
    ensures
        resolve_prefix(names, decls, n) == resolve_prefix(names, decls, k),
    decreases n,
{
    if n > k {
        lemma_resolve_prefix_err_extends(names, decls, k, n - 1);
    }
}

/// Whether `x` occurs in `v`.
fn vec_contains(v: &Vec<usize>, x: usize) -> (b: bool)
    ensures
        b == v@.contains(x),
{
    for i in 0..v.len()
        invariant
            forall|k: int| 0 <= k < i ==> v@[k] != x,
    {
        if v[i] == x {
            return true;
        }
    }
    false
}

/// Appends `x` unless it is already present.
fn push_unique(v: &mut Vec<usize>, x: usize)
    ensures
        final(v)@ == (if old(v)@.contains(x) {
            old(v)@
        } else {
            old(v)@.push(x)
        }),
{
    if !vec_contains(v, x) {
        v.push(x);
    }
}

/// Absorbs each id of `ids`, in order, into `tips`, skipping duplicates.
fn absorb_ids(tips: &mut Vec<usize>, ids: &Vec<usize>)
    ensures
        final(tips)@ == dedup_into(old(tips)@, ids@),
{
    for k in 0..ids.len()
        invariant
            tips@ == dedup_into(old(tips)@, ids@.take(k as int)),
    {
        proof {
            assert(ids@.take(k + 1).drop_last() =~= ids@.take(k as int));
            assert(ids@.take(k + 1).last() == ids@[k as int]);
        }
        push_unique(tips, ids[k]);
    }
    proof {
        assert(ids@.take(ids@.len() as int) =~= ids@);
    }
}

/// The position of the last already-resolved declaration named `tag`.
fn decl_lookup(decl_names: &Vec<String>, tag: &String) -> (r: Option<usize>)
    ensures
        r == decl_index(decl_names.deep_view(), tag@),
{
    proof {
        assert(decl_names.deep_view() =~= decl_names.deep_view().take(decl_names@.len() as int));
    }
    let mut i: usize = decl_names.len();
    while i > 0
        invariant
            i <= decl_names.len(),
            decl_names.deep_view().len() == decl_names@.len(),
            decl_index(decl_names.deep_view(), tag@) == decl_index(
                decl_names.deep_view().take(i as int),
                tag@,
            ),
        decreases i,
    {
        i = i - 1;
        proof {
            assert(decl_names.deep_view().take(i + 1).last() == decl_names.deep_view()[i as int]);
            assert(decl_names.deep_view().take(i + 1).drop_last() =~= decl_names.deep_view().take(
                i as int,
            ));
        }
        if decl_names[i].eq(tag) {
            return Some(i);
        }
    }
    assert(decl_names.deep_view().take(0) =~= Seq::<Seq<char>>::empty());
    None
}

/// Resolves the declarations strictly in input order; see
/// [`spec_resolve_constraints`]. On the first failure the whole build
/// aborts and no constraint list is produced.
#[verifier::loop_isolation(false)]
pub fn resolve_constraints(reg: &TaxonRegistry, decls: &Vec<MConstraint>) -> (r: Result<
    Vec<Constraint>,
    ConfigError,
>)
    ensures
        (match r {
            Ok(v) => spec_resolve_constraints(reg@, decls.deep_view()) == Ok::<
                Seq<ConstraintModel>,
                ErrorModel,
            >(v.deep_view()),
            Err(e) => spec_resolve_constraints(reg@, decls.deep_view()) == Err::<
                Seq<ConstraintModel>,
                ErrorModel,
            >(e@),
        }),
{
    let ghost dm = decls.deep_view();
    let mut built: Vec<Constraint> = Vec::new();
    let mut resolved_names: Vec<String> = Vec::new();
    proof {
        assert(built.deep_view() =~= Seq::<ConstraintModel>::empty());
        assert(dm.take(0) =~= Seq::<DeclModel>::empty());
        assert(decl_names_of(dm.take(0)) =~= Seq::<Seq<char>>::empty());
        assert(resolved_names.deep_view() =~= Seq::<Seq<char>>::empty());
    }
    for i in 0..decls.len()
        invariant
            resolve_prefix(reg@, dm, i as int) == Ok::<Seq<ConstraintModel>, ErrorModel>(
                built.deep_view(),
            ),
            resolved_names.deep_view() == decl_names_of(dm.take(i as int)),
            built@.len() == i,
            resolved_names@.len() == i,
    {
        let decl = &decls[i];
        let ghost d = dm[i as int];
        let ghost ctx_resolved = built.deep_view();
        let ghost ctx_names = resolved_names.deep_view();
        proof {
            assert(d.name == decl.name@);
            assert(d.clade == decl.clade.deep_view());
            assert(d.ancestor == decl.ancestor.deep_view());
        }

        let mut tips: Vec<usize> = Vec::new();
        proof {
            assert(d.clade.take(0) =~= Seq::<Seq<char>>::empty());
        }
        for t in 0..decl.clade.len()
            invariant
                built.deep_view() == ctx_resolved,
                resolved_names.deep_view() == ctx_names,
                clade_expansion(reg@, ctx_resolved, ctx_names, d.clade.take(t as int)) is Ok,
                tips@ == dedup(
                    clade_expansion(reg@, ctx_resolved, ctx_names, d.clade.take(t as int))->Ok_0,
                ),
        {
            let ghost exp = clade_expansion(
                reg@,
                ctx_resolved,
                ctx_names,
                d.clade.take(t as int),
            )->Ok_0;
            proof {
                assert(d.clade.take(t + 1).drop_last() =~= d.clade.take(t as int));
                assert(d.clade.take(t + 1).last() == d.clade[t as int]);
            }
            let tag = &decl.clade[t];
            proof {
                assert(tag@ == d.clade[t as int]);
            }
            match reg.lookup(tag) {
                Some(id) => {
                    proof {
                        assert(tag_expansion(reg@, ctx_resolved, ctx_names, tag@) == Some(
                            seq![id],
                        ));
                        assert(clade_expansion(reg@, ctx_resolved, ctx_names, d.clade.take(t + 1))
                            == Ok::<Seq<usize>, Seq<char>>(exp + seq![id]));
                        lemma_dedup_into_concat(Seq::empty(), exp, seq![id]);
                        lemma_dedup_into_one(dedup(exp), id);
                    }
                    push_unique(&mut tips, id);
                },
                None => {
                    match decl_lookup(&resolved_names, tag) {
                        Some(j) => {
                            proof {
                                lemma_decl_index_range(ctx_names, tag@);
                                assert(ctx_resolved.len() == ctx_names.len());
                            }
                            let ghost contribution = ctx_resolved[j as int].tips + opt_id_seq(
                                ctx_resolved[j as int].ancestor,
                            );
                            proof {
                                assert(tag_expansion(reg@, ctx_resolved, ctx_names, tag@) == Some(
                                    contribution,
                                ));
                                assert(clade_expansion(
                                    reg@,
                                    ctx_resolved,
                                    ctx_names,
                                    d.clade.take(t + 1),
                                ) == Ok::<Seq<usize>, Seq<char>>(exp + contribution));
                                lemma_dedup_into_concat(Seq::empty(), exp, contribution);
                                lemma_dedup_into_concat(
                                    dedup(exp),
                                    ctx_resolved[j as int].tips,
                                    opt_id_seq(ctx_resolved[j as int].ancestor),
                                );
                                assert(ctx_resolved[j as int].tips == built@[j as int].tips@);
                            }
                            let earlier_tips = &built[j].tips;
                            absorb_ids(&mut tips, earlier_tips);
                            if let Some(a) = built[j].ancestor {
                                proof {
                                    assert(ctx_resolved[j as int].ancestor == Some(a));
                                    assert(opt_id_seq(ctx_resolved[j as int].ancestor) =~= seq![a]);
                                    lemma_dedup_into_one(
                                        dedup_into(dedup(exp), ctx_resolved[j as int].tips),
                                        a,
                                    );
                                }
                                push_unique(&mut tips, a);
                            } else {
                                proof {
                                    assert(ctx_resolved[j as int].ancestor is None);
                                    assert(opt_id_seq(ctx_resolved[j as int].ancestor)
                                        =~= Seq::<usize>::empty());
                                    assert(dedup_into(
                                        dedup_into(dedup(exp), ctx_resolved[j as int].tips),
                                        Seq::<usize>::empty(),
                                    ) == dedup_into(dedup(exp), ctx_resolved[j as int].tips));
                                }
                            }
                        },
                        None => {
                            proof {
                                assert(clade_expansion(
                                    reg@,
                                    ctx_resolved,
                                    ctx_names,
                                    d.clade.take(t + 1),
                                ) == Err::<Seq<usize>, Seq<char>>(tag@));
                                lemma_clade_err_extends(
                                    reg@,
                                    ctx_resolved,
                                    ctx_names,
                                    d.clade,
                                    t + 1,
                                );
                                assert(resolve_decl(reg@, ctx_resolved, ctx_names, d)
                                    == Err::<ConstraintModel, ErrorModel>(
                                    ErrorModel::UnresolvedTag { constraint: d.name, tag: tag@ },
                                ));
                                assert(resolve_prefix(reg@, dm, i + 1) is Err);
                                lemma_resolve_prefix_err_extends(
                                    reg@,
                                    dm,
                                    i + 1,
                                    dm.len() as int,
                                );
                            }
                            return Err(
                                ConfigError::UnresolvedTag {
                                    constraint: decl.name.clone(),
                                    tag: tag.clone(),
                                },
                            );
                        },
                    }
                },
            }
        }
        proof {
            assert(d.clade.take(d.clade.len() as int) =~= d.clade);
        }
        let ghost exp_full = clade_expansion(reg@, ctx_resolved, ctx_names, d.clade)->Ok_0;
        let ancestor: Option<usize> = match &decl.ancestor {
            Some(t) => {
                proof {
                    assert(d.ancestor == Some(t@));
                }
                match reg.lookup(t) {
                    Some(id) => Some(id),
                    None => {
                        proof {
                            assert(resolve_decl(reg@, ctx_resolved, ctx_names, d)
                                == Err::<ConstraintModel, ErrorModel>(
                                ErrorModel::UnknownTaxon { name: t@ },
                            ));
                            assert(resolve_prefix(reg@, dm, i + 1) is Err);
                            lemma_resolve_prefix_err_extends(reg@, dm, i + 1, dm.len() as int);
                        }
                        return Err(ConfigError::UnknownTaxon { name: t.clone() });
                    },
                }
            },
            None => None,
        };
        let ghost cm = ConstraintModel { tips: tips@, ancestor };
        proof {
            assert(resolve_decl(reg@, ctx_resolved, ctx_names, d) == Ok::<
                ConstraintModel,
                ErrorModel,
            >(cm));
            assert(resolve_prefix(reg@, dm, i + 1) == Ok::<Seq<ConstraintModel>, ErrorModel>(
                ctx_resolved.push(cm),
            ));
        }
        let ghost rn_before = resolved_names@;
        let ghost built_before = built@;
        resolved_names.push(decl.name.clone());
        built.push(Constraint { tips, ancestor });
        proof {
            let nn = resolved_names.deep_view();
            let target = decl_names_of(dm.take(i + 1));
            assert forall|k: int| 0 <= k < i + 1 implies nn[k] == target[k] by {
                assert(dm.take(i + 1)[k] == dm[k]);
                assert(target[k] == dm[k].name);
                if k < i {
                    assert(nn[k] == rn_before[k]@);
                    assert(ctx_names[k] == rn_before[k]@);
                    assert(dm.take(i as int)[k] == dm[k]);
                    assert(ctx_names[k] == dm[k].name);
                } else {
                    assert(nn[k] == decl.name@);
                }
            }
            assert(nn =~= target);
            let bv = built.deep_view();
            assert forall|k: int| 0 <= k < i + 1 implies bv[k] == ctx_resolved.push(cm)[k] by {
                if k < i {
                    assert(bv[k] == built_before[k].deep_view());
                    assert(ctx_resolved[k] == built_before[k].deep_view());
                } else {
                    assert(bv[k] == built@[i as int].deep_view());
                }
            }
            assert(bv =~= ctx_resolved.push(cm));
        }
    }
    proof {
        assert(dm.take(dm.len() as int) =~= dm);
    }
    Ok(built)
}

/// Once some prefix of a clade's tags has failed to expand, the whole
/// clade fails on that same tag.
pub proof fn lemma_clade_err_extends(
    names: Seq<Seq<char>>,
    resolved: Seq<ConstraintModel>,
    decl_names: Seq<Seq<char>>,
    tags: Seq<Seq<char>>,
    k: int,
)
    requires
        0 <= k <= tags.len(),
        clade_expansion(names, resolved, decl_names, tags.take(k)) is Err,
    ensures
        clade_expansion(names, resolved, decl_names, tags) == clade_expansion(
            names,
            resolved,
            decl_names,
            tags.take(k),
        ),
    decreases tags.len(),
{
    if k == tags.len() {
        assert(tags.take(k) =~= tags);
    } else {
        assert(tags.drop_last().take(k) =~= tags.take(k));
        lemma_clade_err_extends(names, resolved, decl_names, tags.drop_last(), k);
    }
}


/// A one-element list holds exactly that element.
pub proof fn lemma_singleton_contains(y: usize, x: usize)
    ensures
        seq![y].contains(x) == (x == y),
{
    if x == y {
        assert(seq![y][0] == x);
    }
    if seq![y].contains(x) {
        let i = choose|i: int| 0 <= i < seq![y].len() && seq![y][i] == x;
        assert(i == 0);
    }
}

/// Membership in a concatenation is membership in either part.
pub proof fn lemma_concat_contains(a: Seq<usize>, b: Seq<usize>, x: usize)
    ensures
        (a + b).contains(x) == (a.contains(x) || b.contains(x)),
{
    if a.contains(x) {
        let i = choose|i: int| 0 <= i < a.len() && a[i] == x;
        assert((a + b)[i] == x);
    }
    if b.contains(x) {
        let i = choose|i: int| 0 <= i < b.len() && b[i] == x;
        assert((a + b)[a.len() + i] == x);
    }
    if (a + b).contains(x) {
        let i = choose|i: int| 0 <= i < (a + b).len() && (a + b)[i] == x;
        if i < a.len() {
            assert(a[i] == x);
        } else {
            assert(b[i - a.len()] == x);
        }
    }
}

/// Deduplication neither adds nor loses members.
pub proof fn lemma_dedup_into_contains(acc: Seq<usize>, s: Seq<usize>, x: usize)
    ensures
        dedup_into(acc, s).contains(x) == (acc.contains(x) || s.contains(x)),
    decreases s.len(),
{
    if s.len() == 0 {
        assert(!s.contains(x));
    } else {
        lemma_dedup_into_contains(acc, s.drop_last(), x);
        let r = dedup_into(acc, s.drop_last());
        assert(s.drop_last().push(s.last()) =~= s);
        lemma_concat_contains(s.drop_last(), seq![s.last()], x);
        assert(s.drop_last() + seq![s.last()] =~= s);
        lemma_singleton_contains(s.last(), x);
        if !r.contains(s.last()) {
            lemma_concat_contains(r, seq![s.last()], x);
            assert(r + seq![s.last()] =~= r.push(s.last()));
        }
    }
}

/// Deduplication leaves no duplicates behind.
pub proof fn lemma_dedup_into_distinct(acc: Seq<usize>, s: Seq<usize>)
    requires
        forall|i: int, j: int| 0 <= i < j < acc.len() ==> acc[i] != acc[j],
    ensures
        forall|i: int, j: int|
            0 <= i < j < dedup_into(acc, s).len() ==> dedup_into(acc, s)[i] != dedup_into(
                acc,
                s,
            )[j],
    decreases s.len(),
{
    if s.len() > 0 {
        lemma_dedup_into_distinct(acc, s.drop_last());
        let r = dedup_into(acc, s.drop_last());
        if !r.contains(s.last()) {
            let r2 = r.push(s.last());
            assert forall|i: int, j: int| 0 <= i < j < r2.len() implies r2[i] != r2[j] by {
                if j == r2.len() - 1 {
                    if r2[i] == r2[j] {
                        assert(r[i] == s.last());
                        assert(r.contains(s.last()));
                    }
                }
            }
        }
    }
}

/// When every tag of a clade names a taxon, the expansion succeeds and
/// holds exactly those taxa's ids.
pub proof fn lemma_clade_taxa_expansion(
    names: Seq<Seq<char>>,
    resolved: Seq<ConstraintModel>,
    decl_names: Seq<Seq<char>>,
    tags: Seq<Seq<char>>,
)
    requires
        forall|k: int| 0 <= k < tags.len() ==> taxon_id(names, #[trigger] tags[k]) is Some,
    ensures
        clade_expansion(names, resolved, decl_names, tags) is Ok,
        forall|x: usize|
            #[trigger] clade_expansion(names, resolved, decl_names, tags)->Ok_0.contains(x) == (
            exists|k: int| 0 <= k < tags.len() && taxon_id(names, #[trigger] tags[k]) == Some(x)),
    decreases tags.len(),
{
    if tags.len() == 0 {
        assert forall|x: usize|
            #[trigger] clade_expansion(names, resolved, decl_names, tags)->Ok_0.contains(x) == (
            exists|k: int|
                0 <= k < tags.len() && taxon_id(names, #[trigger] tags[k]) == Some(x)) by {
            assert(!Seq::<usize>::empty().contains(x));
        }
    } else {
        lemma_clade_taxa_expansion(names, resolved, decl_names, tags.drop_last());
        let s = clade_expansion(names, resolved, decl_names, tags.drop_last())->Ok_0;
        let id = taxon_id(names, tags.last())->0;
        assert(tags[tags.len() - 1] == tags.last());
        assert(tag_expansion(names, resolved, decl_names, tags.last()) == Some(seq![id]));
        assert forall|x: usize|
            #[trigger] clade_expansion(names, resolved, decl_names, tags)->Ok_0.contains(x) == (
            exists|k: int|
                0 <= k < tags.len() && taxon_id(names, #[trigger] tags[k]) == Some(x)) by {
            lemma_concat_contains(s, seq![id], x);
            lemma_singleton_contains(id, x);
            if s.contains(x) {
                let k = choose|k: int|
                    0 <= k < tags.drop_last().len() && taxon_id(
                        names,
                        tags.drop_last()[k],
                    ) == Some(x);
                assert(tags[k] == tags.drop_last()[k]);
            }
            if exists|k: int| 0 <= k < tags.len() && taxon_id(names, #[trigger] tags[k]) == Some(
                x,
            ) {
                let k = choose|k: int|
                    0 <= k < tags.len() && taxon_id(names, #[trigger] tags[k]) == Some(x);
                if k < tags.len() - 1 {
                    assert(tags.drop_last()[k] == tags[k]);
                    assert(s.contains(x));
                } else {
                    assert(x == id);
                }
            }
        }
    }
}

/// A declaration whose clade tags are all taxon names, and which carries
/// no ancestor tag, resolves to exactly the set of those taxa's ids:
/// which ids appear depends only on which taxa are named, not on the
/// order or multiplicity of the tags, and no id appears twice.
pub proof fn lemma_clade_of_taxa(
    names: Seq<Seq<char>>,
    resolved: Seq<ConstraintModel>,
    decl_names: Seq<Seq<char>>,
    d: DeclModel,
)
    requires
        forall|k: int| 0 <= k < d.clade.len() ==> taxon_id(names, #[trigger] d.clade[k]) is Some,
        d.ancestor is None,
    ensures
        resolve_decl(names, resolved, decl_names, d) is Ok,
        forall|x: usize|
            #[trigger] resolve_decl(names, resolved, decl_names, d)->Ok_0.tips.contains(x) == (
            exists|k: int|
                0 <= k < d.clade.len() && taxon_id(names, #[trigger] d.clade[k]) == Some(x)),
        forall|i: int, j: int|
            0 <= i < j < resolve_decl(names, resolved, decl_names, d)->Ok_0.tips.len()
                ==> resolve_decl(names, resolved, decl_names, d)->Ok_0.tips[i] != resolve_decl(
                names,
                resolved,
                decl_names,
                d,
            )->Ok_0.tips[j],
{
    lemma_clade_taxa_expansion(names, resolved, decl_names, d.clade);
    let s = clade_expansion(names, resolved, decl_names, d.clade)->Ok_0;
    lemma_dedup_into_distinct(Seq::empty(), s);
    assert forall|x: usize|
        #[trigger] resolve_decl(names, resolved, decl_names, d)->Ok_0.tips.contains(x) == (
        exists|k: int|
            0 <= k < d.clade.len() && taxon_id(names, #[trigger] d.clade[k]) == Some(x)) by {
        lemma_dedup_into_contains(Seq::empty(), s, x);
        assert(!Seq::<usize>::empty().contains(x));
    }
}

/// A clade tag that names no taxon but does name an already-resolved
/// earlier declaration expands to the union of that declaration's
/// resolved clade and, when it carries one, its ancestor id.
pub proof fn lemma_reference_expands_to_union(
    names: Seq<Seq<char>>,
    resolved: Seq<ConstraintModel>,
    decl_names: Seq<Seq<char>>,
    tag: Seq<char>,
)
    requires
        taxon_id(names, tag) is None,
        decl_index(decl_names, tag) is Some,
        decl_index(decl_names, tag)->0 < resolved.len(),
    ensures
        tag_expansion(names, resolved, decl_names, tag) == Some(
            resolved[decl_index(decl_names, tag)->0 as int].tips + opt_id_seq(
                resolved[decl_index(decl_names, tag)->0 as int].ancestor,
            ),
        ),
        forall|x: usize|
            #[trigger] tag_expansion(names, resolved, decl_names, tag)->0.contains(x) == (
            resolved[decl_index(decl_names, tag)->0 as int].tips.contains(x)
                || resolved[decl_index(decl_names, tag)->0 as int].ancestor == Some(x)),
{
    let j = decl_index(decl_names, tag)->0 as int;
    assert forall|x: usize|
        #[trigger] tag_expansion(names, resolved, decl_names, tag)->0.contains(x) == (
        resolved[j].tips.contains(x) || resolved[j].ancestor == Some(x)) by {
        lemma_concat_contains(resolved[j].tips, opt_id_seq(resolved[j].ancestor), x);
        match resolved[j].ancestor {
            Some(a) => {
                assert(opt_id_seq(resolved[j].ancestor) == seq![a]);
                lemma_singleton_contains(a, x);
            },
            None => {
                assert(!opt_id_seq(resolved[j].ancestor).contains(x));
            },
        }
    }
}

/// An ancestor tag must name a taxon: one that names a previously
/// declared constraint instead, and no taxon, fails the declaration with
/// an unknown-taxon error even though its clade resolved.
pub proof fn lemma_ancestor_must_be_taxon(
    names: Seq<Seq<char>>,
    resolved: Seq<ConstraintModel>,
    decl_names: Seq<Seq<char>>,
    d: DeclModel,
)
    requires
        clade_expansion(names, resolved, decl_names, d.clade) is Ok,
        d.ancestor is Some,
        taxon_id(names, d.ancestor->0) is None,
        decl_index(decl_names, d.ancestor->0) is Some,
    ensures
        resolve_decl(names, resolved, decl_names, d) == Err::<ConstraintModel, ErrorModel>(
            ErrorModel::UnknownTaxon { name: d.ancestor->0 },
        ),
{
}

/// A clade tag that names neither a taxon nor an earlier declaration —
/// one declared later in the list, or never, resolves to neither — fails
/// the declaration with an unresolved-tag error naming it.
pub proof fn lemma_unresolved_tag_fails(
    names: Seq<Seq<char>>,
    resolved: Seq<ConstraintModel>,
    decl_names: Seq<Seq<char>>,
    d: DeclModel,
    k: int,
)
    requires
        0 <= k < d.clade.len(),
        clade_expansion(names, resolved, decl_names, d.clade.take(k)) is Ok,
        taxon_id(names, d.clade[k]) is None,
        decl_index(decl_names, d.clade[k]) is None,
    ensures
        resolve_decl(names, resolved, decl_names, d) == Err::<ConstraintModel, ErrorModel>(
            ErrorModel::UnresolvedTag { constraint: d.name, tag: d.clade[k] },
        ),
{
    assert(d.clade.take(k + 1).drop_last() =~= d.clade.take(k));
    assert(d.clade.take(k + 1).last() == d.clade[k]);
    assert(clade_expansion(names, resolved, decl_names, d.clade.take(k + 1))
        == Err::<Seq<usize>, Seq<char>>(d.clade[k]));
    lemma_clade_err_extends(names, resolved, decl_names, d.clade, k + 1);
}

} // verus!
