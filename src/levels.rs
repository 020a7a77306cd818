use vstd::prelude::*;

verus! {

/// The dependent values observed at the rows where `factor` reads `level`.
#[derive(Debug, Clone)]
pub struct LevelGroup<N> {
    pub factor: String,
    pub level: String,
    pub values: Vec<N>,
}

/// The views of a sequence of strings.
pub open spec fn label_views(labels: Seq<String>) -> Seq<Seq<char>> {
    labels.map_values(|s: String| s@)
}

/// The values at the rows whose label is `l`, in row order (`labels` and
/// `values` run in parallel).
pub open spec fn select_level<N>(labels: Seq<Seq<char>>, values: Seq<N>, l: Seq<char>) -> Seq<N>
    decreases labels.len(),
{
    if labels.len() == 0 {
        Seq::empty()
    } else {
        let rest = select_level(labels.drop_last(), values.drop_last(), l);
        if labels.last() == l {
            rest.push(values.last())
        } else {
            rest
        }
    }
}

/// `groups` splits `values` by the parallel `labels`, all under `factor`:
/// one group per distinct label, each holding exactly the values at the rows
/// with that label, in row order.
pub open spec fn is_level_partition<N>(
    groups: Seq<LevelGroup<N>>,
    factor: Seq<char>,
    labels: Seq<Seq<char>>,
    values: Seq<N>,
) -> bool {
    &&& forall|g: int| 0 <= g < groups.len() ==> (#[trigger] groups[g]).factor@ == factor
    &&& forall|g: int| 0 <= g < groups.len() ==> labels.contains((#[trigger] groups[g]).level@)
    &&& forall|g: int|
        0 <= g < groups.len() ==> (#[trigger] groups[g]).values@ == select_level(labels, values, groups[g].level@)
    &&& forall|i: int|
        0 <= i < labels.len() ==> exists|g: int| 0 <= g < groups.len() && (#[trigger] groups[g]).level@ == #[trigger] labels[i]
    &&& forall|g1: int, g2: int|
        0 <= g1 < groups.len() && 0 <= g2 < groups.len() && g1 != g2 ==> (#[trigger] groups[g1]).level@ != (#[trigger] groups[g2]).level@
}

/// The number of values held by all of `groups`.
pub open spec fn total_len<N>(groups: Seq<LevelGroup<N>>) -> nat
    decreases groups.len(),
{
    if groups.len() == 0 {
        0
    } else {
        total_len(groups.drop_last()) + groups.last().values@.len()
    }
}

proof fn lemma_total_len_update<N>(groups: Seq<LevelGroup<N>>, g: int, grp: LevelGroup<N>)
    requires
        0 <= g < groups.len(),
    ensures
        total_len(groups.update(g, grp)) == total_len(groups) - groups[g].values@.len() + grp.values@.len(),
    decreases groups.len(),
{
    let u = groups.update(g, grp);
    if g < groups.len() - 1 {
        assert(u.drop_last() =~= groups.drop_last().update(g, grp));
        lemma_total_len_update(groups.drop_last(), g, grp);
    } else {
        assert(u.drop_last() =~= groups.drop_last());
    }
}

/// A label that occurs selects at least one value.
pub(crate) proof fn lemma_select_present<N>(labels: Seq<Seq<char>>, values: Seq<N>, l: Seq<char>)
    requires
        labels.contains(l),
    ensures
        select_level(labels, values, l).len() > 0,
    decreases labels.len(),
{
    if labels.last() != l {
        let j = choose|j: int| 0 <= j < labels.len() && labels[j] == l;
        assert(labels.drop_last()[j] == l);
        lemma_select_present(labels.drop_last(), values.drop_last(), l);
    }
}

proof fn lemma_select_absent<N>(labels: Seq<Seq<char>>, values: Seq<N>, l: Seq<char>)
    requires
        forall|j: int| 0 <= j < labels.len() ==> labels[j] != l,
    ensures
        select_level(labels, values, l) == Seq::<N>::empty(),
    decreases labels.len(),
{
    if labels.len() > 0 {
        lemma_select_absent(labels.drop_last(), values.drop_last(), l);
    }
}

/// Where the group with label `label` stands, if any.
fn find_level<N>(groups: &Vec<LevelGroup<N>>, label: &String) -> (r: Option<usize>)
    ensures
        r matches Some(g) ==> g < groups@.len() && groups@[g as int].level@ == label@,
        r is None ==> forall|g: int| 0 <= g < groups@.len() ==> groups@[g].level@ != label@,
{
    let mut g: usize = 0;
    while g < groups.len()
        invariant
            g <= groups@.len(),
            forall|h: int| 0 <= h < g ==> groups@[h].level@ != label@,
        decreases groups@.len() - g,
    {
        if groups[g].level == *label {
            return Some(g);
        }
        g += 1;
    }
    None
}

/// Splits `values` by the parallel `labels` into one group per distinct
/// label, each tagged with `factor`.
pub fn group_levels<N: Copy>(factor: &String, labels: &Vec<String>, values: &Vec<N>) -> (r: Vec<LevelGroup<N>>)
    requires
        labels@.len() == values@.len(),
    ensures
        is_level_partition(r@, factor@, label_views(labels@), values@),
        total_len(r@) == labels@.len(),
        forall|g: int| 0 <= g < r@.len() ==> (#[trigger] r@[g]).values@.len() > 0,
{
    let ghost lv = label_views(labels@);
    let mut groups: Vec<LevelGroup<N>> = Vec::new();
    let mut i: usize = 0;
    while i < labels.len()
        invariant
            i <= labels@.len(),
            labels@.len() == values@.len(),
            lv == label_views(labels@),
            is_level_partition(groups@, factor@, lv.take(i as int), values@.take(i as int)),
            total_len(groups@) == i,
            forall|g: int| 0 <= g < groups@.len() ==> (#[trigger] groups@[g]).values@.len() > 0,
        decreases labels@.len() - i,
    {
        let label = &labels[i];
        let v = values[i];
        let ghost old_groups = groups@;
        let ghost lt = lv.take(i as int);
        let ghost vt = values@.take(i as int);
        let ghost lt2 = lv.take(i + 1);
        let ghost vt2 = values@.take(i + 1);
        assert(lt2.drop_last() =~= lt);
        assert(vt2.drop_last() =~= vt);
        assert(lt2.last() == label@);
        assert(vt2.last() == v);
        assert forall|l: Seq<char>| select_level(lt2, vt2, l) == if l == label@ {
            select_level(lt, vt, l).push(v)
        } else {
            select_level(lt, vt, l)
        } by {}
        match find_level(&groups, label) {
            Some(g) => {
                groups[g].values.push(v);
                proof {
                    let gs = groups@;
                    assert(gs =~= old_groups.update(g as int, gs[g as int]));
                    lemma_total_len_update(old_groups, g as int, gs[g as int]);
                    assert forall|h: int| 0 <= h < gs.len() implies (#[trigger] gs[h]).values@.len() > 0 by {
                        if h != g {
                            assert(gs[h] == old_groups[h]);
                        }
                    }
                    assert(gs[g as int].level@ == label@);
                    assert forall|h: int| 0 <= h < gs.len() implies lt2.contains((#[trigger] gs[h]).level@) by {
                        assert(lt.contains(old_groups[h].level@));
                        let j = choose|j: int| 0 <= j < lt.len() && lt[j] == old_groups[h].level@;
                        assert(lt2[j] == lt[j]);
                    }
                    assert forall|h: int| 0 <= h < gs.len() implies (#[trigger] gs[h]).values@
                        == select_level(lt2, vt2, gs[h].level@) by {
                        if h != g {
                            assert(gs[h] == old_groups[h]);
                        }
                    }
                    assert forall|j: int| 0 <= j < lt2.len() implies exists|h: int|
                        0 <= h < gs.len() && (#[trigger] gs[h]).level@ == #[trigger] lt2[j] by {
                        if j < i {
                            assert(lt2[j] == lt[j]);
                            let h = choose|h: int| 0 <= h < old_groups.len() && old_groups[h].level@ == lt[j];
                            assert(gs[h].level@ == old_groups[h].level@);
                        } else {
                            assert(gs[g as int].level@ == lt2[j]);
                        }
                    }
                    assert forall|g1: int, g2: int|
                        0 <= g1 < gs.len() && 0 <= g2 < gs.len() && g1 != g2
                        implies (#[trigger] gs[g1]).level@ != (#[trigger] gs[g2]).level@ by {
                        assert(old_groups[g1].level@ != old_groups[g2].level@);
                    }
                    assert forall|h: int| 0 <= h < gs.len() implies (#[trigger] gs[h]).factor@ == factor@ by {
                        assert(old_groups[h].factor@ == factor@);
                    }
                }
            },
            None => {
                proof {
                    assert forall|j: int| 0 <= j < lt.len() implies lt[j] != label@ by {
                        let h = choose|h: int| 0 <= h < old_groups.len() && old_groups[h].level@ == lt[j];
                    }
                    lemma_select_absent(lt, vt, label@);
                }
                let mut fresh: Vec<N> = Vec::new();
                fresh.push(v);
                groups.push(LevelGroup { factor: factor.clone(), level: label.clone(), values: fresh });
                proof {
                    let gs = groups@;
                    let last = old_groups.len() as int;
                    assert(gs.drop_last() =~= old_groups);
                    assert forall|h: int| 0 <= h < gs.len() implies (#[trigger] gs[h]).values@.len() > 0 by {
                        if h < last {
                            assert(gs[h] == old_groups[h]);
                        }
                    }
                    assert(fresh@ =~= Seq::<N>::empty().push(v));
                    assert forall|h: int| 0 <= h < gs.len() implies lt2.contains((#[trigger] gs[h]).level@) by {
                        if h < last {
                            assert(gs[h] == old_groups[h]);
                            assert(lt.contains(old_groups[h].level@));
                            let j = choose|j: int| 0 <= j < lt.len() && lt[j] == old_groups[h].level@;
                            assert(lt2[j] == lt[j]);
                        } else {
                            assert(lt2[i as int] == label@);
                        }
                    }
                    assert forall|h: int| 0 <= h < gs.len() implies (#[trigger] gs[h]).values@
                        == select_level(lt2, vt2, gs[h].level@) by {
                        if h < last {
                            assert(gs[h] == old_groups[h]);
                        }
                    }
                    assert forall|j: int| 0 <= j < lt2.len() implies exists|h: int|
                        0 <= h < gs.len() && (#[trigger] gs[h]).level@ == #[trigger] lt2[j] by {
                        if j < i {
                            assert(lt2[j] == lt[j]);
                            let h = choose|h: int| 0 <= h < old_groups.len() && old_groups[h].level@ == lt[j];
                            assert(gs[h] == old_groups[h]);
                        } else {
                            assert(gs[last].level@ == lt2[j]);
                        }
                    }
                    assert forall|g1: int, g2: int|
                        0 <= g1 < gs.len() && 0 <= g2 < gs.len() && g1 != g2
                        implies (#[trigger] gs[g1]).level@ != (#[trigger] gs[g2]).level@ by {
                        if g1 < last && g2 < last {
                            assert(gs[g1] == old_groups[g1]);
                            assert(gs[g2] == old_groups[g2]);
                        } else if g1 < last {
                            assert(gs[g1] == old_groups[g1]);
                        } else {
                            assert(gs[g2] == old_groups[g2]);
                        }
                    }
                    assert forall|h: int| 0 <= h < gs.len() implies (#[trigger] gs[h]).factor@ == factor@ by {
                        if h < last {
                            assert(gs[h] == old_groups[h]);
                        }
                    }
                }
            },
        }
        i += 1;
    }
    assert(lv.take(i as int) =~= lv);
    assert(values@.take(i as int) =~= values@);
    groups
}

} // verus!
