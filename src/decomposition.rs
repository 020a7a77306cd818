use vstd::prelude::*;

use crate::errors::DatasetError;
use crate::frame::ColumnGroupNumericItem;

verus! {

/// The degrees of freedom of one line of a decomposition.
#[derive(Debug, Clone, Copy, PartialEq, Eq, Structural)]
pub struct DegreesOfFreedom {
    pub between: usize,
    pub within: usize,
}

/// Degrees of freedom between the groups of a one-way decomposition.
pub open spec fn one_way_df_between(n_groups: nat) -> int {
    n_groups - 1
}

/// Degrees of freedom within the groups of a one-way decomposition.
pub open spec fn one_way_df_within(grand_n: nat, n_groups: nat) -> int {
    grand_n - n_groups
}

/// A one-way decomposition of `grand_n` observations in `n_groups` groups
/// has both mean squares defined: at least two groups, and more
/// observations than groups.
pub open spec fn one_way_defined(grand_n: nat, n_groups: nat) -> bool {
    2 <= n_groups < grand_n
}

/// Degrees of freedom of a one-way decomposition: `n_groups - 1` between
/// and `grand_n - n_groups` within. Either being zero leaves a mean square
/// undefined, which is refused.
pub fn anova_degrees_of_freedom(grand_n: usize, n_groups: usize) -> (r: Result<DegreesOfFreedom, DatasetError>)
    ensures
        r is Ok <==> one_way_defined(grand_n as nat, n_groups as nat),
        r matches Ok(d) ==> {
            &&& d.between == one_way_df_between(n_groups as nat)
            &&& d.within == one_way_df_within(grand_n as nat, n_groups as nat)
            &&& d.between + d.within == grand_n - 1
        },
        r matches Err(e) ==> e is DegenerateGroup,
{
    if n_groups < 2 {
        return Err(DatasetError::DegenerateGroup("fewer than two groups".to_owned()));
    }
    if grand_n <= n_groups {
        return Err(DatasetError::DegenerateGroup("no more observations than groups".to_owned()));
    }
    Ok(DegreesOfFreedom { between: n_groups - 1, within: grand_n - n_groups })
}

/// In a one-way decomposition the degrees of freedom between and within
/// the groups add up to one less than the number of observations.
pub proof fn lemma_one_way_df_partition(grand_n: nat, n_groups: nat)
    requires
        one_way_defined(grand_n, n_groups),
    ensures
        one_way_df_between(n_groups) + one_way_df_within(grand_n, n_groups) == grand_n - 1,
        one_way_df_between(n_groups) >= 1,
        one_way_df_within(grand_n, n_groups) >= 1,
{
}

/// Degrees of freedom of the line of one covariate in a decomposition with
/// `n_covariates` covariates: one between (a single contrast), and
/// `grand_n - n_groups - n_covariates` within. A within count of zero or
/// less is refused.
pub fn covariate_degrees_of_freedom(grand_n: usize, n_groups: usize, n_covariates: usize) -> (r: Result<DegreesOfFreedom, DatasetError>)
    ensures
        r is Ok <==> n_groups + n_covariates < grand_n,
        r matches Ok(d) ==> d.between == 1 && d.within == grand_n - n_groups - n_covariates,
        r matches Err(e) ==> e is DegenerateGroup,
{
    if n_groups >= grand_n || n_covariates >= grand_n - n_groups {
        return Err(DatasetError::DegenerateGroup("no degree of freedom left within the groups".to_owned()));
    }
    Ok(DegreesOfFreedom { between: 1, within: grand_n - n_groups - n_covariates })
}

/// Refuses a covariate whose length differs from that of the dependent
/// variable, naming the first such covariate.
pub fn check_covariate_lengths<N>(covariates: &Vec<ColumnGroupNumericItem<N>>, n: usize) -> (r: Result<(), DatasetError>)
    ensures
        r is Ok <==> forall|k: int| 0 <= k < covariates@.len() ==> (#[trigger] covariates@[k]).value@.len() == n,
        r matches Err(e) ==> exists|k: int| {
            &&& 0 <= k < covariates@.len()
            &&& (#[trigger] covariates@[k]).value@.len() != n
            &&& forall|j: int| 0 <= j < k ==> covariates@[j].value@.len() == n
            &&& e == DatasetError::InvalidData(covariates@[k].name)
        },
{
    let mut k: usize = 0;
    while k < covariates.len()
        invariant
            k <= covariates@.len(),
            forall|j: int| 0 <= j < k ==> (#[trigger] covariates@[j]).value@.len() == n,
        decreases covariates@.len() - k,
    {
        if covariates[k].value.len() != n {
            return Err(DatasetError::InvalidData(covariates[k].name.clone()));
        }
        k += 1;
    }
    Ok(())
}

} // verus!
