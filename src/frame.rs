use vstd::prelude::*;

use crate::column::{
    BinaryColumn, CategoricalColumn, Column, ColumnType, NumericalColumn, Value, value_kind,
};
use crate::errors::DatasetError;
use crate::levels::{
    group_levels, is_level_partition, label_views, lemma_select_present, select_level, LevelGroup,
};

verus! {

/// An ordered collection of named columns.
pub struct DataFrame<N> {
    pub columns: Vec<Column<N>>,
}

/// The numbers of one numerical column, under its name.
#[derive(Debug, Clone)]
pub struct ColumnGroupNumericItem<N> {
    pub name: String,
    pub value: Vec<N>,
}

/// The labels of one categorical column, under its name.
#[derive(Debug, Clone)]
pub struct ColumnGroupCategoricalItem {
    pub name: String,
    pub value: Vec<String>,
}

/// The views of a list of names.
pub open spec fn name_views(names: Seq<&str>) -> Seq<Seq<char>> {
    names.map_values(|s: &str| s@)
}

/// Whether `names[k]` repeats one of the names before it.
fn seen_before(names: &[&str], k: usize) -> (r: bool)
    requires
        k < names@.len(),
    ensures
        r <==> exists|j: int| 0 <= j < k && names@[j]@ == names@[k as int]@,
{
    let target = names[k].to_owned();
    let mut j: usize = 0;
    while j < k
        invariant
            j <= k < names@.len(),
            target@ == names@[k as int]@,
            forall|h: int| 0 <= h < j ==> names@[h]@ != names@[k as int]@,
        decreases k - j,
    {
        let other = names[j].to_owned();
        if other == target {
            return true;
        }
        j += 1;
    }
    false
}

/// Some group of `groups` carries factor `f` and label `l`.
pub open spec fn has_group<N>(groups: Seq<LevelGroup<N>>, f: Seq<char>, l: Seq<char>) -> bool {
    exists|g: int| 0 <= g < groups.len() && groups[g].factor@ == f && groups[g].level@ == l
}

/// `e` reports that no column is called `n`.
pub open spec fn is_not_found(e: DatasetError, n: Seq<char>) -> bool {
    e matches DatasetError::ColumnNotFound(s) && s@ == n
}

impl<N: Copy> DataFrame<N> {
    /// `i` is the first column called `n`.
    pub open spec fn is_first(&self, n: Seq<char>, i: int) -> bool {
        &&& 0 <= i < self.columns@.len()
        &&& self.columns@[i].spec_name() == n
        &&& forall|j: int| 0 <= j < i ==> self.columns@[j].spec_name() != n
    }

    pub open spec fn has_name(&self, n: Seq<char>) -> bool {
        exists|i: int| 0 <= i < self.columns@.len() && self.columns@[i].spec_name() == n
    }

    /// Where the column called `n` stands (meaningful when `has_name(n)`).
    pub open spec fn index_of(&self, n: Seq<char>) -> int {
        choose|i: int| self.is_first(n, i)
    }

    /// The column called `n` (meaningful when `has_name(n)`).
    pub open spec fn column_named(&self, n: Seq<char>) -> Column<N> {
        self.columns@[self.index_of(n)]
    }

    /// Every column is well formed and no two share a name.
    pub open spec fn wf(&self) -> bool {
        &&& forall|i: int| 0 <= i < self.columns@.len() ==> (#[trigger] self.columns@[i]).wf()
        &&& forall|i: int, j: int|
            0 <= i < self.columns@.len() && 0 <= j < self.columns@.len() && i != j
                ==> self.columns@[i].spec_name() != self.columns@[j].spec_name()
    }

    /// A column called `n` exists and is of kind `want`.
    pub open spec fn is_kind(&self, n: Seq<char>, want: ColumnType) -> bool {
        self.has_name(n) && self.column_named(n).kind() == want
    }

    /// `e` is the error of asking for a column called `n` of kind `want`.
    pub open spec fn kind_error(&self, n: Seq<char>, want: ColumnType, e: DatasetError) -> bool {
        if !self.has_name(n) {
            is_not_found(e, n)
        } else {
            e == DatasetError::ColumnTypeMismatch(self.column_named(n).spec_name_string(), want)
        }
    }

    /// The numbers of the column called `n` (empty unless it is numerical).
    pub open spec fn numbers_of(&self, n: Seq<char>) -> Seq<N> {
        match self.column_named(n) {
            Column::Numerical(c) => c.values(),
            _ => Seq::empty(),
        }
    }

    /// The labels of the column called `n` (empty unless it is categorical).
    pub open spec fn labels_of(&self, n: Seq<char>) -> Seq<String> {
        match self.column_named(n) {
            Column::Categorical(c) => c.data@,
            _ => Seq::empty(),
        }
    }

    proof fn lemma_first_unique(&self, n: Seq<char>, i: int)
        requires
            self.is_first(n, i),
        ensures
            self.index_of(n) == i,
            self.has_name(n),
    {
        let k = self.index_of(n);
        assert(self.is_first(n, k));
        if k < i {
            assert(self.columns@[k].spec_name() == n);
        } else if i < k {
            assert(self.columns@[i].spec_name() == n);
        }
    }

    pub fn new() -> (r: Self)
        ensures
            r.wf(),
            r.columns@.len() == 0,
    {
        DataFrame { columns: Vec::new() }
    }

    /// Where the first column called `name` stands, if any.
    pub fn position(&self, name: &str) -> (r: Option<usize>)
        ensures
            r matches Some(i) ==> i == self.index_of(name@) && self.is_first(name@, i as int),
            r is None <==> !self.has_name(name@),
    {
        let target = name.to_owned();
        let mut i: usize = 0;
        while i < self.columns.len()
            invariant
                i <= self.columns@.len(),
                target@ == name@,
                forall|j: int| 0 <= j < i ==> self.columns@[j].spec_name() != name@,
            decreases self.columns@.len() - i,
        {
            if *self.columns[i].name_string() == target {
                proof {
                    self.lemma_first_unique(name@, i as int);
                }
                return Some(i);
            }
            i += 1;
        }
        None
    }

    /// Where the column called `name` stands.
    pub fn column_index(&self, name: &str) -> (r: Result<usize, DatasetError>)
        ensures
            r matches Ok(i) ==> self.has_name(name@) && i == self.index_of(name@),
            r matches Err(e) ==> !self.has_name(name@) && is_not_found(e, name@),
            r is Ok <==> self.has_name(name@),
    {
        match self.position(name) {
            Some(i) => Ok(i),
            None => Err(DatasetError::ColumnNotFound(name.to_owned())),
        }
    }

    /// The column called `name`.
    pub fn get_column(&self, name: &str) -> (r: Result<&Column<N>, DatasetError>)
        ensures
            r matches Ok(c) ==> self.has_name(name@) && *c == self.column_named(name@) && c.spec_name() == name@,
            r matches Err(e) ==> !self.has_name(name@) && is_not_found(e, name@),
            r is Ok <==> self.has_name(name@),
    {
        match self.position(name) {
            Some(i) => Ok(&self.columns[i]),
            None => Err(DatasetError::ColumnNotFound(name.to_owned())),
        }
    }

    /// The kind of the column called `name`.
    pub fn column_type(&self, name: &str) -> (r: Result<ColumnType, DatasetError>)
        ensures
            r matches Ok(t) ==> self.has_name(name@) && t == self.column_named(name@).kind(),
            r matches Err(e) ==> !self.has_name(name@) && is_not_found(e, name@),
            r is Ok <==> self.has_name(name@),
    {
        match self.get_column(name) {
            Ok(c) => Ok(c.column_type()),
            Err(e) => Err(e),
        }
    }

    /// The numbers of the numerical column called `name`.
    pub fn values_as_f64(&self, name: &str) -> (r: Result<Vec<N>, DatasetError>)
        ensures
            r is Ok <==> self.is_kind(name@, ColumnType::Numerical),
            r matches Ok(v) ==> v@ == self.numbers_of(name@),
            r matches Err(e) ==> self.kind_error(name@, ColumnType::Numerical, e),
    {
        match self.get_column(name) {
            Ok(c) => c.get_values_as_f64(),
            Err(e) => Err(e),
        }
    }

    /// Appends `column` unless its name is taken.
    fn add_column(&mut self, column: Column<N>) -> (r: Result<(), DatasetError>)
        requires
            old(self).wf(),
            column.wf(),
        ensures
            final(self).wf(),
            r is Ok <==> !old(self).has_name(column.spec_name()),
            r is Ok ==> final(self).columns@ == old(self).columns@.push(column),
            r matches Err(e) ==> {
                &&& final(self).columns@ == old(self).columns@
                &&& e matches DatasetError::DuplicateColumn(s) && s@ == column.spec_name()
            },
    {
        let name = column.name_string().clone();
        match self.position(name.as_str()) {
            Some(_) => Err(DatasetError::DuplicateColumn(name)),
            None => {
                self.columns.push(column);
                proof {
                    let cols = final(self).columns@;
                    assert forall|i: int| 0 <= i < cols.len() implies (#[trigger] cols[i]).wf() by {
                        if i < old(self).columns@.len() {
                            assert(cols[i] == old(self).columns@[i]);
                        }
                    }
                    assert forall|i: int, j: int|
                        0 <= i < cols.len() && 0 <= j < cols.len() && i != j
                        implies cols[i].spec_name() != cols[j].spec_name() by {
                        let last = old(self).columns@.len() as int;
                        if i == last {
                            assert(cols[j] == old(self).columns@[j]);
                        } else if j == last {
                            assert(cols[i] == old(self).columns@[i]);
                        } else {
                            assert(cols[i] == old(self).columns@[i]);
                            assert(cols[j] == old(self).columns@[j]);
                        }
                    }
                }
                Ok(())
            },
        }
    }

    /// Appends a binary column called `name`, unless the name is taken.
    pub fn add_binary_column(&mut self, name: &str, data: Vec<bool>) -> (r: Result<(), DatasetError>)
        requires
            old(self).wf(),
        ensures
            final(self).wf(),
            r is Ok <==> !old(self).has_name(name@),
            r is Ok ==> {
                &&& final(self).columns@.len() == old(self).columns@.len() + 1
                &&& final(self).columns@.drop_last() == old(self).columns@
                &&& final(self).columns@.last() matches Column::Binary(c)
                &&& c.name@ == name@ && c.values() == data@
            },
            r matches Err(e) ==> {
                &&& final(self).columns@ == old(self).columns@
                &&& e matches DatasetError::DuplicateColumn(s) && s@ == name@
            },
    {
        let column = BinaryColumn::new(name, &data);
        let r = self.add_column(Column::Binary(column));
        proof {
            if r is Ok {
                assert(final(self).columns@.drop_last() =~= old(self).columns@);
            }
        }
        r
    }

    /// Appends a binary column called `name` from the codes 0 (false) and 1
    /// (true). Any other code is refused, naming the first such code, and the
    /// store is left as it was.
    pub fn add_numerical_binary_column(&mut self, name: &str, data: Vec<u8>) -> (r: Result<(), DatasetError>)
        requires
            old(self).wf(),
        ensures
            final(self).wf(),
            r is Ok <==> !old(self).has_name(name@) && forall|i: int| 0 <= i < data@.len() ==> data@[i] <= 1,
            r is Ok ==> {
                &&& final(self).columns@.len() == old(self).columns@.len() + 1
                &&& final(self).columns@.drop_last() == old(self).columns@
                &&& final(self).columns@.last() matches Column::Binary(c)
                &&& c.name@ == name@
                &&& c.values() == data@.map_values(|b: u8| b == 1)
            },
            r is Err ==> final(self).columns@ == old(self).columns@,
            (exists|i: int| 0 <= i < data@.len() && data@[i] > 1) ==> exists|i: int| {
                &&& 0 <= i < data@.len() && data@[i] > 1
                &&& forall|j: int| 0 <= j < i ==> data@[j] <= 1
                &&& r matches Err(DatasetError::ValueTypeMismatch(v, col, ColumnType::Binary))
                &&& col@ == name@
                &&& vstd::string::to_string_from_display_ensures::<u8>(&data@[i], v)
            },
            (forall|i: int| 0 <= i < data@.len() ==> data@[i] <= 1) && old(self).has_name(name@)
                ==> (r matches Err(DatasetError::DuplicateColumn(s)) && s@ == name@),
    {
        let mut flags: Vec<bool> = Vec::new();
        let mut i: usize = 0;
        while i < data.len()
            invariant
                i <= data@.len(),
                flags@ == data@.take(i as int).map_values(|b: u8| b == 1),
                forall|j: int| 0 <= j < i ==> data@[j] <= 1,
                self.wf(),
                self.columns@ == old(self).columns@,
            decreases data@.len() - i,
        {
            let b = data[i];
            if b > 1 {
                let shown = b.to_string();
                return Err(DatasetError::ValueTypeMismatch(shown, name.to_owned(), ColumnType::Binary));
            }
            flags.push(b == 1);
            i += 1;
            assert(flags@ =~= data@.take(i as int).map_values(|b: u8| b == 1));
        }
        assert(data@.take(i as int) =~= data@);
        self.add_binary_column(name, flags)
    }

    /// Appends a numerical column called `name`, unless the name is taken.
    pub fn add_numerical_column(&mut self, name: &str, data: Vec<N>) -> (r: Result<(), DatasetError>)
        requires
            old(self).wf(),
        ensures
            final(self).wf(),
            r is Ok <==> !old(self).has_name(name@),
            r is Ok ==> {
                &&& final(self).columns@.len() == old(self).columns@.len() + 1
                &&& final(self).columns@.drop_last() == old(self).columns@
                &&& final(self).columns@.last() matches Column::Numerical(c)
                &&& c.name@ == name@ && c.values() == data@
            },
            r matches Err(e) ==> {
                &&& final(self).columns@ == old(self).columns@
                &&& e matches DatasetError::DuplicateColumn(s) && s@ == name@
            },
    {
        let column = NumericalColumn::new(name, &data);
        let r = self.add_column(Column::Numerical(column));
        proof {
            if r is Ok {
                assert(final(self).columns@.drop_last() =~= old(self).columns@);
            }
        }
        r
    }

    /// Appends a categorical column called `name`, unless the name is taken.
    pub fn add_categorical_column(&mut self, name: &str, data: Vec<String>) -> (r: Result<(), DatasetError>)
        requires
            old(self).wf(),
        ensures
            final(self).wf(),
            r is Ok <==> !old(self).has_name(name@),
            r is Ok ==> {
                &&& final(self).columns@.len() == old(self).columns@.len() + 1
                &&& final(self).columns@.drop_last() == old(self).columns@
                &&& final(self).columns@.last() matches Column::Categorical(c)
                &&& c.name@ == name@ && c.data@ == data@
            },
            r matches Err(e) ==> {
                &&& final(self).columns@ == old(self).columns@
                &&& e matches DatasetError::DuplicateColumn(s) && s@ == name@
            },
    {
        let column = CategoricalColumn::new(name, data);
        let r = self.add_column(Column::Categorical(column));
        proof {
            if r is Ok {
                assert(final(self).columns@.drop_last() =~= old(self).columns@);
            }
        }
        r
    }

    /// Appends `value` to the column at `column_index`. An index past the
    /// last column, or a value of another kind than the column's, is refused
    /// and the store is left as it was.
    pub fn add_value_to_column(&mut self, column_index: usize, value: Value<N>) -> (r: Result<(), DatasetError>)
        requires
            old(self).wf(),
        ensures
            final(self).wf(),
            column_index >= old(self).columns@.len() ==> r == Err::<(), DatasetError>(
                DatasetError::EmptyValue(column_index, old(self).columns@.len() as usize),
            ),
            column_index < old(self).columns@.len() ==> {
                let before = old(self).columns@[column_index as int];
                let after = final(self).columns@[column_index as int];
                &&& final(self).columns@.len() == old(self).columns@.len()
                &&& forall|j: int| 0 <= j < old(self).columns@.len() && j != column_index
                    ==> final(self).columns@[j] == old(self).columns@[j]
                &&& (value_kind(value) == before.kind() ==> {
                    &&& r is Ok
                    &&& after.kind() == before.kind()
                    &&& after.spec_name_string() == before.spec_name_string()
                    &&& after.len() == before.len() + 1
                    &&& after.value_at(before.len() as int) == value
                    &&& forall|i: int| 0 <= i < before.len() ==> after.value_at(i) == before.value_at(i)
                })
                &&& (value_kind(value) != before.kind() ==> {
                    &&& r == Err::<(), DatasetError>(
                        DatasetError::ColumnTypeMismatch(before.spec_name_string(), value_kind(value)),
                    )
                    &&& after == before
                })
            },
    {
        if column_index >= self.columns.len() {
            return Err(DatasetError::EmptyValue(column_index, self.columns.len()));
        }
        let ghost before = self.columns@;
        let r = self.columns[column_index].add_entry(value);
        proof {
            let cols = final(self).columns@;
            assert forall|i: int| 0 <= i < cols.len() implies (#[trigger] cols[i]).wf() by {
                if i != column_index {
                    assert(cols[i] == before[i]);
                }
            }
            assert forall|i: int, j: int|
                0 <= i < cols.len() && 0 <= j < cols.len() && i != j
                implies cols[i].spec_name() != cols[j].spec_name() by {
                assert(before[i].spec_name() != before[j].spec_name());
                if i == column_index {
                    assert(cols[j] == before[j]);
                } else if j == column_index {
                    assert(cols[i] == before[i]);
                } else {
                    assert(cols[i] == before[i]);
                    assert(cols[j] == before[j]);
                }
            }
        }
        r
    }

    /// The numbers of several columns, concatenated in the order of `names`.
    pub open spec fn joined_numbers(&self, names: Seq<Seq<char>>) -> Seq<N>
        decreases names.len(),
    {
        if names.len() == 0 {
            Seq::empty()
        } else {
            self.joined_numbers(names.drop_last()) + self.numbers_of(names.last())
        }
    }

    /// A factor column called `n` is usable against `rows` dependent values:
    /// it is categorical and has a label for each of them.
    pub open spec fn factor_ok(&self, n: Seq<char>, rows: nat) -> bool {
        self.is_kind(n, ColumnType::Categorical) && self.labels_of(n).len() == rows
    }

    /// `grp` belongs to one of the first `k` factors of `names` and holds
    /// exactly the values of `dv` at the rows where that factor reads its
    /// label.
    pub open spec fn group_justified(&self, names: Seq<Seq<char>>, k: int, dv: Seq<N>, grp: LevelGroup<N>) -> bool {
        let lv = label_views(self.labels_of(grp.factor@));
        &&& names.take(k).contains(grp.factor@)
        &&& lv.contains(grp.level@)
        &&& grp.values@ == select_level(lv, dv, grp.level@)
    }

    /// `groups` splits `dv` by the levels of the first `k` factors of
    /// `names`: each group is justified, every row of every such factor has
    /// its group, and no two groups share both factor and label.
    pub open spec fn is_factor_split(&self, names: Seq<Seq<char>>, k: int, dv: Seq<N>, groups: Seq<LevelGroup<N>>) -> bool {
        &&& forall|g: int| 0 <= g < groups.len() ==> self.group_justified(names, k, dv, #[trigger] groups[g])
        &&& forall|j: int, i: int| 0 <= j < k && 0 <= i < dv.len()
            ==> #[trigger] has_group(groups, names[j], self.labels_of(names[j])[i]@)
        &&& forall|g1: int, g2: int| 0 <= g1 < groups.len() && 0 <= g2 < groups.len() && g1 != g2
            ==> (#[trigger] groups[g1]).factor@ != (#[trigger] groups[g2]).factor@
                || groups[g1].level@ != groups[g2].level@
    }

    proof fn lemma_extend_groups(
        &self,
        names: Seq<Seq<char>>,
        k: int,
        dv: Seq<N>,
        before: Seq<LevelGroup<N>>,
        added: Seq<LevelGroup<N>>,
    )
        requires
            0 <= k < names.len(),
            self.is_factor_split(names, k, dv, before),
            self.factor_ok(names[k], dv.len()),
            is_level_partition(added, names[k], label_views(self.labels_of(names[k])), dv),
            !names.take(k).contains(names[k]),
        ensures
            self.is_factor_split(names, k + 1, dv, before + added),
    {
        let after = before + added;
        let b = before.len() as int;
        let lv = label_views(self.labels_of(names[k]));
        assert(names.take(k + 1)[k] == names[k]);
        assert forall|g: int| 0 <= g < after.len() implies self.group_justified(names, k + 1, dv, #[trigger] after[g]) by {
            if g < b {
                assert(after[g] == before[g]);
                assert(self.group_justified(names, k, dv, before[g]));
                let j = choose|j: int| 0 <= j < k && names.take(k)[j] == before[g].factor@;
                assert(names.take(k + 1)[j] == names.take(k)[j]);
            } else {
                assert(after[g] == added[g - b]);
                assert(added[g - b].factor@ == names[k]);
                assert(lv.contains(added[g - b].level@));
            }
        }
        assert forall|j: int, i: int| 0 <= j < k + 1 && 0 <= i < dv.len()
            implies #[trigger] has_group(after, names[j], self.labels_of(names[j])[i]@) by {
            if j < k {
                assert(has_group(before, names[j], self.labels_of(names[j])[i]@));
                let g = choose|g: int| 0 <= g < before.len() && before[g].factor@ == names[j]
                    && before[g].level@ == self.labels_of(names[j])[i]@;
                assert(after[g] == before[g]);
            } else {
                assert(lv[i] == self.labels_of(names[k])[i]@);
                let h = choose|h: int| 0 <= h < added.len() && (#[trigger] added[h]).level@ == lv[i];
                assert(after[b + h] == added[h]);
                assert(added[h].factor@ == names[k]);
            }
        }
        assert forall|g1: int, g2: int| 0 <= g1 < after.len() && 0 <= g2 < after.len() && g1 != g2
            implies (#[trigger] after[g1]).factor@ != (#[trigger] after[g2]).factor@
                || after[g1].level@ != after[g2].level@ by {
            if g1 < b && g2 < b {
                assert(after[g1] == before[g1]);
                assert(after[g2] == before[g2]);
            } else if g1 >= b && g2 >= b {
                assert(after[g1] == added[g1 - b]);
                assert(after[g2] == added[g2 - b]);
                assert(added[g1 - b].level@ != added[g2 - b].level@);
            } else {
                let x = if g1 < b { g1 } else { g2 };
                let y = if g1 < b { g2 } else { g1 };
                assert(after[x] == before[x]);
                assert(after[y] == added[y - b]);
                assert(added[y - b].factor@ == names[k]);
                assert(self.group_justified(names, k, dv, before[x]));
            }
        }
    }

    proof fn lemma_repeat_factor(&self, names: Seq<Seq<char>>, k: int, dv: Seq<N>, groups: Seq<LevelGroup<N>>)
        requires
            0 <= k < names.len(),
            self.is_factor_split(names, k, dv, groups),
            names.take(k).contains(names[k]),
        ensures
            self.is_factor_split(names, k + 1, dv, groups),
    {
        let j0 = choose|j: int| 0 <= j < k && names.take(k)[j] == names[k];
        assert(names[j0] == names[k]);
        assert forall|j: int, i: int| 0 <= j < k + 1 && 0 <= i < dv.len()
            implies #[trigger] has_group(groups, names[j], self.labels_of(names[j])[i]@) by {
            if j == k {
                assert(has_group(groups, names[j0], self.labels_of(names[j0])[i]@));
            }
        }
        assert forall|g: int| 0 <= g < groups.len() implies self.group_justified(names, k + 1, dv, #[trigger] groups[g]) by {
            assert(self.group_justified(names, k, dv, groups[g]));
            let j = choose|j: int| 0 <= j < k && names.take(k)[j] == groups[g].factor@;
            assert(names.take(k + 1)[j] == names.take(k)[j]);
        }
    }

    /// `e` is the error of using the column called `n` as a factor: it is
    /// missing or not categorical, or its length is wrong.
    pub open spec fn factor_error(&self, n: Seq<char>, e: DatasetError) -> bool {
        if self.is_kind(n, ColumnType::Categorical) {
            e is InvalidData
        } else {
            self.kind_error(n, ColumnType::Categorical, e)
        }
    }

    /// The numbers of each named numerical column, in the order of `names`.
    /// The first name that is missing or not numerical is reported.
    pub fn group_numeric_columns(&self, column_names: &[&str]) -> (r: Result<Vec<ColumnGroupNumericItem<N>>, DatasetError>)
        ensures
            r is Ok <==> forall|k: int| 0 <= k < column_names@.len() ==> self.is_kind(column_names@[k]@, ColumnType::Numerical),
            r matches Ok(items) ==> {
                &&& items@.len() == column_names@.len()
                &&& forall|k: int| 0 <= k < column_names@.len() ==> {
                    &&& (#[trigger] items@[k]).name@ == column_names@[k]@
                    &&& items@[k].value@ == self.numbers_of(column_names@[k]@)
                }
            },
            r matches Err(e) ==> exists|k: int| {
                &&& 0 <= k < column_names@.len()
                &&& !self.is_kind(column_names@[k]@, ColumnType::Numerical)
                &&& forall|j: int| 0 <= j < k ==> self.is_kind(column_names@[j]@, ColumnType::Numerical)
                &&& self.kind_error(column_names@[k]@, ColumnType::Numerical, e)
            },
    {
        let mut items: Vec<ColumnGroupNumericItem<N>> = Vec::new();
        let mut k: usize = 0;
        while k < column_names.len()
            invariant
                k <= column_names@.len(),
                items@.len() == k,
                forall|j: int| 0 <= j < k ==> self.is_kind(column_names@[j]@, ColumnType::Numerical),
                forall|j: int| 0 <= j < k ==> {
                    &&& (#[trigger] items@[j]).name@ == column_names@[j]@
                    &&& items@[j].value@ == self.numbers_of(column_names@[j]@)
                },
            decreases column_names@.len() - k,
        {
            let name = column_names[k];
            match self.values_as_f64(name) {
                Ok(v) => {
                    items.push(ColumnGroupNumericItem { name: name.to_owned(), value: v });
                },
                Err(e) => {
                    return Err(e);
                },
            }
            k += 1;
        }
        Ok(items)
    }

    /// The labels of each named categorical column, in the order of `names`.
    /// The first name that is missing or not categorical is reported.
    pub fn group_categorical_columns(&self, column_names: &[&str]) -> (r: Result<Vec<ColumnGroupCategoricalItem>, DatasetError>)
        ensures
            r is Ok <==> forall|k: int| 0 <= k < column_names@.len() ==> self.is_kind(column_names@[k]@, ColumnType::Categorical),
            r matches Ok(items) ==> {
                &&& items@.len() == column_names@.len()
                &&& forall|k: int| 0 <= k < column_names@.len() ==> {
                    &&& (#[trigger] items@[k]).name@ == column_names@[k]@
                    &&& items@[k].value@ == self.labels_of(column_names@[k]@)
                }
            },
            r matches Err(e) ==> exists|k: int| {
                &&& 0 <= k < column_names@.len()
                &&& !self.is_kind(column_names@[k]@, ColumnType::Categorical)
                &&& forall|j: int| 0 <= j < k ==> self.is_kind(column_names@[j]@, ColumnType::Categorical)
                &&& self.kind_error(column_names@[k]@, ColumnType::Categorical, e)
            },
    {
        let mut items: Vec<ColumnGroupCategoricalItem> = Vec::new();
        let mut k: usize = 0;
        while k < column_names.len()
            invariant
                k <= column_names@.len(),
                items@.len() == k,
                forall|j: int| 0 <= j < k ==> self.is_kind(column_names@[j]@, ColumnType::Categorical),
                forall|j: int| 0 <= j < k ==> {
                    &&& (#[trigger] items@[j]).name@ == column_names@[j]@
                    &&& items@[j].value@ == self.labels_of(column_names@[j]@)
                },
            decreases column_names@.len() - k,
        {
            let name = column_names[k];
            match self.get_column(name) {
                Ok(c) => match c.get_values_as_str() {
                    Ok(v) => {
                        items.push(ColumnGroupCategoricalItem { name: name.to_owned(), value: v });
                    },
                    Err(e) => {
                        return Err(e);
                    },
                },
                Err(e) => {
                    return Err(e);
                },
            }
            k += 1;
        }
        Ok(items)
    }

    /// The numbers of the named numerical columns, one column after the
    /// other in the order of `names`.
    pub fn join_numeric_columns(&self, column_names: &[&str]) -> (r: Result<Vec<N>, DatasetError>)
        ensures
            r is Ok <==> forall|k: int| 0 <= k < column_names@.len() ==> self.is_kind(column_names@[k]@, ColumnType::Numerical),
            r matches Ok(v) ==> v@ == self.joined_numbers(name_views(column_names@)),
            r matches Err(e) ==> exists|k: int| {
                &&& 0 <= k < column_names@.len()
                &&& !self.is_kind(column_names@[k]@, ColumnType::Numerical)
                &&& forall|j: int| 0 <= j < k ==> self.is_kind(column_names@[j]@, ColumnType::Numerical)
                &&& self.kind_error(column_names@[k]@, ColumnType::Numerical, e)
            },
    {
        let ghost nv = name_views(column_names@);
        let mut joined: Vec<N> = Vec::new();
        let mut k: usize = 0;
        while k < column_names.len()
            invariant
                k <= column_names@.len(),
                nv == name_views(column_names@),
                forall|j: int| 0 <= j < k ==> self.is_kind(column_names@[j]@, ColumnType::Numerical),
                joined@ == self.joined_numbers(nv.take(k as int)),
            decreases column_names@.len() - k,
        {
            let name = column_names[k];
            match self.values_as_f64(name) {
                Ok(mut v) => {
                    joined.append(&mut v);
                    assert(nv.take(k + 1).drop_last() =~= nv.take(k as int));
                },
                Err(e) => {
                    return Err(e);
                },
            }
            k += 1;
        }
        assert(nv.take(k as int) =~= nv);
        Ok(joined)
    }

    /// Splits the numbers of the dependent column by the levels of each
    /// factor column: one group per factor and distinct label, holding the
    /// dependent values at the rows with that label. Factors are not crossed,
    /// and a factor named twice is grouped once. The dependent column must be
    /// numerical, each factor categorical with one label per dependent value.
    pub fn cat_iv_levels(&self, iv_column_names: &[&str], dv_column_name: &str) -> (r: Result<Vec<LevelGroup<N>>, DatasetError>)
        ensures
            r is Ok <==> {
                &&& self.is_kind(dv_column_name@, ColumnType::Numerical)
                &&& forall|k: int| 0 <= k < iv_column_names@.len()
                    ==> self.factor_ok(iv_column_names@[k]@, self.numbers_of(dv_column_name@).len())
            },
            r matches Ok(groups) ==> self.is_factor_split(
                name_views(iv_column_names@), iv_column_names@.len() as int, self.numbers_of(dv_column_name@), groups@),
            r matches Ok(groups) ==> forall|g: int| 0 <= g < groups@.len() ==> (#[trigger] groups@[g]).values@.len() > 0,
            r matches Err(e) ==> if !self.is_kind(dv_column_name@, ColumnType::Numerical) {
                self.kind_error(dv_column_name@, ColumnType::Numerical, e)
            } else {
                exists|k: int| {
                    &&& 0 <= k < iv_column_names@.len()
                    &&& !self.factor_ok(iv_column_names@[k]@, self.numbers_of(dv_column_name@).len())
                    &&& forall|j: int| 0 <= j < k
                        ==> self.factor_ok(iv_column_names@[j]@, self.numbers_of(dv_column_name@).len())
                    &&& #[trigger] self.factor_error(iv_column_names@[k]@, e)
                }
            },
    {
        let dv = match self.values_as_f64(dv_column_name) {
            Ok(v) => v,
            Err(e) => {
                return Err(e);
            },
        };
        let ghost rows = dv@.len();
        let ghost nv = name_views(iv_column_names@);
        let mut groups: Vec<LevelGroup<N>> = Vec::new();
        let mut k: usize = 0;
        while k < iv_column_names.len()
            invariant
                k <= iv_column_names@.len(),
                self.is_kind(dv_column_name@, ColumnType::Numerical),
                dv@ == self.numbers_of(dv_column_name@),
                rows == dv@.len(),
                forall|j: int| 0 <= j < k ==> self.factor_ok(iv_column_names@[j]@, rows),
                nv == name_views(iv_column_names@),
                self.is_factor_split(nv, k as int, dv@, groups@),
            decreases iv_column_names@.len() - k,
        {
            let name = iv_column_names[k];
            assert(nv[k as int] == name@);
            let column = match self.get_column(name) {
                Ok(c) => c,
                Err(e) => {
                    assert(self.factor_error(iv_column_names@[k as int]@, e));
                    return Err(e);
                },
            };
            let labels = match column.get_values_as_str() {
                Ok(l) => l,
                Err(e) => {
                    assert(self.factor_error(iv_column_names@[k as int]@, e));
                    return Err(e);
                },
            };
            if labels.len() != dv.len() {
                let e = DatasetError::InvalidData("factor and dependent columns differ in length".to_owned());
                assert(self.factor_error(iv_column_names@[k as int]@, e));
                return Err(e);
            }
            let repeated = seen_before(iv_column_names, k);
            proof {
                if repeated {
                    let j = choose|j: int| 0 <= j < k && iv_column_names@[j]@ == iv_column_names@[k as int]@;
                    assert(nv.take(k as int)[j] == nv[k as int]);
                } else {
                    assert forall|j: int| 0 <= j < k implies nv.take(k as int)[j] != nv[k as int] by {
                        assert(nv.take(k as int)[j] == iv_column_names@[j]@);
                    }
                }
            }
            if !repeated {
                let ghost before = groups@;
                let mut fresh = group_levels(column.name_string(), &labels, &dv);
                let ghost added = fresh@;
                groups.append(&mut fresh);
                proof {
                    self.lemma_extend_groups(nv, k as int, dv@, before, added);
                    assert(groups@ =~= before + added);
                }
            } else {
                proof {
                    self.lemma_repeat_factor(nv, k as int, dv@, groups@);
                }
            }
            k += 1;
        }
        proof {
            assert forall|g: int| 0 <= g < groups@.len() implies (#[trigger] groups@[g]).values@.len() > 0 by {
                let grp = groups@[g];
                assert(self.group_justified(nv, k as int, dv@, grp));
                lemma_select_present(label_views(self.labels_of(grp.factor@)), dv@, grp.level@);
            }
        }
        Ok(groups)
    }
}

} // verus!
