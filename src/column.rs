use vstd::prelude::*;
use vstd::std_specs::cmp::PartialEqSpec;

use crate::errors::DatasetError;

verus! {

/// The kind of a column, fixed when the column is created.
#[derive(Debug, Clone, Copy, PartialEq, Eq, Structural)]
pub enum ColumnType {
    Numerical,
    Categorical,
    Binary,
}

/// The display name of a column kind.
pub open spec fn column_type_name(t: ColumnType) -> Seq<char> {
    match t {
        ColumnType::Numerical => "Numerical"@,
        ColumnType::Categorical => "Categorical"@,
        ColumnType::Binary => "Binary"@,
    }
}

impl ColumnType {
    pub fn as_str(&self) -> (r: &'static str)
        ensures
            r@ == column_type_name(*self),
    {
        match self {
            ColumnType::Numerical => "Numerical",
            ColumnType::Categorical => "Categorical",
            ColumnType::Binary => "Binary",
        }
    }
}

/// How many items of `s` equal `v`.
pub open spec fn count_of<T>(s: Seq<T>, v: T) -> nat
    decreases s.len(),
{
    if s.len() == 0 {
        0
    } else {
        count_of(s.drop_last(), v) + if s.last() == v { 1nat } else { 0nat }
    }
}

/// How many items of `s` the type's own equality relates to `v`.
pub open spec fn count_eq<T: PartialEq>(s: Seq<T>, v: T) -> nat
    decreases s.len(),
{
    if s.len() == 0 {
        0
    } else {
        count_eq(s.drop_last(), v) + if s.last().eq_spec(&v) { 1nat } else { 0nat }
    }
}

/// One row of a binary column.
#[derive(Debug, Clone, Copy, PartialEq, Eq, Structural)]
pub struct BinaryEntry {
    pub index: usize,
    pub value: bool,
}

/// A named column of flags.
pub struct BinaryColumn {
    pub name: String,
    pub data: Vec<BinaryEntry>,
}

impl BinaryColumn {
    /// Each entry records its own row number.
    pub open spec fn wf(&self) -> bool {
        forall|i: int| 0 <= i < self.data@.len() ==> (#[trigger] self.data@[i]).index == i
    }

    pub open spec fn values(&self) -> Seq<bool> {
        self.data@.map_values(|e: BinaryEntry| e.value)
    }

    pub fn new(name: &str, values: &Vec<bool>) -> (r: Self)
        ensures
            r.wf(),
            r.name@ == name@,
            r.values() == values@,
    {
        let mut data: Vec<BinaryEntry> = Vec::new();
        let mut i: usize = 0;
        while i < values.len()
            invariant
                i <= values.len(),
                data@.len() == i,
                forall|j: int| 0 <= j < i ==> (#[trigger] data@[j]).index == j && data@[j].value == values@[j],
            decreases values.len() - i,
        {
            data.push(BinaryEntry { index: i, value: values[i] });
            i += 1;
        }
        let r = BinaryColumn { name: name.to_owned(), data };
        assert(r.values() =~= values@);
        r
    }

    pub fn name(&self) -> (r: &str)
        ensures
            r@ == self.name@,
    {
        self.name.as_str()
    }

    pub fn n(&self) -> (r: usize)
        ensures
            r == self.data@.len(),
    {
        self.data.len()
    }

    pub fn get_value(&self, index: usize) -> (r: Result<bool, DatasetError>)
        ensures
            index < self.data@.len() ==> r == Ok::<bool, DatasetError>(self.data@[index as int].value),
            index >= self.data@.len() ==> r == Err::<bool, DatasetError>(DatasetError::EmptyValue(index, self.data@.len() as usize)),
    {
        if index >= self.data.len() {
            return Err(DatasetError::EmptyValue(index, self.data.len()));
        }
        Ok(self.data[index].value)
    }

    pub fn get_values(&self) -> (r: Vec<bool>)
        ensures
            r@ == self.values(),
    {
        let mut r: Vec<bool> = Vec::new();
        let mut i: usize = 0;
        while i < self.data.len()
            invariant
                i <= self.data@.len(),
                r@ == self.values().take(i as int),
            decreases self.data@.len() - i,
        {
            r.push(self.data[i].value);
            i += 1;
            assert(r@ =~= self.values().take(i as int));
        }
        assert(self.values().take(i as int) =~= self.values());
        r
    }

    /// Appends a flag as the next row.
    pub fn add_entry(&mut self, value: bool)
        requires
            old(self).wf(),
        ensures
            final(self).wf(),
            final(self).name == old(self).name,
            final(self).values() == old(self).values().push(value),
            final(self).data@ == old(self).data@.push((BinaryEntry { index: old(self).data@.len() as usize, value })),
    {
        let index = self.data.len();
        self.data.push(BinaryEntry { index, value });
        assert(self.values() =~= old(self).values().push(value));
    }

    /// Replaces every row by `values`, in order.
    pub fn set_values(&mut self, values: &Vec<bool>)
        ensures
            final(self).wf(),
            final(self).name == old(self).name,
            final(self).values() == values@,
    {
        let fresh = BinaryColumn::new("", values);
        self.data = fresh.data;
    }

    /// How many rows hold `value`.
    pub fn freq(&self, value: bool) -> (r: usize)
        ensures
            r == count_of(self.values(), value),
    {
        let mut r: usize = 0;
        let mut i: usize = 0;
        while i < self.data.len()
            invariant
                i <= self.data@.len(),
                r == count_of(self.values().take(i as int), value),
                r <= i,
            decreases self.data@.len() - i,
        {
            assert(self.values().take(i + 1).drop_last() =~= self.values().take(i as int));
            if self.data[i].value == value {
                r += 1;
            }
            i += 1;
        }
        assert(self.values().take(i as int) =~= self.values());
        r
    }

    /// The smaller flag (`false < true`), or `None` for an empty column.
    pub fn min(&self) -> (r: Option<bool>)
        ensures
            self.data@.len() == 0 ==> r == None::<bool>,
            self.data@.len() > 0 ==> r == Some(!self.values().contains(false)),
    {
        if self.data.len() == 0 {
            return None;
        }
        let mut i: usize = 0;
        while i < self.data.len()
            invariant
                i <= self.data@.len(),
                forall|j: int| 0 <= j < i ==> self.values()[j] == true,
            decreases self.data@.len() - i,
        {
            if !self.data[i].value {
                assert(self.values()[i as int] == false);
                return Some(false);
            }
            i += 1;
        }
        Some(true)
    }

    /// The larger flag (`false < true`), or `None` for an empty column.
    pub fn max(&self) -> (r: Option<bool>)
        ensures
            self.data@.len() == 0 ==> r == None::<bool>,
            self.data@.len() > 0 ==> r == Some(self.values().contains(true)),
    {
        if self.data.len() == 0 {
            return None;
        }
        let mut i: usize = 0;
        while i < self.data.len()
            invariant
                i <= self.data@.len(),
                forall|j: int| 0 <= j < i ==> self.values()[j] == false,
            decreases self.data@.len() - i,
        {
            if self.data[i].value {
                assert(self.values()[i as int] == true);
                return Some(true);
            }
            i += 1;
        }
        Some(false)
    }

    pub fn column_type(&self) -> (r: ColumnType)
        ensures
            r == ColumnType::Binary,
    {
        ColumnType::Binary
    }
}

/// One row of a numerical column.
#[derive(Debug, Clone, Copy)]
pub struct NumericalEntry<N> {
    pub index: usize,
    pub value: N,
}

/// A named column of numbers of the scalar type `N`.
pub struct NumericalColumn<N> {
    pub name: String,
    pub data: Vec<NumericalEntry<N>>,
}

impl<N: Copy> NumericalColumn<N> {
    /// Each entry records its own row number.
    pub open spec fn wf(&self) -> bool {
        forall|i: int| 0 <= i < self.data@.len() ==> (#[trigger] self.data@[i]).index == i
    }

    pub open spec fn values(&self) -> Seq<N> {
        self.data@.map_values(|e: NumericalEntry<N>| e.value)
    }

    pub fn new(name: &str, values: &Vec<N>) -> (r: Self)
        ensures
            r.wf(),
            r.name@ == name@,
            r.values() == values@,
    {
        let mut data: Vec<NumericalEntry<N>> = Vec::new();
        let mut i: usize = 0;
        while i < values.len()
            invariant
                i <= values.len(),
                data@.len() == i,
                forall|j: int| 0 <= j < i ==> (#[trigger] data@[j]).index == j && data@[j].value == values@[j],
            decreases values.len() - i,
        {
            data.push(NumericalEntry { index: i, value: values[i] });
            i += 1;
        }
        let r = NumericalColumn { name: name.to_owned(), data };
        assert(r.values() =~= values@);
        r
    }

    pub fn name(&self) -> (r: &str)
        ensures
            r@ == self.name@,
    {
        self.name.as_str()
    }

    pub fn n(&self) -> (r: usize)
        ensures
            r == self.data@.len(),
    {
        self.data.len()
    }

    pub fn get_value(&self, index: usize) -> (r: Result<N, DatasetError>)
        ensures
            index < self.data@.len() ==> r == Ok::<N, DatasetError>(self.data@[index as int].value),
            index >= self.data@.len() ==> r == Err::<N, DatasetError>(DatasetError::EmptyValue(index, self.data@.len() as usize)),
    {
        if index >= self.data.len() {
            return Err(DatasetError::EmptyValue(index, self.data.len()));
        }
        Ok(self.data[index].value)
    }

    pub fn get_values(&self) -> (r: Vec<N>)
        ensures
            r@ == self.values(),
    {
        let mut r: Vec<N> = Vec::new();
        let mut i: usize = 0;
        while i < self.data.len()
            invariant
                i <= self.data@.len(),
                r@ == self.values().take(i as int),
            decreases self.data@.len() - i,
        {
            r.push(self.data[i].value);
            i += 1;
            assert(r@ =~= self.values().take(i as int));
        }
        assert(self.values().take(i as int) =~= self.values());
        r
    }

    /// Appends a number as the next row.
    pub fn add_entry(&mut self, value: N)
        requires
            old(self).wf(),
        ensures
            final(self).wf(),
            final(self).name == old(self).name,
            final(self).values() == old(self).values().push(value),
            final(self).data@ == old(self).data@.push((NumericalEntry { index: old(self).data@.len() as usize, value })),
    {
        let index = self.data.len();
        self.data.push(NumericalEntry { index, value });
        assert(self.values() =~= old(self).values().push(value));
    }

    /// Replaces every row by `values`, in order.
    pub fn set_values(&mut self, values: &Vec<N>)
        ensures
            final(self).wf(),
            final(self).name == old(self).name,
            final(self).values() == values@,
    {
        let fresh = NumericalColumn::new("", values);
        self.data = fresh.data;
    }

    pub fn column_type(&self) -> (r: ColumnType)
        ensures
            r == ColumnType::Numerical,
    {
        ColumnType::Numerical
    }
}

impl<N: Copy + PartialEq> NumericalColumn<N> {
    /// How many rows the scalar type's `==` relates to `value`; where that
    /// `==` is not an equivalence (a NaN) the count follows it as it is.
    pub fn freq(&self, value: N) -> (r: usize)
        ensures
            N::obeys_eq_spec() ==> r == count_eq(self.values(), value),
            r <= self.data@.len(),
    {
        let mut r: usize = 0;
        let mut i: usize = 0;
        while i < self.data.len()
            invariant
                i <= self.data@.len(),
                N::obeys_eq_spec() ==> r == count_eq(self.values().take(i as int), value),
                r <= i,
            decreases self.data@.len() - i,
        {
            assert(self.values().take(i + 1).drop_last() =~= self.values().take(i as int));
            let x = self.data[i].value;
            if x == value {
                r += 1;
            }
            i += 1;
        }
        assert(self.values().take(i as int) =~= self.values());
        r
    }
}

/// One row of a categorical column.
#[derive(Debug, Clone)]
pub struct CategoricalEntry {
    pub index: usize,
    pub value: String,
}

/// A named column of labels.
pub struct CategoricalColumn {
    pub name: String,
    pub data: Vec<String>,
}

impl CategoricalColumn {
    pub open spec fn values(&self) -> Seq<Seq<char>> {
        self.data@.map_values(|s: String| s@)
    }

    pub fn new(name: &str, values: Vec<String>) -> (r: Self)
        ensures
            r.name@ == name@,
            r.data@ == values@,
    {
        CategoricalColumn { name: name.to_owned(), data: values }
    }

    pub fn name(&self) -> (r: &str)
        ensures
            r@ == self.name@,
    {
        self.name.as_str()
    }

    pub fn n(&self) -> (r: usize)
        ensures
            r == self.data@.len(),
    {
        self.data.len()
    }

    pub fn get_value(&self, index: usize) -> (r: Result<String, DatasetError>)
        ensures
            index < self.data@.len() ==> r == Ok::<String, DatasetError>(self.data@[index as int]),
            index >= self.data@.len() ==> r == Err::<String, DatasetError>(DatasetError::EmptyValue(index, self.data@.len() as usize)),
    {
        if index >= self.data.len() {
            return Err(DatasetError::EmptyValue(index, self.data.len()));
        }
        Ok(self.data[index].clone())
    }

    pub fn get_values(&self) -> (r: Vec<String>)
        ensures
            r@ == self.data@,
    {
        let mut r: Vec<String> = Vec::new();
        let mut i: usize = 0;
        while i < self.data.len()
            invariant
                i <= self.data@.len(),
                r@ == self.data@.take(i as int),
            decreases self.data@.len() - i,
        {
            r.push(self.data[i].clone());
            i += 1;
            assert(r@ =~= self.data@.take(i as int));
        }
        assert(self.data@.take(i as int) =~= self.data@);
        r
    }

    /// The rows as entries that carry their row numbers.
    pub fn entries(&self) -> (r: Vec<CategoricalEntry>)
        ensures
            r@.len() == self.data@.len(),
            forall|i: int| 0 <= i < r@.len() ==> (#[trigger] r@[i]).index == i && r@[i].value == self.data@[i],
    {
        let mut r: Vec<CategoricalEntry> = Vec::new();
        let mut i: usize = 0;
        while i < self.data.len()
            invariant
                i <= self.data@.len(),
                r@.len() == i,
                forall|j: int| 0 <= j < i ==> (#[trigger] r@[j]).index == j && r@[j].value == self.data@[j],
            decreases self.data@.len() - i,
        {
            r.push(CategoricalEntry { index: i, value: self.data[i].clone() });
            i += 1;
        }
        r
    }

    /// Appends a label as the next row.
    pub fn add_entry(&mut self, value: String)
        ensures
            final(self).name == old(self).name,
            final(self).data@ == old(self).data@.push(value),
    {
        self.data.push(value);
    }

    /// Replaces every row by `values`, in order.
    pub fn set_values(&mut self, values: Vec<String>)
        ensures
            final(self).name == old(self).name,
            final(self).data@ == values@,
    {
        self.data = values;
    }

    /// How many rows hold the label `value`.
    pub fn freq(&self, value: &str) -> (r: usize)
        ensures
            r == count_of(self.values(), value@),
    {
        let target = value.to_owned();
        let mut r: usize = 0;
        let mut i: usize = 0;
        while i < self.data.len()
            invariant
                i <= self.data@.len(),
                target@ == value@,
                r == count_of(self.values().take(i as int), value@),
                r <= i,
            decreases self.data@.len() - i,
        {
            assert(self.values().take(i + 1).drop_last() =~= self.values().take(i as int));
            if self.data[i] == target {
                r += 1;
            }
            i += 1;
        }
        assert(self.values().take(i as int) =~= self.values());
        r
    }

    pub fn column_type(&self) -> (r: ColumnType)
        ensures
            r == ColumnType::Categorical,
    {
        ColumnType::Categorical
    }
}

/// A single cell, tagged with the kind of column it belongs to.
#[derive(Debug, Clone)]
pub enum Value<N> {
    Numerical(N),
    Categorical(String),
    Binary(bool),
}

pub open spec fn value_kind<N>(v: Value<N>) -> ColumnType {
    match v {
        Value::Numerical(_) => ColumnType::Numerical,
        Value::Categorical(_) => ColumnType::Categorical,
        Value::Binary(_) => ColumnType::Binary,
    }
}

/// A named column of one of the three kinds.
pub enum Column<N> {
    Numerical(NumericalColumn<N>),
    Categorical(CategoricalColumn),
    Binary(BinaryColumn),
}

impl<N: Copy> Column<N> {
    pub open spec fn spec_name(&self) -> Seq<char> {
        match self {
            Column::Numerical(c) => c.name@,
            Column::Categorical(c) => c.name@,
            Column::Binary(c) => c.name@,
        }
    }

    pub open spec fn len(&self) -> nat {
        match self {
            Column::Numerical(c) => c.data@.len(),
            Column::Categorical(c) => c.data@.len(),
            Column::Binary(c) => c.data@.len(),
        }
    }

    pub open spec fn kind(&self) -> ColumnType {
        match self {
            Column::Numerical(_) => ColumnType::Numerical,
            Column::Categorical(_) => ColumnType::Categorical,
            Column::Binary(_) => ColumnType::Binary,
        }
    }

    pub open spec fn wf(&self) -> bool {
        match self {
            Column::Numerical(c) => c.wf(),
            Column::Categorical(_) => true,
            Column::Binary(c) => c.wf(),
        }
    }

    /// The cell at row `i`.
    pub open spec fn value_at(&self, i: int) -> Value<N> {
        match self {
            Column::Numerical(c) => Value::Numerical(c.data@[i].value),
            Column::Categorical(c) => Value::Categorical(c.data@[i]),
            Column::Binary(c) => Value::Binary(c.data@[i].value),
        }
    }

    pub fn name(&self) -> (r: &str)
        ensures
            r@ == self.spec_name(),
    {
        match self {
            Column::Numerical(c) => c.name(),
            Column::Categorical(c) => c.name(),
            Column::Binary(c) => c.name(),
        }
    }

    pub fn n(&self) -> (r: usize)
        ensures
            r == self.len(),
    {
        match self {
            Column::Numerical(c) => c.n(),
            Column::Categorical(c) => c.n(),
            Column::Binary(c) => c.n(),
        }
    }

    pub fn column_type(&self) -> (r: ColumnType)
        ensures
            r == self.kind(),
    {
        match self {
            Column::Numerical(c) => c.column_type(),
            Column::Categorical(c) => c.column_type(),
            Column::Binary(c) => c.column_type(),
        }
    }

    pub fn get_value(&self, index: usize) -> (r: Result<Value<N>, DatasetError>)
        ensures
            index < self.len() ==> r == Ok::<Value<N>, DatasetError>(self.value_at(index as int)),
            index >= self.len() ==> r == Err::<Value<N>, DatasetError>(DatasetError::EmptyValue(index, self.len() as usize)),
    {
        match self {
            Column::Numerical(c) => match c.get_value(index) {
                Ok(v) => Ok(Value::Numerical(v)),
                Err(e) => Err(e),
            },
            Column::Categorical(c) => match c.get_value(index) {
                Ok(v) => Ok(Value::Categorical(v)),
                Err(e) => Err(e),
            },
            Column::Binary(c) => match c.get_value(index) {
                Ok(v) => Ok(Value::Binary(v)),
                Err(e) => Err(e),
            },
        }
    }

    /// Every cell, in row order.
    pub fn get_values(&self) -> (r: Vec<Value<N>>)
        ensures
            r@.len() == self.len(),
            forall|i: int| 0 <= i < self.len() ==> r@[i] == self.value_at(i),
    {
        let mut r: Vec<Value<N>> = Vec::new();
        let mut i: usize = 0;
        while i < self.n()
            invariant
                i <= self.len(),
                r@.len() == i,
                forall|j: int| 0 <= j < i ==> r@[j] == self.value_at(j),
            decreases self.len() - i,
        {
            match self.get_value(i) {
                Ok(v) => r.push(v),
                Err(_) => {},
            }
            i += 1;
        }
        r
    }

    /// The numbers of a numerical column; any other kind is not numeric,
    /// a binary column included.
    pub fn get_values_as_f64(&self) -> (r: Result<Vec<N>, DatasetError>)
        ensures
            match self {
                Column::Numerical(c) => r matches Ok(v) && v@ == c.values(),
                _ => r == Err::<Vec<N>, DatasetError>(
                    DatasetError::ColumnTypeMismatch(self.spec_name_string(), ColumnType::Numerical),
                ),
            },
    {
        match self {
            Column::Numerical(c) => Ok(c.get_values()),
            Column::Categorical(c) => Err(DatasetError::ColumnTypeMismatch(c.name.clone(), ColumnType::Numerical)),
            Column::Binary(c) => Err(DatasetError::ColumnTypeMismatch(c.name.clone(), ColumnType::Numerical)),
        }
    }

    /// The labels of a categorical column.
    pub fn get_values_as_str(&self) -> (r: Result<Vec<String>, DatasetError>)
        ensures
            match self {
                Column::Categorical(c) => r matches Ok(v) && v@ == c.data@,
                _ => r == Err::<Vec<String>, DatasetError>(
                    DatasetError::ColumnTypeMismatch(self.spec_name_string(), ColumnType::Categorical),
                ),
            },
    {
        match self {
            Column::Numerical(c) => Err(DatasetError::ColumnTypeMismatch(c.name.clone(), ColumnType::Categorical)),
            Column::Categorical(c) => Ok(c.get_values()),
            Column::Binary(c) => Err(DatasetError::ColumnTypeMismatch(c.name.clone(), ColumnType::Categorical)),
        }
    }

    /// The column's name as a `String`.
    pub fn name_string(&self) -> (r: &String)
        ensures
            *r == self.spec_name_string(),
    {
        match self {
            Column::Numerical(c) => &c.name,
            Column::Categorical(c) => &c.name,
            Column::Binary(c) => &c.name,
        }
    }

    pub open spec fn spec_name_string(&self) -> String {
        match self {
            Column::Numerical(c) => c.name,
            Column::Categorical(c) => c.name,
            Column::Binary(c) => c.name,
        }
    }

    /// Appends `value` as the next row when it is of the column's kind;
    /// otherwise the column is left as it was.
    pub fn add_entry(&mut self, value: Value<N>) -> (r: Result<(), DatasetError>)
        requires
            old(self).wf(),
        ensures
            value_kind(value) == old(self).kind() ==> {
                &&& r is Ok
                &&& final(self).wf()
                &&& final(self).kind() == old(self).kind()
                &&& final(self).spec_name_string() == old(self).spec_name_string()
                &&& final(self).len() == old(self).len() + 1
                &&& final(self).value_at(old(self).len() as int) == value
                &&& forall|i: int| 0 <= i < old(self).len() ==> final(self).value_at(i) == old(self).value_at(i)
            },
            value_kind(value) != old(self).kind() ==> {
                &&& r == Err::<(), DatasetError>(
                    DatasetError::ColumnTypeMismatch(old(self).spec_name_string(), value_kind(value)),
                )
                &&& *final(self) == *old(self)
            },
    {
        match self {
            Column::Numerical(c) => match value {
                Value::Numerical(v) => {
                    c.add_entry(v);
                    Ok(())
                },
                Value::Categorical(_) => Err(DatasetError::ColumnTypeMismatch(c.name.clone(), ColumnType::Categorical)),
                Value::Binary(_) => Err(DatasetError::ColumnTypeMismatch(c.name.clone(), ColumnType::Binary)),
            },
            Column::Categorical(c) => match value {
                Value::Categorical(v) => {
                    c.add_entry(v);
                    Ok(())
                },
                Value::Numerical(_) => Err(DatasetError::ColumnTypeMismatch(c.name.clone(), ColumnType::Numerical)),
                Value::Binary(_) => Err(DatasetError::ColumnTypeMismatch(c.name.clone(), ColumnType::Binary)),
            },
            Column::Binary(c) => match value {
                Value::Binary(v) => {
                    c.add_entry(v);
                    Ok(())
                },
                Value::Numerical(_) => Err(DatasetError::ColumnTypeMismatch(c.name.clone(), ColumnType::Numerical)),
                Value::Categorical(_) => Err(DatasetError::ColumnTypeMismatch(c.name.clone(), ColumnType::Categorical)),
            },
        }
    }
}

impl<N: Copy + PartialEq> Column<N> {
    /// How many rows hold `value`; a value of another kind than the column's
    /// is refused. For numbers the scalar type's `==` decides.
    pub fn freq(&self, value: &Value<N>) -> (r: Result<usize, DatasetError>)
        ensures
            value_kind(*value) != self.kind() ==> r == Err::<usize, DatasetError>(
                DatasetError::ColumnTypeMismatch(self.spec_name_string(), value_kind(*value)),
            ),
            value_kind(*value) == self.kind() ==> r is Ok,
            match (self, value) {
                (Column::Binary(c), Value::Binary(v)) => r == Ok::<usize, DatasetError>(count_of(c.values(), *v) as usize),
                (Column::Categorical(c), Value::Categorical(v)) => r == Ok::<usize, DatasetError>(count_of(c.values(), v@) as usize),
                (Column::Numerical(c), Value::Numerical(v)) => N::obeys_eq_spec() ==> r == Ok::<usize, DatasetError>(count_eq(c.values(), *v) as usize),
                _ => true,
            },
    {
        match self {
            Column::Numerical(c) => match value {
                Value::Numerical(v) => Ok(c.freq(*v)),
                Value::Categorical(_) => Err(DatasetError::ColumnTypeMismatch(c.name.clone(), ColumnType::Categorical)),
                Value::Binary(_) => Err(DatasetError::ColumnTypeMismatch(c.name.clone(), ColumnType::Binary)),
            },
            Column::Categorical(c) => match value {
                Value::Categorical(v) => Ok(c.freq(v.as_str())),
                Value::Numerical(_) => Err(DatasetError::ColumnTypeMismatch(c.name.clone(), ColumnType::Numerical)),
                Value::Binary(_) => Err(DatasetError::ColumnTypeMismatch(c.name.clone(), ColumnType::Binary)),
            },
            Column::Binary(c) => match value {
                Value::Binary(v) => Ok(c.freq(*v)),
                Value::Numerical(_) => Err(DatasetError::ColumnTypeMismatch(c.name.clone(), ColumnType::Numerical)),
                Value::Categorical(_) => Err(DatasetError::ColumnTypeMismatch(c.name.clone(), ColumnType::Categorical)),
            },
        }
    }
}

} // verus!
