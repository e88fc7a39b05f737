use crate::error::{ExecError, ExecErrorModel};
use datafusion::arrow::datatypes::DataType;
use vstd::prelude::*;

verus! {

/// The logical type of a column, as Arrow describes it. The scan never
/// looks into it: it carries it from one schema to the next.
#[verifier::external_type_specification]
#[verifier::external_body]
pub struct ExDataType(DataType);

/// `DataType::clone`, which Arrow derives: the copy describes the same
/// type as `data_type`.
#[verifier::external_body]
pub(crate) fn clone_data_type(data_type: &DataType) -> (copy: DataType)
    ensures
        copy == *data_type,
{
    data_type.clone()
}

/// One named, typed column. Its metadata are pairs of a key and a
/// value, kept in the order in which they were given.
#[derive(Debug, PartialEq, Eq)]
pub struct Field {
    pub name: String,
    pub data_type: DataType,
    pub nullable: bool,
    pub metadata: Vec<(String, String)>,
}

/// Mathematical value of a [`Field`].
pub struct FieldModel {
    pub name: Seq<char>,
    pub data_type: DataType,
    pub nullable: bool,
    pub metadata: Seq<(Seq<char>, Seq<char>)>,
}

/// Mathematical value of a list of pairs of a key and a value.
pub open spec fn metadata_model(pairs: Seq<(String, String)>) -> Seq<(Seq<char>, Seq<char>)> {
    Seq::new(pairs.len(), |i: int| (pairs[i].0@, pairs[i].1@))
}

impl View for Field {
    type V = FieldModel;

    open spec fn view(&self) -> FieldModel {
        FieldModel {
            name: self.name@,
            data_type: self.data_type,
            nullable: self.nullable,
            metadata: metadata_model(self.metadata@),
        }
    }
}

/// An ordered list of columns.
#[derive(Debug, PartialEq, Eq)]
pub struct Schema {
    pub fields: Vec<Field>,
}

impl View for Schema {
    type V = Seq<FieldModel>;

    open spec fn view(&self) -> Seq<FieldModel> {
        Seq::new(self.fields@.len(), |i: int| self.fields@[i]@)
    }
}

/// `i` is the first position of `columns` whose name is `name`.
pub open spec fn is_first_position(columns: Seq<FieldModel>, name: Seq<char>, i: int) -> bool {
    &&& 0 <= i < columns.len()
    &&& columns[i].name == name
    &&& forall|j: int| 0 <= j < i ==> columns[j].name != name
}

/// Some column of `columns` is named `name`.
pub open spec fn has_column(columns: Seq<FieldModel>, name: Seq<char>) -> bool {
    exists|i: int| 0 <= i < columns.len() && #[trigger] columns[i].name == name
}

/// The first position of a column named `name`, if there is one.
pub open spec fn position_of(columns: Seq<FieldModel>, name: Seq<char>) -> Option<int> {
    if exists|i: int| is_first_position(columns, name, i) {
        Some(choose|i: int| is_first_position(columns, name, i))
    } else {
        None
    }
}

/// A name has at most one first position, and `position_of` finds it.
pub proof fn lemma_position_of_first(columns: Seq<FieldModel>, name: Seq<char>, i: int)
    requires
        is_first_position(columns, name, i),
    ensures
        position_of(columns, name) == Some(i),
{
    let k = choose|k: int| is_first_position(columns, name, k);
    assert(is_first_position(columns, name, k));
    if k < i {
        assert(columns[k].name != name);
    } else if i < k {
        assert(columns[i].name != name);
    }
}

/// `position_of` answers `None` exactly when no column carries the name.
pub proof fn lemma_position_of_none(columns: Seq<FieldModel>, name: Seq<char>)
    ensures
        position_of(columns, name) is None <==> !has_column(columns, name),
        position_of(columns, name) matches Some(i) ==> is_first_position(columns, name, i),
{
    if has_column(columns, name) {
        let w = choose|i: int| 0 <= i < columns.len() && #[trigger] columns[i].name == name;
        lemma_least_position(columns, name, w);
    } else {
        assert forall|i: int| !is_first_position(columns, name, i) by {
            if is_first_position(columns, name, i) {
                assert(columns[i].name == name);
            }
        }
    }
}

/// Below any position that carries the name lies a first one.
proof fn lemma_least_position(columns: Seq<FieldModel>, name: Seq<char>, w: int)
    requires
        0 <= w < columns.len(),
        columns[w].name == name,
    ensures
        exists|i: int| is_first_position(columns, name, i),
    decreases w,
{
    if exists|j: int| 0 <= j < w && columns[j].name == name {
        let j = choose|j: int| 0 <= j < w && columns[j].name == name;
        lemma_least_position(columns, name, j);
    } else {
        assert(is_first_position(columns, name, w));
    }
}

/// `k` is the first entry of `positions` that is out of range for `len` columns.
pub open spec fn is_first_out_of_bounds(positions: Seq<usize>, len: nat, k: int) -> bool {
    &&& 0 <= k < positions.len()
    &&& positions[k] >= len
    &&& forall|j: int| 0 <= j < k ==> positions[j] < len
}

/// Every entry of `positions` is a position of one of `len` columns.
pub open spec fn in_bounds(positions: Seq<usize>, len: nat) -> bool {
    forall|k: int| 0 <= k < positions.len() ==> positions[k] < len
}

/// The columns that `projection` selects from `columns`: all of them when
/// it is absent, else the column at each listed position, in the listed
/// order. It fails on the first listed position that is out of range.
pub open spec fn project_model(columns: Seq<FieldModel>, projection: Option<Seq<usize>>) -> Result<
    Seq<FieldModel>,
    ExecErrorModel,
> {
    match projection {
        None => Ok(columns),
        Some(positions) => if in_bounds(positions, columns.len()) {
            Ok(Seq::new(positions.len(), |k: int| columns[positions[k] as int]))
        } else {
            Err(
                ExecErrorModel::ProjectionOutOfBounds(
                    positions[choose|k: int| is_first_out_of_bounds(positions, columns.len(), k)],
                ),
            )
        },
    }
}

/// A list of positions has at most one first entry out of range.
pub proof fn lemma_first_out_of_bounds(positions: Seq<usize>, len: nat, k: int)
    requires
        is_first_out_of_bounds(positions, len, k),
    ensures
        !in_bounds(positions, len),
        (choose|i: int| is_first_out_of_bounds(positions, len, i)) == k,
{
    let i = choose|i: int| is_first_out_of_bounds(positions, len, i);
    assert(is_first_out_of_bounds(positions, len, i));
    if i < k {
        assert(positions[i] < len);
    } else if k < i {
        assert(positions[k] < len);
    }
}

/// Mathematical value of the outcome of computing a schema.
pub open spec fn schema_result_model(r: Result<Schema, ExecError>) -> Result<
    Seq<FieldModel>,
    ExecErrorModel,
> {
    match r {
        Ok(s) => Ok(s@),
        Err(e) => Err(e@),
    }
}

impl Field {
    /// A column with this name, type and nullability.
    pub fn new(name: String, data_type: DataType, nullable: bool) -> (field: Field)
        ensures
            field@ == (FieldModel { name: name@, data_type, nullable, metadata: Seq::empty() }),
    {
        let field = Field { name, data_type, nullable, metadata: Vec::new() };
        assert(field@.metadata =~= Seq::empty());
        field
    }

    /// The same column with `metadata` in place of its own.
    pub fn with_metadata(self, metadata: Vec<(String, String)>) -> (field: Field)
        ensures
            field@ == (FieldModel { metadata: metadata_model(metadata@), ..self@ }),
    {
        Field { name: self.name, data_type: self.data_type, nullable: self.nullable, metadata }
    }
}

impl Clone for Field {
    fn clone(&self) -> (copy: Field)
        ensures
            copy@ == self@,
    {
        let mut metadata: Vec<(String, String)> = Vec::new();
        let mut i: usize = 0;
        while i < self.metadata.len()
            invariant
                i <= self.metadata.len(),
                metadata@.len() == i,
                forall|j: int|
                    0 <= j < i ==> metadata@[j].0@ == self.metadata@[j].0@ && metadata@[j].1@
                        == self.metadata@[j].1@,
            decreases self.metadata.len() - i,
        {
            let pair = &self.metadata[i];
            metadata.push((pair.0.clone(), pair.1.clone()));
            i += 1;
        }
        assert(metadata_model(metadata@) =~= metadata_model(self.metadata@));
        Field {
            name: self.name.clone(),
            data_type: clone_data_type(&self.data_type),
            nullable: self.nullable,
            metadata,
        }
    }
}

impl Clone for Schema {
    fn clone(&self) -> (copy: Schema)
        ensures
            copy@ == self@,
    {
        let mut fields: Vec<Field> = Vec::new();
        let mut i: usize = 0;
        while i < self.fields.len()
            invariant
                i <= self.fields.len(),
                fields@.len() == i,
                forall|j: int| 0 <= j < i ==> fields@[j]@ == self.fields@[j]@,
            decreases self.fields.len() - i,
        {
            fields.push(self.fields[i].clone());
            i += 1;
        }
        let copy = Schema { fields };
        assert(copy@ =~= self@);
        copy
    }
}

impl Schema {
    /// The schema with these columns, in this order.
    pub fn new(fields: Vec<Field>) -> (schema: Schema)
        ensures
            schema@ == Seq::new(fields@.len(), |i: int| fields@[i]@),
    {
        Schema { fields }
    }

    /// Number of columns.
    pub fn len(&self) -> (n: usize)
        ensures
            n == self@.len(),
    {
        self.fields.len()
    }

    /// The column at position `i`.
    pub fn field(&self, i: usize) -> (field: &Field)
        requires
            i < self@.len(),
        ensures
            field@ == self@[i as int],
    {
        &self.fields[i]
    }

    /// Position of the first column named `name`.
    pub fn index_of(&self, name: &str) -> (r: Result<usize, ExecError>)
        ensures
            match r {
                Ok(i) => position_of(self@, name@) == Some(i as int),
                Err(e) => position_of(self@, name@) is None && e@
                    == ExecErrorModel::ColumnNotFound(name@),
            },
    {
        let wanted: String = name.to_owned();
        let mut i: usize = 0;
        while i < self.fields.len()
            invariant
                i <= self.fields.len(),
                wanted@ == name@,
                forall|j: int| 0 <= j < i ==> self@[j].name != name@,
            decreases self.fields.len() - i,
        {
            if self.fields[i].name == wanted {
                proof {
                    assert(self@[i as int].name == name@);
                    lemma_position_of_first(self@, name@, i as int);
                }
                return Ok(i);
            }
            i += 1;
        }
        proof {
            lemma_position_of_none(self@, name@);
            assert(!has_column(self@, name@));
        }
        Err(ExecError::ColumnNotFound(wanted))
    }

    /// The columns selected by `projection`, in its order.
    pub fn project(&self, projection: Option<&Vec<usize>>) -> (r: Result<Schema, ExecError>)
        ensures
            schema_result_model(r) == project_model(self@, projection_model(projection)),
    {
        match projection {
            None => Ok(self.clone()),
            Some(positions) => {
                let mut fields: Vec<Field> = Vec::new();
                let mut k: usize = 0;
                while k < positions.len()
                    invariant
                        k <= positions.len(),
                        fields@.len() == k,
                        projection == Some(positions),
                        forall|j: int| 0 <= j < k ==> positions@[j] < self@.len(),
                        forall|j: int|
                            0 <= j < k ==> fields@[j]@ == self@[positions@[j] as int],
                    decreases positions.len() - k,
                {
                    let p = positions[k];
                    if p >= self.fields.len() {
                        proof {
                            lemma_first_out_of_bounds(positions@, self@.len(), k as int);
                        }
                        return Err(ExecError::ProjectionOutOfBounds(p));
                    }
                    fields.push(self.fields[p].clone());
                    k += 1;
                }
                let s = Schema { fields };
                assert(s@ =~= Seq::new(positions@.len(), |k: int| self@[positions@[k] as int]));
                Ok(s)
            },
        }
    }
}

/// Mathematical value of an optional projection.
pub open spec fn projection_model(projection: Option<&Vec<usize>>) -> Option<Seq<usize>> {
    match projection {
        None => None,
        Some(positions) => Some(positions@),
    }
}

/// Mathematical value of an optional projection that is held by value.
pub open spec fn held_projection_model(projection: Option<Vec<usize>>) -> Option<Seq<usize>> {
    match projection {
        None => None,
        Some(positions) => Some(positions@),
    }
}

} // verus!
