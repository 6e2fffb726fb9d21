use vstd::prelude::*;

use crate::datatypes::{DataType, DataTypeView};

verus! {

/// A named, typed column of a schema.
#[derive(Debug)]
pub struct Field {
    pub name: String,
    pub datatype: DataType,
}

/// The mathematical value of a field: its name as characters and its type.
pub type FieldView = (Seq<char>, DataTypeView);

impl View for Field {
    type V = FieldView;

    open spec fn view(&self) -> FieldView {
        (self.name@, self.datatype@)
    }
}

impl Clone for Field {
    fn clone(&self) -> (r: Self)
        ensures
            r == *self,
    {
        Field { name: self.name.clone(), datatype: self.datatype.clone() }
    }
}

/// The ordered list of fields a relation produces.
#[derive(Debug)]
pub struct Schema {
    pub fields: Vec<Field>,
}

/// The fields of a schema, each taken by its view.
pub open spec fn fields_view(fields: Seq<Field>) -> Seq<FieldView> {
    fields.map_values(|f: Field| f@)
}

impl View for Schema {
    type V = Seq<FieldView>;

    open spec fn view(&self) -> Seq<FieldView> {
        fields_view(self.fields@)
    }
}

impl Schema {
    pub fn new(fields: Vec<Field>) -> (r: Self)
        ensures
            r.fields == fields,
    {
        Schema { fields }
    }
}

} // verus!
