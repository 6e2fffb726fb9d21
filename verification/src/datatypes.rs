//! The logical types of columns.

use vstd::prelude::*;

verus! {

/// The logical type of a column. The planner computes with the first five;
/// any other type is carried by its name.
#[derive(Debug, PartialEq, Eq)]
pub enum DataType {
    Boolean,
    Int32,
    Int64,
    Float64,
    Utf8,
    /// A type the planner does not compute with, known by its name.
    Other { name: String },
}

/// The value of a [`DataType`], with a type's name taken as characters.
pub enum DataTypeView {
    Boolean,
    Int32,
    Int64,
    Float64,
    Utf8,
    Other { name: Seq<char> },
}

impl View for DataType {
    type V = DataTypeView;

    open spec fn view(&self) -> DataTypeView {
        match self {
            DataType::Boolean => DataTypeView::Boolean,
            DataType::Int32 => DataTypeView::Int32,
            DataType::Int64 => DataTypeView::Int64,
            DataType::Float64 => DataTypeView::Float64,
            DataType::Utf8 => DataTypeView::Utf8,
            DataType::Other { name } => DataTypeView::Other { name: name@ },
        }
    }
}

impl Clone for DataType {
    fn clone(&self) -> (r: Self)
        ensures
            r == *self,
    {
        match self {
            DataType::Boolean => DataType::Boolean,
            DataType::Int32 => DataType::Int32,
            DataType::Int64 => DataType::Int64,
            DataType::Float64 => DataType::Float64,
            DataType::Utf8 => DataType::Utf8,
            DataType::Other { name } => DataType::Other { name: name.clone() },
        }
    }
}

} // verus!
