//! The three states a field of a raw input record can be in: missing from the
//! record, present but explicitly null, or present with a value. Validation
//! error wording depends on telling the three apart.

use vstd::prelude::*;
use vstd::string::StringExecFns;

use crate::error::SlinkyError;

verus! {

#[derive(Debug, Clone, PartialEq)]
pub enum AbsentNullable<T> {
    Absent,
    Null,
    Value(T),
}

impl<T> AbsentNullable<T> {
    /// The value of a populated field; meaningless elsewhere.
    pub open spec fn value(self) -> T
        recommends
            self is Value,
    {
        match self {
            AbsentNullable::Value(v) => v,
            _ => vstd::pervasive::arbitrary(),
        }
    }

    /// Whether the field was given a value.
    pub fn has_value(&self) -> (r: bool)
        ensures
            r == (self matches AbsentNullable::Value(_)),
    {
        match self {
            AbsentNullable::Value(_) => true,
            _ => false,
        }
    }

    /// A required field: absent and null are both reported as missing.
    pub fn get(self, name: &str) -> (r: Result<T, SlinkyError>)
        ensures
            match self {
                AbsentNullable::Value(v) => r == Ok::<T, SlinkyError>(v),
                _ => r matches Err(SlinkyError::MissingValue { name: n }) && n@ == name@,
            },
    {
        match self {
            AbsentNullable::Value(v) => Ok(v),
            _ => Err(SlinkyError::MissingValue { name: String::from_str(name) }),
        }
    }

    /// An optional field that may not be explicitly null: absent falls back to
    /// `default`, null is an error.
    pub fn get_non_null(self, name: &str, default: T) -> (r: Result<T, SlinkyError>)
        ensures
            match self {
                AbsentNullable::Value(v) => r == Ok::<T, SlinkyError>(v),
                AbsentNullable::Absent => r == Ok::<T, SlinkyError>(default),
                AbsentNullable::Null => r matches Err(SlinkyError::MissingValue { name: n })
                    && n@ == name@,
            },
    {
        match self {
            AbsentNullable::Value(v) => Ok(v),
            AbsentNullable::Absent => Ok(default),
            AbsentNullable::Null => Err(SlinkyError::MissingValue { name: String::from_str(name) }),
        }
    }

    /// An optional field without a fallback: absent stays absent, null is an
    /// error.
    pub fn get_non_null_no_default(self, name: &str) -> (r: Result<Option<T>, SlinkyError>)
        ensures
            match self {
                AbsentNullable::Value(v) => r == Ok::<Option<T>, SlinkyError>(Some(v)),
                AbsentNullable::Absent => r == Ok::<Option<T>, SlinkyError>(None),
                AbsentNullable::Null => r matches Err(SlinkyError::MissingValue { name: n })
                    && n@ == name@,
            },
    {
        match self {
            AbsentNullable::Value(v) => Ok(Some(v)),
            AbsentNullable::Absent => Ok(None),
            AbsentNullable::Null => Err(SlinkyError::MissingValue { name: String::from_str(name) }),
        }
    }
}

} // verus!
