//! OpenAPI primitive types and their parsing from a `type` and a `format`.

use vstd::prelude::*;

use crate::text::str_eq;

verus! {

/// A scalar type of the OpenAPI type system.
#[derive(Debug, Clone, Copy, PartialEq, Eq, Structural)]
pub enum Primative {
    Bool,
    I32,
    I64,
    F32,
    F64,
    String,
    Bytes,
    Binary,
    Date,
    DateTime,
    Password,
}

/// The kind of a schema or property, as given by its `type` and `format`.
#[derive(Debug, Clone, Copy, PartialEq, Eq, Structural)]
pub enum Type {
    Primative(Primative),
    Object,
    Array,
}

/// Why a `type` / `format` pair names no type.
#[derive(Debug)]
pub enum TypeError {
    InvalidType(String),
    InvalidFormat { typ: String, format: String },
}

/// A `TypeError` with its texts as character sequences.
pub enum SpecTypeError {
    InvalidType(Seq<char>),
    InvalidFormat { typ: Seq<char>, format: Seq<char> },
}

impl View for TypeError {
    type V = SpecTypeError;

    open spec fn view(&self) -> SpecTypeError {
        match self {
            TypeError::InvalidType(t) => SpecTypeError::InvalidType(t@),
            TypeError::InvalidFormat { typ, format } => SpecTypeError::InvalidFormat {
                typ: typ@,
                format: format@,
            },
        }
    }
}

/// The type that a `type` and an optional `format` name, or why they name
/// none.
pub open spec fn spec_parse_type(typ: Seq<char>, format: Option<Seq<char>>) -> Result<
    Type,
    SpecTypeError,
> {
    if typ == "boolean"@ {
        Ok(Type::Primative(Primative::Bool))
    } else if typ == "integer"@ {
        match format {
            None => Ok(Type::Primative(Primative::I64)),
            Some(f) => if f == "int32"@ {
                Ok(Type::Primative(Primative::I32))
            } else if f == "int64"@ {
                Ok(Type::Primative(Primative::I64))
            } else {
                Err(SpecTypeError::InvalidFormat { typ, format: f })
            },
        }
    } else if typ == "number"@ {
        match format {
            None => Ok(Type::Primative(Primative::F64)),
            Some(f) => if f == "float"@ {
                Ok(Type::Primative(Primative::F32))
            } else if f == "double"@ {
                Ok(Type::Primative(Primative::F64))
            } else {
                Err(SpecTypeError::InvalidFormat { typ, format: f })
            },
        }
    } else if typ == "string"@ {
        match format {
            None => Ok(Type::Primative(Primative::String)),
            Some(f) => if f == "bytes"@ {
                Ok(Type::Primative(Primative::Bytes))
            } else if f == "binary"@ {
                Ok(Type::Primative(Primative::Binary))
            } else if f == "date"@ {
                Ok(Type::Primative(Primative::Date))
            } else if f == "date-time"@ {
                Ok(Type::Primative(Primative::DateTime))
            } else if f == "password"@ {
                Ok(Type::Primative(Primative::Password))
            } else {
                Err(SpecTypeError::InvalidFormat { typ, format: f })
            },
        }
    } else if typ == "object"@ {
        Ok(Type::Object)
    } else if typ == "array"@ {
        Ok(Type::Array)
    } else {
        Err(SpecTypeError::InvalidType(typ))
    }
}

/// An optional string taken by its characters.
pub open spec fn opt_str_view(o: Option<&str>) -> Option<Seq<char>> {
    match o {
        Some(s) => Some(s@),
        None => None,
    }
}

/// An optional owned string taken by its characters.
pub open spec fn opt_string_view(o: Option<String>) -> Option<Seq<char>> {
    match o {
        Some(s) => Some(s@),
        None => None,
    }
}

/// The Rust type that stands for a primitive in generated code.
pub open spec fn spec_rust_type(p: Primative) -> Seq<char> {
    match p {
        Primative::Bool => "bool"@,
        Primative::I32 => "i32"@,
        Primative::I64 => "i64"@,
        Primative::F32 => "f32"@,
        Primative::F64 => "f64"@,
        _ => "String"@,
    }
}

impl Primative {
    /// The Rust type that stands for this primitive in generated code:
    /// `bool`, `i32`, `i64`, `f32`, `f64`, and `String` for every string
    /// format.
    pub fn rust_type(&self) -> (res: &'static str)
        ensures
            res@ == spec_rust_type(*self),
    {
        match self {
            Primative::Bool => "bool",
            Primative::I32 => "i32",
            Primative::I64 => "i64",
            Primative::F32 => "f32",
            Primative::F64 => "f64",
            _ => "String",
        }
    }
}

/// The text that describes a type error.
pub open spec fn spec_type_error_message(e: SpecTypeError) -> Seq<char> {
    match e {
        SpecTypeError::InvalidType(t) => "invalid type "@ + t,
        SpecTypeError::InvalidFormat { typ, format } => "invalid format "@ + format + " for "@
            + typ,
    }
}

impl TypeError {
    /// The text that describes this error: `invalid type {typ}` or
    /// `invalid format {format} for {typ}`.
    pub fn message(&self) -> (res: String)
        ensures
            res@ == spec_type_error_message(self@),
    {
        match self {
            TypeError::InvalidType(t) => {
                let mut m = String::from_str("invalid type ");
                m.append(t.as_str());
                m
            },
            TypeError::InvalidFormat { typ, format } => {
                let mut m = String::from_str("invalid format ");
                m.append(format.as_str());
                m.append(" for ");
                m.append(typ.as_str());
                m
            },
        }
    }
}

fn invalid_format(typ: &str, format: &str) -> (res: TypeError)
    ensures
        res@ == (SpecTypeError::InvalidFormat { typ: typ@, format: format@ }),
{
    TypeError::InvalidFormat { typ: String::from_str(typ), format: String::from_str(format) }
}

impl Type {
    /// Parses an OpenAPI `type` with its optional `format`: `boolean`,
    /// `integer` (`int32`, `int64`; `int64` by default), `number` (`float`,
    /// `double`; `double` by default), `string` (`bytes`, `binary`, `date`,
    /// `date-time`, `password`; plain by default), `object` and `array`.
    /// An unknown type, or a format its type does not know, is an error.
    pub fn parse(typ: &str, format: Option<&str>) -> (res: Result<Type, TypeError>)
        ensures
            match (res, spec_parse_type(typ@, opt_str_view(format))) {
                (Ok(t), Ok(s)) => t == s,
                (Err(e), Err(s)) => e@ == s,
                _ => false,
            },
    {
        if str_eq(typ, "boolean") {
            Ok(Type::Primative(Primative::Bool))
        } else if str_eq(typ, "integer") {
            match format {
                None => Ok(Type::Primative(Primative::I64)),
                Some(f) => if str_eq(f, "int32") {
                    Ok(Type::Primative(Primative::I32))
                } else if str_eq(f, "int64") {
                    Ok(Type::Primative(Primative::I64))
                } else {
                    Err(invalid_format(typ, f))
                },
            }
        } else if str_eq(typ, "number") {
            match format {
                None => Ok(Type::Primative(Primative::F64)),
                Some(f) => if str_eq(f, "float") {
                    Ok(Type::Primative(Primative::F32))
                } else if str_eq(f, "double") {
                    Ok(Type::Primative(Primative::F64))
                } else {
                    Err(invalid_format(typ, f))
                },
            }
        } else if str_eq(typ, "string") {
            match format {
                None => Ok(Type::Primative(Primative::String)),
                Some(f) => if str_eq(f, "bytes") {
                    Ok(Type::Primative(Primative::Bytes))
                } else if str_eq(f, "binary") {
                    Ok(Type::Primative(Primative::Binary))
                } else if str_eq(f, "date") {
                    Ok(Type::Primative(Primative::Date))
                } else if str_eq(f, "date-time") {
                    Ok(Type::Primative(Primative::DateTime))
                } else if str_eq(f, "password") {
                    Ok(Type::Primative(Primative::Password))
                } else {
                    Err(invalid_format(typ, f))
                },
            }
        } else if str_eq(typ, "object") {
            Ok(Type::Object)
        } else if str_eq(typ, "array") {
            Ok(Type::Array)
        } else {
            Err(TypeError::InvalidType(String::from_str(typ)))
        }
    }
}

} // verus!
