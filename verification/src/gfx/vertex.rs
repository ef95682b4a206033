//! Which vertex format a field of a vertex struct takes, read off the
//! field's type.

use vstd::prelude::*;
use vstd::string::StringExecFns;
use crate::name_map::same_text;

verus! {

/// The type of a field, as far as the format depends on it.
#[derive(Debug)]
pub enum FieldType {
    /// An array. `element` is the name of the element type where that is a
    /// name, and `length` the digits of the length where that is written
    /// as a number.
    Array { element: Option<String>, length: Option<String> },
    /// A type that is a name.
    Path(String),
    /// Any other type.
    Other,
}

/// A field of a vertex struct.
#[derive(Debug)]
pub struct Field {
    pub ty: FieldType,
    /// Whether the field is marked as normalized.
    pub normalized: bool,
}

/// Why a struct has no vertex layout.
#[derive(Clone, Copy, Debug, PartialEq, Eq, Structural)]
pub enum VertexError {
    /// The elements of an array are of a type that is no name.
    TypeNotAllowed,
    /// A field of floats is marked as normalized.
    FloatsNotNormalized,
    /// A type is none of the numbers that have a format.
    InvalidIdentifier,
    /// The length of an array is not written as a number.
    LengthNotLiteral,
    /// A field is neither an array nor a number.
    NotArrayOrNumber,
}

/// The format of one element of an array of `ident` that is read as it is.
pub open spec fn plain_format(ident: Seq<char>) -> Result<Seq<char>, VertexError> {
    if ident == "f32"@ {
        Ok("Float32"@)
    } else if ident == "f64"@ {
        Ok("Float64"@)
    } else if ident == "u8"@ {
        Ok("Uint8"@)
    } else if ident == "i8"@ {
        Ok("Sint8"@)
    } else if ident == "u16"@ {
        Ok("Uint16"@)
    } else if ident == "i16"@ {
        Ok("Sint16"@)
    } else if ident == "u32"@ {
        Ok("Uint32"@)
    } else if ident == "i32"@ {
        Ok("Sint32"@)
    } else {
        Err(VertexError::InvalidIdentifier)
    }
}

/// The format of one element of an array of `ident` that is read as a
/// share of the type's range.
pub open spec fn normalized_format(ident: Seq<char>) -> Result<Seq<char>, VertexError> {
    if ident == "f32"@ || ident == "f64,"@ {
        Err(VertexError::FloatsNotNormalized)
    } else if ident == "u8"@ {
        Ok("Unorm8"@)
    } else if ident == "i8"@ {
        Ok("Snorm8"@)
    } else if ident == "u16"@ {
        Ok("Unorm16"@)
    } else if ident == "i16"@ {
        Ok("Snorm16"@)
    } else if ident == "u32"@ {
        Ok("Unorm32"@)
    } else if ident == "i32"@ {
        Ok("Snorm32"@)
    } else {
        Err(VertexError::InvalidIdentifier)
    }
}

/// The format of a field that is a single number of type `ident`.
pub open spec fn scalar_format(ident: Seq<char>) -> Result<Seq<char>, VertexError> {
    if ident == "f32"@ {
        Ok("Float32"@)
    } else if ident == "f64"@ {
        Ok("Float64"@)
    } else if ident == "i32"@ {
        Ok("Sint32"@)
    } else if ident == "u32"@ {
        Ok("Uint32"@)
    } else {
        Err(VertexError::InvalidIdentifier)
    }
}

/// The name of the format of a field. For an array it is the format of the
/// element, an `x` and the length; what is wrong with the element is told
/// before what is wrong with the length. Whether a single number is marked
/// as normalized makes no difference.
pub open spec fn format_name(field: Field) -> Result<Seq<char>, VertexError> {
    match field.ty {
        FieldType::Array { element, length } => match element {
            None => Err(VertexError::TypeNotAllowed),
            Some(ident) => {
                let of_element = if field.normalized {
                    normalized_format(ident@)
                } else {
                    plain_format(ident@)
                };
                match (of_element, length) {
                    (Err(error), _) => Err(error),
                    (Ok(_), None) => Err(VertexError::LengthNotLiteral),
                    (Ok(name), Some(digits)) => Ok(name + "x"@ + digits@),
                }
            },
        },
        FieldType::Path(ident) => scalar_format(ident@),
        FieldType::Other => Err(VertexError::NotArrayOrNumber),
    }
}

fn plain_format_of(ident: &str) -> (name: Result<&'static str, VertexError>)
    ensures
        match name {
            Ok(name) => plain_format(ident@) == Ok::<Seq<char>, VertexError>(name@),
            Err(error) => plain_format(ident@) == Err::<Seq<char>, VertexError>(error),
        },
{
    if same_text(ident, "f32") {
        Ok("Float32")
    } else if same_text(ident, "f64") {
        Ok("Float64")
    } else if same_text(ident, "u8") {
        Ok("Uint8")
    } else if same_text(ident, "i8") {
        Ok("Sint8")
    } else if same_text(ident, "u16") {
        Ok("Uint16")
    } else if same_text(ident, "i16") {
        Ok("Sint16")
    } else if same_text(ident, "u32") {
        Ok("Uint32")
    } else if same_text(ident, "i32") {
        Ok("Sint32")
    } else {
        Err(VertexError::InvalidIdentifier)
    }
}

fn normalized_format_of(ident: &str) -> (name: Result<&'static str, VertexError>)
    ensures
        match name {
            Ok(name) => normalized_format(ident@) == Ok::<Seq<char>, VertexError>(name@),
            Err(error) => normalized_format(ident@) == Err::<Seq<char>, VertexError>(error),
        },
{
    if same_text(ident, "f32") || same_text(ident, "f64,") {
        Err(VertexError::FloatsNotNormalized)
    } else if same_text(ident, "u8") {
        Ok("Unorm8")
    } else if same_text(ident, "i8") {
        Ok("Snorm8")
    } else if same_text(ident, "u16") {
        Ok("Unorm16")
    } else if same_text(ident, "i16") {
        Ok("Snorm16")
    } else if same_text(ident, "u32") {
        Ok("Unorm32")
    } else if same_text(ident, "i32") {
        Ok("Snorm32")
    } else {
        Err(VertexError::InvalidIdentifier)
    }
}

fn scalar_format_of(ident: &str) -> (name: Result<&'static str, VertexError>)
    ensures
        match name {
            Ok(name) => scalar_format(ident@) == Ok::<Seq<char>, VertexError>(name@),
            Err(error) => scalar_format(ident@) == Err::<Seq<char>, VertexError>(error),
        },
{
    if same_text(ident, "f32") {
        Ok("Float32")
    } else if same_text(ident, "f64") {
        Ok("Float64")
    } else if same_text(ident, "i32") {
        Ok("Sint32")
    } else if same_text(ident, "u32") {
        Ok("Uint32")
    } else {
        Err(VertexError::InvalidIdentifier)
    }
}

/// The name of the format of a field.
pub fn field_format(field: &Field) -> (name: Result<String, VertexError>)
    ensures
        match name {
            Ok(name) => format_name(*field) == Ok::<Seq<char>, VertexError>(name@),
            Err(error) => format_name(*field) == Err::<Seq<char>, VertexError>(error),
        },
{
    match &field.ty {
        FieldType::Array { element, length } => {
            let ident = match element {
                Some(ident) => ident,
                None => { return Err(VertexError::TypeNotAllowed); },
            };
            let of_element = if field.normalized {
                normalized_format_of(ident.as_str())
            } else {
                plain_format_of(ident.as_str())
            };
            let of_element = match of_element {
                Ok(name) => name,
                Err(error) => { return Err(error); },
            };
            let digits = match length {
                Some(digits) => digits,
                None => { return Err(VertexError::LengthNotLiteral); },
            };
            let mut name = String::from_str(of_element);
            name.append("x");
            name.append(digits.as_str());
            Ok(name)
        },
        FieldType::Path(ident) => match scalar_format_of(ident.as_str()) {
            Ok(name) => Ok(String::from_str(name)),
            Err(error) => Err(error),
        },
        FieldType::Other => Err(VertexError::NotArrayOrNumber),
    }
}

/// The formats of the fields of a vertex struct, in order: the format at
/// position `i` is that of the attribute at shader location `i`. The first
/// field that has none says why the struct has no layout.
pub open spec fn format_names(fields: Seq<Field>) -> Result<Seq<Seq<char>>, VertexError>
    decreases fields.len(),
{
    if fields.len() == 0 {
        Ok(Seq::empty())
    } else {
        match format_names(fields.drop_last()) {
            Err(error) => Err(error),
            Ok(names) => match format_name(fields.last()) {
                Err(error) => Err(error),
                Ok(name) => Ok(names.push(name)),
            },
        }
    }
}

/// The formats of the fields of a vertex struct.
pub fn vertex_formats(fields: &Vec<Field>) -> (names: Result<Vec<String>, VertexError>)
    ensures
        match names {
            Ok(names) => format_names(fields@) == Ok::<Seq<Seq<char>>, VertexError>(
                Seq::new(names@.len(), |i: int| names@[i]@),
            ),
            Err(error) => format_names(fields@) == Err::<Seq<Seq<char>>, VertexError>(error),
        },
{
    let mut names: Vec<String> = Vec::new();
    let mut i: usize = 0;
    assert(Seq::new(names@.len(), |k: int| names@[k]@) =~= Seq::<Seq<char>>::empty());
    while i < fields.len()
        invariant
            i <= fields@.len(),
            format_names(fields@.take(i as int)) == Ok::<Seq<Seq<char>>, VertexError>(
                Seq::new(names@.len(), |k: int| names@[k]@),
            ),
        decreases fields@.len() - i,
    {
        let ghost before = Seq::new(names@.len(), |k: int| names@[k]@);
        proof {
            assert(fields@.take(i + 1).drop_last() =~= fields@.take(i as int));
            assert(fields@.take(i + 1).last() == fields@[i as int]);
        }
        match field_format(&fields[i]) {
            Ok(name) => {
                let ghost text = name@;
                names.push(name);
                assert(Seq::new(names@.len(), |k: int| names@[k]@) =~= before.push(text));
            },
            Err(error) => {
                proof {
                    lemma_first_failure_stays(fields@, i + 1);
                }
                return Err(error);
            },
        }
        i = i + 1;
    }
    assert(fields@.take(i as int) =~= fields@);
    Ok(names)
}

/// Once a field has no format, no longer list of fields has a layout, and
/// the reason stays the same.
proof fn lemma_first_failure_stays(fields: Seq<Field>, n: int)
    requires
        0 <= n <= fields.len(),
        format_names(fields.take(n)) is Err,
    ensures
        format_names(fields) == format_names(fields.take(n)),
    decreases fields.len() - n,
{
    if n < fields.len() {
        assert(fields.take(n + 1).drop_last() =~= fields.take(n));
        lemma_first_failure_stays(fields, n + 1);
    } else {
        assert(fields.take(n) =~= fields);
    }
}

} // verus!
