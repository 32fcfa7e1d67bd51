//! The shape of a type that an encoder or decoder is derived for.

use vstd::prelude::*;

verus! {

/// A token of an attribute's arguments.
pub enum Token {
    /// An identifier or keyword, as it is written.
    Ident(String),
    /// A string literal: its value, and why that is not a path if it is none.
    Text { value: String, path_fault: Option<String> },
    /// Another literal; `number` tells whether it is a number.
    Literal { number: bool },
    /// A punctuation character; `joint` tells that another one follows at
    /// once.
    Punct { ch: char, joint: bool },
    /// Tokens in parentheses, brackets or braces.
    Group,
}

/// What follows the path of an attribute.
pub enum Arguments {
    /// Nothing.
    Nothing,
    /// A list in parentheses.
    List(Vec<Token>),
    /// An equals sign and a value.
    Value,
}

/// An attribute: its path and its arguments.
pub struct Attribute {
    pub path: String,
    pub arguments: Arguments,
}

/// A type as it is written, and the identifiers that paths in it start with.
pub struct TypeUse {
    pub text: String,
    pub leading: Vec<String>,
}

/// A field with a name.
pub struct Field {
    pub name: String,
    pub ty: TypeUse,
    pub attributes: Vec<Attribute>,
}

/// The fields of a struct or of a variant.
pub enum Fields {
    Named(Vec<Field>),
    Unnamed(Vec<TypeUse>),
    Unit,
}

/// A variant of an enum.
pub struct Variant {
    pub name: String,
    pub attributes: Vec<Attribute>,
    pub fields: Fields,
}

/// What kind of type it is.
pub enum Body {
    Struct(Fields),
    Enum(Vec<Variant>),
    Union,
}

/// A type to derive for.
pub struct Input {
    pub name: String,
    /// The names of its type parameters, in order.
    pub type_params: Vec<String>,
    pub attributes: Vec<Attribute>,
    pub body: Body,
}

} // verus!
