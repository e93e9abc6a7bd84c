//! Per-class static metadata: the class descriptor and its four descriptor
//! tables (instance functions, instance properties, static functions, static
//! properties).

use vstd::prelude::*;

verus! {

/// One entry of a function descriptor table: a named native function slot
/// with its expected argument count and its attribute flags.
#[derive(Debug, Clone)]
pub struct FunctionSpecEntry {
    pub name: String,
    pub nargs: u16,
    pub flags: u16,
}

/// What a property descriptor entry exposes: either a pair of native
/// accessors, or a fixed string or integer value.
#[derive(Debug, Clone)]
pub enum PropertyValue {
    Accessor { has_getter: bool, has_setter: bool },
    Text(String),
    Int32(i32),
}

/// One entry of a property descriptor table: a named property with its
/// attribute flags and its value or accessors.
#[derive(Debug, Clone)]
pub struct PropertySpecEntry {
    pub name: String,
    pub attributes: u8,
    pub value: PropertyValue,
}

/// Creates a [`FunctionSpecEntry`] with the given name, number of arguments
/// and flags.
pub fn create_function_spec(name: String, nargs: u16, flags: u16) -> (s: FunctionSpecEntry)
    ensures
        s == (FunctionSpecEntry { name, nargs, flags }),
{
    FunctionSpecEntry { name, nargs, flags }
}

/// Creates a [`PropertySpecEntry`] with a getter, setter and attributes.
pub fn create_property_spec_accessor(
    name: String,
    has_getter: bool,
    has_setter: bool,
    attrs: u8,
) -> (s: PropertySpecEntry)
    ensures
        s == (PropertySpecEntry {
            name,
            attributes: attrs,
            value: PropertyValue::Accessor { has_getter, has_setter },
        }),
{
    PropertySpecEntry { name, attributes: attrs, value: PropertyValue::Accessor { has_getter, has_setter } }
}

/// Creates a [`PropertySpecEntry`] with a string value and attributes.
pub fn create_property_spec_string(name: String, string: String, attrs: u8) -> (s: PropertySpecEntry)
    ensures
        s == (PropertySpecEntry { name, attributes: attrs, value: PropertyValue::Text(string) }),
{
    PropertySpecEntry { name, attributes: attrs, value: PropertyValue::Text(string) }
}

/// Creates a [`PropertySpecEntry`] with an integer value and attributes.
pub fn create_property_spec_int(name: String, number: i32, attrs: u8) -> (s: PropertySpecEntry)
    ensures
        s == (PropertySpecEntry { name, attributes: attrs, value: PropertyValue::Int32(number) }),
{
    PropertySpecEntry { name, attributes: attrs, value: PropertyValue::Int32(number) }
}

/// A scriptable class's compile-time description: its name, its native type
/// identity (which also stands for the engine's shape token), an optional
/// parent class forming a single-inheritance chain, the constructor's arity,
/// and the four descriptor tables installed at registration.
#[derive(Debug, Clone)]
pub struct ClassDescriptor {
    pub name: String,
    pub type_key: u64,
    pub parent: Option<u64>,
    pub constructor_nargs: u32,
    pub functions: Vec<FunctionSpecEntry>,
    pub properties: Vec<PropertySpecEntry>,
    pub static_functions: Vec<FunctionSpecEntry>,
    pub static_properties: Vec<PropertySpecEntry>,
}

} // verus!
