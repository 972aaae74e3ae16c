//! The parts of a parsed class file that rendering reads.
//!
//! Names are internal names (`com/example/Foo`); descriptors are field
//! descriptors (`I`, `Ljava/lang/String;`).
use vstd::prelude::*;
use crate::access::{ClassAccess, FieldAccess, MethodAccess};

verus! {

/// A Java type, split into its element type and its array depth: `[[I` has
/// element descriptor `I` and two dimensions.
#[derive(Debug)]
pub struct TypeDesc {
    pub dimensions: usize,
    pub descriptor: String,
}

/// A constant element value of an annotation.
#[derive(Debug)]
pub enum AnnotationPrimitive {
    Byte(i8),
    Character(char),
    Short(i16),
    Integer(i32),
    Long(i64),
    /// A `float`, held as the text that Rust's `{}` formatting gives it.
    Float(String),
    /// A `double`, held as the text that Rust's `{}` formatting gives it.
    Double(String),
    Boolean(bool),
    String(String),
    /// A class literal, held as the descriptor of the class.
    Type(String),
}

/// An element value of an annotation.
#[derive(Debug)]
pub enum AnnotationValue {
    Primitive(AnnotationPrimitive),
    Nested(AnnotationNode),
    Array(Vec<AnnotationValue>),
    /// An enum constant: the descriptor of the enum type and the constant's name.
    Enum { desc: String, value: String },
}

/// An annotation: the descriptor of its type and its element-value pairs,
/// each element named once.
#[derive(Debug)]
pub struct AnnotationNode {
    pub desc: String,
    pub values: Vec<(String, AnnotationValue)>,
}

/// A field of a class.
#[derive(Debug)]
pub struct FieldNode {
    pub access: FieldAccess,
    pub name: String,
    pub field_type: TypeDesc,
    pub visible_annotations: Vec<AnnotationNode>,
    pub invisible_annotations: Vec<AnnotationNode>,
}

/// A method of a class, with the types that its descriptor names.
#[derive(Debug)]
pub struct MethodNode {
    pub access: MethodAccess,
    pub name: String,
    pub return_type: TypeDesc,
    pub argument_types: Vec<TypeDesc>,
    pub exceptions: Vec<String>,
    pub visible_annotations: Vec<AnnotationNode>,
    pub invisible_annotations: Vec<AnnotationNode>,
    /// For an annotation interface's element, its default value, held as an
    /// annotation whose one element has the empty name.
    pub annotation_default: Option<AnnotationNode>,
}

/// A class, as read from a class file without code and debug information.
#[derive(Debug)]
pub struct ClassNode {
    pub access: ClassAccess,
    pub name: String,
    pub super_name: Option<String>,
    pub interfaces: Vec<String>,
    pub visible_annotations: Vec<AnnotationNode>,
    pub invisible_annotations: Vec<AnnotationNode>,
    pub fields: Vec<FieldNode>,
    pub methods: Vec<MethodNode>,
}

} // verus!
