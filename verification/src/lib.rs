//! Renders a compiled Java class as Java-like source text, for a file
//! preview: the package, the imports that its simple names need, its
//! annotations, and the declarations of its enum constants, fields and
//! methods.  Also holds the reference count and the interface answers of the
//! preview generator plug-in.
pub mod access;
pub mod annotations;
pub mod describe;
pub mod descriptors;
pub mod model;
pub mod names;
pub mod plugin;
pub mod text;
