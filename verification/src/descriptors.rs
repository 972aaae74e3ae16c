//! Field descriptors: the Java names of the types they denote.
use vstd::prelude::*;
use crate::model::TypeDesc;
use crate::names::{import_name, lemma_record_imports_single, record_imports, simple_name};
use crate::text::chars_of;

verus! {

/// The class name inside an object descriptor: `Lcom/example/Foo;` gives
/// `com/example/Foo`.
pub open spec fn inner_name(d: Seq<char>) -> Seq<char> {
    d.subrange(1, d.len() - 1)
}

/// Whether the class name can be cut out of the descriptor `d`: it has a
/// first and a last character, each one byte long in UTF-8.
pub open spec fn sliceable(d: Seq<char>) -> bool {
    &&& d.len() >= 2
    &&& (d[0] as u32) < 0x80
    &&& (d.last() as u32) < 0x80
}

/// The Java keyword of a one-letter primitive descriptor (or `void`).
pub open spec fn primitive_keyword(c: char) -> Option<Seq<char>> {
    if c == 'V' {
        Some("void"@)
    } else if c == 'Z' {
        Some("boolean"@)
    } else if c == 'B' {
        Some("byte"@)
    } else if c == 'S' {
        Some("short"@)
    } else if c == 'C' {
        Some("char"@)
    } else if c == 'I' {
        Some("int"@)
    } else if c == 'F' {
        Some("float"@)
    } else if c == 'J' {
        Some("long"@)
    } else if c == 'D' {
        Some("double"@)
    } else {
        None
    }
}

/// The Java keyword of a primitive element descriptor, `None` for any other.
pub open spec fn primitive_name(d: Seq<char>) -> Option<Seq<char>> {
    if d.len() == 1 {
        primitive_keyword(d[0])
    } else {
        None
    }
}

/// `n` pairs of brackets.
pub open spec fn brackets(n: nat) -> Seq<char>
    decreases n,
{
    if n == 0 {
        Seq::empty()
    } else {
        brackets((n - 1) as nat) + "[]"@
    }
}

/// A type as Java source names it: the primitive keyword or the class's
/// simple name, followed by one `[]` per dimension.
pub open spec fn type_text(t: TypeDesc) -> Seq<char> {
    element_text(t.descriptor@) + brackets(t.dimensions as nat)
}

/// The Java name of an element type: its primitive keyword, or its class's
/// simple name.
pub open spec fn element_text(d: Seq<char>) -> Seq<char> {
    match primitive_name(d) {
        Some(k) => k,
        None => simple_name(inner_name(d)),
    }
}

/// The classes that a type names.
pub open spec fn type_refs(t: TypeDesc) -> Seq<Seq<char>> {
    match primitive_name(t.descriptor@) {
        Some(_) => Seq::empty(),
        None => seq![inner_name(t.descriptor@)],
    }
}

/// A type whose element descriptor is primitive or has a class name to cut out.
pub open spec fn type_wf(t: TypeDesc) -> bool {
    primitive_name(t.descriptor@) is Some || sliceable(t.descriptor@)
}

/// The class name inside the object descriptor `d`.
pub fn class_part(d: &str) -> (r: &str)
    requires
        sliceable(d@),
    ensures
        r@ == inner_name(d@),
{
    let n = d.unicode_len();
    d.substring_char(1, n - 1)
}

fn keyword_of(c: char) -> (r: Option<&'static str>)
    ensures
        match primitive_keyword(c) {
            Some(k) => r matches Some(s) && s@ == k,
            None => r is None,
        },
{
    if c == 'V' {
        Some("void")
    } else if c == 'Z' {
        Some("boolean")
    } else if c == 'B' {
        Some("byte")
    } else if c == 'S' {
        Some("short")
    } else if c == 'C' {
        Some("char")
    } else if c == 'I' {
        Some("int")
    } else if c == 'F' {
        Some("float")
    } else if c == 'J' {
        Some("long")
    } else if c == 'D' {
        Some("double")
    } else {
        None
    }
}

/// Appends the Java name of the type `ty`, importing its class if needed.
pub fn write_type(mypkg: &str, imports: &mut Vec<String>, ty: &TypeDesc, data: &mut String)
    requires
        type_wf(*ty),
    ensures
        final(data)@ == old(data)@ + type_text(*ty),
        final(imports).deep_view() == record_imports(
            mypkg@,
            old(imports).deep_view(),
            type_refs(*ty),
        ),
{
    let dm = ty.dimensions;
    let dsc = ty.descriptor.as_str();
    let v = chars_of(dsc);
    let kw = if v.len() == 1 {
        keyword_of(v[0])
    } else {
        None
    };
    let ghost start = data@;
    match kw {
        Some(k) => {
            data.append(k);
        },
        None => {
            let raw = import_name(mypkg, imports, class_part(dsc));
            data.append(raw);
            proof {
                lemma_record_imports_single(mypkg@, old(imports).deep_view(), inner_name(dsc@));
            }
        },
    }
    let ghost base = data@;
    let mut i: usize = 0;
    while i < dm
        invariant
            i <= dm,
            data@ == base + brackets(i as nat),
        decreases dm - i,
    {
        data.append("[]");
        i = i + 1;
        assert(data@ =~= base + brackets(i as nat));
    }
    assert(data@ =~= start + type_text(*ty));
}

/// Whether the class name can be cut out of the descriptor `d`.
pub fn is_sliceable(d: &str) -> (r: bool)
    ensures
        r == sliceable(d@),
{
    let v = chars_of(d);
    let n = v.len();
    n >= 2 && (v[0] as u32) < 0x80 && (v[n - 1] as u32) < 0x80
}

/// Whether the type `t` can be rendered.
pub fn type_renderable(t: &TypeDesc) -> (r: bool)
    ensures
        r == type_wf(*t),
{
    let v = chars_of(t.descriptor.as_str());
    if v.len() == 1 && keyword_of(v[0]).is_some() {
        return true;
    }
    is_sliceable(t.descriptor.as_str())
}

} // verus!
