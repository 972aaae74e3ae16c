//! Rendering a class as Java-like source text: its package, the imports that
//! its simple names need, its annotations, and the declarations of its enum
//! constants, fields and methods.
use vstd::prelude::*;
use vstd::seq_lib::{lemma_concat_associative, lemma_flatten_concat};
use crate::access::{
    text_if,
    class_access_text, field_access_text, method_access_text, write_class_access,
    write_field_access, write_method_access, ClassAccess, FieldAccess,
};
use crate::annotations::{
    annotation_refs, annotation_text,
    annotations_renderable, names_are_distinct, value_renderable, annotation_lines, annotations_refs, annotations_wf, find_entry, member_annotation_lines,
    member_annotation_refs, names_distinct, value_refs, value_text, value_wf,
    write_ann_value, write_annotation_lines, write_member_annotations,
};
use crate::descriptors::{type_refs, type_renderable, type_text, type_wf, write_type};
use crate::model::{AnnotationNode, AnnotationValue, ClassNode, FieldNode, MethodNode, TypeDesc};
use crate::names::{
    as_java_name, import_name, java_name, law_record_imports_distinct,
    law_record_imports_members, lemma_record_imports_concat, lemma_record_imports_single,
    needs_import_spec, package_of, package_part, record_imports, simple_name, split_name,
};
use crate::text::{
    law_join_push,
    join, joined_prefix, lemma_joined_prefix_push, nat_text, push_u64, str_eq,
};

verus! {

/// The package of the class being rendered.
pub open spec fn my_package(c: ClassNode) -> Seq<char> {
    package_of(c.name@)
}

/// The superclass that the declaration names: none for an enum, and none when
/// it is `java/lang/Object`.
pub open spec fn extends_name(c: ClassNode) -> Option<Seq<char>> {
    if !c.access.has(ClassAccess::ACC_ENUM) && c.super_name is Some && c.super_name->0@
        != "java/lang/Object"@ {
        Some(c.super_name->0@)
    } else {
        None
    }
}

/// The interfaces that the declaration names: none for an annotation interface.
pub open spec fn implements_names(c: ClassNode) -> Seq<Seq<char>> {
    if !c.access.has(ClassAccess::ACC_ANNOTATION) {
        c.interfaces@.map_values(|i: String| i@)
    } else {
        Seq::empty()
    }
}

/// The simple names of a list of internal names.
pub open spec fn simple_names(names: Seq<Seq<char>>) -> Seq<Seq<char>> {
    names.map_values(|n: Seq<char>| simple_name(n))
}

/// ` extends Name` for the superclass that the declaration names, if any.
pub open spec fn extends_text(c: ClassNode) -> Seq<char> {
    match extends_name(c) {
        Some(sn) => " extends "@ + simple_name(sn),
        None => Seq::empty(),
    }
}

/// The superclass that the declaration names, as a list of zero or one names.
pub open spec fn extends_refs(c: ClassNode) -> Seq<Seq<char>> {
    match extends_name(c) {
        Some(sn) => seq![sn],
        None => Seq::empty(),
    }
}

/// ` implements A, B` for the interfaces that the declaration names, if any.
pub open spec fn implements_text(c: ClassNode) -> Seq<char> {
    if implements_names(c).len() > 0 {
        " implements "@ + join(simple_names(implements_names(c)), ", "@)
    } else {
        Seq::empty()
    }
}

/// The line that opens the declaration, such as
/// `public class Foo extends Bar implements Baz, Qux {`.
pub open spec fn declaration_line(c: ClassNode) -> Seq<char> {
    class_access_text(c.access) + simple_name(c.name@) + extends_text(c) + implements_text(c)
        + " {\n"@
}

/// The classes that the line opening the declaration names.
pub open spec fn declaration_refs(c: ClassNode) -> Seq<Seq<char>> {
    extends_refs(c) + implements_names(c)
}

/// The class annotations and the line that opens the declaration.
pub open spec fn header_text(c: ClassNode) -> Seq<char> {
    annotation_lines(c.visible_annotations@, false) + annotation_lines(
        c.invisible_annotations@,
        false,
    ) + declaration_line(c)
}

/// The classes that the class annotations and the opening line name.
pub open spec fn header_refs(c: ClassNode) -> Seq<Seq<char>> {
    annotations_refs(c.visible_annotations@) + annotations_refs(c.invisible_annotations@)
        + declaration_refs(c)
}

/// Whether a field is an enum constant.
pub open spec fn is_enum_field(f: FieldNode) -> bool {
    f.access.has(FieldAccess::ACC_ENUM)
}

/// The enum constants among the fields, in order.
pub open spec fn enum_fields(fs: Seq<FieldNode>) -> Seq<FieldNode> {
    fs.filter(|f: FieldNode| is_enum_field(f))
}

/// The fields that are not enum constants, in order.
pub open spec fn plain_fields(fs: Seq<FieldNode>) -> Seq<FieldNode> {
    fs.filter(|f: FieldNode| !is_enum_field(f))
}

/// An enum constant: its annotations, then its name, ended by `;` when it is
/// the last constant and by `,` otherwise.
pub open spec fn enum_constant_text(f: FieldNode, last: bool) -> Seq<char> {
    member_annotation_lines(f.visible_annotations@, f.invisible_annotations@) + "    "@ + f.name@
        + (if last {
        ";\n"@
    } else {
        ",\n"@
    })
}

/// The enum constants of a class.
pub open spec fn enum_constants_text(fs: Seq<FieldNode>) -> Seq<char> {
    let es = enum_fields(fs);
    es.map(|k: int, f: FieldNode| enum_constant_text(f, k + 1 == es.len())).flatten()
}

/// The declaration of a field: its annotations, modifiers, type and name.
pub open spec fn field_text(f: FieldNode) -> Seq<char> {
    member_annotation_lines(f.visible_annotations@, f.invisible_annotations@) + "    "@
        + field_access_text(f.access) + type_text(f.field_type) + " "@ + f.name@ + ";\n"@
}

/// The classes that the declaration of a field names.
pub open spec fn field_refs(f: FieldNode) -> Seq<Seq<char>> {
    member_annotation_refs(f.visible_annotations@, f.invisible_annotations@) + type_refs(
        f.field_type,
    )
}

/// The classes that an enum constant names.
pub open spec fn enum_constant_refs(f: FieldNode) -> Seq<Seq<char>> {
    member_annotation_refs(f.visible_annotations@, f.invisible_annotations@)
}

/// The parameters of a method: each type, followed by ` arg` and its index.
pub open spec fn argument_texts(ts: Seq<TypeDesc>) -> Seq<Seq<char>> {
    ts.map(|i: int, t: TypeDesc| type_text(t) + " arg"@ + nat_text(i as nat))
}

/// The index of the element with the empty name in an annotation default.
pub open spec fn default_index(an: AnnotationNode) -> int {
    choose|k: int| 0 <= k < an.values@.len() && an.values@[k].0@ == ""@
}

/// Whether an annotation default holds an element with the empty name.
pub open spec fn has_default_entry(an: AnnotationNode) -> bool {
    exists|k: int| 0 <= k < an.values@.len() && an.values@[k].0@ == ""@
}

/// The return type and name of a method, or the class's simple name for a
/// constructor.
pub open spec fn method_name_text(m: MethodNode, my_name: Seq<char>) -> Seq<char> {
    if m.name@ == "<init>"@ {
        my_name
    } else {
        type_text(m.return_type) + " "@ + m.name@
    }
}

/// The classes that the return type of a method names (none for a constructor).
pub open spec fn method_name_refs(m: MethodNode) -> Seq<Seq<char>> {
    if m.name@ == "<init>"@ {
        Seq::empty()
    } else {
        type_refs(m.return_type)
    }
}

/// ` throws A, B` for the exceptions that a method declares, if any.
pub open spec fn throws_text(m: MethodNode) -> Seq<char> {
    if m.exceptions.len() != 0 {
        " throws "@ + join(simple_names(names_of(m.exceptions@)), ", "@)
    } else {
        Seq::empty()
    }
}

/// The default value of an annotation interface's element, held by `an`.
pub open spec fn default_value(an: AnnotationNode) -> AnnotationValue {
    an.values@[default_index(an)].1
}

/// ` default value` for an annotation interface's element with a default.
pub open spec fn default_text(m: MethodNode) -> Seq<char> {
    match m.annotation_default {
        Some(an) => " default "@ + value_text(default_value(an)),
        None => Seq::empty(),
    }
}

/// The classes that the default value of an element names.
pub open spec fn default_refs(m: MethodNode) -> Seq<Seq<char>> {
    match m.annotation_default {
        Some(an) => value_refs(default_value(an)),
        None => Seq::empty(),
    }
}

/// The declaration of a method other than a static initializer: modifiers,
/// return type and name, parameters, thrown exceptions and default value.
pub open spec fn signature_text(m: MethodNode, my_name: Seq<char>) -> Seq<char> {
    method_access_text(m.access) + method_name_text(m, my_name) + "("@ + join(
        argument_texts(m.argument_types@),
        ", "@,
    ) + ")"@ + throws_text(m) + default_text(m) + ";\n"@
}

/// The classes that the declaration of a method other than a static
/// initializer names, in the order they are written.
pub open spec fn signature_refs(m: MethodNode) -> Seq<Seq<char>> {
    method_name_refs(m) + m.argument_types@.flat_map(|t: TypeDesc| type_refs(t)) + names_of(
        m.exceptions@,
    ) + default_refs(m)
}

/// The declaration of a method: its annotations, then `static {};` for a
/// static initializer and its signature otherwise.
pub open spec fn method_text(m: MethodNode, my_name: Seq<char>) -> Seq<char> {
    member_annotation_lines(m.visible_annotations@, m.invisible_annotations@) + "    "@ + if m.name@
        == "<clinit>"@ {
        "static {};\n"@
    } else {
        signature_text(m, my_name)
    }
}

/// The classes that the declaration of a method names, in the order they are
/// written.
pub open spec fn method_refs(m: MethodNode) -> Seq<Seq<char>> {
    member_annotation_refs(m.visible_annotations@, m.invisible_annotations@) + if m.name@
        == "<clinit>"@ {
        Seq::empty()
    } else {
        signature_refs(m)
    }
}

/// Whether a method can be rendered: its annotations always; unless it is a
/// static initializer, also its types, and its default value, which has an
/// element with the empty name.
pub open spec fn method_wf(m: MethodNode) -> bool {
    &&& annotations_wf(m.visible_annotations@)
    &&& annotations_wf(m.invisible_annotations@)
    &&& m.name@ != "<clinit>"@ ==> {
        &&& (m.name@ != "<init>"@ ==> type_wf(m.return_type))
        &&& forall|i: int| 0 <= i < m.argument_types.len() ==> type_wf(#[trigger] m.argument_types@[i])
        &&& m.annotation_default matches Some(an) ==> {
            &&& names_distinct(an.values@)
            &&& has_default_entry(an)
            &&& value_wf(default_value(an))
        }
    }
}

/// Whether a field can be rendered: its annotations, and its type unless it
/// is an enum constant.
pub open spec fn field_wf(f: FieldNode) -> bool {
    &&& annotations_wf(f.visible_annotations@)
    &&& annotations_wf(f.invisible_annotations@)
    &&& !is_enum_field(f) ==> type_wf(f.field_type)
}

/// Whether a class can be rendered: every annotation, type and default value
/// that the rendering reads can be.
pub open spec fn class_wf(c: ClassNode) -> bool {
    &&& annotations_wf(c.visible_annotations@)
    &&& annotations_wf(c.invisible_annotations@)
    &&& forall|i: int| 0 <= i < c.fields.len() ==> field_wf(#[trigger] c.fields@[i])
    &&& forall|i: int| 0 <= i < c.methods.len() ==> method_wf(#[trigger] c.methods@[i])
}

/// Everything after the import list: the class annotations, the opening
/// line, the enum constants, the other fields, the methods, and the closing
/// brace.
pub open spec fn body_text(c: ClassNode) -> Seq<char> {
    header_text(c) + enum_constants_text(c.fields@) + plain_fields(c.fields@).flat_map(
        |f: FieldNode| field_text(f),
    ) + c.methods@.flat_map(|m: MethodNode| method_text(m, simple_name(c.name@))) + "}\n"@
}

/// Every class that the body names, in the order it is written.
pub open spec fn body_refs(c: ClassNode) -> Seq<Seq<char>> {
    header_refs(c) + enum_fields(c.fields@).flat_map(|f: FieldNode| enum_constant_refs(f))
        + plain_fields(c.fields@).flat_map(|f: FieldNode| field_refs(f)) + c.methods@.flat_map(
        |m: MethodNode| method_refs(m),
    )
}

/// The import list of a rendered class: the dotted names of the classes that
/// its body names and that it must import, each once, in the order of their
/// first mention.
pub open spec fn class_imports(c: ClassNode) -> Seq<Seq<char>> {
    record_imports(my_package(c), Seq::empty(), body_refs(c))
}

/// The import lines for a list of dotted names.
pub open spec fn import_lines(imports: Seq<Seq<char>>) -> Seq<char> {
    imports.flat_map(|i: Seq<char>| "import "@ + i + ";\n"@)
}

/// The rendered source text of a class: its package line, its import lines,
/// a blank line, and its body.
pub open spec fn describe_text(c: ClassNode) -> Seq<char> {
    "package "@ + java_name(my_package(c)) + ";\n\n"@ + import_lines(class_imports(c)) + "\n"@
        + body_text(c)
}

/// The internal names held in a list of strings.
pub open spec fn names_of(v: Seq<String>) -> Seq<Seq<char>> {
    v.map_values(|n: String| n@)
}

/// Appends the simple names of `names`, separated by `, `, importing each
/// class where needed.
fn write_simple_names(names: &Vec<String>, data: &mut String, imports: &mut Vec<String>, mypkg: &str)
    ensures
        final(data)@ == old(data)@ + join(simple_names(names_of(names@)), ", "@),
        final(imports).deep_view() == record_imports(
            mypkg@,
            old(imports).deep_view(),
            names_of(names@),
        ),
{
    let ghost base = data@;
    let ghost imports0 = imports.deep_view();
    let ghost all = names_of(names@);
    let n = names.len();
    let mut i: usize = 0;
    assert(all.take(0) =~= Seq::<Seq<char>>::empty());
    assert(simple_names(all.take(0)) =~= Seq::<Seq<char>>::empty());
    assert(data@ =~= base + joined_prefix(simple_names(all.take(0)), ", "@, n as nat));
    while i < n
        invariant
            n == names.len(),
            all == names_of(names@),
            i <= n,
            data@ == base + joined_prefix(simple_names(all.take(i as int)), ", "@, n as nat),
            imports.deep_view() == record_imports(mypkg@, imports0, all.take(i as int)),
        decreases n - i,
    {
        proof {
            assert(all.take(i + 1).drop_last() =~= all.take(i as int));
            assert(simple_names(all.take(i + 1)) =~= simple_names(all.take(i as int)).push(
                simple_name(all[i as int]),
            ));
            lemma_joined_prefix_push(
                simple_names(all.take(i as int)),
                ", "@,
                n as nat,
                simple_name(all[i as int]),
            );
        }
        let ghost before = data@;
        let raw = import_name(mypkg, imports, names[i].as_str());
        data.append(raw);
        if i + 1 != n {
            data.append(", ");
        }
        assert(data@ =~= before + simple_name(all[i as int]) + (if i + 1 < n {
            ", "@
        } else {
            Seq::empty()
        }));
        i = i + 1;
    }
    assert(all.take(n as int) =~= all);
}

/// Appends the line that opens the declaration of `class`.
fn write_declaration_line(
    class: &ClassNode,
    mypkg: &str,
    data: &mut String,
    imports: &mut Vec<String>,
)
    ensures
        final(data)@ == old(data)@ + declaration_line(*class),
        final(imports).deep_view() == record_imports(
            mypkg@,
            old(imports).deep_view(),
            declaration_refs(*class),
        ),
{
    let ghost start = data@;
    let ghost imports0 = imports.deep_view();
    let ghost c = *class;
    write_class_access(class.access, data);
    data.append(split_name(class.name.as_str()));
    let ghost p1 = data@;
    if !class.access.contains(ClassAccess::ACC_ENUM) {
        if let Some(sn) = &class.super_name {
            if !str_eq(sn.as_str(), "java/lang/Object") {
                data.append(" extends ");
                let raw = import_name(mypkg, imports, sn.as_str());
                data.append(raw);
                proof {
                    lemma_record_imports_single(mypkg@, imports0, sn@);
                }
            }
        }
    }
    assert(data@ =~= p1 + extends_text(c));
    assert(imports.deep_view() == record_imports(mypkg@, imports0, extends_refs(c)));
    let ghost p2 = data@;
    let ghost imports1 = imports.deep_view();
    if !class.access.contains(ClassAccess::ACC_ANNOTATION) {
        if class.interfaces.len() > 0 {
            data.append(" implements ");
            write_simple_names(&class.interfaces, data, imports, mypkg);
        }
    }
    assert(data@ =~= p2 + implements_text(c));
    assert(imports.deep_view() == record_imports(mypkg@, imports1, implements_names(c)));
    proof {
        lemma_record_imports_concat(mypkg@, imports0, extends_refs(c), implements_names(c));
    }
    data.append(" {\n");
    assert(data@ =~= start + declaration_line(c));
}

/// Appends the class annotations and the line that opens the declaration.
fn write_header(class: &ClassNode, mypkg: &str, data: &mut String, imports: &mut Vec<String>)
    requires
        annotations_wf(class.visible_annotations@),
        annotations_wf(class.invisible_annotations@),
    ensures
        final(data)@ == old(data)@ + header_text(*class),
        final(imports).deep_view() == record_imports(
            mypkg@,
            old(imports).deep_view(),
            header_refs(*class),
        ),
{
    let ghost start = data@;
    let ghost imports0 = imports.deep_view();
    let ghost c = *class;
    let ghost a = annotations_refs(c.visible_annotations@);
    let ghost b = annotations_refs(c.invisible_annotations@);
    write_annotation_lines(&class.visible_annotations, false, data, imports, mypkg);
    write_annotation_lines(&class.invisible_annotations, false, data, imports, mypkg);
    write_declaration_line(class, mypkg, data, imports);
    proof {
        lemma_record_imports_concat(mypkg@, imports0, a, b);
        lemma_record_imports_concat(mypkg@, imports0, a + b, declaration_refs(c));
    }
    assert(data@ =~= start + header_text(c));
}

/// Taking one more element keeps it exactly when it passes.
proof fn lemma_filter_take<A>(s: Seq<A>, p: spec_fn(A) -> bool, j: int)
    requires
        0 <= j < s.len(),
    ensures
        s.take(j + 1).filter(p) == if p(s[j]) {
            s.take(j).filter(p).push(s[j])
        } else {
            s.take(j).filter(p)
        },
{
    assert(s.take(j + 1) =~= s.take(j).push(s[j]));
    s.take(j).lemma_filter_push(s[j], p);
}

/// The kept elements of a prefix are a prefix of the kept elements.
proof fn lemma_filter_prefix<A>(s: Seq<A>, p: spec_fn(A) -> bool, j: int)
    requires
        0 <= j <= s.len(),
    ensures
        s.take(j).filter(p).len() <= s.filter(p).len(),
        s.take(j).filter(p) == s.filter(p).take(s.take(j).filter(p).len() as int),
{
    assert(s =~= s.take(j) + s.skip(j));
    Seq::filter_distributes_over_add(s.take(j), s.skip(j), p);
    assert(s.filter(p).take(s.take(j).filter(p).len() as int) =~= s.take(j).filter(p));
}

/// Appends one enum constant, ended by `;` when `last` and by `,` otherwise.
fn write_enum_constant(
    f: &FieldNode,
    last: bool,
    data: &mut String,
    imports: &mut Vec<String>,
    mypkg: &str,
)
    requires
        field_wf(*f),
    ensures
        final(data)@ == old(data)@ + enum_constant_text(*f, last),
        final(imports).deep_view() == record_imports(
            mypkg@,
            old(imports).deep_view(),
            enum_constant_refs(*f),
        ),
{
    let ghost start = data@;
    write_member_annotations(&f.visible_annotations, &f.invisible_annotations, data, imports, mypkg);
    data.append("    ");
    data.append(f.name.as_str());
    if last {
        data.append(";\n");
    } else {
        data.append(",\n");
    }
    assert(data@ =~= start + enum_constant_text(*f, last));
}

/// Appends the declaration of a field that is not an enum constant.
fn write_field(fi: &FieldNode, data: &mut String, imports: &mut Vec<String>, mypkg: &str)
    requires
        field_wf(*fi),
        !is_enum_field(*fi),
    ensures
        final(data)@ == old(data)@ + field_text(*fi),
        final(imports).deep_view() == record_imports(
            mypkg@,
            old(imports).deep_view(),
            field_refs(*fi),
        ),
{
    let ghost start = data@;
    let ghost imports0 = imports.deep_view();
    write_member_annotations(
        &fi.visible_annotations,
        &fi.invisible_annotations,
        data,
        imports,
        mypkg,
    );
    data.append("    ");
    write_field_access(fi.access, data);
    write_type(mypkg, imports, &fi.field_type, data);
    data.append(" ");
    data.append(fi.name.as_str());
    data.append(";\n");
    assert(data@ =~= start + field_text(*fi));
    proof {
        lemma_record_imports_concat(
            mypkg@,
            imports0,
            member_annotation_refs(fi.visible_annotations@, fi.invisible_annotations@),
            type_refs(fi.field_type),
        );
    }
}

/// The number of enum constants among `fields`.
fn count_enum_fields(fields: &Vec<FieldNode>) -> (r: usize)
    ensures
        r == enum_fields(fields@).len(),
{
    let ghost p = |f: FieldNode| is_enum_field(f);
    let mut n: usize = 0;
    let mut j: usize = 0;
    assert(fields@.take(0) =~= Seq::<FieldNode>::empty());
    proof {
        reveal(Seq::filter);
    }
    while j < fields.len()
        invariant
            j <= fields.len(),
            p == (|f: FieldNode| is_enum_field(f)),
            n == fields@.take(j as int).filter(p).len(),
        decreases fields.len() - j,
    {
        proof {
            lemma_filter_take(fields@, p, j as int);
            fields@.lemma_filter_len(p);
        }
        if fields[j].access.contains(FieldAccess::ACC_ENUM) {
            n = n + 1;
        }
        j = j + 1;
    }
    assert(fields@.take(fields.len() as int) =~= fields@);
    n
}

/// Appends the enum constants among `fields`, the last ended by `;` and the
/// others by `,`.
fn write_enum_constants(
    fields: &Vec<FieldNode>,
    data: &mut String,
    imports: &mut Vec<String>,
    mypkg: &str,
)
    requires
        forall|i: int| 0 <= i < fields.len() ==> field_wf(#[trigger] fields@[i]),
    ensures
        final(data)@ == old(data)@ + enum_constants_text(fields@),
        final(imports).deep_view() == record_imports(
            mypkg@,
            old(imports).deep_view(),
            enum_fields(fields@).flat_map(|f: FieldNode| enum_constant_refs(f)),
        ),
{
    let ghost start = data@;
    let ghost imports0 = imports.deep_view();
    let ghost p = |f: FieldNode| is_enum_field(f);
    let ghost es = enum_fields(fields@);
    let ghost g = |k: int, f: FieldNode| enum_constant_text(f, k + 1 == es.len());
    let ghost r = |f: FieldNode| enum_constant_refs(f);
    let en_fields = count_enum_fields(fields);
    let mut i: usize = 0;
    let mut j: usize = 0;
    assert(fields@.take(0) =~= Seq::<FieldNode>::empty());
    assert(es.take(0) =~= Seq::<FieldNode>::empty());
    proof {
        reveal(Seq::filter);
        fields@.lemma_filter_len(p);
    }
    assert(es.take(0).map(g) =~= Seq::<Seq<char>>::empty());
    assert(data@ =~= start + es.take(0).map(g).flatten());
    assert(record_imports(mypkg@, imports0, Seq::empty()) == imports0);
    while j < fields.len()
        invariant
            j <= fields.len(),
            forall|i: int| 0 <= i < fields.len() ==> field_wf(#[trigger] fields@[i]),
            p == (|f: FieldNode| is_enum_field(f)),
            es == fields@.filter(p),
            g == (|k: int, f: FieldNode| enum_constant_text(f, k + 1 == es.len())),
            r == (|f: FieldNode| enum_constant_refs(f)),
            en_fields == es.len(),
            i == fields@.take(j as int).filter(p).len(),
            fields@.take(j as int).filter(p) == es.take(i as int),
            data@ == start + es.take(i as int).map(g).flatten(),
            imports.deep_view() == record_imports(mypkg@, imports0, es.take(i as int).flat_map(r)),
        decreases fields.len() - j,
    {
        proof {
            lemma_filter_take(fields@, p, j as int);
            lemma_filter_prefix(fields@, p, j as int + 1);
            fields@.take(j as int + 1).lemma_filter_len(p);
            fields@.lemma_filter_len(p);
        }
        if fields[j].access.contains(FieldAccess::ACC_ENUM) {
            let f = &fields[j];
            proof {
                assert(es.take(i + 1) =~= es.take(i as int).push(*f));
                assert(es.take(i + 1)[i as int] == es[i as int]);
                assert(es[i as int] == *f);
                assert(r(*f) == enum_constant_refs(*f));
                assert(es.take(i + 1).map(g) =~= es.take(i as int).map(g).push(g(i as int, *f)));
                es.take(i as int).map(g).lemma_flatten_push(g(i as int, *f));
                es.lemma_flat_map_take_append(r, i as int);
                lemma_record_imports_concat(
                    mypkg@,
                    imports0,
                    es.take(i as int).flat_map(r),
                    enum_constant_refs(*f),
                );
            }
            write_enum_constant(f, i + 1 == en_fields, data, imports, mypkg);
            i = i + 1;
        }
        j = j + 1;
    }
    assert(fields@.take(fields.len() as int) =~= fields@);
    assert(es.take(i as int) =~= es);
}

/// Appends the declarations of the fields that are not enum constants.
fn write_plain_fields(
    fields: &Vec<FieldNode>,
    data: &mut String,
    imports: &mut Vec<String>,
    mypkg: &str,
)
    requires
        forall|i: int| 0 <= i < fields.len() ==> field_wf(#[trigger] fields@[i]),
    ensures
        final(data)@ == old(data)@ + plain_fields(fields@).flat_map(|f: FieldNode| field_text(f)),
        final(imports).deep_view() == record_imports(
            mypkg@,
            old(imports).deep_view(),
            plain_fields(fields@).flat_map(|f: FieldNode| field_refs(f)),
        ),
{
    let ghost start = data@;
    let ghost imports0 = imports.deep_view();
    let ghost p = |f: FieldNode| !is_enum_field(f);
    let ghost pf = plain_fields(fields@);
    let ghost t = |f: FieldNode| field_text(f);
    let ghost r = |f: FieldNode| field_refs(f);
    let ghost mut i: int = 0;
    let mut j: usize = 0;
    assert(fields@.take(0) =~= Seq::<FieldNode>::empty());
    assert(pf.take(0) =~= Seq::<FieldNode>::empty());
    proof {
        reveal(Seq::filter);
    }
    assert(data@ =~= start + pf.take(0).flat_map(t));
    assert(record_imports(mypkg@, imports0, Seq::empty()) == imports0);
    while j < fields.len()
        invariant
            j <= fields.len(),
            forall|i: int| 0 <= i < fields.len() ==> field_wf(#[trigger] fields@[i]),
            p == (|f: FieldNode| !is_enum_field(f)),
            pf == fields@.filter(p),
            t == (|f: FieldNode| field_text(f)),
            r == (|f: FieldNode| field_refs(f)),
            i == fields@.take(j as int).filter(p).len(),
            fields@.take(j as int).filter(p) == pf.take(i),
            data@ == start + pf.take(i).flat_map(t),
            imports.deep_view() == record_imports(mypkg@, imports0, pf.take(i).flat_map(r)),
        decreases fields.len() - j,
    {
        proof {
            lemma_filter_take(fields@, p, j as int);
            lemma_filter_prefix(fields@, p, j as int + 1);
        }
        if !fields[j].access.contains(FieldAccess::ACC_ENUM) {
            let fi = &fields[j];
            proof {
                assert(pf.take(i + 1) =~= pf.take(i).push(*fi));
                assert(pf.take(i + 1)[i] == pf[i]);
                assert(pf[i] == *fi);
                assert(r(*fi) == field_refs(*fi));
                assert(t(*fi) == field_text(*fi));
                pf.lemma_flat_map_take_append(t, i);
                pf.lemma_flat_map_take_append(r, i);
                lemma_record_imports_concat(
                    mypkg@,
                    imports0,
                    pf.take(i).flat_map(r),
                    field_refs(*fi),
                );
            }
            write_field(fi, data, imports, mypkg);
            proof {
                i = i + 1;
            }
        }
        j = j + 1;
    }
    assert(fields@.take(fields.len() as int) =~= fields@);
    assert(pf.take(i) =~= pf);
}

/// Appends the parameters of a method: each type followed by ` arg` and its
/// index, separated by `, `.
fn write_arguments(
    args: &Vec<TypeDesc>,
    data: &mut String,
    imports: &mut Vec<String>,
    mypkg: &str,
)
    requires
        forall|i: int| 0 <= i < args.len() ==> type_wf(#[trigger] args@[i]),
    ensures
        final(data)@ == old(data)@ + join(argument_texts(args@), ", "@),
        final(imports).deep_view() == record_imports(
            mypkg@,
            old(imports).deep_view(),
            args@.flat_map(|t: TypeDesc| type_refs(t)),
        ),
{
    let ghost base = data@;
    let ghost imports0 = imports.deep_view();
    let ghost all = argument_texts(args@);
    let ghost r = |t: TypeDesc| type_refs(t);
    let ln = args.len();
    let mut i: usize = 0;
    assert(all.take(0) =~= Seq::<Seq<char>>::empty());
    assert(args@.take(0) =~= Seq::<TypeDesc>::empty());
    assert(data@ =~= base + joined_prefix(all.take(0), ", "@, ln as nat));
    assert(record_imports(mypkg@, imports0, Seq::empty()) == imports0);
    while i < ln
        invariant
            ln == args.len(),
            i <= ln,
            forall|i: int| 0 <= i < args.len() ==> type_wf(#[trigger] args@[i]),
            all == argument_texts(args@),
            r == (|t: TypeDesc| type_refs(t)),
            data@ == base + joined_prefix(all.take(i as int), ", "@, ln as nat),
            imports.deep_view() == record_imports(mypkg@, imports0, args@.take(i as int).flat_map(r)),
        decreases ln - i,
    {
        let ghost item = type_text(args@[i as int]) + " arg"@ + nat_text(i as nat);
        proof {
            assert(all.take(i + 1) =~= all.take(i as int).push(item));
            lemma_joined_prefix_push(all.take(i as int), ", "@, ln as nat, item);
            args@.lemma_flat_map_take_append(r, i as int);
            lemma_record_imports_concat(
                mypkg@,
                imports0,
                args@.take(i as int).flat_map(r),
                type_refs(args@[i as int]),
            );
        }
        let ghost before = data@;
        write_type(mypkg, imports, &args[i], data);
        data.append(" arg");
        push_u64(data, i as u64);
        if i != ln - 1 {
            data.append(", ");
        }
        assert(data@ =~= before + item + (if i + 1 < ln {
            ", "@
        } else {
            Seq::empty()
        }));
        i = i + 1;
    }
    assert(all.take(ln as int) =~= all);
    assert(args@.take(ln as int) =~= args@);
}

/// Appends ` default ` and the default value held by `an`.
fn write_default_value(
    an: &AnnotationNode,
    data: &mut String,
    imports: &mut Vec<String>,
    mypkg: &str,
)
    requires
        names_distinct(an.values@),
        has_default_entry(*an),
        value_wf(default_value(*an)),
    ensures
        final(data)@ == old(data)@ + " default "@ + value_text(default_value(*an)),
        final(imports).deep_view() == record_imports(
            mypkg@,
            old(imports).deep_view(),
            value_refs(default_value(*an)),
        ),
{
    let ghost d = default_index(*an);
    data.append(" default ");
    match find_entry(&an.values, "") {
        Some(k) => {
            assert(k == d) by {
                if k != d {
                    if k < d {
                        assert(an.values@[k as int].0@ != an.values@[d].0@);
                    } else {
                        assert(an.values@[d].0@ != an.values@[k as int].0@);
                    }
                }
            }
            write_ann_value(&an.values[k].1, data, imports, mypkg);
        },
        None => {
            assert(an.values@[d].0@ != ""@);
        },
    }
}

/// Appends the declaration of a method other than a static initializer.
#[verifier::rlimit(50)]
fn write_signature(
    mt: &MethodNode,
    my_name: &str,
    data: &mut String,
    imports: &mut Vec<String>,
    mypkg: &str,
)
    requires
        method_wf(*mt),
        mt.name@ != "<clinit>"@,
    ensures
        final(data)@ == old(data)@ + signature_text(*mt, my_name@),
        final(imports).deep_view() == record_imports(
            mypkg@,
            old(imports).deep_view(),
            signature_refs(*mt),
        ),
{
    let ghost start = data@;
    let ghost imports0 = imports.deep_view();
    let ghost m = *mt;
    write_method_access(mt.access, data);
    let ghost p0 = data@;
    if str_eq(mt.name.as_str(), "<init>") {
        data.append(my_name);
    } else {
        write_type(mypkg, imports, &mt.return_type, data);
        data.append(" ");
        data.append(mt.name.as_str());
    }
    assert(data@ =~= p0 + method_name_text(m, my_name@));
    data.append("(");
    write_arguments(&mt.argument_types, data, imports, mypkg);
    data.append(")");
    let ghost p2 = data@;
    if mt.exceptions.len() != 0 {
        data.append(" throws ");
        write_simple_names(&mt.exceptions, data, imports, mypkg);
    }
    assert(data@ =~= p2 + throws_text(m));
    let ghost p3 = data@;
    if let Some(an) = &mt.annotation_default {
        write_default_value(an, data, imports, mypkg);
    }
    assert(data@ =~= p3 + default_text(m));
    data.append(";\n");
    assert(data@ =~= start + signature_text(m, my_name@));
    let ghost a = method_name_refs(m);
    let ghost b = m.argument_types@.flat_map(|t: TypeDesc| type_refs(t));
    let ghost c = names_of(m.exceptions@);
    proof {
        lemma_record_imports_concat(mypkg@, imports0, a, b);
        lemma_record_imports_concat(mypkg@, imports0, a + b, c);
        lemma_record_imports_concat(mypkg@, imports0, a + b + c, default_refs(m));
    }
}

/// Appends the declaration of a method.  `my_name` is the simple name of the
/// class, which names its constructors.
fn write_method(
    mt: &MethodNode,
    my_name: &str,
    data: &mut String,
    imports: &mut Vec<String>,
    mypkg: &str,
)
    requires
        method_wf(*mt),
    ensures
        final(data)@ == old(data)@ + method_text(*mt, my_name@),
        final(imports).deep_view() == record_imports(
            mypkg@,
            old(imports).deep_view(),
            method_refs(*mt),
        ),
{
    let ghost start = data@;
    let ghost imports0 = imports.deep_view();
    let ghost m = *mt;
    let ghost ann_refs = member_annotation_refs(m.visible_annotations@, m.invisible_annotations@);
    write_member_annotations(
        &mt.visible_annotations,
        &mt.invisible_annotations,
        data,
        imports,
        mypkg,
    );
    data.append("    ");
    if str_eq(mt.name.as_str(), "<clinit>") {
        data.append("static {};\n");
        assert(data@ =~= start + method_text(m, my_name@));
        assert(ann_refs + Seq::<Seq<char>>::empty() =~= ann_refs);
        return;
    }
    write_signature(mt, my_name, data, imports, mypkg);
    assert(data@ =~= start + method_text(m, my_name@));
    proof {
        lemma_record_imports_concat(mypkg@, imports0, ann_refs, signature_refs(m));
    }
}

/// Appends the declarations of `methods`.
fn write_methods(
    methods: &Vec<MethodNode>,
    my_name: &str,
    data: &mut String,
    imports: &mut Vec<String>,
    mypkg: &str,
)
    requires
        forall|i: int| 0 <= i < methods.len() ==> method_wf(#[trigger] methods@[i]),
    ensures
        final(data)@ == old(data)@ + methods@.flat_map(
            |m: MethodNode| method_text(m, my_name@),
        ),
        final(imports).deep_view() == record_imports(
            mypkg@,
            old(imports).deep_view(),
            methods@.flat_map(|m: MethodNode| method_refs(m)),
        ),
{
    let ghost start = data@;
    let ghost imports0 = imports.deep_view();
    let ghost t = |m: MethodNode| method_text(m, my_name@);
    let ghost r = |m: MethodNode| method_refs(m);
    let mut i: usize = 0;
    assert(methods@.take(0) =~= Seq::<MethodNode>::empty());
    assert(data@ =~= start + methods@.take(0).flat_map(t));
    assert(record_imports(mypkg@, imports0, Seq::empty()) == imports0);
    while i < methods.len()
        invariant
            i <= methods.len(),
            forall|i: int| 0 <= i < methods.len() ==> method_wf(#[trigger] methods@[i]),
            t == (|m: MethodNode| method_text(m, my_name@)),
            r == (|m: MethodNode| method_refs(m)),
            data@ == start + methods@.take(i as int).flat_map(t),
            imports.deep_view() == record_imports(
                mypkg@,
                imports0,
                methods@.take(i as int).flat_map(r),
            ),
        decreases methods.len() - i,
    {
        proof {
            methods@.lemma_flat_map_take_append(t, i as int);
            methods@.lemma_flat_map_take_append(r, i as int);
            lemma_record_imports_concat(
                mypkg@,
                imports0,
                methods@.take(i as int).flat_map(r),
                method_refs(methods@[i as int]),
            );
        }
        let ghost before = data@;
        write_method(&methods[i], my_name, data, imports, mypkg);
        assert(data@ =~= before + t(methods@[i as int]));
        i = i + 1;
    }
    assert(methods@.take(methods.len() as int) =~= methods@);
}

/// Appends an import line for each dotted name of `imports`.
fn write_import_lines(imports: &Vec<String>, header: &mut String)
    ensures
        final(header)@ == old(header)@ + import_lines(imports.deep_view()),
{
    let ghost start = header@;
    let ghost imps = imports.deep_view();
    let ghost f = |i: Seq<char>| "import "@ + i + ";\n"@;
    let mut i: usize = 0;
    assert(imps.take(0) =~= Seq::<Seq<char>>::empty());
    assert(header@ =~= start + imps.take(0).flat_map(f));
    while i < imports.len()
        invariant
            i <= imports.len(),
            imps == imports.deep_view(),
            f == (|i: Seq<char>| "import "@ + i + ";\n"@),
            header@ == start + imps.take(i as int).flat_map(f),
        decreases imports.len() - i,
    {
        proof {
            imps.lemma_flat_map_take_append(f, i as int);
        }
        let ghost before = header@;
        header.append("import ");
        header.append(imports[i].as_str());
        header.append(";\n");
        assert(header@ =~= before + f(imps[i as int]));
        i = i + 1;
    }
    assert(imps.take(imports.len() as int) =~= imps);
}

/// Renders `class` as Java-like source text: a package line, an import line
/// for each class that the body names by its simple name and must import, a
/// blank line, then the class annotations, the declaration with its enum
/// constants, fields and methods, and the closing brace.
pub fn describe(class: &ClassNode) -> (r: String)
    requires
        class_wf(*class),
    ensures
        r@ == describe_text(*class),
{
    let mypkg = package_part(class.name.as_str());
    let my_name = split_name(class.name.as_str());
    let mut data = String::new();
    let mut imports: Vec<String> = Vec::new();
    let ghost c = *class;
    let ghost empty: Seq<Seq<char>> = Seq::empty();
    assert(imports.deep_view() =~= empty);
    write_header(class, mypkg, &mut data, &mut imports);
    write_enum_constants(&class.fields, &mut data, &mut imports, mypkg);
    write_plain_fields(&class.fields, &mut data, &mut imports, mypkg);
    write_methods(&class.methods, my_name, &mut data, &mut imports, mypkg);
    data.append("}\n");
    assert(data@ =~= body_text(c));
    let ghost a = header_refs(c);
    let ghost b = enum_fields(c.fields@).flat_map(|f: FieldNode| enum_constant_refs(f));
    let ghost d = plain_fields(c.fields@).flat_map(|f: FieldNode| field_refs(f));
    let ghost e = c.methods@.flat_map(|m: MethodNode| method_refs(m));
    proof {
        lemma_record_imports_concat(my_package(c), empty, a, b);
        lemma_record_imports_concat(my_package(c), empty, a + b, d);
        lemma_record_imports_concat(my_package(c), empty, a + b + d, e);
    }
    assert(imports.deep_view() == class_imports(c));
    let mut header = String::new();
    header.append("package ");
    let java = as_java_name(mypkg);
    header.append(java.as_str());
    header.append(";\n\n");
    write_import_lines(&imports, &mut header);
    header.append("\n");
    header.append(data.as_str());
    assert(header@ =~= describe_text(c));
    header
}

/// The import list of a rendered class names no class twice, and names
/// exactly the classes that its body mentions and that it must import: none
/// of the default package, of `java/lang` or of its own package.
pub proof fn law_describe_imports(c: ClassNode, x: Seq<char>)
    ensures
        class_imports(c).no_duplicates(),
        class_imports(c).contains(x) <==> exists|i: int|
            0 <= i < body_refs(c).len() && needs_import_spec(my_package(c), #[trigger] body_refs(c)[i])
                && java_name(body_refs(c)[i]) == x,
{
    law_record_imports_distinct(my_package(c), Seq::empty(), body_refs(c));
    law_record_imports_members(my_package(c), Seq::empty(), body_refs(c), x);
}

/// Whether the field `f` can be rendered.
pub fn field_renderable(f: &FieldNode) -> (r: bool)
    ensures
        r == field_wf(*f),
{
    annotations_renderable(&f.visible_annotations) && annotations_renderable(
        &f.invisible_annotations,
    ) && (f.access.contains(FieldAccess::ACC_ENUM) || type_renderable(&f.field_type))
}

/// Whether the method `m` can be rendered.
pub fn method_renderable(m: &MethodNode) -> (r: bool)
    ensures
        r == method_wf(*m),
{
    if !annotations_renderable(&m.visible_annotations) || !annotations_renderable(
        &m.invisible_annotations,
    ) {
        return false;
    }
    if str_eq(m.name.as_str(), "<clinit>") {
        return true;
    }
    if !str_eq(m.name.as_str(), "<init>") && !type_renderable(&m.return_type) {
        return false;
    }
    let mut i: usize = 0;
    while i < m.argument_types.len()
        invariant
            i <= m.argument_types.len(),
            m.name@ != "<clinit>"@,
            forall|j: int| 0 <= j < i ==> type_wf(#[trigger] m.argument_types@[j]),
        decreases m.argument_types.len() - i,
    {
        if !type_renderable(&m.argument_types[i]) {
            return false;
        }
        i = i + 1;
    }
    match &m.annotation_default {
        None => true,
        Some(an) => {
            if !names_are_distinct(&an.values) {
                return false;
            }
            match find_entry(&an.values, "") {
                None => false,
                Some(k) => {
                    proof {
                        let d = default_index(*an);
                        if k as int != d {
                            if (k as int) < d {
                                assert(an.values@[k as int].0@ != an.values@[d].0@);
                            } else {
                                assert(an.values@[d].0@ != an.values@[k as int].0@);
                            }
                        }
                    }
                    value_renderable(&an.values[k].1)
                },
            }
        },
    }
}

/// Whether `class` can be rendered by `describe`: every descriptor that the
/// rendering cuts a class name out of has one, every annotation names its
/// elements once each, and every default value has its element.
pub fn renderable(class: &ClassNode) -> (r: bool)
    ensures
        r == class_wf(*class),
{
    if !annotations_renderable(&class.visible_annotations) || !annotations_renderable(
        &class.invisible_annotations,
    ) {
        return false;
    }
    let mut i: usize = 0;
    while i < class.fields.len()
        invariant
            i <= class.fields.len(),
            forall|j: int| 0 <= j < i ==> field_wf(#[trigger] class.fields@[j]),
        decreases class.fields.len() - i,
    {
        if !field_renderable(&class.fields[i]) {
            return false;
        }
        i = i + 1;
    }
    let mut i: usize = 0;
    while i < class.methods.len()
        invariant
            i <= class.methods.len(),
            forall|j: int| 0 <= j < i ==> method_wf(#[trigger] class.methods@[j]),
        decreases class.methods.len() - i,
    {
        if !method_renderable(&class.methods[i]) {
            return false;
        }
        i = i + 1;
    }
    true
}

/// Declaring one more exception appends `, Name` to the throws clause, or
/// opens it with ` throws Name` when it is the first: every declared
/// exception is named, in order.
pub proof fn law_throws_names_every_exception(m: MethodNode, m2: MethodNode, e: String)
    requires
        m2.exceptions@ == m.exceptions@.push(e),
    ensures
        m.exceptions.len() == 0 ==> throws_text(m) == Seq::<char>::empty(),
        throws_text(m2) == if m.exceptions.len() == 0 {
            " throws "@ + simple_name(e@)
        } else {
            throws_text(m) + ", "@ + simple_name(e@)
        },
{
    assert(names_of(m2.exceptions@) =~= names_of(m.exceptions@).push(e@));
    assert(simple_names(names_of(m2.exceptions@)) =~= simple_names(names_of(m.exceptions@)).push(
        simple_name(e@),
    ));
    law_join_push(simple_names(names_of(m.exceptions@)), ", "@, simple_name(e@));
    if m.exceptions.len() > 0 {
        assert(" throws "@ + (join(simple_names(names_of(m.exceptions@)), ", "@) + ", "@
            + simple_name(e@)) =~= " throws "@ + join(simple_names(names_of(m.exceptions@)), ", "@)
            + ", "@ + simple_name(e@));
    }
}

/// Implementing one more interface appends `, Name` to the implements
/// clause, or opens it with ` implements Name` when it is the first; an
/// annotation interface names none.
pub proof fn law_implements_names_every_interface(c: ClassNode, c2: ClassNode, i: String)
    requires
        c2.interfaces@ == c.interfaces@.push(i),
        c2.access == c.access,
    ensures
        implements_text(c2) == if c.access.has(ClassAccess::ACC_ANNOTATION) {
            Seq::<char>::empty()
        } else if c.interfaces.len() == 0 {
            " implements "@ + simple_name(i@)
        } else {
            implements_text(c) + ", "@ + simple_name(i@)
        },
{
    if !c.access.has(ClassAccess::ACC_ANNOTATION) {
        let n = c.interfaces@.map_values(|x: String| x@);
        assert(implements_names(c2) =~= n.push(i@));
        assert(simple_names(n.push(i@)) =~= simple_names(n).push(simple_name(i@)));
        law_join_push(simple_names(n), ", "@, simple_name(i@));
        if c.interfaces.len() > 0 {
            assert(" implements "@ + (join(simple_names(n), ", "@) + ", "@ + simple_name(i@))
                =~= " implements "@ + join(simple_names(n), ", "@) + ", "@ + simple_name(i@));
        }
    }
}

/// One more parameter is written as its type, ` arg` and its index in
/// decimal, after the others.
pub proof fn law_arguments_numbered(ts: Seq<TypeDesc>, t: TypeDesc)
    ensures
        argument_texts(ts.push(t)) == argument_texts(ts).push(
            type_text(t) + " arg"@ + nat_text(ts.len()),
        ),
{
    assert(argument_texts(ts.push(t)) =~= argument_texts(ts).push(
        type_text(t) + " arg"@ + nat_text(ts.len()),
    ));
}

proof fn lemma_annotation_lines_push(anns: Seq<AnnotationNode>, indented: bool, a: AnnotationNode)
    ensures
        annotation_lines(anns.push(a), indented) == annotation_lines(anns, indented) + (text_if(
            indented,
            "    "@,
        ) + annotation_text(a) + "\n"@),
{
    anns.lemma_flat_map_push(
        |x: AnnotationNode| text_if(indented, "    "@) + annotation_text(x) + "\n"@,
        a,
    );
}

/// Giving a class one more invisible annotation adds exactly its line,
/// `@Name(...)`, to the head of the rendered class; one more visible
/// annotation likewise.
pub proof fn law_header_shows_every_class_annotation(c: ClassNode, c2: ClassNode, a: AnnotationNode)
    requires
        c2.access == c.access,
        c2.name@ == c.name@,
        c2.super_name == c.super_name,
        c2.interfaces@ == c.interfaces@,
        (c2.visible_annotations@ == c.visible_annotations@ && c2.invisible_annotations@
            == c.invisible_annotations@.push(a)) || (c2.visible_annotations@
            == c.visible_annotations@.push(a) && c2.invisible_annotations@
            == c.invisible_annotations@),
    ensures
        exists|x: Seq<char>, y: Seq<char>|
            header_text(c) == x + y && header_text(c2) == x + annotation_text(a) + "\n"@ + y,
{
    assert(declaration_line(c2) == declaration_line(c)) by {
        assert(implements_names(c2) =~= implements_names(c));
    }
    let v = annotation_lines(c.visible_annotations@, false);
    let w = annotation_lines(c.invisible_annotations@, false);
    let d = declaration_line(c);
    if c2.invisible_annotations@ == c.invisible_annotations@.push(a) && c2.visible_annotations@
        == c.visible_annotations@ {
        lemma_annotation_lines_push(c.invisible_annotations@, false, a);
        assert(header_text(c) == (v + w) + d);
        assert(header_text(c2) =~= (v + w) + annotation_text(a) + "\n"@ + d);
    } else {
        lemma_annotation_lines_push(c.visible_annotations@, false, a);
        assert(header_text(c) =~= v + (w + d));
        assert(header_text(c2) =~= v + annotation_text(a) + "\n"@ + (w + d));
    }
}

/// Giving a member one more visible or invisible annotation adds exactly its
/// indented line to the member's annotation lines.
pub proof fn law_member_shows_every_annotation(
    vis: Seq<AnnotationNode>,
    invis: Seq<AnnotationNode>,
    a: AnnotationNode,
)
    ensures
        member_annotation_lines(vis, invis.push(a)) == member_annotation_lines(vis, invis) + "    "@
            + annotation_text(a) + "\n"@,
        exists|x: Seq<char>, y: Seq<char>|
            member_annotation_lines(vis, invis) == x + y && member_annotation_lines(vis.push(a), invis)
                == x + "    "@ + annotation_text(a) + "\n"@ + y,
{
    lemma_annotation_lines_push(invis, true, a);
    lemma_annotation_lines_push(vis, true, a);
    let v = annotation_lines(vis, true);
    let w = annotation_lines(invis, true);
    assert(member_annotation_lines(vis, invis.push(a)) =~= member_annotation_lines(vis, invis) + "    "@
        + annotation_text(a) + "\n"@);
    assert(member_annotation_lines(vis.push(a), invis) =~= v + "    "@ + annotation_text(a) + "\n"@
        + w);
}

proof fn lemma_flat_map_has<A, B>(s: Seq<A>, f: spec_fn(A) -> Seq<B>, i: int, j: int)
    requires
        0 <= i < s.len(),
        0 <= j < f(s[i]).len(),
    ensures
        s.flat_map(f).contains(f(s[i])[j]),
{
    let pre = s.take(i).flat_map(f);
    s.lemma_flat_map_take_append(f, i);
    assert(s =~= s.take(i + 1) + s.skip(i + 1));
    assert(s.map_values(f) =~= s.take(i + 1).map_values(f) + s.skip(i + 1).map_values(f));
    lemma_flatten_concat(s.take(i + 1).map_values(f), s.skip(i + 1).map_values(f));
    assert(s.flat_map(f)[pre.len() + j] == f(s[i])[j]);
}

/// Every class that a class annotation names, visible or invisible, is among
/// the classes the rendered body names, and so is imported when it needs to be.
pub proof fn law_class_annotation_refs_recorded(c: ClassNode, i: int, j: int)
    ensures
        0 <= i < c.visible_annotations.len() && 0 <= j < annotation_refs(
            c.visible_annotations@[i],
        ).len() ==> body_refs(c).contains(annotation_refs(c.visible_annotations@[i])[j]),
        0 <= i < c.invisible_annotations.len() && 0 <= j < annotation_refs(
            c.invisible_annotations@[i],
        ).len() ==> body_refs(c).contains(annotation_refs(c.invisible_annotations@[i])[j]),
{
    let f = |a: AnnotationNode| annotation_refs(a);
    let v = annotations_refs(c.visible_annotations@);
    let w = annotations_refs(c.invisible_annotations@);
    let rest = body_refs(c).skip((v.len() + w.len()) as int);
    assert(body_refs(c) =~= v + w + rest);
    if 0 <= i < c.visible_annotations.len() && 0 <= j < annotation_refs(
        c.visible_annotations@[i],
    ).len() {
        lemma_flat_map_has(c.visible_annotations@, f, i, j);
        let k = choose|k: int| 0 <= k < v.len() && v[k] == annotation_refs(c.visible_annotations@[i])[j];
        assert(body_refs(c)[k] == v[k]);
    }
    if 0 <= i < c.invisible_annotations.len() && 0 <= j < annotation_refs(
        c.invisible_annotations@[i],
    ).len() {
        lemma_flat_map_has(c.invisible_annotations@, f, i, j);
        let k = choose|k: int| 0 <= k < w.len() && w[k] == annotation_refs(c.invisible_annotations@[i])[j];
        assert(body_refs(c)[v.len() + k] == w[k]);
    }
}

/// Giving a method one more parameter of type `t` adds exactly `T argN`
/// (after `, ` unless it is the first) to its declaration, where `T` is the
/// Java name of `t` and `N` the number of parameters before it.
#[verifier::rlimit(100)]
pub proof fn law_signature_shows_every_argument(
    m: MethodNode,
    m2: MethodNode,
    t: TypeDesc,
    my_name: Seq<char>,
)
    requires
        m2.access == m.access,
        m2.name@ == m.name@,
        m2.return_type == m.return_type,
        m2.exceptions@ == m.exceptions@,
        m2.annotation_default == m.annotation_default,
        m2.argument_types@ == m.argument_types@.push(t),
    ensures
        exists|x: Seq<char>, y: Seq<char>|
            signature_text(m, my_name) == #[trigger] (x + y) && signature_text(m2, my_name) == x + (if m.argument_types.len()
                == 0 {
                Seq::<char>::empty()
            } else {
                ", "@
            }) + type_text(t) + " arg"@ + nat_text(m.argument_types.len() as nat) + y,
{
    law_arguments_numbered(m.argument_types@, t);
    let item = type_text(t) + " arg"@ + nat_text(m.argument_types.len() as nat);
    let j = join(argument_texts(m.argument_types@), ", "@);
    let sep = if m.argument_types.len() == 0 {
        Seq::<char>::empty()
    } else {
        ", "@
    };
    law_join_push(argument_texts(m.argument_types@), ", "@, item);
    if m.argument_types.len() == 0 {
        assert(j =~= Seq::<char>::empty());
        assert(item =~= j + sep + item);
    }
    assert(join(argument_texts(m2.argument_types@), ", "@) == j + sep + item);
    assert(throws_text(m2) == throws_text(m)) by {
        assert(names_of(m2.exceptions@) =~= names_of(m.exceptions@));
    }
    assert(method_name_text(m2, my_name) == method_name_text(m, my_name));
    let p = method_access_text(m.access) + method_name_text(m, my_name) + "("@;
    let x = p + j;
    let y = ")"@ + throws_text(m) + default_text(m) + ";\n"@;
    let z = sep + item;
    assert(signature_text(m, my_name) =~= x + y);
    assert(signature_text(m2, my_name) =~= p + (j + z) + y);
    lemma_concat_associative(p, j, z);
    assert(x + sep + item =~= x + z);
    assert(p + (j + z) =~= x + z);
}
/// Giving a method one more thrown exception adds exactly its simple name to
/// its declaration, after ` throws ` when it is the first and after `, `
/// otherwise.
pub proof fn law_signature_shows_every_exception(
    m: MethodNode,
    m2: MethodNode,
    e: String,
    my_name: Seq<char>,
)
    requires
        m2.access == m.access,
        m2.name@ == m.name@,
        m2.return_type == m.return_type,
        m2.argument_types@ == m.argument_types@,
        m2.annotation_default == m.annotation_default,
        m2.exceptions@ == m.exceptions@.push(e),
    ensures
        exists|x: Seq<char>, y: Seq<char>|
            signature_text(m, my_name) == #[trigger] (x + y) && signature_text(m2, my_name) == x + (if m.exceptions.len()
                == 0 {
                " throws "@
            } else {
                ", "@
            }) + simple_name(e@) + y,
{
    law_throws_names_every_exception(m, m2, e);
    let x = method_access_text(m.access) + method_name_text(m, my_name) + "("@ + join(
        argument_texts(m.argument_types@),
        ", "@,
    ) + ")"@ + throws_text(m);
    let y = default_text(m) + ";\n"@;
    assert(signature_text(m, my_name) =~= x + y);
    let sep = if m.exceptions.len() == 0 {
        " throws "@
    } else {
        ", "@
    };
    if m.exceptions.len() == 0 {
        assert(throws_text(m2) =~= Seq::<char>::empty() + sep + simple_name(e@));
    }
    assert(signature_text(m2, my_name) =~= x + sep + simple_name(e@) + y);
}

/// A method's declaration starts with its modifiers, then the class's simple
/// name for a constructor and the return type and name otherwise, then `(`;
/// it ends with ` default ` and the default value, when there is one, and `;`.
pub proof fn law_signature_shape(m: MethodNode, my_name: Seq<char>)
    ensures
        m.name@ == "<init>"@ ==> (method_access_text(m.access) + my_name + "("@).is_prefix_of(
            signature_text(m, my_name),
        ),
        m.name@ != "<init>"@ ==> (method_access_text(m.access) + type_text(m.return_type) + " "@
            + m.name@ + "("@).is_prefix_of(signature_text(m, my_name)),
        m.annotation_default matches Some(an) ==> (" default "@ + value_text(default_value(an))
            + ";\n"@).is_suffix_of(signature_text(m, my_name)),
{
    reveal_strlit("(");
    reveal_strlit(" ");
    reveal_strlit(";\n");
    let rest = join(argument_texts(m.argument_types@), ", "@) + ")"@ + throws_text(m) + default_text(m)
        + ";\n"@;
    let head = method_access_text(m.access) + method_name_text(m, my_name) + "("@;
    assert(signature_text(m, my_name) =~= head + rest);
    assert((head + rest).take(head.len() as int) =~= head);
    assert(head.is_prefix_of(signature_text(m, my_name)));
    if let Some(an) = m.annotation_default {
        let tail = " default "@ + value_text(default_value(an)) + ";\n"@;
        let front = method_access_text(m.access) + method_name_text(m, my_name) + "("@ + join(
            argument_texts(m.argument_types@),
            ", "@,
        ) + ")"@ + throws_text(m);
        assert(signature_text(m, my_name) =~= front + tail);
        assert((front + tail).skip(front.len() as int) =~= tail);
        assert((front + tail).subrange(front.len() as int, (front + tail).len() as int) =~= tail);
        assert(tail.is_suffix_of(signature_text(m, my_name)));
    }
}

} // verus!
