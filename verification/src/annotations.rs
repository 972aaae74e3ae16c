//! Annotations and their element values: their source text, the classes
//! they name, and when they can be rendered.
use vstd::prelude::*;
use crate::access::text_if;
use crate::descriptors::{class_part, inner_name, is_sliceable, sliceable};
use crate::model::{AnnotationNode, AnnotationPrimitive, AnnotationValue};
use crate::names::{
    import_name, lemma_record_imports_concat, lemma_record_imports_single, record_imports,
    simple_name,
};
use crate::text::{
    law_join_push,
    denotes_integer, law_int_text_denotes,
    int_text, join, joined_prefix, lemma_joined_prefix_push, push_char, push_i64, str_eq,
};

verus! {

/// The source text of a constant element value.
pub open spec fn primitive_text(p: AnnotationPrimitive) -> Seq<char> {
    match p {
        AnnotationPrimitive::Byte(b) => int_text(b as int),
        AnnotationPrimitive::Character(c) => seq![c],
        AnnotationPrimitive::Short(x) => int_text(x as int),
        AnnotationPrimitive::Integer(x) => int_text(x as int),
        AnnotationPrimitive::Long(x) => int_text(x as int),
        AnnotationPrimitive::Float(t) => t@,
        AnnotationPrimitive::Double(t) => t@,
        AnnotationPrimitive::Boolean(b) => if b {
            "true"@
        } else {
            "false"@
        },
        AnnotationPrimitive::String(t) => seq!['"'] + t@ + seq!['"'],
        AnnotationPrimitive::Type(d) => simple_name(inner_name(d@)) + ".class"@,
    }
}

/// The classes that a constant element value names.
pub open spec fn primitive_refs(p: AnnotationPrimitive) -> Seq<Seq<char>> {
    match p {
        AnnotationPrimitive::Type(d) => seq![inner_name(d@)],
        _ => Seq::empty(),
    }
}

/// The source text of an element value.  An array of one element is written
/// without braces.
pub open spec fn value_text(v: AnnotationValue) -> Seq<char>
    decreases v,
{
    match v {
        AnnotationValue::Primitive(p) => primitive_text(p),
        AnnotationValue::Nested(a) => annotation_text(a),
        AnnotationValue::Array(vs) => if vs.len() == 1 {
            join(values_texts(vs@), ", "@)
        } else {
            "{"@ + join(values_texts(vs@), ", "@) + "}"@
        },
        AnnotationValue::Enum { desc, value } => simple_name(inner_name(desc@)) + "."@ + value@,
    }
}

/// The source texts of a list of element values.
pub open spec fn values_texts(vs: Seq<AnnotationValue>) -> Seq<Seq<char>>
    decreases vs,
{
    if vs.len() == 0 {
        Seq::empty()
    } else {
        values_texts(vs.drop_last()).push(value_text(vs.last()))
    }
}

/// The texts of the element-value pairs named `value` (when `default_entry`),
/// written as the bare value, or of the others (otherwise), written as
/// `name = value`.
pub open spec fn entry_texts(ps: Seq<(String, AnnotationValue)>, default_entry: bool) -> Seq<
    Seq<char>,
>
    decreases ps,
{
    if ps.len() == 0 {
        Seq::empty()
    } else {
        let rest = entry_texts(ps.drop_last(), default_entry);
        let k = ps.last().0;
        let v = ps.last().1;
        if (k@ == "value"@) == default_entry {
            rest.push(
                if default_entry {
                    value_text(v)
                } else {
                    k@ + " = "@ + value_text(v)
                },
            )
        } else {
            rest
        }
    }
}

/// The source text of an annotation: `@Name(value, a = x, b = y)`, the
/// element named `value` first.
pub open spec fn annotation_text(a: AnnotationNode) -> Seq<char>
    decreases a,
{
    "@"@ + simple_name(inner_name(a.desc@)) + "("@ + join(
        entry_texts(a.values@, true) + entry_texts(a.values@, false),
        ", "@,
    ) + ")"@
}

/// The classes that an element value names, in the order they are written.
pub open spec fn value_refs(v: AnnotationValue) -> Seq<Seq<char>>
    decreases v,
{
    match v {
        AnnotationValue::Primitive(p) => primitive_refs(p),
        AnnotationValue::Nested(a) => annotation_refs(a),
        AnnotationValue::Array(vs) => values_refs(vs@),
        AnnotationValue::Enum { desc, value } => seq![inner_name(desc@)],
    }
}

/// The classes that a list of element values names.
pub open spec fn values_refs(vs: Seq<AnnotationValue>) -> Seq<Seq<char>>
    decreases vs,
{
    if vs.len() == 0 {
        Seq::empty()
    } else {
        values_refs(vs.drop_last()) + value_refs(vs.last())
    }
}

/// The classes that the element-value pairs named `value` (when
/// `default_entry`) or the others (otherwise) name.
pub open spec fn entry_refs(ps: Seq<(String, AnnotationValue)>, default_entry: bool) -> Seq<
    Seq<char>,
>
    decreases ps,
{
    if ps.len() == 0 {
        Seq::empty()
    } else {
        let rest = entry_refs(ps.drop_last(), default_entry);
        if (ps.last().0@ == "value"@) == default_entry {
            rest + value_refs(ps.last().1)
        } else {
            rest
        }
    }
}

/// The classes that an annotation names: its own type, then those its values
/// name, in the order they are written.
pub open spec fn annotation_refs(a: AnnotationNode) -> Seq<Seq<char>>
    decreases a,
{
    seq![inner_name(a.desc@)] + entry_refs(a.values@, true) + entry_refs(a.values@, false)
}

/// Whether no two element-value pairs share a name.
pub open spec fn names_distinct(ps: Seq<(String, AnnotationValue)>) -> bool {
    forall|i: int, j: int| 0 <= i < j < ps.len() ==> ps[i].0@ != ps[j].0@
}

/// Whether every descriptor in an element value has a class name to cut out.
pub open spec fn value_wf(v: AnnotationValue) -> bool
    decreases v,
{
    match v {
        AnnotationValue::Primitive(p) => match p {
            AnnotationPrimitive::Type(d) => sliceable(d@),
            _ => true,
        },
        AnnotationValue::Nested(a) => annotation_wf(a),
        AnnotationValue::Array(vs) => values_wf(vs@),
        AnnotationValue::Enum { desc, value } => sliceable(desc@),
    }
}

/// Whether every element value of a list is well formed.
pub open spec fn values_wf(vs: Seq<AnnotationValue>) -> bool
    decreases vs,
{
    vs.len() > 0 ==> values_wf(vs.drop_last()) && value_wf(vs.last())
}

/// Whether every value of a list of element-value pairs is well formed.
pub open spec fn entries_wf(ps: Seq<(String, AnnotationValue)>) -> bool
    decreases ps,
{
    ps.len() > 0 ==> entries_wf(ps.drop_last()) && value_wf(ps.last().1)
}

/// Whether an annotation can be rendered: its descriptor and those inside its
/// values have class names to cut out, and its elements are named once each.
pub open spec fn annotation_wf(a: AnnotationNode) -> bool
    decreases a,
{
    &&& sliceable(a.desc@)
    &&& names_distinct(a.values@)
    &&& entries_wf(a.values@)
}

/// The annotations of a list, each on a line of its own, indented by four
/// spaces when `indented`.
pub open spec fn annotation_lines(anns: Seq<AnnotationNode>, indented: bool) -> Seq<char> {
    anns.flat_map(|a: AnnotationNode| text_if(indented, "    "@) + annotation_text(a) + "\n"@)
}

/// The classes that a list of annotations names.
pub open spec fn annotations_refs(anns: Seq<AnnotationNode>) -> Seq<Seq<char>> {
    anns.flat_map(|a: AnnotationNode| annotation_refs(a))
}

/// Whether every annotation of a list can be rendered.
pub open spec fn annotations_wf(anns: Seq<AnnotationNode>) -> bool {
    forall|i: int| 0 <= i < anns.len() ==> annotation_wf(#[trigger] anns[i])
}

/// The visible, then the invisible annotations of a member, each on a line of
/// its own and indented.
pub open spec fn member_annotation_lines(vis: Seq<AnnotationNode>, invis: Seq<AnnotationNode>) -> Seq<
    char,
> {
    annotation_lines(vis, true) + annotation_lines(invis, true)
}

/// The classes that the annotations of a member name.
pub open spec fn member_annotation_refs(vis: Seq<AnnotationNode>, invis: Seq<AnnotationNode>) -> Seq<
    Seq<char>,
> {
    annotations_refs(vis) + annotations_refs(invis)
}

proof fn lemma_values_take_step(vs: Seq<AnnotationValue>, i: int)
    requires
        0 <= i < vs.len(),
    ensures
        values_texts(vs.take(i + 1)) == values_texts(vs.take(i)).push(value_text(vs[i])),
        values_refs(vs.take(i + 1)) == values_refs(vs.take(i)) + value_refs(vs[i]),
{
    assert(vs.take(i + 1).drop_last() =~= vs.take(i));
    assert(vs.take(i + 1).last() == vs[i]);
}

proof fn lemma_values_wf_index(vs: Seq<AnnotationValue>, i: int)
    requires
        values_wf(vs),
        0 <= i < vs.len(),
    ensures
        value_wf(vs[i]),
    decreases vs.len(),
{
    if i < vs.len() - 1 {
        lemma_values_wf_index(vs.drop_last(), i);
    }
}

proof fn lemma_entries_take_step(ps: Seq<(String, AnnotationValue)>, j: int, b: bool)
    requires
        0 <= j < ps.len(),
    ensures
        entry_texts(ps.take(j + 1), b) == if (ps[j].0@ == "value"@) == b {
            entry_texts(ps.take(j), b).push(
                if b {
                    value_text(ps[j].1)
                } else {
                    ps[j].0@ + " = "@ + value_text(ps[j].1)
                },
            )
        } else {
            entry_texts(ps.take(j), b)
        },
        entry_refs(ps.take(j + 1), b) == if (ps[j].0@ == "value"@) == b {
            entry_refs(ps.take(j), b) + value_refs(ps[j].1)
        } else {
            entry_refs(ps.take(j), b)
        },
{
    assert(ps.take(j + 1).drop_last() =~= ps.take(j));
    assert(ps.take(j + 1).last() == ps[j]);
}

proof fn lemma_entries_wf_index(ps: Seq<(String, AnnotationValue)>, i: int)
    requires
        entries_wf(ps),
        0 <= i < ps.len(),
    ensures
        value_wf(ps[i].1),
    decreases ps.len(),
{
    if i < ps.len() - 1 {
        lemma_entries_wf_index(ps.drop_last(), i);
    }
}

proof fn lemma_entry_counts(ps: Seq<(String, AnnotationValue)>)
    ensures
        entry_texts(ps, true).len() + entry_texts(ps, false).len() == ps.len(),
    decreases ps.len(),
{
    if ps.len() > 0 {
        lemma_entry_counts(ps.drop_last());
    }
}

proof fn lemma_entry_texts_prefix_len(ps: Seq<(String, AnnotationValue)>, m: int, b: bool)
    requires
        0 <= m <= ps.len(),
    ensures
        entry_texts(ps.take(m), b).len() <= entry_texts(ps, b).len(),
    decreases ps.len(),
{
    if m == ps.len() {
        assert(ps.take(m) =~= ps);
    } else {
        lemma_entry_texts_prefix_len(ps.drop_last(), m, b);
        assert(ps.drop_last().take(m) =~= ps.take(m));
    }
}

/// With the pair named `value` at index `k`, its value alone is the default entry.
proof fn lemma_default_entry_prefix(ps: Seq<(String, AnnotationValue)>, k: int, m: int)
    requires
        names_distinct(ps),
        0 <= k < ps.len(),
        ps[k].0@ == "value"@,
        0 <= m <= ps.len(),
    ensures
        entry_texts(ps.take(m), true) == if m <= k {
            Seq::<Seq<char>>::empty()
        } else {
            seq![value_text(ps[k].1)]
        },
        entry_refs(ps.take(m), true) == if m <= k {
            Seq::<Seq<char>>::empty()
        } else {
            value_refs(ps[k].1)
        },
    decreases m,
{
    if m > 0 {
        lemma_default_entry_prefix(ps, k, m - 1);
        lemma_entries_take_step(ps, m - 1, true);
        if m - 1 != k {
            assert(ps[m - 1].0@ != ps[k].0@);
        }
        assert(Seq::<Seq<char>>::empty().push(value_text(ps[k].1)) =~= seq![value_text(ps[k].1)]);
        assert(Seq::<Seq<char>>::empty() + value_refs(ps[k].1) =~= value_refs(ps[k].1));
    }
}

/// With no pair named `value`, there is no default entry.
proof fn lemma_no_default_entry_prefix(ps: Seq<(String, AnnotationValue)>, m: int)
    requires
        forall|i: int| 0 <= i < ps.len() ==> ps[i].0@ != "value"@,
        0 <= m <= ps.len(),
    ensures
        entry_texts(ps.take(m), true) == Seq::<Seq<char>>::empty(),
        entry_refs(ps.take(m), true) == Seq::<Seq<char>>::empty(),
    decreases m,
{
    if m > 0 {
        lemma_no_default_entry_prefix(ps, m - 1);
        lemma_entries_take_step(ps, m - 1, true);
    }
}

/// Appends the source text of a constant element value.
fn write_primitive(pr: &AnnotationPrimitive, data: &mut String, imports: &mut Vec<String>, mypkg: &str)
    requires
        pr matches AnnotationPrimitive::Type(d) ==> sliceable(d@),
    ensures
        final(data)@ == old(data)@ + primitive_text(*pr),
        final(imports).deep_view() == record_imports(
            mypkg@,
            old(imports).deep_view(),
            primitive_refs(*pr),
        ),
{
    let ghost start = data@;
    match pr {
        AnnotationPrimitive::Byte(b) => push_i64(data, *b as i64),
        AnnotationPrimitive::Character(c) => push_char(data, *c),
        AnnotationPrimitive::Short(x) => push_i64(data, *x as i64),
        AnnotationPrimitive::Integer(x) => push_i64(data, *x as i64),
        AnnotationPrimitive::Long(x) => push_i64(data, *x),
        AnnotationPrimitive::Float(t) => data.append(t.as_str()),
        AnnotationPrimitive::Double(t) => data.append(t.as_str()),
        AnnotationPrimitive::Boolean(b) => {
            if *b {
                data.append("true");
            } else {
                data.append("false");
            }
        },
        AnnotationPrimitive::String(t) => {
            push_char(data, '"');
            data.append(t.as_str());
            push_char(data, '"');
            assert(data@ =~= start + primitive_text(*pr));
        },
        AnnotationPrimitive::Type(d) => {
            let raw = import_name(mypkg, imports, class_part(d.as_str()));
            data.append(raw);
            data.append(".class");
            proof {
                lemma_record_imports_single(mypkg@, old(imports).deep_view(), inner_name(d@));
            }
            assert(data@ =~= start + primitive_text(*pr));
        },
    }
}

/// The index of the element-value pair named `name`, if any.
pub(crate) fn find_entry(ps: &Vec<(String, AnnotationValue)>, name: &str) -> (r: Option<usize>)
    ensures
        match r {
            Some(k) => k < ps.len() && ps@[k as int].0@ == name@,
            None => forall|i: int| 0 <= i < ps.len() ==> ps@[i].0@ != name@,
        },
{
    let mut i: usize = 0;
    while i < ps.len()
        invariant
            i <= ps.len(),
            forall|j: int| 0 <= j < i ==> ps@[j].0@ != name@,
        decreases ps.len() - i,
    {
        if str_eq(ps[i].0.as_str(), name) {
            return Some(i);
        }
        i = i + 1;
    }
    None
}

/// Appends the source text of the element value `ann`, importing the classes
/// that it names where needed.
pub fn write_ann_value(
    ann: &AnnotationValue,
    data: &mut String,
    imports: &mut Vec<String>,
    mypkg: &str,
)
    requires
        value_wf(*ann),
    ensures
        final(data)@ == old(data)@ + value_text(*ann),
        final(imports).deep_view() == record_imports(
            mypkg@,
            old(imports).deep_view(),
            value_refs(*ann),
        ),
    decreases ann,
{
    let ghost start = data@;
    let ghost imports0 = imports.deep_view();
    match ann {
        AnnotationValue::Primitive(pr) => write_primitive(pr, data, imports, mypkg),
        AnnotationValue::Nested(val) => write_annotation(val, data, imports, mypkg),
        AnnotationValue::Array(val) => {
            let n = val.len();
            if n != 1 {
                data.append("{");
            }
            let ghost base = data@;
            let mut i: usize = 0;
            assert(val@.take(0) =~= Seq::<AnnotationValue>::empty());
            assert(record_imports(mypkg@, imports0, Seq::empty()) == imports0);
            while i < n
                invariant
                    *ann == AnnotationValue::Array(*val),
                    n == val.len(),
                    i <= n,
                    values_wf(val@),
                    data@ == base + joined_prefix(values_texts(val@.take(i as int)), ", "@, n as nat),
                    imports.deep_view() == record_imports(
                        mypkg@,
                        imports0,
                        values_refs(val@.take(i as int)),
                    ),
                    values_texts(val@.take(i as int)).len() == i,
                decreases n - i,
            {
                proof {
                    lemma_values_wf_index(val@, i as int);
                    lemma_values_take_step(val@, i as int);
                    lemma_joined_prefix_push(
                        values_texts(val@.take(i as int)),
                        ", "@,
                        n as nat,
                        value_text(val@[i as int]),
                    );
                    lemma_record_imports_concat(
                        mypkg@,
                        imports0,
                        values_refs(val@.take(i as int)),
                        value_refs(val@[i as int]),
                    );
                }
                let ghost before = data@;
                proof {
                    assert(decreases_to!(*ann => (*ann)->Array_0));
                    assert(decreases_to!(*val => val@));
                    assert(decreases_to!(val@ => val@[i as int]));
                    assert(decreases_to!(*ann => val@[i as int]));
                }
                write_ann_value(&val[i], data, imports, mypkg);
                assert(data@ == before + value_text(val@[i as int]));
                if i + 1 != n {
                    data.append(", ");
                }
                assert(data@ =~= before + value_text(val@[i as int]) + (if i + 1 < n {
                    ", "@
                } else {
                    Seq::empty()
                }));
                i = i + 1;
            }
            assert(val@.take(n as int) =~= val@);
            if n != 1 {
                data.append("}");
            }
            assert(data@ =~= start + value_text(*ann));
        },
        AnnotationValue::Enum { desc, value } => {
            let raw = import_name(mypkg, imports, class_part(desc.as_str()));
            data.append(raw);
            data.append(".");
            data.append(value.as_str());
            proof {
                lemma_record_imports_single(mypkg@, imports0, inner_name(desc@));
            }
            assert(data@ =~= start + value_text(*ann));
        },
    }
}

/// Appends the source text of the annotation `ann`, importing the classes
/// that it names where needed.
pub fn write_annotation(
    ann: &AnnotationNode,
    data: &mut String,
    imports: &mut Vec<String>,
    mypkg: &str,
)
    requires
        annotation_wf(*ann),
    ensures
        final(data)@ == old(data)@ + annotation_text(*ann),
        final(imports).deep_view() == record_imports(
            mypkg@,
            old(imports).deep_view(),
            annotation_refs(*ann),
        ),
    decreases ann,
{
    let ghost start = data@;
    let ghost imports0 = imports.deep_view();
    let ghost ps = ann.values@;
    data.append("@");
    let raw = import_name(mypkg, imports, class_part(ann.desc.as_str()));
    data.append(raw);
    data.append("(");
    proof {
        lemma_record_imports_single(mypkg@, imports0, inner_name(ann.desc@));
        lemma_entry_counts(ps);
        assert(ps.take(ps.len() as int) =~= ps);
    }
    let ghost base = data@;
    let n = ann.values.len();
    let mut i: usize = 0;
    match find_entry(&ann.values, "value") {
        Some(k) => {
            proof {
                lemma_default_entry_prefix(ps, k as int, ps.len() as int);
                lemma_entries_wf_index(ps, k as int);
                lemma_joined_prefix_push(Seq::empty(), ", "@, n as nat, value_text(ps[k as int].1));
                lemma_record_imports_concat(
                    mypkg@,
                    imports0,
                    seq![inner_name(ann.desc@)],
                    value_refs(ps[k as int].1),
                );
            }
            write_ann_value(&ann.values[k].1, data, imports, mypkg);
            if i + 1 != n {
                data.append(", ");
            }
            i = i + 1;
        },
        None => {
            proof {
                lemma_no_default_entry_prefix(ps, ps.len() as int);
            }
        },
    }
    assert(data@ =~= base + joined_prefix(entry_texts(ps, true), ", "@, n as nat));
    let ghost refs0 = seq![inner_name(ann.desc@)] + entry_refs(ps, true);
    let mut j: usize = 0;
    assert(ps.take(0) =~= Seq::<(String, AnnotationValue)>::empty());
    assert(entry_texts(ps, true) + entry_texts(ps.take(0), false) =~= entry_texts(ps, true));
    assert(refs0 + entry_refs(ps.take(0), false) =~= refs0);
    while j < n
        invariant
            n == ps.len(),
            ps == ann.values@,
            j <= n,
            annotation_wf(*ann),
            entry_texts(ps, true).len() + entry_texts(ps, false).len() == n,
            i == entry_texts(ps, true).len() + entry_texts(ps.take(j as int), false).len(),
            data@ == base + joined_prefix(
                entry_texts(ps, true) + entry_texts(ps.take(j as int), false),
                ", "@,
                n as nat,
            ),
            imports.deep_view() == record_imports(
                mypkg@,
                imports0,
                refs0 + entry_refs(ps.take(j as int), false),
            ),
        decreases n - j,
    {
        proof {
            lemma_entries_take_step(ps, j as int, false);
        }
        if !str_eq(ann.values[j].0.as_str(), "value") {
            let ghost items = entry_texts(ps, true) + entry_texts(ps.take(j as int), false);
            let ghost item = ps[j as int].0@ + " = "@ + value_text(ps[j as int].1);
            proof {
                lemma_entries_wf_index(ps, j as int);
                lemma_entry_texts_prefix_len(ps, j as int + 1, false);
                lemma_joined_prefix_push(items, ", "@, n as nat, item);
                assert(items.push(item) =~= entry_texts(ps, true) + entry_texts(
                    ps.take(j as int + 1),
                    false,
                ));
                lemma_record_imports_concat(
                    mypkg@,
                    imports0,
                    refs0 + entry_refs(ps.take(j as int), false),
                    value_refs(ps[j as int].1),
                );
                assert(refs0 + entry_refs(ps.take(j as int), false) + value_refs(ps[j as int].1)
                    =~= refs0 + entry_refs(ps.take(j as int + 1), false));
            }
            let ghost before = data@;
            data.append(ann.values[j].0.as_str());
            data.append(" = ");
            assert(data@ == before + ps[j as int].0@ + " = "@);
            write_ann_value(&ann.values[j].1, data, imports, mypkg);
            assert(data@ == before + ps[j as int].0@ + " = "@ + value_text(ps[j as int].1));
            if i + 1 != n {
                data.append(", ");
            }
            assert(data@ =~= before + item + (if i + 1 < n {
                ", "@
            } else {
                Seq::empty()
            }));
            i = i + 1;
        }
        j = j + 1;
    }
    assert(ps.take(n as int) =~= ps);
    assert((entry_texts(ps, true) + entry_texts(ps, false)).len() == n);
    data.append(")");
    assert(data@ =~= start + annotation_text(*ann));
    assert(refs0 + entry_refs(ps, false) =~= annotation_refs(*ann));
}

/// Appends each annotation of `anns` on a line of its own, indented by four
/// spaces when `indented`.
pub(crate) fn write_annotation_lines(
    anns: &Vec<AnnotationNode>,
    indented: bool,
    data: &mut String,
    imports: &mut Vec<String>,
    mypkg: &str,
)
    requires
        annotations_wf(anns@),
    ensures
        final(data)@ == old(data)@ + annotation_lines(anns@, indented),
        final(imports).deep_view() == record_imports(
            mypkg@,
            old(imports).deep_view(),
            annotations_refs(anns@),
        ),
{
    let ghost start = data@;
    let ghost imports0 = imports.deep_view();
    let ghost line = |a: AnnotationNode| text_if(indented, "    "@) + annotation_text(a) + "\n"@;
    let ghost refs = |a: AnnotationNode| annotation_refs(a);
    let mut i: usize = 0;
    assert(anns@.take(0) =~= Seq::<AnnotationNode>::empty());
    assert(data@ =~= start + anns@.take(0).flat_map(line));
    assert(record_imports(mypkg@, imports0, Seq::empty()) == imports0);
    while i < anns.len()
        invariant
            i <= anns.len(),
            annotations_wf(anns@),
            line == (|a: AnnotationNode| text_if(indented, "    "@) + annotation_text(a) + "\n"@),
            refs == (|a: AnnotationNode| annotation_refs(a)),
            data@ == start + anns@.take(i as int).flat_map(line),
            imports.deep_view() == record_imports(
                mypkg@,
                imports0,
                anns@.take(i as int).flat_map(refs),
            ),
        decreases anns.len() - i,
    {
        proof {
            anns@.lemma_flat_map_take_append(line, i as int);
            anns@.lemma_flat_map_take_append(refs, i as int);
            lemma_record_imports_concat(
                mypkg@,
                imports0,
                anns@.take(i as int).flat_map(refs),
                annotation_refs(anns@[i as int]),
            );
        }
        let ghost before = data@;
        if indented {
            data.append("    ");
        }
        write_annotation(&anns[i], data, imports, mypkg);
        data.append("\n");
        assert(data@ =~= before + line(anns@[i as int]));
        i = i + 1;
    }
    assert(anns@.take(anns.len() as int) =~= anns@);
}

/// Appends the visible, then the invisible annotations of a member, each on
/// an indented line of its own.
pub(crate) fn write_member_annotations(
    vis: &Vec<AnnotationNode>,
    invis: &Vec<AnnotationNode>,
    data: &mut String,
    imports: &mut Vec<String>,
    mypkg: &str,
)
    requires
        annotations_wf(vis@),
        annotations_wf(invis@),
    ensures
        final(data)@ == old(data)@ + member_annotation_lines(vis@, invis@),
        final(imports).deep_view() == record_imports(
            mypkg@,
            old(imports).deep_view(),
            member_annotation_refs(vis@, invis@),
        ),
{
    let ghost start = data@;
    let ghost imports0 = imports.deep_view();
    write_annotation_lines(vis, true, data, imports, mypkg);
    write_annotation_lines(invis, true, data, imports, mypkg);
    proof {
        lemma_record_imports_concat(mypkg@, imports0, annotations_refs(vis@), annotations_refs(invis@));
    }
    assert(data@ =~= start + member_annotation_lines(vis@, invis@));
}

/// Whether no two element-value pairs of `ps` share a name.
pub fn names_are_distinct(ps: &Vec<(String, AnnotationValue)>) -> (r: bool)
    ensures
        r == names_distinct(ps@),
{
    let n = ps.len();
    let mut j: usize = 0;
    while j < n
        invariant
            n == ps.len(),
            j <= n,
            forall|a: int, b: int| 0 <= a < b < j ==> ps@[a].0@ != ps@[b].0@,
        decreases n - j,
    {
        let mut i: usize = 0;
        while i < j
            invariant
                n == ps.len(),
                i <= j < n,
                forall|a: int| 0 <= a < i ==> ps@[a].0@ != ps@[j as int].0@,
            decreases j - i,
        {
            if str_eq(ps[i].0.as_str(), ps[j].0.as_str()) {
                return false;
            }
            i = i + 1;
        }
        j = j + 1;
    }
    true
}

/// Whether the element value `v` can be rendered.
pub fn value_renderable(v: &AnnotationValue) -> (r: bool)
    ensures
        r == value_wf(*v),
    decreases v,
{
    match v {
        AnnotationValue::Primitive(p) => match p {
            AnnotationPrimitive::Type(d) => is_sliceable(d.as_str()),
            _ => true,
        },
        AnnotationValue::Nested(a) => annotation_renderable(a),
        AnnotationValue::Array(vs) => {
            let mut i: usize = 0;
            assert(vs@.take(0) =~= Seq::<AnnotationValue>::empty());
            while i < vs.len()
                invariant
                    *v == AnnotationValue::Array(*vs),
                    i <= vs.len(),
                    values_wf(vs@.take(i as int)),
                decreases vs.len() - i,
            {
                proof {
                    assert(vs@.take(i + 1).drop_last() =~= vs@.take(i as int));
                    assert(decreases_to!(*v => (*v)->Array_0));
                    assert(decreases_to!(*vs => vs@));
                    assert(decreases_to!(vs@ => vs@[i as int]));
                }
                if !value_renderable(&vs[i]) {
                    assert(!values_wf(vs@)) by {
                        if values_wf(vs@) {
                            lemma_values_wf_index(vs@, i as int);
                        }
                    }
                    return false;
                }
                i = i + 1;
            }
            assert(vs@.take(vs.len() as int) =~= vs@);
            true
        },
        AnnotationValue::Enum { desc, value } => is_sliceable(desc.as_str()),
    }
}

/// Whether the annotation `a` can be rendered.
pub fn annotation_renderable(a: &AnnotationNode) -> (r: bool)
    ensures
        r == annotation_wf(*a),
    decreases a,
{
    if !is_sliceable(a.desc.as_str()) || !names_are_distinct(&a.values) {
        return false;
    }
    let ps = &a.values;
    let mut i: usize = 0;
    assert(ps@.take(0) =~= Seq::<(String, AnnotationValue)>::empty());
    while i < ps.len()
        invariant
            ps == &a.values,
            i <= ps.len(),
            entries_wf(ps@.take(i as int)),
        decreases ps.len() - i,
    {
        proof {
            assert(ps@.take(i + 1).drop_last() =~= ps@.take(i as int));
        }
        if !value_renderable(&ps[i].1) {
            assert(!entries_wf(ps@)) by {
                if entries_wf(ps@) {
                    lemma_entries_wf_index(ps@, i as int);
                }
            }
            return false;
        }
        i = i + 1;
    }
    assert(ps@.take(ps.len() as int) =~= ps@);
    true
}

/// Whether every annotation of `anns` can be rendered.
pub fn annotations_renderable(anns: &Vec<AnnotationNode>) -> (r: bool)
    ensures
        r == annotations_wf(anns@),
{
    let mut i: usize = 0;
    while i < anns.len()
        invariant
            i <= anns.len(),
            forall|j: int| 0 <= j < i ==> annotation_wf(#[trigger] anns@[j]),
        decreases anns.len() - i,
    {
        if !annotation_renderable(&anns[i]) {
            return false;
        }
        i = i + 1;
    }
    true
}

/// Integer element values of every width are written as decimal numerals
/// for their values, negative ones with a leading `-`.
pub proof fn law_integer_values_denote(b: i8, s: i16, i: i32, l: i64)
    ensures
        denotes_integer(primitive_text(AnnotationPrimitive::Byte(b)), b as int),
        denotes_integer(primitive_text(AnnotationPrimitive::Short(s)), s as int),
        denotes_integer(primitive_text(AnnotationPrimitive::Integer(i)), i as int),
        denotes_integer(primitive_text(AnnotationPrimitive::Long(l)), l as int),
{
    law_int_text_denotes(b as int);
    law_int_text_denotes(s as int);
    law_int_text_denotes(i as int);
    law_int_text_denotes(l as int);
}

/// A string element value is written between double quotes, unchanged; a
/// character element value is written as that one character.
pub proof fn law_string_and_char_values(t: String, c: char)
    ensures
        primitive_text(AnnotationPrimitive::String(t)).len() == t@.len() + 2,
        primitive_text(AnnotationPrimitive::String(t))[0] == '"',
        primitive_text(AnnotationPrimitive::String(t)).last() == '"',
        primitive_text(AnnotationPrimitive::String(t)).subrange(1, t@.len() as int + 1) == t@,
        primitive_text(AnnotationPrimitive::Character(c)) == seq![c],
{
    assert(primitive_text(AnnotationPrimitive::String(t)).subrange(1, t@.len() as int + 1) =~= t@);
}

/// Boolean element values are written `true` and `false`; float and double
/// values as their given text; a class literal as the class's simple name
/// followed by `.class`; an enum constant as the enum's simple name, `.` and
/// the constant's name.
pub proof fn law_other_constant_values(f: String, d: String, desc: String, value: String)
    ensures
        primitive_text(AnnotationPrimitive::Boolean(true)) == "true"@,
        primitive_text(AnnotationPrimitive::Boolean(false)) == "false"@,
        primitive_text(AnnotationPrimitive::Float(f)) == f@,
        primitive_text(AnnotationPrimitive::Double(f)) == f@,
        primitive_text(AnnotationPrimitive::Type(d)) == simple_name(inner_name(d@)) + ".class"@,
        value_text(AnnotationValue::Enum { desc, value }) == simple_name(inner_name(desc@)) + "."@
            + value@,
        value_text(AnnotationValue::Primitive(AnnotationPrimitive::Type(d))) == primitive_text(
            AnnotationPrimitive::Type(d),
        ),
{
}

/// The texts of a list of element values are, in order, the texts of each
/// value.
pub proof fn law_values_texts(vs: Seq<AnnotationValue>)
    ensures
        values_texts(vs).len() == vs.len(),
        forall|i: int| 0 <= i < vs.len() ==> #[trigger] values_texts(vs)[i] == value_text(vs[i]),
    decreases vs.len(),
{
    if vs.len() > 0 {
        law_values_texts(vs.drop_last());
    }
}

/// An array element value: `{}` when empty, its one element's text when it
/// has one, and otherwise its elements' texts between braces; one more
/// element adds `, ` and its text before the closing brace.
pub proof fn law_array_values(
    v: AnnotationValue,
    v2: AnnotationValue,
    vs: Vec<AnnotationValue>,
    vs2: Vec<AnnotationValue>,
    x: AnnotationValue,
)
    requires
        v == AnnotationValue::Array(vs),
        v2 == AnnotationValue::Array(vs2),
        vs2@ == vs@.push(x),
    ensures
        vs.len() == 0 ==> value_text(v) == "{"@ + "}"@,
        vs.len() == 1 ==> value_text(v) == value_text(vs@[0]),
        vs.len() == 1 ==> value_text(v2) == "{"@ + value_text(vs@[0]) + ", "@ + value_text(x) + "}"@,
        vs.len() >= 2 ==> value_text(v2) == value_text(v).drop_last() + ", "@ + value_text(x) + "}"@,
{
    law_values_texts(vs@);
    law_values_texts(vs2@);
    let t = values_texts(vs@);
    assert(values_texts(vs2@) =~= t.push(value_text(x)));
    law_join_push(t, ", "@, value_text(x));
    if vs.len() == 0 {
        assert(join(t, ", "@) =~= Seq::<char>::empty());
        assert(value_text(v) =~= "{"@ + "}"@);
    }
    if vs.len() == 1 {
        assert(join(t, ", "@) == t[0]);
        assert(value_text(v2) =~= "{"@ + value_text(vs@[0]) + ", "@ + value_text(x) + "}"@);
    }
    if vs.len() >= 2 {
        let j = join(t, ", "@);
        reveal_strlit("}");
        assert(("{"@ + j + "}"@).drop_last() =~= "{"@ + j);
        assert(value_text(v2) =~= "{"@ + j + ", "@ + value_text(x) + "}"@);
    }
}

/// One more element named other than `value` is written last, as
/// `name = value` after `, ` (or alone when it is the only one).
pub proof fn law_annotation_named_element(
    a: AnnotationNode,
    a2: AnnotationNode,
    k: String,
    v: AnnotationValue,
)
    requires
        a2.desc@ == a.desc@,
        a2.values@ == a.values@.push((k, v)),
        k@ != "value"@,
    ensures
        annotation_text(a2) == annotation_text(a).drop_last() + (if a.values.len() == 0 {
            Seq::<char>::empty()
        } else {
            ", "@
        }) + k@ + " = "@ + value_text(v) + ")"@,
{
    let ps = a.values@;
    let ps2 = a2.values@;
    assert(ps2.drop_last() =~= ps);
    assert(entry_texts(ps2, true) == entry_texts(ps, true));
    let item = k@ + " = "@ + value_text(v);
    assert(entry_texts(ps2, false) == entry_texts(ps, false).push(item));
    let items = entry_texts(ps, true) + entry_texts(ps, false);
    assert(entry_texts(ps2, true) + entry_texts(ps2, false) =~= items.push(item));
    law_join_push(items, ", "@, item);
    lemma_entry_counts(ps);
    let head = "@"@ + simple_name(inner_name(a.desc@)) + "("@;
    reveal_strlit(")");
    assert(annotation_text(a) == head + join(items, ", "@) + ")"@);
    assert((head + join(items, ", "@) + ")"@).drop_last() =~= head + join(items, ", "@));
    if a.values.len() == 0 {
        assert(join(items, ", "@) =~= Seq::<char>::empty());
    }
    assert(annotation_text(a2) =~= head + join(items, ", "@) + (if a.values.len() == 0 {
        Seq::<char>::empty()
    } else {
        ", "@
    }) + item + ")"@);
}

/// An element named `value`, added to an annotation that has none, is
/// written first, as the bare value, ahead of every other element.
pub proof fn law_annotation_value_element_first(a: AnnotationNode, a2: AnnotationNode, k: String, v: AnnotationValue)
    requires
        a2.desc@ == a.desc@,
        a2.values@ == a.values@.push((k, v)),
        k@ == "value"@,
        forall|i: int| 0 <= i < a.values.len() ==> a.values@[i].0@ != "value"@,
    ensures
        exists|x: Seq<char>, y: Seq<char>|
            annotation_text(a) == #[trigger] (x + y) && annotation_text(a2) == x + value_text(v) + (
            if a.values.len() == 0 {
                Seq::<char>::empty()
            } else {
                ", "@
            }) + y,
{
    let ps = a.values@;
    let ps2 = a2.values@;
    assert(ps2.drop_last() =~= ps);
    lemma_no_default_entry_prefix(ps, ps.len() as int);
    assert(ps.take(ps.len() as int) =~= ps);
    assert(entry_texts(ps2, true) =~= seq![value_text(v)]);
    assert(entry_texts(ps2, false) == entry_texts(ps, false));
    let others = entry_texts(ps, false);
    let head = "@"@ + simple_name(inner_name(a.desc@)) + "("@;
    let y = join(others, ", "@) + ")"@;
    assert(entry_texts(ps, true) + others =~= others);
    assert(annotation_text(a) =~= head + y);
    lemma_entry_counts(ps);
    lemma_join_prepend(others, ", "@, value_text(v));
    let sep = if a.values.len() == 0 {
        Seq::<char>::empty()
    } else {
        ", "@
    };
    assert(seq![value_text(v)] + others =~= entry_texts(ps2, true) + entry_texts(ps2, false));
    assert(annotation_text(a2) =~= head + value_text(v) + sep + y);
}

/// Joining with one more item in front puts it and the separator first.
proof fn lemma_join_prepend(items: Seq<Seq<char>>, sep: Seq<char>, x: Seq<char>)
    ensures
        join(seq![x] + items, sep) == x + (if items.len() == 0 {
            Seq::<char>::empty()
        } else {
            sep
        }) + join(items, sep),
    decreases items.len(),
{
    if items.len() == 0 {
        assert(seq![x] + items =~= seq![x]);
        assert(join(seq![x], sep) == x);
        assert(x + Seq::<char>::empty() + Seq::<char>::empty() =~= x);
    } else {
        lemma_join_prepend(items.drop_last(), sep, x);
        assert((seq![x] + items).drop_last() =~= seq![x] + items.drop_last());
        assert((seq![x] + items).last() == items.last());
        if items.len() == 1 {
            assert(join(items.drop_last(), sep) =~= Seq::<char>::empty());
            assert(join(items, sep) == items[0]);
        }
        assert(join(seq![x] + items, sep) =~= x + sep + join(items, sep));
    }
}

} // verus!
