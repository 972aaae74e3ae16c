use class_quicklook::access::{ClassAccess, FieldAccess, MethodAccess};
use class_quicklook::annotations::{
    annotation_renderable, names_are_distinct, value_renderable, write_ann_value, write_annotation,
};
use class_quicklook::describe::{describe, renderable};
use class_quicklook::descriptors::{class_part, is_sliceable, type_renderable, write_type};
use class_quicklook::model::{
    AnnotationNode, AnnotationPrimitive, AnnotationValue, ClassNode, FieldNode, MethodNode,
    TypeDesc,
};

fn ty(dimensions: usize, descriptor: &str) -> TypeDesc {
    TypeDesc { dimensions, descriptor: descriptor.to_string() }
}

fn ann(desc: &str, values: Vec<(&str, AnnotationValue)>) -> AnnotationNode {
    AnnotationNode {
        desc: desc.to_string(),
        values: values.into_iter().map(|(k, v)| (k.to_string(), v)).collect(),
    }
}

fn prim(p: AnnotationPrimitive) -> AnnotationValue {
    AnnotationValue::Primitive(p)
}

fn field(bits: u16, name: &str, t: TypeDesc) -> FieldNode {
    FieldNode {
        access: FieldAccess { bits },
        name: name.to_string(),
        field_type: t,
        visible_annotations: Vec::new(),
        invisible_annotations: Vec::new(),
    }
}

fn method(bits: u16, name: &str, ret: TypeDesc, args: Vec<TypeDesc>) -> MethodNode {
    MethodNode {
        access: MethodAccess { bits },
        name: name.to_string(),
        return_type: ret,
        argument_types: args,
        exceptions: Vec::new(),
        visible_annotations: Vec::new(),
        invisible_annotations: Vec::new(),
        annotation_default: None,
    }
}

fn class(bits: u16, name: &str, super_name: Option<&str>) -> ClassNode {
    ClassNode {
        access: ClassAccess { bits },
        name: name.to_string(),
        super_name: super_name.map(|s| s.to_string()),
        interfaces: Vec::new(),
        visible_annotations: Vec::new(),
        invisible_annotations: Vec::new(),
        fields: Vec::new(),
        methods: Vec::new(),
    }
}

fn type_text(t: TypeDesc, imports: &mut Vec<String>) -> String {
    let mut s = String::new();
    write_type("com/example", imports, &t, &mut s);
    s
}

fn value_text(v: AnnotationValue, imports: &mut Vec<String>) -> String {
    let mut s = String::new();
    write_ann_value(&v, &mut s, imports, "com/example");
    s
}

fn annotation_text(a: AnnotationNode, imports: &mut Vec<String>) -> String {
    let mut s = String::new();
    write_annotation(&a, &mut s, imports, "com/example");
    s
}

#[test]
fn primitive_types_use_java_keywords() {
    let mut imports = Vec::new();
    assert_eq!(type_text(ty(0, "V"), &mut imports), "void");
    assert_eq!(type_text(ty(0, "Z"), &mut imports), "boolean");
    assert_eq!(type_text(ty(0, "B"), &mut imports), "byte");
    assert_eq!(type_text(ty(0, "S"), &mut imports), "short");
    assert_eq!(type_text(ty(0, "C"), &mut imports), "char");
    assert_eq!(type_text(ty(0, "I"), &mut imports), "int");
    assert_eq!(type_text(ty(0, "F"), &mut imports), "float");
    assert_eq!(type_text(ty(0, "J"), &mut imports), "long");
    assert_eq!(type_text(ty(0, "D"), &mut imports), "double");
    assert!(imports.is_empty());
}

#[test]
fn array_types_get_one_pair_of_brackets_per_dimension() {
    let mut imports = Vec::new();
    assert_eq!(type_text(ty(2, "Z"), &mut imports), "boolean[][]");
    assert_eq!(type_text(ty(1, "Ljava/util/List;"), &mut imports), "List[]");
    assert_eq!(imports, vec!["java.util.List".to_string()]);
}

#[test]
fn class_types_use_simple_names_and_import_when_needed() {
    let mut imports = Vec::new();
    assert_eq!(type_text(ty(0, "Ljava/lang/String;"), &mut imports), "String");
    assert_eq!(type_text(ty(0, "Lcom/example/Bar;"), &mut imports), "Bar");
    assert_eq!(type_text(ty(0, "LTop;"), &mut imports), "Top");
    assert!(imports.is_empty());
    assert_eq!(type_text(ty(0, "Ljava/io/File;"), &mut imports), "File");
    assert_eq!(imports, vec!["java.io.File".to_string()]);
}

#[test]
fn constant_values() {
    let mut imports = Vec::new();
    assert_eq!(value_text(prim(AnnotationPrimitive::Byte(-128)), &mut imports), "-128");
    assert_eq!(value_text(prim(AnnotationPrimitive::Short(0)), &mut imports), "0");
    assert_eq!(value_text(prim(AnnotationPrimitive::Integer(2147483647)), &mut imports), "2147483647");
    assert_eq!(
        value_text(prim(AnnotationPrimitive::Long(i64::MIN)), &mut imports),
        "-9223372036854775808"
    );
    assert_eq!(value_text(prim(AnnotationPrimitive::Long(1090)), &mut imports), "1090");
    assert_eq!(value_text(prim(AnnotationPrimitive::Character('x')), &mut imports), "x");
    assert_eq!(value_text(prim(AnnotationPrimitive::Float(format!("{}", 1.5f32))), &mut imports), "1.5");
    assert_eq!(value_text(prim(AnnotationPrimitive::Double(format!("{}", 2.0f64))), &mut imports), "2");
    assert_eq!(value_text(prim(AnnotationPrimitive::Boolean(true)), &mut imports), "true");
    assert_eq!(value_text(prim(AnnotationPrimitive::Boolean(false)), &mut imports), "false");
    assert_eq!(
        value_text(prim(AnnotationPrimitive::String("a b".to_string())), &mut imports),
        "\"a b\""
    );
    assert!(imports.is_empty());
}

#[test]
fn class_literal_and_enum_values_import_their_types() {
    let mut imports = Vec::new();
    assert_eq!(
        value_text(prim(AnnotationPrimitive::Type("Ljava/util/List;".to_string())), &mut imports),
        "List.class"
    );
    let e = AnnotationValue::Enum {
        desc: "Ljava/lang/annotation/ElementType;".to_string(),
        value: "TYPE".to_string(),
    };
    assert_eq!(value_text(e, &mut imports), "ElementType.TYPE");
    assert_eq!(
        imports,
        vec!["java.util.List".to_string(), "java.lang.annotation.ElementType".to_string()]
    );
}

#[test]
fn arrays_of_one_value_have_no_braces() {
    let mut imports = Vec::new();
    let one = AnnotationValue::Array(vec![prim(AnnotationPrimitive::Integer(1))]);
    assert_eq!(value_text(one, &mut imports), "1");
    let two = AnnotationValue::Array(vec![
        prim(AnnotationPrimitive::Integer(1)),
        prim(AnnotationPrimitive::Integer(2)),
    ]);
    assert_eq!(value_text(two, &mut imports), "{1, 2}");
    let none = AnnotationValue::Array(Vec::new());
    assert_eq!(value_text(none, &mut imports), "{}");
}

#[test]
fn annotation_writes_value_element_first() {
    let mut imports = Vec::new();
    let a = ann(
        "Lcom/example/Ann;",
        vec![
            ("name", prim(AnnotationPrimitive::String("x".to_string()))),
            ("value", prim(AnnotationPrimitive::Integer(5))),
            ("flag", prim(AnnotationPrimitive::Boolean(true))),
        ],
    );
    assert_eq!(annotation_text(a, &mut imports), "@Ann(5, name = \"x\", flag = true)");
    assert!(imports.is_empty());
}

#[test]
fn annotation_without_value_element_or_elements() {
    let mut imports = Vec::new();
    assert_eq!(annotation_text(ann("Ljava/lang/Deprecated;", vec![]), &mut imports), "@Deprecated()");
    let a = ann("Lorg/x/A;", vec![("b", prim(AnnotationPrimitive::Integer(1)))]);
    assert_eq!(annotation_text(a, &mut imports), "@A(b = 1)");
    assert_eq!(imports, vec!["org.x.A".to_string()]);
}

#[test]
fn nested_annotations_import_in_written_order() {
    let mut imports = Vec::new();
    let inner = ann("Lorg/y/Inner;", vec![("value", prim(AnnotationPrimitive::Type("Lorg/z/C;".to_string())))]);
    let outer = ann(
        "Lorg/x/Outer;",
        vec![("value", AnnotationValue::Array(vec![AnnotationValue::Nested(inner)]))],
    );
    assert_eq!(annotation_text(outer, &mut imports), "@Outer(@Inner(C.class))");
    assert_eq!(
        imports,
        vec!["org.x.Outer".to_string(), "org.y.Inner".to_string(), "org.z.C".to_string()]
    );
}

#[test]
fn describes_a_class_with_fields_and_methods() {
    let mut c = class(0x0021, "com/example/Foo", Some("java/lang/Object"));
    c.interfaces = vec!["java/io/Serializable".to_string(), "com/example/Bar".to_string()];
    c.visible_annotations = vec![ann("Ljava/lang/Deprecated;", vec![])];
    c.fields = vec![
        field(0x001a, "serialVersionUID", ty(0, "J")),
        field(0x0001, "items", ty(1, "Ljava/util/List;")),
    ];
    let mut read = method(0x0001, "read", ty(0, "I"), vec![ty(1, "B"), ty(0, "I")]);
    read.exceptions = vec!["java/io/IOException".to_string()];
    c.methods = vec![
        method(0x0001, "<init>", ty(0, "V"), vec![]),
        method(0x0009, "main", ty(0, "V"), vec![ty(1, "Ljava/lang/String;")]),
        method(0x0008, "<clinit>", ty(0, "V"), vec![]),
        read,
    ];
    let expected = "package com.example;\n\n\
import java.io.Serializable;\n\
import java.util.List;\n\
import java.io.IOException;\n\
\n\
@Deprecated()\n\
public class Foo implements Serializable, Bar {\n    \
private static final long serialVersionUID;\n    \
public List[] items;\n    \
public Foo();\n    \
public static void main(String[] arg0);\n    \
static {};\n    \
public int read(byte[] arg0, int arg1) throws IOException;\n\
}\n";
    assert_eq!(describe(&c), expected);
}

#[test]
fn describes_an_enum() {
    let mut c = class(0x4031, "com/example/Color", Some("java/lang/Enum"));
    c.fields = vec![
        field(0x4019, "RED", ty(0, "Lcom/example/Color;")),
        field(0x4019, "GREEN", ty(0, "Lcom/example/Color;")),
        field(0x101a, "$VALUES", ty(1, "Lcom/example/Color;")),
    ];
    c.methods = vec![
        method(0x0009, "values", ty(1, "Lcom/example/Color;"), vec![]),
        method(0x0008, "<clinit>", ty(0, "V"), vec![]),
    ];
    let expected = "package com.example;\n\n\n\
public enum Color {\n    \
RED,\n    \
GREEN;\n    \
/* synthetic */ private static final Color[] $VALUES;\n    \
public static Color[] values();\n    \
static {};\n\
}\n";
    assert_eq!(describe(&c), expected);
}

#[test]
fn describes_an_annotation_interface_with_a_default() {
    let mut c = class(0x2601, "com/example/Tag", Some("java/lang/Object"));
    c.interfaces = vec!["java/lang/annotation/Annotation".to_string()];
    c.visible_annotations = vec![ann(
        "Ljava/lang/annotation/Retention;",
        vec![(
            "value",
            AnnotationValue::Enum {
                desc: "Ljava/lang/annotation/RetentionPolicy;".to_string(),
                value: "RUNTIME".to_string(),
            },
        )],
    )];
    let mut m = method(0x0401, "value", ty(0, "Ljava/lang/String;"), vec![]);
    m.annotation_default =
        Some(ann("Ljava/lang/Object;", vec![("", prim(AnnotationPrimitive::String("none".to_string())))]));
    c.methods = vec![m];
    let expected = "package com.example;\n\n\
import java.lang.annotation.Retention;\n\
import java.lang.annotation.RetentionPolicy;\n\
\n\
@Retention(RetentionPolicy.RUNTIME)\n\
public @interface Tag {\n    \
public String value() default \"none\";\n\
}\n";
    assert_eq!(describe(&c), expected);
}

#[test]
fn describes_a_class_of_the_default_package() {
    let c = class(0x0020, "Main", Some("Base"));
    assert_eq!(describe(&c), "package ;\n\n\nclass Main extends Base {\n}\n");
}

#[test]
fn interface_declaration_names_no_object_superclass() {
    let mut c = class(0x0601, "a/b/Api", Some("java/lang/Object"));
    c.interfaces = vec!["a/c/Base".to_string()];
    assert_eq!(
        describe(&c),
        "package a.b;\n\nimport a.c.Base;\n\npublic interface Api implements Base {\n}\n"
    );
}

#[test]
fn member_annotations_are_indented_and_imports_are_not_repeated() {
    let mut c = class(0x0021, "p/K", Some("q/Base"));
    let mut f = field(0x0001, "x", ty(0, "Lq/Base;"));
    f.visible_annotations = vec![ann("Lq/Ann;", vec![])];
    f.invisible_annotations = vec![ann("Lq/Hidden;", vec![])];
    c.fields = vec![f];
    let mut m = method(0x0001, "f", ty(0, "Lq/Base;"), vec![ty(0, "Lq/Base;"), ty(2, "D")]);
    m.visible_annotations = vec![ann("Lq/Ann;", vec![])];
    c.methods = vec![m];
    let expected = "package p;\n\n\
import q.Base;\n\
import q.Ann;\n\
import q.Hidden;\n\
\n\
public class K extends Base {\n    \
@Ann()\n    \
@Hidden()\n    \
public Base x;\n    \
@Ann()\n    \
public Base f(Base arg0, double[][] arg1);\n\
}\n";
    assert_eq!(describe(&c), expected);
}

#[test]
fn enum_superclass_is_not_written() {
    let mut c = class(0x4030, "E", Some("java/lang/Enum"));
    c.fields = vec![field(0x4019, "ONLY", ty(0, "LE;"))];
    assert_eq!(describe(&c), "package ;\n\n\nenum E {\n    ONLY;\n}\n");
}

#[test]
fn many_arguments_are_numbered_in_decimal() {
    let mut c = class(0x0001, "C", None);
    let args: Vec<TypeDesc> = (0..12).map(|_| ty(0, "I")).collect();
    c.methods = vec![method(0x0000, "m", ty(0, "V"), args)];
    let out = describe(&c);
    assert!(out.contains("int arg9, int arg10, int arg11);\n"));
}

#[test]
fn descriptors_need_a_class_name_to_cut_out() {
    assert!(is_sliceable("Ljava/lang/String;"));
    assert!(is_sliceable("LA;"));
    assert!(!is_sliceable("L"));
    assert!(!is_sliceable(""));
    assert!(!is_sliceable("éa;"));
    assert!(!is_sliceable("La;é"));
    assert_eq!(class_part("Ljava/lang/String;"), "java/lang/String");
    assert_eq!(class_part("Lé;"), "é");
    assert!(type_renderable(&ty(3, "I")));
    assert!(!type_renderable(&ty(0, "Q")));
    assert!(type_renderable(&ty(0, "Lq;")));
}

#[test]
fn annotations_need_distinct_element_names() {
    let dup = ann(
        "LA;",
        vec![("a", prim(AnnotationPrimitive::Integer(1))), ("a", prim(AnnotationPrimitive::Integer(2)))],
    );
    assert!(!names_are_distinct(&dup.values));
    assert!(!annotation_renderable(&dup));
    let ok = ann("LA;", vec![("a", prim(AnnotationPrimitive::Integer(1)))]);
    assert!(annotation_renderable(&ok));
    let bad_value = AnnotationValue::Array(vec![prim(AnnotationPrimitive::Type("I".to_string()))]);
    assert!(!value_renderable(&bad_value));
}

#[test]
fn renderable_checks_what_describe_reads() {
    let mut c = class(0x0001, "C", None);
    assert!(renderable(&c));
    c.fields = vec![field(0x4019, "E", ty(0, "?"))];
    assert!(renderable(&c));
    c.fields = vec![field(0x0001, "x", ty(0, "?"))];
    assert!(!renderable(&c));
    c.fields = vec![];
    c.methods = vec![method(0x0008, "<clinit>", ty(0, "?"), vec![ty(0, "?")])];
    assert!(renderable(&c));
    c.methods = vec![method(0x0001, "<init>", ty(0, "?"), vec![])];
    assert!(renderable(&c));
    c.methods = vec![method(0x0001, "m", ty(0, "V"), vec![ty(0, "?")])];
    assert!(!renderable(&c));
    let mut m = method(0x0401, "v", ty(0, "I"), vec![]);
    m.annotation_default = Some(ann("LX;", vec![("x", prim(AnnotationPrimitive::Integer(1)))]));
    c.methods = vec![m];
    assert!(!renderable(&c));
}
