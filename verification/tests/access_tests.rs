use class_quicklook::access::{
    write_class_access, write_field_access, write_method_access, ClassAccess, FieldAccess,
    MethodAccess,
};

fn class_text(bits: u16) -> String {
    let mut s = String::new();
    write_class_access(ClassAccess { bits }, &mut s);
    s
}

#[test]
fn class_modifiers() {
    assert_eq!(class_text(0x0001 | 0x0020), "public class ");
    assert_eq!(class_text(0x0001 | 0x0010 | 0x0020), "public final class ");
    assert_eq!(class_text(0x0000), "class ");
    assert_eq!(class_text(0x0001 | 0x0200 | 0x0400), "public interface ");
    assert_eq!(class_text(0x0001 | 0x2000 | 0x0200 | 0x0400), "public @interface ");
    assert_eq!(class_text(0x0001 | 0x4000 | 0x0010 | 0x0020), "public enum ");
}

#[test]
fn method_modifiers_in_order() {
    let mut s = String::from(">");
    write_method_access(MethodAccess { bits: 0x1000 | 0x0040 | 0x0001 | 0x0008 | 0x0010 }, &mut s);
    assert_eq!(s, ">/* synthetic */ /* bridge */ public static final ");
    let mut t = String::new();
    write_method_access(MethodAccess { bits: 0x0004 | 0x0020 | 0x0100 | 0x0800 }, &mut t);
    assert_eq!(t, "protected synchronized native strictfp ");
    let mut u = String::new();
    write_method_access(MethodAccess { bits: 0x0002 | 0x0400 }, &mut u);
    assert_eq!(u, "private ");
}

#[test]
fn field_modifiers_in_order() {
    let mut s = String::new();
    write_field_access(FieldAccess { bits: 0x1000 | 0x0002 | 0x0008 | 0x0080 | 0x0040 }, &mut s);
    assert_eq!(s, "/* synthetic */ private static transient volatile ");
    let mut t = String::new();
    write_field_access(FieldAccess { bits: 0x0004 | 0x0010 }, &mut t);
    assert_eq!(t, "protected final ");
}

#[test]
fn contains_tests_every_bit_of_the_flag() {
    let a = ClassAccess { bits: 0x0021 };
    assert!(a.contains(ClassAccess::ACC_PUBLIC));
    assert!(a.contains(ClassAccess::ACC_SUPER));
    assert!(!a.contains(ClassAccess::ACC_FINAL));
    assert!(!a.contains(0x0011));
}
