//! Access flags of classes, fields and methods, and the Java modifiers that
//! render them.
use vstd::prelude::*;
use vstd::seq_lib::lemma_concat_associative;

verus! {

/// Access flags of a class (the `access_flags` item of a class file).
#[derive(Clone, Copy, Debug, PartialEq, Eq)]
pub struct ClassAccess {
    pub bits: u16,
}

/// Access flags of a method.
#[derive(Clone, Copy, Debug, PartialEq, Eq)]
pub struct MethodAccess {
    pub bits: u16,
}

/// Access flags of a field.
#[derive(Clone, Copy, Debug, PartialEq, Eq)]
pub struct FieldAccess {
    pub bits: u16,
}

impl ClassAccess {
    pub const ACC_PUBLIC: u16 = 0x0001;
    pub const ACC_FINAL: u16 = 0x0010;
    pub const ACC_SUPER: u16 = 0x0020;
    pub const ACC_INTERFACE: u16 = 0x0200;
    pub const ACC_ABSTRACT: u16 = 0x0400;
    pub const ACC_SYNTHETIC: u16 = 0x1000;
    pub const ACC_ANNOTATION: u16 = 0x2000;
    pub const ACC_ENUM: u16 = 0x4000;

    /// Whether every bit of `flag` is set.
    pub open spec fn has(self, flag: u16) -> bool {
        self.bits & flag == flag
    }

    /// Whether every bit of `flag` is set.
    pub fn contains(&self, flag: u16) -> (r: bool)
        ensures
            r == self.has(flag),
    {
        self.bits & flag == flag
    }
}

impl MethodAccess {
    pub const ACC_PUBLIC: u16 = 0x0001;
    pub const ACC_PRIVATE: u16 = 0x0002;
    pub const ACC_PROTECTED: u16 = 0x0004;
    pub const ACC_STATIC: u16 = 0x0008;
    pub const ACC_FINAL: u16 = 0x0010;
    pub const ACC_SYNCHRONIZED: u16 = 0x0020;
    pub const ACC_BRIDGE: u16 = 0x0040;
    pub const ACC_VARARGS: u16 = 0x0080;
    pub const ACC_NATIVE: u16 = 0x0100;
    pub const ACC_ABSTRACT: u16 = 0x0400;
    pub const ACC_STRICT: u16 = 0x0800;
    pub const ACC_SYNTHETIC: u16 = 0x1000;

    /// Whether every bit of `flag` is set.
    pub open spec fn has(self, flag: u16) -> bool {
        self.bits & flag == flag
    }

    /// Whether every bit of `flag` is set.
    pub fn contains(&self, flag: u16) -> (r: bool)
        ensures
            r == self.has(flag),
    {
        self.bits & flag == flag
    }
}

impl FieldAccess {
    pub const ACC_PUBLIC: u16 = 0x0001;
    pub const ACC_PRIVATE: u16 = 0x0002;
    pub const ACC_PROTECTED: u16 = 0x0004;
    pub const ACC_STATIC: u16 = 0x0008;
    pub const ACC_FINAL: u16 = 0x0010;
    pub const ACC_VOLATILE: u16 = 0x0040;
    pub const ACC_TRANSIENT: u16 = 0x0080;
    pub const ACC_SYNTHETIC: u16 = 0x1000;
    pub const ACC_ENUM: u16 = 0x4000;

    /// Whether every bit of `flag` is set.
    pub open spec fn has(self, flag: u16) -> bool {
        self.bits & flag == flag
    }

    /// Whether every bit of `flag` is set.
    pub fn contains(&self, flag: u16) -> (r: bool)
        ensures
            r == self.has(flag),
    {
        self.bits & flag == flag
    }
}

/// `s` when `b` holds, nothing otherwise.
pub open spec fn text_if(b: bool, s: Seq<char>) -> Seq<char> {
    if b {
        s
    } else {
        Seq::empty()
    }
}

/// The modifiers and keyword that open a class declaration, such as
/// `public final class ` or `@interface `.
pub open spec fn class_access_text(a: ClassAccess) -> Seq<char> {
    text_if(a.has(ClassAccess::ACC_PUBLIC), "public "@) + if a.has(ClassAccess::ACC_ANNOTATION) {
        "@interface "@
    } else if a.has(ClassAccess::ACC_INTERFACE) {
        "interface "@
    } else if a.has(ClassAccess::ACC_ENUM) {
        "enum "@
    } else {
        text_if(a.has(ClassAccess::ACC_FINAL), "final "@) + "class "@
    }
}

/// The modifiers of a method declaration, each followed by a space.
pub open spec fn method_access_text(a: MethodAccess) -> Seq<char> {
    text_if(a.has(MethodAccess::ACC_SYNTHETIC), "/* synthetic */ "@)
        + text_if(a.has(MethodAccess::ACC_BRIDGE), "/* bridge */ "@)
        + text_if(a.has(MethodAccess::ACC_PUBLIC), "public "@)
        + text_if(a.has(MethodAccess::ACC_PROTECTED), "protected "@)
        + text_if(a.has(MethodAccess::ACC_PRIVATE), "private "@)
        + text_if(a.has(MethodAccess::ACC_STATIC), "static "@)
        + text_if(a.has(MethodAccess::ACC_FINAL), "final "@)
        + text_if(a.has(MethodAccess::ACC_SYNCHRONIZED), "synchronized "@)
        + text_if(a.has(MethodAccess::ACC_NATIVE), "native "@)
        + text_if(a.has(MethodAccess::ACC_STRICT), "strictfp "@)
}

/// The modifiers of a field declaration, each followed by a space.
pub open spec fn field_access_text(a: FieldAccess) -> Seq<char> {
    text_if(a.has(FieldAccess::ACC_SYNTHETIC), "/* synthetic */ "@)
        + text_if(a.has(FieldAccess::ACC_PUBLIC), "public "@)
        + text_if(a.has(FieldAccess::ACC_PROTECTED), "protected "@)
        + text_if(a.has(FieldAccess::ACC_PRIVATE), "private "@)
        + text_if(a.has(FieldAccess::ACC_STATIC), "static "@)
        + text_if(a.has(FieldAccess::ACC_FINAL), "final "@)
        + text_if(a.has(FieldAccess::ACC_TRANSIENT), "transient "@)
        + text_if(a.has(FieldAccess::ACC_VOLATILE), "volatile "@)
}

/// Appends `s` to `target` when `b` holds.
fn append_when(target: &mut String, b: bool, s: &str)
    ensures
        final(target)@ == old(target)@ + text_if(b, s@),
{
    if b {
        target.append(s);
    } else {
        assert(target@ =~= target@ + text_if(b, s@));
    }
}

/// Appends the modifiers and keyword that open the declaration of a class
/// with flags `access`.
pub fn write_class_access(access: ClassAccess, target: &mut String)
    ensures
        final(target)@ == old(target)@ + class_access_text(access),
{
    let ghost start = target@;
    append_when(target, access.contains(ClassAccess::ACC_PUBLIC), "public ");
    if access.contains(ClassAccess::ACC_ANNOTATION) {
        target.append("@interface ");
    } else if access.contains(ClassAccess::ACC_INTERFACE) {
        target.append("interface ");
    } else if access.contains(ClassAccess::ACC_ENUM) {
        target.append("enum ");
    } else {
        append_when(target, access.contains(ClassAccess::ACC_FINAL), "final ");
        target.append("class ");
    }
    assert(target@ =~= start + class_access_text(access));
}

/// Appends the modifiers of a method with flags `access`.
pub fn write_method_access(access: MethodAccess, target: &mut String)
    ensures
        final(target)@ == old(target)@ + method_access_text(access),
{
    let ghost start = target@;
    append_when(target, access.contains(MethodAccess::ACC_SYNTHETIC), "/* synthetic */ ");
    let ghost p1 = text_if(access.has(MethodAccess::ACC_SYNTHETIC), "/* synthetic */ "@);
    assert(target@ == start + p1);
    append_when(target, access.contains(MethodAccess::ACC_BRIDGE), "/* bridge */ ");
    let ghost p2 = p1 + text_if(access.has(MethodAccess::ACC_BRIDGE), "/* bridge */ "@);
    proof {
        lemma_concat_associative(start, p1, text_if(access.has(MethodAccess::ACC_BRIDGE), "/* bridge */ "@));
    }
    assert(target@ == start + p2);
    append_when(target, access.contains(MethodAccess::ACC_PUBLIC), "public ");
    let ghost p3 = p2 + text_if(access.has(MethodAccess::ACC_PUBLIC), "public "@);
    proof {
        lemma_concat_associative(start, p2, text_if(access.has(MethodAccess::ACC_PUBLIC), "public "@));
    }
    assert(target@ == start + p3);
    append_when(target, access.contains(MethodAccess::ACC_PROTECTED), "protected ");
    let ghost p4 = p3 + text_if(access.has(MethodAccess::ACC_PROTECTED), "protected "@);
    proof {
        lemma_concat_associative(start, p3, text_if(access.has(MethodAccess::ACC_PROTECTED), "protected "@));
    }
    assert(target@ == start + p4);
    append_when(target, access.contains(MethodAccess::ACC_PRIVATE), "private ");
    let ghost p5 = p4 + text_if(access.has(MethodAccess::ACC_PRIVATE), "private "@);
    proof {
        lemma_concat_associative(start, p4, text_if(access.has(MethodAccess::ACC_PRIVATE), "private "@));
    }
    assert(target@ == start + p5);
    append_when(target, access.contains(MethodAccess::ACC_STATIC), "static ");
    let ghost p6 = p5 + text_if(access.has(MethodAccess::ACC_STATIC), "static "@);
    proof {
        lemma_concat_associative(start, p5, text_if(access.has(MethodAccess::ACC_STATIC), "static "@));
    }
    assert(target@ == start + p6);
    append_when(target, access.contains(MethodAccess::ACC_FINAL), "final ");
    let ghost p7 = p6 + text_if(access.has(MethodAccess::ACC_FINAL), "final "@);
    proof {
        lemma_concat_associative(start, p6, text_if(access.has(MethodAccess::ACC_FINAL), "final "@));
    }
    assert(target@ == start + p7);
    append_when(target, access.contains(MethodAccess::ACC_SYNCHRONIZED), "synchronized ");
    let ghost p8 = p7 + text_if(access.has(MethodAccess::ACC_SYNCHRONIZED), "synchronized "@);
    proof {
        lemma_concat_associative(start, p7, text_if(access.has(MethodAccess::ACC_SYNCHRONIZED), "synchronized "@));
    }
    assert(target@ == start + p8);
    append_when(target, access.contains(MethodAccess::ACC_NATIVE), "native ");
    let ghost p9 = p8 + text_if(access.has(MethodAccess::ACC_NATIVE), "native "@);
    proof {
        lemma_concat_associative(start, p8, text_if(access.has(MethodAccess::ACC_NATIVE), "native "@));
    }
    assert(target@ == start + p9);
    append_when(target, access.contains(MethodAccess::ACC_STRICT), "strictfp ");
    let ghost p10 = p9 + text_if(access.has(MethodAccess::ACC_STRICT), "strictfp "@);
    proof {
        lemma_concat_associative(start, p9, text_if(access.has(MethodAccess::ACC_STRICT), "strictfp "@));
    }
    assert(target@ == start + p10);

}

/// Appends the modifiers of a field with flags `access`.
pub fn write_field_access(access: FieldAccess, target: &mut String)
    ensures
        final(target)@ == old(target)@ + field_access_text(access),
{
    let ghost start = target@;
    append_when(target, access.contains(FieldAccess::ACC_SYNTHETIC), "/* synthetic */ ");
    let ghost p1 = text_if(access.has(FieldAccess::ACC_SYNTHETIC), "/* synthetic */ "@);
    assert(target@ == start + p1);
    append_when(target, access.contains(FieldAccess::ACC_PUBLIC), "public ");
    let ghost p2 = p1 + text_if(access.has(FieldAccess::ACC_PUBLIC), "public "@);
    proof {
        lemma_concat_associative(start, p1, text_if(access.has(FieldAccess::ACC_PUBLIC), "public "@));
    }
    assert(target@ == start + p2);
    append_when(target, access.contains(FieldAccess::ACC_PROTECTED), "protected ");
    let ghost p3 = p2 + text_if(access.has(FieldAccess::ACC_PROTECTED), "protected "@);
    proof {
        lemma_concat_associative(start, p2, text_if(access.has(FieldAccess::ACC_PROTECTED), "protected "@));
    }
    assert(target@ == start + p3);
    append_when(target, access.contains(FieldAccess::ACC_PRIVATE), "private ");
    let ghost p4 = p3 + text_if(access.has(FieldAccess::ACC_PRIVATE), "private "@);
    proof {
        lemma_concat_associative(start, p3, text_if(access.has(FieldAccess::ACC_PRIVATE), "private "@));
    }
    assert(target@ == start + p4);
    append_when(target, access.contains(FieldAccess::ACC_STATIC), "static ");
    let ghost p5 = p4 + text_if(access.has(FieldAccess::ACC_STATIC), "static "@);
    proof {
        lemma_concat_associative(start, p4, text_if(access.has(FieldAccess::ACC_STATIC), "static "@));
    }
    assert(target@ == start + p5);
    append_when(target, access.contains(FieldAccess::ACC_FINAL), "final ");
    let ghost p6 = p5 + text_if(access.has(FieldAccess::ACC_FINAL), "final "@);
    proof {
        lemma_concat_associative(start, p5, text_if(access.has(FieldAccess::ACC_FINAL), "final "@));
    }
    assert(target@ == start + p6);
    append_when(target, access.contains(FieldAccess::ACC_TRANSIENT), "transient ");
    let ghost p7 = p6 + text_if(access.has(FieldAccess::ACC_TRANSIENT), "transient "@);
    proof {
        lemma_concat_associative(start, p6, text_if(access.has(FieldAccess::ACC_TRANSIENT), "transient "@));
    }
    assert(target@ == start + p7);
    append_when(target, access.contains(FieldAccess::ACC_VOLATILE), "volatile ");
    let ghost p8 = p7 + text_if(access.has(FieldAccess::ACC_VOLATILE), "volatile "@);
    proof {
        lemma_concat_associative(start, p7, text_if(access.has(FieldAccess::ACC_VOLATILE), "volatile "@));
    }
    assert(target@ == start + p8);

}

/// Setting bit `f` sets it and keeps every bit disjoint from it.
proof fn lemma_set_other_bit(b: u16, f: u16, g: u16)
    requires
        f & g == 0,
    ensures
        ((b | f) & g == g) == (b & g == g),
{
    assert(f & g == 0 ==> ((b | f) & g == g) == (b & g == g)) by (bit_vector);
}

proof fn lemma_set_bit(b: u16, f: u16)
    requires
        b & f == 0,
        f != 0,
    ensures
        (b | f) & f == f,
        !(b & f == f),
{
    assert((b | f) & f == f) by (bit_vector);
}

proof fn lemma_clear_bit(b: u16, f: u16)
    requires
        b & f == 0,
        f != 0,
    ensures
        !(b & f == f),
{
}


/// The bit of the method flag that the `k`-th Java modifier of a method stands
/// for, in the order Java writes them.
pub open spec fn method_modifier_flag(k: int) -> u16 {
    if k == 0 {
        MethodAccess::ACC_SYNTHETIC
    } else if k == 1 {
        MethodAccess::ACC_BRIDGE
    } else if k == 2 {
        MethodAccess::ACC_PUBLIC
    } else if k == 3 {
        MethodAccess::ACC_PROTECTED
    } else if k == 4 {
        MethodAccess::ACC_PRIVATE
    } else if k == 5 {
        MethodAccess::ACC_STATIC
    } else if k == 6 {
        MethodAccess::ACC_FINAL
    } else if k == 7 {
        MethodAccess::ACC_SYNCHRONIZED
    } else if k == 8 {
        MethodAccess::ACC_NATIVE
    } else {
        MethodAccess::ACC_STRICT
    }
}

/// The `k`-th Java modifier of a method, followed by a space.
pub open spec fn method_modifier_word(k: int) -> Seq<char> {
    if k == 0 {
        "/* synthetic */ "@
    } else if k == 1 {
        "/* bridge */ "@
    } else if k == 2 {
        "public "@
    } else if k == 3 {
        "protected "@
    } else if k == 4 {
        "private "@
    } else if k == 5 {
        "static "@
    } else if k == 6 {
        "final "@
    } else if k == 7 {
        "synchronized "@
    } else if k == 8 {
        "native "@
    } else {
        "strictfp "@
    }
}

/// The bit of the field flag that the `k`-th Java modifier of a field stands
/// for, in the order Java writes them.
pub open spec fn field_modifier_flag(k: int) -> u16 {
    if k == 0 {
        FieldAccess::ACC_SYNTHETIC
    } else if k == 1 {
        FieldAccess::ACC_PUBLIC
    } else if k == 2 {
        FieldAccess::ACC_PROTECTED
    } else if k == 3 {
        FieldAccess::ACC_PRIVATE
    } else if k == 4 {
        FieldAccess::ACC_STATIC
    } else if k == 5 {
        FieldAccess::ACC_FINAL
    } else if k == 6 {
        FieldAccess::ACC_TRANSIENT
    } else {
        FieldAccess::ACC_VOLATILE
    }
}

/// The `k`-th Java modifier of a field, followed by a space.
pub open spec fn field_modifier_word(k: int) -> Seq<char> {
    if k == 0 {
        "/* synthetic */ "@
    } else if k == 1 {
        "public "@
    } else if k == 2 {
        "protected "@
    } else if k == 3 {
        "private "@
    } else if k == 4 {
        "static "@
    } else if k == 5 {
        "final "@
    } else if k == 6 {
        "transient "@
    } else {
        "volatile "@
    }
}

/// Setting the flag of the `k`-th modifier of a method adds exactly that
/// modifier's word to the method's modifiers, whatever the other flags are.
proof fn lemma_method_modifier_added_0(a: MethodAccess)
    requires
        a.bits & MethodAccess::ACC_SYNTHETIC == 0,
    ensures
        exists|x: Seq<char>, y: Seq<char>|
            method_access_text(a) == x + y && method_access_text(MethodAccess { bits: a.bits | MethodAccess::ACC_SYNTHETIC })
                == x + "/* synthetic */ "@ + y,
{
    let b = MethodAccess { bits: a.bits | MethodAccess::ACC_SYNTHETIC };
    assert(0x1000u16 & 0x0040u16 == 0 && 0x1000u16 & 0x0001u16 == 0 && 0x1000u16 & 0x0004u16 == 0 && 0x1000u16 & 0x0002u16 == 0 && 0x1000u16 & 0x0008u16 == 0 && 0x1000u16 & 0x0010u16 == 0 && 0x1000u16 & 0x0020u16 == 0 && 0x1000u16 & 0x0100u16 == 0 && 0x1000u16 & 0x0800u16 == 0) by (bit_vector);
    lemma_set_other_bit(a.bits, MethodAccess::ACC_SYNTHETIC, MethodAccess::ACC_BRIDGE);
    lemma_set_other_bit(a.bits, MethodAccess::ACC_SYNTHETIC, MethodAccess::ACC_PUBLIC);
    lemma_set_other_bit(a.bits, MethodAccess::ACC_SYNTHETIC, MethodAccess::ACC_PROTECTED);
    lemma_set_other_bit(a.bits, MethodAccess::ACC_SYNTHETIC, MethodAccess::ACC_PRIVATE);
    lemma_set_other_bit(a.bits, MethodAccess::ACC_SYNTHETIC, MethodAccess::ACC_STATIC);
    lemma_set_other_bit(a.bits, MethodAccess::ACC_SYNTHETIC, MethodAccess::ACC_FINAL);
    lemma_set_other_bit(a.bits, MethodAccess::ACC_SYNTHETIC, MethodAccess::ACC_SYNCHRONIZED);
    lemma_set_other_bit(a.bits, MethodAccess::ACC_SYNTHETIC, MethodAccess::ACC_NATIVE);
    lemma_set_other_bit(a.bits, MethodAccess::ACC_SYNTHETIC, MethodAccess::ACC_STRICT);
    lemma_set_bit(a.bits, MethodAccess::ACC_SYNTHETIC);
    let w = "/* synthetic */ "@;
    let x = Seq::<char>::empty();
    let y1 = text_if(a.has(MethodAccess::ACC_BRIDGE), "/* bridge */ "@);
    assert(text_if(a.has(MethodAccess::ACC_SYNTHETIC), "/* synthetic */ "@) + y1 =~= x + y1);
    let y2 = y1 + text_if(a.has(MethodAccess::ACC_PUBLIC), "public "@);
    lemma_concat_associative(x, y1, text_if(a.has(MethodAccess::ACC_PUBLIC), "public "@));
    lemma_concat_associative(w, y1, text_if(a.has(MethodAccess::ACC_PUBLIC), "public "@));
    let y3 = y2 + text_if(a.has(MethodAccess::ACC_PROTECTED), "protected "@);
    lemma_concat_associative(x, y2, text_if(a.has(MethodAccess::ACC_PROTECTED), "protected "@));
    lemma_concat_associative(w, y2, text_if(a.has(MethodAccess::ACC_PROTECTED), "protected "@));
    let y4 = y3 + text_if(a.has(MethodAccess::ACC_PRIVATE), "private "@);
    lemma_concat_associative(x, y3, text_if(a.has(MethodAccess::ACC_PRIVATE), "private "@));
    lemma_concat_associative(w, y3, text_if(a.has(MethodAccess::ACC_PRIVATE), "private "@));
    let y5 = y4 + text_if(a.has(MethodAccess::ACC_STATIC), "static "@);
    lemma_concat_associative(x, y4, text_if(a.has(MethodAccess::ACC_STATIC), "static "@));
    lemma_concat_associative(w, y4, text_if(a.has(MethodAccess::ACC_STATIC), "static "@));
    let y6 = y5 + text_if(a.has(MethodAccess::ACC_FINAL), "final "@);
    lemma_concat_associative(x, y5, text_if(a.has(MethodAccess::ACC_FINAL), "final "@));
    lemma_concat_associative(w, y5, text_if(a.has(MethodAccess::ACC_FINAL), "final "@));
    let y7 = y6 + text_if(a.has(MethodAccess::ACC_SYNCHRONIZED), "synchronized "@);
    lemma_concat_associative(x, y6, text_if(a.has(MethodAccess::ACC_SYNCHRONIZED), "synchronized "@));
    lemma_concat_associative(w, y6, text_if(a.has(MethodAccess::ACC_SYNCHRONIZED), "synchronized "@));
    let y8 = y7 + text_if(a.has(MethodAccess::ACC_NATIVE), "native "@);
    lemma_concat_associative(x, y7, text_if(a.has(MethodAccess::ACC_NATIVE), "native "@));
    lemma_concat_associative(w, y7, text_if(a.has(MethodAccess::ACC_NATIVE), "native "@));
    let y9 = y8 + text_if(a.has(MethodAccess::ACC_STRICT), "strictfp "@);
    lemma_concat_associative(x, y8, text_if(a.has(MethodAccess::ACC_STRICT), "strictfp "@));
    lemma_concat_associative(w, y8, text_if(a.has(MethodAccess::ACC_STRICT), "strictfp "@));
    assert(w + y9 =~= x + w + y9);
    assert(method_access_text(a) == x + y9);
    assert(method_access_text(b) == x + w + y9);
}

proof fn lemma_method_modifier_added_1(a: MethodAccess)
    requires
        a.bits & MethodAccess::ACC_BRIDGE == 0,
    ensures
        exists|x: Seq<char>, y: Seq<char>|
            method_access_text(a) == x + y && method_access_text(MethodAccess { bits: a.bits | MethodAccess::ACC_BRIDGE })
                == x + "/* bridge */ "@ + y,
{
    let b = MethodAccess { bits: a.bits | MethodAccess::ACC_BRIDGE };
    assert(0x0040u16 & 0x1000u16 == 0 && 0x0040u16 & 0x0001u16 == 0 && 0x0040u16 & 0x0004u16 == 0 && 0x0040u16 & 0x0002u16 == 0 && 0x0040u16 & 0x0008u16 == 0 && 0x0040u16 & 0x0010u16 == 0 && 0x0040u16 & 0x0020u16 == 0 && 0x0040u16 & 0x0100u16 == 0 && 0x0040u16 & 0x0800u16 == 0) by (bit_vector);
    lemma_set_other_bit(a.bits, MethodAccess::ACC_BRIDGE, MethodAccess::ACC_SYNTHETIC);
    lemma_set_other_bit(a.bits, MethodAccess::ACC_BRIDGE, MethodAccess::ACC_PUBLIC);
    lemma_set_other_bit(a.bits, MethodAccess::ACC_BRIDGE, MethodAccess::ACC_PROTECTED);
    lemma_set_other_bit(a.bits, MethodAccess::ACC_BRIDGE, MethodAccess::ACC_PRIVATE);
    lemma_set_other_bit(a.bits, MethodAccess::ACC_BRIDGE, MethodAccess::ACC_STATIC);
    lemma_set_other_bit(a.bits, MethodAccess::ACC_BRIDGE, MethodAccess::ACC_FINAL);
    lemma_set_other_bit(a.bits, MethodAccess::ACC_BRIDGE, MethodAccess::ACC_SYNCHRONIZED);
    lemma_set_other_bit(a.bits, MethodAccess::ACC_BRIDGE, MethodAccess::ACC_NATIVE);
    lemma_set_other_bit(a.bits, MethodAccess::ACC_BRIDGE, MethodAccess::ACC_STRICT);
    lemma_set_bit(a.bits, MethodAccess::ACC_BRIDGE);
    let w = "/* bridge */ "@;
    let x = text_if(a.has(MethodAccess::ACC_SYNTHETIC), "/* synthetic */ "@);
    assert(x + Seq::<char>::empty() =~= x);
    let y2 = text_if(a.has(MethodAccess::ACC_PUBLIC), "public "@);
    let y3 = y2 + text_if(a.has(MethodAccess::ACC_PROTECTED), "protected "@);
    lemma_concat_associative(x, y2, text_if(a.has(MethodAccess::ACC_PROTECTED), "protected "@));
    lemma_concat_associative(x + w, y2, text_if(a.has(MethodAccess::ACC_PROTECTED), "protected "@));
    let y4 = y3 + text_if(a.has(MethodAccess::ACC_PRIVATE), "private "@);
    lemma_concat_associative(x, y3, text_if(a.has(MethodAccess::ACC_PRIVATE), "private "@));
    lemma_concat_associative(x + w, y3, text_if(a.has(MethodAccess::ACC_PRIVATE), "private "@));
    let y5 = y4 + text_if(a.has(MethodAccess::ACC_STATIC), "static "@);
    lemma_concat_associative(x, y4, text_if(a.has(MethodAccess::ACC_STATIC), "static "@));
    lemma_concat_associative(x + w, y4, text_if(a.has(MethodAccess::ACC_STATIC), "static "@));
    let y6 = y5 + text_if(a.has(MethodAccess::ACC_FINAL), "final "@);
    lemma_concat_associative(x, y5, text_if(a.has(MethodAccess::ACC_FINAL), "final "@));
    lemma_concat_associative(x + w, y5, text_if(a.has(MethodAccess::ACC_FINAL), "final "@));
    let y7 = y6 + text_if(a.has(MethodAccess::ACC_SYNCHRONIZED), "synchronized "@);
    lemma_concat_associative(x, y6, text_if(a.has(MethodAccess::ACC_SYNCHRONIZED), "synchronized "@));
    lemma_concat_associative(x + w, y6, text_if(a.has(MethodAccess::ACC_SYNCHRONIZED), "synchronized "@));
    let y8 = y7 + text_if(a.has(MethodAccess::ACC_NATIVE), "native "@);
    lemma_concat_associative(x, y7, text_if(a.has(MethodAccess::ACC_NATIVE), "native "@));
    lemma_concat_associative(x + w, y7, text_if(a.has(MethodAccess::ACC_NATIVE), "native "@));
    let y9 = y8 + text_if(a.has(MethodAccess::ACC_STRICT), "strictfp "@);
    lemma_concat_associative(x, y8, text_if(a.has(MethodAccess::ACC_STRICT), "strictfp "@));
    lemma_concat_associative(x + w, y8, text_if(a.has(MethodAccess::ACC_STRICT), "strictfp "@));
    assert(method_access_text(a) == x + y9);
    assert(method_access_text(b) == x + w + y9);
}

proof fn lemma_method_modifier_added_2(a: MethodAccess)
    requires
        a.bits & MethodAccess::ACC_PUBLIC == 0,
    ensures
        exists|x: Seq<char>, y: Seq<char>|
            method_access_text(a) == x + y && method_access_text(MethodAccess { bits: a.bits | MethodAccess::ACC_PUBLIC })
                == x + "public "@ + y,
{
    let b = MethodAccess { bits: a.bits | MethodAccess::ACC_PUBLIC };
    assert(0x0001u16 & 0x1000u16 == 0 && 0x0001u16 & 0x0040u16 == 0 && 0x0001u16 & 0x0004u16 == 0 && 0x0001u16 & 0x0002u16 == 0 && 0x0001u16 & 0x0008u16 == 0 && 0x0001u16 & 0x0010u16 == 0 && 0x0001u16 & 0x0020u16 == 0 && 0x0001u16 & 0x0100u16 == 0 && 0x0001u16 & 0x0800u16 == 0) by (bit_vector);
    lemma_set_other_bit(a.bits, MethodAccess::ACC_PUBLIC, MethodAccess::ACC_SYNTHETIC);
    lemma_set_other_bit(a.bits, MethodAccess::ACC_PUBLIC, MethodAccess::ACC_BRIDGE);
    lemma_set_other_bit(a.bits, MethodAccess::ACC_PUBLIC, MethodAccess::ACC_PROTECTED);
    lemma_set_other_bit(a.bits, MethodAccess::ACC_PUBLIC, MethodAccess::ACC_PRIVATE);
    lemma_set_other_bit(a.bits, MethodAccess::ACC_PUBLIC, MethodAccess::ACC_STATIC);
    lemma_set_other_bit(a.bits, MethodAccess::ACC_PUBLIC, MethodAccess::ACC_FINAL);
    lemma_set_other_bit(a.bits, MethodAccess::ACC_PUBLIC, MethodAccess::ACC_SYNCHRONIZED);
    lemma_set_other_bit(a.bits, MethodAccess::ACC_PUBLIC, MethodAccess::ACC_NATIVE);
    lemma_set_other_bit(a.bits, MethodAccess::ACC_PUBLIC, MethodAccess::ACC_STRICT);
    lemma_set_bit(a.bits, MethodAccess::ACC_PUBLIC);
    let w = "public "@;
    let x = text_if(a.has(MethodAccess::ACC_SYNTHETIC), "/* synthetic */ "@) + text_if(a.has(MethodAccess::ACC_BRIDGE), "/* bridge */ "@);
    assert(x + Seq::<char>::empty() =~= x);
    let y3 = text_if(a.has(MethodAccess::ACC_PROTECTED), "protected "@);
    let y4 = y3 + text_if(a.has(MethodAccess::ACC_PRIVATE), "private "@);
    lemma_concat_associative(x, y3, text_if(a.has(MethodAccess::ACC_PRIVATE), "private "@));
    lemma_concat_associative(x + w, y3, text_if(a.has(MethodAccess::ACC_PRIVATE), "private "@));
    let y5 = y4 + text_if(a.has(MethodAccess::ACC_STATIC), "static "@);
    lemma_concat_associative(x, y4, text_if(a.has(MethodAccess::ACC_STATIC), "static "@));
    lemma_concat_associative(x + w, y4, text_if(a.has(MethodAccess::ACC_STATIC), "static "@));
    let y6 = y5 + text_if(a.has(MethodAccess::ACC_FINAL), "final "@);
    lemma_concat_associative(x, y5, text_if(a.has(MethodAccess::ACC_FINAL), "final "@));
    lemma_concat_associative(x + w, y5, text_if(a.has(MethodAccess::ACC_FINAL), "final "@));
    let y7 = y6 + text_if(a.has(MethodAccess::ACC_SYNCHRONIZED), "synchronized "@);
    lemma_concat_associative(x, y6, text_if(a.has(MethodAccess::ACC_SYNCHRONIZED), "synchronized "@));
    lemma_concat_associative(x + w, y6, text_if(a.has(MethodAccess::ACC_SYNCHRONIZED), "synchronized "@));
    let y8 = y7 + text_if(a.has(MethodAccess::ACC_NATIVE), "native "@);
    lemma_concat_associative(x, y7, text_if(a.has(MethodAccess::ACC_NATIVE), "native "@));
    lemma_concat_associative(x + w, y7, text_if(a.has(MethodAccess::ACC_NATIVE), "native "@));
    let y9 = y8 + text_if(a.has(MethodAccess::ACC_STRICT), "strictfp "@);
    lemma_concat_associative(x, y8, text_if(a.has(MethodAccess::ACC_STRICT), "strictfp "@));
    lemma_concat_associative(x + w, y8, text_if(a.has(MethodAccess::ACC_STRICT), "strictfp "@));
    assert(method_access_text(a) == x + y9);
    assert(method_access_text(b) == x + w + y9);
}

proof fn lemma_method_modifier_added_3(a: MethodAccess)
    requires
        a.bits & MethodAccess::ACC_PROTECTED == 0,
    ensures
        exists|x: Seq<char>, y: Seq<char>|
            method_access_text(a) == x + y && method_access_text(MethodAccess { bits: a.bits | MethodAccess::ACC_PROTECTED })
                == x + "protected "@ + y,
{
    let b = MethodAccess { bits: a.bits | MethodAccess::ACC_PROTECTED };
    assert(0x0004u16 & 0x1000u16 == 0 && 0x0004u16 & 0x0040u16 == 0 && 0x0004u16 & 0x0001u16 == 0 && 0x0004u16 & 0x0002u16 == 0 && 0x0004u16 & 0x0008u16 == 0 && 0x0004u16 & 0x0010u16 == 0 && 0x0004u16 & 0x0020u16 == 0 && 0x0004u16 & 0x0100u16 == 0 && 0x0004u16 & 0x0800u16 == 0) by (bit_vector);
    lemma_set_other_bit(a.bits, MethodAccess::ACC_PROTECTED, MethodAccess::ACC_SYNTHETIC);
    lemma_set_other_bit(a.bits, MethodAccess::ACC_PROTECTED, MethodAccess::ACC_BRIDGE);
    lemma_set_other_bit(a.bits, MethodAccess::ACC_PROTECTED, MethodAccess::ACC_PUBLIC);
    lemma_set_other_bit(a.bits, MethodAccess::ACC_PROTECTED, MethodAccess::ACC_PRIVATE);
    lemma_set_other_bit(a.bits, MethodAccess::ACC_PROTECTED, MethodAccess::ACC_STATIC);
    lemma_set_other_bit(a.bits, MethodAccess::ACC_PROTECTED, MethodAccess::ACC_FINAL);
    lemma_set_other_bit(a.bits, MethodAccess::ACC_PROTECTED, MethodAccess::ACC_SYNCHRONIZED);
    lemma_set_other_bit(a.bits, MethodAccess::ACC_PROTECTED, MethodAccess::ACC_NATIVE);
    lemma_set_other_bit(a.bits, MethodAccess::ACC_PROTECTED, MethodAccess::ACC_STRICT);
    lemma_set_bit(a.bits, MethodAccess::ACC_PROTECTED);
    let w = "protected "@;
    let x = text_if(a.has(MethodAccess::ACC_SYNTHETIC), "/* synthetic */ "@) + text_if(a.has(MethodAccess::ACC_BRIDGE), "/* bridge */ "@) + text_if(a.has(MethodAccess::ACC_PUBLIC), "public "@);
    assert(x + Seq::<char>::empty() =~= x);
    let y4 = text_if(a.has(MethodAccess::ACC_PRIVATE), "private "@);
    let y5 = y4 + text_if(a.has(MethodAccess::ACC_STATIC), "static "@);
    lemma_concat_associative(x, y4, text_if(a.has(MethodAccess::ACC_STATIC), "static "@));
    lemma_concat_associative(x + w, y4, text_if(a.has(MethodAccess::ACC_STATIC), "static "@));
    let y6 = y5 + text_if(a.has(MethodAccess::ACC_FINAL), "final "@);
    lemma_concat_associative(x, y5, text_if(a.has(MethodAccess::ACC_FINAL), "final "@));
    lemma_concat_associative(x + w, y5, text_if(a.has(MethodAccess::ACC_FINAL), "final "@));
    let y7 = y6 + text_if(a.has(MethodAccess::ACC_SYNCHRONIZED), "synchronized "@);
    lemma_concat_associative(x, y6, text_if(a.has(MethodAccess::ACC_SYNCHRONIZED), "synchronized "@));
    lemma_concat_associative(x + w, y6, text_if(a.has(MethodAccess::ACC_SYNCHRONIZED), "synchronized "@));
    let y8 = y7 + text_if(a.has(MethodAccess::ACC_NATIVE), "native "@);
    lemma_concat_associative(x, y7, text_if(a.has(MethodAccess::ACC_NATIVE), "native "@));
    lemma_concat_associative(x + w, y7, text_if(a.has(MethodAccess::ACC_NATIVE), "native "@));
    let y9 = y8 + text_if(a.has(MethodAccess::ACC_STRICT), "strictfp "@);
    lemma_concat_associative(x, y8, text_if(a.has(MethodAccess::ACC_STRICT), "strictfp "@));
    lemma_concat_associative(x + w, y8, text_if(a.has(MethodAccess::ACC_STRICT), "strictfp "@));
    assert(method_access_text(a) == x + y9);
    assert(method_access_text(b) == x + w + y9);
}

proof fn lemma_method_modifier_added_4(a: MethodAccess)
    requires
        a.bits & MethodAccess::ACC_PRIVATE == 0,
    ensures
        exists|x: Seq<char>, y: Seq<char>|
            method_access_text(a) == x + y && method_access_text(MethodAccess { bits: a.bits | MethodAccess::ACC_PRIVATE })
                == x + "private "@ + y,
{
    let b = MethodAccess { bits: a.bits | MethodAccess::ACC_PRIVATE };
    assert(0x0002u16 & 0x1000u16 == 0 && 0x0002u16 & 0x0040u16 == 0 && 0x0002u16 & 0x0001u16 == 0 && 0x0002u16 & 0x0004u16 == 0 && 0x0002u16 & 0x0008u16 == 0 && 0x0002u16 & 0x0010u16 == 0 && 0x0002u16 & 0x0020u16 == 0 && 0x0002u16 & 0x0100u16 == 0 && 0x0002u16 & 0x0800u16 == 0) by (bit_vector);
    lemma_set_other_bit(a.bits, MethodAccess::ACC_PRIVATE, MethodAccess::ACC_SYNTHETIC);
    lemma_set_other_bit(a.bits, MethodAccess::ACC_PRIVATE, MethodAccess::ACC_BRIDGE);
    lemma_set_other_bit(a.bits, MethodAccess::ACC_PRIVATE, MethodAccess::ACC_PUBLIC);
    lemma_set_other_bit(a.bits, MethodAccess::ACC_PRIVATE, MethodAccess::ACC_PROTECTED);
    lemma_set_other_bit(a.bits, MethodAccess::ACC_PRIVATE, MethodAccess::ACC_STATIC);
    lemma_set_other_bit(a.bits, MethodAccess::ACC_PRIVATE, MethodAccess::ACC_FINAL);
    lemma_set_other_bit(a.bits, MethodAccess::ACC_PRIVATE, MethodAccess::ACC_SYNCHRONIZED);
    lemma_set_other_bit(a.bits, MethodAccess::ACC_PRIVATE, MethodAccess::ACC_NATIVE);
    lemma_set_other_bit(a.bits, MethodAccess::ACC_PRIVATE, MethodAccess::ACC_STRICT);
    lemma_set_bit(a.bits, MethodAccess::ACC_PRIVATE);
    let w = "private "@;
    let x = text_if(a.has(MethodAccess::ACC_SYNTHETIC), "/* synthetic */ "@) + text_if(a.has(MethodAccess::ACC_BRIDGE), "/* bridge */ "@) + text_if(a.has(MethodAccess::ACC_PUBLIC), "public "@) + text_if(a.has(MethodAccess::ACC_PROTECTED), "protected "@);
    assert(x + Seq::<char>::empty() =~= x);
    let y5 = text_if(a.has(MethodAccess::ACC_STATIC), "static "@);
    let y6 = y5 + text_if(a.has(MethodAccess::ACC_FINAL), "final "@);
    lemma_concat_associative(x, y5, text_if(a.has(MethodAccess::ACC_FINAL), "final "@));
    lemma_concat_associative(x + w, y5, text_if(a.has(MethodAccess::ACC_FINAL), "final "@));
    let y7 = y6 + text_if(a.has(MethodAccess::ACC_SYNCHRONIZED), "synchronized "@);
    lemma_concat_associative(x, y6, text_if(a.has(MethodAccess::ACC_SYNCHRONIZED), "synchronized "@));
    lemma_concat_associative(x + w, y6, text_if(a.has(MethodAccess::ACC_SYNCHRONIZED), "synchronized "@));
    let y8 = y7 + text_if(a.has(MethodAccess::ACC_NATIVE), "native "@);
    lemma_concat_associative(x, y7, text_if(a.has(MethodAccess::ACC_NATIVE), "native "@));
    lemma_concat_associative(x + w, y7, text_if(a.has(MethodAccess::ACC_NATIVE), "native "@));
    let y9 = y8 + text_if(a.has(MethodAccess::ACC_STRICT), "strictfp "@);
    lemma_concat_associative(x, y8, text_if(a.has(MethodAccess::ACC_STRICT), "strictfp "@));
    lemma_concat_associative(x + w, y8, text_if(a.has(MethodAccess::ACC_STRICT), "strictfp "@));
    assert(method_access_text(a) == x + y9);
    assert(method_access_text(b) == x + w + y9);
}

proof fn lemma_method_modifier_added_5(a: MethodAccess)
    requires
        a.bits & MethodAccess::ACC_STATIC == 0,
    ensures
        exists|x: Seq<char>, y: Seq<char>|
            method_access_text(a) == x + y && method_access_text(MethodAccess { bits: a.bits | MethodAccess::ACC_STATIC })
                == x + "static "@ + y,
{
    let b = MethodAccess { bits: a.bits | MethodAccess::ACC_STATIC };
    assert(0x0008u16 & 0x1000u16 == 0 && 0x0008u16 & 0x0040u16 == 0 && 0x0008u16 & 0x0001u16 == 0 && 0x0008u16 & 0x0004u16 == 0 && 0x0008u16 & 0x0002u16 == 0 && 0x0008u16 & 0x0010u16 == 0 && 0x0008u16 & 0x0020u16 == 0 && 0x0008u16 & 0x0100u16 == 0 && 0x0008u16 & 0x0800u16 == 0) by (bit_vector);
    lemma_set_other_bit(a.bits, MethodAccess::ACC_STATIC, MethodAccess::ACC_SYNTHETIC);
    lemma_set_other_bit(a.bits, MethodAccess::ACC_STATIC, MethodAccess::ACC_BRIDGE);
    lemma_set_other_bit(a.bits, MethodAccess::ACC_STATIC, MethodAccess::ACC_PUBLIC);
    lemma_set_other_bit(a.bits, MethodAccess::ACC_STATIC, MethodAccess::ACC_PROTECTED);
    lemma_set_other_bit(a.bits, MethodAccess::ACC_STATIC, MethodAccess::ACC_PRIVATE);
    lemma_set_other_bit(a.bits, MethodAccess::ACC_STATIC, MethodAccess::ACC_FINAL);
    lemma_set_other_bit(a.bits, MethodAccess::ACC_STATIC, MethodAccess::ACC_SYNCHRONIZED);
    lemma_set_other_bit(a.bits, MethodAccess::ACC_STATIC, MethodAccess::ACC_NATIVE);
    lemma_set_other_bit(a.bits, MethodAccess::ACC_STATIC, MethodAccess::ACC_STRICT);
    lemma_set_bit(a.bits, MethodAccess::ACC_STATIC);
    let w = "static "@;
    let x = text_if(a.has(MethodAccess::ACC_SYNTHETIC), "/* synthetic */ "@) + text_if(a.has(MethodAccess::ACC_BRIDGE), "/* bridge */ "@) + text_if(a.has(MethodAccess::ACC_PUBLIC), "public "@) + text_if(a.has(MethodAccess::ACC_PROTECTED), "protected "@) + text_if(a.has(MethodAccess::ACC_PRIVATE), "private "@);
    assert(x + Seq::<char>::empty() =~= x);
    let y6 = text_if(a.has(MethodAccess::ACC_FINAL), "final "@);
    let y7 = y6 + text_if(a.has(MethodAccess::ACC_SYNCHRONIZED), "synchronized "@);
    lemma_concat_associative(x, y6, text_if(a.has(MethodAccess::ACC_SYNCHRONIZED), "synchronized "@));
    lemma_concat_associative(x + w, y6, text_if(a.has(MethodAccess::ACC_SYNCHRONIZED), "synchronized "@));
    let y8 = y7 + text_if(a.has(MethodAccess::ACC_NATIVE), "native "@);
    lemma_concat_associative(x, y7, text_if(a.has(MethodAccess::ACC_NATIVE), "native "@));
    lemma_concat_associative(x + w, y7, text_if(a.has(MethodAccess::ACC_NATIVE), "native "@));
    let y9 = y8 + text_if(a.has(MethodAccess::ACC_STRICT), "strictfp "@);
    lemma_concat_associative(x, y8, text_if(a.has(MethodAccess::ACC_STRICT), "strictfp "@));
    lemma_concat_associative(x + w, y8, text_if(a.has(MethodAccess::ACC_STRICT), "strictfp "@));
    assert(method_access_text(a) == x + y9);
    assert(method_access_text(b) == x + w + y9);
}

proof fn lemma_method_modifier_added_6(a: MethodAccess)
    requires
        a.bits & MethodAccess::ACC_FINAL == 0,
    ensures
        exists|x: Seq<char>, y: Seq<char>|
            method_access_text(a) == x + y && method_access_text(MethodAccess { bits: a.bits | MethodAccess::ACC_FINAL })
                == x + "final "@ + y,
{
    let b = MethodAccess { bits: a.bits | MethodAccess::ACC_FINAL };
    assert(0x0010u16 & 0x1000u16 == 0 && 0x0010u16 & 0x0040u16 == 0 && 0x0010u16 & 0x0001u16 == 0 && 0x0010u16 & 0x0004u16 == 0 && 0x0010u16 & 0x0002u16 == 0 && 0x0010u16 & 0x0008u16 == 0 && 0x0010u16 & 0x0020u16 == 0 && 0x0010u16 & 0x0100u16 == 0 && 0x0010u16 & 0x0800u16 == 0) by (bit_vector);
    lemma_set_other_bit(a.bits, MethodAccess::ACC_FINAL, MethodAccess::ACC_SYNTHETIC);
    lemma_set_other_bit(a.bits, MethodAccess::ACC_FINAL, MethodAccess::ACC_BRIDGE);
    lemma_set_other_bit(a.bits, MethodAccess::ACC_FINAL, MethodAccess::ACC_PUBLIC);
    lemma_set_other_bit(a.bits, MethodAccess::ACC_FINAL, MethodAccess::ACC_PROTECTED);
    lemma_set_other_bit(a.bits, MethodAccess::ACC_FINAL, MethodAccess::ACC_PRIVATE);
    lemma_set_other_bit(a.bits, MethodAccess::ACC_FINAL, MethodAccess::ACC_STATIC);
    lemma_set_other_bit(a.bits, MethodAccess::ACC_FINAL, MethodAccess::ACC_SYNCHRONIZED);
    lemma_set_other_bit(a.bits, MethodAccess::ACC_FINAL, MethodAccess::ACC_NATIVE);
    lemma_set_other_bit(a.bits, MethodAccess::ACC_FINAL, MethodAccess::ACC_STRICT);
    lemma_set_bit(a.bits, MethodAccess::ACC_FINAL);
    let w = "final "@;
    let x = text_if(a.has(MethodAccess::ACC_SYNTHETIC), "/* synthetic */ "@) + text_if(a.has(MethodAccess::ACC_BRIDGE), "/* bridge */ "@) + text_if(a.has(MethodAccess::ACC_PUBLIC), "public "@) + text_if(a.has(MethodAccess::ACC_PROTECTED), "protected "@) + text_if(a.has(MethodAccess::ACC_PRIVATE), "private "@) + text_if(a.has(MethodAccess::ACC_STATIC), "static "@);
    assert(x + Seq::<char>::empty() =~= x);
    let y7 = text_if(a.has(MethodAccess::ACC_SYNCHRONIZED), "synchronized "@);
    let y8 = y7 + text_if(a.has(MethodAccess::ACC_NATIVE), "native "@);
    lemma_concat_associative(x, y7, text_if(a.has(MethodAccess::ACC_NATIVE), "native "@));
    lemma_concat_associative(x + w, y7, text_if(a.has(MethodAccess::ACC_NATIVE), "native "@));
    let y9 = y8 + text_if(a.has(MethodAccess::ACC_STRICT), "strictfp "@);
    lemma_concat_associative(x, y8, text_if(a.has(MethodAccess::ACC_STRICT), "strictfp "@));
    lemma_concat_associative(x + w, y8, text_if(a.has(MethodAccess::ACC_STRICT), "strictfp "@));
    assert(method_access_text(a) == x + y9);
    assert(method_access_text(b) == x + w + y9);
}

proof fn lemma_method_modifier_added_7(a: MethodAccess)
    requires
        a.bits & MethodAccess::ACC_SYNCHRONIZED == 0,
    ensures
        exists|x: Seq<char>, y: Seq<char>|
            method_access_text(a) == x + y && method_access_text(MethodAccess { bits: a.bits | MethodAccess::ACC_SYNCHRONIZED })
                == x + "synchronized "@ + y,
{
    let b = MethodAccess { bits: a.bits | MethodAccess::ACC_SYNCHRONIZED };
    assert(0x0020u16 & 0x1000u16 == 0 && 0x0020u16 & 0x0040u16 == 0 && 0x0020u16 & 0x0001u16 == 0 && 0x0020u16 & 0x0004u16 == 0 && 0x0020u16 & 0x0002u16 == 0 && 0x0020u16 & 0x0008u16 == 0 && 0x0020u16 & 0x0010u16 == 0 && 0x0020u16 & 0x0100u16 == 0 && 0x0020u16 & 0x0800u16 == 0) by (bit_vector);
    lemma_set_other_bit(a.bits, MethodAccess::ACC_SYNCHRONIZED, MethodAccess::ACC_SYNTHETIC);
    lemma_set_other_bit(a.bits, MethodAccess::ACC_SYNCHRONIZED, MethodAccess::ACC_BRIDGE);
    lemma_set_other_bit(a.bits, MethodAccess::ACC_SYNCHRONIZED, MethodAccess::ACC_PUBLIC);
    lemma_set_other_bit(a.bits, MethodAccess::ACC_SYNCHRONIZED, MethodAccess::ACC_PROTECTED);
    lemma_set_other_bit(a.bits, MethodAccess::ACC_SYNCHRONIZED, MethodAccess::ACC_PRIVATE);
    lemma_set_other_bit(a.bits, MethodAccess::ACC_SYNCHRONIZED, MethodAccess::ACC_STATIC);
    lemma_set_other_bit(a.bits, MethodAccess::ACC_SYNCHRONIZED, MethodAccess::ACC_FINAL);
    lemma_set_other_bit(a.bits, MethodAccess::ACC_SYNCHRONIZED, MethodAccess::ACC_NATIVE);
    lemma_set_other_bit(a.bits, MethodAccess::ACC_SYNCHRONIZED, MethodAccess::ACC_STRICT);
    lemma_set_bit(a.bits, MethodAccess::ACC_SYNCHRONIZED);
    let w = "synchronized "@;
    let x = text_if(a.has(MethodAccess::ACC_SYNTHETIC), "/* synthetic */ "@) + text_if(a.has(MethodAccess::ACC_BRIDGE), "/* bridge */ "@) + text_if(a.has(MethodAccess::ACC_PUBLIC), "public "@) + text_if(a.has(MethodAccess::ACC_PROTECTED), "protected "@) + text_if(a.has(MethodAccess::ACC_PRIVATE), "private "@) + text_if(a.has(MethodAccess::ACC_STATIC), "static "@) + text_if(a.has(MethodAccess::ACC_FINAL), "final "@);
    assert(x + Seq::<char>::empty() =~= x);
    let y8 = text_if(a.has(MethodAccess::ACC_NATIVE), "native "@);
    let y9 = y8 + text_if(a.has(MethodAccess::ACC_STRICT), "strictfp "@);
    lemma_concat_associative(x, y8, text_if(a.has(MethodAccess::ACC_STRICT), "strictfp "@));
    lemma_concat_associative(x + w, y8, text_if(a.has(MethodAccess::ACC_STRICT), "strictfp "@));
    assert(method_access_text(a) == x + y9);
    assert(method_access_text(b) == x + w + y9);
}

proof fn lemma_method_modifier_added_8(a: MethodAccess)
    requires
        a.bits & MethodAccess::ACC_NATIVE == 0,
    ensures
        exists|x: Seq<char>, y: Seq<char>|
            method_access_text(a) == x + y && method_access_text(MethodAccess { bits: a.bits | MethodAccess::ACC_NATIVE })
                == x + "native "@ + y,
{
    let b = MethodAccess { bits: a.bits | MethodAccess::ACC_NATIVE };
    assert(0x0100u16 & 0x1000u16 == 0 && 0x0100u16 & 0x0040u16 == 0 && 0x0100u16 & 0x0001u16 == 0 && 0x0100u16 & 0x0004u16 == 0 && 0x0100u16 & 0x0002u16 == 0 && 0x0100u16 & 0x0008u16 == 0 && 0x0100u16 & 0x0010u16 == 0 && 0x0100u16 & 0x0020u16 == 0 && 0x0100u16 & 0x0800u16 == 0) by (bit_vector);
    lemma_set_other_bit(a.bits, MethodAccess::ACC_NATIVE, MethodAccess::ACC_SYNTHETIC);
    lemma_set_other_bit(a.bits, MethodAccess::ACC_NATIVE, MethodAccess::ACC_BRIDGE);
    lemma_set_other_bit(a.bits, MethodAccess::ACC_NATIVE, MethodAccess::ACC_PUBLIC);
    lemma_set_other_bit(a.bits, MethodAccess::ACC_NATIVE, MethodAccess::ACC_PROTECTED);
    lemma_set_other_bit(a.bits, MethodAccess::ACC_NATIVE, MethodAccess::ACC_PRIVATE);
    lemma_set_other_bit(a.bits, MethodAccess::ACC_NATIVE, MethodAccess::ACC_STATIC);
    lemma_set_other_bit(a.bits, MethodAccess::ACC_NATIVE, MethodAccess::ACC_FINAL);
    lemma_set_other_bit(a.bits, MethodAccess::ACC_NATIVE, MethodAccess::ACC_SYNCHRONIZED);
    lemma_set_other_bit(a.bits, MethodAccess::ACC_NATIVE, MethodAccess::ACC_STRICT);
    lemma_set_bit(a.bits, MethodAccess::ACC_NATIVE);
    let w = "native "@;
    let x = text_if(a.has(MethodAccess::ACC_SYNTHETIC), "/* synthetic */ "@) + text_if(a.has(MethodAccess::ACC_BRIDGE), "/* bridge */ "@) + text_if(a.has(MethodAccess::ACC_PUBLIC), "public "@) + text_if(a.has(MethodAccess::ACC_PROTECTED), "protected "@) + text_if(a.has(MethodAccess::ACC_PRIVATE), "private "@) + text_if(a.has(MethodAccess::ACC_STATIC), "static "@) + text_if(a.has(MethodAccess::ACC_FINAL), "final "@) + text_if(a.has(MethodAccess::ACC_SYNCHRONIZED), "synchronized "@);
    assert(x + Seq::<char>::empty() =~= x);
    let y9 = text_if(a.has(MethodAccess::ACC_STRICT), "strictfp "@);
    assert(method_access_text(a) == x + y9);
    assert(method_access_text(b) == x + w + y9);
}

proof fn lemma_method_modifier_added_9(a: MethodAccess)
    requires
        a.bits & MethodAccess::ACC_STRICT == 0,
    ensures
        exists|x: Seq<char>, y: Seq<char>|
            method_access_text(a) == x + y && method_access_text(MethodAccess { bits: a.bits | MethodAccess::ACC_STRICT })
                == x + "strictfp "@ + y,
{
    let b = MethodAccess { bits: a.bits | MethodAccess::ACC_STRICT };
    assert(0x0800u16 & 0x1000u16 == 0 && 0x0800u16 & 0x0040u16 == 0 && 0x0800u16 & 0x0001u16 == 0 && 0x0800u16 & 0x0004u16 == 0 && 0x0800u16 & 0x0002u16 == 0 && 0x0800u16 & 0x0008u16 == 0 && 0x0800u16 & 0x0010u16 == 0 && 0x0800u16 & 0x0020u16 == 0 && 0x0800u16 & 0x0100u16 == 0) by (bit_vector);
    lemma_set_other_bit(a.bits, MethodAccess::ACC_STRICT, MethodAccess::ACC_SYNTHETIC);
    lemma_set_other_bit(a.bits, MethodAccess::ACC_STRICT, MethodAccess::ACC_BRIDGE);
    lemma_set_other_bit(a.bits, MethodAccess::ACC_STRICT, MethodAccess::ACC_PUBLIC);
    lemma_set_other_bit(a.bits, MethodAccess::ACC_STRICT, MethodAccess::ACC_PROTECTED);
    lemma_set_other_bit(a.bits, MethodAccess::ACC_STRICT, MethodAccess::ACC_PRIVATE);
    lemma_set_other_bit(a.bits, MethodAccess::ACC_STRICT, MethodAccess::ACC_STATIC);
    lemma_set_other_bit(a.bits, MethodAccess::ACC_STRICT, MethodAccess::ACC_FINAL);
    lemma_set_other_bit(a.bits, MethodAccess::ACC_STRICT, MethodAccess::ACC_SYNCHRONIZED);
    lemma_set_other_bit(a.bits, MethodAccess::ACC_STRICT, MethodAccess::ACC_NATIVE);
    lemma_set_bit(a.bits, MethodAccess::ACC_STRICT);
    let w = "strictfp "@;
    let x = text_if(a.has(MethodAccess::ACC_SYNTHETIC), "/* synthetic */ "@) + text_if(a.has(MethodAccess::ACC_BRIDGE), "/* bridge */ "@) + text_if(a.has(MethodAccess::ACC_PUBLIC), "public "@) + text_if(a.has(MethodAccess::ACC_PROTECTED), "protected "@) + text_if(a.has(MethodAccess::ACC_PRIVATE), "private "@) + text_if(a.has(MethodAccess::ACC_STATIC), "static "@) + text_if(a.has(MethodAccess::ACC_FINAL), "final "@) + text_if(a.has(MethodAccess::ACC_SYNCHRONIZED), "synchronized "@) + text_if(a.has(MethodAccess::ACC_NATIVE), "native "@);
    assert(x + Seq::<char>::empty() =~= x);
    assert(method_access_text(a) == x + Seq::<char>::empty());
    assert(x + w =~= x + w + Seq::<char>::empty());
    assert(method_access_text(b) == x + w + Seq::<char>::empty());
}

/// Setting the flag of the `k`-th modifier of a method adds exactly that
/// modifier's word to the method's modifiers, whatever the other flags are.
pub proof fn law_method_modifier_added(a: MethodAccess, k: int)
    requires
        0 <= k < 10,
        a.bits & method_modifier_flag(k) == 0,
    ensures
        exists|x: Seq<char>, y: Seq<char>|
            method_access_text(a) == x + y && method_access_text(MethodAccess { bits: a.bits | method_modifier_flag(k) })
                == x + method_modifier_word(k) + y,
{
    if k == 0 {
        lemma_method_modifier_added_0(a);
        let (x, y) = choose|x: Seq<char>, y: Seq<char>|
            method_access_text(a) == x + y && method_access_text(MethodAccess { bits: a.bits | MethodAccess::ACC_SYNTHETIC }) == x + "/* synthetic */ "@ + y;
        assert(method_access_text(a) == x + y && method_access_text(MethodAccess { bits: a.bits | method_modifier_flag(k) })
            == x + method_modifier_word(k) + y);
    } else if k == 1 {
        lemma_method_modifier_added_1(a);
        let (x, y) = choose|x: Seq<char>, y: Seq<char>|
            method_access_text(a) == x + y && method_access_text(MethodAccess { bits: a.bits | MethodAccess::ACC_BRIDGE }) == x + "/* bridge */ "@ + y;
        assert(method_access_text(a) == x + y && method_access_text(MethodAccess { bits: a.bits | method_modifier_flag(k) })
            == x + method_modifier_word(k) + y);
    } else if k == 2 {
        lemma_method_modifier_added_2(a);
        let (x, y) = choose|x: Seq<char>, y: Seq<char>|
            method_access_text(a) == x + y && method_access_text(MethodAccess { bits: a.bits | MethodAccess::ACC_PUBLIC }) == x + "public "@ + y;
        assert(method_access_text(a) == x + y && method_access_text(MethodAccess { bits: a.bits | method_modifier_flag(k) })
            == x + method_modifier_word(k) + y);
    } else if k == 3 {
        lemma_method_modifier_added_3(a);
        let (x, y) = choose|x: Seq<char>, y: Seq<char>|
            method_access_text(a) == x + y && method_access_text(MethodAccess { bits: a.bits | MethodAccess::ACC_PROTECTED }) == x + "protected "@ + y;
        assert(method_access_text(a) == x + y && method_access_text(MethodAccess { bits: a.bits | method_modifier_flag(k) })
            == x + method_modifier_word(k) + y);
    } else if k == 4 {
        lemma_method_modifier_added_4(a);
        let (x, y) = choose|x: Seq<char>, y: Seq<char>|
            method_access_text(a) == x + y && method_access_text(MethodAccess { bits: a.bits | MethodAccess::ACC_PRIVATE }) == x + "private "@ + y;
        assert(method_access_text(a) == x + y && method_access_text(MethodAccess { bits: a.bits | method_modifier_flag(k) })
            == x + method_modifier_word(k) + y);
    } else if k == 5 {
        lemma_method_modifier_added_5(a);
        let (x, y) = choose|x: Seq<char>, y: Seq<char>|
            method_access_text(a) == x + y && method_access_text(MethodAccess { bits: a.bits | MethodAccess::ACC_STATIC }) == x + "static "@ + y;
        assert(method_access_text(a) == x + y && method_access_text(MethodAccess { bits: a.bits | method_modifier_flag(k) })
            == x + method_modifier_word(k) + y);
    } else if k == 6 {
        lemma_method_modifier_added_6(a);
        let (x, y) = choose|x: Seq<char>, y: Seq<char>|
            method_access_text(a) == x + y && method_access_text(MethodAccess { bits: a.bits | MethodAccess::ACC_FINAL }) == x + "final "@ + y;
        assert(method_access_text(a) == x + y && method_access_text(MethodAccess { bits: a.bits | method_modifier_flag(k) })
            == x + method_modifier_word(k) + y);
    } else if k == 7 {
        lemma_method_modifier_added_7(a);
        let (x, y) = choose|x: Seq<char>, y: Seq<char>|
            method_access_text(a) == x + y && method_access_text(MethodAccess { bits: a.bits | MethodAccess::ACC_SYNCHRONIZED }) == x + "synchronized "@ + y;
        assert(method_access_text(a) == x + y && method_access_text(MethodAccess { bits: a.bits | method_modifier_flag(k) })
            == x + method_modifier_word(k) + y);
    } else if k == 8 {
        lemma_method_modifier_added_8(a);
        let (x, y) = choose|x: Seq<char>, y: Seq<char>|
            method_access_text(a) == x + y && method_access_text(MethodAccess { bits: a.bits | MethodAccess::ACC_NATIVE }) == x + "native "@ + y;
        assert(method_access_text(a) == x + y && method_access_text(MethodAccess { bits: a.bits | method_modifier_flag(k) })
            == x + method_modifier_word(k) + y);
    } else if k == 9 {
        lemma_method_modifier_added_9(a);
        let (x, y) = choose|x: Seq<char>, y: Seq<char>|
            method_access_text(a) == x + y && method_access_text(MethodAccess { bits: a.bits | MethodAccess::ACC_STRICT }) == x + "strictfp "@ + y;
        assert(method_access_text(a) == x + y && method_access_text(MethodAccess { bits: a.bits | method_modifier_flag(k) })
            == x + method_modifier_word(k) + y);
    }
}

/// With none of the modifier flags set, a method has no modifiers.
pub proof fn law_method_no_modifiers(a: MethodAccess)
    requires
        forall|k: int| 0 <= k < 10 ==> a.bits & #[trigger] method_modifier_flag(k) == 0,
    ensures
        method_access_text(a) == Seq::<char>::empty(),
{
    assert(a.bits & method_modifier_flag(0) == 0);
    lemma_clear_bit(a.bits, MethodAccess::ACC_SYNTHETIC);
    assert(a.bits & method_modifier_flag(1) == 0);
    lemma_clear_bit(a.bits, MethodAccess::ACC_BRIDGE);
    assert(a.bits & method_modifier_flag(2) == 0);
    lemma_clear_bit(a.bits, MethodAccess::ACC_PUBLIC);
    assert(a.bits & method_modifier_flag(3) == 0);
    lemma_clear_bit(a.bits, MethodAccess::ACC_PROTECTED);
    assert(a.bits & method_modifier_flag(4) == 0);
    lemma_clear_bit(a.bits, MethodAccess::ACC_PRIVATE);
    assert(a.bits & method_modifier_flag(5) == 0);
    lemma_clear_bit(a.bits, MethodAccess::ACC_STATIC);
    assert(a.bits & method_modifier_flag(6) == 0);
    lemma_clear_bit(a.bits, MethodAccess::ACC_FINAL);
    assert(a.bits & method_modifier_flag(7) == 0);
    lemma_clear_bit(a.bits, MethodAccess::ACC_SYNCHRONIZED);
    assert(a.bits & method_modifier_flag(8) == 0);
    lemma_clear_bit(a.bits, MethodAccess::ACC_NATIVE);
    assert(a.bits & method_modifier_flag(9) == 0);
    lemma_clear_bit(a.bits, MethodAccess::ACC_STRICT);
    assert(method_access_text(a) =~= Seq::<char>::empty());
}

/// Setting the flag of the `k`-th modifier of a field adds exactly that
/// modifier's word to the field's modifiers, whatever the other flags are.
proof fn lemma_field_modifier_added_0(a: FieldAccess)
    requires
        a.bits & FieldAccess::ACC_SYNTHETIC == 0,
    ensures
        exists|x: Seq<char>, y: Seq<char>|
            field_access_text(a) == x + y && field_access_text(FieldAccess { bits: a.bits | FieldAccess::ACC_SYNTHETIC })
                == x + "/* synthetic */ "@ + y,
{
    let b = FieldAccess { bits: a.bits | FieldAccess::ACC_SYNTHETIC };
    assert(0x1000u16 & 0x0001u16 == 0 && 0x1000u16 & 0x0004u16 == 0 && 0x1000u16 & 0x0002u16 == 0 && 0x1000u16 & 0x0008u16 == 0 && 0x1000u16 & 0x0010u16 == 0 && 0x1000u16 & 0x0080u16 == 0 && 0x1000u16 & 0x0040u16 == 0) by (bit_vector);
    lemma_set_other_bit(a.bits, FieldAccess::ACC_SYNTHETIC, FieldAccess::ACC_PUBLIC);
    lemma_set_other_bit(a.bits, FieldAccess::ACC_SYNTHETIC, FieldAccess::ACC_PROTECTED);
    lemma_set_other_bit(a.bits, FieldAccess::ACC_SYNTHETIC, FieldAccess::ACC_PRIVATE);
    lemma_set_other_bit(a.bits, FieldAccess::ACC_SYNTHETIC, FieldAccess::ACC_STATIC);
    lemma_set_other_bit(a.bits, FieldAccess::ACC_SYNTHETIC, FieldAccess::ACC_FINAL);
    lemma_set_other_bit(a.bits, FieldAccess::ACC_SYNTHETIC, FieldAccess::ACC_TRANSIENT);
    lemma_set_other_bit(a.bits, FieldAccess::ACC_SYNTHETIC, FieldAccess::ACC_VOLATILE);
    lemma_set_bit(a.bits, FieldAccess::ACC_SYNTHETIC);
    let w = "/* synthetic */ "@;
    let x = Seq::<char>::empty();
    let y1 = text_if(a.has(FieldAccess::ACC_PUBLIC), "public "@);
    assert(text_if(a.has(FieldAccess::ACC_SYNTHETIC), "/* synthetic */ "@) + y1 =~= x + y1);
    let y2 = y1 + text_if(a.has(FieldAccess::ACC_PROTECTED), "protected "@);
    lemma_concat_associative(x, y1, text_if(a.has(FieldAccess::ACC_PROTECTED), "protected "@));
    lemma_concat_associative(w, y1, text_if(a.has(FieldAccess::ACC_PROTECTED), "protected "@));
    let y3 = y2 + text_if(a.has(FieldAccess::ACC_PRIVATE), "private "@);
    lemma_concat_associative(x, y2, text_if(a.has(FieldAccess::ACC_PRIVATE), "private "@));
    lemma_concat_associative(w, y2, text_if(a.has(FieldAccess::ACC_PRIVATE), "private "@));
    let y4 = y3 + text_if(a.has(FieldAccess::ACC_STATIC), "static "@);
    lemma_concat_associative(x, y3, text_if(a.has(FieldAccess::ACC_STATIC), "static "@));
    lemma_concat_associative(w, y3, text_if(a.has(FieldAccess::ACC_STATIC), "static "@));
    let y5 = y4 + text_if(a.has(FieldAccess::ACC_FINAL), "final "@);
    lemma_concat_associative(x, y4, text_if(a.has(FieldAccess::ACC_FINAL), "final "@));
    lemma_concat_associative(w, y4, text_if(a.has(FieldAccess::ACC_FINAL), "final "@));
    let y6 = y5 + text_if(a.has(FieldAccess::ACC_TRANSIENT), "transient "@);
    lemma_concat_associative(x, y5, text_if(a.has(FieldAccess::ACC_TRANSIENT), "transient "@));
    lemma_concat_associative(w, y5, text_if(a.has(FieldAccess::ACC_TRANSIENT), "transient "@));
    let y7 = y6 + text_if(a.has(FieldAccess::ACC_VOLATILE), "volatile "@);
    lemma_concat_associative(x, y6, text_if(a.has(FieldAccess::ACC_VOLATILE), "volatile "@));
    lemma_concat_associative(w, y6, text_if(a.has(FieldAccess::ACC_VOLATILE), "volatile "@));
    assert(w + y7 =~= x + w + y7);
    assert(field_access_text(a) == x + y7);
    assert(field_access_text(b) == x + w + y7);
}

proof fn lemma_field_modifier_added_1(a: FieldAccess)
    requires
        a.bits & FieldAccess::ACC_PUBLIC == 0,
    ensures
        exists|x: Seq<char>, y: Seq<char>|
            field_access_text(a) == x + y && field_access_text(FieldAccess { bits: a.bits | FieldAccess::ACC_PUBLIC })
                == x + "public "@ + y,
{
    let b = FieldAccess { bits: a.bits | FieldAccess::ACC_PUBLIC };
    assert(0x0001u16 & 0x1000u16 == 0 && 0x0001u16 & 0x0004u16 == 0 && 0x0001u16 & 0x0002u16 == 0 && 0x0001u16 & 0x0008u16 == 0 && 0x0001u16 & 0x0010u16 == 0 && 0x0001u16 & 0x0080u16 == 0 && 0x0001u16 & 0x0040u16 == 0) by (bit_vector);
    lemma_set_other_bit(a.bits, FieldAccess::ACC_PUBLIC, FieldAccess::ACC_SYNTHETIC);
    lemma_set_other_bit(a.bits, FieldAccess::ACC_PUBLIC, FieldAccess::ACC_PROTECTED);
    lemma_set_other_bit(a.bits, FieldAccess::ACC_PUBLIC, FieldAccess::ACC_PRIVATE);
    lemma_set_other_bit(a.bits, FieldAccess::ACC_PUBLIC, FieldAccess::ACC_STATIC);
    lemma_set_other_bit(a.bits, FieldAccess::ACC_PUBLIC, FieldAccess::ACC_FINAL);
    lemma_set_other_bit(a.bits, FieldAccess::ACC_PUBLIC, FieldAccess::ACC_TRANSIENT);
    lemma_set_other_bit(a.bits, FieldAccess::ACC_PUBLIC, FieldAccess::ACC_VOLATILE);
    lemma_set_bit(a.bits, FieldAccess::ACC_PUBLIC);
    let w = "public "@;
    let x = text_if(a.has(FieldAccess::ACC_SYNTHETIC), "/* synthetic */ "@);
    assert(x + Seq::<char>::empty() =~= x);
    let y2 = text_if(a.has(FieldAccess::ACC_PROTECTED), "protected "@);
    let y3 = y2 + text_if(a.has(FieldAccess::ACC_PRIVATE), "private "@);
    lemma_concat_associative(x, y2, text_if(a.has(FieldAccess::ACC_PRIVATE), "private "@));
    lemma_concat_associative(x + w, y2, text_if(a.has(FieldAccess::ACC_PRIVATE), "private "@));
    let y4 = y3 + text_if(a.has(FieldAccess::ACC_STATIC), "static "@);
    lemma_concat_associative(x, y3, text_if(a.has(FieldAccess::ACC_STATIC), "static "@));
    lemma_concat_associative(x + w, y3, text_if(a.has(FieldAccess::ACC_STATIC), "static "@));
    let y5 = y4 + text_if(a.has(FieldAccess::ACC_FINAL), "final "@);
    lemma_concat_associative(x, y4, text_if(a.has(FieldAccess::ACC_FINAL), "final "@));
    lemma_concat_associative(x + w, y4, text_if(a.has(FieldAccess::ACC_FINAL), "final "@));
    let y6 = y5 + text_if(a.has(FieldAccess::ACC_TRANSIENT), "transient "@);
    lemma_concat_associative(x, y5, text_if(a.has(FieldAccess::ACC_TRANSIENT), "transient "@));
    lemma_concat_associative(x + w, y5, text_if(a.has(FieldAccess::ACC_TRANSIENT), "transient "@));
    let y7 = y6 + text_if(a.has(FieldAccess::ACC_VOLATILE), "volatile "@);
    lemma_concat_associative(x, y6, text_if(a.has(FieldAccess::ACC_VOLATILE), "volatile "@));
    lemma_concat_associative(x + w, y6, text_if(a.has(FieldAccess::ACC_VOLATILE), "volatile "@));
    assert(field_access_text(a) == x + y7);
    assert(field_access_text(b) == x + w + y7);
}

proof fn lemma_field_modifier_added_2(a: FieldAccess)
    requires
        a.bits & FieldAccess::ACC_PROTECTED == 0,
    ensures
        exists|x: Seq<char>, y: Seq<char>|
            field_access_text(a) == x + y && field_access_text(FieldAccess { bits: a.bits | FieldAccess::ACC_PROTECTED })
                == x + "protected "@ + y,
{
    let b = FieldAccess { bits: a.bits | FieldAccess::ACC_PROTECTED };
    assert(0x0004u16 & 0x1000u16 == 0 && 0x0004u16 & 0x0001u16 == 0 && 0x0004u16 & 0x0002u16 == 0 && 0x0004u16 & 0x0008u16 == 0 && 0x0004u16 & 0x0010u16 == 0 && 0x0004u16 & 0x0080u16 == 0 && 0x0004u16 & 0x0040u16 == 0) by (bit_vector);
    lemma_set_other_bit(a.bits, FieldAccess::ACC_PROTECTED, FieldAccess::ACC_SYNTHETIC);
    lemma_set_other_bit(a.bits, FieldAccess::ACC_PROTECTED, FieldAccess::ACC_PUBLIC);
    lemma_set_other_bit(a.bits, FieldAccess::ACC_PROTECTED, FieldAccess::ACC_PRIVATE);
    lemma_set_other_bit(a.bits, FieldAccess::ACC_PROTECTED, FieldAccess::ACC_STATIC);
    lemma_set_other_bit(a.bits, FieldAccess::ACC_PROTECTED, FieldAccess::ACC_FINAL);
    lemma_set_other_bit(a.bits, FieldAccess::ACC_PROTECTED, FieldAccess::ACC_TRANSIENT);
    lemma_set_other_bit(a.bits, FieldAccess::ACC_PROTECTED, FieldAccess::ACC_VOLATILE);
    lemma_set_bit(a.bits, FieldAccess::ACC_PROTECTED);
    let w = "protected "@;
    let x = text_if(a.has(FieldAccess::ACC_SYNTHETIC), "/* synthetic */ "@) + text_if(a.has(FieldAccess::ACC_PUBLIC), "public "@);
    assert(x + Seq::<char>::empty() =~= x);
    let y3 = text_if(a.has(FieldAccess::ACC_PRIVATE), "private "@);
    let y4 = y3 + text_if(a.has(FieldAccess::ACC_STATIC), "static "@);
    lemma_concat_associative(x, y3, text_if(a.has(FieldAccess::ACC_STATIC), "static "@));
    lemma_concat_associative(x + w, y3, text_if(a.has(FieldAccess::ACC_STATIC), "static "@));
    let y5 = y4 + text_if(a.has(FieldAccess::ACC_FINAL), "final "@);
    lemma_concat_associative(x, y4, text_if(a.has(FieldAccess::ACC_FINAL), "final "@));
    lemma_concat_associative(x + w, y4, text_if(a.has(FieldAccess::ACC_FINAL), "final "@));
    let y6 = y5 + text_if(a.has(FieldAccess::ACC_TRANSIENT), "transient "@);
    lemma_concat_associative(x, y5, text_if(a.has(FieldAccess::ACC_TRANSIENT), "transient "@));
    lemma_concat_associative(x + w, y5, text_if(a.has(FieldAccess::ACC_TRANSIENT), "transient "@));
    let y7 = y6 + text_if(a.has(FieldAccess::ACC_VOLATILE), "volatile "@);
    lemma_concat_associative(x, y6, text_if(a.has(FieldAccess::ACC_VOLATILE), "volatile "@));
    lemma_concat_associative(x + w, y6, text_if(a.has(FieldAccess::ACC_VOLATILE), "volatile "@));
    assert(field_access_text(a) == x + y7);
    assert(field_access_text(b) == x + w + y7);
}

proof fn lemma_field_modifier_added_3(a: FieldAccess)
    requires
        a.bits & FieldAccess::ACC_PRIVATE == 0,
    ensures
        exists|x: Seq<char>, y: Seq<char>|
            field_access_text(a) == x + y && field_access_text(FieldAccess { bits: a.bits | FieldAccess::ACC_PRIVATE })
                == x + "private "@ + y,
{
    let b = FieldAccess { bits: a.bits | FieldAccess::ACC_PRIVATE };
    assert(0x0002u16 & 0x1000u16 == 0 && 0x0002u16 & 0x0001u16 == 0 && 0x0002u16 & 0x0004u16 == 0 && 0x0002u16 & 0x0008u16 == 0 && 0x0002u16 & 0x0010u16 == 0 && 0x0002u16 & 0x0080u16 == 0 && 0x0002u16 & 0x0040u16 == 0) by (bit_vector);
    lemma_set_other_bit(a.bits, FieldAccess::ACC_PRIVATE, FieldAccess::ACC_SYNTHETIC);
    lemma_set_other_bit(a.bits, FieldAccess::ACC_PRIVATE, FieldAccess::ACC_PUBLIC);
    lemma_set_other_bit(a.bits, FieldAccess::ACC_PRIVATE, FieldAccess::ACC_PROTECTED);
    lemma_set_other_bit(a.bits, FieldAccess::ACC_PRIVATE, FieldAccess::ACC_STATIC);
    lemma_set_other_bit(a.bits, FieldAccess::ACC_PRIVATE, FieldAccess::ACC_FINAL);
    lemma_set_other_bit(a.bits, FieldAccess::ACC_PRIVATE, FieldAccess::ACC_TRANSIENT);
    lemma_set_other_bit(a.bits, FieldAccess::ACC_PRIVATE, FieldAccess::ACC_VOLATILE);
    lemma_set_bit(a.bits, FieldAccess::ACC_PRIVATE);
    let w = "private "@;
    let x = text_if(a.has(FieldAccess::ACC_SYNTHETIC), "/* synthetic */ "@) + text_if(a.has(FieldAccess::ACC_PUBLIC), "public "@) + text_if(a.has(FieldAccess::ACC_PROTECTED), "protected "@);
    assert(x + Seq::<char>::empty() =~= x);
    let y4 = text_if(a.has(FieldAccess::ACC_STATIC), "static "@);
    let y5 = y4 + text_if(a.has(FieldAccess::ACC_FINAL), "final "@);
    lemma_concat_associative(x, y4, text_if(a.has(FieldAccess::ACC_FINAL), "final "@));
    lemma_concat_associative(x + w, y4, text_if(a.has(FieldAccess::ACC_FINAL), "final "@));
    let y6 = y5 + text_if(a.has(FieldAccess::ACC_TRANSIENT), "transient "@);
    lemma_concat_associative(x, y5, text_if(a.has(FieldAccess::ACC_TRANSIENT), "transient "@));
    lemma_concat_associative(x + w, y5, text_if(a.has(FieldAccess::ACC_TRANSIENT), "transient "@));
    let y7 = y6 + text_if(a.has(FieldAccess::ACC_VOLATILE), "volatile "@);
    lemma_concat_associative(x, y6, text_if(a.has(FieldAccess::ACC_VOLATILE), "volatile "@));
    lemma_concat_associative(x + w, y6, text_if(a.has(FieldAccess::ACC_VOLATILE), "volatile "@));
    assert(field_access_text(a) == x + y7);
    assert(field_access_text(b) == x + w + y7);
}

proof fn lemma_field_modifier_added_4(a: FieldAccess)
    requires
        a.bits & FieldAccess::ACC_STATIC == 0,
    ensures
        exists|x: Seq<char>, y: Seq<char>|
            field_access_text(a) == x + y && field_access_text(FieldAccess { bits: a.bits | FieldAccess::ACC_STATIC })
                == x + "static "@ + y,
{
    let b = FieldAccess { bits: a.bits | FieldAccess::ACC_STATIC };
    assert(0x0008u16 & 0x1000u16 == 0 && 0x0008u16 & 0x0001u16 == 0 && 0x0008u16 & 0x0004u16 == 0 && 0x0008u16 & 0x0002u16 == 0 && 0x0008u16 & 0x0010u16 == 0 && 0x0008u16 & 0x0080u16 == 0 && 0x0008u16 & 0x0040u16 == 0) by (bit_vector);
    lemma_set_other_bit(a.bits, FieldAccess::ACC_STATIC, FieldAccess::ACC_SYNTHETIC);
    lemma_set_other_bit(a.bits, FieldAccess::ACC_STATIC, FieldAccess::ACC_PUBLIC);
    lemma_set_other_bit(a.bits, FieldAccess::ACC_STATIC, FieldAccess::ACC_PROTECTED);
    lemma_set_other_bit(a.bits, FieldAccess::ACC_STATIC, FieldAccess::ACC_PRIVATE);
    lemma_set_other_bit(a.bits, FieldAccess::ACC_STATIC, FieldAccess::ACC_FINAL);
    lemma_set_other_bit(a.bits, FieldAccess::ACC_STATIC, FieldAccess::ACC_TRANSIENT);
    lemma_set_other_bit(a.bits, FieldAccess::ACC_STATIC, FieldAccess::ACC_VOLATILE);
    lemma_set_bit(a.bits, FieldAccess::ACC_STATIC);
    let w = "static "@;
    let x = text_if(a.has(FieldAccess::ACC_SYNTHETIC), "/* synthetic */ "@) + text_if(a.has(FieldAccess::ACC_PUBLIC), "public "@) + text_if(a.has(FieldAccess::ACC_PROTECTED), "protected "@) + text_if(a.has(FieldAccess::ACC_PRIVATE), "private "@);
    assert(x + Seq::<char>::empty() =~= x);
    let y5 = text_if(a.has(FieldAccess::ACC_FINAL), "final "@);
    let y6 = y5 + text_if(a.has(FieldAccess::ACC_TRANSIENT), "transient "@);
    lemma_concat_associative(x, y5, text_if(a.has(FieldAccess::ACC_TRANSIENT), "transient "@));
    lemma_concat_associative(x + w, y5, text_if(a.has(FieldAccess::ACC_TRANSIENT), "transient "@));
    let y7 = y6 + text_if(a.has(FieldAccess::ACC_VOLATILE), "volatile "@);
    lemma_concat_associative(x, y6, text_if(a.has(FieldAccess::ACC_VOLATILE), "volatile "@));
    lemma_concat_associative(x + w, y6, text_if(a.has(FieldAccess::ACC_VOLATILE), "volatile "@));
    assert(field_access_text(a) == x + y7);
    assert(field_access_text(b) == x + w + y7);
}

proof fn lemma_field_modifier_added_5(a: FieldAccess)
    requires
        a.bits & FieldAccess::ACC_FINAL == 0,
    ensures
        exists|x: Seq<char>, y: Seq<char>|
            field_access_text(a) == x + y && field_access_text(FieldAccess { bits: a.bits | FieldAccess::ACC_FINAL })
                == x + "final "@ + y,
{
    let b = FieldAccess { bits: a.bits | FieldAccess::ACC_FINAL };
    assert(0x0010u16 & 0x1000u16 == 0 && 0x0010u16 & 0x0001u16 == 0 && 0x0010u16 & 0x0004u16 == 0 && 0x0010u16 & 0x0002u16 == 0 && 0x0010u16 & 0x0008u16 == 0 && 0x0010u16 & 0x0080u16 == 0 && 0x0010u16 & 0x0040u16 == 0) by (bit_vector);
    lemma_set_other_bit(a.bits, FieldAccess::ACC_FINAL, FieldAccess::ACC_SYNTHETIC);
    lemma_set_other_bit(a.bits, FieldAccess::ACC_FINAL, FieldAccess::ACC_PUBLIC);
    lemma_set_other_bit(a.bits, FieldAccess::ACC_FINAL, FieldAccess::ACC_PROTECTED);
    lemma_set_other_bit(a.bits, FieldAccess::ACC_FINAL, FieldAccess::ACC_PRIVATE);
    lemma_set_other_bit(a.bits, FieldAccess::ACC_FINAL, FieldAccess::ACC_STATIC);
    lemma_set_other_bit(a.bits, FieldAccess::ACC_FINAL, FieldAccess::ACC_TRANSIENT);
    lemma_set_other_bit(a.bits, FieldAccess::ACC_FINAL, FieldAccess::ACC_VOLATILE);
    lemma_set_bit(a.bits, FieldAccess::ACC_FINAL);
    let w = "final "@;
    let x = text_if(a.has(FieldAccess::ACC_SYNTHETIC), "/* synthetic */ "@) + text_if(a.has(FieldAccess::ACC_PUBLIC), "public "@) + text_if(a.has(FieldAccess::ACC_PROTECTED), "protected "@) + text_if(a.has(FieldAccess::ACC_PRIVATE), "private "@) + text_if(a.has(FieldAccess::ACC_STATIC), "static "@);
    assert(x + Seq::<char>::empty() =~= x);
    let y6 = text_if(a.has(FieldAccess::ACC_TRANSIENT), "transient "@);
    let y7 = y6 + text_if(a.has(FieldAccess::ACC_VOLATILE), "volatile "@);
    lemma_concat_associative(x, y6, text_if(a.has(FieldAccess::ACC_VOLATILE), "volatile "@));
    lemma_concat_associative(x + w, y6, text_if(a.has(FieldAccess::ACC_VOLATILE), "volatile "@));
    assert(field_access_text(a) == x + y7);
    assert(field_access_text(b) == x + w + y7);
}

proof fn lemma_field_modifier_added_6(a: FieldAccess)
    requires
        a.bits & FieldAccess::ACC_TRANSIENT == 0,
    ensures
        exists|x: Seq<char>, y: Seq<char>|
            field_access_text(a) == x + y && field_access_text(FieldAccess { bits: a.bits | FieldAccess::ACC_TRANSIENT })
                == x + "transient "@ + y,
{
    let b = FieldAccess { bits: a.bits | FieldAccess::ACC_TRANSIENT };
    assert(0x0080u16 & 0x1000u16 == 0 && 0x0080u16 & 0x0001u16 == 0 && 0x0080u16 & 0x0004u16 == 0 && 0x0080u16 & 0x0002u16 == 0 && 0x0080u16 & 0x0008u16 == 0 && 0x0080u16 & 0x0010u16 == 0 && 0x0080u16 & 0x0040u16 == 0) by (bit_vector);
    lemma_set_other_bit(a.bits, FieldAccess::ACC_TRANSIENT, FieldAccess::ACC_SYNTHETIC);
    lemma_set_other_bit(a.bits, FieldAccess::ACC_TRANSIENT, FieldAccess::ACC_PUBLIC);
    lemma_set_other_bit(a.bits, FieldAccess::ACC_TRANSIENT, FieldAccess::ACC_PROTECTED);
    lemma_set_other_bit(a.bits, FieldAccess::ACC_TRANSIENT, FieldAccess::ACC_PRIVATE);
    lemma_set_other_bit(a.bits, FieldAccess::ACC_TRANSIENT, FieldAccess::ACC_STATIC);
    lemma_set_other_bit(a.bits, FieldAccess::ACC_TRANSIENT, FieldAccess::ACC_FINAL);
    lemma_set_other_bit(a.bits, FieldAccess::ACC_TRANSIENT, FieldAccess::ACC_VOLATILE);
    lemma_set_bit(a.bits, FieldAccess::ACC_TRANSIENT);
    let w = "transient "@;
    let x = text_if(a.has(FieldAccess::ACC_SYNTHETIC), "/* synthetic */ "@) + text_if(a.has(FieldAccess::ACC_PUBLIC), "public "@) + text_if(a.has(FieldAccess::ACC_PROTECTED), "protected "@) + text_if(a.has(FieldAccess::ACC_PRIVATE), "private "@) + text_if(a.has(FieldAccess::ACC_STATIC), "static "@) + text_if(a.has(FieldAccess::ACC_FINAL), "final "@);
    assert(x + Seq::<char>::empty() =~= x);
    let y7 = text_if(a.has(FieldAccess::ACC_VOLATILE), "volatile "@);
    assert(field_access_text(a) == x + y7);
    assert(field_access_text(b) == x + w + y7);
}

proof fn lemma_field_modifier_added_7(a: FieldAccess)
    requires
        a.bits & FieldAccess::ACC_VOLATILE == 0,
    ensures
        exists|x: Seq<char>, y: Seq<char>|
            field_access_text(a) == x + y && field_access_text(FieldAccess { bits: a.bits | FieldAccess::ACC_VOLATILE })
                == x + "volatile "@ + y,
{
    let b = FieldAccess { bits: a.bits | FieldAccess::ACC_VOLATILE };
    assert(0x0040u16 & 0x1000u16 == 0 && 0x0040u16 & 0x0001u16 == 0 && 0x0040u16 & 0x0004u16 == 0 && 0x0040u16 & 0x0002u16 == 0 && 0x0040u16 & 0x0008u16 == 0 && 0x0040u16 & 0x0010u16 == 0 && 0x0040u16 & 0x0080u16 == 0) by (bit_vector);
    lemma_set_other_bit(a.bits, FieldAccess::ACC_VOLATILE, FieldAccess::ACC_SYNTHETIC);
    lemma_set_other_bit(a.bits, FieldAccess::ACC_VOLATILE, FieldAccess::ACC_PUBLIC);
    lemma_set_other_bit(a.bits, FieldAccess::ACC_VOLATILE, FieldAccess::ACC_PROTECTED);
    lemma_set_other_bit(a.bits, FieldAccess::ACC_VOLATILE, FieldAccess::ACC_PRIVATE);
    lemma_set_other_bit(a.bits, FieldAccess::ACC_VOLATILE, FieldAccess::ACC_STATIC);
    lemma_set_other_bit(a.bits, FieldAccess::ACC_VOLATILE, FieldAccess::ACC_FINAL);
    lemma_set_other_bit(a.bits, FieldAccess::ACC_VOLATILE, FieldAccess::ACC_TRANSIENT);
    lemma_set_bit(a.bits, FieldAccess::ACC_VOLATILE);
    let w = "volatile "@;
    let x = text_if(a.has(FieldAccess::ACC_SYNTHETIC), "/* synthetic */ "@) + text_if(a.has(FieldAccess::ACC_PUBLIC), "public "@) + text_if(a.has(FieldAccess::ACC_PROTECTED), "protected "@) + text_if(a.has(FieldAccess::ACC_PRIVATE), "private "@) + text_if(a.has(FieldAccess::ACC_STATIC), "static "@) + text_if(a.has(FieldAccess::ACC_FINAL), "final "@) + text_if(a.has(FieldAccess::ACC_TRANSIENT), "transient "@);
    assert(x + Seq::<char>::empty() =~= x);
    assert(field_access_text(a) == x + Seq::<char>::empty());
    assert(x + w =~= x + w + Seq::<char>::empty());
    assert(field_access_text(b) == x + w + Seq::<char>::empty());
}

/// Setting the flag of the `k`-th modifier of a field adds exactly that
/// modifier's word to the field's modifiers, whatever the other flags are.
pub proof fn law_field_modifier_added(a: FieldAccess, k: int)
    requires
        0 <= k < 8,
        a.bits & field_modifier_flag(k) == 0,
    ensures
        exists|x: Seq<char>, y: Seq<char>|
            field_access_text(a) == x + y && field_access_text(FieldAccess { bits: a.bits | field_modifier_flag(k) })
                == x + field_modifier_word(k) + y,
{
    if k == 0 {
        lemma_field_modifier_added_0(a);
        let (x, y) = choose|x: Seq<char>, y: Seq<char>|
            field_access_text(a) == x + y && field_access_text(FieldAccess { bits: a.bits | FieldAccess::ACC_SYNTHETIC }) == x + "/* synthetic */ "@ + y;
        assert(field_access_text(a) == x + y && field_access_text(FieldAccess { bits: a.bits | field_modifier_flag(k) })
            == x + field_modifier_word(k) + y);
    } else if k == 1 {
        lemma_field_modifier_added_1(a);
        let (x, y) = choose|x: Seq<char>, y: Seq<char>|
            field_access_text(a) == x + y && field_access_text(FieldAccess { bits: a.bits | FieldAccess::ACC_PUBLIC }) == x + "public "@ + y;
        assert(field_access_text(a) == x + y && field_access_text(FieldAccess { bits: a.bits | field_modifier_flag(k) })
            == x + field_modifier_word(k) + y);
    } else if k == 2 {
        lemma_field_modifier_added_2(a);
        let (x, y) = choose|x: Seq<char>, y: Seq<char>|
            field_access_text(a) == x + y && field_access_text(FieldAccess { bits: a.bits | FieldAccess::ACC_PROTECTED }) == x + "protected "@ + y;
        assert(field_access_text(a) == x + y && field_access_text(FieldAccess { bits: a.bits | field_modifier_flag(k) })
            == x + field_modifier_word(k) + y);
    } else if k == 3 {
        lemma_field_modifier_added_3(a);
        let (x, y) = choose|x: Seq<char>, y: Seq<char>|
            field_access_text(a) == x + y && field_access_text(FieldAccess { bits: a.bits | FieldAccess::ACC_PRIVATE }) == x + "private "@ + y;
        assert(field_access_text(a) == x + y && field_access_text(FieldAccess { bits: a.bits | field_modifier_flag(k) })
            == x + field_modifier_word(k) + y);
    } else if k == 4 {
        lemma_field_modifier_added_4(a);
        let (x, y) = choose|x: Seq<char>, y: Seq<char>|
            field_access_text(a) == x + y && field_access_text(FieldAccess { bits: a.bits | FieldAccess::ACC_STATIC }) == x + "static "@ + y;
        assert(field_access_text(a) == x + y && field_access_text(FieldAccess { bits: a.bits | field_modifier_flag(k) })
            == x + field_modifier_word(k) + y);
    } else if k == 5 {
        lemma_field_modifier_added_5(a);
        let (x, y) = choose|x: Seq<char>, y: Seq<char>|
            field_access_text(a) == x + y && field_access_text(FieldAccess { bits: a.bits | FieldAccess::ACC_FINAL }) == x + "final "@ + y;
        assert(field_access_text(a) == x + y && field_access_text(FieldAccess { bits: a.bits | field_modifier_flag(k) })
            == x + field_modifier_word(k) + y);
    } else if k == 6 {
        lemma_field_modifier_added_6(a);
        let (x, y) = choose|x: Seq<char>, y: Seq<char>|
            field_access_text(a) == x + y && field_access_text(FieldAccess { bits: a.bits | FieldAccess::ACC_TRANSIENT }) == x + "transient "@ + y;
        assert(field_access_text(a) == x + y && field_access_text(FieldAccess { bits: a.bits | field_modifier_flag(k) })
            == x + field_modifier_word(k) + y);
    } else if k == 7 {
        lemma_field_modifier_added_7(a);
        let (x, y) = choose|x: Seq<char>, y: Seq<char>|
            field_access_text(a) == x + y && field_access_text(FieldAccess { bits: a.bits | FieldAccess::ACC_VOLATILE }) == x + "volatile "@ + y;
        assert(field_access_text(a) == x + y && field_access_text(FieldAccess { bits: a.bits | field_modifier_flag(k) })
            == x + field_modifier_word(k) + y);
    }
}

/// With none of the modifier flags set, a field has no modifiers.
pub proof fn law_field_no_modifiers(a: FieldAccess)
    requires
        forall|k: int| 0 <= k < 8 ==> a.bits & #[trigger] field_modifier_flag(k) == 0,
    ensures
        field_access_text(a) == Seq::<char>::empty(),
{
    assert(a.bits & field_modifier_flag(0) == 0);
    lemma_clear_bit(a.bits, FieldAccess::ACC_SYNTHETIC);
    assert(a.bits & field_modifier_flag(1) == 0);
    lemma_clear_bit(a.bits, FieldAccess::ACC_PUBLIC);
    assert(a.bits & field_modifier_flag(2) == 0);
    lemma_clear_bit(a.bits, FieldAccess::ACC_PROTECTED);
    assert(a.bits & field_modifier_flag(3) == 0);
    lemma_clear_bit(a.bits, FieldAccess::ACC_PRIVATE);
    assert(a.bits & field_modifier_flag(4) == 0);
    lemma_clear_bit(a.bits, FieldAccess::ACC_STATIC);
    assert(a.bits & field_modifier_flag(5) == 0);
    lemma_clear_bit(a.bits, FieldAccess::ACC_FINAL);
    assert(a.bits & field_modifier_flag(6) == 0);
    lemma_clear_bit(a.bits, FieldAccess::ACC_TRANSIENT);
    assert(a.bits & field_modifier_flag(7) == 0);
    lemma_clear_bit(a.bits, FieldAccess::ACC_VOLATILE);
    assert(field_access_text(a) =~= Seq::<char>::empty());
}

/// A class's modifiers: setting the public flag puts `public ` in front of
/// the rest, and the rest is decided by the kind flags, the annotation flag
/// first, then the interface flag, then the enum flag; only a plain class can
/// be written `final`.
pub proof fn law_class_modifiers(a: ClassAccess)
    ensures
        a.bits & 0x0001 == 0 ==> class_access_text(ClassAccess { bits: a.bits | 0x0001 })
            == "public "@ + class_access_text(a),
        a.bits & 0x0001 == 0 && a.bits & 0x2000 != 0 ==> class_access_text(a) == "@interface "@,
        a.bits & 0x0001 == 0 && a.bits & 0x2000 == 0 && a.bits & 0x0200 != 0 ==> class_access_text(a)
            == "interface "@,
        a.bits & 0x0001 == 0 && a.bits & 0x2000 == 0 && a.bits & 0x0200 == 0 && a.bits & 0x4000
            != 0 ==> class_access_text(a) == "enum "@,
        a.bits & 0x0001 == 0 && a.bits & 0x2000 == 0 && a.bits & 0x0200 == 0 && a.bits & 0x4000
            == 0 && a.bits & 0x0010 != 0 ==> class_access_text(a) == "final class "@,
        a.bits & 0x0001 == 0 && a.bits & 0x2000 == 0 && a.bits & 0x0200 == 0 && a.bits & 0x4000
            == 0 && a.bits & 0x0010 == 0 ==> class_access_text(a) == "class "@,
{
    let b = a.bits;
    assert(0x0001u16 & 0x0010u16 == 0 && 0x0001u16 & 0x0200u16 == 0 && 0x0001u16 & 0x2000u16 == 0
        && 0x0001u16 & 0x4000u16 == 0) by (bit_vector);
    assert((b & 0x2000 != 0) == (b & 0x2000 == 0x2000) && (b & 0x0200 != 0) == (b & 0x0200
        == 0x0200) && (b & 0x4000 != 0) == (b & 0x4000 == 0x4000) && (b & 0x0010 != 0) == (b
        & 0x0010 == 0x0010) && (b & 0x0001 != 0) == (b & 0x0001 == 0x0001)) by (bit_vector);
    if b & 0x0001 == 0 {
        lemma_set_bit(b, 0x0001);
        lemma_set_other_bit(b, 0x0001, 0x0010);
        lemma_set_other_bit(b, 0x0001, 0x0200);
        lemma_set_other_bit(b, 0x0001, 0x2000);
        lemma_set_other_bit(b, 0x0001, 0x4000);
        let rest = if a.has(ClassAccess::ACC_ANNOTATION) {
            "@interface "@
        } else if a.has(ClassAccess::ACC_INTERFACE) {
            "interface "@
        } else if a.has(ClassAccess::ACC_ENUM) {
            "enum "@
        } else {
            text_if(a.has(ClassAccess::ACC_FINAL), "final "@) + "class "@
        };
        assert(class_access_text(a) =~= rest);
        assert(class_access_text(ClassAccess { bits: b | 0x0001 }) =~= "public "@ + rest);
        reveal_strlit("final ");
        reveal_strlit("class ");
        reveal_strlit("final class ");
        assert("final "@ + "class "@ =~= "final class "@);
    }
}

} // verus!
