//! Internal class names (`com/example/Foo`): their package part, their simple
//! name, their dotted Java spelling, and the import list that rendering builds.
use vstd::prelude::*;
use crate::text::{chars_of, push_char, str_eq};

verus! {

/// Index of the last `/` in `s`, or `-1` when there is none.
pub open spec fn last_slash(s: Seq<char>) -> int
    decreases s.len(),
{
    if s.len() == 0 {
        -1
    } else if s.last() == '/' {
        s.len() - 1
    } else {
        last_slash(s.drop_last())
    }
}

/// The package part of an internal name: everything before the last `/`
/// (empty for a class in the default package).
pub open spec fn package_of(s: Seq<char>) -> Seq<char> {
    if last_slash(s) >= 0 {
        s.take(last_slash(s))
    } else {
        Seq::empty()
    }
}

/// The simple name of an internal name: everything after the last `/`.
pub open spec fn simple_name(s: Seq<char>) -> Seq<char> {
    s.subrange(last_slash(s) + 1, s.len() as int)
}

/// The dotted Java spelling of an internal name: each `/` becomes `.`.
pub open spec fn java_name(s: Seq<char>) -> Seq<char> {
    s.map_values(|c: char| if c == '/' { '.' } else { c })
}

/// Whether a reference to `cls` from a class in package `mypkg` needs an
/// import: not for the default package, not for `java/lang`, not for the
/// class's own package.
pub open spec fn needs_import_spec(mypkg: Seq<char>, cls: Seq<char>) -> bool {
    let pkg = package_of(cls);
    !(pkg.len() == 0 || pkg == "java/lang"@) && pkg != mypkg
}

/// The import list after a reference to `cls`: its dotted name is appended
/// when it needs an import and is not listed yet.
pub open spec fn record_import(mypkg: Seq<char>, imports: Seq<Seq<char>>, cls: Seq<char>) -> Seq<
    Seq<char>,
> {
    if needs_import_spec(mypkg, cls) && !imports.contains(java_name(cls)) {
        imports.push(java_name(cls))
    } else {
        imports
    }
}

/// The import list after the references `refs`, taken in order.
pub open spec fn record_imports(
    mypkg: Seq<char>,
    imports: Seq<Seq<char>>,
    refs: Seq<Seq<char>>,
) -> Seq<Seq<char>>
    decreases refs.len(),
{
    if refs.len() == 0 {
        imports
    } else {
        record_import(mypkg, record_imports(mypkg, imports, refs.drop_last()), refs.last())
    }
}

/// Recording one reference is recording a list of one.
pub proof fn lemma_record_imports_single(
    mypkg: Seq<char>,
    imports: Seq<Seq<char>>,
    cls: Seq<char>,
)
    ensures
        record_imports(mypkg, imports, seq![cls]) == record_import(mypkg, imports, cls),
{
    assert(seq![cls].drop_last() =~= Seq::<Seq<char>>::empty());
    assert(record_imports(mypkg, imports, Seq::empty()) == imports);
}

/// Recording `a` and then `b` is recording `a + b`.
pub proof fn lemma_record_imports_concat(
    mypkg: Seq<char>,
    imports: Seq<Seq<char>>,
    a: Seq<Seq<char>>,
    b: Seq<Seq<char>>,
)
    ensures
        record_imports(mypkg, imports, a + b) == record_imports(
            mypkg,
            record_imports(mypkg, imports, a),
            b,
        ),
    decreases b.len(),
{
    if b.len() == 0 {
        assert(a + b =~= a);
    } else {
        lemma_record_imports_concat(mypkg, imports, a, b.drop_last());
        assert((a + b).drop_last() =~= a + b.drop_last());
        assert((a + b).last() == b.last());
    }
}

proof fn lemma_last_slash_bounds(s: Seq<char>)
    ensures
        -1 <= last_slash(s) < s.len(),
        last_slash(s) >= 0 ==> s[last_slash(s)] == '/',
        forall|j: int| last_slash(s) < j < s.len() ==> s[j] != '/',
    decreases s.len(),
{
    if s.len() > 0 && s.last() != '/' {
        lemma_last_slash_bounds(s.drop_last());
        assert forall|j: int| last_slash(s) < j < s.len() implies s[j] != '/' by {
            if j < s.len() - 1 {
                assert(s.drop_last()[j] == s[j]);
            }
        }
    }
}

/// Finds the last `/` by scanning from the end.
fn find_last_slash(v: &Vec<char>) -> (r: Option<usize>)
    ensures
        match r {
            Some(k) => last_slash(v@) == k,
            None => last_slash(v@) == -1,
        },
{
    let mut i: usize = v.len();
    assert(v@.take(i as int) =~= v@);
    while i > 0
        invariant
            i <= v.len(),
            last_slash(v@) == last_slash(v@.take(i as int)),
        decreases i,
    {
        assert(v@.take(i as int).drop_last() =~= v@.take(i - 1));
        if v[i - 1] == '/' {
            return Some(i - 1);
        }
        i = i - 1;
    }
    None
}

/// Byte offset of the last `/` in `cls`, or 0 when there is none: the length
/// in UTF-8 bytes of the package part.
pub fn get_package_offset(cls: &str) -> (r: usize)
    ensures
        r as nat == encode_utf8_len(package_of(cls@)),
{
    let v = chars_of(cls);
    match find_last_slash(&v) {
        Some(k) => {
            proof {
                lemma_last_slash_bounds(cls@);
            }
            let bytes = cls.substring_char(0, k).as_bytes();
            bytes.len()
        },
        None => 0,
    }
}

/// Length in bytes of the UTF-8 encoding of `s`.
pub open spec fn encode_utf8_len(s: Seq<char>) -> nat {
    vstd::utf8::encode_utf8(s).len()
}

/// The dotted Java spelling of an internal name.
pub fn as_java_name(cls: &str) -> (r: String)
    ensures
        r@ == java_name(cls@),
{
    let v = chars_of(cls);
    let mut r = String::new();
    let mut i: usize = 0;
    while i < v.len()
        invariant
            v@ == cls@,
            i <= v.len(),
            r@ == java_name(v@.take(i as int)),
        decreases v.len() - i,
    {
        if v[i] == '/' {
            push_char(&mut r, '.');
        } else {
            push_char(&mut r, v[i]);
        }
        assert(java_name(v@.take(i + 1)) =~= java_name(v@.take(i as int)).push(
            if v@[i as int] == '/' {
                '.'
            } else {
                v@[i as int]
            },
        ));
        i = i + 1;
    }
    assert(v@.take(v.len() as int) =~= v@);
    r
}

/// The simple name of an internal name: the part after the last `/`.
pub fn split_name(cls: &str) -> (r: &str)
    ensures
        r@ == simple_name(cls@),
{
    let v = chars_of(cls);
    proof {
        lemma_last_slash_bounds(cls@);
    }
    match find_last_slash(&v) {
        Some(k) => cls.substring_char(k + 1, v.len()),
        None => cls.substring_char(0, v.len()),
    }
}

/// The package part of an internal name.
pub fn package_part(cls: &str) -> (r: &str)
    ensures
        r@ == package_of(cls@),
{
    let v = chars_of(cls);
    proof {
        lemma_last_slash_bounds(cls@);
    }
    match find_last_slash(&v) {
        Some(k) => cls.substring_char(0, k),
        None => {
            let r = cls.substring_char(0, 0);
            assert(r@ =~= Seq::<char>::empty());
            r
        },
    }
}

/// Whether a class in package `mypkg` must import `cls` to name it simply.
pub fn needs_import(mypkg: &str, cls: &str) -> (r: bool)
    ensures
        r == needs_import_spec(mypkg@, cls@),
{
    let pkg = package_part(cls);
    if pkg.unicode_len() == 0 || str_eq(pkg, "java/lang") {
        return false;
    }
    !str_eq(pkg, mypkg)
}

/// Whether `imports` lists `name`.
fn contains_name(imports: &Vec<String>, name: &String) -> (r: bool)
    ensures
        r == imports.deep_view().contains(name@),
{
    let mut i: usize = 0;
    while i < imports.len()
        invariant
            i <= imports.len(),
            forall|j: int| 0 <= j < i ==> imports.deep_view()[j] != name@,
        decreases imports.len() - i,
    {
        if imports[i] == *name {
            assert(imports.deep_view()[i as int] == name@);
            return true;
        }
        i = i + 1;
    }
    false
}

/// The simple name of `cls`, recording its dotted name in `imports` when a
/// class in package `mypkg` has to import it and it is not listed yet.
pub fn import_name<'a>(mypkg: &str, imports: &mut Vec<String>, cls: &'a str) -> (r: &'a str)
    ensures
        r@ == simple_name(cls@),
        final(imports).deep_view() == record_import(mypkg@, old(imports).deep_view(), cls@),
{
    if !needs_import(mypkg, cls) {
        return split_name(cls);
    }
    let name = as_java_name(cls);
    if !contains_name(imports, &name) {
        let ghost before = imports.deep_view();
        imports.push(name);
        assert(imports.deep_view() =~= before.push(java_name(cls@)));
    }
    split_name(cls)
}

/// An internal name is its package, a `/` and its simple name; in the default
/// package it is its simple name alone.  A simple name holds no `/`.
pub proof fn law_name_parts(s: Seq<char>)
    ensures
        last_slash(s) >= 0 ==> s == package_of(s) + seq!['/'] + simple_name(s),
        last_slash(s) < 0 ==> package_of(s).len() == 0 && simple_name(s) == s,
        !simple_name(s).contains('/'),
{
    lemma_last_slash_bounds(s);
    if last_slash(s) >= 0 {
        assert(s =~= package_of(s) + seq!['/'] + simple_name(s));
    } else {
        assert(simple_name(s) =~= s);
    }
    if simple_name(s).contains('/') {
        let k = choose|k: int| 0 <= k < simple_name(s).len() && simple_name(s)[k] == '/';
        assert(s[last_slash(s) + 1 + k] == '/');
    }
}

/// The dotted spelling of a name has its length and holds no `/`; a name
/// without `/` is its own dotted spelling.
pub proof fn law_java_name(s: Seq<char>)
    ensures
        java_name(s).len() == s.len(),
        !java_name(s).contains('/'),
        !s.contains('/') ==> java_name(s) == s,
{
    if !s.contains('/') {
        assert forall|i: int| 0 <= i < s.len() implies java_name(s)[i] == s[i] by {
            assert(s[i] != '/');
        }
        assert(java_name(s) =~= s);
    }
}

/// A class of the default package, of `java/lang` or of the class's own
/// package is never imported.
pub proof fn law_no_import_needed(mypkg: Seq<char>, cls: Seq<char>)
    requires
        package_of(cls).len() == 0 || package_of(cls) == "java/lang"@ || package_of(cls) == mypkg,
    ensures
        !needs_import_spec(mypkg, cls),
{
}

/// A class of any other package than the default package, `java/lang` and
/// the class's own package is always imported, subpackages included.
pub proof fn law_import_needed(mypkg: Seq<char>, cls: Seq<char>)
    requires
        package_of(cls).len() > 0,
        package_of(cls) != "java/lang"@,
        package_of(cls) != mypkg,
    ensures
        needs_import_spec(mypkg, cls),
{
}

/// Recording the same reference twice records it once.
pub proof fn law_record_import_idempotent(
    mypkg: Seq<char>,
    imports: Seq<Seq<char>>,
    cls: Seq<char>,
)
    ensures
        record_import(mypkg, record_import(mypkg, imports, cls), cls) == record_import(
            mypkg,
            imports,
            cls,
        ),
{
    if needs_import_spec(mypkg, cls) && !imports.contains(java_name(cls)) {
        assert(imports.push(java_name(cls))[imports.len() as int] == java_name(cls));
    }
}

/// Recording references never lists a name twice.
pub proof fn law_record_imports_distinct(
    mypkg: Seq<char>,
    imports: Seq<Seq<char>>,
    refs: Seq<Seq<char>>,
)
    requires
        imports.no_duplicates(),
    ensures
        record_imports(mypkg, imports, refs).no_duplicates(),
    decreases refs.len(),
{
    if refs.len() > 0 {
        law_record_imports_distinct(mypkg, imports, refs.drop_last());
        let before = record_imports(mypkg, imports, refs.drop_last());
        let name = java_name(refs.last());
        if needs_import_spec(mypkg, refs.last()) && !before.contains(name) {
            assert forall|i: int, j: int|
                0 <= i < before.push(name).len() && 0 <= j < before.push(name).len() && i != j
                implies before.push(name)[i] != before.push(name)[j] by {
                if i == before.len() as int {
                    assert(before[j] != name);
                } else if j == before.len() as int {
                    assert(before[i] != name);
                }
            }
        }
    }
}

/// After recording references, a name is listed exactly when it was listed
/// before or is the dotted name of a recorded reference that needs an import.
pub proof fn law_record_imports_members(
    mypkg: Seq<char>,
    imports: Seq<Seq<char>>,
    refs: Seq<Seq<char>>,
    x: Seq<char>,
)
    ensures
        record_imports(mypkg, imports, refs).contains(x) <==> (imports.contains(x) || exists|i: int|
            0 <= i < refs.len() && needs_import_spec(mypkg, #[trigger] refs[i]) && java_name(refs[i])
                == x),
    decreases refs.len(),
{
    if refs.len() > 0 {
        let rest = refs.drop_last();
        law_record_imports_members(mypkg, imports, rest, x);
        let before = record_imports(mypkg, imports, rest);
        let last = refs.last();
        if needs_import_spec(mypkg, last) && !before.contains(java_name(last)) {
            if before.push(java_name(last)).contains(x) && !before.contains(x) {
                let k = choose|k: int| 0 <= k < before.push(java_name(last)).len() && before.push(java_name(last))[k] == x;
                assert(k == before.len());
            }
            if before.contains(x) {
                let k = choose|k: int| 0 <= k < before.len() && before[k] == x;
                assert(before.push(java_name(last))[k] == x);
            }
            if x == java_name(last) {
                assert(before.push(java_name(last))[before.len() as int] == x);
            }
        }
        if exists|i: int|
            0 <= i < refs.len() && needs_import_spec(mypkg, #[trigger] refs[i]) && java_name(refs[i])
                == x {
            let i = choose|i: int|
                0 <= i < refs.len() && needs_import_spec(mypkg, #[trigger] refs[i]) && java_name(
                    refs[i],
                ) == x;
            if i < refs.len() - 1 {
                assert(rest[i] == refs[i]);
            }
        }
        if exists|i: int|
            0 <= i < rest.len() && needs_import_spec(mypkg, #[trigger] rest[i]) && java_name(rest[i])
                == x {
            let i = choose|i: int|
                0 <= i < rest.len() && needs_import_spec(mypkg, #[trigger] rest[i]) && java_name(
                    rest[i],
                ) == x;
            assert(refs[i] == rest[i]);
        }
    }
}

} // verus!
