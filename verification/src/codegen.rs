//! Rust source for the callables of a platform library. Each callable becomes
//! a marker struct with its `Callable` and `EcsType` impls; the callables of a
//! system (named `system::callable`) are grouped in a module of their own.
use vstd::prelude::*;
use vstd::string::*;
use crate::chars::same_text;
use convert_case::{Case, Casing};
use crate::pattern::{regex_compiles, regex_matches, Pattern};

verus! {

/// The case a name is converted to.
#[derive(Clone, Copy, Debug, PartialEq, Eq)]
pub enum WordCase {
    /// Words capitalised and joined: `SetVolume`.
    Pascal,
    /// Words in upper case, joined by `_`: `SET_VOLUME`.
    ScreamingSnake,
}

/// The text `s` converted to `case` by convert_case.
pub uninterp spec fn cased(s: Seq<char>, case: WordCase) -> Seq<char>;

/// `Casing::to_case` of convert_case: `s` converted to `case`. The result is a
/// function of `s` and `case` alone, named `cased`; nothing more is claimed.
#[verifier::external_body]
fn to_case(s: &str, case: WordCase) -> (r: String)
    ensures
        r@ == cased(s@, case),
{
    let case = match case {
        WordCase::Pascal => Case::Pascal,
        WordCase::ScreamingSnake => Case::ScreamingSnake,
    };
    s.to_case(case)
}

/// One callable of a platform library: its name (`system::callable` for one
/// that belongs to a system), and the flatbuffers types of its parameters and
/// of its return value where it has them.
pub struct Callable {
    pub name: String,
    pub parameter_data: Option<String>,
    pub return_value: Option<String>,
}

/// A platform library: its name, its callables, and the flatbuffers schema of
/// the types they exchange.
pub struct PlatformLibrary {
    name: String,
    functions: Vec<Callable>,
    fbs: String,
}

/// What a platform library holds.
pub struct PlatformLibraryView {
    pub name: Seq<char>,
    pub functions: Seq<Callable>,
    pub fbs: Seq<char>,
}

impl View for PlatformLibrary {
    type V = PlatformLibraryView;

    closed spec fn view(&self) -> PlatformLibraryView {
        PlatformLibraryView { name: self.name@, functions: self.functions@, fbs: self.fbs@ }
    }
}

impl PlatformLibrary {
    /// A platform library of the given name, callables and schema.
    pub fn new(name: String, functions: Vec<Callable>, fbs: String) -> (r: Self)
        ensures
            r@ == (PlatformLibraryView { name: name@, functions: functions@, fbs: fbs@ }),
    {
        PlatformLibrary { name, functions, fbs }
    }

    /// The name of the library.
    pub fn name(&self) -> (r: &str)
        ensures
            r@ == self@.name,
    {
        self.name.as_str()
    }

    /// The flatbuffers schema of the library.
    pub fn fbs(&self) -> (r: &str)
        ensures
            r@ == self@.fbs,
    {
        self.fbs.as_str()
    }

    /// The callables of the library, in order.
    pub fn functions(&self) -> (r: &[Callable])
        ensures
            r@ == self@.functions,
    {
        self.functions.as_slice()
    }
}

// ---------------------------------------------------------------------------
// Names with a system part

/// Whether `s` holds `::` at `i`.
pub open spec fn separator_at(s: Seq<char>, i: int) -> bool {
    0 <= i && i + 1 < s.len() && s[i] == ':' && s[i + 1] == ':'
}

/// The first position at or after `i` where `s` holds `::`, or -1.
pub open spec fn separator_from(s: Seq<char>, i: int) -> int
    decreases s.len() - i,
{
    if i + 1 >= s.len() {
        -1
    } else if separator_at(s, i) {
        i
    } else {
        separator_from(s, i + 1)
    }
}

/// The first position where `s` holds `::`, or -1.
pub open spec fn first_separator(s: Seq<char>) -> int {
    separator_from(s, 0)
}

/// Whether `s` holds `::`.
pub open spec fn has_separator(s: Seq<char>) -> bool {
    first_separator(s) >= 0
}

/// What comes before the first `::` of `s`.
pub open spec fn before_separator(s: Seq<char>) -> Seq<char> {
    s.subrange(0, first_separator(s))
}

/// What comes after the first `::` of `s`.
pub open spec fn after_separator(s: Seq<char>) -> Seq<char> {
    s.subrange(first_separator(s) + 2, s.len() as int)
}

proof fn lemma_separator_from(s: Seq<char>, i: int)
    requires
        0 <= i,
    ensures
        separator_from(s, i) == -1 || (i <= separator_from(s, i) && separator_at(
            s,
            separator_from(s, i),
        )),
    decreases s.len() - i,
{
    if i + 1 < s.len() && !separator_at(s, i) {
        lemma_separator_from(s, i + 1);
    }
}

/// The position of the first `::` of `s`.
fn separator_index(s: &str) -> (r: Option<usize>)
    ensures
        match r {
            Some(i) => i as int == first_separator(s@) && i + 2 <= s@.len(),
            None => first_separator(s@) == -1,
        },
{
    let n = s.unicode_len();
    let mut i: usize = 0;
    while i + 1 < n
        invariant
            n == s@.len(),
            i == 0 || i < n,
            separator_from(s@, i as int) == first_separator(s@),
        decreases n - i,
    {
        if s.get_char(i) == ':' && s.get_char(i + 1) == ':' {
            return Some(i);
        }
        i = i + 1;
    }
    None
}

/// Whether `s` begins with `p`.
fn starts_with(s: &str, p: &str) -> (b: bool)
    ensures
        b == p@.is_prefix_of(s@),
{
    let n = s.unicode_len();
    let m = p.unicode_len();
    if m > n {
        return false;
    }
    let mut i: usize = 0;
    while i < m
        invariant
            n == s@.len(),
            m == p@.len(),
            m <= n,
            i <= m,
            forall|j: int| 0 <= j < i ==> s@[j] == p@[j],
        decreases m - i,
    {
        if s.get_char(i) != p.get_char(i) {
            assert(p@[i as int] != s@.subrange(0, m as int)[i as int]);
            return false;
        }
        i = i + 1;
    }
    assert(p@ =~= s@.subrange(0, m as int));
    true
}

// ---------------------------------------------------------------------------
// The systems of a library, in order

/// `a` comes before `b` in the order of `str`, comparing from position `i` on:
/// the first differing character decides, and a text comes before the longer
/// texts it begins. (`str` compares UTF-8 bytes, which order as the characters
/// they encode.)
pub open spec fn text_less_from(a: Seq<char>, b: Seq<char>, i: int) -> bool
    decreases a.len() - i,
{
    if i >= a.len() {
        i < b.len()
    } else if i >= b.len() {
        false
    } else if a[i] != b[i] {
        (a[i] as int) < (b[i] as int)
    } else {
        text_less_from(a, b, i + 1)
    }
}

/// `a` comes before `b` in the order of `str`.
pub open spec fn text_less(a: Seq<char>, b: Seq<char>) -> bool {
    text_less_from(a, b, 0)
}

proof fn lemma_text_less_irreflexive(a: Seq<char>, i: int)
    requires
        0 <= i,
    ensures
        !text_less_from(a, a, i),
    decreases a.len() - i,
{
    if i < a.len() {
        lemma_text_less_irreflexive(a, i + 1);
    }
}

proof fn lemma_text_less_transitive(a: Seq<char>, b: Seq<char>, c: Seq<char>, i: int)
    requires
        0 <= i,
        text_less_from(a, b, i),
        text_less_from(b, c, i),
    ensures
        text_less_from(a, c, i),
    decreases a.len() - i,
{
    if i < a.len() && i < b.len() && i < c.len() && a[i] == b[i] && b[i] == c[i] {
        lemma_text_less_transitive(a, b, c, i + 1);
    }
}

proof fn lemma_text_less_total(a: Seq<char>, b: Seq<char>, i: int)
    requires
        0 <= i <= a.len(),
        i <= b.len(),
        a.subrange(0, i) == b.subrange(0, i),
        a != b,
    ensures
        text_less_from(a, b, i) || text_less_from(b, a, i),
    decreases a.len() - i,
{
    if i < a.len() && i < b.len() && a[i] == b[i] {
        assert(a.subrange(0, i + 1) =~= a.subrange(0, i).push(a[i]));
        assert(b.subrange(0, i + 1) =~= b.subrange(0, i).push(b[i]));
        lemma_text_less_total(a, b, i + 1);
    } else if i < a.len() && i < b.len() {
        assert((a[i] as int) != (b[i] as int));
    } else if i == a.len() && i == b.len() {
        assert(a =~= a.subrange(0, i));
        assert(b =~= b.subrange(0, i));
    }
}

/// Two different texts: one of them comes before the other.
proof fn lemma_text_less_connected(a: Seq<char>, b: Seq<char>)
    requires
        a != b,
    ensures
        text_less(a, b) || text_less(b, a),
{
    assert(a.subrange(0, 0) =~= b.subrange(0, 0));
    lemma_text_less_total(a, b, 0);
}

/// `x` put into `sorted` before the first text that does not come before it,
/// unless that text is `x` itself.
pub open spec fn insert_unique(sorted: Seq<Seq<char>>, x: Seq<char>) -> Seq<Seq<char>>
    decreases sorted.len(),
{
    if sorted.len() == 0 {
        seq![x]
    } else if sorted[0] == x {
        sorted
    } else if text_less(x, sorted[0]) {
        seq![x] + sorted
    } else {
        seq![sorted[0]] + insert_unique(sorted.drop_first(), x)
    }
}

/// The texts of `s`, sorted in the order of `str`, each once.
pub open spec fn sorted_unique(s: Seq<Seq<char>>) -> Seq<Seq<char>>
    decreases s.len(),
{
    if s.len() == 0 {
        Seq::empty()
    } else {
        insert_unique(sorted_unique(s.drop_last()), s.last())
    }
}

/// Each text of `s` comes before the texts after it.
pub open spec fn strictly_sorted(s: Seq<Seq<char>>) -> bool {
    forall|j: int, k: int| 0 <= j < k < s.len() ==> text_less(#[trigger] s[j], #[trigger] s[k])
}

proof fn lemma_insert_unique(sorted: Seq<Seq<char>>, x: Seq<char>)
    requires
        strictly_sorted(sorted),
    ensures
        strictly_sorted(insert_unique(sorted, x)),
        forall|y: Seq<char>| #[trigger]
            insert_unique(sorted, x).contains(y) <==> (sorted.contains(y) || y == x),
    decreases sorted.len(),
{
    if sorted.len() == 0 {
        assert(seq![x][0] == x);
    } else if sorted[0] == x {
    } else if text_less(x, sorted[0]) {
        let r = seq![x] + sorted;
        assert forall|j: int, k: int| 0 <= j < k < r.len() implies text_less(
            #[trigger] r[j],
            #[trigger] r[k],
        ) by {
            if j == 0 && k > 1 {
                assert(text_less(sorted[0], sorted[k - 1]));
                lemma_text_less_transitive(x, sorted[0], sorted[k - 1], 0);
            }
        }
        assert forall|y: Seq<char>| #[trigger] r.contains(y) <==> (sorted.contains(y) || y == x) by {
            if sorted.contains(y) {
                let j = choose|j: int| 0 <= j < sorted.len() && sorted[j] == y;
                assert(r[j + 1] == y);
            }
            if y == x {
                assert(r[0] == y);
            }
        }
    } else {
        let rest = sorted.drop_first();
        assert forall|j: int, k: int| 0 <= j < k < rest.len() implies text_less(
            #[trigger] rest[j],
            #[trigger] rest[k],
        ) by {
            assert(rest[j] == sorted[j + 1] && rest[k] == sorted[k + 1]);
        }
        lemma_insert_unique(rest, x);
        let inner = insert_unique(rest, x);
        lemma_text_less_connected(x, sorted[0]);
        let r = seq![sorted[0]] + inner;
        assert forall|j: int, k: int| 0 <= j < k < r.len() implies text_less(
            #[trigger] r[j],
            #[trigger] r[k],
        ) by {
            if j == 0 {
                assert(inner.contains(r[k]));
                if r[k] != x {
                    let m = choose|m: int| 0 <= m < rest.len() && rest[m] == r[k];
                    assert(sorted[m + 1] == r[k]);
                }
            } else {
                assert(r[j] == inner[j - 1] && r[k] == inner[k - 1]);
            }
        }
        assert forall|y: Seq<char>| #[trigger] r.contains(y) <==> (sorted.contains(y) || y == x) by {
            if r.contains(y) {
                let j = choose|j: int| 0 <= j < r.len() && r[j] == y;
                if j == 0 {
                    assert(sorted[0] == y);
                } else {
                    assert(inner.contains(y));
                    if rest.contains(y) {
                        let m = choose|m: int| 0 <= m < rest.len() && rest[m] == y;
                        assert(sorted[m + 1] == y);
                    }
                }
            }
            if sorted.contains(y) {
                let j = choose|j: int| 0 <= j < sorted.len() && sorted[j] == y;
                if j == 0 {
                    assert(r[0] == y);
                } else {
                    assert(rest[j - 1] == y);
                    assert(inner.contains(y));
                    let m = choose|m: int| 0 <= m < inner.len() && inner[m] == y;
                    assert(r[m + 1] == y);
                }
            }
            if y == x {
                assert(inner.contains(y));
                let m = choose|m: int| 0 <= m < inner.len() && inner[m] == y;
                assert(r[m + 1] == y);
            }
        }
    }
}

/// The systems of a library come out sorted in the order of `str`, each once,
/// and they are exactly the texts that were given.
pub proof fn lemma_sorted_unique(s: Seq<Seq<char>>)
    ensures
        strictly_sorted(sorted_unique(s)),
        forall|y: Seq<char>| #[trigger] sorted_unique(s).contains(y) <==> s.contains(y),
    decreases s.len(),
{
    if s.len() > 0 {
        lemma_sorted_unique(s.drop_last());
        lemma_insert_unique(sorted_unique(s.drop_last()), s.last());
        assert forall|y: Seq<char>| #[trigger] sorted_unique(s).contains(y) <==> s.contains(y) by {
            if s.drop_last().contains(y) {
                let j = choose|j: int| 0 <= j < s.drop_last().len() && s.drop_last()[j] == y;
                assert(s[j] == y);
            }
            if s.contains(y) {
                let j = choose|j: int| 0 <= j < s.len() && s[j] == y;
                if j < s.len() - 1 {
                    assert(s.drop_last()[j] == y);
                }
            }
        }
    }
}

/// The systems named by the first `n` callables, in the order they come.
pub open spec fn systems_named(functions: Seq<Callable>, n: int) -> Seq<Seq<char>>
    decreases n,
{
    if n <= 0 {
        Seq::empty()
    } else {
        let name = functions[n - 1].name@;
        if has_separator(name) {
            systems_named(functions, n - 1).push(before_separator(name))
        } else {
            systems_named(functions, n - 1)
        }
    }
}

/// The systems of a library: sorted in the order of `str`, each once.
pub open spec fn system_prefixes(lib: PlatformLibraryView) -> Seq<Seq<char>> {
    sorted_unique(systems_named(lib.functions, lib.functions.len() as int))
}

/// The texts that `v` refers to.
pub open spec fn texts(v: Seq<&str>) -> Seq<Seq<char>> {
    v.map_values(|s: &str| s@)
}

/// Whether `a` comes before `b` in the order of `str`.
fn text_comes_before(a: &str, b: &str) -> (r: bool)
    ensures
        r == text_less(a@, b@),
{
    let n = a.unicode_len();
    let m = b.unicode_len();
    let mut i: usize = 0;
    while i < n && i < m && a.get_char(i) == b.get_char(i)
        invariant
            n == a@.len(),
            m == b@.len(),
            i <= n,
            i <= m,
            text_less_from(a@, b@, i as int) == text_less(a@, b@),
        decreases n - i,
    {
        i = i + 1;
    }
    if i >= n {
        i < m
    } else if i >= m {
        false
    } else {
        let x = a.get_char(i) as u32;
        let y = b.get_char(i) as u32;
        x < y
    }
}

proof fn lemma_insert_unique_skip(s: Seq<Seq<char>>, x: Seq<char>, i: int)
    requires
        0 <= i <= s.len(),
        forall|j: int| 0 <= j < i ==> s[j] != x && !text_less(x, #[trigger] s[j]),
    ensures
        insert_unique(s, x) == s.subrange(0, i) + insert_unique(s.subrange(i, s.len() as int), x),
    decreases i,
{
    if i == 0 {
        assert(s.subrange(0, 0) + insert_unique(s.subrange(0, s.len() as int), x) =~= insert_unique(
            s,
            x,
        )) by {
            assert(s.subrange(0, s.len() as int) =~= s);
        }
    } else {
        let rest = s.drop_first();
        assert(s[0] != x && !text_less(x, s[0]));
        lemma_insert_unique_skip(rest, x, i - 1);
        assert(rest.subrange(i - 1, rest.len() as int) =~= s.subrange(i, s.len() as int));
        assert(seq![s[0]] + rest.subrange(0, i - 1) =~= s.subrange(0, i));
        assert(insert_unique(s, x) =~= s.subrange(0, i) + insert_unique(
            s.subrange(i, s.len() as int),
            x,
        ));
    }
}

/// Puts `x` into the sorted texts `sorted` where it belongs, unless it is
/// there already.
fn insert_text<'a>(sorted: &mut Vec<&'a str>, x: &'a str)
    ensures
        texts(final(sorted)@) == insert_unique(texts(old(sorted)@), x@),
{
    let n = sorted.len();
    let mut i: usize = 0;
    while i < n && !same_text(sorted[i], x) && !text_comes_before(x, sorted[i])
        invariant
            n == sorted.len(),
            i <= n,
            forall|j: int| 0 <= j < i ==> sorted@[j]@ != x@ && !text_less(x@, sorted@[j]@),
        decreases n - i,
    {
        i = i + 1;
    }
    let ghost s = texts(sorted@);
    proof {
        assert forall|j: int| 0 <= j < i implies s[j] != x@ && !text_less(x@, #[trigger] s[j]) by {
            assert(s[j] == sorted@[j]@);
        }
        lemma_insert_unique_skip(s, x@, i as int);
    }
    if i < n && same_text(sorted[i], x) {
        assert(s.subrange(i as int, n as int)[0] == x@);
        assert(s.subrange(0, i as int) + s.subrange(i as int, n as int) =~= s);
    } else {
        if i < n {
            assert(s.subrange(i as int, n as int)[0] == s[i as int]);
        }
        sorted.insert(i, x);
        assert(texts(sorted@) =~= s.subrange(0, i as int) + (seq![x@] + s.subrange(
            i as int,
            n as int,
        )));
        if i == n {
            assert(s.subrange(i as int, n as int) =~= Seq::<Seq<char>>::empty());
            assert(seq![x@] + Seq::<Seq<char>>::empty() =~= seq![x@]);
        }
    }
}

/// The systems of `lib`: sorted in the order of `str`, each once.
fn system_prefixes_of<'a>(lib: &'a PlatformLibrary) -> (r: Vec<&'a str>)
    ensures
        texts(r@) == system_prefixes(lib@),
{
    let mut r: Vec<&'a str> = Vec::new();
    let n = lib.functions.len();
    let mut j: usize = 0;
    proof {
        assert(texts(r@) =~= Seq::<Seq<char>>::empty());
    }
    while j < n
        invariant
            n == lib@.functions.len(),
            j <= n,
            texts(r@) == sorted_unique(systems_named(lib@.functions, j as int)),
        decreases n - j,
    {
        let name = lib.functions[j].name.as_str();
        let ghost before = systems_named(lib@.functions, j as int);
        match separator_index(name) {
            Some(k) => {
                let prefix = name.substring_char(0, k);
                insert_text(&mut r, prefix);
                assert(before.push(prefix@).drop_last() =~= before);
            },
            None => {},
        }
        j = j + 1;
    }
    r
}

// ---------------------------------------------------------------------------
// The text of one callable

/// The pattern that finds a flatbuffers table named `ident` in a schema.
pub open spec fn table_pattern(ident: Seq<char>) -> Seq<char> {
    "table\\s"@ + ident
}

/// Whether `events` lists `ident`.
pub open spec fn lists(events: Option<&[&str]>, ident: Seq<char>) -> bool {
    match events {
        Some(e) => exists|i: int| 0 <= i < e@.len() && (#[trigger] e@[i])@ == ident,
        None => false,
    }
}

/// The Rust type of a callable's parameters or return value: a table of the
/// schema, or one of the additional events where `with_events` holds, takes
/// the lifetime `'a`; no type at all is `Pod<()>`.
pub open spec fn type_text(
    ty: Option<String>,
    fbs: Seq<char>,
    events: Option<&[&str]>,
    with_events: bool,
) -> Seq<char> {
    match ty {
        None => "::void_public::callable::Pod<()>"@,
        Some(ident) => if regex_matches(table_pattern(ident@), fbs) || (with_events && lists(
            events,
            ident@,
        )) {
            ident@ + "<'a>"@
        } else {
            ident@
        },
    }
}

/// Whether the patterns for the types of `f` compile.
pub open spec fn types_compile(f: Callable) -> bool {
    &&& (f.parameter_data matches Some(ident) ==> regex_compiles(table_pattern(ident@)))
    &&& (f.return_value matches Some(ident) ==> regex_compiles(table_pattern(ident@)))
}

/// The name of the static that holds the component id of the callable
/// `function_name`.
pub open spec fn cid_name(function_name: Seq<char>) -> Seq<char> {
    "_"@ + cased(function_name, WordCase::ScreamingSnake) + "_CID"@
}

/// The text of the callable `f`, written as `function_name`, indented by
/// `indent`: its marker struct, its `Callable` impl, the static for its
/// component id and its `EcsType` impl.
pub open spec fn callable_text(
    lib: PlatformLibraryView,
    events: Option<&[&str]>,
    f: Callable,
    function_name: Seq<char>,
    indent: Seq<char>,
) -> Seq<char> {
    let parameters = type_text(f.parameter_data, lib.fbs, events, true);
    let return_value = type_text(f.return_value, lib.fbs, events, false);
    let cid = cid_name(function_name);
    let component = lib.name + "::"@ + f.name@;
    Seq::empty() + indent + "pub struct "@ + function_name + "Fn;\n\n"@ + indent
        + "impl ::void_public::callable::Callable for "@ + function_name + "Fn {\n"@ + indent
        + "    type Parameters<'a> = "@ + parameters + ";\n"@ + indent
        + "    type ReturnValue<'a> = "@ + return_value + ";\n"@ + indent + "}\n\n"@ + indent
        + "static mut "@ + cid + ": Option<::void_public::ComponentId> = None;\n\n"@ + indent
        + "impl ::void_public::EcsType for "@ + function_name + "Fn {\n"@ + indent
        + "    fn id() -> ::void_public::ComponentId {\n"@ + indent + "        unsafe { "@ + cid
        + ".expect(\"ComponentId unassigned\") }\n"@ + indent + "    }\n\n"@ + indent
        + "    unsafe fn set_id(id: ::void_public::ComponentId) {\n"@ + indent
        + "        unsafe { "@ + cid + " = Some(id); }\n"@ + indent + "    }\n\n"@ + indent
        + "    fn string_id() -> &'static ::std::ffi::CStr {\n"@ + indent + "        c\""@
        + component + "\"\n"@ + indent + "    }\n"@ + indent + "}\n\n"@
}

/// What registers the callable `f`, written as `function_name`: the byte
/// string of its component name, and the path of its `set_id`.
pub open spec fn set_id_entry(lib: PlatformLibraryView, f: Callable, function_name: Seq<char>) -> (
    Seq<char>,
    Seq<char>,
) {
    let module_prefix = if has_separator(f.name@) {
        before_separator(f.name@) + "::"@
    } else {
        Seq::empty()
    };
    (
        "b\""@ + lib.name + "::"@ + f.name@ + "\""@,
        module_prefix + function_name + "Fn::set_id"@,
    )
}

/// Whether `events` lists `ident`.
fn is_listed(events: Option<&[&str]>, ident: &str) -> (r: bool)
    ensures
        r == lists(events, ident@),
{
    if events.is_none() {
        return false;
    }
    let e = events.unwrap();
    let n = e.len();
    let mut i: usize = 0;
    while i < n
        invariant
            events == Some(e),
            n == e@.len(),
            i <= n,
            forall|j: int| 0 <= j < i ==> (#[trigger] e@[j])@ != ident@,
        decreases n - i,
    {
        if same_text(e[i], ident) {
            assert(events->0 == e);
            assert((e@[i as int])@ == ident@);
            return true;
        }
        i = i + 1;
    }
    false
}

/// Whether the pattern for the type `ty` compiles.
fn type_compiles(ty: &Option<String>) -> (r: bool)
    ensures
        r == (ty matches Some(ident) ==> regex_compiles(table_pattern(ident@))),
{
    match ty {
        None => true,
        Some(ident) => {
            let source = String::from_str("table\\s").concat(ident.as_str());
            Pattern::compile(source.as_str()).is_some()
        },
    }
}

/// The Rust type of `ty`.
fn type_text_of(ty: &Option<String>, fbs: &str, events: Option<&[&str]>, with_events: bool) -> (r:
    String)
    requires
        ty matches Some(ident) ==> regex_compiles(table_pattern(ident@)),
    ensures
        r@ == type_text(*ty, fbs@, events, with_events),
{
    match ty {
        None => String::from_str("::void_public::callable::Pod<()>"),
        Some(ident) => {
            let mut text = ident.clone();
            let source = String::from_str("table\\s").concat(ident.as_str());
            match Pattern::compile(source.as_str()) {
                Some(pattern) => {
                    if pattern.is_match(fbs) || (with_events && is_listed(events, ident.as_str())) {
                        text.append("<'a>");
                    }
                },
                None => {},
            }
            text
        },
    }
}

/// Writes the callable `function`, named `function_name`, at the end of
/// `output`, and gives back what registers it.
fn append_callable(
    output: &mut String,
    platform_library: &PlatformLibrary,
    additional_events: Option<&[&str]>,
    function: &Callable,
    function_name: &str,
    function_index: usize,
    indentation: &str,
) -> (r: (String, String))
    requires
        function_index < platform_library@.functions.len(),
        platform_library@.functions[function_index as int] == *function,
        types_compile(*function),
    ensures
        final(output)@ == old(output)@ + callable_text(
            platform_library@,
            additional_events,
            *function,
            function_name@,
            indentation@,
        ),
        (r.0@, r.1@) == set_id_entry(platform_library@, *function, function_name@),
{
    let parameters = type_text_of(
        &function.parameter_data,
        platform_library.fbs.as_str(),
        additional_events,
        true,
    );
    let return_value = type_text_of(
        &function.return_value,
        platform_library.fbs.as_str(),
        additional_events,
        false,
    );
    let upper = to_case(function_name, WordCase::ScreamingSnake);
    let cid = String::from_str("_").concat(upper.as_str()).concat("_CID");
    let component = platform_library.name.clone().concat("::").concat(function.name.as_str());

    let mut text = String::new();
    text.append(indentation);
    text.append("pub struct ");
    text.append(function_name);
    text.append("Fn;\n\n");
    text.append(indentation);
    text.append("impl ::void_public::callable::Callable for ");
    text.append(function_name);
    text.append("Fn {\n");
    text.append(indentation);
    text.append("    type Parameters<'a> = ");
    text.append(parameters.as_str());
    text.append(";\n");
    text.append(indentation);
    text.append("    type ReturnValue<'a> = ");
    text.append(return_value.as_str());
    text.append(";\n");
    text.append(indentation);
    text.append("}\n\n");
    text.append(indentation);
    text.append("static mut ");
    text.append(cid.as_str());
    text.append(": Option<::void_public::ComponentId> = None;\n\n");
    text.append(indentation);
    text.append("impl ::void_public::EcsType for ");
    text.append(function_name);
    text.append("Fn {\n");
    text.append(indentation);
    text.append("    fn id() -> ::void_public::ComponentId {\n");
    text.append(indentation);
    text.append("        unsafe { ");
    text.append(cid.as_str());
    text.append(".expect(\"ComponentId unassigned\") }\n");
    text.append(indentation);
    text.append("    }\n\n");
    text.append(indentation);
    text.append("    unsafe fn set_id(id: ::void_public::ComponentId) {\n");
    text.append(indentation);
    text.append("        unsafe { ");
    text.append(cid.as_str());
    text.append(" = Some(id); }\n");
    text.append(indentation);
    text.append("    }\n\n");
    text.append(indentation);
    text.append("    fn string_id() -> &'static ::std::ffi::CStr {\n");
    text.append(indentation);
    text.append("        c\"");
    text.append(component.as_str());
    text.append("\"\n");
    text.append(indentation);
    text.append("    }\n");
    text.append(indentation);
    text.append("}\n\n");
    output.append(text.as_str());

    let name = platform_library.functions[function_index].name.as_str();
    let module_prefix = match separator_index(name) {
        Some(k) => String::from_str(name.substring_char(0, k)).concat("::"),
        None => String::new(),
    };
    let entry = String::from_str("b\"").concat(component.as_str()).concat("\"");
    let setter = module_prefix.concat(function_name).concat("Fn::set_id");
    (entry, setter)
}

// ---------------------------------------------------------------------------
// The whole output

/// The comment that opens the output.
pub open spec fn header_text() -> Seq<char> {
    Seq::empty() + "// The generated code may contain build warnings. Consider using\n"@
        + "// an annotation such as the following where this file is included:\n"@
        + "// `#![allow(clippy::all, clippy::pedantic, warnings, unused)]`\n\n"@
}

/// `acc` followed by the callables among the first `n` that belong to no
/// system, each under its own name in Pascal case.
pub open spec fn free_callables(
    acc: Seq<char>,
    lib: PlatformLibraryView,
    events: Option<&[&str]>,
    n: int,
) -> Seq<char>
    decreases n,
{
    if n <= 0 {
        acc
    } else {
        let before = free_callables(acc, lib, events, n - 1);
        let f = lib.functions[n - 1];
        if has_separator(f.name@) {
            before
        } else {
            before + callable_text(lib, events, f, cased(f.name@, WordCase::Pascal), ""@)
        }
    }
}

/// `acc` followed by the callables among the first `n` whose names begin with
/// `system`, each under the part of its name after the first `::`, in Pascal
/// case, indented by four spaces.
pub open spec fn system_callables(
    acc: Seq<char>,
    lib: PlatformLibraryView,
    events: Option<&[&str]>,
    system: Seq<char>,
    n: int,
) -> Seq<char>
    decreases n,
{
    if n <= 0 {
        acc
    } else {
        let before = system_callables(acc, lib, events, system, n - 1);
        let f = lib.functions[n - 1];
        if system.is_prefix_of(f.name@) {
            before + callable_text(
                lib,
                events,
                f,
                cased(after_separator(f.name@), WordCase::Pascal),
                "    "@,
            )
        } else {
            before
        }
    }
}

/// `acc` followed by the modules of the first `k` of `systems`.
pub open spec fn system_modules(
    acc: Seq<char>,
    lib: PlatformLibraryView,
    events: Option<&[&str]>,
    systems: Seq<Seq<char>>,
    k: int,
) -> Seq<char>
    decreases k,
{
    if k <= 0 {
        acc
    } else {
        let system = systems[k - 1];
        let opened = system_modules(acc, lib, events, systems, k - 1) + "pub mod "@ + cased(
            system,
            WordCase::Pascal,
        ) + " {\n"@ + "    use super::*;\n\n"@;
        system_callables(opened, lib, events, system, lib.functions.len() as int) + "}\n\n"@
    }
}

/// The output for `lib`: the opening comment, the callables that belong to no
/// system, a module for each system in the order of `str`, and last the event
/// types that flatc made of the schema.
pub open spec fn output_text(
    lib: PlatformLibraryView,
    events: Option<&[&str]>,
    events_generated: Seq<char>,
) -> Seq<char> {
    let n = lib.functions.len() as int;
    let systems = system_prefixes(lib);
    system_modules(free_callables(header_text(), lib, events, n), lib, events, systems, systems.len() as int)
        + "\n\n"@ + events_generated
}

/// Each callable whose name begins with the name of a system has a `::` in
/// its name.
pub open spec fn systems_well_named(lib: PlatformLibraryView) -> bool {
    forall|k: int, j: int|
        0 <= k < system_prefixes(lib).len() && 0 <= j < lib.functions.len() && (#[trigger] system_prefixes(
            lib,
        )[k]).is_prefix_of(#[trigger] lib.functions[j].name@) ==> has_separator(lib.functions[j].name@)
}

/// The inputs on which the output is defined: the patterns for all the types
/// compile, and the systems are well named.
pub open spec fn generation_defined(lib: PlatformLibraryView) -> bool {
    &&& forall|j: int| 0 <= j < lib.functions.len() ==> types_compile(#[trigger] lib.functions[j])
    &&& systems_well_named(lib)
}

/// The Rust source for the callables of `platform_library`, followed by
/// `events_generated`, the event types that flatc made of its schema. A table
/// of the schema, and for parameters one of `additional_events`, takes the
/// lifetime `'a`.
pub fn generate_output(
    platform_library: &PlatformLibrary,
    additional_events: Option<&[&str]>,
    events_generated: &str,
) -> (r: String)
    requires
        generation_defined(platform_library@),
    ensures
        r@ == output_text(platform_library@, additional_events, events_generated@),
{
    let lib = platform_library;
    let mut output = String::new();
    output.append("// The generated code may contain build warnings. Consider using\n");
    output.append("// an annotation such as the following where this file is included:\n");
    output.append("// `#![allow(clippy::all, clippy::pedantic, warnings, unused)]`\n\n");

    let n = lib.functions.len();
    let mut index: usize = 0;
    while index < n
        invariant
            n == lib@.functions.len(),
            index <= n,
            generation_defined(lib@),
            output@ == free_callables(header_text(), lib@, additional_events, index as int),
        decreases n - index,
    {
        let function = &lib.functions[index];
        if separator_index(function.name.as_str()).is_none() {
            assert(types_compile(lib@.functions[index as int]));
            let function_name = to_case(function.name.as_str(), WordCase::Pascal);
            let _ = append_callable(
                &mut output,
                lib,
                additional_events,
                function,
                function_name.as_str(),
                index,
                "",
            );
        }
        index = index + 1;
    }

    let prefixes = system_prefixes_of(lib);
    let ghost systems = system_prefixes(lib@);
    let ghost free = output@;
    let m = prefixes.len();
    let mut k: usize = 0;
    while k < m
        invariant
            n == lib@.functions.len(),
            m == systems.len(),
            texts(prefixes@) == systems,
            systems == system_prefixes(lib@),
            k <= m,
            generation_defined(lib@),
            output@ == system_modules(free, lib@, additional_events, systems, k as int),
        decreases m - k,
    {
        let prefix = prefixes[k];
        assert(prefix@ == systems[k as int]);
        let module_name = to_case(prefix, WordCase::Pascal);
        output.append("pub mod ");
        output.append(module_name.as_str());
        output.append(" {\n");
        output.append("    use super::*;\n\n");
        let ghost opened = output@;
        let mut index: usize = 0;
        while index < n
            invariant
                n == lib@.functions.len(),
                index <= n,
                generation_defined(lib@),
                k < m,
                m == systems.len(),
                systems == system_prefixes(lib@),
                prefix@ == systems[k as int],
                output@ == system_callables(opened, lib@, additional_events, prefix@, index as int),
            decreases n - index,
        {
            let function = &lib.functions[index];
            if starts_with(function.name.as_str(), prefix) {
                assert(has_separator(lib@.functions[index as int].name@));
                assert(types_compile(lib@.functions[index as int]));
                let name = function.name.as_str();
                let len = name.unicode_len();
                let k = separator_index(name).unwrap();
                let rest = name.substring_char(k + 2, len);
                let function_name = to_case(rest, WordCase::Pascal);
                let _ = append_callable(
                    &mut output,
                    lib,
                    additional_events,
                    function,
                    function_name.as_str(),
                    index,
                    "    ",
                );
            }
            index = index + 1;
        }
        output.append("}\n\n");
        k = k + 1;
    }

    output.append("\n\n");
    output.append(events_generated);
    output
}

/// The Rust source for `platform_library` as `generate_output` writes it, or
/// `None` where that output is not defined: where the pattern for one of the
/// types does not compile, or a callable whose name begins with the name of a
/// system has no `::` in its name.
pub fn checked_generate_output(
    platform_library: &PlatformLibrary,
    additional_events: Option<&[&str]>,
    events_generated: &str,
) -> (r: Option<String>)
    ensures
        r is Some <==> generation_defined(platform_library@),
        r matches Some(s) ==> s@ == output_text(
            platform_library@,
            additional_events,
            events_generated@,
        ),
{
    let lib = platform_library;
    let n = lib.functions.len();
    let mut j: usize = 0;
    while j < n
        invariant
            lib == platform_library,
            n == lib@.functions.len(),
            j <= n,
            forall|i: int| 0 <= i < j ==> types_compile(#[trigger] lib@.functions[i]),
        decreases n - j,
    {
        let f = &lib.functions[j];
        if !type_compiles(&f.parameter_data) || !type_compiles(&f.return_value) {
            assert(!types_compile(lib@.functions[j as int]));
            assert(!generation_defined(lib@));
            return None;
        }
        j = j + 1;
    }
    let prefixes = system_prefixes_of(lib);
    let ghost systems = system_prefixes(lib@);
    let m = prefixes.len();
    let mut k: usize = 0;
    while k < m
        invariant
            lib == platform_library,
            n == lib@.functions.len(),
            m == systems.len(),
            texts(prefixes@) == systems,
            systems == system_prefixes(lib@),
            k <= m,
            forall|i: int| 0 <= i < n ==> types_compile(#[trigger] lib@.functions[i]),
            forall|a: int, b: int|
                0 <= a < k && 0 <= b < n && (#[trigger] systems[a]).is_prefix_of(
                    #[trigger] lib@.functions[b].name@,
                ) ==> has_separator(lib@.functions[b].name@),
        decreases m - k,
    {
        let prefix = prefixes[k];
        assert(prefix@ == systems[k as int]);
        let mut j: usize = 0;
        while j < n
            invariant
                lib == platform_library,
                n == lib@.functions.len(),
                j <= n,
                k < m,
                m == systems.len(),
                systems == system_prefixes(lib@),
                prefix@ == systems[k as int],
                forall|b: int|
                    0 <= b < j && systems[k as int].is_prefix_of(
                        #[trigger] lib@.functions[b].name@,
                    ) ==> has_separator(lib@.functions[b].name@),
            decreases n - j,
        {
            let name = lib.functions[j].name.as_str();
            if starts_with(name, prefix) && separator_index(name).is_none() {
                assert(system_prefixes(lib@)[k as int].is_prefix_of(
                    lib@.functions[j as int].name@,
                ));
                assert(!systems_well_named(lib@));
                return None;
            }
            j = j + 1;
        }
        k = k + 1;
    }
    Some(generate_output(lib, additional_events, events_generated))
}

} // verus!
