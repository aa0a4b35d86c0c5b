//! The schema data model: nodes of an API description's data shapes,
//! together with their mathematical view.

use vstd::prelude::*;

verus! {

/// Primitive data kind of a schema node.
#[derive(Clone, Copy, Debug, PartialEq, Eq, Structural)]
pub enum DataType {
    Integer,
    Number,
    Text,
    Boolean,
    Array,
    Object,
    File,
}

/// Type-specific refinement of a data kind.
#[derive(Clone, Copy, Debug, PartialEq, Eq, Structural)]
pub enum DataTypeFormat {
    Int32,
    Int64,
    Float,
    Double,
    Byte,
    Binary,
    Date,
    DateTime,
    Password,
    Url,
    Uuid,
    Ip,
    IpV4,
    IpV6,
    Other,
}

/// A literal value carried by schema metadata: enum members, tag constants,
/// examples and vendor extensions.
#[derive(Debug, PartialEq, Eq)]
pub enum Literal {
    Null,
    Bool(bool),
    Int(i64),
    Str(String),
}

impl Clone for Literal {
    fn clone(&self) -> (r: Self)
        ensures
            r == *self,
    {
        match self {
            Literal::Null => Literal::Null,
            Literal::Bool(b) => Literal::Bool(*b),
            Literal::Int(i) => Literal::Int(*i),
            Literal::Str(s) => Literal::Str(s.clone()),
        }
    }
}

/// Mathematical value of a `Literal`.
pub ghost enum LiteralV {
    Null,
    Bool(bool),
    Int(int),
    Str(Seq<char>),
}

/// A schema node: the in-memory representation of a data shape.
///
/// A node with a non-empty `reference` is a pointer to a named definition and
/// carries no inline shape of its own.  A node with non-empty `any_of` or
/// `all_of` is a composition; its direct `data_type` is then secondary.
#[derive(Debug, PartialEq)]
pub struct Schema {
    pub name: Option<String>,
    pub reference: Option<String>,
    pub data_type: Option<DataType>,
    pub format: Option<DataTypeFormat>,
    pub properties: Vec<(String, Schema)>,
    pub required: Vec<String>,
    pub items: Option<Box<Schema>>,
    pub enum_: Vec<Literal>,
    pub const_: Option<Literal>,
    pub any_of: Vec<Schema>,
    pub all_of: Vec<Schema>,
    pub description: Option<String>,
    pub example: Option<Literal>,
    pub extensions: Vec<(String, Literal)>,
}

/// Mathematical value of a `Schema`.
#[verifier::ext_equal]
pub ghost struct SchemaV {
    pub name: Option<Seq<char>>,
    pub reference: Option<Seq<char>>,
    pub data_type: Option<DataType>,
    pub format: Option<DataTypeFormat>,
    pub properties: Seq<(Seq<char>, SchemaV)>,
    pub required: Seq<Seq<char>>,
    pub items: Option<Box<SchemaV>>,
    pub enum_: Seq<LiteralV>,
    pub const_: Option<LiteralV>,
    pub any_of: Seq<SchemaV>,
    pub all_of: Seq<SchemaV>,
    pub description: Option<Seq<char>>,
    pub example: Option<LiteralV>,
    pub extensions: Seq<(Seq<char>, LiteralV)>,
}

/// View of an optional owned string.
pub open spec fn opt_str_v(o: Option<String>) -> Option<Seq<char>> {
    match o {
        Some(s) => Some(s@),
        None => None,
    }
}

/// View of a literal.
pub open spec fn lit_v(l: Literal) -> LiteralV {
    match l {
        Literal::Null => LiteralV::Null,
        Literal::Bool(b) => LiteralV::Bool(b),
        Literal::Int(i) => LiteralV::Int(i as int),
        Literal::Str(s) => LiteralV::Str(s@),
    }
}

/// View of an optional literal.
pub open spec fn opt_lit_v(o: Option<Literal>) -> Option<LiteralV> {
    match o {
        Some(l) => Some(lit_v(l)),
        None => None,
    }
}

/// View of a sequence of (key, literal) pairs.
pub open spec fn ext_pairs_v(ps: Seq<(String, Literal)>) -> Seq<(Seq<char>, LiteralV)> {
    ps.map_values(|p: (String, Literal)| (p.0@, lit_v(p.1)))
}

/// View of a sequence of owned strings.
pub open spec fn strings_v(ss: Seq<String>) -> Seq<Seq<char>> {
    ss.map_values(|s: String| s@)
}

/// View of a sequence of (key, schema) pairs.
pub open spec fn props_v(ps: Seq<(String, Schema)>) -> Seq<(Seq<char>, SchemaV)>
    decreases ps,
{
    if ps.len() == 0 {
        Seq::empty()
    } else {
        props_v(ps.drop_last()).push((ps.last().0@, schema_v(ps.last().1)))
    }
}

/// View of a sequence of schema nodes.
pub open spec fn schemas_v(ss: Seq<Schema>) -> Seq<SchemaV>
    decreases ss,
{
    if ss.len() == 0 {
        Seq::empty()
    } else {
        schemas_v(ss.drop_last()).push(schema_v(ss.last()))
    }
}

/// View of a schema node.
pub open spec fn schema_v(s: Schema) -> SchemaV
    decreases s,
{
    SchemaV {
        name: opt_str_v(s.name),
        reference: opt_str_v(s.reference),
        data_type: s.data_type,
        format: s.format,
        properties: props_v(s.properties@),
        required: strings_v(s.required@),
        items: match s.items {
            Some(b) => Some(Box::new(schema_v(*b))),
            None => None,
        },
        enum_: s.enum_@.map_values(|l: Literal| lit_v(l)),
        const_: opt_lit_v(s.const_),
        any_of: schemas_v(s.any_of@),
        all_of: schemas_v(s.all_of@),
        description: opt_str_v(s.description),
        example: opt_lit_v(s.example),
        extensions: ext_pairs_v(s.extensions@),
    }
}

/// The view of a pair sequence has the same length and is built pointwise.
pub broadcast proof fn lemma_props_v(ps: Seq<(String, Schema)>)
    ensures
        (#[trigger] props_v(ps)).len() == ps.len(),
        forall|i: int|
            0 <= i < ps.len() ==> props_v(ps)[i] == (ps[i].0@, schema_v(ps[i].1)),
    decreases ps,
{
    if ps.len() > 0 {
        lemma_props_v(ps.drop_last());
    }
}

/// The view of a schema sequence has the same length and is built pointwise.
pub broadcast proof fn lemma_schemas_v(ss: Seq<Schema>)
    ensures
        (#[trigger] schemas_v(ss)).len() == ss.len(),
        forall|i: int| 0 <= i < ss.len() ==> schemas_v(ss)[i] == schema_v(ss[i]),
    decreases ss,
{
    if ss.len() > 0 {
        lemma_schemas_v(ss.drop_last());
    }
}

impl View for Schema {
    type V = SchemaV;

    open spec fn view(&self) -> SchemaV {
        schema_v(*self)
    }
}

/// One unfolding of the schema view, field by field.
pub broadcast proof fn lemma_schema_v_unfold(s: Schema)
    ensures
        (#[trigger] schema_v(s)) == (SchemaV {
            name: opt_str_v(s.name),
            reference: opt_str_v(s.reference),
            data_type: s.data_type,
            format: s.format,
            properties: props_v(s.properties@),
            required: strings_v(s.required@),
            items: match s.items {
                Some(b) => Some(Box::new(schema_v(*b))),
                None => None,
            },
            enum_: s.enum_@.map_values(|l: Literal| lit_v(l)),
            const_: opt_lit_v(s.const_),
            any_of: schemas_v(s.any_of@),
            all_of: schemas_v(s.all_of@),
            description: opt_str_v(s.description),
            example: opt_lit_v(s.example),
            extensions: ext_pairs_v(s.extensions@),
        }),
{
}

/// The empty schema value: every attribute absent.
pub open spec fn empty_schema_v() -> SchemaV {
    SchemaV {
        name: None,
        reference: None,
        data_type: None,
        format: None,
        properties: Seq::empty(),
        required: Seq::empty(),
        items: None,
        enum_: Seq::empty(),
        const_: None,
        any_of: Seq::empty(),
        all_of: Seq::empty(),
        description: None,
        example: None,
        extensions: Seq::empty(),
    }
}

impl Schema {
    /// A schema with every attribute absent.
    pub fn empty() -> (r: Schema)
        ensures
            r@ == empty_schema_v(),
    {
        let r = Schema {
            name: None,
            reference: None,
            data_type: None,
            format: None,
            properties: Vec::new(),
            required: Vec::new(),
            items: None,
            enum_: Vec::new(),
            const_: None,
            any_of: Vec::new(),
            all_of: Vec::new(),
            description: None,
            example: None,
            extensions: Vec::new(),
        };
        proof {
            lemma_props_v(r.properties@);
            lemma_schemas_v(r.any_of@);
            lemma_schemas_v(r.all_of@);
            assert(r@ =~~= empty_schema_v());
        }
        r
    }
}

/// Index of the first pair whose key reads as `k`, or `-1` if there is none.
pub open spec fn find_assoc<T>(ps: Seq<(String, T)>, k: Seq<char>) -> int
    decreases ps,
{
    if ps.len() == 0 {
        -1
    } else if ps[0].0@ == k {
        0
    } else {
        let r = find_assoc(ps.drop_first(), k);
        if r < 0 {
            -1
        } else {
            r + 1
        }
    }
}

/// The result of `find_assoc` is `-1` or a valid index bearing the key, and
/// it is `-1` exactly when no pair bears the key.
pub proof fn lemma_find_assoc<T>(ps: Seq<(String, T)>, k: Seq<char>)
    ensures
        find_assoc(ps, k) < 0 ==> forall|i: int| 0 <= i < ps.len() ==> ps[i].0@ != k,
        find_assoc(ps, k) >= 0 ==> find_assoc(ps, k) < ps.len() && ps[find_assoc(ps, k)].0@
            == k,
    decreases ps,
{
    if ps.len() > 0 && ps[0].0@ != k {
        lemma_find_assoc(ps.drop_first(), k);
        assert(forall|i: int| 1 <= i < ps.len() ==> ps[i] == ps.drop_first()[i - 1]);
    }
}

/// Map-style insertion into a key-value pair sequence: replace the first
/// pair bearing the key, or append a new pair.
pub open spec fn assoc_inserted<T>(ps: Seq<(String, T)>, k: String, v: T) -> Seq<(String, T)> {
    let i = find_assoc(ps, k@);
    if i < 0 {
        ps.push((k, v))
    } else {
        ps.update(i, (k, v))
    }
}

/// Index of the first entry of `m` whose key equals `k`, if there is one.
pub fn assoc_find<T>(m: &Vec<(String, T)>, k: &String) -> (r: Option<usize>)
    ensures
        match r {
            Some(i) => 0 <= i < m@.len() && find_assoc(m@, k@) == i,
            None => find_assoc(m@, k@) < 0,
        },
{
    let mut i: usize = 0;
    while i < m.len()
        invariant
            i <= m@.len(),
            forall|j: int| 0 <= j < i ==> m@[j].0@ != k@,
        decreases m.len() - i,
    {
        if m[i].0 == *k {
            proof {
                lemma_find_assoc_prefix(m@, k@, i as int);
            }
            return Some(i);
        }
        i += 1;
    }
    proof {
        lemma_find_assoc(m@, k@);
        if find_assoc(m@, k@) >= 0 {
            assert(m@[find_assoc(m@, k@)].0@ == k@);
            assert(false);
        }
    }
    None
}

/// Inserts `(k, v)` into the association vector `m`, replacing the first
/// entry whose key equals `k` if there is one.
pub fn assoc_insert<T>(m: &mut Vec<(String, T)>, k: String, v: T)
    ensures
        final(m)@ == assoc_inserted(old(m)@, k, v),
{
    let ghost ps = m@;
    match assoc_find(m, &k) {
        Some(i) => {
            let _ = m.remove(i);
            m.insert(i, (k, v));
            proof {
                assert(m@ =~= ps.update(i as int, (k, v)));
            }
        },
        None => {
            m.push((k, v));
        },
    }
}

/// If the first `i` keys differ from `k` and `ps[i]` bears `k`, then
/// `find_assoc` lands on `i`.
pub proof fn lemma_find_assoc_prefix<T>(ps: Seq<(String, T)>, k: Seq<char>, i: int)
    requires
        0 <= i < ps.len(),
        ps[i].0@ == k,
        forall|j: int| 0 <= j < i ==> ps[j].0@ != k,
    ensures
        find_assoc(ps, k) == i,
    decreases i,
{
    if i > 0 {
        assert(ps.drop_first()[i - 1] == ps[i]);
        assert(forall|j: int| 0 <= j < i - 1 ==> ps.drop_first()[j] == ps[j + 1]);
        lemma_find_assoc_prefix(ps.drop_first(), k, i - 1);
    }
}

/// Removal from a key-value pair sequence: drop the first pair bearing the
/// key, if any.
pub open spec fn assoc_removed<T>(ps: Seq<(String, T)>, k: Seq<char>) -> Seq<(String, T)> {
    let i = find_assoc(ps, k);
    if i < 0 {
        ps
    } else {
        ps.remove(i)
    }
}

/// Removes the first entry of `m` whose key equals `k`, if there is one.
pub fn assoc_remove<T>(m: &mut Vec<(String, T)>, k: &String)
    ensures
        final(m)@ == assoc_removed(old(m)@, k@),
{
    match assoc_find(m, k) {
        Some(i) => {
            let _ = m.remove(i);
        },
        None => (),
    }
}

/// Index of the first view-level pair whose key is `k`, or `-1`.
pub open spec fn find_key_v<T>(ps: Seq<(Seq<char>, T)>, k: Seq<char>) -> int
    decreases ps,
{
    if ps.len() == 0 {
        -1
    } else if ps[0].0 == k {
        0
    } else {
        let r = find_key_v(ps.drop_first(), k);
        if r < 0 {
            -1
        } else {
            r + 1
        }
    }
}

/// Map-style insertion into a view-level pair sequence.
pub open spec fn insert_key_v<T>(ps: Seq<(Seq<char>, T)>, k: Seq<char>, v: T) -> Seq<
    (Seq<char>, T),
> {
    let i = find_key_v(ps, k);
    if i < 0 {
        ps.push((k, v))
    } else {
        ps.update(i, (k, v))
    }
}

/// Set-style insertion into a view-level string sequence.
pub open spec fn insert_str_v(ss: Seq<Seq<char>>, k: Seq<char>) -> Seq<Seq<char>> {
    if ss.contains(k) {
        ss
    } else {
        ss.push(k)
    }
}

/// When two pair sequences carry the same keys position by position, the
/// two key searches land on the same index.
pub proof fn lemma_find_key_correspond<A, B>(
    ps: Seq<(String, A)>,
    qs: Seq<(Seq<char>, B)>,
    k: Seq<char>,
)
    requires
        qs.len() == ps.len(),
        forall|i: int| 0 <= i < ps.len() ==> qs[i].0 == #[trigger] ps[i].0@,
    ensures
        find_key_v(qs, k) == find_assoc(ps, k),
    decreases ps,
{
    if ps.len() > 0 && ps[0].0@ != k {
        assert(forall|i: int|
            0 <= i < ps.drop_first().len() ==> qs.drop_first()[i].0 == #[trigger] ps.drop_first()[i].0@);
        lemma_find_key_correspond(ps.drop_first(), qs.drop_first(), k);
    }
}

/// Inserting into a property list and then viewing it is viewing it and
/// then inserting the viewed pair.
pub proof fn lemma_props_v_insert(ps: Seq<(String, Schema)>, k: String, v: Schema)
    ensures
        props_v(assoc_inserted(ps, k, v)) == insert_key_v(props_v(ps), k@, schema_v(v)),
{
    lemma_props_v(ps);
    lemma_find_key_correspond(ps, props_v(ps), k@);
    let i = find_assoc(ps, k@);
    if i < 0 {
        lemma_props_v(ps.push((k, v)));
        assert(props_v(ps.push((k, v))) =~= props_v(ps).push((k@, schema_v(v))));
    } else {
        lemma_find_assoc(ps, k@);
        lemma_props_v(ps.update(i, (k, v)));
        assert(props_v(ps.update(i, (k, v))) =~= props_v(ps).update(i, (k@, schema_v(v))));
    }
}

/// Inserting into an extension list and then viewing it is viewing it and
/// then inserting the viewed pair.
pub proof fn lemma_ext_v_insert(ps: Seq<(String, Literal)>, k: String, v: Literal)
    ensures
        ext_pairs_v(assoc_inserted(ps, k, v)) == insert_key_v(ext_pairs_v(ps), k@, lit_v(v)),
{
    assert(ext_pairs_v(ps).len() == ps.len());
    assert(forall|i: int|
        0 <= i < ps.len() ==> ext_pairs_v(ps)[i] == (#[trigger] ps[i].0@, lit_v(ps[i].1)));
    lemma_find_key_correspond(ps, ext_pairs_v(ps), k@);
    let i = find_assoc(ps, k@);
    if i < 0 {
        assert(ext_pairs_v(ps.push((k, v))) =~= ext_pairs_v(ps).push((k@, lit_v(v))));
    } else {
        lemma_find_assoc(ps, k@);
        assert(ext_pairs_v(ps.update(i, (k, v))) =~= ext_pairs_v(ps).update(
            i,
            (k@, lit_v(v)),
        ));
    }
}

/// Inserting into a required set and then viewing it is viewing it and
/// then inserting the viewed string.
pub proof fn lemma_strings_v_insert(ss: Seq<String>, k: String)
    ensures
        strings_v(str_set_inserted(ss, k)) == insert_str_v(strings_v(ss), k@),
{
    assert(strings_v(ss).len() == ss.len());
    assert(forall|i: int| 0 <= i < ss.len() ==> strings_v(ss)[i] == #[trigger] ss[i]@);
    if seq_has_str(ss, k@) {
        let w = choose|i: int| 0 <= i < ss.len() && ss[i]@ == k@;
        assert(strings_v(ss)[w] == k@);
        assert(strings_v(ss).contains(k@));
    } else {
        if strings_v(ss).contains(k@) {
            let w = choose|i: int| 0 <= i < strings_v(ss).len() && strings_v(ss)[i] == k@;
            assert(ss[w]@ == k@);
            assert(false);
        }
        assert(strings_v(ss.push(k)) =~= strings_v(ss).push(k@));
    }
}

/// Set-style insertion bears the inserted string and keeps every member
/// it had.
pub proof fn lemma_insert_str_v_contains(ss: Seq<Seq<char>>, k: Seq<char>)
    ensures
        insert_str_v(ss, k).contains(k),
        forall|x: Seq<char>| ss.contains(x) ==> insert_str_v(ss, k).contains(x),
{
    if !ss.contains(k) {
        assert(ss.push(k)[ss.len() as int] == k);
        assert forall|x: Seq<char>| ss.contains(x) implies ss.push(k).contains(x) by {
            let w = choose|i: int| 0 <= i < ss.len() && ss[i] == x;
            assert(ss.push(k)[w] == x);
        }
    }
}

/// Whether some string of `ss` reads as `k`.
pub open spec fn seq_has_str(ss: Seq<String>, k: Seq<char>) -> bool {
    exists|i: int| 0 <= i < ss.len() && ss[i]@ == k
}

/// Set-style insertion into a string vector: append `k` unless an equal
/// string is already present.
pub open spec fn str_set_inserted(ss: Seq<String>, k: String) -> Seq<String> {
    if seq_has_str(ss, k@) {
        ss
    } else {
        ss.push(k)
    }
}

/// Appends `k` to `v` unless an equal string is already present.
pub fn str_set_insert(v: &mut Vec<String>, k: String)
    ensures
        final(v)@ == str_set_inserted(old(v)@, k),
{
    let ghost ss = v@;
    let mut i: usize = 0;
    while i < v.len()
        invariant
            i <= ss.len(),
            v@ == ss,
            forall|j: int| 0 <= j < i ==> ss[j]@ != k@,
        decreases v.len() - i,
    {
        if v[i] == k {
            return ;
        }
        i += 1;
    }
    v.push(k);
}

/// Whether `v` holds a string reading as `k`.
pub fn str_set_contains(v: &Vec<String>, k: &String) -> (r: bool)
    ensures
        r == seq_has_str(v@, k@),
{
    let mut i: usize = 0;
    while i < v.len()
        invariant
            i <= v@.len(),
            forall|j: int| 0 <= j < i ==> v@[j]@ != k@,
        decreases v.len() - i,
    {
        if v[i] == *k {
            return true;
        }
        i += 1;
    }
    false
}

/// Copy of an optional owned string, equal to the original.
pub fn clone_opt_string(o: &Option<String>) -> (r: Option<String>)
    ensures
        r == *o,
{
    match o {
        Some(s) => Some(s.clone()),
        None => None,
    }
}

/// Copy of an optional literal, equal to the original.
pub fn clone_opt_literal(o: &Option<Literal>) -> (r: Option<Literal>)
    ensures
        r == *o,
{
    match o {
        Some(l) => Some(l.clone()),
        None => None,
    }
}

/// Copy of a string vector, equal to the original.
pub fn clone_strings(v: &Vec<String>) -> (r: Vec<String>)
    ensures
        r@ == v@,
{
    let mut r: Vec<String> = Vec::new();
    let mut i: usize = 0;
    while i < v.len()
        invariant
            i <= v@.len(),
            r@ == v@.subrange(0, i as int),
        decreases v.len() - i,
    {
        r.push(v[i].clone());
        i += 1;
        proof {
            assert(r@ =~= v@.subrange(0, i as int));
        }
    }
    proof {
        assert(r@ =~= v@);
    }
    r
}

/// Copy of an extension list, equal to the original.
pub fn clone_extensions(v: &Vec<(String, Literal)>) -> (r: Vec<(String, Literal)>)
    ensures
        r@ == v@,
{
    let mut r: Vec<(String, Literal)> = Vec::new();
    let mut i: usize = 0;
    while i < v.len()
        invariant
            i <= v@.len(),
            r@ == v@.subrange(0, i as int),
        decreases v.len() - i,
    {
        r.push((v[i].0.clone(), v[i].1.clone()));
        i += 1;
        proof {
            assert(r@ =~= v@.subrange(0, i as int));
        }
    }
    proof {
        assert(r@ =~= v@);
    }
    r
}

/// Copy of a literal vector, equal to the original.
pub fn clone_literals(v: &Vec<Literal>) -> (r: Vec<Literal>)
    ensures
        r@ == v@,
{
    let mut r: Vec<Literal> = Vec::new();
    let mut i: usize = 0;
    while i < v.len()
        invariant
            i <= v@.len(),
            r@ == v@.subrange(0, i as int),
        decreases v.len() - i,
    {
        r.push(v[i].clone());
        i += 1;
        proof {
            assert(r@ =~= v@.subrange(0, i as int));
        }
    }
    proof {
        assert(r@ =~= v@);
    }
    r
}

/// Copy of a property list whose view equals the original's.
fn clone_props(v: &Vec<(String, Schema)>) -> (r: Vec<(String, Schema)>)
    ensures
        props_v(r@) == props_v(v@),
    decreases v@,
{
    let mut r: Vec<(String, Schema)> = Vec::new();
    let mut i: usize = 0;
    while i < v.len()
        invariant
            i <= v@.len(),
            r@.len() == i,
            forall|j: int|
                0 <= j < i ==> r@[j].0 == v@[j].0 && schema_v(r@[j].1) == schema_v(v@[j].1),
        decreases v.len() - i,
    {
        assert(decreases_to!(v@ => v@[i as int]));
        let c = clone_schema(&v[i].1);
        r.push((v[i].0.clone(), c));
        i += 1;
    }
    proof {
        lemma_props_v(r@);
        lemma_props_v(v@);
        assert(props_v(r@) =~= props_v(v@));
    }
    r
}

/// Copy of a schema vector whose view equals the original's.
fn clone_schemas(v: &Vec<Schema>) -> (r: Vec<Schema>)
    ensures
        schemas_v(r@) == schemas_v(v@),
    decreases v@,
{
    let mut r: Vec<Schema> = Vec::new();
    let mut i: usize = 0;
    while i < v.len()
        invariant
            i <= v@.len(),
            r@.len() == i,
            forall|j: int| 0 <= j < i ==> schema_v(r@[j]) == schema_v(v@[j]),
        decreases v.len() - i,
    {
        assert(decreases_to!(v@ => v@[i as int]));
        let c = clone_schema(&v[i]);
        r.push(c);
        i += 1;
    }
    proof {
        lemma_schemas_v(r@);
        lemma_schemas_v(v@);
        assert(schemas_v(r@) =~= schemas_v(v@));
    }
    r
}

/// Copy of a schema node whose view equals the original's.
pub fn clone_schema(s: &Schema) -> (r: Schema)
    ensures
        r@ == s@,
    decreases *s,
{
    assert(decreases_to!(*s => s.properties@));
    assert(decreases_to!(*s => s.any_of@));
    assert(decreases_to!(*s => s.all_of@));
    let items = match &s.items {
        Some(b) => {
            assert(decreases_to!(*s => s.items));
            let c = clone_schema(&**b);
            Some(Box::new(c))
        },
        None => None,
    };
    let r = Schema {
        name: clone_opt_string(&s.name),
        reference: clone_opt_string(&s.reference),
        data_type: s.data_type,
        format: s.format,
        properties: clone_props(&s.properties),
        required: clone_strings(&s.required),
        items,
        enum_: clone_literals(&s.enum_),
        const_: clone_opt_literal(&s.const_),
        any_of: clone_schemas(&s.any_of),
        all_of: clone_schemas(&s.all_of),
        description: clone_opt_string(&s.description),
        example: clone_opt_literal(&s.example),
        extensions: clone_extensions(&s.extensions),
    };
    proof {
        assert(r@ =~~= s@);
    }
    r
}

impl Clone for Schema {
    /// Deep copy: the copy's view equals the original's.
    fn clone(&self) -> (r: Self)
        ensures
            r@ == self@,
    {
        clone_schema(self)
    }
}

} // verus!
