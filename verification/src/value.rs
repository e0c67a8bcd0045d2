use vstd::prelude::*;

use crate::text::is_json_number;
use crate::text::str_eq;

verus! {

/// The mathematical model of a context value: a finitely nested tree whose
/// containers are either a map from names to values (an association sequence
/// in insertion order, keys unique) or an ordered list of values, and whose
/// leaves are typed scalars.  Floating-point payloads are carried as their
/// decimal text, one variant per width.
pub enum Val {
    /// A map from names to values, in insertion order, keys unique.
    Mapping(Seq<(Seq<char>, Val)>),
    /// An ordered, append-only sequence of values.
    Listing(Seq<Val>),
    /// A UTF-8 string payload.
    Str(Seq<char>),
    /// A boolean payload.
    Bool(bool),
    /// An 8-bit signed integer payload.
    I8(i8),
    /// A 16-bit signed integer payload.
    I16(i16),
    /// A 32-bit signed integer payload.
    I32(i32),
    /// A 64-bit signed integer payload.
    I64(i64),
    /// An 8-bit unsigned integer payload.
    U8(u8),
    /// A 16-bit unsigned integer payload.
    U16(u16),
    /// A 32-bit unsigned integer payload.
    U32(u32),
    /// A 64-bit unsigned integer payload.
    U64(u64),
    /// A 32-bit floating-point payload, held as its decimal text.
    F32Text(Seq<char>),
    /// A 64-bit floating-point payload, held as its decimal text.
    F64Text(Seq<char>),
}

/// The position of the first entry bearing key `k`, or `-1` when no entry
/// does.
pub open spec fn key_index(es: Seq<(Seq<char>, Val)>, k: Seq<char>) -> int
    decreases es.len(),
{
    if es.len() == 0 {
        -1
    } else if es[0].0 == k {
        0
    } else {
        let r = key_index(es.drop_first(), k);
        if r < 0 {
            -1
        } else {
            r + 1
        }
    }
}

/// Whether no two entries bear the same key.
pub open spec fn unique_keys(es: Seq<(Seq<char>, Val)>) -> bool {
    forall|i: int, j: int| 0 <= i < j < es.len() ==> (#[trigger] es[i]).0 != (#[trigger] es[j]).0
}

impl Val {
    /// The entries of a map-shaped value; empty for any other shape.
    pub open spec fn entries(self) -> Seq<(Seq<char>, Val)> {
        match self {
            Val::Mapping(es) => es,
            _ => Seq::empty(),
        }
    }

    /// The items of a list-shaped value; empty for any other shape.
    pub open spec fn items(self) -> Seq<Val> {
        match self {
            Val::Listing(vs) => vs,
            _ => Seq::empty(),
        }
    }

    /// Whether a map-shaped value holds an entry under `k`.
    pub open spec fn has_key(self, k: Seq<char>) -> bool {
        key_index(self.entries(), k) >= 0
    }

    /// The value a map-shaped value holds under `k`.
    pub open spec fn map_get(self, k: Seq<char>) -> Val
        recommends
            self.has_key(k),
    {
        self.entries()[key_index(self.entries(), k)].1
    }

    /// The map after inserting `v` under `k`: an existing entry for `k` is
    /// overwritten in place, a new key is appended at the end.
    pub open spec fn map_insert(self, k: Seq<char>, v: Val) -> Val
        recommends
            self is Mapping,
    {
        let es = self.entries();
        let i = key_index(es, k);
        if i < 0 {
            Val::Mapping(es.push((k, v)))
        } else {
            Val::Mapping(es.update(i, (k, v)))
        }
    }

    /// The list after appending `v` at the end.
    pub open spec fn list_push(self, v: Val) -> Val
        recommends
            self is Listing,
    {
        Val::Listing(self.items().push(v))
    }

    /// The finite map abstraction of a map-shaped value.
    pub open spec fn as_map(self) -> Map<Seq<char>, Val> {
        Map::new(|k: Seq<char>| self.has_key(k), |k: Seq<char>| self.map_get(k))
    }

    /// Well-formedness: every map in the tree has unique keys, and every
    /// floating-point payload holds a valid JSON number literal.
    pub open spec fn wf(self) -> bool
        decreases self,
    {
        match self {
            Val::Mapping(es) => unique_keys(es) && Val::all_wf_entries(es),
            Val::Listing(vs) => Val::all_wf_items(vs),
            Val::F32Text(t) => is_json_number(t),
            Val::F64Text(t) => is_json_number(t),
            _ => true,
        }
    }

    /// Whether every entry's value is well-formed.
    pub open spec fn all_wf_entries(es: Seq<(Seq<char>, Val)>) -> bool
        decreases es,
    {
        es.len() == 0 || (Val::all_wf_entries(es.drop_last()) && es.last().1.wf())
    }

    /// Whether every item is well-formed.
    pub open spec fn all_wf_items(vs: Seq<Val>) -> bool
        decreases vs,
    {
        vs.len() == 0 || (Val::all_wf_items(vs.drop_last()) && vs.last().wf())
    }
}

/// `all_wf_entries` holds exactly when each entry's value is well-formed.
pub proof fn lemma_all_wf_entries(es: Seq<(Seq<char>, Val)>)
    ensures
        Val::all_wf_entries(es) <==> (forall|i: int|
            0 <= i < es.len() ==> (#[trigger] es[i]).1.wf()),
    decreases es.len(),
{
    if es.len() > 0 {
        lemma_all_wf_entries(es.drop_last());
        assert forall|i: int| 0 <= i < es.len() - 1 implies es.drop_last()[i] == es[i] by {}
        if forall|i: int| 0 <= i < es.len() ==> (#[trigger] es[i]).1.wf() {
            assert(es.last() == es[es.len() - 1]);
        }
    }
}

/// `all_wf_items` holds exactly when each item is well-formed.
pub proof fn lemma_all_wf_items(vs: Seq<Val>)
    ensures
        Val::all_wf_items(vs) <==> (forall|i: int| 0 <= i < vs.len() ==> (#[trigger] vs[i]).wf()),
    decreases vs.len(),
{
    if vs.len() > 0 {
        lemma_all_wf_items(vs.drop_last());
        assert forall|i: int| 0 <= i < vs.len() - 1 implies vs.drop_last()[i] == vs[i] by {}
        if forall|i: int| 0 <= i < vs.len() ==> (#[trigger] vs[i]).wf() {
            assert(vs.last() == vs[vs.len() - 1]);
        }
    }
}

/// What `key_index` finds: a position in range bearing the key, with no
/// earlier entry bearing it, or `-1` exactly when the key is absent.
pub proof fn lemma_key_index(es: Seq<(Seq<char>, Val)>, k: Seq<char>)
    ensures
        -1 <= key_index(es, k) < es.len(),
        key_index(es, k) >= 0 ==> (#[trigger] es[key_index(es, k)]).0 == k,
        key_index(es, k) == -1 <==> (forall|i: int|
            0 <= i < es.len() ==> (#[trigger] es[i]).0 != k),
        forall|i: int| 0 <= i < key_index(es, k) ==> (#[trigger] es[i]).0 != k,
    decreases es.len(),
{
    if es.len() > 0 && es[0].0 != k {
        lemma_key_index(es.drop_first(), k);
        assert forall|i: int| 1 <= i < es.len() implies es.drop_first()[i - 1] == es[i] by {}
    }
}

/// `key_index` returns the first position bearing the key.
pub proof fn lemma_key_index_first(es: Seq<(Seq<char>, Val)>, k: Seq<char>, i: int)
    requires
        0 <= i < es.len(),
        es[i].0 == k,
        forall|j: int| 0 <= j < i ==> (#[trigger] es[j]).0 != k,
    ensures
        key_index(es, k) == i,
    decreases es.len(),
{
    if i > 0 {
        assert(es[0].0 != k);
        assert(es.drop_first()[i - 1] == es[i]);
        assert forall|j: int| 0 <= j < i - 1 implies (#[trigger] es.drop_first()[j]).0 != k by {
            assert(es.drop_first()[j] == es[j + 1]);
        }
        lemma_key_index_first(es.drop_first(), k, i - 1);
    }
}

/// `key_index` after appending one entry: an existing position is kept, an
/// absent key is found at the end exactly when the appended entry bears it.
pub proof fn lemma_key_index_push(es: Seq<(Seq<char>, Val)>, e: (Seq<char>, Val), k: Seq<char>)
    ensures
        key_index(es.push(e), k) == (if key_index(es, k) >= 0 {
            key_index(es, k)
        } else if e.0 == k {
            es.len() as int
        } else {
            -1
        }),
    decreases es.len(),
{
    let p = es.push(e);
    assert(p.len() == es.len() + 1);
    if es.len() == 0 {
        assert(p[0] == e);
        if e.0 == k {
            assert(key_index(p, k) == 0);
            assert(key_index(es, k) == -1);
        } else {
            assert(p.drop_first() =~= Seq::<(Seq<char>, Val)>::empty());
            assert(key_index(p.drop_first(), k) == -1);
            assert(key_index(p, k) == -1);
            assert(key_index(es, k) == -1);
        }
    } else {
        assert(p[0] == es[0]);
        if es[0].0 == k {
            assert(key_index(p, k) == 0);
            assert(key_index(es, k) == 0);
        } else {
            assert(p.drop_first() =~= es.drop_first().push(e));
            lemma_key_index_push(es.drop_first(), e, k);
            let r = key_index(es.drop_first(), k);
            assert(key_index(p.drop_first(), k) == (if r >= 0 {
                r
            } else if e.0 == k {
                es.drop_first().len() as int
            } else {
                -1
            }));
            assert(key_index(es, k) == (if r < 0 {
                -1
            } else {
                r + 1
            }));
        }
    }
}

/// `key_index` agrees on two entry sequences whose keys match `k` at the same
/// positions.
pub proof fn lemma_key_index_same(
    es1: Seq<(Seq<char>, Val)>,
    es2: Seq<(Seq<char>, Val)>,
    k: Seq<char>,
)
    requires
        es1.len() == es2.len(),
        forall|i: int|
            0 <= i < es1.len() ==> (((#[trigger] es1[i]).0 == k) <==> ((#[trigger] es2[i]).0
                == k)),
    ensures
        key_index(es1, k) == key_index(es2, k),
    decreases es1.len(),
{
    if es1.len() > 0 {
        assert((es1[0].0 == k) <==> (es2[0].0 == k));
        if es1[0].0 != k {
            assert forall|i: int| 0 <= i < es1.len() - 1 implies (((#[trigger] es1.drop_first()[
                i]).0 == k) <==> ((#[trigger] es2.drop_first()[i]).0 == k)) by {
                assert(es1.drop_first()[i] == es1[i + 1]);
                assert(es2.drop_first()[i] == es2[i + 1]);
            }
            lemma_key_index_same(es1.drop_first(), es2.drop_first(), k);
        }
    }
}

/// Insertion semantics: inserting `v` under `k` yields a map in which exactly
/// `k` maps to `v`, every other key is bound as before, keys stay unique, and
/// the map abstraction is the mathematical insert.  Re-inserting an existing
/// key therefore replaces its value outright.
pub proof fn lemma_map_insert_semantics(m: Val, k: Seq<char>, v: Val)
    requires
        m is Mapping,
        unique_keys(m.entries()),
    ensures
        m.map_insert(k, v) is Mapping,
        unique_keys(m.map_insert(k, v).entries()),
        m.map_insert(k, v).has_key(k),
        m.map_insert(k, v).map_get(k) == v,
        forall|k2: Seq<char>|
            k2 != k ==> (#[trigger] m.map_insert(k, v).has_key(k2)) == m.has_key(k2),
        forall|k2: Seq<char>|
            k2 != k && m.has_key(k2) ==> (#[trigger] m.map_insert(k, v).map_get(k2)) == m.map_get(
                k2,
            ),
        m.map_insert(k, v).as_map() == m.as_map().insert(k, v),
{
    let es = m.entries();
    lemma_key_index(es, k);
    let i = key_index(es, k);
    let m2 = m.map_insert(k, v);
    let es2 = m2.entries();
    if i < 0 {
        assert(es2 == es.push((k, v)));
        lemma_key_index_push(es, (k, v), k);
        assert(key_index(es2, k) == es.len());
        assert(es2[es.len() as int] == (k, v));
        assert forall|a: int, b: int| 0 <= a < b < es2.len() implies (#[trigger] es2[a]).0 != (
        #[trigger] es2[b]).0 by {
            if b == es.len() {
                assert(es2[a] == es[a]);
                assert(es[a].0 != k);
            } else {
                assert(es2[a] == es[a]);
                assert(es2[b] == es[b]);
            }
        }
        assert forall|k2: Seq<char>| k2 != k implies (#[trigger] m2.has_key(k2)) == m.has_key(
            k2,
        ) by {
            lemma_key_index_push(es, (k, v), k2);
        }
        assert forall|k2: Seq<char>| k2 != k && m.has_key(k2) implies (#[trigger] m2.map_get(k2))
            == m.map_get(k2) by {
            lemma_key_index_push(es, (k, v), k2);
            lemma_key_index(es, k2);
            assert(es2[key_index(es, k2)] == es[key_index(es, k2)]);
        }
    } else {
        assert(es2 == es.update(i, (k, v)));
        assert(es[i].0 == k);
        assert forall|j: int| 0 <= j < es2.len() implies (#[trigger] es2[j]).0 == es[j].0 by {}
        lemma_key_index_first(es2, k, i);
        assert(key_index(es2, k) == i);
        assert(es2[i] == (k, v));
        assert forall|a: int, b: int| 0 <= a < b < es2.len() implies (#[trigger] es2[a]).0 != (
        #[trigger] es2[b]).0 by {
            assert(es[a].0 != es[b].0);
        }
        assert forall|k2: Seq<char>| k2 != k implies (#[trigger] m2.has_key(k2)) == m.has_key(
            k2,
        ) by {
            lemma_key_index_same(es, es2, k2);
        }
        assert forall|k2: Seq<char>| k2 != k && m.has_key(k2) implies (#[trigger] m2.map_get(k2))
            == m.map_get(k2) by {
            lemma_key_index_same(es, es2, k2);
            lemma_key_index(es, k2);
            assert(key_index(es, k2) != i);
            assert(es2[key_index(es, k2)] == es[key_index(es, k2)]);
        }
    }
    assert(m2.as_map() =~= m.as_map().insert(k, v));
}

/// Insertion keeps the whole tree well-formed when the inserted value is.
pub proof fn lemma_map_insert_wf(m: Val, k: Seq<char>, v: Val)
    requires
        m is Mapping,
        m.wf(),
        v.wf(),
    ensures
        m.map_insert(k, v).wf(),
{
    lemma_map_insert_semantics(m, k, v);
    let es = m.entries();
    lemma_key_index(es, k);
    lemma_all_wf_entries(es);
    let i = key_index(es, k);
    if i < 0 {
        lemma_all_wf_entries(es.push((k, v)));
        assert forall|j: int| 0 <= j < es.push((k, v)).len() implies (#[trigger] es.push(
            (k, v),
        )[j]).1.wf() by {
            if j < es.len() {
                assert(es.push((k, v))[j] == es[j]);
            }
        }
    } else {
        lemma_all_wf_entries(es.update(i, (k, v)));
        assert forall|j: int| 0 <= j < es.update(i, (k, v)).len() implies (#[trigger] es.update(
            i,
            (k, v),
        )[j]).1.wf() by {
            if j != i {
                assert(es.update(i, (k, v))[j] == es[j]);
            }
        }
    }
}

/// A context value as it is built across the boundary: a tree of maps, lists
/// and typed scalars.  The shape of a container is fixed at construction; a
/// map-shaped value only ever takes `set_*` calls and a list-shaped value
/// only ever takes `append_*` calls.  Floating-point payloads are carried as
/// their decimal text so that the tree itself stays exact.
#[derive(Debug, PartialEq, Eq)]
pub enum mj_value {
    /// A map from names to values, in insertion order, keys unique.
    Mapping(Vec<(String, mj_value)>),
    /// An ordered, append-only sequence of values.
    Listing(Vec<mj_value>),
    /// A UTF-8 string payload.
    Str(String),
    /// A boolean payload.
    Bool(bool),
    /// An 8-bit signed integer payload.
    I8(i8),
    /// A 16-bit signed integer payload.
    I16(i16),
    /// A 32-bit signed integer payload.
    I32(i32),
    /// A 64-bit signed integer payload.
    I64(i64),
    /// An 8-bit unsigned integer payload.
    U8(u8),
    /// A 16-bit unsigned integer payload.
    U16(u16),
    /// A 32-bit unsigned integer payload.
    U32(u32),
    /// A 64-bit unsigned integer payload.
    U64(u64),
    /// A 32-bit floating-point payload, held as its decimal text.
    F32Text(String),
    /// A 64-bit floating-point payload, held as its decimal text.
    F64Text(String),
}

/// The model of a sequence of map entries.
pub open spec fn entries_view(es: Seq<(String, mj_value)>) -> Seq<(Seq<char>, Val)>
    decreases es,
{
    if es.len() == 0 {
        Seq::empty()
    } else {
        entries_view(es.drop_last()).push((es.last().0@, es.last().1@))
    }
}

/// The model of a sequence of list items.
pub open spec fn items_view(vs: Seq<mj_value>) -> Seq<Val>
    decreases vs,
{
    if vs.len() == 0 {
        Seq::empty()
    } else {
        items_view(vs.drop_last()).push(vs.last()@)
    }
}

impl View for mj_value {
    type V = Val;

    open spec fn view(&self) -> Val
        decreases self,
    {
        match self {
            mj_value::Mapping(es) => Val::Mapping(entries_view(es@)),
            mj_value::Listing(vs) => Val::Listing(items_view(vs@)),
            mj_value::Str(s) => Val::Str(s@),
            mj_value::Bool(b) => Val::Bool(*b),
            mj_value::I8(x) => Val::I8(*x),
            mj_value::I16(x) => Val::I16(*x),
            mj_value::I32(x) => Val::I32(*x),
            mj_value::I64(x) => Val::I64(*x),
            mj_value::U8(x) => Val::U8(*x),
            mj_value::U16(x) => Val::U16(*x),
            mj_value::U32(x) => Val::U32(*x),
            mj_value::U64(x) => Val::U64(*x),
            mj_value::F32Text(t) => Val::F32Text(t@),
            mj_value::F64Text(t) => Val::F64Text(t@),
        }
    }
}

/// The entry model is the pointwise view of the entries.
pub proof fn lemma_entries_view(es: Seq<(String, mj_value)>)
    ensures
        entries_view(es).len() == es.len(),
        forall|i: int|
            0 <= i < es.len() ==> entries_view(es)[i] == ((#[trigger] es[i]).0@, es[i].1@),
    decreases es,
{
    if es.len() > 0 {
        lemma_entries_view(es.drop_last());
        assert(entries_view(es) == entries_view(es.drop_last()).push(
            (es.last().0@, es.last().1@),
        ));
        assert(entries_view(es.drop_last()).len() == es.drop_last().len());
        assert(entries_view(es).len() == es.len());
        assert forall|i: int| 0 <= i < es.len() - 1 implies es.drop_last()[i] == es[i] by {}
        assert(es.last() == es[es.len() - 1]);
    } else {
        assert(entries_view(es).len() == 0);
    }
}

/// The item model is the pointwise view of the items.
pub proof fn lemma_items_view(vs: Seq<mj_value>)
    ensures
        items_view(vs).len() == vs.len(),
        forall|i: int|
            0 <= i < vs.len() ==> items_view(vs)[i] == (#[trigger] vs[i])@,
    decreases vs,
{
    if vs.len() > 0 {
        lemma_items_view(vs.drop_last());
        assert(items_view(vs) == items_view(vs.drop_last()).push(vs.last()@));
        assert(items_view(vs.drop_last()).len() == vs.drop_last().len());
        assert(items_view(vs).len() == vs.len());
        assert forall|i: int| 0 <= i < vs.len() - 1 implies vs.drop_last()[i] == vs[i] by {}
        assert(vs.last() == vs[vs.len() - 1]);
    } else {
        assert(items_view(vs).len() == 0);
    }
}

/// Finds the position of the entry bearing `key`, if any.
fn find_key(es: &Vec<(String, mj_value)>, key: &str) -> (r: Option<usize>)
    ensures
        (match r {
            Option::Some(i) => i < es.len() && key_index(entries_view(es@), key@) == i as int,
            Option::None => key_index(entries_view(es@), key@) == -1,
        }),
{
    let ghost ves = entries_view(es@);
    proof {
        lemma_entries_view(es@);
    }
    let mut i: usize = 0;
    while i < es.len()
        invariant
            i <= es.len(),
            ves == entries_view(es@),
            ves.len() == es@.len(),
            forall|j: int|
                0 <= j < es@.len() ==> ves[j] == ((#[trigger] es@[j]).0@, es@[j].1@),
            forall|j: int| 0 <= j < i ==> (#[trigger] ves[j]).0 != key@,
        decreases es.len() - i,
    {
        if str_eq(es[i].0.as_str(), key) {
            proof {
                lemma_key_index_first(ves, key@, i as int);
            }
            return Some(i);
        }
        i = i + 1;
    }
    proof {
        lemma_key_index(ves, key@);
    }
    None
}

impl mj_value {
    /// Creates a fresh, empty, map-shaped value.
    pub fn new_map() -> (r: mj_value)
        ensures
            r@ == Val::Mapping(Seq::<(Seq<char>, Val)>::empty()),
            r@.wf(),
    {
        let es: Vec<(String, mj_value)> = Vec::new();
        mj_value::Mapping(es)
    }

    /// Creates a fresh, empty, list-shaped value.
    pub fn new_list() -> (r: mj_value)
        ensures
            r@ == Val::Listing(Seq::<Val>::empty()),
            r@.wf(),
    {
        let vs: Vec<mj_value> = Vec::new();
        mj_value::Listing(vs)
    }

    /// Inserts `v` under `key` in a map-shaped value, overwriting any prior
    /// entry with that key.
    fn set_entry(&mut self, key: &str, v: mj_value)
        requires
            old(self)@ is Mapping,
        ensures
            final(self)@ == old(self)@.map_insert(key@, v@),
    {
        match self {
            mj_value::Mapping(es) => {
                let ghost old_es = es@;
                let ghost ves = entries_view(es@);
                let found = find_key(es, key);
                proof {
                    lemma_entries_view(old_es);
                }
                match found {
                    Option::Some(i) => {
                        let ks = String::from_str(key);
                        es.set(i, (ks, v));
                        proof {
                            lemma_entries_view(es@);
                            assert(es@ == old_es.update(i as int, (ks, v)));
                            assert(entries_view(es@).len() == ves.update(
                                i as int,
                                (key@, v@),
                            ).len());
                            assert forall|j: int| 0 <= j < es@.len() implies entries_view(es@)[j]
                                == ves.update(i as int, (key@, v@))[j] by {
                                assert(entries_view(es@)[j] == (es@[j].0@, es@[j].1@));
                                if j != i as int {
                                    assert(es@[j] == old_es[j]);
                                    assert(ves[j] == (old_es[j].0@, old_es[j].1@));
                                }
                            }
                            assert(entries_view(es@) =~= ves.update(i as int, (key@, v@)));
                        }
                    },
                    Option::None => {
                        let ks = String::from_str(key);
                        es.push((ks, v));
                        proof {
                            lemma_entries_view(es@);
                            assert(es@ == old_es.push((ks, v)));
                            assert(entries_view(es@).len() == ves.push((key@, v@)).len());
                            assert forall|j: int| 0 <= j < es@.len() implies entries_view(es@)[j]
                                == ves.push((key@, v@))[j] by {
                                assert(entries_view(es@)[j] == (es@[j].0@, es@[j].1@));
                                if j < old_es.len() {
                                    assert(es@[j] == old_es[j]);
                                    assert(ves[j] == (old_es[j].0@, old_es[j].1@));
                                } else {
                                    assert(es@[j] == (ks, v));
                                }
                            }
                            assert(entries_view(es@) =~= ves.push((key@, v@)));
                        }
                    },
                }
            },
            _ => {
                proof {
                    assert(false);
                }
            },
        }
    }

    /// Appends `v` at the end of a list-shaped value.
    fn push_entry(&mut self, v: mj_value)
        requires
            old(self)@ is Listing,
        ensures
            final(self)@ == old(self)@.list_push(v@),
    {
        match self {
            mj_value::Listing(vs) => {
                let ghost old_vs = vs@;
                vs.push(v);
                proof {
                    lemma_items_view(old_vs);
                    lemma_items_view(vs@);
                    assert(vs@ == old_vs.push(v));
                    assert(items_view(vs@).len() == items_view(old_vs).push(v@).len());
                    assert forall|j: int| 0 <= j < vs@.len() implies items_view(vs@)[j]
                        == items_view(old_vs).push(v@)[j] by {
                        assert(items_view(vs@)[j] == vs@[j]@);
                        if j < old_vs.len() {
                            assert(vs@[j] == old_vs[j]);
                            assert(items_view(old_vs)[j] == old_vs[j]@);
                        } else {
                            assert(vs@[j] == v);
                        }
                    }
                    assert(items_view(vs@) =~= items_view(old_vs).push(v@));
                }
            },
            _ => {
                proof {
                    assert(false);
                }
            },
        }
    }

    /// Inserts an already well-formed value under `key`.
    fn set_checked(&mut self, key: &str, v: mj_value)
        requires
            old(self)@ is Mapping,
            old(self)@.wf(),
            v@.wf(),
            key@.len() > 0,
        ensures
            final(self)@ == old(self)@.map_insert(key@, v@),
            final(self)@ is Mapping,
            final(self)@.wf(),
    {
        proof {
            lemma_map_insert_wf(old(self)@, key@, v@);
            lemma_map_insert_semantics(old(self)@, key@, v@);
        }
        self.set_entry(key, v);
    }

    /// Appends an already well-formed value at the end.
    fn push_checked(&mut self, v: mj_value)
        requires
            old(self)@ is Listing,
            old(self)@.wf(),
            v@.wf(),
        ensures
            final(self)@ == old(self)@.list_push(v@),
            final(self)@ is Listing,
            final(self)@.wf(),
    {
        proof {
            lemma_list_push_wf(old(self)@, v@);
        }
        self.push_entry(v);
    }

    /// Whether the value is map-shaped.
    pub fn shape_is_map(&self) -> (r: bool)
        ensures
            r == (self@ is Mapping),
    {
        match self {
            mj_value::Mapping(_) => true,
            _ => false,
        }
    }

    /// Whether the value is list-shaped.
    pub fn shape_is_list(&self) -> (r: bool)
        ensures
            r == (self@ is Listing),
    {
        match self {
            mj_value::Listing(_) => true,
            _ => false,
        }
    }

    /// The number of entries of a map-shaped value.
    pub fn map_len(&self) -> (r: usize)
        requires
            self@ is Mapping,
        ensures
            r == self@.entries().len(),
    {
        match self {
            mj_value::Mapping(es) => {
                proof {
                    lemma_entries_view(es@);
                }
                es.len()
            },
            _ => {
                proof {
                    assert(false);
                }
                0
            },
        }
    }

    /// The number of items of a list-shaped value.
    pub fn list_len(&self) -> (r: usize)
        requires
            self@ is Listing,
        ensures
            r == self@.items().len(),
    {
        match self {
            mj_value::Listing(vs) => {
                proof {
                    lemma_items_view(vs@);
                }
                vs.len()
            },
            _ => {
                proof {
                    assert(false);
                }
                0
            },
        }
    }

    /// Reads the value bound under `key` in a map-shaped value, if any.
    pub fn get(&self, key: &str) -> (r: Option<&mj_value>)
        requires
            self@ is Mapping,
        ensures
            (match r {
                Option::Some(v) => self@.has_key(key@) && v@ == self@.map_get(key@),
                Option::None => !self@.has_key(key@),
            }),
    {
        match self {
            mj_value::Mapping(es) => {
                proof {
                    lemma_entries_view(es@);
                }
                match find_key(es, key) {
                    Option::Some(i) => Some(&es[i].1),
                    Option::None => None,
                }
            },
            _ => {
                proof {
                    assert(false);
                }
                None
            },
        }
    }

    /// Reads the item at position `i` of a list-shaped value.
    pub fn item_at(&self, i: usize) -> (r: &mj_value)
        requires
            self@ is Listing,
            i < self@.items().len(),
        ensures
            r@ == self@.items()[i as int],
    {
        match self {
            mj_value::Listing(vs) => {
                proof {
                    lemma_items_view(vs@);
                }
                &vs[i]
            },
            _ => {
                proof {
                    assert(false);
                }
                unreached()
            },
        }
    }


    /// Inserts a boolean under `key` in a map-shaped value,
    /// overwriting any prior entry with that key.
    pub fn set_bool(&mut self, key: &str, v: bool)
        requires
            old(self)@ is Mapping,
            old(self)@.wf(),
            key@.len() > 0,
        ensures
            final(self)@ == old(self)@.map_insert(key@, Val::Bool(v)),
            final(self)@ is Mapping,
            final(self)@.wf(),
    {
        self.set_checked(key, mj_value::Bool(v));
    }

    /// Appends a boolean at the end of a list-shaped value.
    pub fn append_bool(&mut self, v: bool)
        requires
            old(self)@ is Listing,
            old(self)@.wf(),
        ensures
            final(self)@ == old(self)@.list_push(Val::Bool(v)),
            final(self)@ is Listing,
            final(self)@.wf(),
    {
        self.push_checked(mj_value::Bool(v));
    }

    /// Inserts a i8 integer under `key` in a map-shaped value,
    /// overwriting any prior entry with that key.
    pub fn set_i8(&mut self, key: &str, v: i8)
        requires
            old(self)@ is Mapping,
            old(self)@.wf(),
            key@.len() > 0,
        ensures
            final(self)@ == old(self)@.map_insert(key@, Val::I8(v)),
            final(self)@ is Mapping,
            final(self)@.wf(),
    {
        self.set_checked(key, mj_value::I8(v));
    }

    /// Appends a i8 integer at the end of a list-shaped value.
    pub fn append_i8(&mut self, v: i8)
        requires
            old(self)@ is Listing,
            old(self)@.wf(),
        ensures
            final(self)@ == old(self)@.list_push(Val::I8(v)),
            final(self)@ is Listing,
            final(self)@.wf(),
    {
        self.push_checked(mj_value::I8(v));
    }

    /// Inserts a i16 integer under `key` in a map-shaped value,
    /// overwriting any prior entry with that key.
    pub fn set_i16(&mut self, key: &str, v: i16)
        requires
            old(self)@ is Mapping,
            old(self)@.wf(),
            key@.len() > 0,
        ensures
            final(self)@ == old(self)@.map_insert(key@, Val::I16(v)),
            final(self)@ is Mapping,
            final(self)@.wf(),
    {
        self.set_checked(key, mj_value::I16(v));
    }

    /// Appends a i16 integer at the end of a list-shaped value.
    pub fn append_i16(&mut self, v: i16)
        requires
            old(self)@ is Listing,
            old(self)@.wf(),
        ensures
            final(self)@ == old(self)@.list_push(Val::I16(v)),
            final(self)@ is Listing,
            final(self)@.wf(),
    {
        self.push_checked(mj_value::I16(v));
    }

    /// Inserts a i32 integer under `key` in a map-shaped value,
    /// overwriting any prior entry with that key.
    pub fn set_i32(&mut self, key: &str, v: i32)
        requires
            old(self)@ is Mapping,
            old(self)@.wf(),
            key@.len() > 0,
        ensures
            final(self)@ == old(self)@.map_insert(key@, Val::I32(v)),
            final(self)@ is Mapping,
            final(self)@.wf(),
    {
        self.set_checked(key, mj_value::I32(v));
    }

    /// Appends a i32 integer at the end of a list-shaped value.
    pub fn append_i32(&mut self, v: i32)
        requires
            old(self)@ is Listing,
            old(self)@.wf(),
        ensures
            final(self)@ == old(self)@.list_push(Val::I32(v)),
            final(self)@ is Listing,
            final(self)@.wf(),
    {
        self.push_checked(mj_value::I32(v));
    }

    /// Inserts a i64 integer under `key` in a map-shaped value,
    /// overwriting any prior entry with that key.
    pub fn set_i64(&mut self, key: &str, v: i64)
        requires
            old(self)@ is Mapping,
            old(self)@.wf(),
            key@.len() > 0,
        ensures
            final(self)@ == old(self)@.map_insert(key@, Val::I64(v)),
            final(self)@ is Mapping,
            final(self)@.wf(),
    {
        self.set_checked(key, mj_value::I64(v));
    }

    /// Appends a i64 integer at the end of a list-shaped value.
    pub fn append_i64(&mut self, v: i64)
        requires
            old(self)@ is Listing,
            old(self)@.wf(),
        ensures
            final(self)@ == old(self)@.list_push(Val::I64(v)),
            final(self)@ is Listing,
            final(self)@.wf(),
    {
        self.push_checked(mj_value::I64(v));
    }

    /// Inserts a u8 integer under `key` in a map-shaped value,
    /// overwriting any prior entry with that key.
    pub fn set_u8(&mut self, key: &str, v: u8)
        requires
            old(self)@ is Mapping,
            old(self)@.wf(),
            key@.len() > 0,
        ensures
            final(self)@ == old(self)@.map_insert(key@, Val::U8(v)),
            final(self)@ is Mapping,
            final(self)@.wf(),
    {
        self.set_checked(key, mj_value::U8(v));
    }

    /// Appends a u8 integer at the end of a list-shaped value.
    pub fn append_u8(&mut self, v: u8)
        requires
            old(self)@ is Listing,
            old(self)@.wf(),
        ensures
            final(self)@ == old(self)@.list_push(Val::U8(v)),
            final(self)@ is Listing,
            final(self)@.wf(),
    {
        self.push_checked(mj_value::U8(v));
    }

    /// Inserts a u16 integer under `key` in a map-shaped value,
    /// overwriting any prior entry with that key.
    pub fn set_u16(&mut self, key: &str, v: u16)
        requires
            old(self)@ is Mapping,
            old(self)@.wf(),
            key@.len() > 0,
        ensures
            final(self)@ == old(self)@.map_insert(key@, Val::U16(v)),
            final(self)@ is Mapping,
            final(self)@.wf(),
    {
        self.set_checked(key, mj_value::U16(v));
    }

    /// Appends a u16 integer at the end of a list-shaped value.
    pub fn append_u16(&mut self, v: u16)
        requires
            old(self)@ is Listing,
            old(self)@.wf(),
        ensures
            final(self)@ == old(self)@.list_push(Val::U16(v)),
            final(self)@ is Listing,
            final(self)@.wf(),
    {
        self.push_checked(mj_value::U16(v));
    }

    /// Inserts a u32 integer under `key` in a map-shaped value,
    /// overwriting any prior entry with that key.
    pub fn set_u32(&mut self, key: &str, v: u32)
        requires
            old(self)@ is Mapping,
            old(self)@.wf(),
            key@.len() > 0,
        ensures
            final(self)@ == old(self)@.map_insert(key@, Val::U32(v)),
            final(self)@ is Mapping,
            final(self)@.wf(),
    {
        self.set_checked(key, mj_value::U32(v));
    }

    /// Appends a u32 integer at the end of a list-shaped value.
    pub fn append_u32(&mut self, v: u32)
        requires
            old(self)@ is Listing,
            old(self)@.wf(),
        ensures
            final(self)@ == old(self)@.list_push(Val::U32(v)),
            final(self)@ is Listing,
            final(self)@.wf(),
    {
        self.push_checked(mj_value::U32(v));
    }

    /// Inserts a u64 integer under `key` in a map-shaped value,
    /// overwriting any prior entry with that key.
    pub fn set_u64(&mut self, key: &str, v: u64)
        requires
            old(self)@ is Mapping,
            old(self)@.wf(),
            key@.len() > 0,
        ensures
            final(self)@ == old(self)@.map_insert(key@, Val::U64(v)),
            final(self)@ is Mapping,
            final(self)@.wf(),
    {
        self.set_checked(key, mj_value::U64(v));
    }

    /// Appends a u64 integer at the end of a list-shaped value.
    pub fn append_u64(&mut self, v: u64)
        requires
            old(self)@ is Listing,
            old(self)@.wf(),
        ensures
            final(self)@ == old(self)@.list_push(Val::U64(v)),
            final(self)@ is Listing,
            final(self)@.wf(),
    {
        self.push_checked(mj_value::U64(v));
    }

    /// Inserts a string under `key` in a map-shaped value, overwriting any
    /// prior entry with that key.
    pub fn set_str(&mut self, key: &str, v: &str)
        requires
            old(self)@ is Mapping,
            old(self)@.wf(),
            key@.len() > 0,
        ensures
            final(self)@ == old(self)@.map_insert(key@, Val::Str(v@)),
            final(self)@ is Mapping,
            final(self)@.wf(),
    {
        self.set_checked(key, mj_value::Str(String::from_str(v)));
    }

    /// Appends a string at the end of a list-shaped value.
    pub fn append_str(&mut self, v: &str)
        requires
            old(self)@ is Listing,
            old(self)@.wf(),
        ensures
            final(self)@ == old(self)@.list_push(Val::Str(v@)),
            final(self)@ is Listing,
            final(self)@.wf(),
    {
        self.push_checked(mj_value::Str(String::from_str(v)));
    }

    /// Inserts a 32-bit floating-point payload, given as its decimal
    /// text, under `key` in a map-shaped value, overwriting any prior entry
    /// with that key.  Handing over text that is not a JSON number literal is
    /// a usage contract violation.
    pub fn set_f32_text(&mut self, key: &str, t: &str)
        requires
            old(self)@ is Mapping,
            old(self)@.wf(),
            key@.len() > 0,
            is_json_number(t@),
        ensures
            final(self)@ == old(self)@.map_insert(key@, Val::F32Text(t@)),
            final(self)@ is Mapping,
            final(self)@.wf(),
    {
        self.set_checked(key, mj_value::F32Text(String::from_str(t)));
    }

    /// Appends a 32-bit floating-point payload, given as its decimal
    /// text, at the end of a list-shaped value.  Handing over text that is
    /// not a JSON number literal is a usage contract violation.
    pub fn append_f32_text(&mut self, t: &str)
        requires
            old(self)@ is Listing,
            old(self)@.wf(),
            is_json_number(t@),
        ensures
            final(self)@ == old(self)@.list_push(Val::F32Text(t@)),
            final(self)@ is Listing,
            final(self)@.wf(),
    {
        self.push_checked(mj_value::F32Text(String::from_str(t)));
    }

    /// Inserts a 64-bit floating-point payload, given as its decimal
    /// text, under `key` in a map-shaped value, overwriting any prior entry
    /// with that key.  Handing over text that is not a JSON number literal is
    /// a usage contract violation.
    pub fn set_f64_text(&mut self, key: &str, t: &str)
        requires
            old(self)@ is Mapping,
            old(self)@.wf(),
            key@.len() > 0,
            is_json_number(t@),
        ensures
            final(self)@ == old(self)@.map_insert(key@, Val::F64Text(t@)),
            final(self)@ is Mapping,
            final(self)@.wf(),
    {
        self.set_checked(key, mj_value::F64Text(String::from_str(t)));
    }

    /// Appends a 64-bit floating-point payload, given as its decimal
    /// text, at the end of a list-shaped value.  Handing over text that is
    /// not a JSON number literal is a usage contract violation.
    pub fn append_f64_text(&mut self, t: &str)
        requires
            old(self)@ is Listing,
            old(self)@.wf(),
            is_json_number(t@),
        ensures
            final(self)@ == old(self)@.list_push(Val::F64Text(t@)),
            final(self)@ is Listing,
            final(self)@.wf(),
    {
        self.push_checked(mj_value::F64Text(String::from_str(t)));
    }

    /// Deep-copies `other` and inserts the copy under `key` in a map-shaped
    /// value, overwriting any prior entry with that key.  The source stays
    /// independently owned and later changes to it cannot reach the copy.
    pub fn set_value(&mut self, key: &str, other: &mj_value)
        requires
            old(self)@ is Mapping,
            old(self)@.wf(),
            key@.len() > 0,
            other@.wf(),
        ensures
            final(self)@ == old(self)@.map_insert(key@, other@),
            final(self)@ is Mapping,
            final(self)@.wf(),
    {
        self.set_checked(key, other.deep_copy());
    }

    /// Deep-copies `other` and appends the copy at the end of a list-shaped
    /// value.  The source stays independently owned and later changes to it
    /// cannot reach the copy.
    pub fn append_value(&mut self, other: &mj_value)
        requires
            old(self)@ is Listing,
            old(self)@.wf(),
            other@.wf(),
        ensures
            final(self)@ == old(self)@.list_push(other@),
            final(self)@ is Listing,
            final(self)@.wf(),
    {
        self.push_checked(other.deep_copy());
    }

    /// Builds a list-shaped value from the given run of booleans
    /// and inserts it under `key` in a map-shaped value.
    pub fn set_list_bool(&mut self, key: &str, items: &Vec<bool>)
        requires
            old(self)@ is Mapping,
            old(self)@.wf(),
            key@.len() > 0,
        ensures
            final(self)@ == old(self)@.map_insert(
                key@,
                Val::Listing(items@.map_values(|x: bool| Val::Bool(x))),
            ),
            final(self)@ is Mapping,
            final(self)@.wf(),
    {
        let mut vs: Vec<mj_value> = Vec::new();
        let mut i: usize = 0;
        while i < items.len()
            invariant
                i <= items.len(),
                vs@.len() == i,
                forall|j: int| 0 <= j < i ==> (#[trigger] vs@[j])@ == Val::Bool(items@[j]),
            decreases items.len() - i,
        {
            vs.push(mj_value::Bool(items[i]));
            i = i + 1;
        }
        let ghost model = items@.map_values(|x: bool| Val::Bool(x));
        proof {
            lemma_items_view(vs@);
            assert forall|j: int| 0 <= j < items@.len() implies items_view(vs@)[j] == model[j] by {
                assert(items_view(vs@)[j] == vs@[j]@);
            }
            assert(items_view(vs@) =~= model);
            lemma_all_wf_items(model);
        }
        self.set_checked(key, mj_value::Listing(vs));
    }

    /// Builds a list-shaped value from the given run of i8 integers
    /// and inserts it under `key` in a map-shaped value.
    pub fn set_list_i8(&mut self, key: &str, items: &Vec<i8>)
        requires
            old(self)@ is Mapping,
            old(self)@.wf(),
            key@.len() > 0,
        ensures
            final(self)@ == old(self)@.map_insert(
                key@,
                Val::Listing(items@.map_values(|x: i8| Val::I8(x))),
            ),
            final(self)@ is Mapping,
            final(self)@.wf(),
    {
        let mut vs: Vec<mj_value> = Vec::new();
        let mut i: usize = 0;
        while i < items.len()
            invariant
                i <= items.len(),
                vs@.len() == i,
                forall|j: int| 0 <= j < i ==> (#[trigger] vs@[j])@ == Val::I8(items@[j]),
            decreases items.len() - i,
        {
            vs.push(mj_value::I8(items[i]));
            i = i + 1;
        }
        let ghost model = items@.map_values(|x: i8| Val::I8(x));
        proof {
            lemma_items_view(vs@);
            assert forall|j: int| 0 <= j < items@.len() implies items_view(vs@)[j] == model[j] by {
                assert(items_view(vs@)[j] == vs@[j]@);
            }
            assert(items_view(vs@) =~= model);
            lemma_all_wf_items(model);
        }
        self.set_checked(key, mj_value::Listing(vs));
    }

    /// Builds a list-shaped value from the given run of i16 integers
    /// and inserts it under `key` in a map-shaped value.
    pub fn set_list_i16(&mut self, key: &str, items: &Vec<i16>)
        requires
            old(self)@ is Mapping,
            old(self)@.wf(),
            key@.len() > 0,
        ensures
            final(self)@ == old(self)@.map_insert(
                key@,
                Val::Listing(items@.map_values(|x: i16| Val::I16(x))),
            ),
            final(self)@ is Mapping,
            final(self)@.wf(),
    {
        let mut vs: Vec<mj_value> = Vec::new();
        let mut i: usize = 0;
        while i < items.len()
            invariant
                i <= items.len(),
                vs@.len() == i,
                forall|j: int| 0 <= j < i ==> (#[trigger] vs@[j])@ == Val::I16(items@[j]),
            decreases items.len() - i,
        {
            vs.push(mj_value::I16(items[i]));
            i = i + 1;
        }
        let ghost model = items@.map_values(|x: i16| Val::I16(x));
        proof {
            lemma_items_view(vs@);
            assert forall|j: int| 0 <= j < items@.len() implies items_view(vs@)[j] == model[j] by {
                assert(items_view(vs@)[j] == vs@[j]@);
            }
            assert(items_view(vs@) =~= model);
            lemma_all_wf_items(model);
        }
        self.set_checked(key, mj_value::Listing(vs));
    }

    /// Builds a list-shaped value from the given run of i32 integers
    /// and inserts it under `key` in a map-shaped value.
    pub fn set_list_i32(&mut self, key: &str, items: &Vec<i32>)
        requires
            old(self)@ is Mapping,
            old(self)@.wf(),
            key@.len() > 0,
        ensures
            final(self)@ == old(self)@.map_insert(
                key@,
                Val::Listing(items@.map_values(|x: i32| Val::I32(x))),
            ),
            final(self)@ is Mapping,
            final(self)@.wf(),
    {
        let mut vs: Vec<mj_value> = Vec::new();
        let mut i: usize = 0;
        while i < items.len()
            invariant
                i <= items.len(),
                vs@.len() == i,
                forall|j: int| 0 <= j < i ==> (#[trigger] vs@[j])@ == Val::I32(items@[j]),
            decreases items.len() - i,
        {
            vs.push(mj_value::I32(items[i]));
            i = i + 1;
        }
        let ghost model = items@.map_values(|x: i32| Val::I32(x));
        proof {
            lemma_items_view(vs@);
            assert forall|j: int| 0 <= j < items@.len() implies items_view(vs@)[j] == model[j] by {
                assert(items_view(vs@)[j] == vs@[j]@);
            }
            assert(items_view(vs@) =~= model);
            lemma_all_wf_items(model);
        }
        self.set_checked(key, mj_value::Listing(vs));
    }

    /// Builds a list-shaped value from the given run of i64 integers
    /// and inserts it under `key` in a map-shaped value.
    pub fn set_list_i64(&mut self, key: &str, items: &Vec<i64>)
        requires
            old(self)@ is Mapping,
            old(self)@.wf(),
            key@.len() > 0,
        ensures
            final(self)@ == old(self)@.map_insert(
                key@,
                Val::Listing(items@.map_values(|x: i64| Val::I64(x))),
            ),
            final(self)@ is Mapping,
            final(self)@.wf(),
    {
        let mut vs: Vec<mj_value> = Vec::new();
        let mut i: usize = 0;
        while i < items.len()
            invariant
                i <= items.len(),
                vs@.len() == i,
                forall|j: int| 0 <= j < i ==> (#[trigger] vs@[j])@ == Val::I64(items@[j]),
            decreases items.len() - i,
        {
            vs.push(mj_value::I64(items[i]));
            i = i + 1;
        }
        let ghost model = items@.map_values(|x: i64| Val::I64(x));
        proof {
            lemma_items_view(vs@);
            assert forall|j: int| 0 <= j < items@.len() implies items_view(vs@)[j] == model[j] by {
                assert(items_view(vs@)[j] == vs@[j]@);
            }
            assert(items_view(vs@) =~= model);
            lemma_all_wf_items(model);
        }
        self.set_checked(key, mj_value::Listing(vs));
    }

    /// Builds a list-shaped value from the given run of u8 integers
    /// and inserts it under `key` in a map-shaped value.
    pub fn set_list_u8(&mut self, key: &str, items: &Vec<u8>)
        requires
            old(self)@ is Mapping,
            old(self)@.wf(),
            key@.len() > 0,
        ensures
            final(self)@ == old(self)@.map_insert(
                key@,
                Val::Listing(items@.map_values(|x: u8| Val::U8(x))),
            ),
            final(self)@ is Mapping,
            final(self)@.wf(),
    {
        let mut vs: Vec<mj_value> = Vec::new();
        let mut i: usize = 0;
        while i < items.len()
            invariant
                i <= items.len(),
                vs@.len() == i,
                forall|j: int| 0 <= j < i ==> (#[trigger] vs@[j])@ == Val::U8(items@[j]),
            decreases items.len() - i,
        {
            vs.push(mj_value::U8(items[i]));
            i = i + 1;
        }
        let ghost model = items@.map_values(|x: u8| Val::U8(x));
        proof {
            lemma_items_view(vs@);
            assert forall|j: int| 0 <= j < items@.len() implies items_view(vs@)[j] == model[j] by {
                assert(items_view(vs@)[j] == vs@[j]@);
            }
            assert(items_view(vs@) =~= model);
            lemma_all_wf_items(model);
        }
        self.set_checked(key, mj_value::Listing(vs));
    }

    /// Builds a list-shaped value from the given run of u16 integers
    /// and inserts it under `key` in a map-shaped value.
    pub fn set_list_u16(&mut self, key: &str, items: &Vec<u16>)
        requires
            old(self)@ is Mapping,
            old(self)@.wf(),
            key@.len() > 0,
        ensures
            final(self)@ == old(self)@.map_insert(
                key@,
                Val::Listing(items@.map_values(|x: u16| Val::U16(x))),
            ),
            final(self)@ is Mapping,
            final(self)@.wf(),
    {
        let mut vs: Vec<mj_value> = Vec::new();
        let mut i: usize = 0;
        while i < items.len()
            invariant
                i <= items.len(),
                vs@.len() == i,
                forall|j: int| 0 <= j < i ==> (#[trigger] vs@[j])@ == Val::U16(items@[j]),
            decreases items.len() - i,
        {
            vs.push(mj_value::U16(items[i]));
            i = i + 1;
        }
        let ghost model = items@.map_values(|x: u16| Val::U16(x));
        proof {
            lemma_items_view(vs@);
            assert forall|j: int| 0 <= j < items@.len() implies items_view(vs@)[j] == model[j] by {
                assert(items_view(vs@)[j] == vs@[j]@);
            }
            assert(items_view(vs@) =~= model);
            lemma_all_wf_items(model);
        }
        self.set_checked(key, mj_value::Listing(vs));
    }

    /// Builds a list-shaped value from the given run of u32 integers
    /// and inserts it under `key` in a map-shaped value.
    pub fn set_list_u32(&mut self, key: &str, items: &Vec<u32>)
        requires
            old(self)@ is Mapping,
            old(self)@.wf(),
            key@.len() > 0,
        ensures
            final(self)@ == old(self)@.map_insert(
                key@,
                Val::Listing(items@.map_values(|x: u32| Val::U32(x))),
            ),
            final(self)@ is Mapping,
            final(self)@.wf(),
    {
        let mut vs: Vec<mj_value> = Vec::new();
        let mut i: usize = 0;
        while i < items.len()
            invariant
                i <= items.len(),
                vs@.len() == i,
                forall|j: int| 0 <= j < i ==> (#[trigger] vs@[j])@ == Val::U32(items@[j]),
            decreases items.len() - i,
        {
            vs.push(mj_value::U32(items[i]));
            i = i + 1;
        }
        let ghost model = items@.map_values(|x: u32| Val::U32(x));
        proof {
            lemma_items_view(vs@);
            assert forall|j: int| 0 <= j < items@.len() implies items_view(vs@)[j] == model[j] by {
                assert(items_view(vs@)[j] == vs@[j]@);
            }
            assert(items_view(vs@) =~= model);
            lemma_all_wf_items(model);
        }
        self.set_checked(key, mj_value::Listing(vs));
    }

    /// Builds a list-shaped value from the given run of u64 integers
    /// and inserts it under `key` in a map-shaped value.
    pub fn set_list_u64(&mut self, key: &str, items: &Vec<u64>)
        requires
            old(self)@ is Mapping,
            old(self)@.wf(),
            key@.len() > 0,
        ensures
            final(self)@ == old(self)@.map_insert(
                key@,
                Val::Listing(items@.map_values(|x: u64| Val::U64(x))),
            ),
            final(self)@ is Mapping,
            final(self)@.wf(),
    {
        let mut vs: Vec<mj_value> = Vec::new();
        let mut i: usize = 0;
        while i < items.len()
            invariant
                i <= items.len(),
                vs@.len() == i,
                forall|j: int| 0 <= j < i ==> (#[trigger] vs@[j])@ == Val::U64(items@[j]),
            decreases items.len() - i,
        {
            vs.push(mj_value::U64(items[i]));
            i = i + 1;
        }
        let ghost model = items@.map_values(|x: u64| Val::U64(x));
        proof {
            lemma_items_view(vs@);
            assert forall|j: int| 0 <= j < items@.len() implies items_view(vs@)[j] == model[j] by {
                assert(items_view(vs@)[j] == vs@[j]@);
            }
            assert(items_view(vs@) =~= model);
            lemma_all_wf_items(model);
        }
        self.set_checked(key, mj_value::Listing(vs));
    }

    /// Builds a list-shaped value from the given run of strings and inserts
    /// it under `key` in a map-shaped value.
    pub fn set_list_str(&mut self, key: &str, items: &Vec<String>)
        requires
            old(self)@ is Mapping,
            old(self)@.wf(),
            key@.len() > 0,
        ensures
            final(self)@ == old(self)@.map_insert(
                key@,
                Val::Listing(items.deep_view().map_values(|s: Seq<char>| Val::Str(s))),
            ),
            final(self)@ is Mapping,
            final(self)@.wf(),
    {
        let mut vs: Vec<mj_value> = Vec::new();
        let mut i: usize = 0;
        while i < items.len()
            invariant
                i <= items.len(),
                vs@.len() == i,
                forall|j: int| 0 <= j < i ==> (#[trigger] vs@[j])@ == Val::Str(items@[j]@),
            decreases items.len() - i,
        {
            vs.push(mj_value::Str(items[i].clone()));
            i = i + 1;
        }
        let ghost model = items.deep_view().map_values(|s: Seq<char>| Val::Str(s));
        proof {
            lemma_items_view(vs@);
            assert forall|j: int| 0 <= j < items@.len() implies items_view(vs@)[j] == model[j] by {
                assert(items_view(vs@)[j] == vs@[j]@);
                assert(items.deep_view()[j] == items@[j]@);
            }
            assert(items_view(vs@) =~= model);
            lemma_all_wf_items(model);
        }
        self.set_checked(key, mj_value::Listing(vs));
    }

    /// Builds a list-shaped value from the given run of 32-bit
    /// floating-point payloads, each given as its decimal text, and inserts
    /// it under `key` in a map-shaped value.
    pub fn set_list_f32_text(&mut self, key: &str, items: &Vec<String>)
        requires
            old(self)@ is Mapping,
            old(self)@.wf(),
            key@.len() > 0,
            forall|j: int| 0 <= j < items@.len() ==> is_json_number((#[trigger] items@[j])@),
        ensures
            final(self)@ == old(self)@.map_insert(
                key@,
                Val::Listing(items.deep_view().map_values(|t: Seq<char>| Val::F32Text(t))),
            ),
            final(self)@ is Mapping,
            final(self)@.wf(),
    {
        let mut vs: Vec<mj_value> = Vec::new();
        let mut i: usize = 0;
        while i < items.len()
            invariant
                i <= items.len(),
                vs@.len() == i,
                forall|j: int| 0 <= j < i ==> (#[trigger] vs@[j])@ == Val::F32Text(items@[j]@),
            decreases items.len() - i,
        {
            vs.push(mj_value::F32Text(items[i].clone()));
            i = i + 1;
        }
        let ghost model = items.deep_view().map_values(|t: Seq<char>| Val::F32Text(t));
        proof {
            lemma_items_view(vs@);
            assert forall|j: int| 0 <= j < items@.len() implies items_view(vs@)[j] == model[j] by {
                assert(items_view(vs@)[j] == vs@[j]@);
                assert(items.deep_view()[j] == items@[j]@);
            }
            assert(items_view(vs@) =~= model);
            lemma_all_wf_items(model);
            assert forall|j: int| 0 <= j < model.len() implies (#[trigger] model[j]).wf() by {
                assert(items.deep_view()[j] == items@[j]@);
            }
        }
        self.set_checked(key, mj_value::Listing(vs));
    }

    /// Builds a list-shaped value from the given run of 64-bit
    /// floating-point payloads, each given as its decimal text, and inserts
    /// it under `key` in a map-shaped value.
    pub fn set_list_f64_text(&mut self, key: &str, items: &Vec<String>)
        requires
            old(self)@ is Mapping,
            old(self)@.wf(),
            key@.len() > 0,
            forall|j: int| 0 <= j < items@.len() ==> is_json_number((#[trigger] items@[j])@),
        ensures
            final(self)@ == old(self)@.map_insert(
                key@,
                Val::Listing(items.deep_view().map_values(|t: Seq<char>| Val::F64Text(t))),
            ),
            final(self)@ is Mapping,
            final(self)@.wf(),
    {
        let mut vs: Vec<mj_value> = Vec::new();
        let mut i: usize = 0;
        while i < items.len()
            invariant
                i <= items.len(),
                vs@.len() == i,
                forall|j: int| 0 <= j < i ==> (#[trigger] vs@[j])@ == Val::F64Text(items@[j]@),
            decreases items.len() - i,
        {
            vs.push(mj_value::F64Text(items[i].clone()));
            i = i + 1;
        }
        let ghost model = items.deep_view().map_values(|t: Seq<char>| Val::F64Text(t));
        proof {
            lemma_items_view(vs@);
            assert forall|j: int| 0 <= j < items@.len() implies items_view(vs@)[j] == model[j] by {
                assert(items_view(vs@)[j] == vs@[j]@);
                assert(items.deep_view()[j] == items@[j]@);
            }
            assert(items_view(vs@) =~= model);
            lemma_all_wf_items(model);
            assert forall|j: int| 0 <= j < model.len() implies (#[trigger] model[j]).wf() by {
                assert(items.deep_view()[j] == items@[j]@);
            }
        }
        self.set_checked(key, mj_value::Listing(vs));
    }

    /// Builds a list-shaped value from deep copies of the given run of
    /// values and inserts it under `key` in a map-shaped value.  The sources
    /// stay independently owned.
    pub fn set_list_value(&mut self, key: &str, items: &Vec<mj_value>)
        requires
            old(self)@ is Mapping,
            old(self)@.wf(),
            key@.len() > 0,
            forall|j: int| 0 <= j < items@.len() ==> ((#[trigger] items@[j])@).wf(),
        ensures
            final(self)@ == old(self)@.map_insert(key@, Val::Listing(items_view(items@))),
            final(self)@ is Mapping,
            final(self)@.wf(),
    {
        let mut vs: Vec<mj_value> = Vec::new();
        let mut i: usize = 0;
        while i < items.len()
            invariant
                i <= items.len(),
                vs@.len() == i,
                forall|j: int| 0 <= j < i ==> (#[trigger] vs@[j])@ == items@[j]@,
            decreases items.len() - i,
        {
            let v = items[i].deep_copy();
            vs.push(v);
            i = i + 1;
        }
        let ghost model = items_view(items@);
        proof {
            lemma_items_view(vs@);
            lemma_items_view(items@);
            assert forall|j: int| 0 <= j < items@.len() implies items_view(vs@)[j] == model[j] by {
                assert(items_view(vs@)[j] == vs@[j]@);
                assert(model[j] == items@[j]@);
            }
            assert(items_view(vs@) =~= model);
            lemma_all_wf_items(model);
            assert forall|j: int| 0 <= j < model.len() implies (#[trigger] model[j]).wf() by {
                assert(model[j] == items@[j]@);
            }
        }
        self.set_checked(key, mj_value::Listing(vs));
    }

    /// Produces an independently owned copy of the whole tree.
    #[verifier::loop_isolation(false)]
    pub fn deep_copy(&self) -> (r: mj_value)
        ensures
            r@ == self@,
        decreases self,
    {
        match self {
            mj_value::Mapping(es) => {
                let mut out: Vec<(String, mj_value)> = Vec::new();
                let mut i: usize = 0;
                while i < es.len()
                    invariant
                        i <= es.len(),
                        out@.len() == i,
                        forall|j: int|
                            0 <= j < i ==> (#[trigger] out@[j]).0@ == es@[j].0@ && out@[j].1@
                                == es@[j].1@,
                    decreases es.len() - i,
                {
                    let k = es[i].0.clone();
                    let v = es[i].1.deep_copy();
                    out.push((k, v));
                    i = i + 1;
                }
                proof {
                    lemma_entries_view(out@);
                    lemma_entries_view(es@);
                    assert forall|j: int| 0 <= j < out@.len() implies entries_view(out@)[j]
                        == entries_view(es@)[j] by {
                        assert(entries_view(out@)[j] == (out@[j].0@, out@[j].1@));
                        assert(entries_view(es@)[j] == (es@[j].0@, es@[j].1@));
                    }
                    assert(entries_view(out@) =~= entries_view(es@));
                }
                mj_value::Mapping(out)
            },
            mj_value::Listing(vs) => {
                let mut out: Vec<mj_value> = Vec::new();
                let mut i: usize = 0;
                while i < vs.len()
                    invariant
                        i <= vs.len(),
                        out@.len() == i,
                        forall|j: int| 0 <= j < i ==> (#[trigger] out@[j])@ == vs@[j]@,
                    decreases vs.len() - i,
                {
                    let v = vs[i].deep_copy();
                    out.push(v);
                    i = i + 1;
                }
                proof {
                    lemma_items_view(out@);
                    lemma_items_view(vs@);
                    assert forall|j: int| 0 <= j < out@.len() implies items_view(out@)[j]
                        == items_view(vs@)[j] by {
                        assert(items_view(out@)[j] == out@[j]@);
                        assert(items_view(vs@)[j] == vs@[j]@);
                    }
                    assert(items_view(out@) =~= items_view(vs@));
                }
                mj_value::Listing(out)
            },
            mj_value::Str(s) => mj_value::Str(s.clone()),
            mj_value::Bool(b) => mj_value::Bool(*b),
            mj_value::I8(x) => mj_value::I8(*x),
            mj_value::I16(x) => mj_value::I16(*x),
            mj_value::I32(x) => mj_value::I32(*x),
            mj_value::I64(x) => mj_value::I64(*x),
            mj_value::U8(x) => mj_value::U8(*x),
            mj_value::U16(x) => mj_value::U16(*x),
            mj_value::U32(x) => mj_value::U32(*x),
            mj_value::U64(x) => mj_value::U64(*x),
            mj_value::F32Text(t) => mj_value::F32Text(t.clone()),
            mj_value::F64Text(t) => mj_value::F64Text(t.clone()),
        }
    }
}

/// Appending keeps a list well-formed when the appended value is.
pub proof fn lemma_list_push_wf(m: Val, v: Val)
    requires
        m is Listing,
        m.wf(),
        v.wf(),
    ensures
        m.list_push(v).wf(),
        m.list_push(v).items() == m.items().push(v),
{
    let vs = m.items();
    lemma_all_wf_items(vs);
    lemma_all_wf_items(vs.push(v));
    assert forall|j: int| 0 <= j < vs.push(v).len() implies (#[trigger] vs.push(v)[j]).wf() by {
        if j < vs.len() {
            assert(vs.push(v)[j] == vs[j]);
        }
    }
}

} // verus!
