//! A YAML document tree with insertion-ordered mappings, the shape in which
//! autoinstall documents are built and merged before they are rendered.
//!
//! Mapping semantics follow an insertion-ordered map keyed by string: an
//! insert under an existing key replaces the value in place, an insert under a
//! new key appends, and a removal moves the last entry into the freed slot.

use vstd::prelude::*;

verus! {

/// An executable YAML value. Numbers keep their textual form.
#[derive(Debug)]
pub enum YamlValue {
    Null,
    Bool(bool),
    Number(String),
    Str(String),
    List(Vec<YamlValue>),
    Mapping(Vec<YamlEntry>),
    Tagged(String, Box<YamlValue>),
}

/// One key/value pair of a mapping.
#[derive(Debug)]
pub struct YamlEntry {
    pub key: YamlValue,
    pub value: YamlValue,
}

/// Mathematical model of a YAML value.
pub enum Yaml {
    Null,
    Bool(bool),
    Number(Seq<char>),
    Str(Seq<char>),
    List(Seq<Yaml>),
    Mapping(Seq<(Yaml, Yaml)>),
    Tagged(Seq<char>, Box<Yaml>),
}

pub open spec fn yaml_list_view(items: Seq<YamlValue>) -> Seq<Yaml>
    decreases items,
{
    Seq::new(
        items.len(),
        |i: int|
            if 0 <= i < items.len() {
                yv(items[i])
            } else {
                Yaml::Null
            },
    )
}

pub open spec fn yaml_entries_view(es: Seq<YamlEntry>) -> Seq<(Yaml, Yaml)>
    decreases es,
{
    Seq::new(
        es.len(),
        |i: int|
            if 0 <= i < es.len() {
                (yv(es[i].key), yv(es[i].value))
            } else {
                (Yaml::Null, Yaml::Null)
            },
    )
}

/// The model of an executable YAML value.
pub open spec fn yv(v: YamlValue) -> Yaml
    decreases v,
{
    match v {
        YamlValue::Null => Yaml::Null,
        YamlValue::Bool(b) => Yaml::Bool(b),
        YamlValue::Number(n) => Yaml::Number(n@),
        YamlValue::Str(s) => Yaml::Str(s@),
        YamlValue::List(items) => Yaml::List(yaml_list_view(items@)),
        YamlValue::Mapping(es) => Yaml::Mapping(yaml_entries_view(es@)),
        YamlValue::Tagged(t, b) => Yaml::Tagged(t@, Box::new(yv(*b))),
    }
}

// ---------------------------------------------------------------------------
// Model operations
// ---------------------------------------------------------------------------

/// Index of the first entry keyed by the string `k`, searching from `i`.
pub open spec fn find_key_from(m: Seq<(Yaml, Yaml)>, k: Seq<char>, i: int) -> Option<int>
    decreases m.len() - i,
{
    if i < 0 || i >= m.len() {
        None
    } else if m[i].0 == Yaml::Str(k) {
        Some(i)
    } else {
        find_key_from(m, k, i + 1)
    }
}

pub open spec fn find_key(m: Seq<(Yaml, Yaml)>, k: Seq<char>) -> Option<int> {
    find_key_from(m, k, 0)
}

pub proof fn lemma_find_key_from(m: Seq<(Yaml, Yaml)>, k: Seq<char>, i: int)
    requires
        0 <= i,
    ensures
        match find_key_from(m, k, i) {
            Some(j) => i <= j < m.len() && m[j].0 == Yaml::Str(k) && forall|l: int|
                i <= l < j ==> m[l].0 != Yaml::Str(k),
            None => forall|l: int| i <= l < m.len() ==> m[l].0 != Yaml::Str(k),
        },
    decreases m.len() - i,
{
    if i < m.len() && m[i].0 != Yaml::Str(k) {
        lemma_find_key_from(m, k, i + 1);
    }
}

pub proof fn lemma_find_key(m: Seq<(Yaml, Yaml)>, k: Seq<char>)
    ensures
        match find_key(m, k) {
            Some(j) => 0 <= j < m.len() && m[j].0 == Yaml::Str(k) && forall|l: int|
                0 <= l < j ==> m[l].0 != Yaml::Str(k),
            None => forall|l: int| 0 <= l < m.len() ==> m[l].0 != Yaml::Str(k),
        },
{
    lemma_find_key_from(m, k, 0);
}

pub open spec fn mget(m: Seq<(Yaml, Yaml)>, k: Seq<char>) -> Option<Yaml> {
    match find_key(m, k) {
        Some(i) => Some(m[i].1),
        None => None,
    }
}

/// Insert: replace in place under an existing key, else append.
pub open spec fn minsert(m: Seq<(Yaml, Yaml)>, k: Seq<char>, v: Yaml) -> Seq<(Yaml, Yaml)> {
    match find_key(m, k) {
        Some(i) => m.update(i, (m[i].0, v)),
        None => m.push((Yaml::Str(k), v)),
    }
}

/// Removal: the last entry takes the place of the removed one.
pub open spec fn mremove(m: Seq<(Yaml, Yaml)>, k: Seq<char>) -> Seq<(Yaml, Yaml)> {
    match find_key(m, k) {
        Some(i) => m.update(i, m.last()).drop_last(),
        None => m,
    }
}

/// Strip tags off a value.
pub open spec fn untag(v: Yaml) -> Yaml
    decreases v,
{
    match v {
        Yaml::Tagged(_, b) => untag(*b),
        _ => v,
    }
}

/// The entries of a value when it is (possibly under tags) a mapping.
pub open spec fn as_mapping(v: Yaml) -> Option<Seq<(Yaml, Yaml)>> {
    match untag(v) {
        Yaml::Mapping(m) => Some(m),
        _ => None,
    }
}

pub open spec fn as_list(v: Yaml) -> Option<Seq<Yaml>> {
    match untag(v) {
        Yaml::List(l) => Some(l),
        _ => None,
    }
}

pub open spec fn as_str(v: Yaml) -> Option<Seq<char>> {
    match untag(v) {
        Yaml::Str(s) => Some(s),
        _ => None,
    }
}

/// Replace the innermost (untagged) value of `v` by `inner`, keeping tags.
pub open spec fn replace_untagged(v: Yaml, inner: Yaml) -> Yaml
    decreases v,
{
    match v {
        Yaml::Tagged(t, b) => Yaml::Tagged(t, Box::new(replace_untagged(*b, inner))),
        _ => inner,
    }
}

/// The string items of a list, in order, skipping the other items.
pub open spec fn string_items(l: Seq<Yaml>) -> Seq<Seq<char>>
    decreases l.len(),
{
    if l.len() == 0 {
        Seq::empty()
    } else {
        let rest = string_items(l.drop_last());
        match as_str(l.last()) {
            Some(s) => rest.push(s),
            None => rest,
        }
    }
}

pub open spec fn ylist_of_strs(l: Seq<Seq<char>>) -> Yaml {
    Yaml::List(Seq::new(l.len(), |i: int| Yaml::Str(l[i])))
}

/// Entries are keyed by distinct values, as in any mapping read from text.
pub open spec fn keys_distinct(m: Seq<(Yaml, Yaml)>) -> bool {
    forall|i: int, j: int| 0 <= i < j < m.len() ==> m[i].0 != m[j].0
}

/// In a mapping with distinct keys, the entry keyed by `k` is the one found.
pub proof fn lemma_find_key_distinct(m: Seq<(Yaml, Yaml)>, k: Seq<char>, j: int)
    requires
        keys_distinct(m),
        0 <= j < m.len(),
        m[j].0 == Yaml::Str(k),
    ensures
        find_key(m, k) == Some(j),
        mget(m, k) == Some(m[j].1),
{
    lemma_find_key(m, k);
}

/// Looking a key up after an insert.
pub proof fn lemma_minsert_get(m: Seq<(Yaml, Yaml)>, k: Seq<char>, v: Yaml, k2: Seq<char>)
    ensures
        mget(minsert(m, k, v), k2) == (if k2 == k {
            Some(v)
        } else {
            mget(m, k2)
        }),
{
    let m2 = minsert(m, k, v);
    lemma_find_key(m, k);
    lemma_find_key(m, k2);
    lemma_find_key(m2, k2);
    match find_key(m, k) {
        Some(i) => {
            assert(forall|l: int| 0 <= l < m.len() ==> m2[l].0 == m[l].0);
            match find_key(m, k2) {
                Some(j) => {
                    assert(m2[j].0 == Yaml::Str(k2));
                },
                None => {},
            }
            match find_key(m2, k2) {
                Some(j) => {
                    assert(m[j].0 == Yaml::Str(k2));
                },
                None => {},
            }
        },
        None => {
            assert(forall|l: int| 0 <= l < m.len() ==> m2[l] == m[l]);
            assert(m2[m.len() as int] == (Yaml::Str(k), v));
            match find_key(m, k2) {
                Some(j) => {
                    assert(m2[j].0 == Yaml::Str(k2));
                },
                None => {},
            }
        },
    }
}

/// An insert keeps the keys distinct.
pub proof fn lemma_minsert_distinct(m: Seq<(Yaml, Yaml)>, k: Seq<char>, v: Yaml)
    requires
        keys_distinct(m),
    ensures
        keys_distinct(minsert(m, k, v)),
{
    lemma_find_key(m, k);
    let m2 = minsert(m, k, v);
    match find_key(m, k) {
        Some(i) => {
            assert(forall|l: int| 0 <= l < m.len() ==> m2[l].0 == m[l].0);
        },
        None => {
            assert(forall|l: int| 0 <= l < m.len() ==> m2[l] == m[l]);
        },
    }
}

/// Looking a key up after a removal, in a mapping with distinct keys.
pub proof fn lemma_mremove_get(m: Seq<(Yaml, Yaml)>, k: Seq<char>, k2: Seq<char>)
    requires
        keys_distinct(m),
    ensures
        keys_distinct(mremove(m, k)),
        mget(mremove(m, k), k2) == (if k2 == k {
            None
        } else {
            mget(m, k2)
        }),
{
    lemma_find_key(m, k);
    lemma_find_key(m, k2);
    let m2 = mremove(m, k);
    lemma_find_key(m2, k2);
    match find_key(m, k) {
        Some(i) => {
            let n = m.len() - 1;
            assert(m2.len() == n);
            assert(forall|l: int| 0 <= l < n && l != i ==> m2[l] == m[l]);
            assert(i < n ==> m2[i] == m[n]);
            assert forall|a: int, b: int| 0 <= a < b < m2.len() implies m2[a].0 != m2[b].0 by {
                let oa = if a == i { n } else { a };
                let ob = if b == i { n } else { b };
                assert(m2[a] == m[oa]);
                assert(m2[b] == m[ob]);
            }
            if k2 != k {
                match find_key(m, k2) {
                    Some(j) => {
                        let j2 = if j == n { i } else { j };
                        assert(j != i);
                        assert(m2[j2] == m[j]);
                        lemma_find_key_distinct(m2, k2, j2);
                    },
                    None => {
                        assert forall|l: int| 0 <= l < m2.len() implies m2[l].0 != Yaml::Str(k2) by {
                            let ol = if l == i { n } else { l };
                            assert(m2[l] == m[ol]);
                        }
                    },
                }
            } else {
                assert forall|l: int| 0 <= l < m2.len() implies m2[l].0 != Yaml::Str(k2) by {
                    let ol = if l == i { n } else { l };
                    assert(m2[l] == m[ol]);
                    assert(ol != i);
                }
            }
        },
        None => {},
    }
}

/// `inner` under the tags `tags`, outermost first.
pub open spec fn wrap_tags(tags: Seq<Seq<char>>, inner: Yaml) -> Yaml
    decreases tags.len(),
{
    if tags.len() == 0 {
        inner
    } else {
        Yaml::Tagged(tags[0], Box::new(wrap_tags(tags.drop_first(), inner)))
    }
}

pub proof fn lemma_wrap_tags(tags: Seq<Seq<char>>, inner: Yaml, other: Yaml)
    requires
        !(inner is Tagged),
    ensures
        untag(wrap_tags(tags, inner)) == inner,
        replace_untagged(wrap_tags(tags, inner), other) == wrap_tags(tags, other),
    decreases tags.len(),
{
    if tags.len() > 0 {
        lemma_wrap_tags(tags.drop_first(), inner, other);
    }
}

proof fn lemma_wrap_tags_last(tags: Seq<Seq<char>>, inner: Yaml)
    requires
        tags.len() > 0,
    ensures
        wrap_tags(tags, inner) == wrap_tags(
            tags.drop_last(),
            Yaml::Tagged(tags.last(), Box::new(inner)),
        ),
    decreases tags.len(),
{
    if tags.len() > 1 {
        let df = tags.drop_first();
        let dl = tags.drop_last();
        lemma_wrap_tags_last(df, inner);
        assert(df.drop_last() =~= dl.drop_first());
        assert(dl[0] == tags[0]);
        assert(df.last() == tags.last());
        assert(wrap_tags(tags, inner) == Yaml::Tagged(tags[0], Box::new(wrap_tags(df, inner))));
        assert(wrap_tags(dl, Yaml::Tagged(tags.last(), Box::new(inner))) == Yaml::Tagged(
            tags[0],
            Box::new(wrap_tags(dl.drop_first(), Yaml::Tagged(tags.last(), Box::new(inner)))),
        ));
    } else {
        assert(tags.drop_first() =~= Seq::<Seq<char>>::empty());
        assert(tags.drop_last() =~= Seq::<Seq<char>>::empty());
        assert(wrap_tags(tags.drop_first(), inner) == inner);
        assert(wrap_tags(tags.drop_last(), Yaml::Tagged(tags.last(), Box::new(inner)))
            == Yaml::Tagged(tags.last(), Box::new(inner)));
    }
}

/// The string items of the list that `v` is, if it is one.
pub open spec fn list_strings(v: Option<Yaml>) -> Seq<Seq<char>> {
    match v {
        Some(x) => match as_list(x) {
            Some(l) => string_items(l),
            None => Seq::empty(),
        },
        None => Seq::empty(),
    }
}

// ---------------------------------------------------------------------------
// Executable operations
// ---------------------------------------------------------------------------

impl YamlValue {
    pub fn str_value(s: &str) -> (r: YamlValue)
        ensures
            yv(r) == Yaml::Str(s@),
    {
        YamlValue::Str(s.to_owned())
    }

    /// Structural copy.
    pub fn copy(&self) -> (r: YamlValue)
        ensures
            yv(r) == yv(*self),
        decreases self,
    {
        match self {
            YamlValue::Null => YamlValue::Null,
            YamlValue::Bool(b) => YamlValue::Bool(*b),
            YamlValue::Number(n) => YamlValue::Number(n.clone()),
            YamlValue::Str(s) => YamlValue::Str(s.clone()),
            YamlValue::List(items) => YamlValue::List(copy_list(items)),
            YamlValue::Mapping(es) => YamlValue::Mapping(copy_entries(es)),
            YamlValue::Tagged(t, b) => {
                let inner = (**b).copy();
                YamlValue::Tagged(t.clone(), Box::new(inner))
            },
        }
    }
}

pub fn copy_list(items: &Vec<YamlValue>) -> (r: Vec<YamlValue>)
    ensures
        yaml_list_view(r@) == yaml_list_view(items@),
    decreases items,
{
    let mut r: Vec<YamlValue> = Vec::new();
    let mut i: usize = 0;
    while i < items.len()
        invariant
            i <= items@.len(),
            r@.len() == i,
            forall|k: int| 0 <= k < i ==> yv(r@[k]) == yv(items@[k]),
        decreases items.len() - i,
    {
        assert(decreases_to!(items => items@[i as int]));
        let c = items[i].copy();
        r.push(c);
        i = i + 1;
    }
    assert(yaml_list_view(r@) =~= yaml_list_view(items@));
    r
}

pub fn copy_entries(es: &Vec<YamlEntry>) -> (r: Vec<YamlEntry>)
    ensures
        yaml_entries_view(r@) == yaml_entries_view(es@),
    decreases es,
{
    let mut r: Vec<YamlEntry> = Vec::new();
    let mut i: usize = 0;
    while i < es.len()
        invariant
            i <= es@.len(),
            r@.len() == i,
            forall|k: int|
                0 <= k < i ==> yv(r@[k].key) == yv(es@[k].key) && yv(r@[k].value) == yv(
                    es@[k].value,
                ),
        decreases es.len() - i,
    {
        assert(decreases_to!(es => es@[i as int]));
        assert(decreases_to!(es@[i as int] => es@[i as int].key));
        assert(decreases_to!(es@[i as int] => es@[i as int].value));
        let k = es[i].key.copy();
        let v = es[i].value.copy();
        r.push(YamlEntry { key: k, value: v });
        i = i + 1;
    }
    assert(yaml_entries_view(r@) =~= yaml_entries_view(es@));
    r
}

/// The value under its tags.
pub fn untagged(v: &YamlValue) -> (r: &YamlValue)
    ensures
        yv(*r) == untag(yv(*v)),
    decreases v,
{
    match v {
        YamlValue::Tagged(_, b) => untagged(b),
        _ => v,
    }
}

/// The entries of `v` when it is (under tags) a mapping.
pub fn into_mapping(v: YamlValue) -> (r: Option<Vec<YamlEntry>>)
    ensures
        match r {
            Some(es) => as_mapping(yv(v)) == Some(yaml_entries_view(es@)),
            None => as_mapping(yv(v)) is None,
        },
    decreases v,
{
    match v {
        YamlValue::Tagged(_, b) => into_mapping(*b),
        YamlValue::Mapping(es) => Some(es),
        _ => None,
    }
}

/// Split off the tags around a value, outermost first.
pub fn peel_tags(v: YamlValue) -> (r: (Vec<String>, YamlValue))
    ensures
        yv(v) == wrap_tags(crate::text::strs(r.0@), yv(r.1)),
        !(r.1 is Tagged),
    decreases v,
{
    match v {
        YamlValue::Tagged(t, b) => {
            let (mut tags, inner) = peel_tags(*b);
            let ghost rest = crate::text::strs(tags@);
            tags.insert(0, t);
            assert(crate::text::strs(tags@).drop_first() =~= rest);
            (tags, inner)
        },
        _ => {
            let tags: Vec<String> = Vec::new();
            assert(crate::text::strs(tags@) =~= Seq::<Seq<char>>::empty());
            (tags, v)
        },
    }
}

/// Put tags back around a value, outermost first.
pub fn wrap_tags_exec(tags: Vec<String>, inner: YamlValue) -> (r: YamlValue)
    ensures
        yv(r) == wrap_tags(crate::text::strs(tags@), yv(inner)),
{
    let ghost goal = wrap_tags(crate::text::strs(tags@), yv(inner));
    let mut tags = tags;
    let mut v = inner;
    while tags.len() > 0
        invariant
            wrap_tags(crate::text::strs(tags@), yv(v)) == goal,
        decreases tags.len(),
    {
        let ghost before = crate::text::strs(tags@);
        proof {
            lemma_wrap_tags_last(before, yv(v));
        }
        let t = tags.pop().unwrap();
        assert(crate::text::strs(tags@) =~= before.drop_last());
        v = YamlValue::Tagged(t, Box::new(v));
    }
    assert(crate::text::strs(tags@) =~= Seq::<Seq<char>>::empty());
    v
}

/// The value under the string key `k`.
pub fn map_get<'a>(es: &'a Vec<YamlEntry>, k: &str) -> (r: Option<&'a YamlValue>)
    ensures
        match r {
            Some(x) => mget(yaml_entries_view(es@), k@) == Some(yv(*x)),
            None => mget(yaml_entries_view(es@), k@) is None,
        },
{
    match find_key_exec(es, k) {
        Some(i) => Some(&es[i].value),
        None => None,
    }
}

/// The string items of `v` when it is (under tags) a list.
pub fn list_strings_exec(v: Option<&YamlValue>) -> (r: Vec<String>)
    ensures
        crate::text::strs(r@) == list_strings(
            match v {
                Some(x) => Some(yv(*x)),
                None => None,
            },
        ),
{
    let mut out: Vec<String> = Vec::new();
    assert(crate::text::strs(out@) =~= Seq::<Seq<char>>::empty());
    if let Some(x) = v {
        if let YamlValue::List(items) = untagged(x) {
            let ghost l = yaml_list_view(items@);
            let mut i: usize = 0;
            while i < items.len()
                invariant
                    i <= items@.len(),
                    l == yaml_list_view(items@),
                    crate::text::strs(out@) == string_items(l.take(i as int)),
                decreases items.len() - i,
            {
                assert(l.take(i + 1).drop_last() =~= l.take(i as int));
                if let YamlValue::Str(s) = untagged(&items[i]) {
                    crate::text::push_line(&mut out, s.clone());
                }
                i = i + 1;
            }
            assert(l.take(items@.len() as int) =~= l);
        }
    }
    out
}

/// Whether a key is the string `k`.
pub fn key_is(key: &YamlValue, k: &str) -> (b: bool)
    ensures
        b == (yv(*key) == Yaml::Str(k@)),
{
    match key {
        YamlValue::Str(s) => crate::text::str_eq(s.as_str(), k),
        _ => false,
    }
}

/// Index of the first entry keyed by `k`.
pub fn find_key_exec(es: &Vec<YamlEntry>, k: &str) -> (r: Option<usize>)
    ensures
        match r {
            Some(i) => find_key(yaml_entries_view(es@), k@) == Some(i as int) && i < es@.len(),
            None => find_key(yaml_entries_view(es@), k@) is None,
        },
{
    proof {
        lemma_find_key(yaml_entries_view(es@), k@);
    }
    let ghost m = yaml_entries_view(es@);
    let mut i: usize = 0;
    while i < es.len()
        invariant
            i <= es@.len(),
            m == yaml_entries_view(es@),
            m.len() == es@.len(),
            find_key(m, k@) == find_key_from(m, k@, i as int),
        decreases es.len() - i,
    {
        if key_is(&es[i].key, k) {
            assert(m[i as int].0 == Yaml::Str(k@));
            return Some(i);
        }
        i = i + 1;
    }
    None
}

/// Insert `v` under the string key `k`.
pub fn map_insert(es: &mut Vec<YamlEntry>, k: &str, v: YamlValue)
    ensures
        yaml_entries_view(final(es)@) == minsert(yaml_entries_view(old(es)@), k@, yv(v)),
{
    let ghost m = yaml_entries_view(es@);
    match find_key_exec(es, k) {
        Some(i) => {
            let key = es[i].key.copy();
            let ghost old_es = es@;
            es.set(i, YamlEntry { key: key, value: v });
            assert(yaml_entries_view(es@) =~= m.update(i as int, (m[i as int].0, yv(v))));
        },
        None => {
            let ghost old_es = es@;
            es.push(YamlEntry { key: YamlValue::str_value(k), value: v });
            assert(yaml_entries_view(es@) =~= m.push((Yaml::Str(k@), yv(v))));
        },
    }
}

/// Remove the entry keyed by `k`; returns its value.
pub fn map_remove(es: &mut Vec<YamlEntry>, k: &str) -> (r: Option<YamlValue>)
    ensures
        yaml_entries_view(final(es)@) == mremove(yaml_entries_view(old(es)@), k@),
        match r {
            Some(x) => mget(yaml_entries_view(old(es)@), k@) == Some(yv(x)),
            None => mget(yaml_entries_view(old(es)@), k@) is None,
        },
{
    let ghost m = yaml_entries_view(es@);
    match find_key_exec(es, k) {
        Some(i) => {
            let e = es.swap_remove(i);
            assert(yaml_entries_view(es@) =~= m.update(i as int, m.last()).drop_last());
            Some(e.value)
        },
        None => None,
    }
}

} // verus!
