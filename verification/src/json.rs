use vstd::prelude::*;

verus! {

/// A JSON value as the server stores and answers it.
///
/// Floating-point numbers are carried as their IEEE-754 bit pattern: the
/// library never computes with them, it only stores and returns them.
#[derive(Debug, PartialEq)]
pub enum Json {
    I64(i64),
    U64(u64),
    F64Bits(u64),
    String(String),
    Boolean(bool),
    Array(Vec<Json>),
    Object(Vec<(String, Json)>),
    Null,
}

/// The mathematical value of a JSON document.  An object is a map from
/// member names to values: where a name occurs twice, the first occurrence
/// counts.
pub enum JsonView {
    I64(i64),
    U64(u64),
    F64Bits(u64),
    Str(Seq<char>),
    Boolean(bool),
    Array(Seq<JsonView>),
    Object(Map<Seq<char>, JsonView>),
    Null,
}

pub open spec fn json_view(j: Json) -> JsonView
    decreases j,
{
    match j {
        Json::I64(n) => JsonView::I64(n),
        Json::U64(n) => JsonView::U64(n),
        Json::F64Bits(b) => JsonView::F64Bits(b),
        Json::String(s) => JsonView::Str(s@),
        Json::Boolean(b) => JsonView::Boolean(b),
        Json::Array(v) => {
            proof { assert(decreases_to!(v => v@)); }
            JsonView::Array(array_view(v@))
        },
        Json::Object(m) => {
            proof { assert(decreases_to!(m => m@)); }
            JsonView::Object(members_view(m@))
        },
        Json::Null => JsonView::Null,
    }
}

pub open spec fn array_view(s: Seq<Json>) -> Seq<JsonView>
    decreases s,
{
    if s.len() == 0 {
        Seq::empty()
    } else {
        proof { assert(decreases_to!(s => s[s.len() - 1])); }
        array_view(s.drop_last()).push(json_view(s[s.len() - 1]))
    }
}

pub open spec fn members_view(s: Seq<(String, Json)>) -> Map<Seq<char>, JsonView>
    decreases s,
{
    if s.len() == 0 {
        Map::empty()
    } else {
        proof { assert(decreases_to!(s => s[0])); }
        members_view(s.drop_first()).insert(s[0].0@, json_view(s[0].1))
    }
}

impl View for Json {
    type V = JsonView;

    open spec fn view(&self) -> JsonView {
        json_view(*self)
    }
}


/// The empty JSON object.
pub open spec fn empty_object() -> JsonView {
    JsonView::Object(Map::empty())
}

/// A one-member JSON object.
pub open spec fn single_member(name: Seq<char>, value: JsonView) -> JsonView {
    JsonView::Object(Map::empty().insert(name, value))
}

/// Index of the first member named `k`, or -1 where there is none.
pub open spec fn first_member_index(s: Seq<(String, Json)>, k: Seq<char>) -> int
    decreases s.len(),
{
    if s.len() == 0 {
        -1
    } else if s[0].0@ == k {
        0
    } else {
        let r = first_member_index(s.drop_first(), k);
        if r < 0 {
            -1
        } else {
            r + 1
        }
    }
}

/// What `as_u64` gives of a value: a non-negative integer of either kind.
pub open spec fn view_as_u64(j: JsonView) -> Option<u64> {
    match j {
        JsonView::I64(n) => if n >= 0 {
            Some(n as u64)
        } else {
            None
        },
        JsonView::U64(n) => Some(n),
        _ => None,
    }
}

/// The member `key` of an object; `None` for a missing member or a value
/// that is not an object.
pub open spec fn view_find(j: JsonView, key: Seq<char>) -> Option<JsonView> {
    match j {
        JsonView::Object(m) => if m.contains_key(key) {
            Some(m[key])
        } else {
            None
        },
        _ => None,
    }
}

/// The members of an object value, and the empty map for any other value.
pub open spec fn view_members_or_empty(j: JsonView) -> Map<Seq<char>, JsonView> {
    match j {
        JsonView::Object(m) => m,
        _ => Map::empty(),
    }
}

pub proof fn lemma_array_view(s: Seq<Json>)
    ensures
        array_view(s).len() == s.len(),
        forall|i: int| 0 <= i < s.len() ==> #[trigger] array_view(s)[i] == json_view(s[i]),
    decreases s.len(),
{
    if s.len() > 0 {
        lemma_array_view(s.drop_last());
    }
}

/// Two arrays whose elements have the same values have the same value.
pub proof fn lemma_array_view_pointwise(s1: Seq<Json>, s2: Seq<Json>)
    requires
        s1.len() == s2.len(),
        forall|i: int| 0 <= i < s1.len() ==> json_view(#[trigger] s1[i]) == json_view(s2[i]),
    ensures
        array_view(s1) == array_view(s2),
{
    lemma_array_view(s1);
    lemma_array_view(s2);
    assert(array_view(s1) =~= array_view(s2));
}

pub proof fn lemma_members_view_lookup(s: Seq<(String, Json)>, k: Seq<char>)
    ensures
        first_member_index(s, k) < s.len(),
        first_member_index(s, k) >= 0 ==> s[first_member_index(s, k)].0@ == k,
        first_member_index(s, k) >= 0 ==> forall|j: int|
            0 <= j < first_member_index(s, k) ==> (#[trigger] s[j]).0@ != k,
        first_member_index(s, k) < 0 ==> forall|j: int| 0 <= j < s.len() ==> (#[trigger] s[j]).0@ != k,
        members_view(s).contains_key(k) <==> first_member_index(s, k) >= 0,
        first_member_index(s, k) >= 0 ==> members_view(s)[k] == json_view(
            s[first_member_index(s, k)].1,
        ),
    decreases s.len(),
{
    if s.len() > 0 {
        lemma_members_view_lookup(s.drop_first(), k);
        if s[0].0@ != k {
            assert forall|j: int| 0 < j < s.len() implies (#[trigger] s[j]).0@ == s.drop_first()[j
                - 1].0@ by {}
        }
    }
}

/// Two objects whose members have the same names and values, in the same
/// order, have the same value.
pub proof fn lemma_members_view_pointwise(s1: Seq<(String, Json)>, s2: Seq<(String, Json)>)
    requires
        s1.len() == s2.len(),
        forall|i: int|
            0 <= i < s1.len() ==> (#[trigger] s1[i]).0@ == s2[i].0@ && json_view(s1[i].1)
                == json_view(s2[i].1),
    ensures
        members_view(s1) == members_view(s2),
    decreases s1.len(),
{
    if s1.len() > 0 {
        assert forall|i: int| 0 <= i < s1.drop_first().len() implies (#[trigger] s1.drop_first()[i]).0@
            == s2.drop_first()[i].0@ && json_view(s1.drop_first()[i].1) == json_view(
            s2.drop_first()[i].1,
        ) by {
            assert(s1.drop_first()[i] == s1[i + 1]);
            assert(s2.drop_first()[i] == s2[i + 1]);
        }
        lemma_members_view_pointwise(s1.drop_first(), s2.drop_first());
    }
}

/// Replacing the first member named `k` sets `k` in the object's value.
pub proof fn lemma_members_view_update(s: Seq<(String, Json)>, k: String, v: Json)
    requires
        first_member_index(s, k@) >= 0,
    ensures
        members_view(s.update(first_member_index(s, k@), (k, v))) == members_view(s).insert(
            k@,
            json_view(v),
        ),
    decreases s.len(),
{
    lemma_members_view_lookup(s, k@);
    let i = first_member_index(s, k@);
    let t = s.update(i, (k, v));
    if i == 0 {
        assert(t.drop_first() =~= s.drop_first());
        assert(members_view(t) =~= members_view(s).insert(k@, json_view(v)));
    } else {
        assert(first_member_index(s.drop_first(), k@) == i - 1);
        lemma_members_view_update(s.drop_first(), k, v);
        assert(t.drop_first() =~= s.drop_first().update(i - 1, (k, v)));
        assert(t[0] == s[0]);
        assert(s[0].0@ != k@);
        assert(members_view(t) == members_view(t.drop_first()).insert(t[0].0@, json_view(t[0].1)));
        assert(members_view(s) == members_view(s.drop_first()).insert(s[0].0@, json_view(s[0].1)));
        assert(members_view(t) =~= members_view(s).insert(k@, json_view(v)));
    }
}

/// Appending a member whose name is not yet there adds it to the object's value.
pub proof fn lemma_members_view_push(s: Seq<(String, Json)>, k: String, v: Json)
    requires
        first_member_index(s, k@) < 0,
    ensures
        members_view(s.push((k, v))) == members_view(s).insert(k@, json_view(v)),
    decreases s.len(),
{
    let t = s.push((k, v));
    if s.len() == 0 {
        assert(t.drop_first() =~= Seq::<(String, Json)>::empty());
        assert(members_view(t.drop_first()) == Map::<Seq<char>, JsonView>::empty());
        assert(members_view(t) == members_view(t.drop_first()).insert(t[0].0@, json_view(t[0].1)));
        assert(members_view(t) =~= members_view(s).insert(k@, json_view(v)));
    } else {
        assert(s[0].0@ != k@);
        assert(first_member_index(s.drop_first(), k@) < 0);
        lemma_members_view_push(s.drop_first(), k, v);
        assert(t.drop_first() =~= s.drop_first().push((k, v)));
        assert(t[0] == s[0]);
        assert(members_view(t) == members_view(t.drop_first()).insert(t[0].0@, json_view(t[0].1)));
        assert(members_view(s) == members_view(s.drop_first()).insert(s[0].0@, json_view(s[0].1)));
        assert(members_view(t) =~= members_view(s).insert(k@, json_view(v)));
    }
}

/// The value that object `members` holds under `key`, if any.
pub fn object_get<'a>(members: &'a Vec<(String, Json)>, key: &String) -> (r: Option<&'a Json>)
    ensures
        match r {
            None => !members_view(members@).contains_key(key@),
            Some(v) => members_view(members@).contains_key(key@) && members_view(members@)[key@]
                == v@,
        },
{
    proof {
        lemma_members_view_lookup(members@, key@);
    }
    let n = members.len();
    let mut i: usize = 0;
    while i < n
        invariant
            n == members@.len(),
            i <= n,
            forall|j: int| 0 <= j < i ==> (#[trigger] members@[j]).0@ != key@,
            first_member_index(members@, key@) < members@.len(),
            first_member_index(members@, key@) >= 0 ==> members@[first_member_index(members@, key@)].0@ == key@,
            first_member_index(members@, key@) >= 0 ==> forall|j: int|
                0 <= j < first_member_index(members@, key@) ==> (#[trigger] members@[j]).0@ != key@,
            members_view(members@).contains_key(key@) <==> first_member_index(members@, key@) >= 0,
            first_member_index(members@, key@) >= 0 ==> members_view(members@)[key@] == json_view(
                members@[first_member_index(members@, key@)].1,
            ),
            first_member_index(members@, key@) < 0 ==> forall|j: int|
                0 <= j < members@.len() ==> (#[trigger] members@[j]).0@ != key@,
        decreases n - i,
    {
        if members[i].0 == *key {
            return Some(&members[i].1);
        }
        i = i + 1;
    }
    None
}

/// An object with no member.
pub fn new_members() -> (r: Vec<(String, Json)>)
    ensures
        r@ == Seq::<(String, Json)>::empty(),
        members_view(r@) == Map::<Seq<char>, JsonView>::empty(),
{
    let r: Vec<(String, Json)> = Vec::new();
    proof {
        assert(members_view(r@) =~= Map::<Seq<char>, JsonView>::empty());
    }
    r
}

/// Sets member `key` of object `members` to `value`, as a map insert does.
pub fn object_insert(members: &mut Vec<(String, Json)>, key: String, value: Json)
    ensures
        members_view(final(members)@) == members_view(old(members)@).insert(key@, value@),
{
    proof {
        lemma_members_view_lookup(members@, key@);
    }
    let n = members.len();
    let mut i: usize = 0;
    while i < n
        invariant
            n == members@.len(),
            members@ == old(members)@,
            i <= n,
            forall|j: int| 0 <= j < i ==> (#[trigger] members@[j]).0@ != key@,
            first_member_index(members@, key@) < members@.len(),
            first_member_index(members@, key@) >= 0 ==> members@[first_member_index(members@, key@)].0@ == key@,
            first_member_index(members@, key@) >= 0 ==> forall|j: int|
                0 <= j < first_member_index(members@, key@) ==> (#[trigger] members@[j]).0@ != key@,
            first_member_index(members@, key@) < 0 ==> forall|j: int|
                0 <= j < members@.len() ==> (#[trigger] members@[j]).0@ != key@,
        decreases n - i,
    {
        if members[i].0 == key {
            proof {
                assert(first_member_index(members@, key@) == i);
                lemma_members_view_update(members@, key, value);
            }
            members.set(i, (key, value));
            return ;
        }
        i = i + 1;
    }
    proof {
        lemma_members_view_push(members@, key, value);
    }
    members.push((key, value));
}


impl Json {
    /// A copy of this value, member by member.
    pub fn deep_copy(&self) -> (r: Json)
        ensures
            r@ == self@,
        decreases self,
    {
        match self {
            Json::I64(n) => Json::I64(*n),
            Json::U64(n) => Json::U64(*n),
            Json::F64Bits(b) => Json::F64Bits(*b),
            Json::String(s) => Json::String(s.clone()),
            Json::Boolean(b) => Json::Boolean(*b),
            Json::Array(v) => Json::Array(array_copy(v)),
            Json::Object(m) => Json::Object(members_copy(m)),
            Json::Null => Json::Null,
        }
    }

    /// `Some` of the number where this is a non-negative integer.
    pub fn as_u64(&self) -> (r: Option<u64>)
        ensures
            r == view_as_u64(self@),
    {
        match self {
            Json::I64(n) => if *n >= 0 {
                Some(*n as u64)
            } else {
                None
            },
            Json::U64(n) => Some(*n),
            _ => None,
        }
    }

    /// The text of a string value.
    pub fn as_string(&self) -> (r: Option<&String>)
        ensures
            match r {
                Some(s) => self@ == JsonView::Str(s@),
                None => !(self@ is Str),
            },
    {
        match self {
            Json::String(s) => Some(s),
            _ => None,
        }
    }

    /// The member `key` of an object value.
    pub fn find(&self, key: &String) -> (r: Option<&Json>)
        ensures
            match r {
                Some(v) => view_find(self@, key@) == Some(v@),
                None => view_find(self@, key@) is None,
            },
    {
        match self {
            Json::Object(m) => object_get(m, key),
            _ => None,
        }
    }
}

/// The members of `m` set one after another, later ones winning.
pub open spec fn insert_all(
    m: Map<Seq<char>, JsonView>,
    entries: Seq<(Seq<char>, JsonView)>,
) -> Map<Seq<char>, JsonView>
    decreases entries.len(),
{
    if entries.len() == 0 {
        m
    } else {
        insert_all(m, entries.drop_last()).insert(
            entries.last().0,
            entries.last().1,
        )
    }
}

/// Whether entry `i` is the last one of `entries` with its name.
pub open spec fn is_last_of_name(entries: Seq<(Seq<char>, JsonView)>, i: int) -> bool {
    forall|j: int| i < j < entries.len() ==> (#[trigger] entries[j]).0 != entries[i].0
}

/// Whether some entry of `entries` has name `k`.
pub open spec fn names_in(entries: Seq<(Seq<char>, JsonView)>, k: Seq<char>) -> bool {
    exists|i: int| 0 <= i < entries.len() && (#[trigger] entries[i]).0 == k
}

/// Whether `m` holds, under each name of `entries`, the value last given for
/// that name.
pub open spec fn holds_last_values(m: Map<Seq<char>, JsonView>, entries: Seq<(Seq<char>, JsonView)>) -> bool {
    forall|i: int|
        0 <= i < entries.len() && is_last_of_name(entries, i) ==> m.contains_key((#[trigger] entries[i]).0)
            && m[entries[i].0] == entries[i].1
}

/// Setting named values one after another leaves each name with the last
/// value given for it, keeps every other member, and adds nothing else.
pub proof fn lemma_insert_all(m: Map<Seq<char>, JsonView>, entries: Seq<(Seq<char>, JsonView)>)
    ensures
        holds_last_values(insert_all(m, entries), entries),
        forall|k: Seq<char>| !names_in(entries, k) ==> (#[trigger] insert_all(m, entries).contains_key(k)
            == m.contains_key(k)) && (m.contains_key(k) ==> insert_all(m, entries)[k] == m[k]),
        forall|k: Seq<char>| #[trigger] insert_all(m, entries).contains_key(k) ==> m.contains_key(k) || names_in(entries, k),
    decreases entries.len(),
{
    if entries.len() > 0 {
        let p = entries.drop_last();
        let last = entries.last();
        let n = entries.len() - 1;
        lemma_insert_all(m, p);
        let r = insert_all(m, p);
        let t = insert_all(m, entries);
        assert(t == r.insert(last.0, last.1));
        assert forall|i: int| 0 <= i < entries.len() && is_last_of_name(entries, i) implies t.contains_key((#[trigger] entries[i]).0)
            && t[entries[i].0] == entries[i].1 by {
            if i < n {
                assert(entries[n].0 != entries[i].0);
                assert(p[i] == entries[i]);
                assert forall|j: int| i < j < p.len() implies (#[trigger] p[j]).0 != p[i].0 by {
                    assert(p[j] == entries[j]);
                    assert(entries[j].0 != entries[i].0);
                }
                assert(is_last_of_name(p, i));
            }
        }
        assert forall|k: Seq<char>| !names_in(entries, k) implies (#[trigger] t.contains_key(k) == m.contains_key(k)) && (
        m.contains_key(k) ==> t[k] == m[k]) by {
            assert(entries[n].0 != k);
            if names_in(p, k) {
                let i = choose|i: int| 0 <= i < p.len() && (#[trigger] p[i]).0 == k;
                assert(entries[i] == p[i]);
            }
        }
        assert forall|k: Seq<char>| #[trigger] t.contains_key(k) implies m.contains_key(k) || names_in(entries, k) by {
            if k == last.0 {
                assert(entries[n].0 == k);
            } else {
                assert(r.contains_key(k));
                if names_in(p, k) {
                    let i = choose|i: int| 0 <= i < p.len() && (#[trigger] p[i]).0 == k;
                    assert(entries[i] == p[i]);
                }
            }
        }
    }
}

/// The names and values of a list of named documents.
pub open spec fn named_views(entries: Seq<(String, Json)>) -> Seq<(Seq<char>, JsonView)> {
    entries.map_values(|e: (String, Json)| (e.0@, e.1@))
}

/// Sets each named value of `entries` in object `members`, in order.
pub fn object_insert_all(members: &mut Vec<(String, Json)>, entries: &Vec<(String, Json)>)
    ensures
        members_view(final(members)@) == insert_all(members_view(old(members)@), named_views(entries@)),
{
    let n = entries.len();
    let mut i: usize = 0;
    proof {
        assert(named_views(entries@).take(0) =~= Seq::<(Seq<char>, JsonView)>::empty());
    }
    while i < n
        invariant
            n == entries@.len(),
            i <= n,
            members_view(members@) == insert_all(
                members_view(old(members)@),
                named_views(entries@).take(i as int),
            ),
        decreases n - i,
    {
        let k = entries[i].0.clone();
        let v = entries[i].1.deep_copy();
        object_insert(members, k, v);
        proof {
            let t = named_views(entries@).take(i + 1);
            assert(t.drop_last() =~= named_views(entries@).take(i as int));
            assert(t.last() == (entries@[i as int].0@, entries@[i as int].1@));
        }
        i = i + 1;
    }
    proof {
        assert(named_views(entries@).take(n as int) =~= named_views(entries@));
    }
}

/// A copy of the members of an object, in the same order.
pub fn members_copy(m: &Vec<(String, Json)>) -> (r: Vec<(String, Json)>)
    ensures
        members_view(r@) == members_view(m@),
    decreases m,
{
    let mut out: Vec<(String, Json)> = Vec::new();
    let n = m.len();
    let mut i: usize = 0;
    while i < n
        invariant
            n == m@.len(),
            i <= n,
            out@.len() == i,
            forall|j: int|
                0 <= j < i ==> (#[trigger] out@[j]).0@ == m@[j].0@ && json_view(out@[j].1) == json_view(
                    m@[j].1,
                ),
        decreases n - i,
    {
        proof {
            assert(decreases_to!(m => m[i as int].1));
        }
        let k = m[i].0.clone();
        let v = m[i].1.deep_copy();
        out.push((k, v));
        i = i + 1;
    }
    proof {
        lemma_members_view_pointwise(out@, m@);
    }
    out
}

/// A copy of a sequence of values.
pub fn array_copy(v: &Vec<Json>) -> (r: Vec<Json>)
    ensures
        array_view(r@) == array_view(v@),
    decreases v,
{
    let mut out: Vec<Json> = Vec::new();
    let n = v.len();
    let mut i: usize = 0;
    while i < n
        invariant
            n == v@.len(),
            i <= n,
            out@.len() == i,
            forall|j: int| 0 <= j < i ==> json_view(#[trigger] out@[j]) == json_view(v@[j]),
        decreases n - i,
    {
        proof {
            assert(decreases_to!(v => v[i as int]));
        }
        let c = v[i].deep_copy();
        out.push(c);
        i = i + 1;
    }
    proof {
        lemma_array_view_pointwise(out@, v@);
    }
    out
}

} // verus!
