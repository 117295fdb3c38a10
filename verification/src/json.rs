//! The JSON wire-value model.
//!
//! Wire payloads are JSON trees whose objects keep their entries in
//! insertion order; numbers are signed 64-bit integers, which covers
//! everything this library emits. The mathematical model of a value is
//! [`JsonV`]; contracts are stated over it through the view of
//! [`JsonValue`].

use vstd::prelude::*;

verus! {

/// A JSON wire value.
#[derive(Debug, PartialEq)]
pub enum JsonValue {
    Null,
    Bool(bool),
    Int(i64),
    Str(String),
    Arr(Vec<JsonValue>),
    Obj(Vec<(String, JsonValue)>),
}

/// An ordered key-value bag: every JSON object body, and the open
/// metadata envelope attachable to entities of the content model.
pub type JsonObject = Vec<(String, JsonValue)>;

/// The mathematical model of a JSON value.
#[verifier::ext_equal]
pub enum JsonV {
    Null,
    Bool(bool),
    Int(int),
    Str(Seq<char>),
    Arr(Seq<JsonV>),
    Obj(Seq<(Seq<char>, JsonV)>),
}

/// The model of an executable JSON value.
pub open spec fn json_view(v: JsonValue) -> JsonV
    decreases v,
{
    match v {
        JsonValue::Null => JsonV::Null,
        JsonValue::Bool(b) => JsonV::Bool(b),
        JsonValue::Int(i) => JsonV::Int(i as int),
        JsonValue::Str(s) => JsonV::Str(s@),
        JsonValue::Arr(a) => JsonV::Arr(arr_view(a@)),
        JsonValue::Obj(o) => JsonV::Obj(obj_view(o@)),
    }
}

/// The models of the elements of an executable JSON array body.
pub open spec fn arr_view(a: Seq<JsonValue>) -> Seq<JsonV>
    decreases a,
{
    if a.len() == 0 {
        Seq::empty()
    } else {
        seq![json_view(a[0])] + arr_view(a.drop_first())
    }
}

/// The model of an executable JSON object body.
pub open spec fn obj_view(o: Seq<(String, JsonValue)>) -> Seq<(Seq<char>, JsonV)>
    decreases o,
{
    if o.len() == 0 {
        Seq::empty()
    } else {
        seq![(o[0].0@, json_view(o[0].1))] + obj_view(o.drop_first())
    }
}

/// `arr_view` maps the model over the elements, index by index.
pub proof fn lemma_arr_view(a: Seq<JsonValue>)
    ensures
        arr_view(a).len() == a.len(),
        forall|i: int| 0 <= i < a.len() ==> #[trigger] arr_view(a)[i] == json_view(a[i]),
    decreases a.len(),
{
    if a.len() > 0 {
        lemma_arr_view(a.drop_first());
        assert forall|i: int| 0 <= i < a.len() implies #[trigger] arr_view(a)[i] == json_view(
            a[i],
        ) by {
            if i > 0 {
                assert(a.drop_first()[i - 1] == a[i]);
                assert(arr_view(a)[i] == arr_view(a.drop_first())[i - 1]);
            }
        }
    }
}

/// `obj_view` maps the model over the entries, index by index.
pub proof fn lemma_obj_view(o: Seq<(String, JsonValue)>)
    ensures
        obj_view(o).len() == o.len(),
        forall|i: int|
            0 <= i < o.len() ==> #[trigger] obj_view(o)[i] == (o[i].0@, json_view(o[i].1)),
    decreases o.len(),
{
    if o.len() > 0 {
        lemma_obj_view(o.drop_first());
        assert forall|i: int| 0 <= i < o.len() implies #[trigger] obj_view(o)[i] == (o[i].0@,
        json_view(o[i].1)) by {
            if i > 0 {
                assert(o.drop_first()[i - 1] == o[i]);
                assert(obj_view(o)[i] == obj_view(o.drop_first())[i - 1]);
            }
        }
    }
}

impl View for JsonValue {
    type V = JsonV;

    open spec fn view(&self) -> JsonV {
        json_view(*self)
    }
}

/// Whether an object body has an entry under key `k`.
pub open spec fn obj_has_key(o: Seq<(Seq<char>, JsonV)>, k: Seq<char>) -> bool {
    exists|i: int| 0 <= i < o.len() && (#[trigger] o[i]).0 == k
}

/// The value of the first entry under key `k`, if any.
pub open spec fn obj_get(o: Seq<(Seq<char>, JsonV)>, k: Seq<char>) -> Option<JsonV>
    decreases o.len(),
{
    if o.len() == 0 {
        None
    } else if o[0].0 == k {
        Some(o[0].1)
    } else {
        obj_get(o.drop_first(), k)
    }
}

/// The object body with every entry under key `k` removed, order kept.
pub open spec fn obj_remove(o: Seq<(Seq<char>, JsonV)>, k: Seq<char>) -> Seq<(Seq<char>, JsonV)>
    decreases o.len(),
{
    if o.len() == 0 {
        o
    } else if o[0].0 == k {
        obj_remove(o.drop_first(), k)
    } else {
        seq![o[0]] + obj_remove(o.drop_first(), k)
    }
}

/// Whether the keys of an object body are pairwise distinct.
pub open spec fn keys_unique(o: Seq<(Seq<char>, JsonV)>) -> bool {
    forall|i: int, j: int| 0 <= i < j < o.len() ==> (#[trigger] o[i]).0 != (#[trigger] o[j]).0
}

/// Well-formedness of a JSON value: every object in the tree has
/// pairwise-distinct keys.
pub open spec fn json_wf(v: JsonV) -> bool
    decreases v,
{
    match v {
        JsonV::Arr(a) => forall|i: int| 0 <= i < a.len() ==> json_wf(#[trigger] a[i]),
        JsonV::Obj(o) => keys_unique(o) && (forall|i: int|
            0 <= i < o.len() ==> json_wf((#[trigger] o[i]).1)),
        _ => true,
    }
}

proof fn lemma_obj_get_skip(o: Seq<(Seq<char>, JsonV)>, k: Seq<char>, i: int)
    requires
        0 <= i <= o.len(),
        forall|j: int| 0 <= j < i ==> (#[trigger] o[j]).0 != k,
    ensures
        obj_get(o, k) == obj_get(o.subrange(i, o.len() as int), k),
    decreases i,
{
    assert(o.subrange(0, o.len() as int) =~= o);
    if i > 0 {
        assert(o.drop_first() =~= o.subrange(1, o.len() as int));
        lemma_obj_get_skip(o.drop_first(), k, i - 1);
        assert(o.drop_first().subrange(i - 1, o.drop_first().len() as int) =~= o.subrange(
            i,
            o.len() as int,
        ));
    }
}

/// If entry `i` is the first one under key `k`, it is what `obj_get` finds.
pub proof fn lemma_obj_get_index(o: Seq<(Seq<char>, JsonV)>, k: Seq<char>, i: int)
    requires
        0 <= i < o.len(),
        o[i].0 == k,
        forall|j: int| 0 <= j < i ==> (#[trigger] o[j]).0 != k,
    ensures
        obj_get(o, k) == Some(o[i].1),
        obj_has_key(o, k),
{
    lemma_obj_get_skip(o, k, i);
    assert(o.subrange(i, o.len() as int)[0] == o[i]);
}

/// If no entry is under key `k`, `obj_get` finds nothing.
pub proof fn lemma_obj_get_none(o: Seq<(Seq<char>, JsonV)>, k: Seq<char>)
    requires
        forall|j: int| 0 <= j < o.len() ==> (#[trigger] o[j]).0 != k,
    ensures
        obj_get(o, k) == None::<JsonV>,
        !obj_has_key(o, k),
{
    lemma_obj_get_skip(o, k, o.len() as int);
}

/// Removing a key that no entry carries leaves the object unchanged.
pub proof fn lemma_obj_remove_absent(o: Seq<(Seq<char>, JsonV)>, k: Seq<char>)
    requires
        forall|j: int| 0 <= j < o.len() ==> (#[trigger] o[j]).0 != k,
    ensures
        obj_remove(o, k) == o,
    decreases o.len(),
{
    if o.len() > 0 {
        assert(forall|j: int|
            0 <= j < o.len() - 1 ==> o.drop_first()[j] == #[trigger] o[j + 1]);
        lemma_obj_remove_absent(o.drop_first(), k);
        assert(obj_remove(o, k) =~= o);
    }
}

/// Removing the key of the head entry of an otherwise `k`-free tail
/// yields exactly that tail.
pub proof fn lemma_obj_remove_head(o: Seq<(Seq<char>, JsonV)>, k: Seq<char>)
    requires
        o.len() > 0,
        o[0].0 == k,
        forall|j: int| 1 <= j < o.len() ==> (#[trigger] o[j]).0 != k,
    ensures
        obj_remove(o, k) == o.drop_first(),
{
    assert(forall|j: int|
        0 <= j < o.len() - 1 ==> o.drop_first()[j] == #[trigger] o[j + 1]);
    lemma_obj_remove_absent(o.drop_first(), k);
}

/// Appending an entry to an object body appends its model.
pub proof fn lemma_obj_view_push(o: Seq<(String, JsonValue)>, p: (String, JsonValue))
    ensures
        obj_view(o.push(p)) == obj_view(o).push((p.0@, json_view(p.1))),
    decreases o.len(),
{
    reveal_with_fuel(obj_view, 3);
    if o.len() == 0 {
        assert(o.push(p).drop_first() =~= Seq::<(String, JsonValue)>::empty());
        assert(obj_view(o.push(p)) =~= obj_view(o).push((p.0@, json_view(p.1))));
    } else {
        assert(o.push(p).drop_first() =~= o.drop_first().push(p));
        lemma_obj_view_push(o.drop_first(), p);
        assert(o.push(p)[0] == o[0]);
        assert(obj_view(o.push(p)) =~= obj_view(o).push((p.0@, json_view(p.1))));
    }
}

/// How a removal treats one more entry at the end.
pub proof fn lemma_obj_remove_push(o: Seq<(Seq<char>, JsonV)>, k: Seq<char>, x: (Seq<char>, JsonV))
    ensures
        obj_remove(o.push(x), k) == (if x.0 == k {
            obj_remove(o, k)
        } else {
            obj_remove(o, k).push(x)
        }),
    decreases o.len(),
{
    reveal_with_fuel(obj_remove, 3);
    if o.len() == 0 {
        assert(o.push(x).drop_first() =~= Seq::<(Seq<char>, JsonV)>::empty());
        if x.0 == k {
            assert(obj_remove(o.push(x), k) =~= obj_remove(o, k));
        } else {
            assert(obj_remove(o.push(x), k) =~= obj_remove(o, k).push(x));
        }
    } else {
        assert(o.push(x).drop_first() =~= o.drop_first().push(x));
        lemma_obj_remove_push(o.drop_first(), k, x);
        assert(o.push(x)[0] == o[0]);
        if o[0].0 == k {
            assert(obj_remove(o.push(x), k) == obj_remove(o.drop_first().push(x), k));
            assert(obj_remove(o, k) == obj_remove(o.drop_first(), k));
        } else {
            assert(obj_remove(o.push(x), k) == seq![o[0]] + obj_remove(
                o.drop_first().push(x),
                k,
            ));
            assert(obj_remove(o, k) == seq![o[0]] + obj_remove(o.drop_first(), k));
            if x.0 != k {
                assert(seq![o[0]] + obj_remove(o.drop_first(), k).push(x) =~= (seq![o[0]]
                    + obj_remove(o.drop_first(), k)).push(x));
            }
        }
    }
}

/// String-slice equality, decided by comparing the owned copies.
pub fn str_eq(a: &str, b: &str) -> (r: bool)
    ensures
        r == (a@ == b@),
{
    let oa: String = a.to_owned();
    let ob: String = b.to_owned();
    oa == ob
}

/// A deep copy of a JSON value, equal to the original in the model.
#[verifier::loop_isolation(false)]
pub fn json_clone(v: &JsonValue) -> (r: JsonValue)
    ensures
        r@ == v@,
    decreases v,
{
    match v {
        JsonValue::Null => JsonValue::Null,
        JsonValue::Bool(b) => JsonValue::Bool(*b),
        JsonValue::Int(i) => JsonValue::Int(*i),
        JsonValue::Str(s) => JsonValue::Str(s.clone()),
        JsonValue::Arr(a) => {
            let mut out: Vec<JsonValue> = Vec::new();
            let mut i: usize = 0;
            while i < a.len()
                invariant
                    i <= a.len(),
                    out@.len() == i,
                    forall|j: int|
                        0 <= j < i ==> json_view(#[trigger] out@[j]) == json_view(a@[j]),
                decreases a.len() - i,
            {
                proof {
                    assert(decreases_to!(*v => *a));
                    assert(decreases_to!(*a => a@[i as int]));
                }
                let c = json_clone(&a[i]);
                out.push(c);
                i = i + 1;
            }
            proof {
                lemma_arr_view(a@);
                lemma_arr_view(out@);
                assert(arr_view(out@) =~= arr_view(a@));
            }
            JsonValue::Arr(out)
        },
        JsonValue::Obj(o) => {
            let mut out: Vec<(String, JsonValue)> = Vec::new();
            let mut i: usize = 0;
            while i < o.len()
                invariant
                    i <= o.len(),
                    out@.len() == i,
                    forall|j: int|
                        0 <= j < i ==> (#[trigger] out@[j]).0@ == o@[j].0@ && json_view(
                            out@[j].1,
                        ) == json_view(o@[j].1),
                decreases o.len() - i,
            {
                proof {
                    assert(decreases_to!(*v => *o));
                    assert(decreases_to!(*o => o@[i as int]));
                    assert(decreases_to!(o@[i as int] => o@[i as int].1));
                }
                let entry = &o[i];
                let key = entry.0.clone();
                let val = json_clone(&entry.1);
                out.push((key, val));
                i = i + 1;
            }
            proof {
                lemma_obj_view(o@);
                lemma_obj_view(out@);
                assert(obj_view(out@) =~= obj_view(o@));
            }
            JsonValue::Obj(out)
        },
    }
}

/// A deep copy of an object body, equal to the original in the model.
pub fn obj_clone(o: &JsonObject) -> (r: JsonObject)
    ensures
        obj_view(r@) == obj_view(o@),
{
    let c = json_clone(&JsonValue::Obj(clone_entries(o)));
    match c {
        JsonValue::Obj(out) => out,
        _ => Vec::new(),
    }
}

#[verifier::loop_isolation(false)]
fn clone_entries(o: &JsonObject) -> (r: JsonObject)
    ensures
        obj_view(r@) == obj_view(o@),
{
    let mut out: Vec<(String, JsonValue)> = Vec::new();
    let mut i: usize = 0;
    while i < o.len()
        invariant
            i <= o.len(),
            out@.len() == i,
            forall|j: int|
                0 <= j < i ==> (#[trigger] out@[j]).0@ == o@[j].0@ && json_view(out@[j].1)
                    == json_view(o@[j].1),
        decreases o.len() - i,
    {
        let entry = &o[i];
        let key = entry.0.clone();
        let val = json_clone(&entry.1);
        out.push((key, val));
        i = i + 1;
    }
    proof {
        lemma_obj_view(o@);
        lemma_obj_view(out@);
        assert(obj_view(out@) =~= obj_view(o@));
    }
    out
}

/// The index of the first entry under key `k`, if any.
#[verifier::loop_isolation(false)]
pub fn obj_find(o: &JsonObject, k: &str) -> (r: Option<usize>)
    ensures
        match r {
            Some(i) => i < o@.len() && o@[i as int].0@ == k@ && (forall|j: int|
                0 <= j < i ==> (#[trigger] o@[j]).0@ != k@),
            None => forall|j: int| 0 <= j < o@.len() ==> (#[trigger] o@[j]).0@ != k@,
        },
{
    let mut i: usize = 0;
    while i < o.len()
        invariant
            i <= o.len(),
            forall|j: int| 0 <= j < i ==> (#[trigger] o@[j]).0@ != k@,
        decreases o.len() - i,
    {
        if str_eq(o[i].0.as_str(), k) {
            return Some(i);
        }
        i = i + 1;
    }
    None
}

/// The object body with every entry under key `k` removed, order kept.
#[verifier::loop_isolation(false)]
pub fn obj_without(o: &JsonObject, k: &str) -> (r: JsonObject)
    ensures
        obj_view(r@) == obj_remove(obj_view(o@), k@),
{
    let mut out: Vec<(String, JsonValue)> = Vec::new();
    let mut i: usize = 0;
    proof {
        lemma_obj_view(o@);
        assert(obj_view(o@).subrange(0, 0) =~= Seq::<(Seq<char>, JsonV)>::empty());
    }
    while i < o.len()
        invariant
            i <= o.len(),
            obj_view(o@).len() == o@.len(),
            forall|j: int|
                0 <= j < o@.len() ==> obj_view(o@)[j] == ((#[trigger] o@[j]).0@, json_view(
                    o@[j].1,
                )),
            obj_view(out@) == obj_remove(obj_view(o@).subrange(0, i as int), k@),
        decreases o.len() - i,
    {
        let ghost prefix = obj_view(o@).subrange(0, i as int);
        let ghost next = obj_view(o@).subrange(0, i as int + 1);
        proof {
            assert(next =~= prefix.push(obj_view(o@)[i as int]));
            lemma_obj_remove_push(prefix, k@, obj_view(o@)[i as int]);
        }
        if !str_eq(o[i].0.as_str(), k) {
            let entry = &o[i];
            let key = entry.0.clone();
            let val = json_clone(&entry.1);
            proof {
                lemma_obj_view_push(out@, (key, val));
            }
            out.push((key, val));
        }
        i = i + 1;
    }
    proof {
        assert(obj_view(o@).subrange(0, o@.len() as int) =~= obj_view(o@));
    }
    out
}

} // verus!
