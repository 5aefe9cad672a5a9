//! The flattening engine: turns a nested, null-filtered JSON object into
//! a single-level record. Arrays join to semicolon-separated text (with
//! three specially named exceptions), nested objects recurse under an
//! underscore-joined key prefix unless a redirection name preserves their
//! structure, and scalars land under the prefixed key as text.

use vstd::prelude::*;
use crate::json::{Json, JsonValue, entries_view, elems_view, entries_view_index, elems_view_index,
    filter_present, filter_object, stringify, stringify_value, jview};
use crate::decode::{decode_entry, decode_entries_encoded_in_e1};

verus! {

broadcast use vstd::seq::axiom_seq_index_decreases, vstd::seq::axiom_seq_subrange_decreases, vstd::std_specs::vec::axiom_vec_index_decreases, vstd::std_specs::vec::axiom_vec_decreases_to_view;

/// The mapping an association list denotes: a later entry overrides an
/// earlier one with the same key.
pub open spec fn assoc_map(s: Seq<(Seq<char>, Json)>) -> Map<Seq<char>, Json>
    decreases s.len(),
{
    if s.len() == 0 {
        Map::empty()
    } else {
        assoc_map(s.drop_last()).insert(s.last().0, s.last().1)
    }
}

/// Entries with key `k` removed.
pub open spec fn obj_remove(s: Seq<(Seq<char>, Json)>, k: Seq<char>) -> Seq<(Seq<char>, Json)>
    decreases s.len(),
{
    if s.len() == 0 {
        s
    } else {
        let r = obj_remove(s.drop_last(), k);
        if s.last().0 == k {
            r
        } else {
            r.push(s.last())
        }
    }
}

/// Inserting into an association list: any entry under the same key
/// goes away and the new entry stands at the end.
pub open spec fn obj_insert(s: Seq<(Seq<char>, Json)>, k: Seq<char>, v: Json) -> Seq<
    (Seq<char>, Json),
> {
    obj_remove(s, k).push((k, v))
}

/// Whether some entry carries key `x`.
pub open spec fn has_key(s: Seq<(Seq<char>, Json)>, x: Seq<char>) -> bool {
    exists|i: int| 0 <= i < s.len() && (#[trigger] s[i]).0 == x
}

/// Whether no two entries share a key.
pub open spec fn unique_keys(s: Seq<(Seq<char>, Json)>) -> bool {
    forall|i: int, j: int|
        0 <= i < j < s.len() ==> (#[trigger] s[i]).0 != (#[trigger] s[j]).0
}

pub proof fn obj_remove_props(s: Seq<(Seq<char>, Json)>, k: Seq<char>)
    ensures
        forall|i: int| 0 <= i < obj_remove(s, k).len() ==> (#[trigger] obj_remove(s, k)[i]).0 != k,
        forall|x: Seq<char>| #[trigger] has_key(obj_remove(s, k), x) ==> has_key(s, x),
        unique_keys(s) ==> unique_keys(obj_remove(s, k)),
    decreases s.len(),
{
    if s.len() > 0 {
        obj_remove_props(s.drop_last(), k);
        let r = obj_remove(s.drop_last(), k);
        assert forall|x: Seq<char>| #[trigger] has_key(r, x) implies has_key(s, x) by {
            let i = choose|i: int| 0 <= i < r.len() && r[i].0 == x;
            let j = choose|j: int| 0 <= j < s.drop_last().len() && s.drop_last()[j].0 == x;
            assert(s[j].0 == x);
        }
        if s.last().0 != k {
            let out = r.push(s.last());
            assert forall|x: Seq<char>| #[trigger] has_key(out, x) implies has_key(s, x) by {
                let i = choose|i: int| 0 <= i < out.len() && out[i].0 == x;
                if i < r.len() {
                    assert(has_key(r, x));
                } else {
                    assert(s[s.len() - 1].0 == x);
                }
            }
            if unique_keys(s) {
                assert forall|j: int| 0 <= j < s.drop_last().len() implies (
                #[trigger] s.drop_last()[j]).0 != s.last().0 by {
                    assert(s[j].0 == s.drop_last()[j].0);
                }
                assert forall|i: int, j: int| 0 <= i < j < out.len() implies (
                #[trigger] out[i]).0 != (#[trigger] out[j]).0 by {
                    if j < r.len() {
                        assert(unique_keys(r));
                    } else {
                        if out[i].0 == out[j].0 {
                            assert(has_key(r, s.last().0));
                            let j0 = choose|j0: int|
                                0 <= j0 < s.drop_last().len() && s.drop_last()[j0].0 == s.last().0;
                            assert(false);
                        }
                    }
                }
            }
        }
    }
}

/// Law: an insertion leaves the keys of an association list unique; the
/// replaced key goes away before the new entry lands at the end.
pub proof fn lemma_obj_insert_unique(s: Seq<(Seq<char>, Json)>, k: Seq<char>, v: Json)
    requires
        unique_keys(s),
    ensures
        unique_keys(obj_insert(s, k, v)),
{
    obj_remove_props(s, k);
    let r = obj_remove(s, k);
    let out = r.push((k, v));
    assert forall|i: int, j: int| 0 <= i < j < out.len() implies (#[trigger] out[i]).0 != (
    #[trigger] out[j]).0 by {
        if j < r.len() {
        } else {
            assert(out[j].0 == k);
            assert(r[i].0 != k);
        }
    }
}

pub proof fn assoc_map_remove(s: Seq<(Seq<char>, Json)>, k: Seq<char>)
    ensures
        assoc_map(obj_remove(s, k)) == assoc_map(s).remove(k),
    decreases s.len(),
{
    if s.len() == 0 {
        assert(assoc_map(obj_remove(s, k)) =~= assoc_map(s).remove(k));
    } else {
        assoc_map_remove(s.drop_last(), k);
        assert(obj_remove(s, k).push(s.last()).drop_last() =~= obj_remove(s, k));
        if s.last().0 == k {
            assert(assoc_map(obj_remove(s, k)) =~= assoc_map(s).remove(k));
        } else {
            assert(obj_remove(s.drop_last(), k).push(s.last()).drop_last() =~= obj_remove(
                s.drop_last(),
                k,
            ));
            assert(assoc_map(obj_remove(s, k)) =~= assoc_map(s).remove(k));
        }
    }
}

pub proof fn assoc_map_insert(s: Seq<(Seq<char>, Json)>, k: Seq<char>, v: Json)
    ensures
        assoc_map(obj_insert(s, k, v)) == assoc_map(s).insert(k, v),
{
    assoc_map_remove(s, k);
    assert(obj_insert(s, k, v).drop_last() =~= obj_remove(s, k));
    assert(assoc_map(obj_insert(s, k, v)) =~= assoc_map(s).insert(k, v));
}

/// Removes every entry under key `k` and appends `(k, v)`.
pub fn entries_insert(acc: &mut Vec<(String, JsonValue)>, k: String, v: JsonValue)
    ensures
        entries_view(final(acc)@) == obj_insert(entries_view(old(acc)@), k@, v@),
{
    let mut out: Vec<(String, JsonValue)> = Vec::new();
    let mut i: usize = 0;
    proof {
        entries_view_index(acc@);
    }
    #[verifier::loop_isolation(false)]
    while i < acc.len()
        invariant
            i <= acc@.len(),
            entries_view(out@) == obj_remove(entries_view(acc@).take(i as int), k@),
        decreases acc@.len() - i,
    {
        let ghost pre = entries_view(out@);
        let ghost sv = entries_view(acc@);
        if !crate::chars::str_eq(acc[i].0.as_str(), k.as_str()) {
            let key = acc[i].0.clone();
            let val = acc[i].1.duplicate();
            proof {
                crate::json::entries_view_push(out@, (key, val));
            }
            out.push((key, val));
            proof {
                assert(entries_view(out@) =~= pre.push(sv[i as int]));
            }
        }
        proof {
            assert(sv.take(i + 1).drop_last() =~= sv.take(i as int));
            assert(sv.take(i + 1).last() == sv[i as int]);
        }
        i = i + 1;
    }
    proof {
        assert(entries_view(acc@).take(acc@.len() as int) =~= entries_view(acc@));
        crate::json::entries_view_push(out@, (k, v));
    }
    out.push((k, v));
    *acc = out;
}

/// Folds every entry of `entries` into `acc`, in order.
pub open spec fn obj_extend(
    acc: Seq<(Seq<char>, Json)>,
    entries: Seq<(Seq<char>, Json)>,
) -> Seq<(Seq<char>, Json)>
    decreases entries.len(),
{
    if entries.len() == 0 {
        acc
    } else {
        obj_insert(obj_extend(acc, entries.drop_last()), entries.last().0, entries.last().1)
    }
}

/// The custom-fields accumulator: the keys of every object in the list
/// merged (a later object winning a key collision), beside the
/// concatenation of every array in the list.
pub open spec fn custom_acc(list: Seq<Json>) -> (Seq<(Seq<char>, Json)>, Seq<Json>)
    decreases list.len(),
{
    if list.len() == 0 {
        (Seq::empty(), Seq::empty())
    } else {
        let p = custom_acc(list.drop_last());
        match list.last() {
            Json::Obj(e) => (obj_extend(p.0, e), p.1),
            Json::Arr(a) => (p.0, p.1 + a),
            _ => p,
        }
    }
}

/// What the custom-fields array merges to: the accumulated object, with
/// the accumulated list under the key `list` when it is non-empty.
pub open spec fn serialize_custom(list: Seq<Json>) -> Json {
    let p = custom_acc(list);
    if p.1.len() > 0 {
        Json::Obj(obj_insert(p.0, "list"@, Json::Arr(p.1)))
    } else {
        Json::Obj(p.0)
    }
}

/// Merges the elements of a custom-fields array into one object.
pub fn serialize_custom_fields(list: &Vec<JsonValue>) -> (r: JsonValue)
    ensures
        r@ == serialize_custom(elems_view(list@)),
{
    let mut out_map: Vec<(String, JsonValue)> = Vec::new();
    let mut out_list: Vec<JsonValue> = Vec::new();
    let mut i: usize = 0;
    proof {
        elems_view_index(list@);
    }
    #[verifier::loop_isolation(false)]
    while i < list.len()
        invariant
            i <= list@.len(),
            custom_acc(elems_view(list@).take(i as int)) == (
                entries_view(out_map@),
                elems_view(out_list@),
            ),
        decreases list@.len() - i,
    {
        let ghost lv = elems_view(list@);
        let ghost pre_map = entries_view(out_map@);
        let ghost pre_list = elems_view(out_list@);
        match &list[i] {
            JsonValue::Obj(e) => {
                proof {
                    entries_view_index(e@);
                }
                let mut j: usize = 0;
                #[verifier::loop_isolation(false)]
                while j < e.len()
                    invariant
                        j <= e@.len(),
                        entries_view(out_map@) == obj_extend(
                            pre_map,
                            entries_view(e@).take(j as int),
                        ),
                    decreases e@.len() - j,
                {
                    let ghost evj = entries_view(e@);
                    entries_insert(&mut out_map, e[j].0.clone(), e[j].1.duplicate());
                    proof {
                        assert(evj.take(j + 1).drop_last() =~= evj.take(j as int));
                        assert(evj.take(j + 1).last() == evj[j as int]);
                    }
                    j = j + 1;
                }
                proof {
                    assert(entries_view(e@).take(e@.len() as int) =~= entries_view(e@));
                    assert(lv[i as int] == Json::Obj(entries_view(e@)));
                }
            },
            JsonValue::Arr(a) => {
                proof {
                    elems_view_index(a@);
                }
                let mut j: usize = 0;
                #[verifier::loop_isolation(false)]
                while j < a.len()
                    invariant
                        j <= a@.len(),
                        elems_view(out_list@) == pre_list + elems_view(a@).take(j as int),
                    decreases a@.len() - j,
                {
                    let ghost avj = elems_view(a@);
                    let ghost pre_out = elems_view(out_list@);
                    let elem = a[j].duplicate();
                    proof {
                        crate::json::elems_view_push(out_list@, elem);
                    }
                    out_list.push(elem);
                    proof {
                        assert(avj.take(j + 1).drop_last() =~= avj.take(j as int));
                        assert(avj.take(j + 1).last() == avj[j as int]);
                        assert(elems_view(out_list@) =~= pre_list + avj.take(j + 1));
                    }
                    j = j + 1;
                }
                proof {
                    assert(elems_view(a@).take(a@.len() as int) =~= elems_view(a@));
                    assert(lv[i as int] == Json::Arr(elems_view(a@)));
                }
            },
            _ => {},
        }
        proof {
            assert(lv.take(i + 1).drop_last() =~= lv.take(i as int));
            assert(lv.take(i + 1).last() == lv[i as int]);
        }
        i = i + 1;
    }
    proof {
        assert(elems_view(list@).take(list@.len() as int) =~= elems_view(list@));
    }
    if out_list.len() > 0 {
        let key = "list".to_owned();
        let mut merged = out_map;
        entries_insert(&mut merged, key, JsonValue::Arr(out_list));
        JsonValue::Obj(merged)
    } else {
        JsonValue::Obj(out_map)
    }
}

/// The parts joined with `;`.
pub open spec fn join_semi(parts: Seq<Seq<char>>) -> Seq<char>
    decreases parts.len(),
{
    if parts.len() == 0 {
        Seq::empty()
    } else if parts.len() == 1 {
        parts.last()
    } else {
        join_semi(parts.drop_last()) + seq![';'] + parts.last()
    }
}

/// Every array element decoded by the entry decoder.
pub open spec fn decoded_parts(a: Seq<Json>) -> Seq<Seq<char>> {
    Seq::new(a.len(), |i: int| decode_entry(a[i]))
}

/// Every array element as its record text.
pub open spec fn stringified_parts(a: Seq<Json>) -> Seq<Seq<char>> {
    Seq::new(a.len(), |i: int| stringify(a[i]))
}

/// Whether every element of the array is a JSON string.
pub open spec fn all_strings(a: Seq<Json>) -> bool {
    forall|i: int| 0 <= i < a.len() ==> a[i] is Str
}

/// The key prefix a recursion level works under: the joined key name
/// followed by an underscore, or empty at the top.
pub open spec fn spec_prefix(k: Seq<char>) -> Seq<char> {
    if k.len() == 0 {
        k
    } else {
        k + "_"@
    }
}

pub proof fn filter_present_sub(s: Seq<(Seq<char>, Json)>)
    ensures
        filter_present(s).len() <= s.len(),
        forall|i: int|
            0 <= i < filter_present(s).len() ==> exists|j: int|
                0 <= j < s.len() && s[j] == #[trigger] filter_present(s)[i],
        filter_present(s).len() == s.len() ==> filter_present(s) == s,
    decreases s.len(),
{
    if s.len() > 0 {
        filter_present_sub(s.drop_last());
        let f = filter_present(s);
        let fd = filter_present(s.drop_last());
        assert forall|i: int| 0 <= i < f.len() implies exists|j: int|
            0 <= j < s.len() && s[j] == #[trigger] f[i] by {
            if i < fd.len() {
                let j = choose|j: int| 0 <= j < s.drop_last().len() && s.drop_last()[j] == fd[i];
                assert(s[j] == f[i]);
            } else {
                assert(f[i] == s[s.len() - 1]);
            }
        }
        if f.len() == s.len() {
            assert(fd == s.drop_last());
            assert(f =~= s);
        }
    }
}

/// What flattening one filtered object yields, entry after entry; a
/// later entry's keys override an earlier entry's.
pub open spec fn flat_of(prefix: Seq<char>, s: Seq<(Seq<char>, Json)>) -> Map<Seq<char>, Json>
    decreases s, 0int,
{
    if s.len() == 0 {
        Map::empty()
    } else {
        flat_of(prefix, s.drop_last()).union_prefer_right(
            entry_flat(prefix, s.last().0, s.last().1),
        )
    }
}

/// The flat mapping one (key, value) entry contributes.
pub open spec fn entry_flat(prefix: Seq<char>, key: Seq<char>, value: Json) -> Map<Seq<char>, Json>
    decreases value, 1int,
    via entry_flat_dec
{
    match value {
        Json::Arr(list) => {
            if key == "encoded_entries_v1"@ {
                Map::empty().insert("entries"@, Json::Str(join_semi(decoded_parts(list))))
            } else if key == "entries"@ {
                Map::empty().insert("entries"@, Json::Str(join_semi(stringified_parts(list))))
            } else if key == "custom_fields"@ {
                Map::empty().insert("custom_fields"@, serialize_custom(list))
            } else if all_strings(list) {
                Map::empty().insert(key, Json::Str(join_semi(stringified_parts(list))))
            } else {
                Map::empty().insert(key, value)
            }
        },
        Json::Obj(m) => {
            let f = filter_present(m);
            if key == "action_log"@ {
                Map::empty().insert("action_log_data"@, Json::Obj(f))
            } else if key == "details_json"@ {
                Map::empty().insert("details_json"@, Json::Obj(f))
            } else if key == "custom_fields"@ {
                Map::empty().insert("custom_fields"@, Json::Obj(f))
            } else {
                flat_of(prefix + key + "_"@, f)
            }
        },
        _ => Map::empty().insert(prefix + key, Json::Str(stringify(value))),
    }
}

#[via_fn]
proof fn entry_flat_dec(prefix: Seq<char>, key: Seq<char>, value: Json) {
    match value {
        Json::Obj(m) => {
            lemma_filtered_smaller(value, m);
        },
        _ => {},
    }
}

/// Height fact behind the engine's recursion: the filtered entries of a
/// nested object stand below the object itself.
proof fn lemma_filtered_smaller(value: Json, m: Seq<(Seq<char>, Json)>)
    requires
        value == Json::Obj(m),
    ensures
        decreases_to!(value => filter_present(m)),
{
    let f = filter_present(m);
    filter_present_sub(m);
    assert(m == value->Obj_0);
    assert(decreases_to!(value => value->Obj_0));
    if f.len() < m.len() {
        assert forall|i2: int|
            0 <= i2 < f.len() && #[trigger] vstd::pervasive::trigger(f[i2]) implies exists|i1: int|
            0 <= i1 < m.len() && m[i1] == f[i2] by {
            let j = choose|j: int| 0 <= j < m.len() && m[j] == f[i2];
            assert(0 <= j < m.len() && m[j] == f[i2]);
        }
        vstd::seq::axiom_seq_len_decreases(m, f);
        assert(decreases_to!(m => f));
    } else {
        assert(f == m);
    }
}

/// The single-level record the engine produces: a mapping from flat
/// keys to values, a later insertion overriding an earlier one.
pub struct FlatRecord {
    entries: Vec<(String, JsonValue)>,
}

impl View for FlatRecord {
    type V = Map<Seq<char>, Json>;

    closed spec fn view(&self) -> Map<Seq<char>, Json> {
        assoc_map(entries_view(self.entries@))
    }
}

pub proof fn assoc_get_map(s: Seq<(Seq<char>, Json)>, k: Seq<char>)
    ensures
        match crate::json::assoc_get(s, k) {
            Some(v) => assoc_map(s).contains_key(k) && assoc_map(s)[k] == v,
            None => !assoc_map(s).contains_key(k),
        },
    decreases s.len(),
{
    if s.len() > 0 {
        assoc_get_map(s.drop_last(), k);
    }
}

impl FlatRecord {
    /// Well-formedness: no two stored entries share a key.
    pub closed spec fn wf(self) -> bool {
        unique_keys(entries_view(self.entries@))
    }

    /// An empty record.
    pub fn new() -> (r: FlatRecord)
        ensures
            r@ == Map::<Seq<char>, Json>::empty(),
            r.wf(),
    {
        let r = FlatRecord { entries: Vec::new() };
        proof {
            assert(entries_view(r.entries@) =~= Seq::<(Seq<char>, Json)>::empty());
        }
        r
    }

    /// Binds `k` to `v`, overriding any earlier binding.
    pub fn insert(&mut self, k: String, v: JsonValue)
        ensures
            final(self)@ == old(self)@.insert(k@, v@),
            old(self).wf() ==> final(self).wf(),
    {
        proof {
            assoc_map_insert(entries_view(self.entries@), k@, v@);
            if self.wf() {
                lemma_obj_insert_unique(entries_view(self.entries@), k@, v@);
            }
        }
        entries_insert(&mut self.entries, k, v);
    }

    /// The value bound to `k`, if any.
    pub fn get<'a>(&'a self, k: &str) -> (r: Option<&'a JsonValue>)
        ensures
            match r {
                Some(v) => self@.contains_key(k@) && self@[k@] == v@,
                None => !self@.contains_key(k@),
            },
    {
        proof {
            assoc_get_map(entries_view(self.entries@), k@);
        }
        crate::json::entries_get(&self.entries, k)
    }

    /// The record's entries, for a consumer that walks them.
    pub fn items(&self) -> (r: &Vec<(String, JsonValue)>)
        ensures
            assoc_map(entries_view(r@)) == self@,
            self.wf() ==> unique_keys(entries_view(r@)),
    {
        &self.entries
    }

    /// Binds every entry of `other`, in order, overriding earlier keys.
    pub fn extend(&mut self, other: FlatRecord)
        ensures
            final(self)@ == old(self)@.union_prefer_right(other@),
            old(self).wf() ==> final(self).wf(),
    {
        let src = other.entries;
        let mut j: usize = 0;
        proof {
            entries_view_index(src@);
            assert(old(self)@.union_prefer_right(assoc_map(entries_view(src@).take(0)))
                =~= old(self)@);
        }
        #[verifier::loop_isolation(false)]
        while j < src.len()
            invariant
                j <= src@.len(),
                self@ == old(self)@.union_prefer_right(
                    assoc_map(entries_view(src@).take(j as int)),
                ),
                old(self).wf() ==> self.wf(),
            decreases src@.len() - j,
        {
            let ghost sv = entries_view(src@);
            self.insert(src[j].0.clone(), src[j].1.duplicate());
            proof {
                assert(sv.take(j + 1).drop_last() =~= sv.take(j as int));
                assert(sv.take(j + 1).last() == sv[j as int]);
                assert(old(self)@.union_prefer_right(assoc_map(sv.take(j as int))).insert(
                    sv[j as int].0,
                    sv[j as int].1,
                ) =~= old(self)@.union_prefer_right(assoc_map(sv.take(j + 1))));
            }
            j = j + 1;
        }
        proof {
            assert(entries_view(src@).take(src@.len() as int) =~= entries_view(src@));
        }
    }
}

/// Whether every element of the array is a string value.
fn all_elements_strings(list: &Vec<JsonValue>) -> (r: bool)
    ensures
        r == all_strings(elems_view(list@)),
{
    proof {
        elems_view_index(list@);
    }
    let mut i: usize = 0;
    let mut all: bool = true;
    #[verifier::loop_isolation(false)]
    while i < list.len()
        invariant
            i <= list@.len(),
            all == (forall|j: int| 0 <= j < i ==> jview(#[trigger] list@[j]) is Str),
        decreases list@.len() - i,
    {
        if !matches!(list[i], JsonValue::Str(_)) {
            all = false;
        }
        i = i + 1;
    }
    proof {
        if all {
            assert forall|j: int| 0 <= j < elems_view(list@).len() implies #[trigger] elems_view(
                list@,
            )[j] is Str by {
                assert(jview(list@[j]) is Str);
            }
        } else {
            let j = choose|j: int| 0 <= j < list@.len() && !(jview(list@[j]) is Str);
            assert(elems_view(list@)[j] == jview(list@[j]));
            assert(!all_strings(elems_view(list@)));
        }
    }
    all
}

/// Joins the decoded elements of the encoded-entries array with `;`.
fn join_decoded(list: &Vec<JsonValue>) -> (r: String)
    ensures
        r@ == join_semi(decoded_parts(elems_view(list@))),
{
    let ghost parts = decoded_parts(elems_view(list@));
    proof {
        elems_view_index(list@);
    }
    let mut out: Vec<char> = Vec::new();
    let mut i: usize = 0;
    #[verifier::loop_isolation(false)]
    while i < list.len()
        invariant
            i <= list@.len(),
            out@ == join_semi(parts.take(i as int)),
        decreases list@.len() - i,
    {
        if i > 0 {
            out.push(';');
        }
        let piece = decode_entries_encoded_in_e1(&list[i]);
        let mut pc = crate::chars::str_to_chars(piece.as_str());
        out.append(&mut pc);
        proof {
            assert(parts.take(i + 1).drop_last() =~= parts.take(i as int));
            assert(parts.take(i + 1).last() == decode_entry(elems_view(list@)[i as int]));
            assert(out@ =~= join_semi(parts.take(i + 1)));
        }
        i = i + 1;
    }
    proof {
        assert(parts.take(list@.len() as int) =~= parts);
    }
    crate::chars::chars_to_string(out.as_slice())
}

/// Joins the record text of every array element with `;`.
fn join_stringified(list: &Vec<JsonValue>) -> (r: String)
    ensures
        r@ == join_semi(stringified_parts(elems_view(list@))),
{
    let ghost parts = stringified_parts(elems_view(list@));
    proof {
        elems_view_index(list@);
    }
    let mut out: Vec<char> = Vec::new();
    let mut i: usize = 0;
    #[verifier::loop_isolation(false)]
    while i < list.len()
        invariant
            i <= list@.len(),
            out@ == join_semi(parts.take(i as int)),
        decreases list@.len() - i,
    {
        if i > 0 {
            out.push(';');
        }
        let piece = stringify_value(&list[i]);
        let mut pc = crate::chars::str_to_chars(piece.as_str());
        out.append(&mut pc);
        proof {
            assert(parts.take(i + 1).drop_last() =~= parts.take(i as int));
            assert(parts.take(i + 1).last() == stringify(elems_view(list@)[i as int]));
            assert(out@ =~= join_semi(parts.take(i + 1)));
        }
        i = i + 1;
    }
    proof {
        assert(parts.take(list@.len() as int) =~= parts);
    }
    crate::chars::chars_to_string(out.as_slice())
}

/// The characters of `prefix` followed by those of `key`.
fn concat_prefix_key(prefix: &[char], key: &str) -> (r: Vec<char>)
    ensures
        r@ == prefix@ + key@,
{
    let mut out: Vec<char> = Vec::new();
    out.extend_from_slice(prefix);
    let mut kc = crate::chars::str_to_chars(key);
    out.append(&mut kc);
    out
}

/// Flattens one already-filtered object under the given key prefix.
fn flatten_with_prefix(prefix: &[char], log_entry: &Vec<(String, JsonValue)>) -> (out: FlatRecord)
    ensures
        out@ == flat_of(prefix@, entries_view(log_entry@)),
        out.wf(),
    decreases entries_view(log_entry@), 1int,
{
    let mut out = FlatRecord::new();
    let ghost ev = entries_view(log_entry@);
    proof {
        entries_view_index(log_entry@);
    }
    let mut i: usize = 0;
    #[verifier::loop_isolation(false)]
    while i < log_entry.len()
        invariant
            i <= log_entry@.len(),
            out@ == flat_of(prefix@, ev.take(i as int)),
            out.wf(),
        decreases log_entry@.len() - i,
    {
        let key = &log_entry[i].0;
        let ghost contribution = entry_flat(prefix@, ev[i as int].0, ev[i as int].1);
        match &log_entry[i].1 {
            JsonValue::Arr(list) => {
                if crate::chars::str_eq(key.as_str(), "encoded_entries_v1") {
                    let joined = join_decoded(list);
                    out.insert("entries".to_owned(), JsonValue::Str(joined));
                } else if crate::chars::str_eq(key.as_str(), "entries") {
                    let joined = join_stringified(list);
                    out.insert("entries".to_owned(), JsonValue::Str(joined));
                } else if crate::chars::str_eq(key.as_str(), "custom_fields") {
                    let merged = serialize_custom_fields(list);
                    out.insert("custom_fields".to_owned(), merged);
                } else if all_elements_strings(list) {
                    let joined = join_stringified(list);
                    out.insert(key.clone(), JsonValue::Str(joined));
                } else {
                    out.insert(key.clone(), log_entry[i].1.duplicate());
                }
            },
            JsonValue::Obj(m) => {
                let filtered = filter_object(m);
                if crate::chars::str_eq(key.as_str(), "action_log") {
                    out.insert("action_log_data".to_owned(), JsonValue::Obj(filtered));
                } else if crate::chars::str_eq(key.as_str(), "details_json") {
                    out.insert("details_json".to_owned(), JsonValue::Obj(filtered));
                } else if crate::chars::str_eq(key.as_str(), "custom_fields") {
                    out.insert("custom_fields".to_owned(), JsonValue::Obj(filtered));
                } else {
                    let mut sub_prefix = concat_prefix_key(prefix, key.as_str());
                    sub_prefix.push('_');
                    proof {
                        reveal_strlit("_");
                        assert(sub_prefix@ =~= prefix@ + ev[i as int].0 + "_"@);
                        assert(decreases_to!(ev => ev[i as int]));
                        assert(decreases_to!(ev[i as int] => ev[i as int].1));
                        lemma_filtered_smaller(ev[i as int].1, entries_view(m@));
                    }
                    let sub = flatten_with_prefix(sub_prefix.as_slice(), &filtered);
                    out.extend(sub);
                }
            },
            _ => {
                let flat_key = concat_prefix_key(prefix, key.as_str());
                let text = stringify_value(&log_entry[i].1);
                out.insert(
                    crate::chars::chars_to_string(flat_key.as_slice()),
                    JsonValue::Str(text),
                );
            },
        }
        proof {
            assert(ev.take(i + 1).drop_last() =~= ev.take(i as int));
            assert(ev.take(i + 1).last() == ev[i as int]);
            assert(out@ =~= flat_of(prefix@, ev.take(i as int)).union_prefer_right(contribution));
        }
        i = i + 1;
    }
    proof {
        assert(ev.take(log_entry@.len() as int) =~= ev);
    }
    out
}

/// Law: flattening an already-flat object — one whose values are all
/// scalars, with no nested object and no array — under the empty prefix
/// keeps every key and binds it to its stringified value.
pub proof fn lemma_flatten_already_flat(s: Seq<(Seq<char>, Json)>)
    requires
        forall|i: int| 0 <= i < s.len() ==> !((#[trigger] s[i].1) is Arr) && !(s[i].1 is Obj),
    ensures
        flat_of(Seq::empty(), s) == assoc_map(
            Seq::new(s.len(), |i: int| (s[i].0, Json::Str(stringify(s[i].1)))),
        ),
    decreases s.len(),
{
    let mapped = Seq::new(s.len(), |i: int| (s[i].0, Json::Str(stringify(s[i].1))));
    if s.len() == 0 {
        assert(flat_of(Seq::empty(), s) =~= assoc_map(mapped));
    } else {
        lemma_flatten_already_flat(s.drop_last());
        let prev = Seq::new(
            s.drop_last().len(),
            |i: int| (s.drop_last()[i].0, Json::Str(stringify(s.drop_last()[i].1))),
        );
        assert(mapped.drop_last() =~= prev);
        assert(Seq::<char>::empty() + s.last().0 =~= s.last().0);
        assert(entry_flat(Seq::empty(), s.last().0, s.last().1) == Map::empty().insert(
            s.last().0,
            Json::Str(stringify(s.last().1)),
        ));
        assert(flat_of(Seq::empty(), s) =~= assoc_map(mapped));
    }
}

/// Flattens one already-filtered object, `key_name` naming the level
/// (empty at the top).
pub fn flatten(key_name: &str, log_entry: &Vec<(String, JsonValue)>) -> (out: FlatRecord)
    ensures
        out@ == flat_of(spec_prefix(key_name@), entries_view(log_entry@)),
        out.wf(),
{
    let mut prefix = crate::chars::str_to_chars(key_name);
    if prefix.len() > 0 {
        prefix.push('_');
        proof {
            reveal_strlit("_");
            assert(prefix@ =~= spec_prefix(key_name@));
        }
    }
    flatten_with_prefix(prefix.as_slice(), log_entry)
}

} // verus!
