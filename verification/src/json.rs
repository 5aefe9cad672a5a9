//! The JSON value model: an executable tree type `JsonValue`, its
//! mathematical view `Json`, the null-presence filter, and
//! association-list operations over object entries.

use vstd::prelude::*;

verus! {

broadcast use vstd::seq::axiom_seq_index_decreases, vstd::seq::axiom_seq_subrange_decreases, vstd::std_specs::vec::axiom_vec_index_decreases, vstd::std_specs::vec::axiom_vec_decreases_to_view;

/// The mathematical shape of a JSON value. Object entries keep their
/// document order; numbers carry their decimal text.
pub enum Json {
    Null,
    Bool(bool),
    Num(Seq<char>),
    Str(Seq<char>),
    Arr(Seq<Json>),
    Obj(Seq<(Seq<char>, Json)>),
}

/// An executable JSON tree. `Num` holds the number's decimal text, so the
/// tree carries no floating point.
#[derive(Debug, PartialEq, Eq)]
pub enum JsonValue {
    Null,
    Bool(bool),
    Num(String),
    Str(String),
    Arr(Vec<JsonValue>),
    Obj(Vec<(String, JsonValue)>),
}

pub open spec fn jview(v: JsonValue) -> Json
    decreases v, 1int,
{
    match v {
        JsonValue::Null => Json::Null,
        JsonValue::Bool(b) => Json::Bool(b),
        JsonValue::Num(t) => Json::Num(t@),
        JsonValue::Str(s) => Json::Str(s@),
        JsonValue::Arr(a) => Json::Arr(elems_view(a@)),
        JsonValue::Obj(o) => Json::Obj(entries_view(o@)),
    }
}

/// The views of a sequence of array elements.
pub open spec fn elems_view(s: Seq<JsonValue>) -> Seq<Json>
    decreases s, 0int,
{
    if s.len() == 0 {
        Seq::empty()
    } else {
        elems_view(s.drop_last()).push(jview(s.last()))
    }
}

/// The views of a sequence of object entries.
pub open spec fn entries_view(s: Seq<(String, JsonValue)>) -> Seq<(Seq<char>, Json)>
    decreases s, 0int,
{
    if s.len() == 0 {
        Seq::empty()
    } else {
        entries_view(s.drop_last()).push((s.last().0@, jview(s.last().1)))
    }
}

impl View for JsonValue {
    type V = Json;

    open spec fn view(&self) -> Json {
        jview(*self)
    }
}

pub proof fn elems_view_index(s: Seq<JsonValue>)
    ensures
        elems_view(s).len() == s.len(),
        forall|i: int| 0 <= i < s.len() ==> #[trigger] elems_view(s)[i] == jview(s[i]),
    decreases s.len(),
{
    if s.len() > 0 {
        elems_view_index(s.drop_last());
    }
}

pub proof fn entries_view_index(s: Seq<(String, JsonValue)>)
    ensures
        entries_view(s).len() == s.len(),
        forall|i: int|
            0 <= i < s.len() ==> #[trigger] entries_view(s)[i] == (s[i].0@, jview(s[i].1)),
    decreases s.len(),
{
    if s.len() > 0 {
        entries_view_index(s.drop_last());
    }
}

pub proof fn entries_view_push(s: Seq<(String, JsonValue)>, p: (String, JsonValue))
    ensures
        entries_view(s.push(p)) == entries_view(s).push((p.0@, jview(p.1))),
{
    assert(s.push(p).drop_last() =~= s);
}

pub proof fn elems_view_push(s: Seq<JsonValue>, v: JsonValue)
    ensures
        elems_view(s.push(v)) == elems_view(s).push(jview(v)),
{
    assert(s.push(v).drop_last() =~= s);
}

impl JsonValue {
    /// A structurally equal copy of the tree.
    pub fn duplicate(&self) -> (r: JsonValue)
        ensures
            r@ == self@,
        decreases *self,
    {
        match self {
            JsonValue::Null => JsonValue::Null,
            JsonValue::Bool(b) => JsonValue::Bool(*b),
            JsonValue::Num(t) => JsonValue::Num(t.clone()),
            JsonValue::Str(s) => JsonValue::Str(s.clone()),
            JsonValue::Arr(a) => {
                let mut out: Vec<JsonValue> = Vec::new();
                let mut i: usize = 0;
                #[verifier::loop_isolation(false)]
                while i < a.len()
                    invariant
                        i <= a@.len(),
                        out@.len() == i,
                        forall|j: int| 0 <= j < i ==> jview(#[trigger] out@[j]) == jview(a@[j]),
                    decreases a@.len() - i,
                {
                    out.push(a[i].duplicate());
                    i = i + 1;
                }
                proof {
                    elems_view_index(out@);
                    elems_view_index(a@);
                    assert(elems_view(out@) =~= elems_view(a@));
                }
                JsonValue::Arr(out)
            },
            JsonValue::Obj(o) => {
                let mut out: Vec<(String, JsonValue)> = Vec::new();
                let mut i: usize = 0;
                #[verifier::loop_isolation(false)]
                while i < o.len()
                    invariant
                        i <= o@.len(),
                        out@.len() == i,
                        forall|j: int|
                            0 <= j < i ==> (#[trigger] out@[j]).0@ == o@[j].0@ && jview(out@[j].1)
                                == jview(o@[j].1),
                    decreases o@.len() - i,
                {
                    let pair = &o[i];
                    out.push((pair.0.clone(), pair.1.duplicate()));
                    i = i + 1;
                }
                proof {
                    entries_view_index(out@);
                    entries_view_index(o@);
                    assert(entries_view(out@) =~= entries_view(o@));
                }
                JsonValue::Obj(out)
            },
        }
    }
}

/// Whether every element of `s` is JSON `null`.
pub open spec fn all_null(s: Seq<Json>) -> bool {
    forall|i: int| 0 <= i < s.len() ==> s[i] == Json::Null
}

/// The null-presence rule: whether a JSON value counts as present, or is
/// treated as semantically absent. Absent are `null`, the empty array,
/// `[null]`, and `[null, a]` where `a` is an array of only nulls
/// (the empty array included).
pub open spec fn present(j: Json) -> bool {
    match j {
        Json::Null => false,
        Json::Arr(a) => !(a.len() == 0 || (a.len() == 1 && a[0] == Json::Null) || (a.len() == 2
            && a[0] == Json::Null && (a[1] matches Json::Arr(inner) && all_null(inner)))),
        _ => true,
    }
}

/// Decides the null-presence rule for one value.
pub fn handle_nulls(v: &JsonValue) -> (r: bool)
    ensures
        r == present(v@),
{
    match v {
        JsonValue::Null => false,
        JsonValue::Arr(a) => {
            proof {
                elems_view_index(a@);
                assert(v@ == Json::Arr(elems_view(a@)));
                assert(elems_view(a@).len() == a@.len());
            }
            if a.len() == 0 {
                false
            } else if a.len() == 1 && matches!(a[0], JsonValue::Null) {
                proof {
                    assert(elems_view(a@)[0] == Json::Null);
                }
                false
            } else if a.len() == 2 && matches!(a[0], JsonValue::Null) {
                match &a[1] {
                    JsonValue::Arr(inner) => {
                        proof {
                            elems_view_index(inner@);
                        }
                        let mut i: usize = 0;
                        let mut only_null = true;
                        #[verifier::loop_isolation(false)]
                        while i < inner.len()
                            invariant
                                i <= inner@.len(),
                                only_null == (forall|j: int|
                                    0 <= j < i ==> jview(#[trigger] inner@[j]) == Json::Null),
                            decreases inner@.len() - i,
                        {
                            if !matches!(inner[i], JsonValue::Null) {
                                only_null = false;
                            }
                            i = i + 1;
                        }
                        proof {
                            if !only_null {
                                let j = choose|j: int|
                                    0 <= j < inner@.len() && jview(inner@[j]) != Json::Null;
                                assert(elems_view(inner@)[j] != Json::Null);
                                assert(!all_null(elems_view(inner@)));
                            } else {
                                assert forall|j: int|
                                    0 <= j < elems_view(inner@).len() implies #[trigger] elems_view(
                                    inner@,
                                )[j] == Json::Null by {
                                    assert(jview(inner@[j]) == Json::Null);
                                }
                            }
                        }
                        !only_null
                    },
                    _ => true,
                }
            } else {
                true
            }
        },
        _ => true,
    }
}

/// Keeps, in order, the entries whose values are present.
pub open spec fn filter_present(s: Seq<(Seq<char>, Json)>) -> Seq<(Seq<char>, Json)>
    decreases s.len(),
{
    if s.len() == 0 {
        s
    } else {
        let r = filter_present(s.drop_last());
        if present(s.last().1) {
            r.push(s.last())
        } else {
            r
        }
    }
}

/// Removes the semantically absent entries of one object level.
pub fn filter_object(src: &Vec<(String, JsonValue)>) -> (out: Vec<(String, JsonValue)>)
    ensures
        entries_view(out@) == filter_present(entries_view(src@)),
{
    let mut out: Vec<(String, JsonValue)> = Vec::new();
    let mut i: usize = 0;
    proof {
        entries_view_index(src@);
    }
    #[verifier::loop_isolation(false)]
    while i < src.len()
        invariant
            i <= src@.len(),
            entries_view(out@) == filter_present(entries_view(src@).take(i as int)),
        decreases src@.len() - i,
    {
        let ghost pre = entries_view(out@);
        let ghost sv = entries_view(src@);
        if handle_nulls(&src[i].1) {
            let key = src[i].0.clone();
            let val = src[i].1.duplicate();
            proof {
                entries_view_push(out@, (key, val));
            }
            out.push((key, val));
            proof {
                assert(entries_view(out@) =~= pre.push(sv[i as int]));
            }
        }
        proof {
            assert(sv.take(i + 1).drop_last() =~= sv.take(i as int));
            assert(sv.take(i + 1).last() == sv[i as int]);
        }
        i = i + 1;
    }
    proof {
        assert(entries_view(src@).take(src@.len() as int) =~= entries_view(src@));
    }
    out
}

/// A string character as it appears inside a rendered JSON string:
/// quotes and backslashes carry a backslash escape.
pub open spec fn escape_frag(c: char) -> Seq<char> {
    if c == '"' {
        seq!['\\', '"']
    } else if c == '\\' {
        seq!['\\', '\\']
    } else {
        seq![c]
    }
}

pub open spec fn escape_str(s: Seq<char>) -> Seq<char>
    decreases s.len(),
{
    if s.len() == 0 {
        Seq::empty()
    } else {
        escape_str(s.drop_last()) + escape_frag(s.last())
    }
}

/// The flat text of a JSON value: strings are quoted and escaped, arrays
/// and objects render with brackets, braces, commas and colons, and no
/// added whitespace.
pub open spec fn render(j: Json) -> Seq<char>
    decreases j, 1int,
{
    match j {
        Json::Null => "null"@,
        Json::Bool(b) => if b {
            "true"@
        } else {
            "false"@
        },
        Json::Num(t) => t,
        Json::Str(s) => seq!['"'] + escape_str(s) + seq!['"'],
        Json::Arr(a) => seq!['['] + render_elems(a) + seq![']'],
        Json::Obj(o) => seq!['{'] + render_entries(o) + seq!['}'],
    }
}

pub open spec fn render_elems(a: Seq<Json>) -> Seq<char>
    decreases a, 0int,
{
    if a.len() == 0 {
        Seq::empty()
    } else if a.len() == 1 {
        render(a.last())
    } else {
        render_elems(a.drop_last()) + seq![','] + render(a.last())
    }
}

pub open spec fn render_one_entry(e: (Seq<char>, Json)) -> Seq<char>
    decreases e, 0int,
{
    seq!['"'] + escape_str(e.0) + seq!['"', ':'] + render(e.1)
}

pub open spec fn render_entries(o: Seq<(Seq<char>, Json)>) -> Seq<char>
    decreases o, 0int,
{
    if o.len() == 0 {
        Seq::empty()
    } else if o.len() == 1 {
        render_one_entry(o.last())
    } else {
        render_entries(o.drop_last()) + seq![','] + render_one_entry(o.last())
    }
}

/// The textual form a value takes inside the flat record: the bare
/// characters of a string, the text of any other scalar, and the full
/// JSON rendering of an array or object.
pub open spec fn stringify(j: Json) -> Seq<char> {
    match j {
        Json::Str(s) => s,
        _ => render(j),
    }
}

/// Appends the escaped form of `s` to `out`.
fn escape_into(s: &[char], out: &mut Vec<char>)
    ensures
        final(out)@ == old(out)@ + escape_str(s@),
{
    let mut i: usize = 0;
    #[verifier::loop_isolation(false)]
    while i < s.len()
        invariant
            i <= s@.len(),
            out@ == old(out)@ + escape_str(s@.take(i as int)),
        decreases s@.len() - i,
    {
        let c = s[i];
        if c == '"' {
            out.push('\\');
            out.push('"');
        } else if c == '\\' {
            out.push('\\');
            out.push('\\');
        } else {
            out.push(c);
        }
        proof {
            assert(s@.take(i + 1).drop_last() =~= s@.take(i as int));
            assert(s@.take(i + 1).last() == s@[i as int]);
            assert(out@ =~= old(out)@ + escape_str(s@.take(i + 1)));
        }
        i = i + 1;
    }
    proof {
        assert(s@.take(s@.len() as int) =~= s@);
    }
}

/// Appends the characters of a string slice to `out`.
fn lit_into(s: &str, out: &mut Vec<char>)
    ensures
        final(out)@ == old(out)@ + s@,
{
    let mut cs = crate::chars::str_to_chars(s);
    out.append(&mut cs);
}

/// Appends `render(v@)` to `out`.
#[verifier::rlimit(30)]
pub fn render_into(v: &JsonValue, out: &mut Vec<char>)
    ensures
        final(out)@ == old(out)@ + render(v@),
    decreases *v,
{
    match v {
        JsonValue::Null => lit_into("null", out),
        JsonValue::Bool(b) => {
            if *b {
                lit_into("true", out)
            } else {
                lit_into("false", out)
            }
        },
        JsonValue::Num(t) => lit_into(t.as_str(), out),
        JsonValue::Str(s) => {
            out.push('"');
            let cs = crate::chars::str_to_chars(s.as_str());
            escape_into(cs.as_slice(), out);
            out.push('"');
            proof {
                assert(out@ =~= old(out)@ + render(v@));
            }
        },
        JsonValue::Arr(a) => {
            out.push('[');
            let ghost ev = elems_view(a@);
            proof {
                elems_view_index(a@);
            }
            let mut i: usize = 0;
            #[verifier::loop_isolation(false)]
            while i < a.len()
                invariant
                    i <= a@.len(),
                    out@ == old(out)@ + seq!['['] + render_elems(ev.take(i as int)),
                decreases a@.len() - i,
            {
                if i > 0 {
                    out.push(',');
                }
                render_into(&a[i], out);
                proof {
                    assert(ev.take(i + 1).drop_last() =~= ev.take(i as int));
                    assert(ev.take(i + 1).last() == jview(a@[i as int]));
                    assert(out@ =~= old(out)@ + seq!['['] + render_elems(ev.take(i + 1)));
                }
                i = i + 1;
            }
            out.push(']');
            proof {
                assert(ev.take(a@.len() as int) =~= ev);
                assert(out@ =~= old(out)@ + render(v@));
            }
        },
        JsonValue::Obj(o) => {
            out.push('{');
            let ghost ov = entries_view(o@);
            proof {
                entries_view_index(o@);
            }
            let mut i: usize = 0;
            #[verifier::loop_isolation(false)]
            while i < o.len()
                invariant
                    i <= o@.len(),
                    out@ == old(out)@ + seq!['{'] + render_entries(ov.take(i as int)),
                decreases o@.len() - i,
            {
                if i > 0 {
                    out.push(',');
                }
                out.push('"');
                let ks = crate::chars::str_to_chars(o[i].0.as_str());
                escape_into(ks.as_slice(), out);
                out.push('"');
                out.push(':');
                render_into(&o[i].1, out);
                proof {
                    let t1 = ov.take(i + 1);
                    assert(t1.drop_last() =~= ov.take(i as int));
                    assert(t1.last() == (o@[i as int].0@, jview(o@[i as int].1)));
                    assert(render_one_entry(t1.last()) == seq!['"'] + escape_str(o@[i as int].0@)
                        + seq!['"', ':'] + render(jview(o@[i as int].1)));
                    if i == 0 {
                        assert(render_entries(t1) == render_one_entry(t1.last()));
                    } else {
                        assert(render_entries(t1) == render_entries(ov.take(i as int)) + seq![',']
                            + render_one_entry(t1.last()));
                    }
                    assert(out@ =~= old(out)@ + seq!['{'] + render_entries(t1));
                }
                i = i + 1;
            }
            out.push('}');
            proof {
                assert(ov.take(o@.len() as int) =~= ov);
                assert(out@ =~= old(out)@ + render(v@));
            }
        },
    }
}

/// The flat text of a JSON value, as a string.
pub fn render_value(v: &JsonValue) -> (r: String)
    ensures
        r@ == render(v@),
{
    let mut out: Vec<char> = Vec::new();
    render_into(v, &mut out);
    crate::chars::chars_to_string(out.as_slice())
}

/// The textual form a value takes inside the flat record.
pub fn stringify_value(v: &JsonValue) -> (r: String)
    ensures
        r@ == stringify(v@),
{
    match v {
        JsonValue::Str(s) => s.clone(),
        _ => render_value(v),
    }
}

/// The value of the last entry whose key is `k`, if any.
pub open spec fn assoc_get(s: Seq<(Seq<char>, Json)>, k: Seq<char>) -> Option<Json>
    decreases s.len(),
{
    if s.len() == 0 {
        None
    } else if s.last().0 == k {
        Some(s.last().1)
    } else {
        assoc_get(s.drop_last(), k)
    }
}

/// Looks a key up among object entries, the last entry winning.
pub fn entries_get<'a>(s: &'a Vec<(String, JsonValue)>, k: &str) -> (r: Option<&'a JsonValue>)
    ensures
        match r {
            Some(v) => assoc_get(entries_view(s@), k@) == Some(v@),
            None => assoc_get(entries_view(s@), k@) is None,
        },
{
    let mut i: usize = s.len();
    proof {
        entries_view_index(s@);
        assert(entries_view(s@).take(s@.len() as int) =~= entries_view(s@));
    }
    #[verifier::loop_isolation(false)]
    while i > 0
        invariant
            i <= s@.len(),
            assoc_get(entries_view(s@), k@) == assoc_get(entries_view(s@).take(i as int), k@),
        decreases i,
    {
        proof {
            assert(entries_view(s@).take(i as int).drop_last() =~= entries_view(s@).take(i - 1));
            assert(entries_view(s@).take(i as int).last() == entries_view(s@)[i - 1]);
        }
        i = i - 1;
        if crate::chars::str_eq(s[i].0.as_str(), k) {
            return Some(&s[i].1);
        }
    }
    None
}

} // verus!
