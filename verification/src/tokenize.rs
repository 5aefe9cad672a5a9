//! The geo/request tokenizer: splits a raw line on tabs, trims each
//! field, derives the EU flag from the presence of a digit, and pulls
//! the postal code out of its quoted wrapper.

use vstd::prelude::*;

verus! {

/// ASCII whitespace, as trimming understands it.
pub open spec fn is_space(c: char) -> bool {
    c == ' ' || c == '\t' || c == '\n' || c == '\r' || c == '\u{c}'
}

/// The field with surrounding whitespace removed.
pub open spec fn trim_spec(s: Seq<char>) -> Seq<char>
    decreases s.len(),
{
    if s.len() == 0 {
        s
    } else if is_space(s.first()) {
        trim_spec(s.drop_first())
    } else if is_space(s.last()) {
        trim_spec(s.drop_last())
    } else {
        s
    }
}

/// Splitting on tabs, with `cur` the part of the current field already
/// consumed.
pub open spec fn split_acc(s: Seq<char>, cur: Seq<char>) -> Seq<Seq<char>>
    decreases s.len(),
{
    if s.len() == 0 {
        seq![cur]
    } else if s.first() == '\t' {
        seq![cur] + split_acc(s.drop_first(), Seq::empty())
    } else {
        split_acc(s.drop_first(), cur.push(s.first()))
    }
}

/// The tab-separated fields of a line. A line without a tab is one
/// field; n tabs give n + 1 fields.
pub open spec fn split_tabs(s: Seq<char>) -> Seq<Seq<char>> {
    split_acc(s, Seq::empty())
}

/// The tab-separated fields of a line, each trimmed.
pub open spec fn trimmed_fields(s: Seq<char>) -> Seq<Seq<char>> {
    Seq::new(split_tabs(s).len(), |i: int| trim_spec(split_tabs(s)[i]))
}

fn is_space_exec(c: char) -> (r: bool)
    ensures
        r == is_space(c),
{
    c == ' ' || c == '\t' || c == '\n' || c == '\r' || c == '\u{c}'
}

/// Removes surrounding whitespace from a field.
pub fn trim_chars(s: &[char]) -> (r: Vec<char>)
    ensures
        r@ == trim_spec(s@),
{
    proof {
        vstd::slice::axiom_spec_len(s);
        assert(s@.skip(0) =~= s@);
    }
    let mut a: usize = 0;
    #[verifier::loop_isolation(false)]
    while a < s.len() && is_space_exec(s[a])
        invariant
            a <= s@.len(),
            trim_spec(s@) == trim_spec(s@.skip(a as int)),
        decreases s@.len() - a,
    {
        proof {
            assert(s@.skip(a as int).first() == s@[a as int]);
            assert(s@.skip(a as int).drop_first() =~= s@.skip(a + 1));
        }
        a = a + 1;
    }
    let mut b: usize = s.len();
    #[verifier::loop_isolation(false)]
    while b > a && is_space_exec(s[b - 1])
        invariant
            a <= b <= s@.len(),
            trim_spec(s@) == trim_spec(s@.subrange(a as int, b as int)),
        decreases b,
    {
        proof {
            let sub = s@.subrange(a as int, b as int);
            assert(sub.last() == s@[b - 1]);
            if a < s@.len() {
                assert(sub.first() == s@[a as int]);
            }
            assert(sub.drop_last() =~= s@.subrange(a as int, b - 1));
        }
        b = b - 1;
    }
    let mut out: Vec<char> = Vec::new();
    let mut k: usize = a;
    #[verifier::loop_isolation(false)]
    while k < b
        invariant
            a <= k <= b,
            out@ =~= s@.subrange(a as int, k as int),
        decreases b - k,
    {
        out.push(s[k]);
        proof {
            assert(out@ =~= s@.subrange(a as int, k + 1));
        }
        k = k + 1;
    }
    proof {
        let sub = s@.subrange(a as int, b as int);
        if a < b {
            assert(sub.first() == s@[a as int]);
            assert(sub.last() == s@[b - 1]);
            assert(!is_space(sub.first()) && !is_space(sub.last()));
        }
        assert(trim_spec(sub) == sub);
    }
    out
}

/// Splits a line on tabs, trimming each field.
pub fn split_and_trim(s: &[char]) -> (r: Vec<String>)
    ensures
        r@.len() == trimmed_fields(s@).len(),
        forall|i: int| 0 <= i < r@.len() ==> (#[trigger] r@[i])@ == trimmed_fields(s@)[i],
{
    proof {
        vstd::slice::axiom_spec_len(s);
    }
    let mut raw: Vec<Vec<char>> = Vec::new();
    let mut cur: Vec<char> = Vec::new();
    let mut pos: usize = 0;
    proof {
        assert(s@.skip(0) =~= s@);
    }
    #[verifier::loop_isolation(false)]
    while pos < s.len()
        invariant
            pos <= s@.len(),
            split_tabs(s@) == Seq::new(raw@.len(), |i: int| raw@[i]@) + split_acc(
                s@.skip(pos as int),
                cur@,
            ),
        decreases s@.len() - pos,
    {
        let ghost rest = s@.skip(pos as int);
        proof {
            assert(rest.first() == s@[pos as int]);
            assert(rest.drop_first() =~= s@.skip(pos + 1));
        }
        let c = s[pos];
        if c == '\t' {
            raw.push(cur);
            cur = Vec::new();
            proof {
                assert(Seq::new(raw@.len(), |i: int| raw@[i]@) =~= Seq::new(
                    raw@.drop_last().len(),
                    |i: int| raw@.drop_last()[i]@,
                ).push(raw@.last()@));
                assert(split_tabs(s@) =~= Seq::new(raw@.len(), |i: int| raw@[i]@) + split_acc(
                    s@.skip(pos + 1),
                    cur@,
                ));
            }
        } else {
            proof {
                assert(split_acc(rest, cur@) == split_acc(s@.skip(pos + 1), cur@.push(c)));
            }
            cur.push(c);
        }
        pos = pos + 1;
    }
    proof {
        assert(s@.skip(s@.len() as int) =~= Seq::<char>::empty());
        assert(split_acc(Seq::<char>::empty(), cur@) =~= seq![cur@]);
    }
    raw.push(cur);
    proof {
        assert(Seq::new(raw@.len(), |i: int| raw@[i]@) =~= Seq::new(
            raw@.drop_last().len(),
            |i: int| raw@.drop_last()[i]@,
        ).push(raw@.last()@));
        assert(split_tabs(s@) =~= Seq::new(raw@.len(), |i: int| raw@[i]@));
    }
    let mut out: Vec<String> = Vec::new();
    let mut i: usize = 0;
    #[verifier::loop_isolation(false)]
    while i < raw.len()
        invariant
            i <= raw@.len(),
            out@.len() == i,
            forall|j: int| 0 <= j < i ==> (#[trigger] out@[j])@ == trim_spec(raw@[j]@),
        decreases raw@.len() - i,
    {
        let t = trim_chars(raw[i].as_slice());
        out.push(crate::chars::chars_to_string(t.as_slice()));
        i = i + 1;
    }
    out
}

/// Whether the field holds any ASCII digit: the tolerant reading of the
/// EU indicator.
pub open spec fn has_digit(s: Seq<char>) -> bool {
    exists|i: int| 0 <= i < s.len() && '0' <= #[trigger] s[i] <= '9'
}

fn has_digit_exec(s: &str) -> (r: bool)
    ensures
        r == has_digit(s@),
{
    let cs = crate::chars::str_to_chars(s);
    let mut i: usize = 0;
    #[verifier::loop_isolation(false)]
    while i < cs.len()
        invariant
            i <= cs@.len(),
            forall|j: int| 0 <= j < i ==> !('0' <= #[trigger] cs@[j] <= '9'),
        decreases cs@.len() - i,
    {
        let c = cs[i];
        if '0' <= c && c <= '9' {
            return true;
        }
        i = i + 1;
    }
    false
}

/// The position of the first `c` in `s`, or a negative result when
/// there is none.
pub open spec fn first_char(s: Seq<char>, c: char) -> int
    decreases s.len(),
{
    if s.len() == 0 {
        -1
    } else if s.first() == c {
        0
    } else {
        let r = first_char(s.drop_first(), c);
        if r < 0 {
            -1
        } else {
            1 + r
        }
    }
}

pub proof fn first_char_bounds(s: Seq<char>, c: char)
    ensures
        first_char(s, c) < 0 ==> forall|j: int| 0 <= j < s.len() ==> s[j] != c,
        first_char(s, c) >= 0 ==> 0 <= first_char(s, c) < s.len() && s[first_char(s, c)] == c
            && forall|j: int| 0 <= j < first_char(s, c) ==> s[j] != c,
    decreases s.len(),
{
    if s.len() > 0 {
        first_char_bounds(s.drop_first(), c);
        if s.first() != c {
            if first_char(s, c) < 0 {
                assert forall|j: int| 0 <= j < s.len() implies s[j] != c by {
                    if j > 0 {
                        assert(s.drop_first()[j - 1] == s[j]);
                        assert(s.drop_first()[j - 1] != c);
                    }
                }
            } else {
                let f = first_char(s, c);
                assert(s.drop_first()[f - 1] == s[f]);
                assert forall|j: int| 0 <= j < f implies s[j] != c by {
                    if j > 0 {
                        assert(s.drop_first()[j - 1] == s[j]);
                        assert(s.drop_first()[j - 1] != c);
                    }
                }
            }
        }
    }
}

/// The first quote-delimited substring, its quotes stripped: the
/// characters between the first `"` and the next `"` after it.
pub open spec fn postal_spec(s: Seq<char>) -> Option<Seq<char>> {
    let i = first_char(s, '"');
    if i < 0 {
        None
    } else {
        let j = first_char(s.skip(i + 1), '"');
        if j < 0 {
            None
        } else {
            Some(s.subrange(i + 1, i + 1 + j))
        }
    }
}

/// The position of the first `c` at or after `from`.
fn find_from(s: &[char], from: usize, c: char) -> (r: Option<usize>)
    requires
        from <= s@.len(),
    ensures
        match r {
            Some(t) => from <= t < s@.len() && s@[t as int] == c && first_char(
                s@.skip(from as int),
                c,
            ) == t - from,
            None => first_char(s@.skip(from as int), c) < 0,
        },
{
    proof {
        vstd::slice::axiom_spec_len(s);
        first_char_bounds(s@.skip(from as int), c);
    }
    let mut t: usize = from;
    #[verifier::loop_isolation(false)]
    while t < s.len()
        invariant
            from <= t <= s@.len(),
            forall|j: int| from <= j < t ==> s@[j] != c,
        decreases s@.len() - t,
    {
        if s[t] == c {
            proof {
                let fc = first_char(s@.skip(from as int), c);
                assert(s@.skip(from as int)[t - from] == c);
                if fc < 0 {
                    assert(s@.skip(from as int)[t - from] != c);
                }
                if fc < t - from {
                    assert(s@[from + fc] != c);
                    assert(s@.skip(from as int)[fc] == s@[from + fc]);
                }
                if fc > t - from {
                    assert(s@.skip(from as int)[t - from] != c);
                }
            }
            return Some(t);
        }
        t = t + 1;
    }
    proof {
        let fc = first_char(s@.skip(from as int), c);
        if fc >= 0 {
            assert(s@.skip(from as int)[fc] == s@[from + fc]);
        }
    }
    None
}

/// Extracts the postal code from its quote-wrapped field.
#[verifier::rlimit(30)]
pub fn extract_postal(s: &str) -> (r: Option<String>)
    ensures
        match r {
            Some(p) => postal_spec(s@) == Some(p@),
            None => postal_spec(s@) is None,
        },
{
    let cs = crate::chars::str_to_chars(s);
    let first = match find_from(cs.as_slice(), 0, '"') {
        Some(i) => i,
        None => {
            proof {
                assert(cs@.skip(0) =~= cs@);
            }
            return None;
        },
    };
    proof {
        assert(cs@.skip(0) =~= cs@);
    }
    let second = match find_from(cs.as_slice(), first + 1, '"') {
        Some(j) => j,
        None => {
            return None;
        },
    };
    let mut out: Vec<char> = Vec::new();
    let mut k: usize = first + 1;
    #[verifier::loop_isolation(false)]
    while k < second
        invariant
            first + 1 <= k <= second <= cs@.len(),
            out@ =~= cs@.subrange(first + 1, k as int),
        decreases second - k,
    {
        out.push(cs[k]);
        proof {
            assert(out@ =~= cs@.subrange(first + 1, k + 1));
        }
        k = k + 1;
    }
    Some(crate::chars::chars_to_string(out.as_slice()))
}

/// One tokenized line: the trimmed metadata fields, the derived EU
/// flag, and the extracted postal code.
pub struct LogEntry {
    pub date: String,
    pub ip: String,
    pub country: String,
    pub eu: String,
    pub subdivision: String,
    pub postal_code: Option<String>,
    pub isp: String,
    pub user_agent: String,
    pub body: String,
    pub request_uri: String,
}

/// The text of the derived EU flag.
pub open spec fn eu_text(raw: Seq<char>) -> Seq<char> {
    if has_digit(raw) {
        "true"@
    } else {
        "false"@
    }
}

impl LogEntry {
    /// Builds the record from the ten trimmed fields: every field passes
    /// through except the EU flag, which becomes `true` exactly when the
    /// raw field holds a digit, and the postal code, which is the first
    /// quote-delimited substring of its field, absent when there is none.
    pub fn new(
        timestamp: &str,
        ip: &str,
        country: &str,
        eu: &str,
        subdivision: &str,
        postal_code: &str,
        isp: &str,
        user_agent: &str,
        request_body: &str,
        request_uri: &str,
    ) -> (r: LogEntry)
        ensures
            r.date@ == timestamp@,
            r.ip@ == ip@,
            r.country@ == country@,
            r.eu@ == eu_text(eu@),
            r.subdivision@ == subdivision@,
            match r.postal_code {
                Some(p) => postal_spec(postal_code@) == Some(p@),
                None => postal_spec(postal_code@) is None,
            },
            r.isp@ == isp@,
            r.user_agent@ == user_agent@,
            r.body@ == request_body@,
            r.request_uri@ == request_uri@,
    {
        LogEntry {
            date: timestamp.to_owned(),
            ip: ip.to_owned(),
            country: country.to_owned(),
            eu: if has_digit_exec(eu) {
                "true".to_owned()
            } else {
                "false".to_owned()
            },
            subdivision: subdivision.to_owned(),
            postal_code: extract_postal(postal_code),
            isp: isp.to_owned(),
            user_agent: user_agent.to_owned(),
            body: request_body.to_owned(),
            request_uri: request_uri.to_owned(),
        }
    }
}

} // verus!
