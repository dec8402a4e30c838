//! Parsing of `application/x-www-form-urlencoded` subscription
//! submissions: the body splits on `&` into `key=value` segments, keys
//! and values are percent-decoded, and the fields `name` and `email`
//! are both required and non-empty.

use vstd::prelude::*;

use crate::text::{
    is_ascii_seq, lemma_encoded_avoids, lemma_percent_round_trip, lemma_plain_decode,
    percent_decode, percent_decode_ok, percent_decoded, percent_encode, percent_encoded,
};

verus! {

/// A subscription submission: who subscribes, under which address.
#[derive(Debug, PartialEq, Eq)]
pub struct UserFormData {
    pub name: String,
    pub email: String,
}

/// Why a submission was turned away: a body that does not decode, or a
/// required field absent or empty.
#[derive(Clone, Copy, Debug, PartialEq, Eq, Structural)]
pub enum ValidationError {
    MalformedBody,
    MissingName,
    MissingEmail,
    MissingBoth,
}

/// The position of the first `c` in `s`, or `s.len()` when there is none.
pub open spec fn spec_find(s: Seq<char>, c: char) -> int
    decreases s.len(),
{
    if s.len() == 0 {
        0
    } else if s[0] == c {
        0
    } else {
        1 + spec_find(s.skip(1), c)
    }
}

/// What `spec_find` returns: the first position of `c`, or the length.
pub proof fn lemma_spec_find(s: Seq<char>, c: char)
    ensures
        0 <= spec_find(s, c) <= s.len(),
        spec_find(s, c) < s.len() ==> s[spec_find(s, c)] == c,
        forall|j: int| 0 <= j < spec_find(s, c) ==> s[j] != c,
    decreases s.len(),
{
    if s.len() != 0 && s[0] != c {
        lemma_spec_find(s.skip(1), c);
        assert forall|j: int| 0 <= j < spec_find(s, c) implies s[j] != c by {
            if j > 0 {
                assert(s.skip(1)[j - 1] != c);
                assert(s.skip(1)[j - 1] == s[j]);
            }
        }
    }
}

/// Finds the first `c` in `s`, or returns the length when there is none.
pub fn find_char(s: &str, c: char) -> (i: usize)
    ensures
        i == spec_find(s@, c),
{
    let n = s.unicode_len();
    let mut i: usize = 0;
    while i < n
        invariant
            0 <= i <= n,
            n == s@.len(),
            forall|j: int| 0 <= j < i ==> s@[j] != c,
        decreases n - i,
    {
        let ch = s.get_char(i);
        if ch == c {
            proof {
                lemma_spec_find(s@, c);
            }
            return i;
        }
        i = i + 1;
    }
    proof {
        lemma_spec_find(s@, c);
    }
    n
}

/// The raw key and value of one segment: the text before the first
/// `=`, and the text after it (empty when there is no `=`).
pub ghost struct RawPair {
    pub key: Seq<char>,
    pub value: Seq<char>,
}

/// Splits one segment at its first `=`.
pub open spec fn spec_pair(seg: Seq<char>) -> RawPair {
    let j = spec_find(seg, '=');
    RawPair {
        key: seg.take(j),
        value: if j == seg.len() {
            Seq::empty()
        } else {
            seg.skip(j + 1)
        },
    }
}

/// What one segment contributes: `None` when its key or value does not
/// decode; otherwise the decoded value, under the `name` or `email`
/// slot when the decoded key names one of them, and nowhere otherwise.
pub open spec fn spec_segment_fields(seg: Seq<char>) -> Option<
    (Option<Seq<char>>, Option<Seq<char>>),
> {
    let p = spec_pair(seg);
    if !percent_decode_ok(p.key) || !percent_decode_ok(p.value) {
        Option::None
    } else {
        let k = percent_decoded(p.key);
        let v = percent_decoded(p.value);
        if k == "name"@ {
            Option::Some((Option::Some(v), Option::None))
        } else if k == "email"@ {
            Option::Some((Option::None, Option::Some(v)))
        } else {
            Option::Some((Option::None, Option::None))
        }
    }
}

/// The `name` and `email` fields of a whole body: segments are read in
/// order, a later occurrence of a field replacing an earlier one;
/// `None` when any segment fails to decode.
pub open spec fn spec_fields(s: Seq<char>) -> Option<(Option<Seq<char>>, Option<Seq<char>>)>
    decreases s.len(),
{
    let i = spec_find(s, '&');
    let head = spec_segment_fields(s.take(i));
    if 0 <= i < s.len() {
        match (head, spec_fields(s.skip(i + 1))) {
            (
                Option::Some((n1, e1)),
                Option::Some((n2, e2)),
            ) => Option::Some(
                (
                    if n2 is Some {
                        n2
                    } else {
                        n1
                    },
                    if e2 is Some {
                        e2
                    } else {
                        e1
                    },
                ),
            ),
            _ => Option::None,
        }
    } else {
        head
    }
}

/// What parsing a submission must return: the decoded `name` and
/// `email` values when the body decodes and both are present and
/// non-empty, and otherwise the error that names what was wrong.
pub open spec fn spec_validate(body: Seq<char>) -> Result<(Seq<char>, Seq<char>), ValidationError> {
    match spec_fields(body) {
        Option::None => Result::Err(ValidationError::MalformedBody),
        Option::Some((n, e)) => {
            let name_missing = !(n is Some) || n->Some_0.len() == 0;
            let email_missing = !(e is Some) || e->Some_0.len() == 0;
            if name_missing && email_missing {
                Result::Err(ValidationError::MissingBoth)
            } else if name_missing {
                Result::Err(ValidationError::MissingName)
            } else if email_missing {
                Result::Err(ValidationError::MissingEmail)
            } else {
                Result::Ok((n->Some_0, e->Some_0))
            }
        },
    }
}

/// The view of an optional string.
pub open spec fn opt_view(o: Option<String>) -> Option<Seq<char>> {
    match o {
        Option::Some(s) => Option::Some(s@),
        Option::None => Option::None,
    }
}

/// Reads one segment: decodes its key and value and hands the value to
/// the slot its key names, exactly as `spec_segment_fields` says.
fn parse_segment(seg: &str) -> (r: Option<(Option<String>, Option<String>)>)
    ensures
        r.is_some() == (spec_segment_fields(seg@) is Some),
        r matches Some(p) ==> {
            &&& spec_segment_fields(seg@) matches Some(q)
            &&& opt_view(p.0) == q.0
            &&& opt_view(p.1) == q.1
        },
{
    let n = seg.unicode_len();
    let j = find_char(seg, '=');
    proof {
        lemma_spec_find(seg@, '=');
    }
    let key_raw = seg.substring_char(0, j);
    let val_raw = if j == n {
        seg.substring_char(n, n)
    } else {
        seg.substring_char(j + 1, n)
    };
    proof {
        assert(key_raw@ =~= spec_pair(seg@).key);
        assert(val_raw@ =~= spec_pair(seg@).value);
    }
    let key = match percent_decode(key_raw) {
        Option::Some(k) => k,
        Option::None => {
            return Option::None;
        },
    };
    let value = match percent_decode(val_raw) {
        Option::Some(v) => v,
        Option::None => {
            return Option::None;
        },
    };
    let name_key = String::from_str("name");
    let email_key = String::from_str("email");
    if key == name_key {
        Option::Some((Option::Some(value), Option::None))
    } else if key == email_key {
        Option::Some((Option::None, Option::Some(value)))
    } else {
        Option::Some((Option::None, Option::None))
    }
}

/// Reads the whole body segment by segment, exactly as `spec_fields`
/// says.
fn parse_fields(body: &str) -> (r: Option<(Option<String>, Option<String>)>)
    ensures
        r.is_some() == (spec_fields(body@) is Some),
        r matches Some(p) ==> {
            &&& spec_fields(body@) matches Some(q)
            &&& opt_view(p.0) == q.0
            &&& opt_view(p.1) == q.1
        },
    decreases body@.len(),
{
    let n = body.unicode_len();
    let i = find_char(body, '&');
    proof {
        lemma_spec_find(body@, '&');
    }
    let seg = body.substring_char(0, i);
    proof {
        assert(seg@ =~= body@.take(i as int));
    }
    let head = match parse_segment(seg) {
        Option::Some(h) => h,
        Option::None => {
            return Option::None;
        },
    };
    if i == n {
        Option::Some(head)
    } else {
        let rest = body.substring_char(i + 1, n);
        proof {
            assert(rest@ =~= body@.skip(i + 1));
        }
        match parse_fields(rest) {
            Option::Some(tail) => {
                let name = if tail.0.is_some() {
                    tail.0
                } else {
                    head.0
                };
                let email = if tail.1.is_some() {
                    tail.1
                } else {
                    head.1
                };
                Option::Some((name, email))
            },
            Option::None => Option::None,
        }
    }
}

/// Parses a subscription submission: returns the decoded `name` and
/// `email` exactly when `spec_validate` accepts the body, and the
/// error `spec_validate` assigns otherwise.
pub fn parse_form(body: &str) -> (r: Result<UserFormData, ValidationError>)
    ensures
        r.is_ok() == spec_validate(body@).is_ok(),
        r matches Ok(f) ==> {
            &&& spec_validate(body@) matches Ok(p)
            &&& f.name@ == p.0
            &&& f.email@ == p.1
        },
        r matches Err(e) ==> (spec_validate(body@) matches Err(e2) && e == e2),
{
    let fields = match parse_fields(body) {
        Option::Some(f) => f,
        Option::None => {
            return Result::Err(ValidationError::MalformedBody);
        },
    };
    let name_missing = match &fields.0 {
        Option::Some(s) => s.as_str().is_empty(),
        Option::None => true,
    };
    let email_missing = match &fields.1 {
        Option::Some(s) => s.as_str().is_empty(),
        Option::None => true,
    };
    if name_missing && email_missing {
        Result::Err(ValidationError::MissingBoth)
    } else if name_missing {
        Result::Err(ValidationError::MissingName)
    } else if email_missing {
        Result::Err(ValidationError::MissingEmail)
    } else {
        match (fields.0, fields.1) {
            (Option::Some(name), Option::Some(email)) => Result::Ok(
                UserFormData { name, email },
            ),
            _ => Result::Err(ValidationError::MissingBoth),
        }
    }
}

/// When some position holds `c` and no earlier one does, it is the
/// position `spec_find` returns.
pub proof fn lemma_find_at(s: Seq<char>, c: char, i: int)
    requires
        0 <= i <= s.len(),
        i < s.len() ==> s[i] == c,
        forall|j: int| 0 <= j < i ==> s[j] != c,
    ensures
        spec_find(s, c) == i,
{
    lemma_spec_find(s, c);
    let f = spec_find(s, c);
    if f < i {
        assert(s[f] != c);
        assert(s[f] == c);
    }
    if f > i {
        assert(s[i] != c);
    }
}

/// The body that submits `name` and `email`, each percent-encoded.
pub open spec fn spec_form_body(name: Seq<char>, email: Seq<char>) -> Seq<char> {
    "name="@ + percent_encoded(name) + "&email="@ + percent_encoded(email)
}

/// Renders the body that submits `name` and `email`.
pub fn encode_form(name: &str, email: &str) -> (r: String)
    requires
        is_ascii_seq(name@),
        is_ascii_seq(email@),
    ensures
        r@ == spec_form_body(name@, email@),
{
    let mut s = String::from_str("name=");
    let name_enc = percent_encode(name);
    s.append(name_enc.as_str());
    s.append("&email=");
    let email_enc = percent_encode(email);
    s.append(email_enc.as_str());
    proof {
        assert(s@ =~= spec_form_body(name@, email@));
    }
    s
}

/// Every valid submission is accepted with its exact values: for any
/// non-empty ASCII `name` and `email`, the body that submits them
/// validates to precisely that pair — encoding loses nothing and the
/// parser recovers both fields.
pub proof fn lemma_form_round_trip(name: Seq<char>, email: Seq<char>)
    requires
        is_ascii_seq(name),
        is_ascii_seq(email),
        name.len() > 0,
        email.len() > 0,
    ensures
        spec_validate(spec_form_body(name, email)) == Result::<
            (Seq<char>, Seq<char>),
            ValidationError,
        >::Ok((name, email)),
{
    reveal_strlit("name=");
    reveal_strlit("&email=");
    reveal_strlit("name");
    reveal_strlit("email");
    let a = "name="@;
    let b = "&email="@;
    let pn = percent_encoded(name);
    let pe = percent_encoded(email);
    let body = spec_form_body(name, email);
    lemma_encoded_avoids(name, '&');
    lemma_encoded_avoids(name, '=');
    lemma_encoded_avoids(email, '&');
    lemma_encoded_avoids(email, '=');
    lemma_percent_round_trip(name);
    lemma_percent_round_trip(email);

    // The separating `&` is the first one in the body.
    let sep = 5 + pn.len() as int;
    assert(body[sep] == '&');
    assert forall|j: int| 0 <= j < sep implies body[j] != '&' by {
        if j < 5 {
            assert(body[j] == a[j]);
        } else {
            assert(body[j] == pn[j - 5]);
        }
    }
    lemma_find_at(body, '&', sep);

    // The head segment is `name=` followed by the encoded name.
    let head = body.take(sep);
    assert(head =~= a + pn);
    assert(head[4] == '=');
    assert forall|j: int| 0 <= j < 4 implies head[j] != '=' by {
        assert(head[j] == a[j]);
    }
    lemma_find_at(head, '=', 4);
    let hp = spec_pair(head);
    assert(hp.key =~= "name"@);
    assert(hp.value =~= pn);
    lemma_plain_decode(hp.key, 0);
    assert(hp.key.skip(0) =~= hp.key);
    assert(spec_segment_fields(head) == Option::Some(
        (Option::Some(name), Option::<Seq<char>>::None),
    ));

    // The rest is one segment, `email=` followed by the encoded email.
    let rest = body.skip(sep + 1);
    assert(rest =~= b.skip(1) + pe);
    assert forall|j: int| 0 <= j < rest.len() implies rest[j] != '&' by {
        if j < 6 {
            assert(rest[j] == b[j + 1]);
        } else {
            assert(rest[j] == pe[j - 6]);
        }
    }
    lemma_find_at(rest, '&', rest.len() as int);
    assert(rest[5] == '=');
    assert forall|j: int| 0 <= j < 5 implies rest[j] != '=' by {
        assert(rest[j] == b[j + 1]);
    }
    lemma_find_at(rest, '=', 5);
    let rp = spec_pair(rest.take(spec_find(rest, '&')));
    assert(rest.take(spec_find(rest, '&')) =~= rest);
    assert(rp.key =~= "email"@);
    assert(rp.value =~= pe);
    lemma_plain_decode(rp.key, 0);
    assert(rp.key.skip(0) =~= rp.key);
    assert(percent_decoded(rp.key) != "name"@) by {
        assert(percent_decoded(rp.key).len() == 5);
        assert(("name"@).len() == 4);
    }
    assert(spec_fields(rest) == Option::Some(
        (Option::<Seq<char>>::None, Option::Some(email)),
    ));

    assert(spec_fields(body) == Option::Some(
        (Option::Some(name), Option::Some(email)),
    ));
}

} // verus!
