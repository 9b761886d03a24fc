use vstd::prelude::*;
use vstd::utf8::valid_utf8;
use crate::routes::subscriptions::FormData;

verus! {

/// Why a submission body could not be read into a `FormData`.
#[derive(Clone, Copy, PartialEq, Eq, Structural, Debug)]
pub enum FormError {
    MissingName,
    MissingEmail,
    InvalidEncoding,
}

pub open spec fn is_hex_digit(b: u8) -> bool {
    (48 <= b && b <= 57) || (65 <= b && b <= 70) || (97 <= b && b <= 102)
}

pub open spec fn hex_value(b: u8) -> int {
    if 48 <= b && b <= 57 {
        b - 48
    } else if 65 <= b && b <= 70 {
        b - 55
    } else {
        b - 87
    }
}

/// `application/x-www-form-urlencoded` decoding of one field: `+` becomes a
/// space, `%XX` becomes the byte named by the two hex digits, every other
/// byte stands for itself; a `%` not followed by two hex digits is an error.
pub open spec fn form_decoded(s: Seq<u8>) -> Option<Seq<u8>>
    decreases s.len(),
{
    if s.len() == 0 {
        Some(Seq::empty())
    } else if s[0] == 43 {
        match form_decoded(s.drop_first()) {
            Some(t) => Some(seq![32u8] + t),
            None => None,
        }
    } else if s[0] == 37 {
        if s.len() >= 3 && is_hex_digit(s[1]) && is_hex_digit(s[2]) {
            match form_decoded(s.skip(3)) {
                Some(t) => Some(seq![(hex_value(s[1]) * 16 + hex_value(s[2])) as u8] + t),
                None => None,
            }
        } else {
            None
        }
    } else {
        match form_decoded(s.drop_first()) {
            Some(t) => Some(seq![s[0]] + t),
            None => None,
        }
    }
}

/// The body split at every `&`: one (possibly empty) segment per field.
pub open spec fn split_segments(b: Seq<u8>) -> Seq<Seq<u8>>
    decreases b.len(),
{
    if b.len() == 0 {
        seq![Seq::<u8>::empty()]
    } else if b[0] == 38 {
        seq![Seq::<u8>::empty()] + split_segments(b.drop_first())
    } else {
        let rest = split_segments(b.drop_first());
        seq![seq![b[0]] + rest[0]] + rest.drop_first()
    }
}

pub proof fn lemma_split_segments_nonempty(b: Seq<u8>)
    ensures
        split_segments(b).len() >= 1,
    decreases b.len(),
{
    if b.len() != 0 {
        lemma_split_segments_nonempty(b.drop_first());
    }
}

/// A segment split at its first `=`: the key, and the raw value, which is
/// empty when the segment has no `=`.
pub open spec fn split_at_eq(seg: Seq<u8>) -> (Seq<u8>, Seq<u8>)
    decreases seg.len(),
{
    if seg.len() == 0 {
        (Seq::empty(), Seq::empty())
    } else if seg[0] == 61 {
        (Seq::empty(), seg.drop_first())
    } else {
        let rest = split_at_eq(seg.drop_first());
        (seq![seg[0]] + rest.0, rest.1)
    }
}

/// The raw value of the field with the given key; when a key repeats, the
/// last occurrence wins. Keys are matched byte for byte, undecoded.
pub open spec fn lookup_raw(segs: Seq<Seq<u8>>, key: Seq<u8>) -> Option<Seq<u8>>
    decreases segs.len(),
{
    if segs.len() == 0 {
        None
    } else {
        match lookup_raw(segs.drop_first(), key) {
            Some(v) => Some(v),
            None => {
                let (k, v) = split_at_eq(segs[0]);
                if k == key {
                    Some(v)
                } else {
                    None
                }
            }
        }
    }
}

pub open spec fn name_key() -> Seq<u8> {
    seq![110u8, 97u8, 109u8, 101u8]
}

pub open spec fn email_key() -> Seq<u8> {
    seq![101u8, 109u8, 97u8, 105u8, 108u8]
}

/// What a submission body means: the decoded bytes of the `email` and `name`
/// fields, or the first reason the body cannot be read. The email field is
/// looked up first, so a body missing both fields reports the email.
pub open spec fn spec_parse_form(b: Seq<u8>) -> Result<(Seq<u8>, Seq<u8>), FormError> {
    let segs = split_segments(b);
    match lookup_raw(segs, email_key()) {
        None => Err(FormError::MissingEmail),
        Some(email_raw) => match lookup_raw(segs, name_key()) {
            None => Err(FormError::MissingName),
            Some(name_raw) => match (form_decoded(email_raw), form_decoded(name_raw)) {
                (Some(e), Some(n)) => Ok((e, n)),
                _ => Err(FormError::InvalidEncoding),
            },
        },
    }
}

fn sub_vec(v: &Vec<u8>, start: usize, end: usize) -> (r: Vec<u8>)
    requires
        start <= end <= v@.len(),
    ensures
        r@ == v@.subrange(start as int, end as int),
{
    let mut r: Vec<u8> = Vec::new();
    for k in start..end
        invariant
            start <= end <= v@.len(),
            r@ =~= v@.subrange(start as int, k as int),
    {
        r.push(v[k]);
        proof {
            assert(r@ =~= v@.subrange(start as int, k + 1 as int));
        }
    }
    proof {
        assert(r@ =~= v@.subrange(start as int, end as int));
    }
    r
}

fn bytes_eq(a: &Vec<u8>, b: &Vec<u8>) -> (r: bool)
    ensures
        r == (a@ == b@),
{
    if a.len() != b.len() {
        return false;
    }
    let n = a.len();
    let mut same = true;
    for k in 0..n
        invariant
            n == a@.len(),
            n == b@.len(),
            same == (forall|i: int| 0 <= i < k ==> #[trigger] a@[i] == b@[i]),
    {
        if a[k] != b[k] {
            same = false;
        }
    }
    proof {
        if same {
            assert(a@ =~= b@);
        }
    }
    same
}

fn hex_digit_value(b: u8) -> (v: u8)
    requires
        is_hex_digit(b),
    ensures
        v as int == hex_value(b),
        v <= 15,
{
    if 48 <= b && b <= 57 {
        b - 48
    } else if 65 <= b && b <= 70 {
        b - 55
    } else {
        b - 87
    }
}

fn url_decode(v: &Vec<u8>) -> (r: Option<Vec<u8>>)
    ensures
        match r {
            Some(out) => form_decoded(v@) == Some(out@),
            None => form_decoded(v@) is None,
        },
    decreases v@.len(),
{
    if v.len() == 0 {
        proof {
            assert(v@ =~= Seq::<u8>::empty());
        }
        return Some(Vec::new());
    }
    let b0 = v[0];
    if b0 == 43 {
        let rest = sub_vec(v, 1, v.len());
        proof {
            assert(rest@ =~= v@.drop_first());
        }
        match url_decode(&rest) {
            Some(mut tail) => {
                let mut out: Vec<u8> = Vec::new();
                out.push(32);
                out.append(&mut tail);
                proof {
                    assert(form_decoded(v@) == Some(out@));
                }
                Some(out)
            }
            None => None,
        }
    } else if b0 == 37 {
        if v.len() < 3 {
            return None;
        }
        let h1 = v[1];
        let h2 = v[2];
        let h1_ok = (48 <= h1 && h1 <= 57) || (65 <= h1 && h1 <= 70) || (97 <= h1 && h1 <= 102);
        let h2_ok = (48 <= h2 && h2 <= 57) || (65 <= h2 && h2 <= 70) || (97 <= h2 && h2 <= 102);
        if !(h1_ok && h2_ok) {
            return None;
        }
        let byte = hex_digit_value(h1) * 16 + hex_digit_value(h2);
        let rest = sub_vec(v, 3, v.len());
        proof {
            assert(rest@ =~= v@.skip(3));
        }
        match url_decode(&rest) {
            Some(mut tail) => {
                let mut out: Vec<u8> = Vec::new();
                out.push(byte);
                out.append(&mut tail);
                proof {
                    assert(form_decoded(v@) == Some(out@));
                }
                Some(out)
            }
            None => None,
        }
    } else {
        let rest = sub_vec(v, 1, v.len());
        proof {
            assert(rest@ =~= v@.drop_first());
        }
        match url_decode(&rest) {
            Some(mut tail) => {
                let mut out: Vec<u8> = Vec::new();
                out.push(b0);
                out.append(&mut tail);
                proof {
                    assert(form_decoded(v@) == Some(out@));
                }
                Some(out)
            }
            None => None,
        }
    }
}

/// The views of a vector of byte vectors.
pub open spec fn seg_views(segs: Seq<Vec<u8>>) -> Seq<Seq<u8>> {
    segs.map_values(|s: Vec<u8>| s@)
}

spec fn glue(pre: Seq<Seq<u8>>, cur: Seq<u8>, rest: Seq<Seq<u8>>) -> Seq<Seq<u8>> {
    pre + seq![cur + rest[0]] + rest.drop_first()
}

fn split_form_segments(b: &Vec<u8>) -> (segs: Vec<Vec<u8>>)
    ensures
        seg_views(segs@) == split_segments(b@),
{
    let n = b.len();
    let mut out: Vec<Vec<u8>> = Vec::new();
    let mut cur: Vec<u8> = Vec::new();
    proof {
        assert(b@.skip(0) =~= b@);
        lemma_split_segments_nonempty(b@);
        let s = split_segments(b@);
        assert(glue(seg_views(out@), cur@, s) =~= s);
    }
    for k in 0..n
        invariant
            n == b@.len(),
            glue(seg_views(out@), cur@, split_segments(b@.skip(k as int))) == split_segments(b@),
        decreases n - k,
    {
        let ghost pre = seg_views(out@);
        let ghost prev_cur = cur@;
        let ghost tail = b@.skip(k as int);
        proof {
            assert(tail.len() == n - k);
            assert(tail[0] == b@[k as int]);
            assert(tail.drop_first() =~= b@.skip(k + 1 as int));
            lemma_split_segments_nonempty(tail.drop_first());
        }
        if b[k] == 38 {
            out.push(cur);
            cur = Vec::new();
            proof {
                let rest = split_segments(b@.skip(k + 1 as int));
                assert(split_segments(tail) == seq![Seq::<u8>::empty()] + rest);
                assert((seq![Seq::<u8>::empty()] + rest).drop_first() =~= rest);
                assert(prev_cur + (seq![Seq::<u8>::empty()] + rest)[0] =~= prev_cur);
                assert(seg_views(out@) =~= pre.push(prev_cur));
                assert(glue(seg_views(out@), cur@, rest) =~= glue(pre, prev_cur, split_segments(tail)));
            }
        } else {
            let byte = b[k];
            cur.push(byte);
            proof {
                let rest = split_segments(b@.skip(k + 1 as int));
                assert(split_segments(tail) == seq![seq![b@[k as int]] + rest[0]] + rest.drop_first());
                assert((seq![seq![b@[k as int]] + rest[0]] + rest.drop_first()).drop_first()
                    =~= rest.drop_first());
                assert(prev_cur + (seq![seq![b@[k as int]] + rest[0]] + rest.drop_first())[0]
                    =~= cur@ + rest[0]);
                assert(glue(seg_views(out@), cur@, rest) =~= glue(pre, prev_cur, split_segments(tail)));
            }
        }
    }
    let ghost pre = seg_views(out@);
    let ghost prev_cur = cur@;
    out.push(cur);
    proof {
        assert(b@.skip(n as int) =~= Seq::<u8>::empty());
        let empty_split = split_segments(Seq::<u8>::empty());
        assert(empty_split == seq![Seq::<u8>::empty()]);
        assert(prev_cur + empty_split[0] =~= prev_cur);
        assert(empty_split.drop_first() =~= Seq::<Seq<u8>>::empty());
        assert(seg_views(out@) =~= pre.push(prev_cur));
        assert(seg_views(out@) =~= glue(pre, prev_cur, empty_split));
    }
    out
}

fn split_eq_exec(seg: &Vec<u8>) -> (r: (Vec<u8>, Vec<u8>))
    ensures
        (r.0@, r.1@) == split_at_eq(seg@),
    decreases seg@.len(),
{
    if seg.len() == 0 {
        proof {
            assert(seg@ =~= Seq::<u8>::empty());
        }
        return (Vec::new(), Vec::new());
    }
    let b0 = seg[0];
    if b0 == 61 {
        let value = sub_vec(seg, 1, seg.len());
        proof {
            assert(value@ =~= seg@.drop_first());
        }
        (Vec::new(), value)
    } else {
        let rest = sub_vec(seg, 1, seg.len());
        proof {
            assert(rest@ =~= seg@.drop_first());
        }
        let (mut k_rest, v_rest) = split_eq_exec(&rest);
        let mut key: Vec<u8> = Vec::new();
        key.push(b0);
        key.append(&mut k_rest);
        proof {
            assert(key@ =~= seq![seg@[0]] + split_at_eq(seg@.drop_first()).0);
        }
        (key, v_rest)
    }
}

fn lookup_field(segs: &Vec<Vec<u8>>, key: &Vec<u8>) -> (r: Option<Vec<u8>>)
    ensures
        match r {
            Some(v) => lookup_raw(seg_views(segs@), key@) == Some(v@),
            None => lookup_raw(seg_views(segs@), key@) is None,
        },
{
    let n = segs.len();
    let ghost views = seg_views(segs@);
    let mut found: Option<Vec<u8>> = None;
    proof {
        assert(views.skip(0) =~= views);
    }
    for k in 0..n
        invariant
            n == segs@.len(),
            views == seg_views(segs@),
            views.len() == n,
            match found {
                Some(v) => {
                    &&& (lookup_raw(views.skip(k as int), key@) matches Some(w)
                        ==> lookup_raw(views, key@) == Some(w))
                    &&& (lookup_raw(views.skip(k as int), key@) is None
                        ==> lookup_raw(views, key@) == Some(v@))
                },
                None => lookup_raw(views, key@) == lookup_raw(views.skip(k as int), key@),
            },
        decreases n - k,
    {
        let ghost tail = views.skip(k as int);
        proof {
            assert(tail.len() == n - k);
            assert(tail[0] == views[k as int]);
            assert(tail[0] == segs@[k as int]@);
            assert(tail.drop_first() =~= views.skip(k + 1 as int));
        }
        let (seg_key, seg_value) = split_eq_exec(&segs[k]);
        if bytes_eq(&seg_key, key) {
            found = Some(seg_value);
        }
    }
    proof {
        assert(views.skip(n as int) =~= Seq::<Seq<u8>>::empty());
    }
    found
}

/// Reads a URL-encoded submission body into its raw form fields: the decoded
/// `email` and `name` values as text, or the first reason the body cannot be
/// read (a missing field, a malformed escape, or bytes that are not UTF-8).
pub fn parse_form_data(body: &str) -> (r: Result<FormData, FormError>)
    ensures
        ({
            let p = spec_parse_form(vstd::utf8::encode_utf8(body@));
            match r {
                Ok(fd) => {
                    &&& p matches Ok(q)
                    &&& vstd::utf8::encode_utf8(fd.email@) == q.0
                    &&& vstd::utf8::encode_utf8(fd.name@) == q.1
                },
                Err(e) => match p {
                    Err(pe) => e == pe,
                    Ok(q) => e == FormError::InvalidEncoding
                        && !(valid_utf8(q.0) && valid_utf8(q.1)),
                },
            }
        }),
{
    let bytes_slice = body.as_bytes();
    let mut bytes: Vec<u8> = Vec::new();
    let n = bytes_slice.len();
    for k in 0..n
        invariant
            n == bytes_slice@.len(),
            bytes@ =~= bytes_slice@.subrange(0, k as int),
    {
        bytes.push(bytes_slice[k]);
        proof {
            assert(bytes@ =~= bytes_slice@.subrange(0, k + 1 as int));
        }
    }
    proof {
        assert(bytes@ =~= bytes_slice@);
    }
    let segs = split_form_segments(&bytes);
    let mut email_key_v: Vec<u8> = Vec::new();
    email_key_v.push(101);
    email_key_v.push(109);
    email_key_v.push(97);
    email_key_v.push(105);
    email_key_v.push(108);
    proof {
        assert(email_key_v@ =~= email_key());
    }
    let mut name_key_v: Vec<u8> = Vec::new();
    name_key_v.push(110);
    name_key_v.push(97);
    name_key_v.push(109);
    name_key_v.push(101);
    proof {
        assert(name_key_v@ =~= name_key());
    }
    let email_raw = match lookup_field(&segs, &email_key_v) {
        Some(v) => v,
        None => { return Err(FormError::MissingEmail); }
    };
    let name_raw = match lookup_field(&segs, &name_key_v) {
        Some(v) => v,
        None => { return Err(FormError::MissingName); }
    };
    let email_bytes = match url_decode(&email_raw) {
        Some(v) => v,
        None => { return Err(FormError::InvalidEncoding); }
    };
    let name_bytes = match url_decode(&name_raw) {
        Some(v) => v,
        None => { return Err(FormError::InvalidEncoding); }
    };
    let email = match crate::text::string_from_utf8(email_bytes) {
        Some(s) => s,
        None => { return Err(FormError::InvalidEncoding); }
    };
    let name = match crate::text::string_from_utf8(name_bytes) {
        Some(s) => s,
        None => { return Err(FormError::InvalidEncoding); }
    };
    Ok(FormData { email, name })
}

} // verus!
