use vstd::prelude::*;
use crate::text::to_chars;

verus! {

/// Characters allowed in the local part of an address: anything but another
/// `@` or whitespace.
pub open spec fn local_char(c: char) -> bool {
    c != '@' && c != ' ' && c != '\t' && c != '\r' && c != '\n'
}

/// Characters allowed inside a domain label.
pub open spec fn label_char(c: char) -> bool {
    ('a' <= c && c <= 'z') || ('A' <= c && c <= 'Z') || ('0' <= c && c <= '9') || c == '-'
}

pub open spec fn valid_local_part(s: Seq<char>) -> bool {
    &&& s.len() > 0
    &&& forall|i: int| 0 <= i < s.len() ==> local_char(#[trigger] s[i])
}

/// A domain is a non-empty run of dot-separated, non-empty labels.
pub open spec fn valid_domain_part(s: Seq<char>) -> bool {
    &&& s.len() > 0
    &&& forall|i: int| 0 <= i < s.len() ==> (label_char(#[trigger] s[i]) || s[i] == '.')
    &&& s[0] != '.'
    &&& s[s.len() - 1] != '.'
    &&& forall|i: int| 0 <= i < s.len() - 1 ==> !(#[trigger] s[i] == '.' && s[i + 1] == '.')
}

/// The one `@` of the address sits at index `i`.
pub open spec fn unique_at_sign(s: Seq<char>, i: int) -> bool {
    &&& 0 <= i < s.len()
    &&& s[i] == '@'
    &&& forall|j: int| 0 <= j < s.len() && j != i ==> #[trigger] s[j] != '@'
}

pub open spec fn email_parts_at(s: Seq<char>, i: int) -> bool {
    &&& unique_at_sign(s, i)
    &&& valid_local_part(s.subrange(0, i))
    &&& valid_domain_part(s.subrange(i + 1, s.len() as int))
}

/// An address is valid when it splits at a single `@` into a non-empty local
/// part and a well-formed domain.
pub open spec fn valid_email(s: Seq<char>) -> bool {
    exists|i: int| #[trigger] email_parts_at(s, i)
}

fn find_unique_at_sign(v: &Vec<char>) -> (r: Option<usize>)
    ensures
        match r {
            Some(i) => unique_at_sign(v@, i as int),
            None => forall|i: int| !unique_at_sign(v@, i),
        },
{
    let n = v.len();
    let mut first: Option<usize> = None;
    let mut extra = false;
    for k in 0..n
        invariant
            n == v@.len(),
            match first {
                Some(a) => a < k && v@[a as int] == '@'
                    && (extra || forall|j: int| 0 <= j < k && j != a ==> #[trigger] v@[j] != '@'),
                None => !extra && forall|j: int| 0 <= j < k ==> #[trigger] v@[j] != '@',
            },
            extra ==> (exists|a: int, b: int|
                0 <= a < b < k && #[trigger] v@[a] == '@' && #[trigger] v@[b] == '@'),
    {
        if v[k] == '@' {
            match first {
                None => { first = Some(k); }
                Some(_) => { extra = true; }
            }
        }
    }
    if extra {
        proof {
            let (a, b) = choose|a: int, b: int|
                0 <= a < b < n && #[trigger] v@[a] == '@' && #[trigger] v@[b] == '@';
            assert forall|i: int| !unique_at_sign(v@, i) by {
                if unique_at_sign(v@, i) {
                    if i != a {
                        assert(v@[a] != '@');
                    } else {
                        assert(v@[b] != '@');
                    }
                }
            }
        }
        None
    } else {
        match first {
            Some(a) => Some(a),
            None => {
                proof {
                    assert forall|i: int| !unique_at_sign(v@, i) by {
                        if 0 <= i < v@.len() {
                            assert(v@[i] != '@');
                        }
                    }
                }
                None
            }
        }
    }
}

fn check_local_part(v: &Vec<char>, at: usize) -> (b: bool)
    requires
        at as int <= v@.len(),
    ensures
        b == valid_local_part(v@.subrange(0, at as int)),
{
    let ghost sub = v@.subrange(0, at as int);
    if at == 0 {
        return false;
    }
    let mut ok = true;
    for k in 0..at
        invariant
            at as int <= v@.len(),
            sub == v@.subrange(0, at as int),
            ok == forall|j: int| 0 <= j < k ==> local_char(#[trigger] sub[j]),
    {
        let c = v[k];
        proof {
            assert(sub[k as int] == v@[k as int]);
        }
        if c == '@' || c == ' ' || c == '\t' || c == '\r' || c == '\n' {
            ok = false;
        }
    }
    ok
}

fn check_domain_part(v: &Vec<char>, at: usize) -> (b: bool)
    requires
        (at as int) < v@.len(),
    ensures
        b == valid_domain_part(v@.subrange(at as int + 1, v@.len() as int)),
{
    let n = v.len();
    let start = at + 1;
    let dlen = n - start;
    let ghost sub = v@.subrange(at as int + 1, v@.len() as int);
    proof {
        assert(sub.len() == dlen as int);
    }
    if dlen == 0 {
        return false;
    }
    let mut chars_ok = true;
    let mut no_double_dot = true;
    for j in 0..dlen
        invariant
            start == at + 1,
            start + dlen == n,
            n == v@.len(),
            sub == v@.subrange(at as int + 1, v@.len() as int),
            sub.len() == dlen as int,
            chars_ok == forall|i: int|
                0 <= i < j ==> (label_char(#[trigger] sub[i]) || sub[i] == '.'),
            no_double_dot == forall|i: int|
                0 <= i && i + 1 < j + 1 && i + 1 < dlen
                    ==> !(#[trigger] sub[i] == '.' && sub[i + 1] == '.'),
    {
        let c = v[start + j];
        proof {
            assert(sub[j as int] == v@[start + j]);
        }
        let is_label = ('a' <= c && c <= 'z') || ('A' <= c && c <= 'Z')
            || ('0' <= c && c <= '9') || c == '-';
        if !(is_label || c == '.') {
            chars_ok = false;
        }
        if j + 1 < dlen {
            proof {
                assert(sub[j + 1 as int] == v@[start + j + 1]);
            }
            if c == '.' && v[start + j + 1] == '.' {
                no_double_dot = false;
            }
        }
    }
    proof {
        assert(sub[0] == v@[start as int]);
        assert(sub[sub.len() - 1] == v@[n - 1]);
    }
    let edges_ok = v[start] != '.' && v[n - 1] != '.';
    chars_ok && no_double_dot && edges_ok
}

/// A subscriber's address, only constructible through `parse`, so every value
/// of this type satisfies `valid_email`.
#[derive(Debug)]
pub struct SubscriberEmail(String);

impl View for SubscriberEmail {
    type V = Seq<char>;

    closed spec fn view(&self) -> Seq<char> {
        self.0@
    }
}

impl SubscriberEmail {
    /// Every value of this type carries a valid address.
    #[verifier::type_invariant]
    pub open spec fn type_inv(self) -> bool {
        valid_email(self.view())
    }

    /// The single validation point: accepts exactly the strings that
    /// `valid_email` allows and hands the text back unchanged.
    pub fn parse(s: String) -> (r: Result<SubscriberEmail, String>)
        ensures
            match r {
                Ok(email) => email@ == s@ && valid_email(s@),
                Err(m) => !valid_email(s@) && m@ == s@ + " is not a valid subscriber email."@,
            },
    {
        let v = to_chars(s.as_str());
        let ok = match find_unique_at_sign(&v) {
            Some(at) => {
                let local_ok = check_local_part(&v, at);
                let domain_ok = check_domain_part(&v, at);
                proof {
                    if local_ok && domain_ok {
                        assert(email_parts_at(s@, at as int));
                    } else {
                        assert forall|i: int| !email_parts_at(s@, i) by {
                            if email_parts_at(s@, i) && i != at as int {
                                assert(s@[at as int] != '@');
                            }
                        }
                    }
                }
                local_ok && domain_ok
            }
            None => {
                proof {
                    assert forall|i: int| !email_parts_at(s@, i) by {}
                }
                false
            }
        };
        if ok {
            Ok(SubscriberEmail(s))
        } else {
            let mut message = s;
            message.push_str(" is not a valid subscriber email.");
            Err(message)
        }
    }

    /// Read-only access to the validated text.
    pub fn as_ref(&self) -> (r: &str)
        ensures
            r@ == self@,
    {
        self.0.as_str()
    }
}

/// Rejection rules spelled out: an address with no `@` is invalid, and one
/// whose domain part is missing (the `@` is its last character) is invalid.
pub proof fn lemma_email_rejection(s: Seq<char>)
    ensures
        (forall|i: int| 0 <= i < s.len() ==> #[trigger] s[i] != '@') ==> !valid_email(s),
        (s.len() > 0 && s[s.len() - 1] == '@') ==> !valid_email(s),
{
    if forall|i: int| 0 <= i < s.len() ==> #[trigger] s[i] != '@' {
        assert forall|i: int| !email_parts_at(s, i) by {
            if 0 <= i < s.len() {
                assert(s[i] != '@');
            }
        }
    }
    if s.len() > 0 && s[s.len() - 1] == '@' {
        assert forall|i: int| !email_parts_at(s, i) by {
            if email_parts_at(s, i) {
                if i != s.len() - 1 {
                    assert(s[s.len() - 1] != '@');
                } else {
                    assert(s.subrange(i + 1, s.len() as int).len() == 0);
                }
            }
        }
    }
}

} // verus!
