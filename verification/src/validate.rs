//! Validation of operator-supplied credentials: the PIN, the user name, the
//! e-mail address, the domain name, and the report signature. Each validator
//! states exactly which inputs it accepts and returns the input unchanged, so
//! commands downstream see only values of the documented shape.

use vstd::prelude::*;

verus! {

/// Whether the character sequence holds `c` anywhere.
pub open spec fn contains_char(s: Seq<char>, c: char) -> bool {
    exists|i: int| 0 <= i < s.len() && s[i] == c
}

/// A decimal digit.
pub open spec fn is_ascii_digit(c: char) -> bool {
    '0' <= c && c <= '9'
}

/// Every position holds a digit.
pub open spec fn spec_all_digits(s: Seq<char>) -> bool {
    forall|i: int| 0 <= i < s.len() ==> is_ascii_digit(s[i])
}

/// Accepts a PIN: digits only, the empty string included. The accepted
/// input is returned unchanged.
pub fn parse_digits_only(s: &str) -> (r: Result<String, String>)
    ensures
        r is Ok <==> spec_all_digits(s@),
        r matches Ok(v) ==> v@ == s@,
        r matches Err(m) ==> m@ == "PIN must contain digits only"@,
{
    let n = s.unicode_len();
    let mut i: usize = 0;
    while i < n
        invariant
            n == s@.len(),
            i <= n,
            forall|j: int| 0 <= j < i ==> is_ascii_digit(s@[j]),
        decreases n - i,
    {
        let c = s.get_char(i);
        if !(c >= '0' && c <= '9') {
            return Err(String::from_str("PIN must contain digits only"));
        }
        i = i + 1;
    }
    Ok(s.to_owned())
}

/// Finds whether any character equals `c`.
fn str_contains_char(s: &str, c: char) -> (r: bool)
    ensures
        r == contains_char(s@, c),
{
    let n = s.unicode_len();
    let mut i: usize = 0;
    while i < n
        invariant
            n == s@.len(),
            i <= n,
            forall|j: int| 0 <= j < i ==> s@[j] != c,
        decreases n - i,
    {
        if s.get_char(i) == c {
            return true;
        }
        i = i + 1;
    }
    false
}

/// Accepts a user name: anything but an e-mail address, so no `@` anywhere;
/// the empty string is allowed.
pub fn parse_username(s: &str) -> (r: Result<String, String>)
    ensures
        r is Ok <==> !contains_char(s@, '@'),
        r matches Ok(v) ==> v@ == s@,
        r matches Err(m) ==> m@ == "Invalid username format"@,
{
    if str_contains_char(s, '@') {
        Err(String::from_str("Invalid username format"))
    } else {
        Ok(s.to_owned())
    }
}

/// Accepts an e-mail address: it must hold both `@` and a dot; the empty
/// string is allowed through for optional fields.
pub fn parse_email(s: &str) -> (r: Result<String, String>)
    ensures
        r is Ok <==> (s@.len() == 0 || (contains_char(s@, '@') && contains_char(s@, '.'))),
        r matches Ok(v) ==> v@ == s@,
        r matches Err(m) ==> m@ == "Invalid email format"@,
{
    if s.unicode_len() == 0 {
        return Ok(s.to_owned());
    }
    if !str_contains_char(s, '@') || !str_contains_char(s, '.') {
        Err(String::from_str("Invalid email format"))
    } else {
        Ok(s.to_owned())
    }
}

// ---------------------------------------------------------------------------
// Domain names: one or more labels, each beginning and ending alphanumeric
// with hyphens allowed between, at most 63 characters, separated by dots,
// closed by an alphabetic top-level label of at least two characters.
// ---------------------------------------------------------------------------

/// An ASCII letter.
pub open spec fn is_alpha(c: char) -> bool {
    ('a' <= c && c <= 'z') || ('A' <= c && c <= 'Z')
}

/// An ASCII letter or digit.
pub open spec fn is_alnum(c: char) -> bool {
    is_alpha(c) || is_ascii_digit(c)
}

/// A character allowed inside a label.
pub open spec fn is_label_char(c: char) -> bool {
    is_alnum(c) || c == '-'
}

/// A domain label: one to sixty-three characters, alphanumeric at both
/// ends, hyphens allowed in between.
pub open spec fn is_label(l: Seq<char>) -> bool {
    &&& 1 <= l.len() <= 63
    &&& is_alnum(l[0])
    &&& is_alnum(l[l.len() - 1])
    &&& forall|i: int| 0 < i < l.len() - 1 ==> is_label_char(l[i])
}

/// A top-level label: at least two characters, letters only.
pub open spec fn is_tld(t: Seq<char>) -> bool {
    t.len() >= 2 && (forall|i: int| 0 <= i < t.len() ==> is_alpha(t[i]))
}

/// The dot-separated parts of a string, in order: always one part more than
/// there are dots, with empty parts where dots touch.
pub open spec fn split_dots(s: Seq<char>) -> Seq<Seq<char>>
    decreases s.len(),
{
    if s.len() == 0 {
        seq![Seq::empty()]
    } else if s[0] == '.' {
        seq![Seq::empty()] + split_dots(s.drop_first())
    } else {
        let r = split_dots(s.drop_first());
        seq![seq![s[0]] + r[0]] + r.drop_first()
    }
}

/// There is always at least one part.
pub proof fn lemma_split_dots_len(s: Seq<char>)
    ensures
        split_dots(s).len() >= 1,
    decreases s.len(),
{
    if s.len() > 0 {
        lemma_split_dots_len(s.drop_first());
    }
}

/// A dot-free string is one part: itself.
pub proof fn lemma_split_dots_nodot(s: Seq<char>)
    requires
        forall|i: int| 0 <= i < s.len() ==> s[i] != '.',
    ensures
        split_dots(s) == seq![s],
    decreases s.len(),
{
    if s.len() == 0 {
        assert(s =~= Seq::<char>::empty());
        assert(split_dots(s) =~= seq![s]);
    } else {
        assert(forall|i: int| 0 <= i < s.drop_first().len() ==> s.drop_first()[i] != '.');
        lemma_split_dots_nodot(s.drop_first());
        let r = split_dots(s.drop_first());
        assert(r[0] == s.drop_first());
        assert(seq![s[0]] + s.drop_first() =~= s);
        assert(r.drop_first() =~= Seq::<Seq<char>>::empty());
        assert(split_dots(s) =~= seq![s]);
    }
}

/// Splitting at the first dot peels the first part off.
pub proof fn lemma_split_dots_first(s: Seq<char>, k: int)
    requires
        0 <= k < s.len(),
        s[k] == '.',
        forall|j: int| 0 <= j < k ==> s[j] != '.',
    ensures
        split_dots(s) == seq![s.subrange(0, k)] + split_dots(s.subrange(k + 1, s.len() as int)),
    decreases s.len(),
{
    if k == 0 {
        assert(s.subrange(0, 0) =~= Seq::<char>::empty());
        assert(s.subrange(1, s.len() as int) =~= s.drop_first());
        assert(split_dots(s) =~= seq![s.subrange(0, 0)] + split_dots(
            s.subrange(1, s.len() as int),
        ));
    } else {
        let d = s.drop_first();
        assert(d[k - 1] == '.');
        assert(forall|j: int| 0 <= j < k - 1 ==> d[j] != '.');
        lemma_split_dots_first(d, k - 1);
        let r = split_dots(d);
        assert(r[0] == d.subrange(0, k - 1));
        assert(seq![s[0]] + d.subrange(0, k - 1) =~= s.subrange(0, k));
        assert(r.drop_first() =~= split_dots(d.subrange(k - 1 + 1, d.len() as int)));
        assert(d.subrange(k, d.len() as int) =~= s.subrange(k + 1, s.len() as int));
        assert(split_dots(s) =~= seq![s.subrange(0, k)] + split_dots(
            s.subrange(k + 1, s.len() as int),
        ));
    }
}

/// A fully qualified domain name: at least one label, then the top-level
/// label, dot-separated.
pub open spec fn spec_is_fqdn(s: Seq<char>) -> bool {
    let parts = split_dots(s);
    &&& parts.len() >= 2
    &&& (forall|i: int| 0 <= i < parts.len() - 1 ==> is_label(parts[i]))
    &&& is_tld(parts.last())
}

/// Checks one label.
fn check_label(l: &str) -> (r: bool)
    ensures
        r == is_label(l@),
{
    let m = l.unicode_len();
    if m < 1 || m > 63 {
        return false;
    }
    let first = l.get_char(0);
    if !((first >= 'a' && first <= 'z') || (first >= 'A' && first <= 'Z') || (first >= '0' && first
        <= '9')) {
        return false;
    }
    let last = l.get_char(m - 1);
    if !((last >= 'a' && last <= 'z') || (last >= 'A' && last <= 'Z') || (last >= '0' && last
        <= '9')) {
        return false;
    }
    let mut i: usize = 1;
    while i < m - 1
        invariant
            1 <= m == l@.len(),
            1 <= i <= m,
            forall|j: int| 0 < j < i ==> is_label_char(l@[j]),
        decreases m - i,
    {
        let c = l.get_char(i);
        if !((c >= 'a' && c <= 'z') || (c >= 'A' && c <= 'Z') || (c >= '0' && c <= '9') || c == '-')
         {
            return false;
        }
        i = i + 1;
    }
    true
}

/// Checks the top-level label.
fn check_tld(t: &str) -> (r: bool)
    ensures
        r == is_tld(t@),
{
    let m = t.unicode_len();
    if m < 2 {
        return false;
    }
    let mut i: usize = 0;
    while i < m
        invariant
            m == t@.len(),
            i <= m,
            forall|j: int| 0 <= j < i ==> is_alpha(t@[j]),
        decreases m - i,
    {
        let c = t.get_char(i);
        if !((c >= 'a' && c <= 'z') || (c >= 'A' && c <= 'Z')) {
            return false;
        }
        i = i + 1;
    }
    true
}

/// Accepts a domain name: the empty string (for optional fields), or a
/// fully qualified domain name. The accepted input is returned unchanged.
pub fn parse_fqdn(s: &str) -> (r: Result<String, String>)
    ensures
        r is Ok <==> (s@.len() == 0 || spec_is_fqdn(s@)),
        r matches Ok(v) ==> v@ == s@,
        r matches Err(m) ==> m@ == "Invalid FQDN"@,
{
    let n = s.unicode_len();
    if n == 0 {
        return Ok(s.to_owned());
    }
    let mut pos: usize = 0;
    let mut labels: usize = 0;
    let ghost mut peeled = Seq::<Seq<char>>::empty();
    proof {
        assert(s@.skip(0) =~= s@);
        assert(peeled + split_dots(s@.skip(0)) =~= split_dots(s@));
    }
    loop
        invariant
            0 < n == s@.len(),
            pos <= n,
            labels <= pos,
            labels == peeled.len(),
            split_dots(s@) == peeled + split_dots(s@.skip(pos as int)),
            forall|j: int| 0 <= j < peeled.len() ==> is_label(peeled[j]),
        decreases n - pos,
    {
        match crate::textenc::find_char(s, pos, '.') {
            Some(k) => {
                let lab = s.substring_char(pos, k);
                proof {
                    let suffix = s@.skip(pos as int);
                    let krel = k - pos;
                    assert(suffix[krel] == '.');
                    assert(forall|j: int| 0 <= j < krel ==> suffix[j] != '.');
                    lemma_split_dots_first(suffix, krel);
                    assert(suffix.subrange(0, krel) =~= lab@);
                    assert(suffix.subrange(krel + 1, suffix.len() as int) =~= s@.skip(k + 1));
                    lemma_split_dots_len(s@.skip(k + 1));
                }
                if !check_label(lab) {
                    proof {
                        let parts = split_dots(s@);
                        assert(parts[peeled.len() as int] == lab@);
                        assert(parts.len() >= peeled.len() + 2);
                    }
                    return Err(String::from_str("Invalid FQDN"));
                }
                proof {
                    peeled = peeled.push(lab@);
                    assert(peeled + split_dots(s@.skip(k + 1)) =~= split_dots(s@));
                }
                pos = k + 1;
                labels = labels + 1;
            },
            None => {
                let tld = s.substring_char(pos, n);
                proof {
                    let suffix = s@.skip(pos as int);
                    assert(forall|j: int| 0 <= j < suffix.len() ==> suffix[j] != '.');
                    lemma_split_dots_nodot(suffix);
                    assert(suffix =~= tld@);
                    assert(split_dots(s@) =~= peeled.push(tld@));
                    assert(split_dots(s@).last() == tld@);
                }
                if labels == 0 {
                    proof {
                        assert(split_dots(s@).len() == 1);
                    }
                    return Err(String::from_str("Invalid FQDN"));
                }
                if check_tld(tld) {
                    proof {
                        let parts = split_dots(s@);
                        assert(parts.len() == peeled.len() + 1);
                        assert(forall|i: int|
                            0 <= i < parts.len() - 1 ==> parts[i] == peeled[i] && is_label(
                                parts[i],
                            ));
                    }
                    return Ok(s.to_owned());
                } else {
                    return Err(String::from_str("Invalid FQDN"));
                }
            },
        }
    }
}

// ---------------------------------------------------------------------------
// Report signatures: base64 text decoding to exactly 32 bytes.
// ---------------------------------------------------------------------------

/// What base64's standard padded alphabet decodes a string to: `Some` of the
/// bytes for well-formed base64, `None` otherwise. A function of the input
/// characters alone.
pub uninterp spec fn base64_standard_decoding(s: Seq<char>) -> Option<Seq<u8>>;

/// Relies on base64's `Engine::decode` with the standard padded engine
/// (`base64::engine::general_purpose::STANDARD`): the decoding is
/// deterministic in the input characters, yielding the decoded bytes or an
/// error on malformed input.
#[verifier::external_body]
fn base64_decode(s: &str) -> (r: Option<Vec<u8>>)
    ensures
        match r {
            Some(v) => base64_standard_decoding(s@) == Some(v@),
            None => base64_standard_decoding(s@) is None,
        },
{
    base64::Engine::decode(&base64::engine::general_purpose::STANDARD, s).ok()
}

/// Accepts a report signature: text that base64-decodes to exactly 32 bytes,
/// returned unchanged in its text form.
pub fn parse_signature(s: &str) -> (r: Result<String, String>)
    ensures
        r is Ok <==> (base64_standard_decoding(s@) matches Some(b) && b.len() == 32),
        r matches Ok(v) ==> v@ == s@,
        r matches Err(m) ==> m@ == "Invalid signature format"@,
{
    match base64_decode(s) {
        Some(bytes) => {
            if bytes.len() == 32 {
                Ok(s.to_owned())
            } else {
                Err(String::from_str("Invalid signature format"))
            }
        },
        None => Err(String::from_str("Invalid signature format")),
    }
}

} // verus!
