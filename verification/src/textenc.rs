//! Primitives of the store's text format: a record is a sequence of lines,
//! one value per line. A string value is escaped so that it fits on one line
//! whatever characters it holds; a number is written in decimal. Every
//! encoding function here has a parsing counterpart and a proved round trip.

use vstd::prelude::*;

verus! {

/// Relies on `String::push`: appends exactly the given character.
#[verifier::external_body]
pub(crate) fn push_char(s: &mut String, c: char)
    ensures
        final(s)@ == old(s)@.push(c),
{
    s.push(c);
}

// ---------------------------------------------------------------------------
// Escaping: backslash and newline are written as two-character sequences, so
// an escaped string never contains a raw newline and lines can delimit values.
// ---------------------------------------------------------------------------

/// The escape sequence standing for one character.
pub open spec fn esc_char(c: char) -> Seq<char> {
    if c == '\\' {
        seq!['\\', '\\']
    } else if c == '\n' {
        seq!['\\', 'n']
    } else {
        seq![c]
    }
}

/// A string with its backslashes and newlines escaped.
pub open spec fn escape(s: Seq<char>) -> Seq<char>
    decreases s.len(),
{
    if s.len() == 0 {
        Seq::empty()
    } else {
        esc_char(s[0]) + escape(s.drop_first())
    }
}

/// The inverse reading: `None` on a dangling backslash or an unknown escape.
pub open spec fn unescape(s: Seq<char>) -> Option<Seq<char>>
    decreases s.len(),
{
    if s.len() == 0 {
        Some(Seq::empty())
    } else if s[0] == '\\' {
        if s.len() >= 2 && (s[1] == '\\' || s[1] == 'n') {
            let c: char = if s[1] == 'n' {
                '\n'
            } else {
                '\\'
            };
            match unescape(s.skip(2)) {
                Some(t) => Some(seq![c] + t),
                None => None,
            }
        } else {
            None
        }
    } else {
        match unescape(s.drop_first()) {
            Some(t) => Some(seq![s[0]] + t),
            None => None,
        }
    }
}

/// Escaping distributes over concatenation.
pub proof fn lemma_escape_concat(a: Seq<char>, b: Seq<char>)
    ensures
        escape(a + b) == escape(a) + escape(b),
    decreases a.len(),
{
    if a.len() == 0 {
        assert(a + b =~= b);
        assert(escape(a) + escape(b) =~= escape(b));
    } else {
        assert((a + b).drop_first() =~= a.drop_first() + b);
        lemma_escape_concat(a.drop_first(), b);
        assert(escape(a + b) =~= esc_char(a[0]) + (escape(a.drop_first()) + escape(b)));
        assert(esc_char(a[0]) + (escape(a.drop_first()) + escape(b)) =~= (esc_char(a[0])
            + escape(a.drop_first())) + escape(b));
    }
}

/// An escaped string holds no raw newline.
pub proof fn lemma_escape_no_newline(s: Seq<char>)
    ensures
        forall|i: int| 0 <= i < escape(s).len() ==> escape(s)[i] != '\n',
    decreases s.len(),
{
    if s.len() > 0 {
        lemma_escape_no_newline(s.drop_first());
        assert forall|i: int| 0 <= i < escape(s).len() implies escape(s)[i] != '\n' by {
            let head = esc_char(s[0]);
            if i < head.len() {
                assert(escape(s)[i] == head[i]);
            } else {
                assert(escape(s)[i] == escape(s.drop_first())[i - head.len()]);
            }
        }
    }
}

/// Escaping one character yields its escape sequence.
pub proof fn lemma_escape_singleton(c: char)
    ensures
        escape(seq![c]) == esc_char(c),
{
    assert(seq![c].drop_first() =~= Seq::<char>::empty());
    assert(escape(Seq::<char>::empty()) =~= Seq::<char>::empty());
    assert(esc_char(c) + Seq::<char>::empty() =~= esc_char(c));
}

/// Reading one two-character escape sequence.
pub proof fn lemma_unescape_unit(c2: char)
    requires
        c2 == '\\' || c2 == 'n',
    ensures
        unescape(seq!['\\', c2]) == Some(
            seq![
                if c2 == 'n' {
                    '\n'
                } else {
                    '\\'
                },
            ],
        ),
{
    let unit = seq!['\\', c2];
    let c: char = if c2 == 'n' {
        '\n'
    } else {
        '\\'
    };
    assert(unit.skip(2) =~= Seq::<char>::empty());
    assert(unescape(unit.skip(2)) == Some(Seq::<char>::empty()));
    assert(seq![c] + Seq::<char>::empty() =~= seq![c]);
}

/// Reading one unescaped character.
pub proof fn lemma_unescape_single(c: char)
    requires
        c != '\\',
    ensures
        unescape(seq![c]) == Some(seq![c]),
{
    let unit = seq![c];
    assert(unit.drop_first() =~= Seq::<char>::empty());
    assert(unescape(unit.drop_first()) == Some(Seq::<char>::empty()));
    assert(seq![c] + Seq::<char>::empty() =~= seq![c]);
}

/// Unescaping a valid prefix continues independently on the remainder.
pub proof fn lemma_unescape_concat(a: Seq<char>, u: Seq<char>, b: Seq<char>)
    requires
        unescape(a) == Some(u),
    ensures
        unescape(a + b) == match unescape(b) {
            Some(v) => Some(u + v),
            None => None::<Seq<char>>,
        },
    decreases a.len(),
{
    if a.len() == 0 {
        assert(a + b =~= b);
        assert(u =~= Seq::<char>::empty());
        if unescape(b) is Some {
            assert(u + unescape(b)->Some_0 =~= unescape(b)->Some_0);
        }
    } else if a[0] == '\\' {
        let c: char = if a[1] == 'n' {
            '\n'
        } else {
            '\\'
        };
        let t = unescape(a.skip(2))->Some_0;
        assert(u == seq![c] + t);
        assert((a + b).skip(2) =~= a.skip(2) + b);
        lemma_unescape_concat(a.skip(2), t, b);
        if unescape(b) is Some {
            let v = unescape(b)->Some_0;
            assert(seq![c] + (t + v) =~= (seq![c] + t) + v);
        }
    } else {
        let t = unescape(a.drop_first())->Some_0;
        assert(u == seq![a[0]] + t);
        assert((a + b).drop_first() =~= a.drop_first() + b);
        lemma_unescape_concat(a.drop_first(), t, b);
        if unescape(b) is Some {
            let v = unescape(b)->Some_0;
            assert(seq![a[0]] + (t + v) =~= (seq![a[0]] + t) + v);
        }
    }
}

/// Unescaping undoes escaping: the codec's character-level round trip.
pub proof fn lemma_unescape_escape(s: Seq<char>)
    ensures
        unescape(escape(s)) == Some(s),
    decreases s.len(),
{
    if s.len() == 0 {
    } else {
        let rest = s.drop_first();
        lemma_unescape_escape(rest);
        let e = escape(s);
        assert(e =~= esc_char(s[0]) + escape(rest));
        if s[0] == '\\' {
            assert(e[0] == '\\' && e[1] == '\\');
            assert(e.skip(2) =~= escape(rest));
            assert(seq!['\\'] + rest =~= s);
        } else if s[0] == '\n' {
            assert(e[0] == '\\' && e[1] == 'n');
            assert(e.skip(2) =~= escape(rest));
            assert(seq!['\n'] + rest =~= s);
        } else {
            assert(e[0] == s[0]);
            assert(e.drop_first() =~= escape(rest));
            assert(seq![s[0]] + rest =~= s);
        }
    }
}

// ---------------------------------------------------------------------------
// Splitting at a delimiter: the spec-level reading of "one line of the text".
// ---------------------------------------------------------------------------

/// Splits off everything before the first occurrence of `delim`, and the
/// remainder after it; `None` when the delimiter never occurs.
pub open spec fn take_until(delim: char, s: Seq<char>) -> Option<(Seq<char>, Seq<char>)>
    decreases s.len(),
{
    if s.len() == 0 {
        None
    } else if s[0] == delim {
        Some((Seq::empty(), s.drop_first()))
    } else {
        match take_until(delim, s.drop_first()) {
            Some(p) => Some((seq![s[0]] + p.0, p.1)),
            None => None,
        }
    }
}

/// What a successful split means, position by position.
pub proof fn lemma_take_until_characterize(delim: char, s: Seq<char>)
    ensures
        take_until(delim, s) is Some <==> exists|j: int| 0 <= j < s.len() && s[j] == delim,
        take_until(delim, s) matches Some(p) ==> {
            let k = p.0.len() as int;
            &&& k < s.len()
            &&& s[k] == delim
            &&& (forall|j: int| 0 <= j < k ==> s[j] != delim)
            &&& p.0 == s.subrange(0, k)
            &&& p.1 == s.subrange(k + 1, s.len() as int)
        },
    decreases s.len(),
{
    if s.len() == 0 {
    } else if s[0] == delim {
        let p = take_until(delim, s)->Some_0;
        assert(p.0 =~= s.subrange(0, 0));
        assert(p.1 =~= s.subrange(1, s.len() as int));
    } else {
        lemma_take_until_characterize(delim, s.drop_first());
        if take_until(delim, s.drop_first()) is Some {
            let q = take_until(delim, s.drop_first())->Some_0;
            let p = take_until(delim, s)->Some_0;
            let k = p.0.len() as int;
            assert(q.0 == s.drop_first().subrange(0, k - 1));
            assert(p.0 =~= s.subrange(0, k));
            assert(q.1 == s.drop_first().subrange(k, s.len() - 1));
            assert(p.1 =~= s.subrange(k + 1, s.len() as int));
            assert(s[k] == s.drop_first()[k - 1]);
            assert forall|j: int| 0 <= j < k implies s[j] != delim by {
                if j > 0 {
                    assert(s[j] == s.drop_first()[j - 1]);
                }
            }
        } else {
            if exists|j: int| 0 <= j < s.len() && s[j] == delim {
                let j = choose|j: int| 0 <= j < s.len() && s[j] == delim;
                assert(s.drop_first()[j - 1] == delim);
            }
        }
    }
}

// ---------------------------------------------------------------------------
// Decimal numbers.
// ---------------------------------------------------------------------------

/// A decimal digit.
pub open spec fn is_digit_char(c: char) -> bool {
    '0' <= c && c <= '9'
}

/// The character standing for one digit value.
pub open spec fn char_of_digit(d: nat) -> char {
    if d == 0 {
        '0'
    } else if d == 1 {
        '1'
    } else if d == 2 {
        '2'
    } else if d == 3 {
        '3'
    } else if d == 4 {
        '4'
    } else if d == 5 {
        '5'
    } else if d == 6 {
        '6'
    } else if d == 7 {
        '7'
    } else if d == 8 {
        '8'
    } else {
        '9'
    }
}

/// The digit value of a digit character.
pub open spec fn digit_of_char(c: char) -> nat {
    (c as int - '0' as int) as nat
}

/// The usual decimal writing of a number, most significant digit first.
pub open spec fn dec_of(n: nat) -> Seq<char>
    decreases n,
{
    if n < 10 {
        seq![char_of_digit(n)]
    } else {
        dec_of(n / 10) + seq![char_of_digit(n % 10)]
    }
}

/// Every position holds a digit.
pub open spec fn all_digits(s: Seq<char>) -> bool {
    forall|i: int| 0 <= i < s.len() ==> is_digit_char(s[i])
}

/// The value accumulated by reading digits left to right onto `acc`.
pub open spec fn parse_val(s: Seq<char>, acc: nat) -> nat
    decreases s.len(),
{
    if s.len() == 0 {
        acc
    } else {
        parse_val(s.drop_first(), acc * 10 + digit_of_char(s[0]))
    }
}

/// The number a non-empty all-digit string denotes; `None` otherwise.
pub open spec fn parse_dec(s: Seq<char>) -> Option<nat> {
    if s.len() > 0 && all_digits(s) {
        Some(parse_val(s, 0))
    } else {
        None
    }
}

/// Reading digits left to right splits over concatenation.
pub proof fn lemma_parse_val_concat(a: Seq<char>, b: Seq<char>, acc: nat)
    ensures
        parse_val(a + b, acc) == parse_val(b, parse_val(a, acc)),
    decreases a.len(),
{
    if a.len() == 0 {
        assert(a + b =~= b);
    } else {
        assert((a + b).drop_first() =~= a.drop_first() + b);
        lemma_parse_val_concat(a.drop_first(), b, acc * 10 + digit_of_char(a[0]));
    }
}

/// A decimal writing is non-empty and all digits.
pub proof fn lemma_dec_of_digits(n: nat)
    ensures
        dec_of(n).len() >= 1,
        all_digits(dec_of(n)),
    decreases n,
{
    if n < 10 {
    } else {
        lemma_dec_of_digits(n / 10);
        assert forall|i: int| 0 <= i < dec_of(n).len() implies is_digit_char(dec_of(n)[i]) by {
            if i < dec_of(n / 10).len() {
                assert(dec_of(n)[i] == dec_of(n / 10)[i]);
            } else {
                assert(dec_of(n)[i] == char_of_digit(n % 10));
            }
        }
    }
}

/// Parsing undoes decimal writing: the codec's numeric round trip.
pub proof fn lemma_parse_dec_of(n: nat)
    ensures
        parse_dec(dec_of(n)) == Some(n),
    decreases n,
{
    lemma_dec_of_digits(n);
    if n < 10 {
        assert(dec_of(n).drop_first() =~= Seq::<char>::empty());
        assert(digit_of_char(char_of_digit(n)) == n);
        assert(parse_val(dec_of(n), 0) == parse_val(dec_of(n).drop_first(), 0 * 10 + digit_of_char(
            dec_of(n)[0],
        )));
    } else {
        lemma_parse_dec_of(n / 10);
        lemma_parse_val_concat(dec_of(n / 10), seq![char_of_digit(n % 10)], 0);
        let d = seq![char_of_digit(n % 10)];
        assert(parse_val(dec_of(n), 0) == parse_val(d, parse_val(dec_of(n / 10), 0)));
        assert(parse_val(dec_of(n / 10), 0) == n / 10);
        let acc2 = (n / 10) * 10 + digit_of_char(d[0]);
        assert(parse_val(d, n / 10) == parse_val(d.drop_first(), acc2));
        assert(d.drop_first() =~= Seq::<char>::empty());
        assert(parse_val(d.drop_first(), acc2) == acc2);
        assert(digit_of_char(char_of_digit(n % 10)) == n % 10);
        vstd::arithmetic::div_mod::lemma_fundamental_div_mod(n as int, 10);
    }
}

/// The accumulated value never falls below what was already accumulated.
pub proof fn lemma_parse_val_ge_acc(s: Seq<char>, acc: nat)
    ensures
        parse_val(s, acc) >= acc,
    decreases s.len(),
{
    if s.len() > 0 {
        let acc2 = acc * 10 + digit_of_char(s[0]);
        assert(acc * 10 >= acc);
        lemma_parse_val_ge_acc(s.drop_first(), acc2);
    }
}

/// Splitting recovers a delimiter-free prefix exactly.
pub proof fn lemma_take_until_roundtrip(delim: char, line: Seq<char>, rest: Seq<char>)
    requires
        forall|i: int| 0 <= i < line.len() ==> line[i] != delim,
    ensures
        take_until(delim, line + seq![delim] + rest) == Some((line, rest)),
{
    let s = line + seq![delim] + rest;
    lemma_take_until_characterize(delim, s);
    assert(s[line.len() as int] == delim);
    assert forall|j: int| 0 <= j < line.len() implies s[j] != delim by {
        assert(s[j] == line[j]);
    }
    let p = take_until(delim, s)->Some_0;
    let k = p.0.len() as int;
    assert forall|j: int| 0 <= j < k implies s[j] != delim by {}
    if k < line.len() {
        assert(s[k] == line[k]);
        assert(false);
    }
    if k > line.len() {
        assert(s[line.len() as int] != delim);
        assert(false);
    }
    assert(p.0 =~= line);
    assert(p.1 =~= rest);
}

// ---------------------------------------------------------------------------
// Lines: one value per line. A string value is escaped; a number is decimal.
// ---------------------------------------------------------------------------

/// One line of the store text holding a string value.
pub open spec fn text_line(v: Seq<char>) -> Seq<char> {
    escape(v) + seq!['\n']
}

/// Reads one string line off the front of the text.
pub open spec fn parse_text_line(s: Seq<char>) -> Option<(Seq<char>, Seq<char>)> {
    match take_until('\n', s) {
        Some(p) => match unescape(p.0) {
            Some(v) => Some((v, p.1)),
            None => None,
        },
        None => None,
    }
}

/// One line of the store text holding a number.
pub open spec fn dec_line(n: nat) -> Seq<char> {
    dec_of(n) + seq!['\n']
}

/// Reads one number line off the front of the text.
pub open spec fn parse_dec_line(s: Seq<char>) -> Option<(nat, Seq<char>)> {
    match take_until('\n', s) {
        Some(p) => match parse_dec(p.0) {
            Some(v) => Some((v, p.1)),
            None => None,
        },
        None => None,
    }
}

/// Reading a string line recovers the written value and remainder.
pub proof fn lemma_text_line_roundtrip(v: Seq<char>, rest: Seq<char>)
    ensures
        parse_text_line(text_line(v) + rest) == Some((v, rest)),
{
    lemma_escape_no_newline(v);
    lemma_take_until_roundtrip('\n', escape(v), rest);
    assert(text_line(v) + rest =~= escape(v) + seq!['\n'] + rest);
    lemma_unescape_escape(v);
}

/// Reading a number line recovers the written value and remainder.
pub proof fn lemma_dec_line_roundtrip(n: nat, rest: Seq<char>)
    ensures
        parse_dec_line(dec_line(n) + rest) == Some((n, rest)),
{
    lemma_dec_of_digits(n);
    assert(forall|i: int| 0 <= i < dec_of(n).len() ==> dec_of(n)[i] != '\n');
    lemma_take_until_roundtrip('\n', dec_of(n), rest);
    assert(dec_line(n) + rest =~= dec_of(n) + seq!['\n'] + rest);
    lemma_parse_dec_of(n);
}

// ---------------------------------------------------------------------------
// Executable encoding.
// ---------------------------------------------------------------------------

/// The character for one digit value.
fn digit_char(d: u64) -> (c: char)
    requires
        d < 10,
    ensures
        c == char_of_digit(d as nat),
{
    if d == 0 {
        '0'
    } else if d == 1 {
        '1'
    } else if d == 2 {
        '2'
    } else if d == 3 {
        '3'
    } else if d == 4 {
        '4'
    } else if d == 5 {
        '5'
    } else if d == 6 {
        '6'
    } else if d == 7 {
        '7'
    } else if d == 8 {
        '8'
    } else {
        '9'
    }
}

/// Appends the decimal writing of `n`.
pub fn append_dec(out: &mut String, n: u64)
    ensures
        final(out)@ == old(out)@ + dec_of(n as nat),
    decreases n,
{
    if n >= 10 {
        append_dec(out, n / 10);
        let d = digit_char(n % 10);
        push_char(out, d);
        proof {
            assert(out@ =~= old(out)@ + dec_of(n as nat));
        }
    } else {
        let d = digit_char(n);
        push_char(out, d);
        proof {
            assert(out@ =~= old(out)@ + dec_of(n as nat));
        }
    }
}

/// Appends one number line.
pub fn append_dec_line(out: &mut String, n: u64)
    ensures
        final(out)@ == old(out)@ + dec_line(n as nat),
{
    append_dec(out, n);
    push_char(out, '\n');
    proof {
        assert(out@ =~= old(out)@ + dec_line(n as nat));
    }
}

/// Appends one string line, escaping the value.
pub fn append_text_line(out: &mut String, v: &str)
    ensures
        final(out)@ == old(out)@ + text_line(v@),
{
    let ghost out0 = old(out)@;
    let n = v.unicode_len();
    let mut i: usize = 0;
    while i < n
        invariant
            n == v@.len(),
            i <= n,
            out@ == out0 + escape(v@.subrange(0, i as int)),
        decreases n - i,
    {
        let c = v.get_char(i);
        proof {
            assert(v@.subrange(0, i as int + 1) =~= v@.subrange(0, i as int) + seq![v@[i as int]]);
            lemma_escape_concat(v@.subrange(0, i as int), seq![v@[i as int]]);
            lemma_escape_singleton(v@[i as int]);
        }
        if c == '\\' {
            push_char(out, '\\');
            push_char(out, '\\');
        } else if c == '\n' {
            push_char(out, '\\');
            push_char(out, 'n');
        } else {
            push_char(out, c);
        }
        i = i + 1;
        proof {
            assert(out@ =~= out0 + escape(v@.subrange(0, i as int)));
        }
    }
    proof {
        assert(v@.subrange(0, n as int) =~= v@);
    }
    push_char(out, '\n');
    proof {
        assert(out@ =~= out0 + text_line(v@));
    }
}

// ---------------------------------------------------------------------------
// Executable reading.
// ---------------------------------------------------------------------------

/// Position of the first occurrence of `target` at or after `pos`.
pub fn find_char(doc: &str, pos: usize, target: char) -> (r: Option<usize>)
    requires
        pos <= doc@.len(),
    ensures
        doc@.len() <= usize::MAX,
        match r {
            Some(k) => {
                &&& pos <= k < doc@.len()
                &&& doc@[k as int] == target
                &&& forall|j: int| pos <= j < k ==> doc@[j] != target
            },
            None => forall|j: int| pos <= j < doc@.len() ==> doc@[j] != target,
        },
{
    let n = doc.unicode_len();
    let mut i: usize = pos;
    while i < n
        invariant
            n == doc@.len(),
            pos <= i <= n,
            forall|j: int| pos <= j < i ==> doc@[j] != target,
        decreases n - i,
    {
        if doc.get_char(i) == target {
            return Some(i);
        }
        i = i + 1;
    }
    None
}

/// Position of the first newline at or after `pos`.
fn find_newline(doc: &str, pos: usize) -> (r: Option<usize>)
    requires
        pos <= doc@.len(),
    ensures
        doc@.len() <= usize::MAX,
        match r {
            Some(k) => {
                &&& pos <= k < doc@.len()
                &&& doc@[k as int] == '\n'
                &&& forall|j: int| pos <= j < k ==> doc@[j] != '\n'
            },
            None => forall|j: int| pos <= j < doc@.len() ==> doc@[j] != '\n',
        },
{
    find_char(doc, pos, '\n')
}

/// Unescapes a whole string; `None` exactly where the spec reading fails.
fn unescape_str(s: &str) -> (r: Option<String>)
    ensures
        match r {
            Some(v) => unescape(s@) == Some(v@),
            None => unescape(s@) is None,
        },
{
    let n = s.unicode_len();
    let mut out = String::new();
    let mut i: usize = 0;
    while i < n
        invariant
            n == s@.len(),
            i <= n,
            unescape(s@.subrange(0, i as int)) == Some(out@),
        decreases n - i,
    {
        let ghost prefix = s@.subrange(0, i as int);
        let c = s.get_char(i);
        if c == '\\' {
            if i + 1 >= n {
                proof {
                    let rest = s@.skip(i as int);
                    assert(s@ =~= prefix + rest);
                    assert(rest.len() == 1 && rest[0] == '\\');
                    lemma_unescape_concat(prefix, out@, rest);
                }
                return None;
            }
            let c2 = s.get_char(i + 1);
            proof {
                let rest = s@.skip(i as int);
                assert(s@ =~= prefix + rest);
                assert(rest[0] == '\\' && rest[1] == c2);
            }
            let ghost out_before = out@;
            if c2 == '\\' {
                push_char(&mut out, '\\');
            } else if c2 == 'n' {
                push_char(&mut out, '\n');
            } else {
                proof {
                    let rest = s@.skip(i as int);
                    lemma_unescape_concat(prefix, out@, rest);
                }
                return None;
            }
            proof {
                let unit = seq![s@[i as int], s@[i as int + 1]];
                assert(unit =~= seq!['\\', c2]);
                lemma_unescape_unit(c2);
                lemma_unescape_concat(prefix, out_before, unit);
                assert(s@.subrange(0, i as int + 2) =~= prefix + unit);
                assert(unescape(unit) matches Some(u) && (out_before + u) =~= out@);
            }
            i = i + 2;
        } else {
            let ghost out_before = out@;
            push_char(&mut out, c);
            proof {
                let unit = seq![s@[i as int]];
                assert(unit =~= seq![c]);
                lemma_unescape_single(c);
                lemma_unescape_concat(prefix, out_before, unit);
                assert(s@.subrange(0, i as int + 1) =~= prefix + unit);
                assert(unescape(unit) matches Some(u) && (out_before + u) =~= out@);
            }
            i = i + 1;
        }
    }
    proof {
        assert(s@.subrange(0, n as int) =~= s@);
    }
    Some(out)
}

/// The decimal writing of a number as a fresh string.
pub fn dec_string(n: u64) -> (r: String)
    ensures
        r@ == dec_of(n as nat),
{
    let mut out = String::new();
    append_dec(&mut out, n);
    proof {
        assert(out@ =~= dec_of(n as nat));
    }
    out
}

/// Parses a whole string of digits as a `u64`.
pub fn parse_dec_str(s: &str) -> (r: Option<u64>)
    ensures
        match r {
            Some(v) => parse_dec(s@) == Some(v as nat),
            None => parse_dec(s@) is None || parse_dec(s@)->Some_0 > u64::MAX,
        },
{
    let n = s.unicode_len();
    if n == 0 {
        return None;
    }
    let mut acc: u64 = 0;
    let mut i: usize = 0;
    while i < n
        invariant
            n == s@.len(),
            0 < n,
            i <= n,
            acc as nat == parse_val(s@.subrange(0, i as int), 0),
            forall|j: int| 0 <= j < i ==> is_digit_char(s@[j]),
        decreases n - i,
    {
        let c = s.get_char(i);
        if !(c >= '0' && c <= '9') {
            return None;
        }
        let d: u64 = (c as u32 - '0' as u32) as u64;
        proof {
            let prefix = s@.subrange(0, i as int);
            let unit = seq![s@[i as int]];
            lemma_parse_val_concat(prefix, unit, 0);
            assert(s@.subrange(0, i as int + 1) =~= prefix + unit);
            assert(unit.drop_first() =~= Seq::<char>::empty());
            assert(parse_val(unit, acc as nat) == parse_val(
                unit.drop_first(),
                (acc as nat) * 10 + digit_of_char(unit[0]),
            ));
            assert(parse_val(unit.drop_first(), (acc as nat) * 10 + digit_of_char(unit[0])) == (
            acc as nat) * 10 + digit_of_char(unit[0]));
            assert(d as nat == digit_of_char(s@[i as int]));
        }
        let big = match acc.checked_mul(10) {
            Some(m) => m.checked_add(d),
            None => None,
        };
        match big {
            Some(next) => {
                acc = next;
            },
            None => {
                proof {
                    if parse_dec(s@) is Some {
                        let prefix2 = s@.subrange(0, i as int + 1);
                        let tail = s@.skip(i as int + 1);
                        assert(s@ =~= prefix2 + tail);
                        lemma_parse_val_concat(prefix2, tail, 0);
                        lemma_parse_val_ge_acc(tail, parse_val(prefix2, 0));
                    }
                }
                return None;
            },
        }
        i = i + 1;
    }
    proof {
        assert(s@.subrange(0, n as int) =~= s@);
    }
    Some(acc)
}

/// Reads one string line starting at `pos`; returns the value and the
/// position just past the line's newline.
pub fn read_text_line(doc: &str, pos: usize) -> (r: Option<(String, usize)>)
    requires
        pos <= doc@.len(),
    ensures
        match r {
            Some(sp) => {
                &&& pos < sp.1 <= doc@.len()
                &&& parse_text_line(doc@.skip(pos as int)) == Some((sp.0@, doc@.skip(sp.1 as int)))
            },
            None => parse_text_line(doc@.skip(pos as int)) is None,
        },
{
    let ghost suffix = doc@.skip(pos as int);
    match find_newline(doc, pos) {
        Some(k) => {
            let raw = doc.substring_char(pos, k);
            proof {
                let rawv = doc@.subrange(pos as int, k as int);
                let tail = doc@.skip(k as int + 1);
                assert(suffix =~= rawv + seq!['\n'] + tail);
                lemma_take_until_roundtrip('\n', rawv, tail);
            }
            match unescape_str(raw) {
                Some(v) => Some((v, k + 1)),
                None => None,
            }
        },
        None => {
            proof {
                lemma_take_until_characterize('\n', suffix);
                assert forall|j: int| 0 <= j < suffix.len() implies suffix[j] != '\n' by {
                    assert(suffix[j] == doc@[pos + j]);
                }
            }
            None
        },
    }
}

/// Reads one number line starting at `pos`.
pub fn read_dec_line(doc: &str, pos: usize) -> (r: Option<(u64, usize)>)
    requires
        pos <= doc@.len(),
    ensures
        match r {
            Some(np) => {
                &&& pos < np.1 <= doc@.len()
                &&& parse_dec_line(doc@.skip(pos as int)) == Some(
                    (np.0 as nat, doc@.skip(np.1 as int)),
                )
            },
            None => parse_dec_line(doc@.skip(pos as int)) is None || parse_dec_line(
                doc@.skip(pos as int),
            )->Some_0.0 > u64::MAX,
        },
{
    let ghost suffix = doc@.skip(pos as int);
    match find_newline(doc, pos) {
        Some(k) => {
            let raw = doc.substring_char(pos, k);
            proof {
                let rawv = doc@.subrange(pos as int, k as int);
                let tail = doc@.skip(k as int + 1);
                assert(suffix =~= rawv + seq!['\n'] + tail);
                lemma_take_until_roundtrip('\n', rawv, tail);
            }
            match parse_dec_str(raw) {
                Some(v) => Some((v, k + 1)),
                None => None,
            }
        },
        None => {
            proof {
                lemma_take_until_characterize('\n', suffix);
                assert forall|j: int| 0 <= j < suffix.len() implies suffix[j] != '\n' by {
                    assert(suffix[j] == doc@[pos + j]);
                }
            }
            None
        },
    }
}

} // verus!
