//! Character-level helpers shared by the codec and the renderers: decimal
//! numbers, whitespace trimming, splitting on a separator, substring search
//! and HTML text escaping.
use vstd::prelude::*;

verus! {

/// Relies on `str::chars`: the characters of the string, in order.
#[verifier::external_body]
pub(crate) fn char_vec(s: &str) -> (r: Vec<char>)
    ensures
        r@ == s@,
{
    s.chars().collect()
}

/// Relies on `String::push`: appends one character.
#[verifier::external_body]
pub(crate) fn push_char(s: &mut String, c: char)
    ensures
        final(s)@ == old(s)@.push(c),
{
    s.push(c)
}

pub open spec fn is_ascii_digit(c: char) -> bool {
    '0' <= c && c <= '9'
}

pub open spec fn all_digits(s: Seq<char>) -> bool {
    forall|i: int| 0 <= i < s.len() ==> is_ascii_digit(#[trigger] s[i])
}

pub open spec fn digit_char(d: nat) -> char {
    if d == 0 {
        '0'
    } else if d == 1 {
        '1'
    } else if d == 2 {
        '2'
    } else if d == 3 {
        '3'
    } else if d == 4 {
        '4'
    } else if d == 5 {
        '5'
    } else if d == 6 {
        '6'
    } else if d == 7 {
        '7'
    } else if d == 8 {
        '8'
    } else {
        '9'
    }
}

pub open spec fn digit_value(c: char) -> nat {
    ((c as u32) - ('0' as u32)) as nat
}

/// The shortest decimal writing of `n`.
pub open spec fn decimal(n: nat) -> Seq<char>
    decreases n,
{
    if n < 10 {
        seq![digit_char(n)]
    } else {
        decimal(n / 10).push(digit_char(n % 10))
    }
}

/// The value of a string of decimal digits, most significant first.
pub open spec fn digits_value(s: Seq<char>) -> nat
    decreases s.len(),
{
    if s.len() == 0 {
        0
    } else {
        digits_value(s.drop_last()) * 10 + digit_value(s.last())
    }
}

/// What parsing an unsigned 32-bit integer accepts: one optional `+`, then
/// at least one ASCII digit, with a value that fits.
pub open spec fn parse_u32_spec(s: Seq<char>) -> Option<u32> {
    let t = if s.len() > 0 && s[0] == '+' {
        s.drop_first()
    } else {
        s
    };
    if t.len() > 0 && all_digits(t) && digits_value(t) <= u32::MAX {
        Some(digits_value(t) as u32)
    } else {
        None
    }
}

pub proof fn lemma_digit_char(d: nat)
    requires
        d < 10,
    ensures
        is_ascii_digit(digit_char(d)),
        digit_value(digit_char(d)) == d,
        digit_char(d) != '_',
        digit_char(d) != '!',
        digit_char(d) != '+',
{
}

pub proof fn lemma_decimal(n: nat)
    ensures
        decimal(n).len() > 0,
        all_digits(decimal(n)),
        digits_value(decimal(n)) == n,
        decimal(n)[0] != '+',
    decreases n,
{
    if n < 10 {
        lemma_digit_char(n);
        assert(decimal(n).drop_last() =~= Seq::<char>::empty());
        assert(decimal(n).last() == digit_char(n));
        assert(digits_value(Seq::<char>::empty()) == 0);
    } else {
        lemma_decimal(n / 10);
        lemma_digit_char(n % 10);
        let s = decimal(n);
        assert(s.drop_last() =~= decimal(n / 10));
        assert(s.last() == digit_char(n % 10));
        assert((n / 10) * 10 + n % 10 == n) by (nonlinear_arith);
        assert forall|i: int| 0 <= i < s.len() implies is_ascii_digit(#[trigger] s[i]) by {
            if i < s.len() - 1 {
                assert(s[i] == decimal(n / 10)[i]);
            }
        }
        assert(s[0] == decimal(n / 10)[0]);
    }
}

pub proof fn lemma_parse_decimal(n: u32)
    ensures
        parse_u32_spec(decimal(n as nat)) == Some(n),
{
    lemma_decimal(n as nat);
}

pub proof fn lemma_decimal_no_char(n: nat, c: char)
    requires
        !is_ascii_digit(c),
    ensures
        !decimal(n).contains(c),
{
    lemma_decimal(n);
    if decimal(n).contains(c) {
        let i = choose|i: int| 0 <= i < decimal(n).len() && decimal(n)[i] == c;
        assert(is_ascii_digit(decimal(n)[i]));
    }
}

/// Parses an unsigned 32-bit integer the way `str::parse::<u32>` does.
pub fn parse_u32(s: &str) -> (r: Option<u32>)
    ensures
        r == parse_u32_spec(s@),
{
    let chars = char_vec(s);
    let n = chars.len();
    let mut start: usize = 0;
    if n > 0 && chars[0] == '+' {
        start = 1;
    }
    let ghost t = if s@.len() > 0 && s@[0] == '+' {
        s@.drop_first()
    } else {
        s@
    };
    assert(t =~= s@.subrange(start as int, n as int));
    if start == n {
        return None;
    }
    let big: u64 = 4294967296;
    let mut v: u64 = 0;
    let mut i: usize = start;
    while i < n
        invariant
            start <= i <= n,
            n == chars@.len(),
            chars@ == s@,
            t =~= s@.subrange(start as int, n as int),
            t == (if s@.len() > 0 && s@[0] == '+' {
                s@.drop_first()
            } else {
                s@
            }),
            all_digits(t.subrange(0, i - start)),
            v == if digits_value(t.subrange(0, i - start)) < big {
                digits_value(t.subrange(0, i - start))
            } else {
                big as nat
            },
            big == 4294967296,
        decreases n - i,
    {
        let c = chars[i];
        if !('0' <= c && c <= '9') {
            assert(t[i - start] == c);
            assert(!all_digits(t));
            assert(parse_u32_spec(s@).is_none());
            return None;
        }
        let d = (c as u32 - '0' as u32) as u64;
        let ghost p = t.subrange(0, i - start);
        let ghost q = t.subrange(0, i + 1 - start);
        assert(q.drop_last() =~= p);
        assert(q.last() == c);
        assert(digits_value(q) == digits_value(p) * 10 + d);
        if v >= big {
            assert(digits_value(p) * 10 + d >= big) by (nonlinear_arith)
                requires
                    digits_value(p) >= big,
            ;
        } else {
            v = v * 10 + d;
            if v > big {
                v = big;
            }
        }
        assert forall|j: int| 0 <= j < q.len() implies is_ascii_digit(#[trigger] q[j]) by {
            if j < p.len() {
                assert(q[j] == p[j]);
            }
        }
        i = i + 1;
    }
    assert(t.subrange(0, n - start) =~= t);
    if v > 4294967295 {
        None
    } else {
        Some(v as u32)
    }
}

/// Writes `n` in decimal.
pub fn u64_to_decimal(n: u64) -> (r: String)
    ensures
        r@ == decimal(n as nat),
    decreases n,
{
    let d = n % 10;
    let c: char = if d == 0 {
        '0'
    } else if d == 1 {
        '1'
    } else if d == 2 {
        '2'
    } else if d == 3 {
        '3'
    } else if d == 4 {
        '4'
    } else if d == 5 {
        '5'
    } else if d == 6 {
        '6'
    } else if d == 7 {
        '7'
    } else if d == 8 {
        '8'
    } else {
        '9'
    };
    let mut s = if n < 10 {
        String::new()
    } else {
        u64_to_decimal(n / 10)
    };
    push_char(&mut s, c);
    proof {
        if n < 10 {
            assert(s@ =~= seq![digit_char(n as nat)]);
        }
    }
    s
}

/// The characters that `char::is_whitespace` accepts (Unicode White_Space).
pub open spec fn is_white_space(c: char) -> bool {
    ('\u{9}' <= c && c <= '\u{d}') || c == ' ' || c == '\u{85}' || c == '\u{a0}' || c
        == '\u{1680}' || ('\u{2000}' <= c && c <= '\u{200a}') || c == '\u{2028}' || c
        == '\u{2029}' || c == '\u{202f}' || c == '\u{205f}' || c == '\u{3000}'
}

pub fn is_white_space_char(c: char) -> (r: bool)
    ensures
        r == is_white_space(c),
{
    ('\u{9}' <= c && c <= '\u{d}') || c == ' ' || c == '\u{85}' || c == '\u{a0}' || c
        == '\u{1680}' || ('\u{2000}' <= c && c <= '\u{200a}') || c == '\u{2028}' || c
        == '\u{2029}' || c == '\u{202f}' || c == '\u{205f}' || c == '\u{3000}'
}

pub open spec fn trim_start(s: Seq<char>) -> Seq<char>
    decreases s.len(),
{
    if s.len() > 0 && is_white_space(s[0]) {
        trim_start(s.drop_first())
    } else {
        s
    }
}

pub open spec fn trim_end(s: Seq<char>) -> Seq<char>
    decreases s.len(),
{
    if s.len() > 0 && is_white_space(s.last()) {
        trim_end(s.drop_last())
    } else {
        s
    }
}

/// What `str::trim` leaves: the string without leading and trailing whitespace.
pub open spec fn trimmed(s: Seq<char>) -> Seq<char> {
    trim_end(trim_start(s))
}

proof fn lemma_trim_start_skip(s: Seq<char>, i: int)
    requires
        0 <= i <= s.len(),
        forall|j: int| 0 <= j < i ==> is_white_space(#[trigger] s[j]),
    ensures
        trim_start(s) == trim_start(s.subrange(i, s.len() as int)),
    decreases i,
{
    if i > 0 {
        lemma_trim_start_skip(s.drop_first(), i - 1);
        assert(s.drop_first().subrange(i - 1, s.drop_first().len() as int) =~= s.subrange(
            i,
            s.len() as int,
        ));
    } else {
        assert(s.subrange(0, s.len() as int) =~= s);
    }
}

proof fn lemma_trim_end_skip(s: Seq<char>, k: int)
    requires
        0 <= k <= s.len(),
        forall|j: int| k <= j < s.len() ==> is_white_space(#[trigger] s[j]),
    ensures
        trim_end(s) == trim_end(s.subrange(0, k)),
    decreases s.len() - k,
{
    if k < s.len() {
        lemma_trim_end_skip(s.drop_last(), k);
        assert(s.drop_last().subrange(0, k) =~= s.subrange(0, k));
    } else {
        assert(s.subrange(0, k) =~= s);
    }
}

/// Removes leading and trailing whitespace, as `str::trim` does.
pub fn trim(s: &str) -> (r: String)
    ensures
        r@ == trimmed(s@),
{
    let chars = char_vec(s);
    let n = chars.len();
    let mut i: usize = 0;
    while i < n && is_white_space_char(chars[i])
        invariant
            i <= n,
            n == chars@.len(),
            chars@ == s@,
            forall|j: int| 0 <= j < i ==> is_white_space(#[trigger] s@[j]),
        decreases n - i,
    {
        i = i + 1;
    }
    proof {
        lemma_trim_start_skip(s@, i as int);
    }
    let ghost rest = s@.subrange(i as int, n as int);
    let mut k: usize = n;
    while k > i && is_white_space_char(chars[k - 1])
        invariant
            i <= k <= n,
            n == chars@.len(),
            chars@ == s@,
            forall|j: int| k <= j < n ==> is_white_space(#[trigger] s@[j]),
        decreases k,
    {
        k = k - 1;
    }
    proof {
        lemma_trim_end_skip(rest, k - i);
        assert(rest.subrange(0, k - i) =~= s@.subrange(i as int, k as int));
        let m = s@.subrange(i as int, k as int);
        if i < n && m.len() > 0 {
            assert(m[0] == s@[i as int]);
            assert(m.last() == s@[k - 1]);
        }
        if i == n {
            assert(m.len() == 0);
        } else {
            assert(!is_white_space(rest[0]));
        }
    }
    let mut out = String::new();
    let mut j: usize = i;
    while j < k
        invariant
            i <= j <= k <= n,
            n == chars@.len(),
            chars@ == s@,
            out@ =~= s@.subrange(i as int, j as int),
        decreases k - j,
    {
        push_char(&mut out, chars[j]);
        j = j + 1;
    }
    out
}

/// How `str::split` with a one-character separator cuts a string, defined by
/// reading the string from the left.
pub open spec fn split_on(s: Seq<char>, sep: char) -> Seq<Seq<char>>
    decreases s.len(),
{
    if s.len() == 0 {
        seq![Seq::<char>::empty()]
    } else {
        let p = split_on(s.drop_last(), sep);
        if s.last() == sep {
            p.push(Seq::<char>::empty())
        } else {
            p.update(p.len() - 1, p.last().push(s.last()))
        }
    }
}

pub proof fn lemma_split_on_len(s: Seq<char>, sep: char)
    ensures
        split_on(s, sep).len() >= 1,
    decreases s.len(),
{
    if s.len() > 0 {
        lemma_split_on_len(s.drop_last(), sep);
    }
}

/// Appending text free of the separator extends the last piece.
pub proof fn lemma_split_on_append(s: Seq<char>, t: Seq<char>, sep: char)
    requires
        !t.contains(sep),
    ensures
        split_on(s + t, sep).len() == split_on(s, sep).len(),
        split_on(s + t, sep) == split_on(s, sep).update(
            split_on(s, sep).len() - 1,
            split_on(s, sep).last() + t,
        ),
    decreases t.len(),
{
    lemma_split_on_len(s, sep);
    if t.len() == 0 {
        assert(s + t =~= s);
        assert(split_on(s, sep).last() + t =~= split_on(s, sep).last());
        assert(split_on(s, sep).update(split_on(s, sep).len() - 1, split_on(s, sep).last())
            =~= split_on(s, sep));
    } else {
        let t0 = t.drop_last();
        assert(!t0.contains(sep)) by {
            if t0.contains(sep) {
                let i = choose|i: int| 0 <= i < t0.len() && t0[i] == sep;
                assert(t[i] == sep);
            }
        }
        lemma_split_on_append(s, t0, sep);
        assert((s + t).drop_last() =~= s + t0);
        assert((s + t).last() == t.last());
        assert(t.last() != sep) by {
            assert(t[t.len() - 1] == t.last());
        }
        let p = split_on(s, sep);
        assert(p.last() + t =~= (p.last() + t0).push(t.last()));
        assert(split_on(s + t, sep) =~= p.update(p.len() - 1, p.last() + t));
    }
}

/// Appending the separator starts a new, empty piece.
pub proof fn lemma_split_on_sep(s: Seq<char>, sep: char)
    ensures
        split_on(s.push(sep), sep) == split_on(s, sep).push(Seq::<char>::empty()),
{
    assert(s.push(sep).drop_last() =~= s);
}

/// Cuts `s` at every `sep`, as `str::split` does.
pub fn split_char(s: &str, sep: char) -> (r: Vec<String>)
    ensures
        r@.len() == split_on(s@, sep).len(),
        forall|i: int| 0 <= i < r@.len() ==> #[trigger] r@[i]@ == split_on(s@, sep)[i],
{
    let chars = char_vec(s);
    let n = chars.len();
    let mut parts: Vec<String> = Vec::new();
    let mut cur = String::new();
    let mut i: usize = 0;
    while i < n
        invariant
            i <= n,
            n == chars@.len(),
            chars@ == s@,
            parts@.len() + 1 == split_on(s@.subrange(0, i as int), sep).len(),
            forall|j: int|
                0 <= j < parts@.len() ==> #[trigger] parts@[j]@ == split_on(
                    s@.subrange(0, i as int),
                    sep,
                )[j],
            cur@ == split_on(s@.subrange(0, i as int), sep).last(),
        decreases n - i,
    {
        let c = chars[i];
        let ghost pre = s@.subrange(0, i as int);
        let ghost nxt = s@.subrange(0, i + 1);
        proof {
            assert(nxt.drop_last() =~= pre);
            assert(nxt.last() == c);
            lemma_split_on_len(pre, sep);
        }
        if c == sep {
            parts.push(cur);
            cur = String::new();
        } else {
            push_char(&mut cur, c);
        }
        i = i + 1;
    }
    parts.push(cur);
    assert(s@.subrange(0, n as int) =~= s@);
    parts
}

pub open spec fn occurs_at(s: Seq<char>, pat: Seq<char>, i: int) -> bool {
    0 <= i && i + pat.len() <= s.len() && s.subrange(i, i + pat.len()) == pat
}

/// `pat` occurs somewhere in `s`, as `str::contains` reports.
pub open spec fn contains_seq(s: Seq<char>, pat: Seq<char>) -> bool {
    exists|i: int| occurs_at(s, pat, i)
}

/// Whether `pat` occurs in `s`.
pub fn str_contains(s: &str, pat: &str) -> (r: bool)
    ensures
        r == contains_seq(s@, pat@),
{
    let sc = char_vec(s);
    let pc = char_vec(pat);
    let n = sc.len();
    let m = pc.len();
    if m > n {
        assert forall|i: int| !occurs_at(s@, pat@, i) by {}
        return false;
    }
    let mut i: usize = 0;
    while i <= n - m
        invariant
            m <= n,
            n == sc@.len(),
            m == pc@.len(),
            sc@ == s@,
            pc@ == pat@,
            forall|k: int| 0 <= k < i ==> !occurs_at(s@, pat@, k),
        decreases n - m + 1 - i,
    {
        let mut j: usize = 0;
        while j < m && sc[i + j] == pc[j]
            invariant
                i + m <= n,
                j <= m,
                n == sc@.len(),
                m == pc@.len(),
                sc@ == s@,
                pc@ == pat@,
                forall|q: int| 0 <= q < j ==> sc@[i + q] == pc@[q],
            decreases m - j,
        {
            j = j + 1;
        }
        if j == m {
            assert(s@.subrange(i as int, i + m) =~= pat@);
            assert(occurs_at(s@, pat@, i as int));
            return true;
        }
        assert(!occurs_at(s@, pat@, i as int)) by {
            if occurs_at(s@, pat@, i as int) {
                assert(s@.subrange(i as int, i + m)[j as int] == s@[i + j]);
            }
        }
        i = i + 1;
    }
    assert forall|k: int| !occurs_at(s@, pat@, k) by {
        if occurs_at(s@, pat@, k) {
            assert(k <= n - m);
        }
    }
    false
}

/// Whether `s` begins with `pat`.
pub fn str_starts_with(s: &str, pat: &str) -> (r: bool)
    ensures
        r == (pat@.len() <= s@.len() && s@.subrange(0, pat@.len() as int) == pat@),
{
    let sc = char_vec(s);
    let pc = char_vec(pat);
    if pc.len() > sc.len() {
        return false;
    }
    let mut j: usize = 0;
    while j < pc.len()
        invariant
            pc@.len() <= sc@.len(),
            j <= pc@.len(),
            sc@ == s@,
            pc@ == pat@,
            forall|q: int| 0 <= q < j ==> sc@[q] == pc@[q],
        decreases pc@.len() - j,
    {
        if sc[j] != pc[j] {
            assert(s@.subrange(0, pat@.len() as int)[j as int] == s@[j as int]);
            return false;
        }
        j = j + 1;
    }
    assert(s@.subrange(0, pat@.len() as int) =~= pat@);
    true
}

/// Whether two strings hold the same characters.
pub fn str_eq(a: &str, b: &str) -> (r: bool)
    ensures
        r == (a@ == b@),
{
    let x = a.to_owned();
    let y = b.to_owned();
    x == y
}

/// The text with `&`, `<` and `>` written as character references.
pub open spec fn escape_char(c: char) -> Seq<char> {
    if c == '&' {
        seq!['&', 'a', 'm', 'p', ';']
    } else if c == '<' {
        seq!['&', 'l', 't', ';']
    } else if c == '>' {
        seq!['&', 'g', 't', ';']
    } else {
        seq![c]
    }
}

pub open spec fn html_escaped(s: Seq<char>) -> Seq<char>
    decreases s.len(),
{
    if s.len() == 0 {
        Seq::empty()
    } else {
        html_escaped(s.drop_last()) + escape_char(s.last())
    }
}

/// Relies on `html_escape::encode_text`: it replaces each `&`, `<` and `>` by
/// its character reference and keeps every other character.
#[verifier::external_body]
pub fn escape_html(s: &str) -> (r: String)
    ensures
        r@ == html_escaped(s@),
{
    html_escape::encode_text(s).into_owned()
}

/// Appends `t` to `s`.
pub fn push_text(s: &mut String, t: &str)
    ensures
        final(s)@ == old(s)@ + t@,
{
    s.append(t);
}

} // verus!

verus! {

/// The order of `str`'s `<`: lexicographic by character code.
pub open spec fn seq_less(a: Seq<char>, b: Seq<char>) -> bool
    decreases a.len(),
{
    if a.len() == 0 {
        b.len() > 0
    } else if b.len() == 0 {
        false
    } else if a[0] < b[0] {
        true
    } else if a[0] == b[0] {
        seq_less(a.drop_first(), b.drop_first())
    } else {
        false
    }
}

pub proof fn lemma_seq_less_transitive(a: Seq<char>, b: Seq<char>, c: Seq<char>)
    requires
        seq_less(a, b),
        seq_less(b, c),
    ensures
        seq_less(a, c),
    decreases a.len(),
{
    if a.len() > 0 && b.len() > 0 && c.len() > 0 {
        if a[0] == b[0] && b[0] == c[0] {
            lemma_seq_less_transitive(a.drop_first(), b.drop_first(), c.drop_first());
        }
    }
}

pub proof fn lemma_seq_less_total(a: Seq<char>, b: Seq<char>)
    requires
        a != b,
    ensures
        seq_less(a, b) || seq_less(b, a),
    decreases a.len(),
{
    if a.len() > 0 && b.len() > 0 && a[0] == b[0] {
        if a.drop_first() == b.drop_first() {
            assert(a =~= seq![a[0]] + a.drop_first());
            assert(b =~= seq![b[0]] + b.drop_first());
        }
        lemma_seq_less_total(a.drop_first(), b.drop_first());
    } else if a.len() > 0 && b.len() > 0 {
        assert(a[0] != b[0]);
    } else if a.len() == 0 && b.len() == 0 {
        assert(a =~= b);
    }
}

/// Whether `a` sorts before `b`.
pub fn str_less(a: &str, b: &str) -> (r: bool)
    ensures
        r == seq_less(a@, b@),
{
    let x = char_vec(a);
    let y = char_vec(b);
    let mut i: usize = 0;
    assert(a@.subrange(0, a@.len() as int) =~= a@);
    assert(b@.subrange(0, b@.len() as int) =~= b@);
    while i < x.len() && i < y.len() && x[i] == y[i]
        invariant
            i <= x@.len(),
            i <= y@.len(),
            x@ == a@,
            y@ == b@,
            seq_less(a@, b@) == seq_less(
                a@.subrange(i as int, a@.len() as int),
                b@.subrange(i as int, b@.len() as int),
            ),
        decreases x@.len() - i,
    {
        let ghost sa = a@.subrange(i as int, a@.len() as int);
        let ghost sb = b@.subrange(i as int, b@.len() as int);
        assert(sa.drop_first() =~= a@.subrange(i + 1, a@.len() as int));
        assert(sb.drop_first() =~= b@.subrange(i + 1, b@.len() as int));
        assert(sa[0] == x@[i as int] && sb[0] == y@[i as int]);
        i = i + 1;
    }
    let ghost sa = a@.subrange(i as int, a@.len() as int);
    let ghost sb = b@.subrange(i as int, b@.len() as int);
    if i == x.len() {
        i < y.len()
    } else if i == y.len() {
        false
    } else {
        assert(sa[0] == x@[i as int] && sb[0] == y@[i as int]);
        x[i] < y[i]
    }
}

} // verus!

verus! {

/// The first position at or after `i` where `pat` occurs in `s`.
pub open spec fn find_from(s: Seq<char>, pat: Seq<char>, i: int) -> Option<int>
    decreases s.len() + 1 - i,
{
    if i < 0 || i + pat.len() > s.len() {
        None
    } else if occurs_at(s, pat, i) {
        Some(i)
    } else {
        find_from(s, pat, i + 1)
    }
}

/// Where `pat` first occurs in `s`.
pub fn find_first(s: &str, pat: &str) -> (r: Option<usize>)
    ensures
        r matches Some(i) ==> find_from(s@, pat@, 0) == Some(i as int),
        r is None ==> find_from(s@, pat@, 0) is None,
{
    let sc = char_vec(s);
    let pc = char_vec(pat);
    let n = sc.len();
    let m = pc.len();
    if m > n {
        return None;
    }
    let mut i: usize = 0;
    while i <= n - m
        invariant
            m <= n,
            n == sc@.len(),
            m == pc@.len(),
            sc@ == s@,
            pc@ == pat@,
            find_from(s@, pat@, 0) == find_from(s@, pat@, i as int),
        decreases n - m + 1 - i,
    {
        let mut j: usize = 0;
        while j < m && sc[i + j] == pc[j]
            invariant
                i + m <= n,
                j <= m,
                n == sc@.len(),
                m == pc@.len(),
                sc@ == s@,
                pc@ == pat@,
                forall|q: int| 0 <= q < j ==> sc@[i + q] == pc@[q],
            decreases m - j,
        {
            j = j + 1;
        }
        if j == m {
            assert(s@.subrange(i as int, i + m) =~= pat@);
            return Some(i);
        }
        assert(!occurs_at(s@, pat@, i as int)) by {
            if occurs_at(s@, pat@, i as int) {
                assert(s@.subrange(i as int, i + m)[j as int] == s@[i + j]);
            }
        }
        i = i + 1;
    }
    None
}

/// The longest prefix of `s` made of ASCII digits.
pub open spec fn digit_run(s: Seq<char>) -> Seq<char>
    decreases s.len(),
{
    if s.len() > 0 && is_ascii_digit(s[0]) {
        seq![s[0]] + digit_run(s.drop_first())
    } else {
        Seq::empty()
    }
}

/// What parsing an unsigned 64-bit integer accepts: one optional `+`, then
/// at least one ASCII digit, with a value that fits.
pub open spec fn parse_u64_spec(s: Seq<char>) -> Option<u64> {
    let t = if s.len() > 0 && s[0] == '+' {
        s.drop_first()
    } else {
        s
    };
    if t.len() > 0 && all_digits(t) && digits_value(t) <= u64::MAX {
        Some(digits_value(t) as u64)
    } else {
        None
    }
}

/// Parses an unsigned 64-bit integer the way `str::parse::<u64>` does.
pub fn parse_u64(s: &str) -> (r: Option<u64>)
    ensures
        r == parse_u64_spec(s@),
{
    let chars = char_vec(s);
    let n = chars.len();
    let mut start: usize = 0;
    if n > 0 && chars[0] == '+' {
        start = 1;
    }
    let ghost t = if s@.len() > 0 && s@[0] == '+' {
        s@.drop_first()
    } else {
        s@
    };
    assert(t =~= s@.subrange(start as int, n as int));
    if start == n {
        return None;
    }
    let big: u128 = 18446744073709551616;
    let mut v: u128 = 0;
    let mut i: usize = start;
    while i < n
        invariant
            start <= i <= n,
            n == chars@.len(),
            chars@ == s@,
            t =~= s@.subrange(start as int, n as int),
            t == (if s@.len() > 0 && s@[0] == '+' {
                s@.drop_first()
            } else {
                s@
            }),
            all_digits(t.subrange(0, i - start)),
            v == if digits_value(t.subrange(0, i - start)) < big {
                digits_value(t.subrange(0, i - start))
            } else {
                big as nat
            },
            big == 18446744073709551616,
        decreases n - i,
    {
        let c = chars[i];
        if !('0' <= c && c <= '9') {
            assert(t[i - start] == c);
            assert(!all_digits(t));
            return None;
        }
        let d = (c as u32 - '0' as u32) as u128;
        let ghost p = t.subrange(0, i - start);
        let ghost q = t.subrange(0, i + 1 - start);
        assert(q.drop_last() =~= p);
        assert(q.last() == c);
        assert(digits_value(q) == digits_value(p) * 10 + d);
        if v >= big {
            assert(digits_value(p) * 10 + d >= big) by (nonlinear_arith)
                requires
                    digits_value(p) >= big,
            ;
        } else {
            v = v * 10 + d;
            if v > big {
                v = big;
            }
        }
        assert forall|j: int| 0 <= j < q.len() implies is_ascii_digit(#[trigger] q[j]) by {
            if j < p.len() {
                assert(q[j] == p[j]);
            }
        }
        i = i + 1;
    }
    assert(t.subrange(0, n - start) =~= t);
    if v > 18446744073709551615 {
        None
    } else {
        Some(v as u64)
    }
}

/// The decimal writing of a signed number, with `-` before a negative one.
pub open spec fn signed_decimal(n: int) -> Seq<char> {
    if n < 0 {
        seq!['-'] + decimal((-n) as nat)
    } else {
        decimal(n as nat)
    }
}

/// Writes `n` in decimal.
pub fn i64_to_decimal(n: i64) -> (r: String)
    ensures
        r@ == signed_decimal(n as int),
{
    if n < 0 {
        let magnitude: u64 = if n == i64::MIN {
            9223372036854775808
        } else {
            (-n) as u64
        };
        let mut s = String::new();
        push_char(&mut s, '-');
        let d = u64_to_decimal(magnitude);
        push_text(&mut s, d.as_str());
        assert(s@ =~= seq!['-'] + decimal((-n) as nat));
        s
    } else {
        u64_to_decimal(n as u64)
    }
}

} // verus!
