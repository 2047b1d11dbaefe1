//! Text utilities over the characters of strings: decimal rendering,
//! substring search, prefixes, whitespace trimming and pattern replacement.
use vstd::prelude::*;
use vstd::string::*;

verus! {

/// The character of a decimal digit.
pub open spec fn digit_char(d: nat) -> char
    recommends
        d < 10,
{
    ((('0' as u32) + d) as char)
}

/// The decimal rendering of `n`, without leading zeros.
pub open spec fn decimal(n: nat) -> Seq<char>
    decreases n,
{
    if n < 10 {
        seq![digit_char(n)]
    } else {
        decimal(n / 10).push(digit_char(n % 10))
    }
}

/// `n` in decimal, padded on the left with zeros to at least `width` characters.
pub open spec fn zero_padded(n: nat, width: nat) -> Seq<char> {
    let d = decimal(n);
    if d.len() < width {
        Seq::new((width - d.len()) as nat, |i: int| '0') + d
    } else {
        d
    }
}

/// The string of one decimal digit.
fn digit_str(d: u64) -> (r: &'static str)
    requires
        d < 10,
    ensures
        r@ == seq![digit_char(d as nat)],
{
    proof {
        reveal_strlit("0");
        reveal_strlit("1");
        reveal_strlit("2");
        reveal_strlit("3");
        reveal_strlit("4");
        reveal_strlit("5");
        reveal_strlit("6");
        reveal_strlit("7");
        reveal_strlit("8");
        reveal_strlit("9");
    }
    let r = if d == 0 {
        "0"
    } else if d == 1 {
        "1"
    } else if d == 2 {
        "2"
    } else if d == 3 {
        "3"
    } else if d == 4 {
        "4"
    } else if d == 5 {
        "5"
    } else if d == 6 {
        "6"
    } else if d == 7 {
        "7"
    } else if d == 8 {
        "8"
    } else {
        "9"
    };
    assert(r@ =~= seq![digit_char(d as nat)]);
    r
}

/// Appends the decimal rendering of `n`.
pub fn push_decimal(s: &mut String, n: u64)
    ensures
        final(s)@ == old(s)@ + decimal(n as nat),
    decreases n,
{
    if n >= 10 {
        push_decimal(s, n / 10);
    }
    s.append(digit_str(n % 10));
    assert(final(s)@ =~= old(s)@ + decimal(n as nat));
}

/// Appends `n` in decimal, zero-padded to `width` characters.
pub fn push_zero_padded(s: &mut String, n: u64, width: usize)
    ensures
        final(s)@ == old(s)@ + zero_padded(n as nat, width as nat),
{
    let digits = decimal_string(n);
    let len = digits.as_str().unicode_len();
    let ghost start = s@;
    let mut pad: usize = 0;
    while len < width - pad && pad < width
        invariant
            len == decimal(n as nat).len(),
            pad <= width,
            s@ == start + Seq::new(pad as nat, |i: int| '0'),
            len + pad <= width || pad == 0,
        decreases width - pad,
    {
        s.append(digit_str(0));
        pad = pad + 1;
        assert(s@ =~= start + Seq::new(pad as nat, |i: int| '0'));
    }
    s.append(digits.as_str());
    assert(final(s)@ =~= start + zero_padded(n as nat, width as nat));
}

/// The decimal rendering of `n` as a string.
pub fn decimal_string(n: u64) -> (r: String)
    ensures
        r@ == decimal(n as nat),
{
    let mut s = String::new();
    push_decimal(&mut s, n);
    assert(s@ =~= decimal(n as nat));
    s
}

/// The characters of a string.
pub fn chars_of(s: &str) -> (r: Vec<char>)
    ensures
        r@ == s@,
{
    let n = s.unicode_len();
    let mut out: Vec<char> = Vec::new();
    let mut i: usize = 0;
    while i < n
        invariant
            n == s@.len(),
            i <= n,
            out@ == s@.take(i as int),
        decreases n - i,
    {
        out.push(s.get_char(i));
        i = i + 1;
        assert(out@ =~= s@.take(i as int));
    }
    assert(s@.take(n as int) =~= s@);
    out
}

/// Whether `needle` occurs at index `at` of `hay`.
pub open spec fn occurs_at(hay: Seq<char>, needle: Seq<char>, at: int) -> bool {
    0 <= at && at + needle.len() <= hay.len() && hay.subrange(at, at + needle.len()) == needle
}

/// Whether `needle` occurs somewhere in `hay`.
pub open spec fn has_substring(hay: Seq<char>, needle: Seq<char>) -> bool {
    exists|at: int| occurs_at(hay, needle, at)
}

/// Whether `needle` occurs at index `at` of `hay`.
pub fn matches_at(hay: &Vec<char>, needle: &Vec<char>, at: usize) -> (r: bool)
    ensures
        r == occurs_at(hay@, needle@, at as int),
{
    if at > hay.len() || needle.len() > hay.len() - at {
        return false;
    }
    let mut k: usize = 0;
    while k < needle.len()
        invariant
            at + needle@.len() <= hay@.len(),
            hay@.len() <= usize::MAX,
            k <= needle@.len(),
            forall|j: int| 0 <= j < k ==> hay@[at + j] == needle@[j],
        decreases needle@.len() - k,
    {
        if hay[at + k] != needle[k] {
            assert(hay@.subrange(at as int, at + needle@.len())[k as int] != needle@[k as int]);
            return false;
        }
        k = k + 1;
    }
    assert(hay@.subrange(at as int, at + needle@.len()) =~= needle@);
    true
}

/// Whether `needle` occurs in `hay` (`str::contains`).
pub fn contains(hay: &str, needle: &str) -> (r: bool)
    ensures
        r == has_substring(hay@, needle@),
{
    let h = chars_of(hay);
    let n = chars_of(needle);
    if n.len() == 0 {
        assert(occurs_at(hay@, needle@, 0)) by {
            assert(hay@.subrange(0, 0) =~= needle@);
        }
        return true;
    }
    if n.len() > h.len() {
        assert(!has_substring(hay@, needle@));
        return false;
    }
    let last = h.len() - n.len();
    let mut at: usize = 0;
    while at <= last
        invariant
            h@ == hay@,
            n@ == needle@,
            last == h@.len() - n@.len(),
            n@.len() >= 1,
            h@.len() <= usize::MAX,
            forall|j: int| 0 <= j < at ==> !occurs_at(hay@, needle@, j),
        decreases last + 1 - at,
    {
        if matches_at(&h, &n, at) {
            return true;
        }
        at = at + 1;
    }
    proof {
        lemma_absent_when_no_start_matches(hay@, needle@, last as int);
    }
    false
}

proof fn lemma_absent_when_no_start_matches(hay: Seq<char>, needle: Seq<char>, last: int)
    requires
        last == hay.len() - needle.len(),
        forall|j: int| 0 <= j < last + 1 ==> !occurs_at(hay, needle, j),
    ensures
        !has_substring(hay, needle),
{
}

/// Whether `s` begins with `prefix` (`str::starts_with`).
pub fn starts_with(s: &str, prefix: &str) -> (r: bool)
    ensures
        r == prefix@.is_prefix_of(s@),
{
    let h = chars_of(s);
    let p = chars_of(prefix);
    let r = matches_at(&h, &p, 0);
    assert(r == prefix@.is_prefix_of(s@)) by {
        if prefix@.is_prefix_of(s@) {
            assert(s@.subrange(0, prefix@.len() as int) =~= prefix@);
        }
        if r {
            assert forall|i: int| 0 <= i < prefix@.len() implies prefix@[i] == s@[i] by {
                assert(s@.subrange(0, prefix@.len() as int)[i] == s@[i]);
            }
        }
    }
    r
}

/// Whether `c` is white space in the sense of `char::is_whitespace` (the
/// Unicode `White_Space` property).
pub open spec fn is_white_space(c: char) -> bool {
    let u = c as u32;
    ||| 0x9 <= u <= 0xd
    ||| u == 0x20
    ||| u == 0x85
    ||| u == 0xa0
    ||| u == 0x1680
    ||| 0x2000 <= u <= 0x200a
    ||| u == 0x2028
    ||| u == 0x2029
    ||| u == 0x202f
    ||| u == 0x205f
    ||| u == 0x3000
}

/// `char::is_whitespace`.
pub fn white_space(c: char) -> (r: bool)
    ensures
        r == is_white_space(c),
{
    let u = c as u32;
    (0x9 <= u && u <= 0xd) || u == 0x20 || u == 0x85 || u == 0xa0 || u == 0x1680 || (0x2000 <= u
        && u <= 0x200a) || u == 0x2028 || u == 0x2029 || u == 0x202f || u == 0x205f || u == 0x3000
}

/// `s` without its leading white space.
pub open spec fn trim_start(s: Seq<char>) -> Seq<char>
    decreases s.len(),
{
    if s.len() > 0 && is_white_space(s[0]) {
        trim_start(s.drop_first())
    } else {
        s
    }
}

/// `s` without its trailing white space.
pub open spec fn trim_end(s: Seq<char>) -> Seq<char>
    decreases s.len(),
{
    if s.len() > 0 && is_white_space(s.last()) {
        trim_end(s.drop_last())
    } else {
        s
    }
}

/// `s` without leading and trailing white space (`str::trim`).
pub open spec fn trimmed(s: Seq<char>) -> Seq<char> {
    trim_end(trim_start(s))
}

pub proof fn lemma_trim_start_skip(s: Seq<char>, k: int)
    requires
        0 <= k <= s.len(),
        forall|j: int| 0 <= j < k ==> is_white_space(#[trigger] s[j]),
    ensures
        trim_start(s) == trim_start(s.skip(k)),
    decreases k,
{
    if k > 0 {
        assert(s.drop_first().skip(k - 1) =~= s.skip(k));
        lemma_trim_start_skip(s.drop_first(), k - 1);
    } else {
        assert(s.skip(0) =~= s);
    }
}

proof fn lemma_trim_end_take(s: Seq<char>, k: int)
    requires
        0 <= k <= s.len(),
        forall|j: int| k <= j < s.len() ==> is_white_space(#[trigger] s[j]),
    ensures
        trim_end(s) == trim_end(s.take(k)),
    decreases s.len() - k,
{
    if k < s.len() {
        assert(s.drop_last().take(k) =~= s.take(k));
        lemma_trim_end_take(s.drop_last(), k);
    } else {
        assert(s.take(k) =~= s);
    }
}

/// Removing trailing white space leaves a prefix of the sequence.
pub proof fn lemma_trim_end_is_prefix(s: Seq<char>)
    ensures
        trim_end(s).is_prefix_of(s),
    decreases s.len(),
{
    if s.len() > 0 && is_white_space(s.last()) {
        lemma_trim_end_is_prefix(s.drop_last());
    }
}

/// A nonempty prefix that ends in a character other than white space survives
/// the removal of trailing white space.
pub proof fn lemma_prefix_survives_trim_end(p: Seq<char>, s: Seq<char>)
    requires
        p.len() > 0,
        !is_white_space(p.last()),
        p.is_prefix_of(s),
    ensures
        p.is_prefix_of(trim_end(s)),
    decreases s.len(),
{
    if s.len() > 0 && is_white_space(s.last()) {
        assert(s.len() > p.len()) by {
            if s.len() == p.len() {
                assert(s.last() == s[p.len() - 1]);
            }
        }
        assert(p.is_prefix_of(s.drop_last())) by {
            assert forall|i: int| 0 <= i < p.len() implies p[i] == s.drop_last()[i] by {
                assert(p[i] == s[i]);
            }
        }
        lemma_prefix_survives_trim_end(p, s.drop_last());
    }
}

/// `s` with leading and trailing white space removed (`str::trim`).
pub fn trim(s: &str) -> (r: &str)
    ensures
        r@ == trimmed(s@),
{
    let c = chars_of(s);
    let n = c.len();
    let mut a: usize = 0;
    while a < n && white_space(c[a])
        invariant
            c@ == s@,
            n == s@.len(),
            a <= n,
            forall|j: int| 0 <= j < a ==> is_white_space(#[trigger] s@[j]),
        decreases n - a,
    {
        a = a + 1;
    }
    let mut b: usize = n;
    while b > a && white_space(c[b - 1])
        invariant
            c@ == s@,
            n == s@.len(),
            a <= b <= n,
            forall|j: int| b <= j < n ==> is_white_space(#[trigger] s@[j]),
        decreases b,
    {
        b = b - 1;
    }
    proof {
        lemma_trim_start_skip(s@, a as int);
        let rest = s@.skip(a as int);
        assert(trim_start(rest) == rest);
        let m = (b - a) as int;
        assert forall|j: int| m <= j < rest.len() implies is_white_space(#[trigger] rest[j]) by {
            assert(rest[j] == s@[a + j]);
        }
        lemma_trim_end_take(rest, m);
        assert(trim_end(rest.take(m)) == rest.take(m));
        assert(rest.take(m) =~= s@.subrange(a as int, b as int));
    }
    s.substring_char(a, b)
}

/// `s` with every occurrence of the nonempty pattern `pat`, scanned left to
/// right without overlap, replaced by `rep` (`str::replace`).
pub open spec fn replaced(s: Seq<char>, pat: Seq<char>, rep: Seq<char>) -> Seq<char>
    decreases s.len(),
{
    if pat.len() == 0 || s.len() < pat.len() {
        s
    } else if s.take(pat.len() as int) == pat {
        rep + replaced(s.skip(pat.len() as int), pat, rep)
    } else {
        seq![s[0]] + replaced(s.drop_first(), pat, rep)
    }
}

/// `s.replace(pat, rep)` for a nonempty pattern.
pub fn replace(s: &str, pat: &str, rep: &str) -> (r: String)
    requires
        pat@.len() > 0,
    ensures
        r@ == replaced(s@, pat@, rep@),
{
    let c = chars_of(s);
    let p = chars_of(pat);
    let n = c.len();
    let mut out = String::new();
    let mut i: usize = 0;
    assert(s@.skip(0) =~= s@);
    assert(out@ + replaced(s@.skip(0), pat@, rep@) =~= replaced(s@, pat@, rep@));
    while i < n
        invariant
            c@ == s@,
            p@ == pat@,
            p@.len() > 0,
            n == s@.len(),
            i <= n,
            out@ + replaced(s@.skip(i as int), pat@, rep@) == replaced(s@, pat@, rep@),
        decreases n - i,
    {
        let ghost rest = s@.skip(i as int);
        if p.len() <= n - i && matches_at(&c, &p, i) {
            proof {
                assert(rest.take(pat@.len() as int) =~= s@.subrange(i as int, i + pat@.len()));
                assert(rest.skip(pat@.len() as int) =~= s@.skip(i + pat@.len()));
            }
            out.append(rep);
            i = i + p.len();
            assert(out@ + replaced(s@.skip(i as int), pat@, rep@) =~= replaced(s@, pat@, rep@));
        } else {
            proof {
                if rest.len() >= pat@.len() {
                    assert(rest.take(pat@.len() as int) != pat@) by {
                        if rest.take(pat@.len() as int) == pat@ {
                            assert(s@.subrange(i as int, i + pat@.len()) =~= rest.take(
                                pat@.len() as int,
                            ));
                        }
                    }
                }
                assert(rest.drop_first() =~= s@.skip(i + 1));
            }
            if p.len() > n - i {
                out.append(s.substring_char(i, n));
                assert(rest =~= s@.subrange(i as int, n as int));
                i = n;
                assert(s@.skip(n as int) =~= Seq::<char>::empty());
                assert(out@ + replaced(s@.skip(i as int), pat@, rep@) =~= replaced(
                    s@,
                    pat@,
                    rep@,
                ));
            } else {
                out.append(s.substring_char(i, i + 1));
                assert(s@.subrange(i as int, i + 1) =~= seq![rest[0]]);
                i = i + 1;
                assert(out@ + replaced(s@.skip(i as int), pat@, rep@) =~= replaced(
                    s@,
                    pat@,
                    rep@,
                ));
            }
        }
    }
    assert(s@.skip(n as int) =~= Seq::<char>::empty());
    assert(out@ =~= replaced(s@, pat@, rep@));
    out
}

/// Whether `c` is an ASCII decimal digit.
pub open spec fn is_digit(c: char) -> bool {
    0x30 <= (c as u32) <= 0x39
}

/// Whether every character of `s` is an ASCII decimal digit.
pub open spec fn all_digits(s: Seq<char>) -> bool {
    forall|i: int| 0 <= i < s.len() ==> is_digit(#[trigger] s[i])
}

/// The number that the decimal digits `s` spell.
pub open spec fn digits_value(s: Seq<char>) -> nat
    decreases s.len(),
{
    if s.len() == 0 {
        0
    } else {
        digits_value(s.drop_last()) * 10 + ((s.last() as u32) - 0x30) as nat
    }
}

/// What `str::parse::<u64>` gives: an optional `+` followed by at least one
/// ASCII digit, and a value that fits in `u64`; `None` otherwise.
pub open spec fn parsed_u64(s: Seq<char>) -> Option<u64> {
    let body = if s.len() > 0 && s[0] == '+' {
        s.drop_first()
    } else {
        s
    };
    if body.len() > 0 && all_digits(body) && digits_value(body) <= u64::MAX {
        Some(digits_value(body) as u64)
    } else {
        None
    }
}

/// `s.parse::<u64>()`, with the error as `None`.
pub fn parse_u64(s: &str) -> (r: Option<u64>)
    ensures
        r == parsed_u64(s@),
{
    let c = chars_of(s);
    let n = c.len();
    let start: usize = if n > 0 && c[0] == '+' { 1 } else { 0 };
    let ghost body = s@.skip(start as int);
    assert(body =~= if s@.len() > 0 && s@[0] == '+' { s@.drop_first() } else { s@ });
    if start == n {
        return None;
    }
    let mut value: u64 = 0;
    let mut overflow = false;
    let mut i: usize = start;
    while i < n
        invariant
            c@ == s@,
            n == s@.len(),
            start <= i <= n,
            body == s@.skip(start as int),
            body == (if s@.len() > 0 && s@[0] == '+' { s@.drop_first() } else { s@ }),
            all_digits(body.take(i - start)),
            !overflow ==> value == digits_value(body.take(i - start)),
            overflow ==> digits_value(body.take(i - start)) > u64::MAX,
        decreases n - i,
    {
        let ch = c[i];
        let code = ch as u32;
        if code < 0x30 || code > 0x39 {
            assert(!all_digits(body)) by {
                assert(body[i - start] == ch);
                assert(!is_digit(body[i - start]));
            }
            return None;
        }
        let d = (code - 0x30) as u64;
        proof {
            let t = body.take(i - start + 1);
            assert(t.drop_last() =~= body.take(i - start));
            assert(t.last() == ch);
        }
        if !overflow {
            match value.checked_mul(10) {
                Some(m) => match m.checked_add(d) {
                    Some(v) => {
                        value = v;
                    },
                    None => {
                        overflow = true;
                    },
                },
                None => {
                    overflow = true;
                },
            }
        }
        i = i + 1;
        assert(all_digits(body.take(i - start)));
    }
    assert(body.take(n - start) =~= body);
    if overflow {
        None
    } else {
        Some(value)
    }
}

/// The index of the first `c` in `s` at or after `from`, or the length of `s`
/// when there is none.
pub open spec fn find_from(s: Seq<char>, c: char, from: int) -> int
    decreases s.len() - from,
{
    if from >= s.len() {
        s.len() as int
    } else if s[from] == c {
        from
    } else {
        find_from(s, c, from + 1)
    }
}

/// `find_from` gives the first index at or after `from` that holds `c`, or the
/// length when none does.
pub proof fn lemma_find_from_first(s: Seq<char>, c: char, from: int, k: int)
    requires
        0 <= from <= k <= s.len(),
        forall|j: int| from <= j < k ==> s[j] != c,
        k == s.len() || s[k] == c,
    ensures
        find_from(s, c, from) == k,
    decreases k - from,
{
    if from < k {
        lemma_find_from_first(s, c, from + 1, k);
    }
}

/// The index of the first `c` in the characters at or after `from`, or their
/// number when there is none.
pub fn find_char_from(s: &Vec<char>, c: char, from: usize) -> (r: usize)
    requires
        from <= s@.len(),
    ensures
        r == find_from(s@, c, from as int),
        from <= r <= s@.len(),
{
    let mut i = from;
    while i < s.len() && s[i] != c
        invariant
            from <= i <= s@.len(),
            find_from(s@, c, from as int) == find_from(s@, c, i as int),
        decreases s@.len() - i,
    {
        i = i + 1;
    }
    i
}

} // verus!
