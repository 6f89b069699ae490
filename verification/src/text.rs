use vstd::prelude::*;

verus! {

/// Appends one character to a `String`.
/// Trusted: `String::push` appends `c` at the end of the string (std documentation).
#[verifier::external_body]
pub(crate) fn string_push(s: &mut String, c: char)
    ensures
        final(s)@ == old(s)@.push(c),
{
    s.push(c);
}

/// The characters of `s`, in order.
pub fn chars_of(s: &str) -> (out: Vec<char>)
    ensures
        out@ == s@,
{
    let mut out: Vec<char> = Vec::new();
    for c in it: s.chars()
        invariant
            out@ == it.seq().take(it.index() as int),
            it.seq() == s@,
    {
        out.push(c);
    }
    out
}

/// Appends the characters of `s` to `out`.
pub fn push_str_chars(out: &mut Vec<char>, s: &str)
    ensures
        final(out)@ == old(out)@ + s@,
{
    let ghost start = out@;
    for c in it: s.chars()
        invariant
            out@ == start + it.seq().take(it.index() as int),
            it.seq() == s@,
    {
        out.push(c);
        assert(out@ == start + it.seq().take(it.index() + 1));
    }
    assert(s@.take(s@.len() as int) =~= s@);
}

/// Appends the characters `w` to `out`.
pub fn push_chars(out: &mut Vec<char>, w: &Vec<char>)
    ensures
        final(out)@ == old(out)@ + w@,
{
    let ghost start = out@;
    let mut i: usize = 0;
    while i < w.len()
        invariant
            i <= w.len(),
            out@ == start + w@.take(i as int),
        decreases w.len() - i,
    {
        out.push(w[i]);
        i = i + 1;
        assert(out@ =~= start + w@.take(i as int));
    }
    assert(w@.take(w.len() as int) =~= w@);
}

/// A `String` holding exactly the characters `v`.
pub fn string_of(v: &Vec<char>) -> (out: String)
    ensures
        out@ == v@,
{
    let mut out = String::new();
    let mut i: usize = 0;
    while i < v.len()
        invariant
            i <= v.len(),
            out@ == v@.take(i as int),
        decreases v.len() - i,
    {
        string_push(&mut out, v[i]);
        i = i + 1;
        assert(out@ == v@.take(i as int));
    }
    assert(v@.take(v.len() as int) == v@);
    out
}


/// Unicode `White_Space`, the set that `char::is_whitespace` tests.
pub open spec fn is_ws(c: char) -> bool {
    let u = c as u32;
    ||| 9 <= u <= 13
    ||| u == 32
    ||| u == 0x85
    ||| u == 0xA0
    ||| u == 0x1680
    ||| 0x2000 <= u <= 0x200A
    ||| u == 0x2028
    ||| u == 0x2029
    ||| u == 0x202F
    ||| u == 0x205F
    ||| u == 0x3000
}

/// Whether `c` is white space, as `char::is_whitespace` decides it.
pub fn is_whitespace(c: char) -> (b: bool)
    ensures
        b == is_ws(c),
{
    let u = c as u32;
    (9 <= u && u <= 13) || u == 32 || u == 0x85 || u == 0xA0 || u == 0x1680 || (0x2000 <= u && u
        <= 0x200A) || u == 0x2028 || u == 0x2029 || u == 0x202F || u == 0x205F || u == 0x3000
}

/// `s` without its leading white space.
pub open spec fn trim_start(s: Seq<char>) -> Seq<char>
    decreases s.len(),
{
    if s.len() > 0 && is_ws(s[0]) {
        trim_start(s.drop_first())
    } else {
        s
    }
}

/// `s` without its trailing white space.
pub open spec fn trim_end(s: Seq<char>) -> Seq<char>
    decreases s.len(),
{
    if s.len() > 0 && is_ws(s.last()) {
        trim_end(s.drop_last())
    } else {
        s
    }
}

/// `s` without white space at either end, as `str::trim` gives it.
pub open spec fn trim(s: Seq<char>) -> Seq<char> {
    trim_end(trim_start(s))
}

/// The characters `v[lo..hi]` as a new vector.
pub fn copy_range(v: &Vec<char>, lo: usize, hi: usize) -> (out: Vec<char>)
    requires
        lo <= hi <= v.len(),
    ensures
        out@ == v@.subrange(lo as int, hi as int),
{
    let mut out: Vec<char> = Vec::new();
    let mut i = lo;
    while i < hi
        invariant
            lo <= i <= hi,
            hi <= v.len(),
            out@ == v@.subrange(lo as int, i as int),
        decreases hi - i,
    {
        out.push(v[i]);
        i = i + 1;
        assert(out@ == v@.subrange(lo as int, i as int));
    }
    out
}

/// `v` with the white space at both of its ends removed.
pub fn trim_chars(v: &Vec<char>) -> (out: Vec<char>)
    ensures
        out@ == trim(v@),
{
    let mut a: usize = 0;
    assert(v@.skip(0) =~= v@);
    while a < v.len() && is_whitespace(v[a])
        invariant
            a <= v.len(),
            trim_start(v@) == trim_start(v@.skip(a as int)),
        decreases v.len() - a,
    {
        assert(v@.skip(a as int).drop_first() =~= v@.skip(a + 1));
        a = a + 1;
    }
    let ghost t = v@.skip(a as int);
    assert(trim_start(t) == t);
    let mut b: usize = v.len();
    assert(t.take(b - a) =~= t);
    while b > a && is_whitespace(v[b - 1])
        invariant
            a <= b <= v.len(),
            t == v@.skip(a as int),
            trim_end(t) == trim_end(t.take(b - a)),
        decreases b,
    {
        assert(t.take(b - a).drop_last() =~= t.take(b - 1 - a));
        b = b - 1;
    }
    assert(trim_end(t.take(b - a)) == t.take(b - a));
    assert(t.take(b - a) =~= v@.subrange(a as int, b as int));
    copy_range(v, a, b)
}


/// The index of the first line feed in `s`, or `s.len()` when there is none.
pub open spec fn nl_index(s: Seq<char>) -> int
    decreases s.len(),
{
    if s.len() == 0 {
        0
    } else if s[0] == '\n' {
        0
    } else {
        1 + nl_index(s.drop_first())
    }
}

/// The next line of `s` and what follows it, as one step of `str::lines` yields them:
/// a line ends at a line feed, which is dropped together with one carriage return
/// right before it; the last line needs no line feed; an empty text has no line.
pub open spec fn next_line(s: Seq<char>) -> Option<(Seq<char>, Seq<char>)> {
    if s.len() == 0 {
        None
    } else {
        let i = nl_index(s);
        if i < s.len() {
            let piece = s.take(i);
            let line = if piece.len() > 0 && piece.last() == '\r' {
                piece.drop_last()
            } else {
                piece
            };
            Some((line, s.skip(i + 1)))
        } else {
            Some((s, Seq::empty()))
        }
    }
}

/// Whether `s` holds no line feed.
pub open spec fn no_newline(s: Seq<char>) -> bool {
    forall|k: int| 0 <= k < s.len() ==> s[k] != '\n'
}

/// `nl_index` is the first position of a line feed, or the length.
pub proof fn lemma_nl_index(s: Seq<char>, m: int)
    requires
        0 <= m <= s.len(),
        forall|k: int| 0 <= k < m ==> s[k] != '\n',
        m == s.len() || s[m] == '\n',
    ensures
        nl_index(s) == m,
    decreases s.len(),
{
    if s.len() > 0 && s[0] != '\n' {
        lemma_nl_index(s.drop_first(), m - 1);
    }
}

/// `nl_index` lies between zero and the length, and reading a line from a text
/// that is not empty leaves a shorter text.
pub proof fn lemma_next_line_shrinks(s: Seq<char>)
    ensures
        0 <= nl_index(s) <= s.len(),
        s.len() > 0 ==> (next_line(s) matches Some((_, rest)) && rest.len() < s.len()),
    decreases s.len(),
{
    if s.len() > 0 && s[0] != '\n' {
        lemma_next_line_shrinks(s.drop_first());
    }
}

/// A line without line feed, followed by CR LF, is read back as it was.
pub proof fn lemma_next_line_crlf(a: Seq<char>, b: Seq<char>)
    requires
        no_newline(a),
    ensures
        next_line(a + seq!['\r', '\n'] + b) == Some((a, b)),
{
    let s = a + seq!['\r', '\n'] + b;
    let n: int = a.len() as int;
    lemma_nl_index(s, n + 1);
    assert(s.take(n + 1).drop_last() =~= a);
    assert(s.skip(n + 2) =~= b);
}

/// Reads the line of `v` that starts at `pos`; gives the line and the position after it.
pub fn take_line(v: &Vec<char>, pos: usize) -> (r: Option<(Vec<char>, usize)>)
    requires
        pos <= v.len(),
    ensures
        match next_line(v@.skip(pos as int)) {
            None => r is None,
            Some((line, rest)) => r matches Some((l, np)) && l@ == line && np <= v.len()
                && v@.skip(np as int) == rest,
        },
{
    let ghost s = v@.skip(pos as int);
    if pos == v.len() {
        return None;
    }
    let mut i = pos;
    while i < v.len() && v[i] != '\n'
        invariant
            pos <= i <= v.len(),
            s == v@.skip(pos as int),
            forall|k: int| 0 <= k < i - pos ==> s[k] != '\n',
        decreases v.len() - i,
    {
        i = i + 1;
    }
    proof {
        lemma_nl_index(s, i - pos);
    }
    if i < v.len() {
        let mut end = i;
        if end > pos && v[end - 1] == '\r' {
            end = end - 1;
        }
        let line = copy_range(v, pos, end);
        if end < i {
            assert(s.take(i - pos).drop_last() =~= v@.subrange(pos as int, end as int));
        } else {
            assert(s.take(i - pos) =~= v@.subrange(pos as int, end as int));
        }
        assert(s.skip(i - pos + 1) =~= v@.skip(i + 1));
        Some((line, i + 1))
    } else {
        let line = copy_range(v, pos, v.len());
        assert(s =~= v@.subrange(pos as int, v.len() as int));
        assert(v@.skip(v.len() as int) =~= Seq::<char>::empty());
        Some((line, v.len()))
    }
}

/// `s` without the prefix `p`, when `s` starts with `p`, as `str::strip_prefix` gives it.
pub open spec fn strip_prefix(s: Seq<char>, p: Seq<char>) -> Option<Seq<char>> {
    if p.len() <= s.len() && s.take(p.len() as int) == p {
        Some(s.skip(p.len() as int))
    } else {
        None
    }
}

/// Whether `v` starts with `p`.
pub fn starts_with(v: &Vec<char>, p: &Vec<char>) -> (b: bool)
    ensures
        b == (p.len() <= v.len() && v@.take(p.len() as int) == p@),
{
    if p.len() > v.len() {
        return false;
    }
    let mut i: usize = 0;
    while i < p.len()
        invariant
            i <= p.len() <= v.len(),
            forall|k: int| 0 <= k < i ==> v@[k] == p@[k],
        decreases p.len() - i,
    {
        if v[i] != p[i] {
            assert(v@.take(p.len() as int)[i as int] != p@[i as int]);
            return false;
        }
        i = i + 1;
    }
    assert(v@.take(p.len() as int) =~= p@);
    true
}

/// Whether `a` and `b` hold the same characters.
pub fn chars_eq(a: &Vec<char>, b: &Vec<char>) -> (r: bool)
    ensures
        r == (a@ == b@),
{
    if a.len() != b.len() {
        return false;
    }
    let r = starts_with(a, b);
    assert(a@.take(b.len() as int) =~= a@);
    r
}

/// `v` without the prefix `p`, when it starts with `p`.
pub fn strip_prefix_chars(v: &Vec<char>, p: &Vec<char>) -> (r: Option<Vec<char>>)
    ensures
        match strip_prefix(v@, p@) {
            None => r is None,
            Some(t) => r matches Some(w) && w@ == t,
        },
{
    if starts_with(v, p) {
        let w = copy_range(v, p.len(), v.len());
        assert(w@ =~= v@.skip(p.len() as int));
        Some(w)
    } else {
        None
    }
}


/// Whether `c` is one of the ASCII digits `0` to `9`.
pub open spec fn is_digit(c: char) -> bool {
    48 <= (c as u32) <= 57
}

/// The value of the ASCII digit `c`.
pub open spec fn digit_value(c: char) -> int {
    (c as u32) - 48
}

/// Whether every character of `s` is an ASCII digit.
pub open spec fn all_digits(s: Seq<char>) -> bool {
    forall|k: int| 0 <= k < s.len() ==> is_digit(#[trigger] s[k])
}

/// The number that the decimal digits `s` write.
pub open spec fn digits_value(s: Seq<char>) -> int
    decreases s.len(),
{
    if s.len() == 0 {
        0
    } else {
        digits_value(s.drop_last()) * 10 + digit_value(s.last())
    }
}

/// What `str::parse::<i32>` gives for `s`: an optional `+` or `-`, then at least one
/// ASCII digit and nothing else, whose value fits an `i32`.
pub open spec fn parse_i32(s: Seq<char>) -> Option<i32> {
    if s.len() == 0 {
        None
    } else if s[0] == '+' || s[0] == '-' {
        let d = s.drop_first();
        let v = if s[0] == '-' {
            -digits_value(d)
        } else {
            digits_value(d)
        };
        if d.len() == 0 || !all_digits(d) || v < i32::MIN || v > i32::MAX {
            None
        } else {
            Some(v as i32)
        }
    } else if !all_digits(s) || digits_value(s) > i32::MAX {
        None
    } else {
        Some(digits_value(s) as i32)
    }
}

/// The character of the decimal digit `d`.
pub open spec fn digit_char(d: nat) -> char {
    (d + 48) as char
}

/// The decimal digits of `n`, without leading zeros.
pub open spec fn nat_digits(n: nat) -> Seq<char>
    decreases n,
{
    if n < 10 {
        seq![digit_char(n)]
    } else {
        nat_digits(n / 10).push(digit_char(n % 10))
    }
}

/// How `i32`'s `Display` writes `x`: a minus sign for negative numbers, then the digits.
pub open spec fn dec_i32(x: i32) -> Seq<char> {
    if x < 0 {
        seq!['-'] + nat_digits((-x) as nat)
    } else {
        nat_digits(x as nat)
    }
}

/// A prefix of a digit string has no larger value than the whole.
pub proof fn lemma_digits_value_prefix(s: Seq<char>, k: int)
    requires
        0 <= k <= s.len(),
        all_digits(s),
    ensures
        0 <= digits_value(s.take(k)) <= digits_value(s),
    decreases s.len(),
{
    if s.len() > 0 {
        assert(all_digits(s.drop_last()));
        if k == s.len() {
            assert(s.take(k) =~= s);
            lemma_digits_value_prefix(s.drop_last(), k - 1);
            assert(s.drop_last().take(k - 1) =~= s.drop_last());
        } else {
            lemma_digits_value_prefix(s.drop_last(), k);
            assert(s.drop_last().take(k) =~= s.take(k));
            lemma_digits_value_prefix(s.drop_last(), s.len() - 1);
            assert(s.drop_last().take(s.len() - 1) =~= s.drop_last());
        }
    } else {
        assert(s.take(k) =~= s);
    }
}

/// The decimal digits of `n` are digits, at least one, and read back as `n`.
pub proof fn lemma_nat_digits(n: nat)
    ensures
        all_digits(nat_digits(n)),
        nat_digits(n).len() >= 1,
        digits_value(nat_digits(n)) == n,
        is_digit(nat_digits(n)[0]),
    decreases n,
{
    if n < 10 {
        assert(digit_char(n) as u32 == n + 48);
        let s = seq![digit_char(n)];
        assert(s.drop_last() =~= Seq::<char>::empty());
        assert(digits_value(Seq::<char>::empty()) == 0);
        assert(digits_value(s) == digits_value(s.drop_last()) * 10 + digit_value(s.last()));
        assert(digit_value(s.last()) == n);
    }
    if n >= 10 {
        lemma_nat_digits(n / 10);
        let d = nat_digits(n / 10);
        assert(digit_char(n % 10) as u32 == n % 10 + 48);
        assert(n == (n / 10) * 10 + n % 10);
        let s = nat_digits(n);
        assert(s == d.push(digit_char(n % 10)));
        assert(s.last() == digit_char(n % 10));
        assert(digit_value(s.last()) == n % 10);
        assert(digits_value(s) == digits_value(s.drop_last()) * 10 + digit_value(s.last()));
        assert(nat_digits(n).drop_last() =~= d);
        assert forall|k: int| 0 <= k < nat_digits(n).len() implies is_digit(
            #[trigger] nat_digits(n)[k],
        ) by {
            if k < d.len() {
                assert(nat_digits(n)[k] == d[k]);
            }
        }
    }
}

/// Writing an `i32` in decimal and parsing it gives the number back.
pub proof fn lemma_parse_dec_i32(x: i32)
    ensures
        parse_i32(dec_i32(x)) == Some(x),
        trim(dec_i32(x)) == dec_i32(x),
        no_newline(dec_i32(x)),
{
    let s = dec_i32(x);
    if x < 0 {
        let m = (-x) as nat;
        lemma_nat_digits(m);
        assert(s.drop_first() =~= nat_digits(m));
        assert(s[0] == '-');
    } else {
        lemma_nat_digits(x as nat);
    }
    assert(s.len() > 0);
    assert(!is_ws(s[0]));
    assert(!is_ws(s.last())) by {
        if x < 0 {
            assert(s.last() == nat_digits((-x) as nat).last());
        }
    }
    assert(trim_start(s) == s);
    assert(trim_end(s) == s);
    assert forall|k: int| 0 <= k < s.len() implies s[k] != '\n' by {
        if x < 0 && k > 0 {
            assert(s[k] == nat_digits((-x) as nat)[k - 1]);
        }
    }
}

/// The decimal digits of `n`, appended to `out`.
pub fn push_nat_digits(out: &mut Vec<char>, n: u64)
    ensures
        final(out)@ == old(out)@ + nat_digits(n as nat),
    decreases n,
{
    if n >= 10 {
        push_nat_digits(out, n / 10);
    }
    let d = (n % 10) as u8;
    let c = (48u8 + d) as char;
    assert(c == digit_char((n % 10) as nat)) by {
        assert((48u8 + d) as u32 == (n % 10) + 48);
    }
    out.push(c);
    if n >= 10 {
        assert(final(out)@ =~= old(out)@ + nat_digits(n as nat)) by {
            assert(nat_digits(n as nat) == nat_digits((n / 10) as nat).push(digit_char((n % 10) as nat)));
        }
    } else {
        assert(nat_digits(n as nat) == seq![digit_char(n as nat)]);
    }
}

/// `x` written in decimal, as `i32`'s `Display` writes it.
pub fn dec_i32_chars(x: i32) -> (out: Vec<char>)
    ensures
        out@ == dec_i32(x),
{
    let mut out: Vec<char> = Vec::new();
    if x < 0 {
        out.push('-');
        let m: u64 = (0i64 - (x as i64)) as u64;
        push_nat_digits(&mut out, m);
    } else {
        push_nat_digits(&mut out, x as u64);
    }
    out
}

/// What `str::parse::<i32>` gives for the characters `v`.
pub fn parse_i32_chars(v: &Vec<char>) -> (r: Option<i32>)
    ensures
        r == parse_i32(v@),
{
    if v.len() == 0 {
        return None;
    }
    let neg = v[0] == '-';
    let start: usize = if v[0] == '+' || v[0] == '-' {
        1
    } else {
        0
    };
    let ghost d = v@.skip(start as int);
    if start == 1 {
        assert(v@.drop_first() =~= d);
    } else {
        assert(v@.skip(0) =~= v@);
    }
    if start == v.len() {
        return None;
    }
    let mut i = start;
    while i < v.len()
        invariant
            start <= i <= v.len(),
            d == v@.skip(start as int),
            v.len() > 0,
            start == 1 ==> v@.drop_first() == d,
            start == 0 ==> v@ == d,
            (start == 1) == (v@[0] == '+' || v@[0] == '-'),
            start <= 1,
            neg == (v@[0] == '-'),
            forall|k: int| 0 <= k < i - start ==> is_digit(#[trigger] d[k]),
        decreases v.len() - i,
    {
        let u = v[i] as u32;
        assert(d[i - start] == v@[i as int]);
        if !(48 <= u && u <= 57) {
            assert(!is_digit(d[i - start]));
            assert(!all_digits(d));
            assert(start == 0 ==> !all_digits(v@));
            return None;
        }
        i = i + 1;
    }
    assert(all_digits(d));
    let mut acc: i64 = 0;
    let mut j = start;
    while j < v.len()
        invariant
            start <= j <= v.len(),
            d == v@.skip(start as int),
            v.len() > 0,
            start == 1 ==> v@.drop_first() == d,
            start == 0 ==> v@ == d,
            (start == 1) == (v@[0] == '+' || v@[0] == '-'),
            start <= 1,
            neg == (v@[0] == '-'),
            all_digits(d),
            acc == digits_value(d.take(j - start)),
            0 <= acc <= 0x8000_0000,
        decreases v.len() - j,
    {
        assert(d[j - start] == v@[j as int]);
        assert(is_digit(d[j - start]));
        let digit = (v[j] as u32 - 48) as i64;
        proof {
            assert(d.take(j - start + 1).drop_last() =~= d.take(j - start));
            assert(d.take(j - start + 1).last() == d[j - start]);
        }
        acc = acc * 10 + digit;
        j = j + 1;
        if acc > 0x8000_0000 {
            proof {
                lemma_digits_value_prefix(d, j - start);
            }
            assert(d.len() > 0);
            return None;
        }
    }
    assert(d.take(d.len() as int) =~= d);
    if start == 1 {
        assert(v@.drop_first() =~= d);
        if neg {
            Some((0 - acc) as i32)
        } else if acc > 0x7fff_ffff {
            None
        } else {
            Some(acc as i32)
        }
    } else {
        assert(v@.skip(0) =~= v@);
        if acc > 0x7fff_ffff {
            None
        } else {
            Some(acc as i32)
        }
    }
}

} // verus!
