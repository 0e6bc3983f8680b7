//! Character-level text helpers with specifications over `Seq<char>`.
use vstd::prelude::*;

verus! {

/// Appends one character to a string (`String::push`).
#[verifier::external_body]
pub(crate) fn push_char(s: &mut String, c: char)
    ensures
        final(s)@ == old(s)@.push(c),
{
    s.push(c);
}

/// The characters of `s`, in order.
pub fn chars_of(s: &str) -> (r: Vec<char>)
    ensures
        r@ == s@,
{
    let mut r: Vec<char> = Vec::new();
    for c in it: s.chars()
        invariant
            r@ == it.seq().take(it.index() as int),
    {
        r.push(c);
    }
    r
}

/// A string holding the characters of `v`, in order.
pub fn string_of(v: &Vec<char>) -> (r: String)
    ensures
        r@ == v@,
{
    let mut r = String::new();
    let mut i: usize = 0;
    while i < v.len()
        invariant
            i <= v.len(),
            r@ == v@.take(i as int),
        decreases v.len() - i,
    {
        push_char(&mut r, v[i]);
        assert(v@.take(i as int).push(v@[i as int]) =~= v@.take(i + 1));
        i = i + 1;
    }
    assert(v@.take(v.len() as int) =~= v@);
    r
}

/// `c` is white space in the Unicode sense (`char::is_whitespace`).
pub open spec fn is_white(c: char) -> bool {
    let u = c as u32;
    ||| 0x9 <= u <= 0xD
    ||| u == 0x20
    ||| u == 0x85
    ||| u == 0xA0
    ||| u == 0x1680
    ||| 0x2000 <= u <= 0x200A
    ||| u == 0x2028
    ||| u == 0x2029
    ||| u == 0x202F
    ||| u == 0x205F
    ||| u == 0x3000
}

/// `c` is white space in the Unicode sense.
pub fn white(c: char) -> (r: bool)
    ensures
        r == is_white(c),
{
    let u = c as u32;
    (0x9 <= u && u <= 0xD) || u == 0x20 || u == 0x85 || u == 0xA0 || u == 0x1680 || (0x2000 <= u
        && u <= 0x200A) || u == 0x2028 || u == 0x2029 || u == 0x202F || u == 0x205F || u == 0x3000
}

/// `s` without its leading white space.
pub open spec fn trim_start_seq(s: Seq<char>) -> Seq<char>
    decreases s.len(),
{
    if s.len() > 0 && is_white(s[0]) {
        trim_start_seq(s.drop_first())
    } else {
        s
    }
}

/// `s` without its trailing white space.
pub open spec fn trim_end_seq(s: Seq<char>) -> Seq<char>
    decreases s.len(),
{
    if s.len() > 0 && is_white(s.last()) {
        trim_end_seq(s.drop_last())
    } else {
        s
    }
}

/// `s` without leading and trailing white space (`str::trim`).
pub open spec fn trim_seq(s: Seq<char>) -> Seq<char> {
    trim_end_seq(trim_start_seq(s))
}

proof fn lemma_trim_start_from(s: Seq<char>, i: int)
    requires
        0 <= i <= s.len(),
        forall|j: int| 0 <= j < i ==> is_white(s[j]),
    ensures
        trim_start_seq(s) == trim_start_seq(s.subrange(i, s.len() as int)),
    decreases i,
{
    if i > 0 {
        assert(s.drop_first().subrange(i - 1, s.drop_first().len() as int) =~= s.subrange(
            i,
            s.len() as int,
        ));
        lemma_trim_start_from(s.drop_first(), i - 1);
    } else {
        assert(s.subrange(0, s.len() as int) =~= s);
    }
}

proof fn lemma_trim_end_to(s: Seq<char>, i: int)
    requires
        0 <= i <= s.len(),
        forall|j: int| i <= j < s.len() ==> is_white(s[j]),
    ensures
        trim_end_seq(s) == trim_end_seq(s.subrange(0, i)),
    decreases s.len() - i,
{
    if i < s.len() {
        assert(s.drop_last().subrange(0, i) =~= s.subrange(0, i));
        lemma_trim_end_to(s.drop_last(), i);
    } else {
        assert(s.subrange(0, i) =~= s);
    }
}

/// `s` without leading and trailing white space.
pub fn trim(s: &str) -> (r: String)
    ensures
        r@ == trim_seq(s@),
{
    let v = chars_of(s);
    let mut a: usize = 0;
    while a < v.len() && white(v[a])
        invariant
            a <= v.len(),
            v@ == s@,
            forall|j: int| 0 <= j < a ==> is_white(v@[j]),
        decreases v.len() - a,
    {
        a = a + 1;
    }
    proof {
        lemma_trim_start_from(v@, a as int);
    }
    let ghost rest = v@.subrange(a as int, v@.len() as int);
    assert(trim_start_seq(rest) == rest);
    let mut b: usize = v.len();
    while b > a && white(v[b - 1])
        invariant
            a <= b <= v.len(),
            v@ == s@,
            rest == v@.subrange(a as int, v@.len() as int),
            forall|j: int| b <= j < v@.len() ==> is_white(v@[j]),
        decreases b,
    {
        b = b - 1;
    }
    proof {
        lemma_trim_end_to(rest, b - a);
        assert(rest.subrange(0, b - a) =~= v@.subrange(a as int, b as int));
        let m = v@.subrange(a as int, b as int);
        if m.len() > 0 {
            assert(m.last() == v@[b - 1]);
        }
    }
    string_of(&slice_chars(&v, a, b))
}

/// The characters of `v` at indices `from..to`.
pub fn slice_chars(v: &Vec<char>, from: usize, to: usize) -> (r: Vec<char>)
    requires
        from <= to <= v@.len(),
    ensures
        r@ == v@.subrange(from as int, to as int),
{
    let mut r: Vec<char> = Vec::new();
    let mut i = from;
    while i < to
        invariant
            from <= i <= to <= v@.len(),
            r@ == v@.subrange(from as int, i as int),
        decreases to - i,
    {
        r.push(v[i]);
        assert(r@ =~= v@.subrange(from as int, i + 1));
        i = i + 1;
    }
    r
}

/// `p` occurs in `s` starting at index `i`.
pub open spec fn occurs_at(s: Seq<char>, p: Seq<char>, i: int) -> bool {
    0 <= i && i + p.len() <= s.len() && s.subrange(i, i + p.len()) == p
}

/// `p` occurs somewhere in `s` (`str::contains`).
pub open spec fn contains_seq(s: Seq<char>, p: Seq<char>) -> bool {
    exists|i: int| occurs_at(s, p, i)
}

/// `s` begins with `p`.
pub open spec fn starts_with_seq(s: Seq<char>, p: Seq<char>) -> bool {
    occurs_at(s, p, 0)
}

/// `s` ends with `p`.
pub open spec fn ends_with_seq(s: Seq<char>, p: Seq<char>) -> bool {
    p.len() <= s.len() && occurs_at(s, p, s.len() - p.len())
}

/// Whether `p` occurs in `s` at index `i`.
pub fn occurs_at_exec(s: &Vec<char>, p: &Vec<char>, i: usize) -> (r: bool)
    ensures
        r == occurs_at(s@, p@, i as int),
{
    if i > s.len() || p.len() > s.len() - i {
        return false;
    }
    let mut k: usize = 0;
    while k < p.len()
        invariant
            i + p@.len() <= s@.len(),
            k <= p@.len(),
            forall|j: int| 0 <= j < k ==> s@[i + j] == p@[j],
        decreases p.len() - k,
    {
        assert(i + k < s@.len() && s@.len() == s.len());
        if s[i + k] != p[k] {
            assert(s@.subrange(i as int, i + p@.len())[k as int] != p@[k as int]);
            return false;
        }
        k = k + 1;
    }
    assert(s@.subrange(i as int, i + p@.len()) =~= p@);
    true
}

/// The first index at which `p` occurs in `s`, if any.
pub fn find_seq(s: &Vec<char>, p: &Vec<char>) -> (r: Option<usize>)
    ensures
        r matches Some(i) ==> occurs_at(s@, p@, i as int) && forall|j: int|
            0 <= j < i ==> !occurs_at(s@, p@, j),
        r is None ==> !contains_seq(s@, p@),
{
    let mut i: usize = 0;
    while i < s.len()
        invariant
            i <= s@.len(),
            forall|j: int| 0 <= j < i ==> !occurs_at(s@, p@, j),
        decreases s@.len() - i,
    {
        if occurs_at_exec(s, p, i) {
            return Some(i);
        }
        i = i + 1;
    }
    if occurs_at_exec(s, p, i) {
        return Some(i);
    }
    assert forall|j: int| !occurs_at(s@, p@, j) by {
        if 0 <= j <= i {
        }
    }
    None
}

/// Whether `pattern` occurs in `s`.
pub fn contains(s: &str, pattern: &str) -> (r: bool)
    ensures
        r == contains_seq(s@, pattern@),
{
    let sv = chars_of(s);
    let pv = chars_of(pattern);
    find_seq(&sv, &pv).is_some()
}

/// Whether `s` begins with `pattern`.
pub fn starts_with(s: &str, pattern: &str) -> (r: bool)
    ensures
        r == starts_with_seq(s@, pattern@),
{
    let sv = chars_of(s);
    let pv = chars_of(pattern);
    occurs_at_exec(&sv, &pv, 0)
}

/// Whether `s` ends with `pattern`.
pub fn ends_with(s: &str, pattern: &str) -> (r: bool)
    ensures
        r == ends_with_seq(s@, pattern@),
{
    let sv = chars_of(s);
    let pv = chars_of(pattern);
    if pv.len() > sv.len() {
        false
    } else {
        occurs_at_exec(&sv, &pv, sv.len() - pv.len())
    }
}

/// The pieces of `s` between occurrences of `c` (`str::split` with a
/// character): one more piece than there are occurrences.
pub open spec fn split_seq(s: Seq<char>, c: char) -> Seq<Seq<char>>
    decreases s.len(),
{
    if s.len() == 0 {
        seq![Seq::empty()]
    } else {
        let pre = split_seq(s.drop_last(), c);
        if s.last() == c {
            pre.push(Seq::empty())
        } else {
            pre.update(pre.len() - 1, pre.last().push(s.last()))
        }
    }
}

pub proof fn lemma_split_nonempty(s: Seq<char>, c: char)
    ensures
        split_seq(s, c).len() >= 1,
    decreases s.len(),
{
    if s.len() > 0 {
        lemma_split_nonempty(s.drop_last(), c);
    }
}

/// The mathematical values of a list of character vectors.
pub open spec fn views_of(v: Seq<Vec<char>>) -> Seq<Seq<char>> {
    v.map_values(|x: Vec<char>| x@)
}

/// The mathematical values of a list of strings.
pub open spec fn string_views(v: Seq<String>) -> Seq<Seq<char>> {
    v.map_values(|x: String| x@)
}

/// Splits `s` at every occurrence of `c`.
pub fn split_chars(s: &Vec<char>, c: char) -> (r: Vec<Vec<char>>)
    ensures
        views_of(r@) == split_seq(s@, c),
{
    let mut parts: Vec<Vec<char>> = Vec::new();
    let mut cur: Vec<char> = Vec::new();
    let mut i: usize = 0;
    assert(s@.take(0) =~= Seq::<char>::empty());
    assert(views_of(parts@).push(cur@) =~= split_seq(s@.take(0), c));
    while i < s.len()
        invariant
            i <= s@.len(),
            views_of(parts@).push(cur@) == split_seq(s@.take(i as int), c),
        decreases s.len() - i,
    {
        let ghost pre = split_seq(s@.take(i as int), c);
        assert(s@.take(i + 1).drop_last() =~= s@.take(i as int));
        assert(s@.take(i + 1).last() == s@[i as int]);
        if s[i] == c {
            let done = cur;
            parts.push(done);
            cur = Vec::new();
            assert(views_of(parts@) =~= pre);
            assert(views_of(parts@).push(cur@) =~= split_seq(s@.take(i + 1), c));
        } else {
            cur.push(s[i]);
            assert(views_of(parts@).push(cur@) =~= split_seq(s@.take(i + 1), c));
        }
        i = i + 1;
    }
    assert(s@.take(s@.len() as int) =~= s@);
    parts.push(cur);
    parts
}

/// `parts` joined with `sep` between neighbours (`[T]::join`).
pub open spec fn join_seq(parts: Seq<Seq<char>>, sep: Seq<char>) -> Seq<char>
    decreases parts.len(),
{
    if parts.len() == 0 {
        Seq::empty()
    } else if parts.len() == 1 {
        parts[0]
    } else {
        join_seq(parts.drop_last(), sep) + sep + parts.last()
    }
}

/// Appends the characters of `w` to `out`.
pub fn extend_chars(out: &mut Vec<char>, w: &Vec<char>)
    ensures
        final(out)@ == old(out)@ + w@,
{
    let mut i: usize = 0;
    while i < w.len()
        invariant
            i <= w@.len(),
            out@ == old(out)@ + w@.take(i as int),
        decreases w.len() - i,
    {
        out.push(w[i]);
        assert(out@ =~= old(out)@ + w@.take(i + 1));
        i = i + 1;
    }
    assert(w@.take(w@.len() as int) =~= w@);
}

/// Joins `parts` with `sep` between neighbours.
pub fn join_chars(parts: &Vec<Vec<char>>, sep: &Vec<char>) -> (r: Vec<char>)
    ensures
        r@ == join_seq(views_of(parts@), sep@),
{
    let mut r: Vec<char> = Vec::new();
    let mut i: usize = 0;
    while i < parts.len()
        invariant
            i <= parts@.len(),
            r@ == join_seq(views_of(parts@).take(i as int), sep@),
        decreases parts.len() - i,
    {
        let ghost before = views_of(parts@).take(i as int);
        assert(views_of(parts@).take(i + 1).drop_last() =~= before);
        if i > 0 {
            extend_chars(&mut r, sep);
        }
        extend_chars(&mut r, &parts[i]);
        if i == 0 {
            assert(r@ =~= join_seq(views_of(parts@).take(i + 1), sep@));
        } else {
            assert(r@ =~= join_seq(views_of(parts@).take(i + 1), sep@));
        }
        i = i + 1;
    }
    assert(views_of(parts@).take(parts@.len() as int) =~= views_of(parts@));
    r
}

/// `s` with every trailing repetition of `p` removed (`str::trim_end_matches`).
pub open spec fn trim_end_matches_seq(s: Seq<char>, p: Seq<char>) -> Seq<char>
    decreases s.len(),
{
    if p.len() > 0 && ends_with_seq(s, p) {
        trim_end_matches_seq(s.take(s.len() - p.len()), p)
    } else {
        s
    }
}

/// Removes every trailing repetition of `p` from `s`.
pub fn trim_end_matches(s: &Vec<char>, p: &Vec<char>) -> (r: Vec<char>)
    ensures
        r@ == trim_end_matches_seq(s@, p@),
{
    let mut end: usize = s.len();
    assert(s@.take(end as int) =~= s@);
    while p.len() > 0 && p.len() <= end && occurs_at_exec(s, p, end - p.len())
        invariant
            end <= s@.len(),
            trim_end_matches_seq(s@.take(end as int), p@) == trim_end_matches_seq(s@, p@),
        decreases end,
    {
        proof {
            let t = s@.take(end as int);
            assert(t.subrange(end - p@.len(), end as int) =~= s@.subrange(end - p@.len(), end as int));
            assert(ends_with_seq(t, p@));
            assert(t.take(t.len() - p@.len()) =~= s@.take(end - p@.len()));
        }
        end = end - p.len();
    }
    proof {
        let t = s@.take(end as int);
        if p@.len() > 0 && p@.len() <= end {
            assert(t.subrange(end - p@.len(), end as int) =~= s@.subrange(end - p@.len(), end as int));
        }
        assert(s@.take(s@.len() as int) =~= s@);
    }
    slice_chars(s, 0, end)
}

/// The character of decimal digit `d`.
pub open spec fn digit_char(d: int) -> char {
    if d == 0 {
        '0'
    } else if d == 1 {
        '1'
    } else if d == 2 {
        '2'
    } else if d == 3 {
        '3'
    } else if d == 4 {
        '4'
    } else if d == 5 {
        '5'
    } else if d == 6 {
        '6'
    } else if d == 7 {
        '7'
    } else if d == 8 {
        '8'
    } else {
        '9'
    }
}

/// The decimal digits of `n`, without leading zeros (`{}` formatting).
pub open spec fn decimal(n: nat) -> Seq<char>
    decreases n,
{
    if n < 10 {
        seq![digit_char(n as int)]
    } else {
        decimal(n / 10).push(digit_char((n % 10) as int))
    }
}

/// `s` preceded by enough zeros to be `width` long (`{:0width}` formatting).
pub open spec fn zero_pad(s: Seq<char>, width: nat) -> Seq<char> {
    if s.len() >= width {
        s
    } else {
        Seq::new((width - s.len()) as nat, |i: int| '0') + s
    }
}

/// The decimal form of a signed number, with a leading `-` when negative.
pub open spec fn signed_decimal(n: int) -> Seq<char> {
    if n < 0 {
        seq!['-'] + decimal((-n) as nat)
    } else {
        decimal(n as nat)
    }
}

fn digit(d: u64) -> (c: char)
    requires
        d < 10,
    ensures
        c == digit_char(d as int),
{
    match d {
        0 => '0',
        1 => '1',
        2 => '2',
        3 => '3',
        4 => '4',
        5 => '5',
        6 => '6',
        7 => '7',
        8 => '8',
        _ => '9',
    }
}

/// Appends the decimal digits of `n` to `out`.
pub fn push_decimal(out: &mut Vec<char>, n: u64)
    ensures
        final(out)@ == old(out)@ + decimal(n as nat),
    decreases n,
{
    if n >= 10 {
        push_decimal(out, n / 10);
    }
    out.push(digit(n % 10));
    assert(out@ =~= old(out)@ + decimal(n as nat));
}

/// Appends `n` in decimal, zero-padded to `width` characters.
pub fn push_zero_padded(out: &mut Vec<char>, n: u64, width: usize)
    ensures
        final(out)@ == old(out)@ + zero_pad(decimal(n as nat), width as nat),
{
    let mut digits: Vec<char> = Vec::new();
    push_decimal(&mut digits, n);
    assert(digits@ =~= decimal(n as nat));
    let mut k: usize = digits.len();
    let ghost start = out@;
    while k < width
        invariant
            digits.len() <= k <= width || (k == digits.len() && k >= width),
            k >= digits.len(),
            out@ == start + Seq::new((k - digits@.len()) as nat, |i: int| '0'),
            start == old(out)@,
        decreases width - k,
    {
        out.push('0');
        assert(out@ =~= start + Seq::new((k + 1 - digits@.len()) as nat, |i: int| '0'));
        k = k + 1;
    }
    extend_chars(out, &digits);
    if digits.len() >= width {
        assert(out@ =~= old(out)@ + zero_pad(decimal(n as nat), width as nat));
    } else {
        assert(out@ =~= old(out)@ + zero_pad(decimal(n as nat), width as nat));
    }
}

/// Appends `n` in decimal, with a leading `-` when negative.
pub fn push_signed_decimal(out: &mut Vec<char>, n: i64)
    ensures
        final(out)@ == old(out)@ + signed_decimal(n as int),
{
    if n < 0 {
        out.push('-');
        let m: i128 = 0i128 - (n as i128);
        push_decimal(out, m as u64);
        assert(out@ =~= old(out)@ + signed_decimal(n as int));
    } else {
        push_decimal(out, n as u64);
    }
}

/// Appends the characters of `s` to `out`.
pub fn push_str(out: &mut Vec<char>, s: &str)
    ensures
        final(out)@ == old(out)@ + s@,
{
    let v = chars_of(s);
    extend_chars(out, &v);
}

/// Whether `a` and `b` hold the same characters.
pub fn same_text(a: &str, b: &str) -> (r: bool)
    ensures
        r == (a@ == b@),
{
    let av = chars_of(a);
    let bv = chars_of(b);
    if av.len() != bv.len() {
        return false;
    }
    let r = occurs_at_exec(&av, &bv, 0);
    proof {
        if r {
            assert(av@.subrange(0, bv@.len() as int) =~= av@);
        } else {
            assert(av@.subrange(0, bv@.len() as int) =~= av@);
        }
    }
    r
}

/// Bytes that `c` takes in UTF-8.
pub open spec fn char_utf8_len(c: char) -> nat {
    let u = c as u32;
    if u < 0x80 {
        1
    } else if u < 0x800 {
        2
    } else if u < 0x10000 {
        3
    } else {
        4
    }
}

/// Bytes that `s` takes in UTF-8 (`str::len`).
pub open spec fn utf8_len(s: Seq<char>) -> nat
    decreases s.len(),
{
    if s.len() == 0 {
        0
    } else {
        utf8_len(s.drop_last()) + char_utf8_len(s.last())
    }
}

proof fn lemma_utf8_len_prefix(s: Seq<char>, i: int)
    requires
        0 <= i <= s.len(),
    ensures
        utf8_len(s.take(i)) <= utf8_len(s),
    decreases s.len() - i,
{
    if i < s.len() {
        lemma_utf8_len_prefix(s, i + 1);
        assert(s.take(i + 1).drop_last() =~= s.take(i));
    } else {
        assert(s.take(i) =~= s);
    }
}

/// The UTF-8 length of `s` when it is at most `cap` bytes, `None` when longer.
pub fn utf8_len_upto(s: &Vec<char>, cap: usize) -> (r: Option<usize>)
    ensures
        r matches Some(n) ==> n == utf8_len(s@) && n <= cap,
        r is None ==> utf8_len(s@) > cap,
{
    let mut n: usize = 0;
    let mut i: usize = 0;
    while i < s.len()
        invariant
            i <= s@.len(),
            n == utf8_len(s@.take(i as int)),
            n <= cap,
        decreases s.len() - i,
    {
        let u = s[i] as u32;
        let w: usize = if u < 0x80 {
            1
        } else if u < 0x800 {
            2
        } else if u < 0x10000 {
            3
        } else {
            4
        };
        assert(s@.take(i + 1).drop_last() =~= s@.take(i as int));
        assert(s@.take(i + 1).last() == s@[i as int]);
        if w > cap - n {
            proof {
                lemma_utf8_len_prefix(s@, i + 1);
            }
            return None;
        }
        n = n + w;
        i = i + 1;
    }
    assert(s@.take(s@.len() as int) =~= s@);
    Some(n)
}

/// `s` with every occurrence of `p` replaced by `q`, leftmost first and not
/// overlapping (`str::replace`); an empty `p` occurs before every character
/// and at the end.
pub open spec fn replace_seq(s: Seq<char>, p: Seq<char>, q: Seq<char>) -> Seq<char>
    decreases s.len(),
{
    if p.len() == 0 {
        if s.len() == 0 {
            q
        } else {
            q + seq![s[0]] + replace_seq(s.skip(1), p, q)
        }
    } else if s.len() == 0 {
        Seq::empty()
    } else if occurs_at(s, p, 0) {
        q + replace_seq(s.skip(p.len() as int), p, q)
    } else {
        seq![s[0]] + replace_seq(s.skip(1), p, q)
    }
}

/// `s` with every occurrence of `p` replaced by `q`.
pub fn replace_all(s: &Vec<char>, p: &Vec<char>, q: &Vec<char>) -> (r: Vec<char>)
    ensures
        r@ == replace_seq(s@, p@, q@),
{
    let mut out: Vec<char> = Vec::new();
    let mut i: usize = 0;
    assert(s@.skip(0) =~= s@);
    assert(out@ + replace_seq(s@, p@, q@) =~= replace_seq(s@, p@, q@));
    while i < s.len()
        invariant
            i <= s@.len(),
            out@ + replace_seq(s@.skip(i as int), p@, q@) == replace_seq(s@, p@, q@),
        decreases s.len() - i,
    {
        let ghost rest = s@.skip(i as int);
        assert(rest[0] == s@[i as int]);
        assert(rest.skip(1) =~= s@.skip(i + 1));
        if p.len() == 0 {
            let ghost before = out@;
            extend_chars(&mut out, q);
            out.push(s[i]);
            assert(out@ =~= before + q@ + seq![s@[i as int]]);
            i = i + 1;
        } else if occurs_at_exec(s, p, i) {
            assert(rest.subrange(0, p@.len() as int) =~= s@.subrange(i as int, i + p@.len()));
            assert(rest.skip(p@.len() as int) =~= s@.skip(i + p@.len()));
            let ghost before = out@;
            extend_chars(&mut out, q);
            assert(out@ =~= before + q@);
            i = i + p.len();
        } else {
            assert(!occurs_at(rest, p@, 0)) by {
                if occurs_at(rest, p@, 0) {
                    assert(rest.subrange(0, p@.len() as int) =~= s@.subrange(i as int, i + p@.len()));
                }
            }
            let ghost before = out@;
            out.push(s[i]);
            assert(out@ =~= before + seq![s@[i as int]]);
            i = i + 1;
        }
    }
    assert(s@.skip(i as int) =~= Seq::<char>::empty());
    if p.len() == 0 {
        extend_chars(&mut out, q);
    } else {
        assert(out@ + Seq::<char>::empty() =~= out@);
    }
    out
}

/// Index of the first of the first `n` members named `key`.
pub open spec fn member_index<V>(members: Seq<(String, V)>, key: Seq<char>, n: int) -> Option<int>
    decreases n,
{
    if n <= 0 {
        None
    } else {
        match member_index(members, key, n - 1) {
            Some(i) => Some(i),
            None => if members[n - 1].0@ == key { Some(n - 1) } else { None },
        }
    }
}

/// Once a member named `key` is among the first `m`, it stays the first
/// one named `key` among more.
pub proof fn lemma_member_index_stable<V>(members: Seq<(String, V)>, key: Seq<char>, m: int, n: int)
    requires
        0 <= m <= n,
        member_index(members, key, m) is Some,
    ensures
        member_index(members, key, n) == member_index(members, key, m),
    decreases n - m,
{
    if n > m {
        lemma_member_index_stable(members, key, m, n - 1);
    }
}

} // verus!
