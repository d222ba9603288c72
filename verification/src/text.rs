//! Text handling over sequences of characters: the trimming, searching,
//! replacing and number formats that the sysfs attribute files call for.

use vstd::prelude::*;

verus! {

/// `String::push` of std. The contract claims that it appends `c` to the
/// characters of `s` and changes nothing else of them.
pub assume_specification[ String::push ](s: &mut String, c: char)
    ensures
        final(s)@ == old(s)@.push(c),
;

/// Whether `c` has the Unicode property White_Space.
pub open spec fn is_whitespace(c: char) -> bool {
    let n = c as u32;
    ||| 0x09 <= n <= 0x0D
    ||| n == 0x20
    ||| n == 0x85
    ||| n == 0xA0
    ||| n == 0x1680
    ||| 0x2000 <= n <= 0x200A
    ||| n == 0x2028
    ||| n == 0x2029
    ||| n == 0x202F
    ||| n == 0x205F
    ||| n == 0x3000
}

/// `s` without its leading white space.
pub open spec fn trim_start(s: Seq<char>) -> Seq<char>
    decreases s.len(),
{
    if s.len() > 0 && is_whitespace(s.first()) {
        trim_start(s.drop_first())
    } else {
        s
    }
}

/// `s` without its trailing white space.
pub open spec fn trim_end(s: Seq<char>) -> Seq<char>
    decreases s.len(),
{
    if s.len() > 0 && is_whitespace(s.last()) {
        trim_end(s.drop_last())
    } else {
        s
    }
}

/// `s` without its leading and trailing white space.
pub open spec fn trim(s: Seq<char>) -> Seq<char> {
    trim_end(trim_start(s))
}

/// The characters of `s`, one element each.
fn chars_of(s: &str) -> (out: Vec<char>)
    ensures
        out@ == s@,
{
    let mut out: Vec<char> = Vec::new();
    for c in it: s.chars()
        invariant
            out@ == it.seq().take(it.index() as int),
            it.seq() == s@,
    {
        out.push(c);
    }
    out
}

/// The string made of `v[from..to]`.
fn string_of(v: &Vec<char>, from: usize, to: usize) -> (out: String)
    requires
        from <= to <= v.len(),
    ensures
        out@ == v@.subrange(from as int, to as int),
{
    let mut out = String::new();
    let mut i: usize = from;
    while i < to
        invariant
            from <= i <= to <= v.len(),
            out@ == v@.subrange(from as int, i as int),
        decreases to - i,
    {
        out.push(v[i]);
        i = i + 1;
    }
    out
}

fn whitespace(c: char) -> (b: bool)
    ensures
        b == is_whitespace(c),
{
    let n: u32 = c as u32;
    (0x09 <= n && n <= 0x0D) || n == 0x20 || n == 0x85 || n == 0xA0 || n == 0x1680 || (0x2000 <= n
        && n <= 0x200A) || n == 0x2028 || n == 0x2029 || n == 0x202F || n == 0x205F || n == 0x3000
}

/// The index of the first character of `v` that is not white space, or
/// `v.len()`.
fn skip_whitespace(v: &Vec<char>) -> (start: usize)
    ensures
        start <= v.len(),
        trim_start(v@) == v@.skip(start as int),
{
    let mut start: usize = 0;
    assert(v@.skip(0) == v@);
    while start < v.len() && whitespace(v[start])
        invariant
            start <= v.len(),
            trim_start(v@) == trim_start(v@.skip(start as int)),
        decreases v.len() - start,
    {
        assert(v@.skip(start as int).drop_first() == v@.skip(start as int + 1));
        start = start + 1;
    }
    start
}

/// The end of `v[start..]` once its trailing white space is dropped.
fn drop_whitespace(v: &Vec<char>, start: usize) -> (end: usize)
    requires
        start <= v.len(),
    ensures
        start <= end <= v.len(),
        trim_end(v@.skip(start as int)) == v@.subrange(start as int, end as int),
{
    let mut end: usize = v.len();
    while end > start && whitespace(v[end - 1])
        invariant
            start <= end <= v.len(),
            trim_end(v@.skip(start as int)) == trim_end(v@.subrange(start as int, end as int)),
        decreases end,
    {
        assert(v@.subrange(start as int, end as int).drop_last() == v@.subrange(
            start as int,
            end as int - 1,
        ));
        end = end - 1;
    }
    end
}

/// `s` without its trailing white space.
pub fn trimmed_end(s: &str) -> (out: String)
    ensures
        out@ == trim_end(s@),
{
    let v = chars_of(s);
    let end = drop_whitespace(&v, 0);
    assert(v@.skip(0) == v@);
    string_of(&v, 0, end)
}

/// `s` without its leading and trailing white space.
pub fn trimmed(s: &str) -> (out: String)
    ensures
        out@ == trim(s@),
{
    let v = chars_of(s);
    let start = skip_whitespace(&v);
    let end = drop_whitespace(&v, start);
    string_of(&v, start, end)
}

/// Whether `a` and `b` hold the same characters.
pub fn same_text(a: &str, b: &str) -> (same: bool)
    ensures
        same == (a@ == b@),
{
    let x = chars_of(a);
    let y = chars_of(b);
    assert(x@.subrange(0, x@.len() as int) == x@);
    same_chars(&x, 0, x.len(), &y)
}

/// Whether `v[from..to]` holds the characters of `w`.
fn same_chars(v: &Vec<char>, from: usize, to: usize, w: &Vec<char>) -> (same: bool)
    requires
        from <= to <= v.len(),
    ensures
        same == (v@.subrange(from as int, to as int) == w@),
{
    if to - from != w.len() {
        return false;
    }
    let mut k: usize = 0;
    while k < w.len()
        invariant
            from <= to <= v.len(),
            to - from == w.len(),
            k <= w.len(),
            forall|j: int| 0 <= j < k ==> v@[from + j] == w@[j],
        decreases w.len() - k,
    {
        if v[from + k] != w[k] {
            return false;
        }
        k = k + 1;
    }
    assert(v@.subrange(from as int, to as int) =~= w@);
    true
}

/// Whether `pat` stands in `s` at index `i`.
pub open spec fn occurs_at(s: Seq<char>, pat: Seq<char>, i: int) -> bool {
    &&& 0 <= i
    &&& i + pat.len() <= s.len()
    &&& s.subrange(i, i + pat.len()) == pat
}

/// Whether `pat` stands somewhere in `s`.
pub open spec fn contains(s: Seq<char>, pat: Seq<char>) -> bool {
    exists|i: int| occurs_at(s, pat, i)
}

fn matches_at(v: &Vec<char>, pat: &Vec<char>, i: usize) -> (found: bool)
    requires
        i <= v.len(),
    ensures
        found == occurs_at(v@, pat@, i as int),
{
    if pat.len() > v.len() - i {
        return false;
    }
    same_chars(v, i, i + pat.len(), pat)
}

fn contains_chars(v: &Vec<char>, pat: &Vec<char>) -> (found: bool)
    ensures
        found == contains(v@, pat@),
{
    let mut i: usize = 0;
    while i < v.len()
        invariant
            i <= v.len(),
            forall|j: int| 0 <= j < i ==> !occurs_at(v@, pat@, j),
        decreases v.len() - i,
    {
        if matches_at(v, pat, i) {
            return true;
        }
        i = i + 1;
    }
    matches_at(v, pat, i)
}

/// Whether `pat` stands somewhere in `s`.
pub fn text_contains(s: &str, pat: &str) -> (found: bool)
    ensures
        found == contains(s@, pat@),
{
    let v = chars_of(s);
    let p = chars_of(pat);
    contains_chars(&v, &p)
}

/// `s` without `prefix` at its start; none where `s` does not start with it.
pub open spec fn without_prefix(s: Seq<char>, prefix: Seq<char>) -> Option<Seq<char>> {
    if occurs_at(s, prefix, 0) {
        Some(s.skip(prefix.len() as int))
    } else {
        None
    }
}

/// `s` without `prefix` at its start, where it starts with it.
pub fn strip_prefix(s: &str, prefix: &str) -> (rest: Option<String>)
    ensures
        rest.deep_view() == without_prefix(s@, prefix@),
{
    let v = chars_of(s);
    let p = chars_of(prefix);
    if matches_at(&v, &p, 0) {
        Some(string_of(&v, p.len(), v.len()))
    } else {
        None
    }
}

/// `s` with each occurrence of `from` replaced by `to`, the occurrences
/// taken from the left and not overlapping. An empty `from` occurs before
/// each character and at the end.
pub open spec fn replace(s: Seq<char>, from: Seq<char>, to: Seq<char>) -> Seq<char>
    decreases s.len(),
{
    if from.len() == 0 {
        if s.len() == 0 {
            to
        } else {
            to + seq![s[0]] + replace(s.skip(1), from, to)
        }
    } else if occurs_at(s, from, 0) {
        to + replace(s.skip(from.len() as int), from, to)
    } else if s.len() > 0 {
        seq![s[0]] + replace(s.skip(1), from, to)
    } else {
        s
    }
}

fn push_all(out: &mut Vec<char>, src: &Vec<char>)
    ensures
        final(out)@ == old(out)@ + src@,
{
    let mut k: usize = 0;
    while k < src.len()
        invariant
            k <= src.len(),
            out@ == old(out)@ + src@.take(k as int),
        decreases src.len() - k,
    {
        out.push(src[k]);
        k = k + 1;
    }
}

fn replace_chars(v: &Vec<char>, from: &Vec<char>, to: &Vec<char>) -> (out: Vec<char>)
    ensures
        out@ == replace(v@, from@, to@),
{
    let mut out: Vec<char> = Vec::new();
    let mut i: usize = 0;
    assert(v@.skip(0) == v@);
    while i < v.len()
        invariant
            i <= v.len(),
            replace(v@, from@, to@) == out@ + replace(v@.skip(i as int), from@, to@),
        decreases v.len() - i,
    {
        let ghost rest = v@.skip(i as int);
        if from.len() == 0 {
            push_all(&mut out, to);
            out.push(v[i]);
            assert(rest.skip(1) == v@.skip(i + 1));
            i = i + 1;
        } else if matches_at(v, from, i) {
            assert(rest.subrange(0, from@.len() as int) == v@.subrange(
                i as int,
                i + from@.len(),
            ));
            push_all(&mut out, to);
            assert(rest.skip(from@.len() as int) == v@.skip(i + from@.len()));
            i = i + from.len();
        } else {
            assert(rest.subrange(0, from@.len() as int) == v@.subrange(
                i as int,
                i + from@.len(),
            ) || i + from@.len() > v@.len());
            out.push(v[i]);
            assert(rest.skip(1) == v@.skip(i + 1));
            i = i + 1;
        }
    }
    if from.len() == 0 {
        push_all(&mut out, to);
    }
    out
}

/// `s` with each occurrence of `from` replaced by `to`.
pub fn replaced(s: &str, from: &str, to: &str) -> (out: String)
    ensures
        out@ == replace(s@, from@, to@),
{
    let v = chars_of(s);
    let f = chars_of(from);
    let t = chars_of(to);
    let r = replace_chars(&v, &f, &t);
    string_of(&r, 0, r.len())
}

/// Whether `c` is one of the digits `0` to `9`.
pub open spec fn is_digit(c: char) -> bool {
    '0' <= c <= '9'
}

/// The number that the digit `c` stands for; 0 for any other character.
pub open spec fn digit_value(c: char) -> nat {
    if is_digit(c) {
        (c as u32 - '0' as u32) as nat
    } else {
        0
    }
}

/// The digit that stands for `d`, for `d` below 10.
pub open spec fn digit_char(d: nat) -> char {
    (d + '0' as u32) as char
}

/// The number that the digits of `s` write in base ten.
pub open spec fn decimal_value(s: Seq<char>) -> nat
    decreases s.len(),
{
    if s.len() == 0 {
        0
    } else {
        decimal_value(s.drop_last()) * 10 + digit_value(s.last())
    }
}

/// Whether `s` is one or more digits.
pub open spec fn is_number(s: Seq<char>) -> bool {
    s.len() > 0 && forall|i: int| 0 <= i < s.len() ==> is_digit(#[trigger] s[i])
}

/// The number that `s` writes: digits in base ten, after an optional `+`.
/// None where `s` has any other form or the number does not fit.
pub open spec fn parse_usize(s: Seq<char>) -> Option<usize> {
    let digits = if s.len() > 0 && s[0] == '+' {
        s.skip(1)
    } else {
        s
    };
    if is_number(digits) && decimal_value(digits) <= usize::MAX {
        Some(decimal_value(digits) as usize)
    } else {
        None
    }
}

/// `n` written in base ten, without leading zeros.
pub open spec fn decimal(n: nat) -> Seq<char>
    decreases n,
{
    if n < 10 {
        seq![digit_char(n)]
    } else {
        decimal(n / 10).push(digit_char(n % 10))
    }
}

/// A prefix of a numeral writes no larger a number than the numeral.
proof fn lemma_prefix_value(s: Seq<char>, k: int)
    requires
        0 <= k <= s.len(),
    ensures
        decimal_value(s.take(k)) <= decimal_value(s),
    decreases s.len(),
{
    if k == s.len() {
        assert(s.take(k) == s);
    } else {
        assert(s.drop_last().take(k) == s.take(k));
        lemma_prefix_value(s.drop_last(), k);
    }
}

/// The number that `s` writes, where it is digits after an optional `+` and
/// the number fits.
pub fn parse_number(s: &str) -> (r: Option<usize>)
    ensures
        r == parse_usize(s@),
{
    let v = chars_of(s);
    let start: usize = if v.len() > 0 && v[0] == '+' {
        1
    } else {
        0
    };
    let ghost digits = v@.skip(start as int);
    if start == v.len() {
        return None;
    }
    let mut acc: usize = 0;
    let mut i: usize = start;
    while i < v.len()
        invariant
            start <= i <= v.len(),
            start < v.len(),
            digits == v@.skip(start as int),
            digits == (if s@.len() > 0 && s@[0] == '+' {
                s@.skip(1)
            } else {
                s@
            }),
            forall|j: int| 0 <= j < i - start ==> is_digit(#[trigger] digits[j]),
            decimal_value(digits.take(i - start)) == acc,
        decreases v.len() - i,
    {
        let c = v[i];
        let ghost next = digits.take(i - start + 1);
        assert(next.drop_last() == digits.take(i - start));
        if !(c >= '0' && c <= '9') {
            assert(!is_digit(digits[i - start]));
            return None;
        }
        let d: usize = (c as u32 - '0' as u32) as usize;
        proof {
            lemma_prefix_value(digits, i - start + 1);
        }
        match acc.checked_mul(10) {
            None => {
                return None;
            },
            Some(m) => match m.checked_add(d) {
                None => {
                    return None;
                },
                Some(n) => {
                    acc = n;
                },
            },
        }
        i = i + 1;
    }
    assert(digits.take(i - start) == digits);
    Some(acc)
}

fn digit_of(d: usize) -> (c: char)
    requires
        d < 10,
    ensures
        c == digit_char(d as nat),
{
    (d as u8 + 48u8) as char
}

/// `n` written in base ten.
pub fn number_text(n: usize) -> (out: String)
    ensures
        out@ == decimal(n as nat),
{
    let mut low: Vec<char> = Vec::new();
    let mut m: usize = n;
    while m >= 10
        invariant
            decimal(n as nat) == decimal(m as nat) + Seq::new(
                low@.len(),
                |j: int| low@[low@.len() - 1 - j],
            ),
        decreases m,
    {
        low.push(digit_of(m % 10));
        m = m / 10;
    }
    low.push(digit_of(m));
    let mut out = String::new();
    let mut k: usize = low.len();
    while k > 0
        invariant
            k <= low.len(),
            out@ == Seq::new(low@.len(), |j: int| low@[low@.len() - 1 - j]).take(low.len() - k),
        decreases k,
    {
        k = k - 1;
        out.push(low[k]);
    }
    out
}

/// The number of digits that `s` ends in.
pub open spec fn trailing_digits(s: Seq<char>) -> nat
    decreases s.len(),
{
    if s.len() > 0 && is_digit(s.last()) {
        1 + trailing_digits(s.drop_last())
    } else {
        0
    }
}

/// A PCI address without its function suffix: the `.` and the digits after
/// it that end `s`. An address that does not end so is kept whole.
pub open spec fn without_function(s: Seq<char>) -> Seq<char> {
    let k = s.len() - trailing_digits(s);
    if k > 0 && s[k - 1] == '.' {
        s.take(k - 1)
    } else {
        s
    }
}

/// `address` without its function suffix.
pub fn strip_function(address: &str) -> (out: String)
    ensures
        out@ == without_function(address@),
{
    let v = chars_of(address);
    let mut k: usize = v.len();
    assert(v@.take(k as int) == v@);
    while k > 0 && v[k - 1] >= '0' && v[k - 1] <= '9'
        invariant
            k <= v.len(),
            trailing_digits(v@) == trailing_digits(v@.take(k as int)) + (v.len() - k),
        decreases k,
    {
        assert(v@.take(k as int).drop_last() == v@.take(k - 1));
        k = k - 1;
    }
    if k > 0 && v[k - 1] == '.' {
        string_of(&v, 0, k - 1)
    } else {
        string_of(&v, 0, v.len())
    }
}

/// The index of the first line feed in `s`, or `s.len()`.
pub open spec fn line_end(s: Seq<char>) -> int
    decreases s.len(),
{
    if s.len() == 0 || s[0] == '\n' {
        0
    } else {
        1 + line_end(s.drop_first())
    }
}

/// `s` without the carriage return that ends it, if one does.
pub open spec fn without_cr(s: Seq<char>) -> Seq<char> {
    if s.len() > 0 && s.last() == '\r' {
        s.drop_last()
    } else {
        s
    }
}

/// The lines of `s`: each ends at a line feed, which is dropped together
/// with a carriage return before it; what follows the last line feed is a
/// line of its own unless it is empty.
pub open spec fn lines(s: Seq<char>) -> Seq<Seq<char>>
    decreases s.len(),
{
    if s.len() == 0 {
        Seq::empty()
    } else {
        let end = line_end(s);
        if 0 <= end < s.len() {
            seq![without_cr(s.take(end))] + lines(s.skip(end + 1))
        } else {
            seq![s]
        }
    }
}

/// The lines of `s`.
pub fn split_lines(s: &str) -> (out: Vec<String>)
    ensures
        out.deep_view() == lines(s@),
{
    let v = chars_of(s);
    let mut out: Vec<String> = Vec::new();
    let mut i: usize = 0;
    assert(v@.skip(0) == v@);
    while i < v.len()
        invariant
            i <= v.len(),
            lines(v@) == out.deep_view() + lines(v@.skip(i as int)),
        decreases v.len() - i,
    {
        let ghost rest = v@.skip(i as int);
        let mut j: usize = i;
        assert(rest.skip(0) == rest);
        while j < v.len() && v[j] != '\n'
            invariant
                i <= j <= v.len(),
                rest == v@.skip(i as int),
                line_end(rest) == (j - i) + line_end(rest.skip(j - i)),
            decreases v.len() - j,
        {
            assert(rest.skip(j - i).drop_first() == rest.skip(j - i + 1));
            j = j + 1;
        }
        if j == v.len() {
            out.push(string_of(&v, i, j));
            i = j;
        } else {
            let end: usize = if j > i && v[j - 1] == '\r' {
                j - 1
            } else {
                j
            };
            assert(without_cr(rest.take(j - i)) == v@.subrange(i as int, end as int));
            out.push(string_of(&v, i, end));
            assert(rest.skip(j - i + 1) == v@.skip(j + 1));
            i = j + 1;
        }
    }
    out
}

/// The characters of `p` after its last `/`; all of `p` where it has none.
pub open spec fn last_component(p: Seq<char>) -> Seq<char>
    decreases p.len(),
{
    if p.len() == 0 || p.last() == '/' {
        Seq::empty()
    } else {
        last_component(p.drop_last()).push(p.last())
    }
}

/// The file name of the path `p`: its last component that is neither empty
/// nor `.`, unless that component is `..` or there is none.
pub open spec fn file_name(p: Seq<char>) -> Option<Seq<char>>
    decreases p.len(),
{
    let name = last_component(p);
    if name == seq!['.', '.'] {
        None
    } else if name.len() > 0 && name != seq!['.'] {
        Some(name)
    } else if name.len() < p.len() {
        file_name(p.take(p.len() - name.len() - 1))
    } else {
        None
    }
}

/// A stretch without `/` that ends `p`, with a `/` or nothing before it, is
/// the last component of `p`.
proof fn lemma_last_component(p: Seq<char>, start: int)
    requires
        0 <= start <= p.len(),
        forall|j: int| start <= j < p.len() ==> p[j] != '/',
        start > 0 ==> p[start - 1] == '/',
    ensures
        last_component(p) == p.skip(start),
    decreases p.len() - start,
{
    if start < p.len() {
        lemma_last_component(p.drop_last(), start);
    }
}

/// The file name of `path`.
pub fn base_name(path: &str) -> (name: Option<String>)
    ensures
        name.deep_view() == file_name(path@),
{
    let v = chars_of(path);
    let mut end: usize = v.len();
    assert(v@.take(end as int) == v@);
    loop
        invariant
            end <= v.len(),
            v@ == path@,
            file_name(path@) == file_name(v@.take(end as int)),
        decreases end,
    {
        let ghost p = v@.take(end as int);
        let mut start: usize = end;
        while start > 0 && v[start - 1] != '/'
            invariant
                start <= end <= v.len(),
                forall|j: int| start <= j < end ==> v@[j] != '/',
            decreases start,
        {
            start = start - 1;
        }
        proof {
            lemma_last_component(p, start as int);
            assert(p.skip(start as int) == v@.subrange(start as int, end as int));
        }
        let ghost name = v@.subrange(start as int, end as int);
        let len = end - start;
        if len == 2 && v[start] == '.' && v[start + 1] == '.' {
            assert(name =~= seq!['.', '.']);
            return None;
        }
        if len > 0 && !(len == 1 && v[start] == '.') {
            assert(name != seq!['.']) by {
                if name == seq!['.'] {
                    assert(name[0] == '.');
                }
            }
            return Some(string_of(&v, start, end));
        }
        assert(name.len() == 0 || name =~= seq!['.']);
        if start == 0 {
            return None;
        }
        assert(p.take(p.len() - name.len() - 1) == v@.take(start - 1));
        end = start - 1;
    }
}

} // verus!
