//! Character-level helpers shared by the rest of the library: decimal
//! rendering of integers and string building.

use vstd::prelude::*;

verus! {

/// The decimal digits of a natural number, most significant first.
pub open spec fn nat_digits(n: nat) -> Seq<char>
    decreases n,
{
    if n < 10 {
        seq![digit_char(n)]
    } else {
        nat_digits(n / 10).push(digit_char(n % 10))
    }
}

/// The character of a single decimal digit.
pub open spec fn digit_char(d: nat) -> char {
    if d == 0 { '0' }
    else if d == 1 { '1' }
    else if d == 2 { '2' }
    else if d == 3 { '3' }
    else if d == 4 { '4' }
    else if d == 5 { '5' }
    else if d == 6 { '6' }
    else if d == 7 { '7' }
    else if d == 8 { '8' }
    else { '9' }
}

/// Decimal rendering of an integer, with a leading `-` for negatives.
pub open spec fn int_decimal(i: int) -> Seq<char> {
    if i < 0 {
        seq!['-'] + nat_digits((-i) as nat)
    } else {
        nat_digits(i as nat)
    }
}

fn digit_to_char(d: u64) -> (c: char)
    requires
        d < 10,
    ensures
        c == digit_char(d as nat),
{
    if d == 0 { '0' }
    else if d == 1 { '1' }
    else if d == 2 { '2' }
    else if d == 3 { '3' }
    else if d == 4 { '4' }
    else if d == 5 { '5' }
    else if d == 6 { '6' }
    else if d == 7 { '7' }
    else if d == 8 { '8' }
    else { '9' }
}

/// Appends one character with std's `String::push`, which vstd leaves
/// unspecified; claimed: the characters afterwards are the old ones followed
/// by `c`.
#[verifier::external_body]
pub(crate) fn push_char(s: &mut String, c: char)
    ensures
        final(s)@ == old(s)@.push(c),
{
    s.push(c);
}

fn digits_of(n: u64) -> (v: Vec<char>)
    ensures
        v@ == nat_digits(n as nat),
    decreases n,
{
    if n < 10 {
        let mut v = Vec::new();
        v.push(digit_to_char(n));
        v
    } else {
        let mut v = digits_of(n / 10);
        v.push(digit_to_char(n % 10));
        v
    }
}

/// Appends the characters of `chars` to `s`.
pub fn push_chars(s: &mut String, chars: &Vec<char>)
    ensures
        final(s)@ == old(s)@ + chars@,
{
    let mut i: usize = 0;
    while i < chars.len()
        invariant
            i <= chars.len(),
            s@ == old(s)@ + chars@.subrange(0, i as int),
        decreases chars.len() - i,
    {
        push_char(s, chars[i]);
        i = i + 1;
        assert(chars@.subrange(0, i as int) == chars@.subrange(0, i - 1).push(chars@[i - 1]));
    }
    assert(chars@.subrange(0, chars.len() as int) == chars@);
}

/// Appends the decimal rendering of `value` to `s`.
pub fn push_i64(s: &mut String, value: i64)
    ensures
        final(s)@ == old(s)@ + int_decimal(value as int),
{
    if value < 0 {
        push_char(s, '-');
        let magnitude: u64 = if value == i64::MIN {
            9223372036854775808u64
        } else {
            (-value) as u64
        };
        let digits = digits_of(magnitude);
        push_chars(s, &digits);
        assert(old(s)@ + int_decimal(value as int) == old(s)@.push('-') + digits@);
    } else {
        let digits = digits_of(value as u64);
        push_chars(s, &digits);
    }
}

/// Appends the decimal rendering of `value` to `s`.
pub fn push_u64(s: &mut String, value: u64)
    ensures
        final(s)@ == old(s)@ + nat_digits(value as nat),
{
    let digits = digits_of(value);
    push_chars(s, &digits);
}

/// Appends a string slice to `s`.
pub fn push_str(s: &mut String, t: &str)
    ensures
        final(s)@ == old(s)@ + t@,
{
    s.append(t);
}

/// A fresh owned copy of a string slice.
pub fn owned(t: &str) -> (s: String)
    ensures
        s@ == t@,
{
    String::from_str(t)
}

/// The characters of a string slice, in order.
pub fn chars_of(t: &str) -> (v: Vec<char>)
    ensures
        v@ == t@,
{
    let n = t.unicode_len();
    let mut v: Vec<char> = Vec::new();
    let mut i: usize = 0;
    while i < n
        invariant
            n == t@.len(),
            i <= n,
            v@ == t@.subrange(0, i as int),
        decreases n - i,
    {
        v.push(t.get_char(i));
        i = i + 1;
    }
    v
}

/// A string holding exactly the given characters.
pub fn string_from_chars(chars: &Vec<char>) -> (s: String)
    ensures
        s@ == chars@,
{
    let mut s = String::new();
    push_chars(&mut s, chars);
    s
}

/// Equality of two strings by their characters.
pub fn str_eq(a: &str, b: &str) -> (r: bool)
    ensures
        r == (a@ == b@),
{
    let x = chars_of(a);
    let y = chars_of(b);
    chars_eq(&x, &y)
}

/// Equality of two character vectors.
pub fn chars_eq(x: &Vec<char>, y: &Vec<char>) -> (r: bool)
    ensures
        r == (x@ == y@),
{
    if x.len() != y.len() {
        return false;
    }
    let mut i: usize = 0;
    while i < x.len()
        invariant
            x.len() == y.len(),
            i <= x.len(),
            forall|j: int| 0 <= j < i ==> x@[j] == y@[j],
        decreases x.len() - i,
    {
        if x[i] != y[i] {
            return false;
        }
        i = i + 1;
    }
    assert(x@ =~= y@);
    true
}

} // verus!

verus! {

/// The first position of `c` in `s`, if any.
pub open spec fn find_char(s: Seq<char>, c: char) -> Option<int>
    decreases s.len(),
{
    if s.len() == 0 {
        None
    } else if s[0] == c {
        Some(0)
    } else {
        match find_char(s.drop_first(), c) {
            Some(i) => Some(i + 1),
            None => None,
        }
    }
}

/// Searching a character right after a prefix that lacks it finds it there.
pub proof fn lemma_find_char_after(a: Seq<char>, c: char, b: Seq<char>)
    requires
        !a.contains(c),
    ensures
        find_char(a + seq![c] + b, c) == Some(a.len() as int),
    decreases a.len(),
{
    if a.len() == 0 {
        assert((a + seq![c] + b)[0] == c);
    } else {
        assert((a + seq![c] + b)[0] == a[0]);
        assert((a + seq![c] + b).drop_first() =~= a.drop_first() + seq![c] + b);
        assert(!a.drop_first().contains(c)) by {
            if a.drop_first().contains(c) {
                let k = choose|k: int| 0 <= k < a.drop_first().len() && a.drop_first()[k] == c;
                assert(a[k + 1] == c);
            }
        }
        lemma_find_char_after(a.drop_first(), c, b);
    }
}

/// A found position holds the character, and nothing before it does.
pub proof fn lemma_find_char_found(s: Seq<char>, c: char)
    ensures
        match find_char(s, c) {
            Some(i) => 0 <= i < s.len() && s[i] == c && !s.take(i).contains(c),
            None => !s.contains(c),
        },
    decreases s.len(),
{
    if s.len() > 0 {
        lemma_find_char_found(s.drop_first(), c);
        match find_char(s.drop_first(), c) {
            Some(i) => {
                if s[0] != c {
                    assert(s.take(i + 1) =~= seq![s[0]] + s.drop_first().take(i));
                    if s.take(i + 1).contains(c) {
                        let t = s.take(i + 1);
                        let k = choose|k: int| 0 <= k < t.len() && #[trigger] t[k] == c;
                        if k > 0 {
                            assert(s.drop_first().take(i)[k - 1] == c);
                        }
                    }
                } else {
                    assert(s.take(0) =~= Seq::<char>::empty());
                }
            },
            None => {
                if s[0] == c {
                    assert(s.take(0) =~= Seq::<char>::empty());
                } else if s.contains(c) {
                    let k = choose|k: int| 0 <= k < s.len() && s[k] == c;
                    assert(s.drop_first()[k - 1] == c);
                }
            },
        }
    }
}

/// The first position of `c` in `chars`, if any.
pub fn find_char_exec(chars: &Vec<char>, c: char) -> (r: Option<usize>)
    ensures
        match r {
            Some(i) => find_char(chars@, c) == Some(i as int),
            None => find_char(chars@, c) is None,
        },
{
    let mut i: usize = 0;
    assert(chars@.subrange(0, chars@.len() as int) =~= chars@);
    while i < chars.len()
        invariant
            i <= chars@.len(),
            find_char(chars@, c) == match find_char(chars@.subrange(i as int, chars@.len() as int), c) {
                Some(k) => Some(k + i),
                None => None,
            },
        decreases chars.len() - i,
    {
        assert(chars@.subrange(i as int, chars@.len() as int).drop_first() =~= chars@.subrange(
            i + 1,
            chars@.len() as int,
        ));
        if chars[i] == c {
            return Some(i);
        }
        i = i + 1;
    }
    None
}

/// A string holding `chars[from..to]`.
pub fn string_from_range(chars: &Vec<char>, from: usize, to: usize) -> (s: String)
    requires
        from <= to <= chars@.len(),
    ensures
        s@ == chars@.subrange(from as int, to as int),
{
    let mut s = String::new();
    let mut i = from;
    while i < to
        invariant
            from <= i <= to <= chars@.len(),
            s@ == chars@.subrange(from as int, i as int),
        decreases to - i,
    {
        push_char(&mut s, chars[i]);
        i = i + 1;
        assert(chars@.subrange(from as int, i as int) =~= chars@.subrange(from as int, i - 1).push(
            chars@[i - 1],
        ));
    }
    s
}

} // verus!

verus! {

/// Lexicographic order of character sequences by code point.
pub open spec fn lex_lt(a: Seq<char>, b: Seq<char>) -> bool
    decreases a.len(),
{
    if a.len() == 0 {
        b.len() > 0
    } else if b.len() == 0 {
        false
    } else if a[0] != b[0] {
        (a[0] as u32) < (b[0] as u32)
    } else {
        lex_lt(a.drop_first(), b.drop_first())
    }
}

/// Lexicographic order is irreflexive.
pub proof fn lemma_lex_irreflexive(a: Seq<char>)
    ensures
        !lex_lt(a, a),
    decreases a.len(),
{
    if a.len() > 0 {
        lemma_lex_irreflexive(a.drop_first());
    }
}

/// Distinct sequences are ordered one way or the other.
pub proof fn lemma_lex_total(a: Seq<char>, b: Seq<char>)
    ensures
        a == b || lex_lt(a, b) || lex_lt(b, a),
    decreases a.len(),
{
    if a.len() > 0 && b.len() > 0 && a[0] == b[0] {
        lemma_lex_total(a.drop_first(), b.drop_first());
        if a.drop_first() == b.drop_first() {
            assert(a =~= seq![a[0]] + a.drop_first());
            assert(b =~= seq![b[0]] + b.drop_first());
        }
    } else if a.len() == 0 && b.len() == 0 {
        assert(a =~= b);
    } else if a.len() > 0 && b.len() > 0 {
        vstd::utf8::char_u32_cast(a[0], a[0] as u32);
        vstd::utf8::char_u32_cast(b[0], b[0] as u32);
        assert((a[0] as u32) != (b[0] as u32));
    }
}

/// Lexicographic order is transitive.
pub proof fn lemma_lex_transitive(a: Seq<char>, b: Seq<char>, c: Seq<char>)
    requires
        lex_lt(a, b),
        lex_lt(b, c),
    ensures
        lex_lt(a, c),
    decreases a.len(),
{
    if a.len() > 0 && b.len() > 0 && c.len() > 0 && a[0] == b[0] && b[0] == c[0] {
        lemma_lex_transitive(a.drop_first(), b.drop_first(), c.drop_first());
    }
}

/// Whether `a` comes strictly before `b` lexicographically.
pub fn lex_less(a: &Vec<char>, b: &Vec<char>) -> (r: bool)
    ensures
        r == lex_lt(a@, b@),
{
    let mut i: usize = 0;
    assert(a@.skip(0) =~= a@);
    assert(b@.skip(0) =~= b@);
    while i < a.len() && i < b.len() && a[i] == b[i]
        invariant
            i <= a@.len(),
            i <= b@.len(),
            lex_lt(a@, b@) == lex_lt(a@.skip(i as int), b@.skip(i as int)),
        decreases a.len() - i,
    {
        assert(a@.skip(i as int).drop_first() =~= a@.skip(i + 1));
        assert(b@.skip(i as int).drop_first() =~= b@.skip(i + 1));
        i = i + 1;
    }
    if i == a.len() {
        i < b.len()
    } else if i == b.len() {
        false
    } else {
        (a[i] as u32) < (b[i] as u32)
    }
}

/// Unicode white space, as `char::is_whitespace` classifies it.
pub open spec fn is_white_space(c: char) -> bool {
    let u = c as u32;
    ||| 9 <= u <= 13
    ||| u == 32
    ||| u == 0x85
    ||| u == 0xA0
    ||| u == 0x1680
    ||| 0x2000 <= u <= 0x200A
    ||| u == 0x2028
    ||| u == 0x2029
    ||| u == 0x202F
    ||| u == 0x205F
    ||| u == 0x3000
}

/// Whether `c` is Unicode white space.
pub fn char_is_white_space(c: char) -> (r: bool)
    ensures
        r == is_white_space(c),
{
    let u = c as u32;
    (9 <= u && u <= 13) || u == 32 || u == 0x85 || u == 0xA0 || u == 0x1680 || (0x2000 <= u && u
        <= 0x200A) || u == 0x2028 || u == 0x2029 || u == 0x202F || u == 0x205F || u == 0x3000
}


/// `s` without its leading white space, as `str::trim_start` gives it.
pub open spec fn trim_start_spec(s: Seq<char>) -> Seq<char>
    decreases s.len(),
{
    if s.len() > 0 && is_white_space(s[0]) {
        trim_start_spec(s.drop_first())
    } else {
        s
    }
}

/// `s` without its trailing white space, as `str::trim_end` gives it.
pub open spec fn trim_end_spec(s: Seq<char>) -> Seq<char>
    decreases s.len(),
{
    if s.len() > 0 && is_white_space(s.last()) {
        trim_end_spec(s.drop_last())
    } else {
        s
    }
}

/// `s` without surrounding white space, as `str::trim` gives it.
pub open spec fn trim_spec(s: Seq<char>) -> Seq<char> {
    trim_end_spec(trim_start_spec(s))
}

/// Trimming the start stops at the first character that is not white space.
pub proof fn lemma_trim_start_at(s: Seq<char>, k: int)
    requires
        0 <= k <= s.len(),
        forall|i: int| 0 <= i < k ==> is_white_space(#[trigger] s[i]),
        k == s.len() || !is_white_space(s[k]),
    ensures
        trim_start_spec(s) == s.skip(k),
    decreases k,
{
    if k > 0 {
        assert(is_white_space(s[0]));
        let d = s.drop_first();
        assert forall|i: int| 0 <= i < k - 1 implies is_white_space(#[trigger] d[i]) by {
            assert(d[i] == s[i + 1]);
        }
        if k < s.len() {
            assert(d[k - 1] == s[k]);
        }
        lemma_trim_start_at(d, k - 1);
        assert(d.skip(k - 1) =~= s.skip(k));
    } else {
        assert(s.skip(0) =~= s);
    }
}

/// Trimming the end stops after the last character that is not white space.
pub proof fn lemma_trim_end_at(s: Seq<char>, k: int)
    requires
        0 <= k <= s.len(),
        forall|i: int| k <= i < s.len() ==> is_white_space(#[trigger] s[i]),
        k == 0 || !is_white_space(s[k - 1]),
    ensures
        trim_end_spec(s) == s.take(k),
    decreases s.len() - k,
{
    if k < s.len() {
        assert(is_white_space(s[s.len() - 1]));
        let d = s.drop_last();
        assert forall|i: int| k <= i < d.len() implies is_white_space(#[trigger] d[i]) by {
            assert(d[i] == s[i]);
        }
        if k > 0 {
            assert(d[k - 1] == s[k - 1]);
        }
        lemma_trim_end_at(d, k);
        assert(d.take(k) =~= s.take(k));
    } else {
        assert(s.take(k) =~= s);
    }
}

/// The first position in `lo..hi` that does not hold white space, or `hi`.
pub fn skip_white(chars: &Vec<char>, lo: usize, hi: usize) -> (k: usize)
    requires
        lo <= hi <= chars.len(),
    ensures
        lo <= k <= hi,
        forall|i: int| lo <= i < k ==> is_white_space(#[trigger] chars@[i]),
        k == hi || !is_white_space(chars@[k as int]),
{
    let mut k = lo;
    while k < hi && char_is_white_space(chars[k])
        invariant
            lo <= k <= hi,
            hi <= chars.len(),
            forall|i: int| lo <= i < k ==> is_white_space(#[trigger] chars@[i]),
        decreases hi - k,
    {
        k = k + 1;
    }
    k
}

/// The end of `lo..hi` once trailing white space is dropped.
pub fn trailing_white_start(chars: &Vec<char>, lo: usize, hi: usize) -> (k: usize)
    requires
        lo <= hi <= chars.len(),
    ensures
        lo <= k <= hi,
        forall|i: int| k <= i < hi ==> is_white_space(#[trigger] chars@[i]),
        k == lo || !is_white_space(chars@[k - 1]),
{
    let mut k = hi;
    while k > lo && char_is_white_space(chars[k - 1])
        invariant
            lo <= k <= hi,
            hi <= chars.len(),
            forall|i: int| k <= i < hi ==> is_white_space(#[trigger] chars@[i]),
        decreases k - lo,
    {
        k = k - 1;
    }
    k
}

/// The characters of `chars` in `lo..hi`.
pub fn chars_range(chars: &Vec<char>, lo: usize, hi: usize) -> (r: Vec<char>)
    requires
        lo <= hi <= chars.len(),
    ensures
        r@ == chars@.subrange(lo as int, hi as int),
{
    let mut r: Vec<char> = Vec::new();
    let mut i = lo;
    while i < hi
        invariant
            lo <= i <= hi,
            hi <= chars.len(),
            r@ == chars@.subrange(lo as int, i as int),
        decreases hi - i,
    {
        r.push(chars[i]);
        i = i + 1;
    }
    r
}

/// `chars` in `lo..hi` with surrounding white space removed.
pub fn trimmed_range(chars: &Vec<char>, lo: usize, hi: usize) -> (r: Vec<char>)
    requires
        lo <= hi <= chars.len(),
    ensures
        r@ == trim_spec(chars@.subrange(lo as int, hi as int)),
{
    let a = skip_white(chars, lo, hi);
    let b = trailing_white_start(chars, a, hi);
    proof {
        let s = chars@.subrange(lo as int, hi as int);
        assert forall|i: int| 0 <= i < a - lo implies is_white_space(#[trigger] s[i]) by {
            assert(s[i] == chars@[lo + i]);
        }
        if a < hi {
            assert(s[a - lo] == chars@[a as int]);
        }
        lemma_trim_start_at(s, a - lo);
        let t = chars@.subrange(a as int, hi as int);
        assert(s.skip(a - lo) =~= t);
        assert forall|i: int| b - a <= i < t.len() implies is_white_space(#[trigger] t[i]) by {
            assert(t[i] == chars@[a + i]);
        }
        if b > a {
            assert(t[b - a - 1] == chars@[b - 1]);
        }
        lemma_trim_end_at(t, b - a);
        assert(t.take(b - a) =~= chars@.subrange(a as int, b as int));
    }
    chars_range(chars, a, b)
}

/// A line without the `'\r'` of a `"\r\n"` ending.
pub open spec fn line_body(l: Seq<char>) -> Seq<char> {
    if l.len() > 0 && l.last() == '\r' {
        l.drop_last()
    } else {
        l
    }
}

/// The lines of `s`, as `str::lines` splits them: at `"\n"` or `"\r\n"`,
/// with no empty line after a final line ending.
pub open spec fn lines_spec(s: Seq<char>) -> Seq<Seq<char>>
    decreases s.len(),
{
    if s.len() == 0 {
        Seq::empty()
    } else {
        match find_char(s, '\n') {
            None => seq![s],
            Some(i) => {
                proof {
                    lemma_find_char_found(s, '\n');
                }
                seq![line_body(s.take(i))] + lines_spec(s.skip(i + 1))
            },
        }
    }
}

/// The contents of a list of character vectors.
pub open spec fn char_vec_views(v: Seq<Vec<char>>) -> Seq<Seq<char>> {
    v.map_values(|c: Vec<char>| c@)
}

/// The lines of `chars`, as `str::lines` splits them.
pub fn split_lines(chars: &Vec<char>) -> (r: Vec<Vec<char>>)
    ensures
        char_vec_views(r@) == lines_spec(chars@),
{
    let n = chars.len();
    let mut out: Vec<Vec<char>> = Vec::new();
    let mut start: usize = 0;
    assert(chars@.skip(0) =~= chars@);
    while start < n
        invariant
            n == chars.len(),
            start <= n,
            lines_spec(chars@) == char_vec_views(out@) + lines_spec(chars@.skip(start as int)),
        decreases n - start,
    {
        let mut j = start;
        while j < n && chars[j] != '\n'
            invariant
                n == chars.len(),
                start <= j <= n,
                forall|k: int| start <= k < j ==> chars@[k] != '\n',
            decreases n - j,
        {
            j = j + 1;
        }
        let ghost t = chars@.skip(start as int);
        let ghost before = out@;
        let mut line = chars_range(chars, start, j);
        proof {
            assert(line@ =~= t.take(j - start));
        }
        if j < n {
            if line.len() > 0 && line[line.len() - 1] == '\r' {
                line.pop();
            }
            proof {
                let a = t.take(j - start);
                let b = t.skip(j - start + 1);
                assert(t =~= a + seq!['\n'] + b);
                assert(!a.contains('\n')) by {
                    if a.contains('\n') {
                        let k = choose|k: int| 0 <= k < a.len() && a[k] == '\n';
                        assert(chars@[start + k] == '\n');
                    }
                }
                lemma_find_char_after(a, '\n', b);
                assert(b =~= chars@.skip(j + 1));
                assert(line@ == line_body(a));
            }
            out.push(line);
            proof {
                assert(char_vec_views(out@) =~= char_vec_views(before).push(line@));
                assert(lines_spec(t) == seq![line_body(t.take(j - start))] + lines_spec(
                    chars@.skip(j + 1),
                ));
                assert(char_vec_views(out@) + lines_spec(chars@.skip(j + 1)) =~= char_vec_views(
                    before,
                ) + lines_spec(t));
            }
            start = j + 1;
        } else {
            proof {
                lemma_find_char_found(t, '\n');
                if t.contains('\n') {
                    let k = choose|k: int| 0 <= k < t.len() && t[k] == '\n';
                    assert(chars@[start + k] == '\n');
                }
                assert(t.take(j - start) =~= t);
                assert(lines_spec(t) == seq![t]);
            }
            out.push(line);
            proof {
                assert(char_vec_views(out@) =~= char_vec_views(before).push(line@));
                assert(chars@.skip(n as int) =~= Seq::<char>::empty());
                assert(char_vec_views(out@) + lines_spec(chars@.skip(n as int)) =~= char_vec_views(
                    before,
                ) + lines_spec(t));
            }
            start = n;
        }
    }
    assert(chars@.skip(n as int) =~= Seq::<char>::empty());
    assert(char_vec_views(out@) + Seq::<Seq<char>>::empty() =~= char_vec_views(out@));
    out
}

/// Whether `p` occurs in `s` as a contiguous run.
pub open spec fn has_infix(s: Seq<char>, p: Seq<char>) -> bool {
    exists|i: int| 0 <= i && i + p.len() <= s.len() && #[trigger] s.subrange(i, i + p.len()) == p
}

/// Whether `p` occurs in `s` as a contiguous run.
pub fn contains_chars(s: &Vec<char>, p: &Vec<char>) -> (r: bool)
    ensures
        r == has_infix(s@, p@),
{
    if p.len() > s.len() {
        proof {
            if has_infix(s@, p@) {
                let i = choose|i: int|
                    0 <= i && i + p@.len() <= s@.len() && #[trigger] s@.subrange(i, i + p@.len())
                        == p@;
            }
        }
        return false;
    }
    let last = s.len() - p.len();
    let mut i: usize = 0;
    while i <= last
        invariant
            last == s.len() - p.len(),
            p.len() <= s.len(),
            i <= last + 1,
            forall|j: int| 0 <= j < i ==> #[trigger] s@.subrange(j, j + p@.len()) != p@,
        decreases last + 1 - i,
    {
        let mut k: usize = 0;
        while k < p.len() && s[i + k] == p[k]
            invariant
                i <= last,
                last == s.len() - p.len(),
                k <= p.len(),
                forall|m: int| 0 <= m < k ==> s@[i + m] == p@[m],
            decreases p.len() - k,
        {
            k = k + 1;
        }
        if k == p.len() {
            assert(s@.subrange(i as int, i + p@.len()) =~= p@);
            return true;
        }
        assert(s@.subrange(i as int, i + p@.len())[k as int] != p@[k as int]);
        i = i + 1;
    }
    proof {
        if has_infix(s@, p@) {
            let j = choose|j: int|
                0 <= j && j + p@.len() <= s@.len() && #[trigger] s@.subrange(j, j + p@.len()) == p@;
            assert(s@.subrange(j, j + p@.len()) != p@);
        }
    }
    false
}

} // verus!
