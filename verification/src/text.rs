//! Text helpers with exact specifications: owned copies, equality,
//! decimal and hexadecimal numerals, joining.
use vstd::prelude::*;

verus! {

/// An owned copy of a string slice.
pub fn owned(s: &str) -> (r: String)
    ensures
        r@ == s@,
{
    s.to_string()
}

/// A copy of a string.
pub fn copy(s: &String) -> (r: String)
    ensures
        r@ == s@,
{
    s.clone()
}

/// The empty string.
pub fn empty() -> (r: String)
    ensures
        r@ == Seq::<char>::empty(),
{
    String::new()
}

/// Whether two string slices hold the same text.
pub fn str_eq(a: &str, b: &str) -> (r: bool)
    ensures
        r == (a@ == b@),
{
    let x = a.to_string();
    let y = b.to_string();
    x == y
}

/// Appends a string slice.
pub fn push_str(s: &mut String, t: &str)
    ensures
        final(s)@ == old(s)@ + t@,
{
    s.append(t);
}

/// Whether `prefix` is a prefix of `s`.
pub fn starts_with(s: &str, prefix: &str) -> (r: bool)
    ensures
        r == prefix@.is_prefix_of(s@),
{
    let n = s.unicode_len();
    let m = prefix.unicode_len();
    if m > n {
        return false;
    }
    let mut i: usize = 0;
    while i < m
        invariant
            0 <= i <= m <= n,
            n == s@.len(),
            m == prefix@.len(),
            forall|k: int| 0 <= k < i ==> prefix@[k] == s@[k],
        decreases m - i,
    {
        if s.get_char(i) != prefix.get_char(i) {
            return false;
        }
        i = i + 1;
    }
    true
}

/// The character of a decimal digit.
pub open spec fn digit_char(d: int) -> char {
    if d == 0 {
        '0'
    } else if d == 1 {
        '1'
    } else if d == 2 {
        '2'
    } else if d == 3 {
        '3'
    } else if d == 4 {
        '4'
    } else if d == 5 {
        '5'
    } else if d == 6 {
        '6'
    } else if d == 7 {
        '7'
    } else if d == 8 {
        '8'
    } else {
        '9'
    }
}

/// The decimal numeral of `n`, without leading zeros.
pub open spec fn decimal(n: nat) -> Seq<char>
    decreases n,
{
    if n < 10 {
        seq![digit_char(n as int)]
    } else {
        decimal(n / 10).push(digit_char((n % 10) as int))
    }
}

/// The decimal numeral of a signed integer: a minus sign before negatives.
pub open spec fn signed_decimal(n: int) -> Seq<char> {
    if n < 0 {
        seq!['-'] + decimal((-n) as nat)
    } else {
        decimal(n as nat)
    }
}

fn digit_str(d: u64) -> (s: &'static str)
    requires
        d < 10,
    ensures
        s@ == seq![digit_char(d as int)],
{
    proof {
        reveal_strlit("0");
        reveal_strlit("1");
        reveal_strlit("2");
        reveal_strlit("3");
        reveal_strlit("4");
        reveal_strlit("5");
        reveal_strlit("6");
        reveal_strlit("7");
        reveal_strlit("8");
        reveal_strlit("9");
    }
    if d == 0 {
        "0"
    } else if d == 1 {
        "1"
    } else if d == 2 {
        "2"
    } else if d == 3 {
        "3"
    } else if d == 4 {
        "4"
    } else if d == 5 {
        "5"
    } else if d == 6 {
        "6"
    } else if d == 7 {
        "7"
    } else if d == 8 {
        "8"
    } else {
        "9"
    }
}

/// Appends the decimal numeral of `n`.
pub fn push_decimal(s: &mut String, n: u64)
    ensures
        final(s)@ == old(s)@ + decimal(n as nat),
    decreases n,
{
    if n >= 10 {
        push_decimal(s, n / 10);
        s.append(digit_str(n % 10));
        proof {
            assert(final(s)@ =~= old(s)@ + decimal(n as nat));
        }
    } else {
        s.append(digit_str(n));
    }
}

/// Appends the decimal numeral of a signed `n`.
pub fn push_signed_decimal(s: &mut String, n: i64)
    ensures
        final(s)@ == old(s)@ + signed_decimal(n as int),
{
    if n < 0 {
        proof {
            reveal_strlit("-");
        }
        s.append("-");
        let m: u64 = if n == i64::MIN {
            9223372036854775808u64
        } else {
            (-n) as u64
        };
        push_decimal(s, m);
        proof {
            assert(final(s)@ =~= old(s)@ + signed_decimal(n as int));
        }
    } else {
        push_decimal(s, n as u64);
    }
}

/// The decimal numeral of `n` as a string.
pub fn decimal_string(n: u64) -> (r: String)
    ensures
        r@ == decimal(n as nat),
{
    let mut s = String::new();
    push_decimal(&mut s, n);
    proof {
        assert(s@ =~= decimal(n as nat));
    }
    s
}

/// The character of a lowercase hexadecimal digit.
pub open spec fn hex_char(d: int) -> char {
    if d < 10 {
        digit_char(d)
    } else if d == 10 {
        'a'
    } else if d == 11 {
        'b'
    } else if d == 12 {
        'c'
    } else if d == 13 {
        'd'
    } else if d == 14 {
        'e'
    } else {
        'f'
    }
}

/// The lowercase hexadecimal numeral of `n`, without leading zeros.
pub open spec fn hex(n: nat) -> Seq<char>
    decreases n,
{
    if n < 16 {
        seq![hex_char(n as int)]
    } else {
        hex(n / 16).push(hex_char((n % 16) as int))
    }
}

fn hex_digit_str(d: u64) -> (s: &'static str)
    requires
        d < 16,
    ensures
        s@ == seq![hex_char(d as int)],
{
    proof {
        reveal_strlit("a");
        reveal_strlit("b");
        reveal_strlit("c");
        reveal_strlit("d");
        reveal_strlit("e");
        reveal_strlit("f");
    }
    if d < 10 {
        digit_str(d)
    } else if d == 10 {
        "a"
    } else if d == 11 {
        "b"
    } else if d == 12 {
        "c"
    } else if d == 13 {
        "d"
    } else if d == 14 {
        "e"
    } else {
        "f"
    }
}

/// Appends the lowercase hexadecimal numeral of `n`.
pub fn push_hex(s: &mut String, n: u64)
    ensures
        final(s)@ == old(s)@ + hex(n as nat),
    decreases n,
{
    if n >= 16 {
        push_hex(s, n / 16);
        s.append(hex_digit_str(n % 16));
        proof {
            assert(final(s)@ =~= old(s)@ + hex(n as nat));
        }
    } else {
        s.append(hex_digit_str(n));
    }
}

/// Parts joined with `sep` between each two.
pub open spec fn join(parts: Seq<Seq<char>>, sep: Seq<char>) -> Seq<char>
    decreases parts.len(),
{
    if parts.len() == 0 {
        Seq::empty()
    } else if parts.len() == 1 {
        parts[0]
    } else {
        join(parts.drop_last(), sep) + sep + parts.last()
    }
}

/// The views of a sequence of strings.
pub open spec fn views(v: Seq<String>) -> Seq<Seq<char>> {
    v.map_values(|s: String| s@)
}

/// The strings joined with `sep` between each two.
pub fn join_strings(parts: &Vec<String>, sep: &str) -> (r: String)
    ensures
        r@ == join(views(parts@), sep@),
{
    let mut r = String::new();
    let mut i: usize = 0;
    while i < parts.len()
        invariant
            0 <= i <= parts.len(),
            r@ == join(views(parts@.subrange(0, i as int)), sep@),
        decreases parts.len() - i,
    {
        let ghost pre = views(parts@.subrange(0, i as int));
        let ghost post = views(parts@.subrange(0, i + 1));
        proof {
            assert(post.drop_last() =~= pre);
            assert(post.last() == parts@[i as int]@);
        }
        if i > 0 {
            r.append(sep);
        }
        r.append(parts[i].as_str());
        proof {
            if i == 0 {
                assert(r@ =~= join(post, sep@));
            } else {
                assert(r@ =~= join(post, sep@));
            }
        }
        i = i + 1;
    }
    proof {
        assert(parts@.subrange(0, parts@.len() as int) == parts@);
    }
    r
}

/// The characters of a string slice, in order.
pub fn chars_of(s: &str) -> (v: Vec<char>)
    ensures
        v@ == s@,
{
    broadcast use vstd::string::axiom_spec_iter;
    let mut v: Vec<char> = Vec::new();
    for c in it: s.chars()
        invariant
            v@ == it.seq().take(it.index() as int),
    {
        v.push(c);
    }
    v
}

/// The texts of the items of `s`, one after another.
pub open spec fn concat_map<T>(s: Seq<T>, f: spec_fn(T) -> Seq<char>) -> Seq<char>
    decreases s.len(),
{
    if s.len() == 0 {
        Seq::empty()
    } else {
        concat_map(s.drop_last(), f) + f(s.last())
    }
}

/// One more item of a prefix adds its text at the end.
pub proof fn lemma_concat_map_step<T>(s: Seq<T>, f: spec_fn(T) -> Seq<char>, i: int)
    requires
        0 <= i < s.len(),
    ensures
        concat_map(s.subrange(0, i + 1), f) == concat_map(s.subrange(0, i), f) + f(s[i]),
{
    assert(s.subrange(0, i + 1).drop_last() =~= s.subrange(0, i));
}

/// The whole sequence is its own longest prefix.
pub proof fn lemma_concat_map_full<T>(s: Seq<T>, f: spec_fn(T) -> Seq<char>)
    ensures
        concat_map(s.subrange(0, s.len() as int), f) == concat_map(s, f),
{
    assert(s.subrange(0, s.len() as int) =~= s);
}

/// Appends a character, by `String::push`, whose documentation says it
/// appends the given character to the end of the string.
#[verifier::external_body]
pub fn push_char(s: &mut String, c: char)
    ensures
        final(s)@ == old(s)@.push(c),
{
    s.push(c);
}

/// The string of the characters `v[lo..hi]`.
pub fn string_of(v: &Vec<char>, lo: usize, hi: usize) -> (r: String)
    requires
        lo <= hi <= v@.len(),
    ensures
        r@ == v@.subrange(lo as int, hi as int),
{
    let mut r = String::new();
    let mut i = lo;
    while i < hi
        invariant
            lo <= i <= hi <= v@.len(),
            r@ == v@.subrange(lo as int, i as int),
        decreases hi - i,
    {
        push_char(&mut r, v[i]);
        proof {
            assert(r@ =~= v@.subrange(lo as int, i + 1));
        }
        i = i + 1;
    }
    r
}

/// Whether `c` is white space as Unicode defines it, which is what
/// `char::is_whitespace` and `str::trim` go by.
pub open spec fn is_ws(c: char) -> bool {
    let u = c as u32;
    (9 <= u <= 13) || u == 32 || u == 0x85 || u == 0xa0 || u == 0x1680 || (0x2000 <= u <= 0x200a) || u == 0x2028
        || u == 0x2029 || u == 0x202f || u == 0x205f || u == 0x3000
}

/// Whether `c` is white space.
pub fn is_ws_char(c: char) -> (b: bool)
    ensures
        b == is_ws(c),
{
    let u = c as u32;
    (9 <= u && u <= 13) || u == 32 || u == 0x85 || u == 0xa0 || u == 0x1680 || (0x2000 <= u && u <= 0x200a)
        || u == 0x2028 || u == 0x2029 || u == 0x202f || u == 0x205f || u == 0x3000
}

/// `s` without its leading white space.
pub open spec fn trim_start(s: Seq<char>) -> Seq<char>
    decreases s.len(),
{
    if s.len() > 0 && is_ws(s[0]) {
        trim_start(s.drop_first())
    } else {
        s
    }
}

/// `s` without its trailing white space.
pub open spec fn trim_end(s: Seq<char>) -> Seq<char>
    decreases s.len(),
{
    if s.len() > 0 && is_ws(s.last()) {
        trim_end(s.drop_last())
    } else {
        s
    }
}

/// `s` without leading and trailing white space.
pub open spec fn trim(s: Seq<char>) -> Seq<char> {
    trim_end(trim_start(s))
}

/// `s` without the copies of `c` at its end.
pub open spec fn trim_end_matches(s: Seq<char>, c: char) -> Seq<char>
    decreases s.len(),
{
    if s.len() > 0 && s.last() == c {
        trim_end_matches(s.drop_last(), c)
    } else {
        s
    }
}

/// The characters of `s` before its first white space.
pub open spec fn token(s: Seq<char>) -> Seq<char>
    decreases s.len(),
{
    if s.len() == 0 || is_ws(s[0]) {
        Seq::empty()
    } else {
        seq![s[0]] + token(s.drop_first())
    }
}

/// The first word of `s` split at white space, if it has one.
pub open spec fn first_token(s: Seq<char>) -> Option<Seq<char>> {
    if trim_start(s).len() == 0 {
        None
    } else {
        Some(token(trim_start(s)))
    }
}

/// What follows the first word of `s`.
pub open spec fn after_first_token(s: Seq<char>) -> Seq<char> {
    trim_start(s).skip(token(trim_start(s)).len() as int)
}

/// The range of `v[lo..hi]` without leading white space.
pub fn trim_start_range(v: &Vec<char>, lo: usize, hi: usize) -> (r: usize)
    requires
        lo <= hi <= v@.len(),
    ensures
        lo <= r <= hi,
        v@.subrange(r as int, hi as int) == trim_start(v@.subrange(lo as int, hi as int)),
{
    let mut i = lo;
    while i < hi && is_ws_char(v[i])
        invariant
            lo <= i <= hi <= v@.len(),
            trim_start(v@.subrange(i as int, hi as int)) == trim_start(v@.subrange(lo as int, hi as int)),
        decreases hi - i,
    {
        proof {
            assert(v@.subrange(i as int, hi as int).drop_first() =~= v@.subrange(i + 1, hi as int));
        }
        i = i + 1;
    }
    i
}

/// The end of `v[lo..hi]` without trailing white space.
pub fn trim_end_range(v: &Vec<char>, lo: usize, hi: usize) -> (r: usize)
    requires
        lo <= hi <= v@.len(),
    ensures
        lo <= r <= hi,
        v@.subrange(lo as int, r as int) == trim_end(v@.subrange(lo as int, hi as int)),
{
    let mut j = hi;
    while j > lo && is_ws_char(v[j - 1])
        invariant
            lo <= j <= hi <= v@.len(),
            trim_end(v@.subrange(lo as int, j as int)) == trim_end(v@.subrange(lo as int, hi as int)),
        decreases j - lo,
    {
        proof {
            assert(v@.subrange(lo as int, j as int).drop_last() =~= v@.subrange(lo as int, j - 1));
        }
        j = j - 1;
    }
    j
}

/// The end of `v[lo..hi]` without the copies of `c` at its end.
pub fn trim_end_matches_range(v: &Vec<char>, lo: usize, hi: usize, c: char) -> (r: usize)
    requires
        lo <= hi <= v@.len(),
    ensures
        lo <= r <= hi,
        v@.subrange(lo as int, r as int) == trim_end_matches(v@.subrange(lo as int, hi as int), c),
{
    let mut j = hi;
    while j > lo && v[j - 1] == c
        invariant
            lo <= j <= hi <= v@.len(),
            trim_end_matches(v@.subrange(lo as int, j as int), c) == trim_end_matches(
                v@.subrange(lo as int, hi as int),
                c,
            ),
        decreases j - lo,
    {
        proof {
            assert(v@.subrange(lo as int, j as int).drop_last() =~= v@.subrange(lo as int, j - 1));
        }
        j = j - 1;
    }
    j
}

/// The range of the first word of `v[lo..hi]`, if it has one.
pub fn first_token_range(v: &Vec<char>, lo: usize, hi: usize) -> (r: Option<(usize, usize)>)
    requires
        lo <= hi <= v@.len(),
    ensures
        match r {
            Some((a, b)) => lo <= a <= b <= hi && first_token(v@.subrange(lo as int, hi as int)) == Some(
                v@.subrange(a as int, b as int),
            ),
            None => first_token(v@.subrange(lo as int, hi as int)) is None,
        },
        r matches Some((a, b)) ==> v@.subrange(b as int, hi as int) == after_first_token(
            v@.subrange(lo as int, hi as int),
        ),
{
    let a = trim_start_range(v, lo, hi);
    if a == hi {
        return None;
    }
    let mut k = a;
    while k < hi && !is_ws_char(v[k])
        invariant
            lo <= a <= k <= hi <= v@.len(),
            token(v@.subrange(a as int, hi as int)) == v@.subrange(a as int, k as int) + token(
                v@.subrange(k as int, hi as int),
            ),
        decreases hi - k,
    {
        proof {
            let rest = v@.subrange(k as int, hi as int);
            assert(rest.drop_first() =~= v@.subrange(k + 1, hi as int));
            assert(token(rest) == seq![v@[k as int]] + token(rest.drop_first()));
            assert(v@.subrange(a as int, k + 1) =~= v@.subrange(a as int, k as int) + seq![v@[k as int]]);
            assert(v@.subrange(a as int, k as int) + token(rest) =~= v@.subrange(a as int, k + 1) + token(
                v@.subrange(k + 1, hi as int),
            ));
        }
        k = k + 1;
    }
    proof {
        assert(token(v@.subrange(k as int, hi as int)) =~= Seq::<char>::empty());
        assert(v@.subrange(a as int, k as int) + Seq::<char>::empty() =~= v@.subrange(a as int, k as int));
        assert(v@.subrange(a as int, hi as int).skip(k - a) =~= v@.subrange(k as int, hi as int));
    }
    Some((a, k))
}

/// Whether `lit` is a prefix of `v[lo..hi]`.
pub fn prefix_at(v: &Vec<char>, lo: usize, hi: usize, lit: &str) -> (b: bool)
    requires
        lo <= hi <= v@.len(),
    ensures
        b == lit@.is_prefix_of(v@.subrange(lo as int, hi as int)),
{
    let m = lit.unicode_len();
    if m > hi - lo {
        return false;
    }
    let mut k: usize = 0;
    while k < m
        invariant
            0 <= k <= m <= hi - lo,
            lo <= hi <= v@.len(),
            m == lit@.len(),
            forall|j: int| 0 <= j < k ==> lit@[j] == v@[lo + j],
        decreases m - k,
    {
        if lit.get_char(k) != v[lo + k] {
            return false;
        }
        k = k + 1;
    }
    true
}

/// Whether `v[lo..hi]` is exactly `lit`.
pub fn eq_at(v: &Vec<char>, lo: usize, hi: usize, lit: &str) -> (b: bool)
    requires
        lo <= hi <= v@.len(),
    ensures
        b == (v@.subrange(lo as int, hi as int) == lit@),
{
    if lit.unicode_len() != hi - lo {
        return false;
    }
    let r = prefix_at(v, lo, hi, lit);
    proof {
        if r {
            assert(v@.subrange(lo as int, hi as int) =~= lit@);
        }
    }
    r
}

/// The pieces of `s` between the copies of `sep`: one more piece than there
/// are separators, empty pieces included.
pub open spec fn split_on(s: Seq<char>, sep: char) -> Seq<Seq<char>>
    decreases s.len(),
{
    if s.len() == 0 {
        seq![Seq::empty()]
    } else {
        let r = split_on(s.drop_last(), sep);
        if s.last() == sep {
            r.push(Seq::empty())
        } else {
            r.update(r.len() - 1, r.last().push(s.last()))
        }
    }
}

/// Reading one more character either closes the current piece, at a
/// separator, or extends it.
pub proof fn lemma_split_on_step(s: Seq<char>, sep: char, i: int, start: int, done: Seq<Seq<char>>)
    requires
        0 <= start <= i < s.len(),
        split_on(s.take(i), sep) == done.push(s.subrange(start, i)),
    ensures
        s[i] == sep ==> split_on(s.take(i + 1), sep) == done.push(s.subrange(start, i)).push(s.subrange(i + 1, i + 1)),
        s[i] != sep ==> split_on(s.take(i + 1), sep) == done.push(s.subrange(start, i + 1)),
{
    assert(s.take(i + 1).drop_last() =~= s.take(i));
    assert(s.take(i + 1).last() == s[i]);
    assert(s.subrange(i + 1, i + 1) =~= Seq::<char>::empty());
    let r = done.push(s.subrange(start, i));
    if s[i] != sep {
        assert(r.last() == s.subrange(start, i));
        assert(s.subrange(start, i).push(s[i]) =~= s.subrange(start, i + 1));
        assert(r.update(r.len() - 1, r.last().push(s[i])) =~= done.push(s.subrange(start, i + 1)));
    }
}

/// Nothing read yet: one empty piece.
pub proof fn lemma_split_on_start(s: Seq<char>, sep: char)
    ensures
        split_on(s.take(0), sep) == Seq::<Seq<char>>::empty().push(s.subrange(0, 0)),
{
    assert(s.take(0) =~= Seq::<char>::empty());
    assert(s.subrange(0, 0) =~= Seq::<char>::empty());
    assert(Seq::<Seq<char>>::empty().push(s.subrange(0, 0)) =~= seq![Seq::<char>::empty()]);
}

/// Whether `pat` occurs in `s`.
pub open spec fn contains_seq(s: Seq<char>, pat: Seq<char>) -> bool {
    exists|i: int| 0 <= i && i + pat.len() <= s.len() && #[trigger] s.subrange(i, i + pat.len()) == pat
}

fn occurs_at(v: &Vec<char>, p: &Vec<char>, i: usize) -> (b: bool)
    requires
        i + p@.len() <= v@.len(),
    ensures
        b == (v@.subrange(i as int, i + p@.len()) == p@),
{
    let n = v.len();
    let mut k: usize = 0;
    while k < p.len()
        invariant
            0 <= k <= p@.len(),
            n == v@.len(),
            i + p@.len() <= v@.len(),
            forall|j: int| 0 <= j < k ==> v@[i + j] == p@[j],
        decreases p.len() - k,
    {
        if v[i + k] != p[k] {
            assert(v@.subrange(i as int, i + p@.len())[k as int] != p@[k as int]);
            return false;
        }
        k = k + 1;
    }
    assert(v@.subrange(i as int, i + p@.len()) =~= p@);
    true
}

/// Whether `pat` occurs in `s`, like `str::contains` with a string pattern.
pub fn str_contains(s: &str, pat: &str) -> (b: bool)
    ensures
        b == contains_seq(s@, pat@),
{
    let v = chars_of(s);
    let p = chars_of(pat);
    if p.len() > v.len() {
        return false;
    }
    let last = v.len() - p.len();
    let mut i: usize = 0;
    loop
        invariant
            0 <= i <= last,
            last + p@.len() == v@.len(),
            v@ == s@,
            p@ == pat@,
            forall|j: int| 0 <= j < i ==> #[trigger] v@.subrange(j, j + p@.len()) != p@,
        ensures
            forall|j: int| 0 <= j <= last ==> #[trigger] v@.subrange(j, j + p@.len()) != p@,
        decreases last - i,
    {
        if occurs_at(&v, &p, i) {
            return true;
        }
        if i == last {
            break;
        }
        i = i + 1;
    }
    false
}

/// The lists of the items of `s`, one after another.
pub open spec fn flat_map<T>(s: Seq<T>, f: spec_fn(T) -> Seq<Seq<char>>) -> Seq<Seq<char>>
    decreases s.len(),
{
    if s.len() == 0 {
        Seq::empty()
    } else {
        flat_map(s.drop_last(), f) + f(s.last())
    }
}

/// One more item of a prefix adds its list at the end.
pub proof fn lemma_flat_map_step<T>(s: Seq<T>, f: spec_fn(T) -> Seq<Seq<char>>, i: int)
    requires
        0 <= i < s.len(),
    ensures
        flat_map(s.subrange(0, i + 1), f) == flat_map(s.subrange(0, i), f) + f(s[i]),
{
    assert(s.subrange(0, i + 1).drop_last() =~= s.subrange(0, i));
}

/// The whole sequence is its own longest prefix.
pub proof fn lemma_flat_map_full<T>(s: Seq<T>, f: spec_fn(T) -> Seq<Seq<char>>)
    ensures
        flat_map(s.subrange(0, s.len() as int), f) == flat_map(s, f),
{
    assert(s.subrange(0, s.len() as int) =~= s);
}

/// Appends a string to a list of strings.
pub fn push_string(out: &mut Vec<String>, s: String)
    ensures
        views(final(out)@) == views(old(out)@).push(s@),
{
    out.push(s);
    proof {
        assert(views(final(out)@) =~= views(old(out)@).push(s@));
    }
}

/// The pieces of `v` that some ranges pick out.
pub open spec fn range_views(v: Seq<char>, rs: Seq<(usize, usize)>) -> Seq<Seq<char>> {
    rs.map_values(|r: (usize, usize)| v.subrange(r.0 as int, r.1 as int))
}

/// The ranges of the pieces of `v[lo..hi]` between the copies of `sep`.
pub fn split_ranges(v: &Vec<char>, lo: usize, hi: usize, sep: char) -> (rs: Vec<(usize, usize)>)
    requires
        lo <= hi <= v@.len(),
    ensures
        range_views(v@, rs@) == split_on(v@.subrange(lo as int, hi as int), sep),
        forall|k: int| 0 <= k < rs@.len() ==> lo <= (#[trigger] rs@[k]).0 <= rs@[k].1 <= hi,
{
    let ghost s = v@.subrange(lo as int, hi as int);
    let mut rs: Vec<(usize, usize)> = Vec::new();
    let mut start = lo;
    let mut i = lo;
    proof {
        lemma_split_on_start(s, sep);
        assert(s.subrange(0, 0) =~= v@.subrange(lo as int, lo as int));
        assert(range_views(v@, rs@) =~= Seq::<Seq<char>>::empty());
    }
    while i < hi
        invariant
            lo <= start <= i <= hi <= v@.len(),
            s == v@.subrange(lo as int, hi as int),
            split_on(s.take(i - lo), sep) == range_views(v@, rs@).push(v@.subrange(start as int, i as int)),
            forall|k: int| 0 <= k < rs@.len() ==> lo <= (#[trigger] rs@[k]).0 <= rs@[k].1 <= hi,
        decreases hi - i,
    {
        proof {
            assert(s.subrange(start - lo, i - lo) =~= v@.subrange(start as int, i as int));
            assert(s.subrange(start - lo, i - lo + 1) =~= v@.subrange(start as int, i + 1));
            assert(s.subrange(i - lo + 1, i - lo + 1) =~= v@.subrange(i + 1, i + 1));
            lemma_split_on_step(s, sep, i - lo, start - lo, range_views(v@, rs@));
        }
        if v[i] == sep {
            let ghost before = range_views(v@, rs@);
            rs.push((start, i));
            proof {
                assert(range_views(v@, rs@) =~= before.push(v@.subrange(start as int, i as int)));
            }
            start = i + 1;
        }
        i = i + 1;
    }
    let ghost before = range_views(v@, rs@);
    rs.push((start, hi));
    proof {
        assert(s.take(hi - lo) =~= s);
        assert(range_views(v@, rs@) =~= before.push(v@.subrange(start as int, hi as int)));
    }
    rs
}

/// The lines of `s` as `str::lines` gives them: split at `\n`, without a
/// final empty line, and a `\r` before a `\n` dropped.
pub open spec fn lines_spec(s: Seq<char>) -> Seq<Seq<char>> {
    let p = split_on(s, '\n');
    let q = if p.last().len() == 0 {
        p.drop_last()
    } else {
        p
    };
    Seq::new(
        q.len(),
        |k: int|
            if k < p.len() - 1 && q[k].len() > 0 && q[k].last() == '\r' {
                q[k].drop_last()
            } else {
                q[k]
            },
    )
}

/// The pieces of `split_on` are never fewer than one.
pub proof fn lemma_split_on_nonempty(s: Seq<char>, sep: char)
    ensures
        split_on(s, sep).len() >= 1,
    decreases s.len(),
{
    if s.len() > 0 {
        lemma_split_on_nonempty(s.drop_last(), sep);
    }
}

/// The ranges of the lines of `v`, as `lines_spec` gives them.
pub fn line_ranges(v: &Vec<char>) -> (rs: Vec<(usize, usize)>)
    ensures
        range_views(v@, rs@) == lines_spec(v@),
        forall|k: int| 0 <= k < rs@.len() ==> (#[trigger] rs@[k]).0 <= rs@[k].1 <= v@.len(),
{
    let n = v.len();
    let pieces = split_ranges(v, 0, n, '\n');
    let ghost p = split_on(v@, '\n');
    proof {
        assert(v@.subrange(0, n as int) =~= v@);
        lemma_split_on_nonempty(v@, '\n');
    }
    let last = pieces.len() - 1;
    let keep = if pieces[last].0 == pieces[last].1 {
        last
    } else {
        pieces.len()
    };
    let ghost q = if p.last().len() == 0 {
        p.drop_last()
    } else {
        p
    };
    proof {
        assert(p[last as int] == v@.subrange(pieces@[last as int].0 as int, pieces@[last as int].1 as int));
        assert(q.len() == keep);
    }
    let mut rs: Vec<(usize, usize)> = Vec::new();
    let mut k: usize = 0;
    while k < keep
        invariant
            0 <= k <= keep <= pieces@.len(),
            keep == q.len(),
            last + 1 == pieces@.len() == p.len(),
            range_views(v@, pieces@) == p,
            forall|j: int| 0 <= j < q.len() ==> q[j] == p[j],
            forall|j: int| 0 <= j < pieces@.len() ==> (#[trigger] pieces@[j]).0 <= pieces@[j].1 <= n,
            n == v@.len(),
            rs@.len() == k,
            forall|j: int| 0 <= j < k ==> (#[trigger] rs@[j]).0 <= rs@[j].1 <= v@.len(),
            forall|j: int|
                0 <= j < k ==> #[trigger] v@.subrange(rs@[j].0 as int, rs@[j].1 as int) == (if j < p.len() - 1
                    && q[j].len() > 0 && q[j].last() == '\r' {
                    q[j].drop_last()
                } else {
                    q[j]
                }),
        decreases keep - k,
    {
        let (a, b) = pieces[k];
        proof {
            assert(p[k as int] == v@.subrange(a as int, b as int));
        }
        if k < last && a < b && v[b - 1] == '\r' {
            proof {
                assert(v@.subrange(a as int, b as int).drop_last() =~= v@.subrange(a as int, b - 1));
            }
            rs.push((a, b - 1));
        } else {
            rs.push((a, b));
        }
        k = k + 1;
    }
    proof {
        assert(range_views(v@, rs@) =~= lines_spec(v@));
    }
    rs
}

/// Whether `c` is an ASCII decimal digit.
pub open spec fn is_digit(c: char) -> bool {
    48 <= (c as u32) <= 57
}

/// The number that a string of decimal digits writes.
pub open spec fn digits_value(s: Seq<char>) -> nat
    decreases s.len(),
{
    if s.len() == 0 {
        0
    } else {
        digits_value(s.drop_last()) * 10 + ((s.last() as u32) - 48) as nat
    }
}

/// `s` without a leading `+`.
pub open spec fn unsigned_digits(s: Seq<char>) -> Seq<char> {
    if s.len() > 0 && s[0] == '+' {
        s.skip(1)
    } else {
        s
    }
}

/// Whether every character is a decimal digit.
pub open spec fn all_digits(d: Seq<char>) -> bool {
    forall|k: int| 0 <= k < d.len() ==> is_digit(#[trigger] d[k])
}

/// What parsing text as an unsigned number up to `max` gives: decimal
/// digits, optionally after a `+`, of a value that fits.
pub open spec fn parse_unsigned_spec(s: Seq<char>, max: nat) -> Option<nat> {
    if unsigned_digits(s).len() > 0 && all_digits(unsigned_digits(s)) && digits_value(unsigned_digits(s)) <= max {
        Some(digits_value(unsigned_digits(s)))
    } else {
        None
    }
}

/// What parsing text as an `i64` gives: a `-` before the digits of at most
/// 2^63, or the digits (optionally after a `+`) of at most 2^63 - 1.
pub open spec fn parse_i64_spec(s: Seq<char>) -> Option<i64> {
    if s.len() > 0 && s[0] == '-' {
        let d = s.skip(1);
        if d.len() > 0 && all_digits(d) && digits_value(d) <= 0x8000_0000_0000_0000 {
            Some((0 - digits_value(d)) as i64)
        } else {
            None
        }
    } else {
        match parse_unsigned_spec(s, 0x7fff_ffff_ffff_ffff) {
            Some(n) => Some(n as i64),
            None => None,
        }
    }
}

/// A numeral's value is at least that of each of its prefixes.
pub proof fn lemma_digits_value_prefix(d: Seq<char>, n: int)
    requires
        0 <= n <= d.len(),
        all_digits(d),
    ensures
        digits_value(d.subrange(0, n)) <= digits_value(d),
    decreases d.len(),
{
    if n < d.len() {
        let init = d.drop_last();
        assert forall|k: int| 0 <= k < init.len() implies is_digit(#[trigger] init[k]) by {
            assert(init[k] == d[k]);
        }
        lemma_digits_value_prefix(init, n);
        assert(init.subrange(0, n) =~= d.subrange(0, n));
    } else {
        assert(d.subrange(0, n) =~= d);
    }
}

/// The value of the digits `v[lo..hi]`, when they are all digits and the
/// value is at most `max`.
#[verifier::loop_isolation(false)]
pub fn digits_range(v: &Vec<char>, lo: usize, hi: usize, max: u64) -> (r: Option<u64>)
    requires
        lo <= hi <= v@.len(),
    ensures
        ({
            let d = v@.subrange(lo as int, hi as int);
            match r {
                Some(x) => d.len() > 0 && all_digits(d) && digits_value(d) <= max && x == digits_value(d),
                None => !(d.len() > 0 && all_digits(d) && digits_value(d) <= max),
            }
        }),
{
    let ghost d = v@.subrange(lo as int, hi as int);
    if lo == hi {
        return None;
    }
    let mut val: u128 = 0;
    let mut k = lo;
    while k < hi
        invariant
            lo <= k <= hi <= v@.len(),
            d == v@.subrange(lo as int, hi as int),
            forall|j: int| 0 <= j < k - lo ==> is_digit(#[trigger] d[j]),
            val == digits_value(v@.subrange(lo as int, k as int)),
            val <= max,
        decreases hi - k,
    {
        let u = v[k] as u32;
        if u < 48 || u > 57 {
            proof {
                assert(!is_digit(d[k - lo]));
                assert(!all_digits(d));
            }
            return None;
        }
        proof {
            assert(v@.subrange(lo as int, k + 1).drop_last() =~= v@.subrange(lo as int, k as int));
        }
        let next = val * 10 + (u - 48) as u128;
        if next > max as u128 {
            proof {
                assert(v@.subrange(lo as int, k + 1) =~= d.subrange(0, k - lo + 1));
                if all_digits(d) {
                    lemma_digits_value_prefix(d, (k - lo + 1) as int);
                }
            }
            return None;
        }
        val = next;
        k = k + 1;
    }
    proof {
        assert(v@.subrange(lo as int, k as int) =~= d);
        assert(all_digits(d));
    }
    Some(val as u64)
}

/// Parses `v[lo..hi]` as an unsigned number up to `max`.
pub fn parse_unsigned_range(v: &Vec<char>, lo: usize, hi: usize, max: u64) -> (r: Option<u64>)
    requires
        lo <= hi <= v@.len(),
    ensures
        match r {
            Some(x) => parse_unsigned_spec(v@.subrange(lo as int, hi as int), max as nat) == Some(x as nat),
            None => parse_unsigned_spec(v@.subrange(lo as int, hi as int), max as nat) is None,
        },
{
    let ghost s = v@.subrange(lo as int, hi as int);
    let start = if lo < hi && v[lo] == '+' {
        lo + 1
    } else {
        lo
    };
    proof {
        if lo < hi && v@[lo as int] == '+' {
            assert(s.skip(1) =~= v@.subrange(start as int, hi as int));
        } else {
            assert(s =~= v@.subrange(start as int, hi as int));
        }
        assert(unsigned_digits(s) == v@.subrange(start as int, hi as int));
    }
    digits_range(v, start, hi, max)
}

/// Parses `v[lo..hi]` as an `i64`.
pub fn parse_i64_range(v: &Vec<char>, lo: usize, hi: usize) -> (r: Option<i64>)
    requires
        lo <= hi <= v@.len(),
    ensures
        r == parse_i64_spec(v@.subrange(lo as int, hi as int)),
{
    let ghost s = v@.subrange(lo as int, hi as int);
    if lo < hi && v[lo] == '-' {
        proof {
            assert(s.skip(1) =~= v@.subrange(lo + 1, hi as int));
        }
        match digits_range(v, lo + 1, hi, 0x8000_0000_0000_0000u64) {
            Some(x) => {
                if x == 0x8000_0000_0000_0000u64 {
                    Some(i64::MIN)
                } else {
                    Some(0 - (x as i64))
                }
            },
            None => None,
        }
    } else {
        match parse_unsigned_range(v, lo, hi, 0x7fff_ffff_ffff_ffffu64) {
            Some(x) => Some(x as i64),
            None => None,
        }
    }
}


/// `s` with each occurrence of `pat` replaced by `rep`, the occurrences
/// taken from the left and not overlapping, as `str::replace` takes them.
pub open spec fn replace_all(s: Seq<char>, pat: Seq<char>, rep: Seq<char>) -> Seq<char>
    decreases s.len(),
{
    if s.len() == 0 || pat.len() == 0 {
        s
    } else if pat.is_prefix_of(s) {
        rep + replace_all(s.skip(pat.len() as int), pat, rep)
    } else {
        seq![s[0]] + replace_all(s.drop_first(), pat, rep)
    }
}

/// `s` with each occurrence of a non-empty `pat` replaced by `rep`.
pub fn replace_str(s: &str, pat: &str, rep: &str) -> (r: String)
    requires
        pat@.len() > 0,
    ensures
        r@ == replace_all(s@, pat@, rep@),
{
    let v = chars_of(s);
    let n = v.len();
    let m = pat.unicode_len();
    let mut out = String::new();
    let mut i: usize = 0;
    proof {
        assert(v@.subrange(0, n as int) =~= s@);
    }
    while i < n
        invariant
            0 <= i <= n == v@.len(),
            v@ == s@,
            m == pat@.len() > 0,
            out@ + replace_all(v@.subrange(i as int, n as int), pat@, rep@) == replace_all(s@, pat@, rep@),
        decreases n - i,
    {
        let ghost sub = v@.subrange(i as int, n as int);
        if prefix_at(&v, i, n, pat) {
            let ghost before = out@;
            out.append(rep);
            proof {
                assert(sub.skip(m as int) =~= v@.subrange(i + m, n as int));
                assert(before + (rep@ + replace_all(sub.skip(m as int), pat@, rep@)) =~= out@ + replace_all(
                    v@.subrange(i + m, n as int),
                    pat@,
                    rep@,
                ));
            }
            i = i + m;
        } else {
            let ghost before = out@;
            push_char(&mut out, v[i]);
            proof {
                assert(sub.drop_first() =~= v@.subrange(i + 1, n as int));
                assert(sub[0] == v@[i as int]);
                assert(before + (seq![sub[0]] + replace_all(sub.drop_first(), pat@, rep@)) =~= out@ + replace_all(
                    v@.subrange(i + 1, n as int),
                    pat@,
                    rep@,
                ));
            }
            i = i + 1;
        }
    }
    proof {
        assert(v@.subrange(n as int, n as int) =~= Seq::<char>::empty());
        assert(out@ + Seq::<char>::empty() =~= out@);
    }
    out
}


/// A byte as two lowercase hexadecimal digits, as `{:02x}` writes it.
pub open spec fn byte_hex(b: u8) -> Seq<char> {
    seq![hex_char((b / 16) as int), hex_char((b % 16) as int)]
}

/// Appends a byte as two lowercase hexadecimal digits.
pub fn push_byte_hex(s: &mut String, b: u8)
    ensures
        final(s)@ == old(s)@ + byte_hex(b),
{
    s.append(hex_digit_str((b / 16) as u64));
    s.append(hex_digit_str((b % 16) as u64));
    proof {
        assert(final(s)@ =~= old(s)@ + byte_hex(b));
    }
}

} // verus!
