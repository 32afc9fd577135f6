//! Character-level text operations and their mathematical models.
//!
//! Text is modelled as `Seq<char>`, the view of `str` and `String`. The
//! executable functions work on `Vec<char>` and are proved against the spec
//! functions of this module.

use vstd::prelude::*;

verus! {

/// The characters that carry the Unicode `White_Space` property.
pub open spec fn is_whitespace(c: char) -> bool {
    let n = c as u32;
    ||| 0x09 <= n <= 0x0D
    ||| n == 0x20
    ||| n == 0x85
    ||| n == 0xA0
    ||| n == 0x1680
    ||| 0x2000 <= n <= 0x200A
    ||| n == 0x2028
    ||| n == 0x2029
    ||| n == 0x202F
    ||| n == 0x205F
    ||| n == 0x3000
}

/// The decimal value of an ASCII digit, `None` for any other character.
pub open spec fn digit_value(c: char) -> Option<int> {
    if '0' <= c <= '9' {
        Some(c as u32 - '0' as u32)
    } else {
        None
    }
}

/// Index of the first occurrence of `c` in `s`, or `s.len()` if there is none.
pub open spec fn first_position(s: Seq<char>, c: char) -> int
    decreases s.len(),
{
    if s.len() == 0 || s[0] == c {
        0
    } else {
        1 + first_position(s.drop_first(), c)
    }
}

/// Index of the last occurrence of `c` in `s`, or `-1` if there is none.
pub open spec fn last_position(s: Seq<char>, c: char) -> int
    decreases s.len(),
{
    if s.len() == 0 {
        -1
    } else if s.last() == c {
        s.len() - 1
    } else {
        last_position(s.drop_last(), c)
    }
}

/// Number of whitespace characters at the start of `s`.
pub open spec fn leading_whitespace(s: Seq<char>) -> int
    decreases s.len(),
{
    if s.len() == 0 || !is_whitespace(s[0]) {
        0
    } else {
        1 + leading_whitespace(s.drop_first())
    }
}

/// Number of whitespace characters at the end of `s`.
pub open spec fn trailing_whitespace(s: Seq<char>) -> int
    decreases s.len(),
{
    if s.len() == 0 || !is_whitespace(s.last()) {
        0
    } else {
        1 + trailing_whitespace(s.drop_last())
    }
}

/// `s` without its leading and trailing whitespace.
pub open spec fn trim(s: Seq<char>) -> Seq<char> {
    let rest = s.skip(leading_whitespace(s));
    rest.take(rest.len() - trailing_whitespace(rest))
}

/// The fields of `s` between occurrences of `sep`. There is always at least
/// one field; two adjacent separators enclose an empty field.
pub open spec fn split(s: Seq<char>, sep: char) -> Seq<Seq<char>>
    decreases s.len(),
{
    let k = first_position(s, sep);
    if 0 <= k < s.len() {
        seq![s.take(k)] + split(s.skip(k + 1), sep)
    } else {
        seq![s]
    }
}

/// Whether `pat` occurs in `s` starting at index `i`.
pub open spec fn occurs_at(s: Seq<char>, i: int, pat: Seq<char>) -> bool {
    0 <= i && i + pat.len() <= s.len() && s.subrange(i, i + pat.len()) == pat
}

/// Whether `pat` occurs somewhere in `s`.
pub open spec fn contains(s: Seq<char>, pat: Seq<char>) -> bool {
    exists|i: int| occurs_at(s, i, pat)
}

/// `s` with every occurrence of `pat` replaced by `with`, scanning from the
/// left and never looking into text that was already replaced.
pub open spec fn replace(s: Seq<char>, pat: Seq<char>, with: Seq<char>) -> Seq<char>
    recommends
        pat.len() > 0,
    decreases s.len(),
{
    if pat.len() == 0 || s.len() < pat.len() {
        s
    } else if occurs_at(s, 0, pat) {
        with + replace(s.skip(pat.len() as int), pat, with)
    } else {
        seq![s[0]] + replace(s.drop_first(), pat, with)
    }
}

/// `parts` with `sep` between each two of them.
pub open spec fn joined(parts: Seq<Seq<char>>, sep: Seq<char>) -> Seq<char>
    decreases parts.len(),
{
    if parts.len() == 0 {
        Seq::empty()
    } else if parts.len() == 1 {
        parts[0]
    } else {
        joined(parts.drop_last(), sep) + sep + parts.last()
    }
}

/// The parts that are not empty once the whitespace around them is dropped,
/// so trimmed.
pub open spec fn trimmed_names(parts: Seq<Seq<char>>) -> Seq<Seq<char>>
    decreases parts.len(),
{
    if parts.len() == 0 {
        Seq::empty()
    } else {
        let name = trim(parts.last());
        if name.len() > 0 {
            trimmed_names(parts.drop_last()).push(name)
        } else {
            trimmed_names(parts.drop_last())
        }
    }
}

/// The views of a sequence of strings.
pub open spec fn views(v: Seq<String>) -> Seq<Seq<char>> {
    v.map_values(|s: String| s@)
}

/// `first_position` is within bounds, points at `c` when it is inside `s`,
/// and no earlier character is `c`.
pub proof fn lemma_first_position(s: Seq<char>, c: char)
    ensures
        0 <= first_position(s, c) <= s.len(),
        first_position(s, c) < s.len() ==> s[first_position(s, c)] == c,
        forall|j: int| 0 <= j < first_position(s, c) ==> s[j] != c,
    decreases s.len(),
{
    if s.len() == 0 || s[0] == c {
    } else {
        let rest = s.drop_first();
        lemma_first_position(rest, c);
        assert forall|j: int| 0 <= j < first_position(s, c) implies s[j] != c by {
            if j > 0 {
                assert(s[j] == rest[j - 1]);
            }
        }
    }
}

/// An index that points at `c` or at the end, with no `c` before it, is the
/// first position.
pub proof fn lemma_first_position_is(s: Seq<char>, c: char, k: int)
    requires
        0 <= k <= s.len(),
        k < s.len() ==> s[k] == c,
        forall|j: int| 0 <= j < k ==> s[j] != c,
    ensures
        first_position(s, c) == k,
{
    lemma_first_position(s, c);
    let f = first_position(s, c);
    if f < k {
        assert(s[f] == c);
    } else if k < f {
        assert(s[k] == c);
    }
}

/// `last_position` is within bounds, points at `c` when it is inside `s`,
/// and no later character is `c`.
pub proof fn lemma_last_position(s: Seq<char>, c: char)
    ensures
        -1 <= last_position(s, c) < s.len(),
        last_position(s, c) >= 0 ==> s[last_position(s, c)] == c,
        forall|j: int| last_position(s, c) < j < s.len() ==> s[j] != c,
    decreases s.len(),
{
    if s.len() == 0 || s.last() == c {
    } else {
        let rest = s.drop_last();
        lemma_last_position(rest, c);
        assert forall|j: int| last_position(s, c) < j < s.len() implies s[j] != c by {
            if j < s.len() - 1 {
                assert(s[j] == rest[j]);
            }
        }
    }
}

/// An index that points at `c` or before the start, with no `c` after it, is
/// the last position.
pub proof fn lemma_last_position_is(s: Seq<char>, c: char, k: int)
    requires
        -1 <= k < s.len(),
        k >= 0 ==> s[k] == c,
        forall|j: int| k < j < s.len() ==> s[j] != c,
    ensures
        last_position(s, c) == k,
{
    lemma_last_position(s, c);
    let f = last_position(s, c);
    if f < k {
        assert(s[k] == c);
    } else if k < f {
        assert(s[f] == c);
    }
}

/// `leading_whitespace` counts exactly the whitespace before the first
/// character that is none.
pub proof fn lemma_leading_whitespace(s: Seq<char>)
    ensures
        0 <= leading_whitespace(s) <= s.len(),
        leading_whitespace(s) < s.len() ==> !is_whitespace(s[leading_whitespace(s)]),
        forall|j: int| 0 <= j < leading_whitespace(s) ==> is_whitespace(#[trigger] s[j]),
    decreases s.len(),
{
    if s.len() == 0 || !is_whitespace(s[0]) {
    } else {
        let rest = s.drop_first();
        lemma_leading_whitespace(rest);
        assert forall|j: int| 0 <= j < leading_whitespace(s) implies is_whitespace(
            #[trigger] s[j],
        ) by {
            if j > 0 {
                assert(s[j] == rest[j - 1]);
            }
        }
    }
}

/// An index with only whitespace before it and none at it is the count of
/// leading whitespace.
pub proof fn lemma_leading_whitespace_is(s: Seq<char>, k: int)
    requires
        0 <= k <= s.len(),
        k < s.len() ==> !is_whitespace(s[k]),
        forall|j: int| 0 <= j < k ==> is_whitespace(#[trigger] s[j]),
    ensures
        leading_whitespace(s) == k,
{
    lemma_leading_whitespace(s);
    let f = leading_whitespace(s);
    if f < k {
        assert(is_whitespace(s[f]));
    } else if k < f {
        assert(is_whitespace(s[k]));
    }
}

/// `trailing_whitespace` counts exactly the whitespace after the last
/// character that is none.
pub proof fn lemma_trailing_whitespace(s: Seq<char>)
    ensures
        0 <= trailing_whitespace(s) <= s.len(),
        trailing_whitespace(s) < s.len() ==> !is_whitespace(
            s[s.len() - 1 - trailing_whitespace(s)],
        ),
        forall|j: int|
            s.len() - trailing_whitespace(s) <= j < s.len() ==> is_whitespace(#[trigger] s[j]),
    decreases s.len(),
{
    if s.len() == 0 || !is_whitespace(s.last()) {
    } else {
        let rest = s.drop_last();
        lemma_trailing_whitespace(rest);
        assert forall|j: int| s.len() - trailing_whitespace(s) <= j < s.len() implies is_whitespace(
            #[trigger] s[j],
        ) by {
            if j < s.len() - 1 {
                assert(s[j] == rest[j]);
            }
        }
    }
}

/// A count with only whitespace in the last `k` places and none just before
/// them is the count of trailing whitespace.
pub proof fn lemma_trailing_whitespace_is(s: Seq<char>, k: int)
    requires
        0 <= k <= s.len(),
        k < s.len() ==> !is_whitespace(s[s.len() - 1 - k]),
        forall|j: int| s.len() - k <= j < s.len() ==> is_whitespace(#[trigger] s[j]),
    ensures
        trailing_whitespace(s) == k,
{
    lemma_trailing_whitespace(s);
    let f = trailing_whitespace(s);
    if f < k {
        assert(is_whitespace(s[s.len() - 1 - f]));
    } else if k < f {
        assert(is_whitespace(s[s.len() - 1 - k]));
    }
}

/// The views of a sequence of character vectors.
pub open spec fn fields_view(v: Seq<Vec<char>>) -> Seq<Seq<char>> {
    v.map_values(|f: Vec<char>| f@)
}

/// `String::push`: appends one character to the string.
#[verifier::external_body]
fn push_char(s: &mut String, c: char)
    ensures
        final(s)@ == old(s)@.push(c),
{
    s.push(c);
}

/// The characters of `s`, in order.
pub fn chars_of(s: &str) -> (out: Vec<char>)
    ensures
        out@ == s@,
{
    let mut out: Vec<char> = Vec::new();
    for c in it: s.chars()
        invariant
            out@ == it.seq().take(it.index() as int),
            it.seq() == s@,
    {
        out.push(c);
    }
    out
}

/// The string made of the characters of `v`, in order.
pub fn string_of(v: &Vec<char>) -> (out: String)
    ensures
        out@ == v@,
{
    let mut out = String::new();
    let mut i: usize = 0;
    while i < v.len()
        invariant
            i <= v.len(),
            out@ == v@.take(i as int),
        decreases v.len() - i,
    {
        push_char(&mut out, v[i]);
        i = i + 1;
    }
    out
}

/// Whether `c` is a whitespace character.
pub fn is_whitespace_char(c: char) -> (r: bool)
    ensures
        r == is_whitespace(c),
{
    let n: u32 = c as u32;
    (0x09 <= n && n <= 0x0D) || n == 0x20 || n == 0x85 || n == 0xA0 || n == 0x1680 || (0x2000 <= n
        && n <= 0x200A) || n == 0x2028 || n == 0x2029 || n == 0x202F || n == 0x205F || n == 0x3000
}

/// The decimal value of `c` if it is an ASCII digit.
pub fn digit_of(c: char) -> (r: Option<u32>)
    ensures
        match r {
            Some(d) => digit_value(c) == Some(d as int),
            None => digit_value(c) is None,
        },
{
    if '0' <= c && c <= '9' {
        Some(c as u32 - '0' as u32)
    } else {
        None
    }
}

/// A copy of the characters of `v` from index `from` up to `to`.
pub fn subrange(v: &Vec<char>, from: usize, to: usize) -> (out: Vec<char>)
    requires
        from <= to <= v.len(),
    ensures
        out@ == v@.subrange(from as int, to as int),
{
    let mut out: Vec<char> = Vec::new();
    let mut i: usize = from;
    while i < to
        invariant
            from <= i <= to <= v.len(),
            out@ == v@.subrange(from as int, i as int),
        decreases to - i,
    {
        out.push(v[i]);
        i = i + 1;
    }
    out
}

/// Appends the characters of `src` to `dst`.
pub fn append(dst: &mut Vec<char>, src: &Vec<char>)
    ensures
        final(dst)@ == old(dst)@ + src@,
{
    let mut i: usize = 0;
    while i < src.len()
        invariant
            i <= src.len(),
            dst@ == old(dst)@ + src@.take(i as int),
        decreases src.len() - i,
    {
        dst.push(src[i]);
        i = i + 1;
    }
}

/// Index of the first `c` at or after `start`, or `v.len()` if there is none.
pub fn find_from(v: &Vec<char>, start: usize, c: char) -> (k: usize)
    requires
        start <= v.len(),
    ensures
        start <= k <= v.len(),
        k == start + first_position(v@.skip(start as int), c),
{
    let mut k: usize = start;
    while k < v.len() && v[k] != c
        invariant
            start <= k <= v.len(),
            forall|j: int| start <= j < k ==> v@[j] != c,
        decreases v.len() - k,
    {
        k = k + 1;
    }
    proof {
        lemma_first_position_is(v@.skip(start as int), c, k - start);
    }
    k
}

/// Index of the last `c` in `v`, if there is one.
pub fn rfind(v: &Vec<char>, c: char) -> (r: Option<usize>)
    ensures
        match r {
            Some(k) => k == last_position(v@, c),
            None => last_position(v@, c) == -1,
        },
{
    let mut k: usize = v.len();
    while k > 0 && v[k - 1] != c
        invariant
            k <= v.len(),
            forall|j: int| k <= j < v.len() ==> v@[j] != c,
        decreases k,
    {
        k = k - 1;
    }
    proof {
        lemma_last_position_is(v@, c, k - 1);
    }
    if k > 0 {
        Some(k - 1)
    } else {
        None
    }
}

/// `v` without its leading and trailing whitespace.
pub fn trim_chars(v: &Vec<char>) -> (out: Vec<char>)
    ensures
        out@ == trim(v@),
{
    let n = v.len();
    let mut a: usize = 0;
    while a < n && is_whitespace_char(v[a])
        invariant
            a <= n == v.len(),
            forall|j: int| 0 <= j < a ==> is_whitespace(#[trigger] v@[j]),
        decreases n - a,
    {
        a = a + 1;
    }
    let mut e: usize = n;
    while e > a && is_whitespace_char(v[e - 1])
        invariant
            a <= e <= n == v.len(),
            forall|j: int| e <= j < n ==> is_whitespace(#[trigger] v@[j]),
        decreases e,
    {
        e = e - 1;
    }
    proof {
        lemma_leading_whitespace_is(v@, a as int);
        let rest = v@.skip(a as int);
        assert forall|j: int| rest.len() - (n - e) <= j < rest.len() implies is_whitespace(
            #[trigger] rest[j],
        ) by {
            assert(rest[j] == v@[a + j]);
        }
        lemma_trailing_whitespace_is(rest, n - e);
        assert(rest.take(rest.len() - (n - e)) =~= v@.subrange(a as int, e as int));
    }
    subrange(v, a, e)
}

/// The fields of `v` between occurrences of `sep`.
pub fn split_chars(v: &Vec<char>, sep: char) -> (out: Vec<Vec<char>>)
    ensures
        fields_view(out@) == split(v@, sep),
{
    let n = v.len();
    let mut out: Vec<Vec<char>> = Vec::new();
    let mut start: usize = 0;
    proof {
        assert(v@.skip(0) =~= v@);
        assert(fields_view(out@) + split(v@, sep) =~= split(v@, sep));
    }
    loop
        invariant_except_break
            start <= n == v.len(),
            split(v@, sep) == fields_view(out@) + split(v@.skip(start as int), sep),
        ensures
            fields_view(out@) == split(v@, sep),
        decreases n - start,
    {
        let k = find_from(v, start, sep);
        let field = subrange(v, start, k);
        let ghost before = out@;
        let ghost rest = v@.skip(start as int);
        proof {
            assert(rest.take(k - start) =~= field@);
            assert(fields_view(before.push(field)) =~= fields_view(before) + seq![field@]);
        }
        out.push(field);
        if k < n {
            proof {
                assert(rest.skip(k - start + 1) =~= v@.skip(k + 1));
            }
            start = k + 1;
        } else {
            proof {
                assert(rest.take(k - start) =~= rest);
            }
            break ;
        }
    }
    out
}

/// Whether `pat` occurs in `v` starting at index `i`.
pub fn occurs_at_chars(v: &Vec<char>, i: usize, pat: &Vec<char>) -> (r: bool)
    ensures
        r == occurs_at(v@, i as int, pat@),
{
    let m = pat.len();
    if i > v.len() || m > v.len() - i {
        return false;
    }
    let mut j: usize = 0;
    while j < m
        invariant
            j <= m == pat.len(),
            i + m <= v.len(),
            forall|t: int| 0 <= t < j ==> v@[i + t] == pat@[t],
        decreases m - j,
    {
        if v[i + j] != pat[j] {
            proof {
                assert(v@.subrange(i as int, i + m)[j as int] == v@[i + j]);
            }
            return false;
        }
        j = j + 1;
    }
    proof {
        assert(v@.subrange(i as int, i + m) =~= pat@);
    }
    true
}

/// Whether `pat` occurs somewhere in `v`.
pub fn contains_chars(v: &Vec<char>, pat: &Vec<char>) -> (r: bool)
    ensures
        r == contains(v@, pat@),
{
    let n = v.len();
    let m = pat.len();
    if m > n {
        return false;
    }
    let last = n - m;
    let mut i: usize = 0;
    while i < last
        invariant
            m <= n == v.len(),
            m == pat.len(),
            last == n - m,
            i <= last,
            forall|t: int| 0 <= t < i ==> !occurs_at(v@, t, pat@),
        decreases last - i,
    {
        if occurs_at_chars(v, i, pat) {
            return true;
        }
        i = i + 1;
    }
    occurs_at_chars(v, last, pat)
}

/// `parts` with `sep` between each two of them.
pub fn join_texts(parts: &Vec<Vec<char>>, sep: &Vec<char>) -> (out: Vec<char>)
    ensures
        out@ == joined(fields_view(parts@), sep@),
{
    let ghost all = fields_view(parts@);
    let mut out: Vec<char> = Vec::new();
    let mut i: usize = 0;
    while i < parts.len()
        invariant
            i <= parts.len(),
            all == fields_view(parts@),
            out@ == joined(all.take(i as int), sep@),
        decreases parts.len() - i,
    {
        proof {
            assert(all.take(i + 1).drop_last() =~= all.take(i as int));
            assert(all.take(i + 1).last() == parts@[i as int]@);
        }
        if i > 0 {
            append(&mut out, sep);
        }
        append(&mut out, &parts[i]);
        proof {
            if i == 0 {
                assert(out@ =~= parts@[0]@);
            }
        }
        i = i + 1;
    }
    proof {
        assert(all.take(parts.len() as int) =~= all);
    }
    out
}

/// Appends to `names` the names among `parts`.
pub fn push_trimmed_names(names: &mut Vec<String>, parts: &Vec<Vec<char>>)
    ensures
        views(final(names)@) == views(old(names)@) + trimmed_names(fields_view(parts@)),
{
    let ghost all = fields_view(parts@);
    let mut i: usize = 0;
    proof {
        assert(all.take(0) =~= Seq::<Seq<char>>::empty());
        assert(views(names@) + trimmed_names(all.take(0)) =~= views(names@));
    }
    while i < parts.len()
        invariant
            i <= parts.len(),
            all == fields_view(parts@),
            views(names@) == views(old(names)@) + trimmed_names(all.take(i as int)),
        decreases parts.len() - i,
    {
        proof {
            assert(all.take(i + 1).drop_last() =~= all.take(i as int));
            assert(all.take(i + 1).last() == parts@[i as int]@);
        }
        let name = trim_chars(&parts[i]);
        if name.len() > 0 {
            let ghost before = names@;
            let owned = string_of(&name);
            names.push(owned);
            proof {
                assert(views(before.push(owned)) =~= views(before).push(name@));
                assert((views(old(names)@) + trimmed_names(all.take(i as int))).push(name@) =~= views(
                    old(names)@,
                ) + trimmed_names(all.take(i as int)).push(name@));
            }
        }
        i = i + 1;
    }
    proof {
        assert(all.take(parts.len() as int) =~= all);
    }
}

/// `v` with every occurrence of `pat` replaced by `with`.
pub fn replace_chars(v: &Vec<char>, pat: &Vec<char>, with: &Vec<char>) -> (out: Vec<char>)
    requires
        pat.len() > 0,
    ensures
        out@ == replace(v@, pat@, with@),
{
    let n = v.len();
    let m = pat.len();
    let mut out: Vec<char> = Vec::new();
    let mut i: usize = 0;
    proof {
        assert(v@.skip(0) =~= v@);
        assert(out@ + replace(v@, pat@, with@) =~= replace(v@, pat@, with@));
    }
    while i < n
        invariant
            i <= n == v.len(),
            0 < m == pat.len(),
            replace(v@, pat@, with@) == out@ + replace(v@.skip(i as int), pat@, with@),
        decreases n - i,
    {
        let ghost rest = v@.skip(i as int);
        if occurs_at_chars(v, i, pat) {
            proof {
                assert(rest.subrange(0, m as int) =~= v@.subrange(i as int, i + m));
                assert(rest.skip(m as int) =~= v@.skip(i + m));
            }
            append(&mut out, with);
            i = i + m;
        } else {
            proof {
                if rest.len() >= m {
                    assert(rest.subrange(0, m as int) =~= v@.subrange(i as int, i + m));
                    assert(rest.drop_first() =~= v@.skip(i + 1));
                }
            }
            if n - i < m {
                let tail = subrange(v, i, n);
                proof {
                    assert(tail@ =~= rest);
                    assert(v@.skip(n as int) =~= Seq::<char>::empty());
                }
                append(&mut out, &tail);
                i = n;
            } else {
                out.push(v[i]);
                i = i + 1;
            }
        }
    }
    proof {
        assert(v@.skip(n as int) =~= Seq::<char>::empty());
    }
    out
}

/// `v` with every occurrence of the text `pat` replaced by the text `with`.
pub fn replace_text(v: &Vec<char>, pat: &str, with: &str) -> (out: Vec<char>)
    requires
        pat@.len() > 0,
    ensures
        out@ == replace(v@, pat@, with@),
{
    let p = chars_of(pat);
    let w = chars_of(with);
    replace_chars(v, &p, &w)
}

/// The character of the decimal digit `d`.
pub open spec fn digit_char(d: int) -> char
    recommends
        0 <= d <= 9,
{
    (('0' as u8) + d) as u8 as char
}

/// The decimal numeral of `n`, without leading zeros.
pub open spec fn decimal(n: nat) -> Seq<char>
    decreases n,
{
    if n < 10 {
        seq![digit_char(n as int)]
    } else {
        decimal(n / 10).push(digit_char((n % 10) as int))
    }
}

/// The decimal numeral of `n`, with a minus sign where `n` is negative.
pub open spec fn signed_decimal(n: int) -> Seq<char> {
    if n < 0 {
        seq!['-'] + decimal((-n) as nat)
    } else {
        decimal(n as nat)
    }
}

/// The decimal numeral of `n`.
pub fn decimal_chars(n: u64) -> (out: Vec<char>)
    ensures
        out@ == decimal(n as nat),
    decreases n,
{
    if n < 10 {
        let mut out: Vec<char> = Vec::new();
        out.push((48u8 + n as u8) as char);
        out
    } else {
        let mut out = decimal_chars(n / 10);
        out.push((48u8 + (n % 10) as u8) as char);
        out
    }
}

/// The decimal numeral of `n`, with a minus sign where `n` is negative.
pub fn signed_decimal_chars(n: i64) -> (out: Vec<char>)
    ensures
        out@ == signed_decimal(n as int),
{
    if n < 0 {
        let magnitude: u64 = (-(n as i128)) as u64;
        let mut out: Vec<char> = Vec::new();
        out.push('-');
        let digits = decimal_chars(magnitude);
        append(&mut out, &digits);
        out
    } else {
        decimal_chars(n as u64)
    }
}

/// Whether two texts are the same.
pub fn same_text(a: &str, b: &str) -> (same: bool)
    ensures
        same == (a@ == b@),
{
    let x = chars_of(a);
    let y = chars_of(b);
    if x.len() != y.len() {
        return false;
    }
    let same = occurs_at_chars(&x, 0, &y);
    proof {
        assert(x@.subrange(0, y@.len() as int) =~= x@);
    }
    same
}

/// No field of a split holds the separator.
pub proof fn lemma_split_fields_lack_separator(s: Seq<char>, sep: char)
    ensures
        split(s, sep).len() >= 1,
        forall|i: int, j: int|
            0 <= i < split(s, sep).len() && 0 <= j < split(s, sep)[i].len() ==> split(
                s,
                sep,
            )[i][j] != sep,
    decreases s.len(),
{
    lemma_first_position(s, sep);
    let k = first_position(s, sep);
    if 0 <= k < s.len() {
        let rest = s.skip(k + 1);
        lemma_split_fields_lack_separator(rest, sep);
        assert forall|i: int, j: int|
            0 <= i < split(s, sep).len() && 0 <= j < split(s, sep)[i].len() implies split(
            s,
            sep,
        )[i][j] != sep by {
            if i == 0 {
                assert(split(s, sep)[0] == s.take(k));
            } else {
                assert(split(s, sep)[i] == split(rest, sep)[i - 1]);
            }
        }
    }
}

/// Joining in front: a part before a list that is not empty comes before
/// the separator and the joined list.
pub proof fn lemma_joined_after_first(first: Seq<char>, rest: Seq<Seq<char>>, sep: Seq<char>)
    requires
        rest.len() > 0,
    ensures
        joined(seq![first] + rest, sep) == first + sep + joined(rest, sep),
    decreases rest.len(),
{
    let all = seq![first] + rest;
    assert(all.drop_last() =~= seq![first] + rest.drop_last());
    assert(all.last() == rest.last());
    if rest.len() == 1 {
        assert(all.drop_last() =~= seq![first]);
        assert(joined(seq![first], sep) == first);
        assert(joined(rest, sep) == rest[0]);
    } else {
        lemma_joined_after_first(first, rest.drop_last(), sep);
        assert(first + sep + joined(rest.drop_last(), sep) + sep + rest.last() =~= first + sep + (
        joined(rest.drop_last(), sep) + sep + rest.last()));
    }
}

/// Splitting and joining with the same separator gives the text back.
pub proof fn lemma_split_joins_back(s: Seq<char>, sep: char)
    ensures
        joined(split(s, sep), seq![sep]) == s,
    decreases s.len(),
{
    lemma_first_position(s, sep);
    let k = first_position(s, sep);
    if 0 <= k < s.len() {
        let rest = s.skip(k + 1);
        lemma_split_joins_back(rest, sep);
        lemma_split_fields_lack_separator(rest, sep);
        lemma_joined_after_first(s.take(k), split(rest, sep), seq![sep]);
        assert(s.take(k) + seq![sep] + rest =~= s);
    } else {
        assert(joined(seq![s], seq![sep]) == s);
    }
}

/// What `trim` keeps and what it drops: it keeps one stretch of the text,
/// what stands before and after that stretch is whitespace, and what is kept
/// neither begins nor ends with whitespace.
pub proof fn lemma_trim(s: Seq<char>)
    ensures
        ({
            let from = leading_whitespace(s);
            let to = s.len() - trailing_whitespace(s.skip(from));
            &&& 0 <= from <= to <= s.len()
            &&& trim(s) == s.subrange(from, to)
            &&& forall|i: int| 0 <= i < from ==> is_whitespace(#[trigger] s[i])
            &&& forall|i: int| to <= i < s.len() ==> is_whitespace(#[trigger] s[i])
            &&& from < to ==> !is_whitespace(s[from]) && !is_whitespace(s[to - 1])
        }),
{
    lemma_leading_whitespace(s);
    let from = leading_whitespace(s);
    let rest = s.skip(from);
    lemma_trailing_whitespace(rest);
    let to = s.len() - trailing_whitespace(rest);
    assert(rest.take(rest.len() - trailing_whitespace(rest)) =~= s.subrange(from, to));
    assert forall|i: int| to <= i < s.len() implies is_whitespace(#[trigger] s[i]) by {
        assert(s[i] == rest[i - from]);
    }
    if from < to {
        assert(rest[rest.len() - 1 - trailing_whitespace(rest)] == s[to - 1]);
    }
}

/// Trimming twice is trimming once.
pub proof fn lemma_trim_is_idempotent(s: Seq<char>)
    ensures
        trim(trim(s)) == trim(s),
{
    lemma_trim(s);
    let t = trim(s);
    if t.len() == 0 {
        lemma_leading_whitespace_is(t, 0);
        assert(t.skip(0) =~= t);
        lemma_trailing_whitespace_is(t, 0);
        assert(t.take(0) =~= t);
    } else {
        let from = leading_whitespace(s);
        let to = s.len() - trailing_whitespace(s.skip(from));
        assert(t[0] == s[from]);
        assert(t[t.len() - 1] == s[to - 1]);
        lemma_leading_whitespace_is(t, 0);
        assert(t.skip(0) =~= t);
        lemma_trailing_whitespace_is(t, 0);
        assert(t.take(t.len() as int) =~= t);
    }
}

} // verus!
