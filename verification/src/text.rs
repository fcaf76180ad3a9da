//! Character-sequence helpers shared by the parsers of this crate.
//!
//! Every parser works on `Vec<char>` / `Seq<char>`; these helpers convert to
//! and from `str`/`String` and define, as spec functions, the std text
//! operations the parsers rely on (`trim`, `lines`, `split_once`, ...).
use vstd::prelude::*;
use vstd::string::StrSliceExecFns;

verus! {

/// The Unicode `White_Space` property, which `char::is_whitespace` tests.
pub open spec fn is_white_space(c: char) -> bool {
    let u = c as u32;
    ||| 0x9 <= u <= 0xd
    ||| u == 0x20
    ||| u == 0x85
    ||| u == 0xa0
    ||| u == 0x1680
    ||| 0x2000 <= u <= 0x200a
    ||| u == 0x2028
    ||| u == 0x2029
    ||| u == 0x202f
    ||| u == 0x205f
    ||| u == 0x3000
}

pub fn white_space(c: char) -> (r: bool)
    ensures
        r == is_white_space(c),
{
    let u = c as u32;
    (0x9 <= u && u <= 0xd) || u == 0x20 || u == 0x85 || u == 0xa0 || u == 0x1680 || (0x2000 <= u
        && u <= 0x200a) || u == 0x2028 || u == 0x2029 || u == 0x202f || u == 0x205f || u == 0x3000
}

/// The characters of `s`, one by one.
pub fn chars_of(s: &str) -> (r: Vec<char>)
    ensures
        r@ == s@,
{
    let n = s.unicode_len();
    let mut v: Vec<char> = Vec::new();
    let mut i: usize = 0;
    while i < n
        invariant
            n == s@.len(),
            i <= n,
            v@ == s@.take(i as int),
        decreases n - i,
    {
        let c = s.get_char(i);
        v.push(c);
        i = i + 1;
        assert(v@ =~= s@.take(i as int));
    }
    assert(v@ =~= s@);
    v
}

/// Collects characters into a `String` (`FromIterator<char> for String`).
#[verifier::external_body]
pub(crate) fn string_of(v: &[char]) -> (r: String)
    ensures
        r@ == v@,
{
    v.iter().collect()
}

/// Number of leading whitespace characters.
pub open spec fn leading_ws(s: Seq<char>) -> nat
    decreases s.len(),
{
    if s.len() > 0 && is_white_space(s[0]) {
        1 + leading_ws(s.drop_first())
    } else {
        0
    }
}

/// Number of trailing whitespace characters.
pub open spec fn trailing_ws(s: Seq<char>) -> nat
    decreases s.len(),
{
    if s.len() > 0 && is_white_space(s.last()) {
        1 + trailing_ws(s.drop_last())
    } else {
        0
    }
}

/// `str::trim_start`.
pub open spec fn trim_start(s: Seq<char>) -> Seq<char> {
    s.skip(leading_ws(s) as int)
}

/// `str::trim_end`.
pub open spec fn trim_end(s: Seq<char>) -> Seq<char> {
    s.take(s.len() - trailing_ws(s))
}

/// `str::trim`.
pub open spec fn trim(s: Seq<char>) -> Seq<char> {
    trim_end(trim_start(s))
}

/// The leading whitespace is a prefix of `s`, ended by a non-whitespace
/// character when it is not all of `s`.
pub proof fn lemma_leading_ws_bound(s: Seq<char>)
    ensures
        leading_ws(s) <= s.len(),
        forall|k: int| 0 <= k < leading_ws(s) ==> is_white_space(#[trigger] s[k]),
        leading_ws(s) < s.len() ==> !is_white_space(s[leading_ws(s) as int]),
    decreases s.len(),
{
    if s.len() > 0 && is_white_space(s[0]) {
        lemma_leading_ws_bound(s.drop_first());
        assert forall|k: int| 0 <= k < leading_ws(s) implies is_white_space(#[trigger] s[k]) by {
            if k > 0 {
                assert(s[k] == s.drop_first()[k - 1]);
            }
        }
    }
}

/// A whitespace prefix of length `i` followed by a non-whitespace
/// character (or the end) is the leading whitespace.
pub proof fn lemma_leading_ws_is(s: Seq<char>, i: int)
    requires
        0 <= i <= s.len(),
        forall|k: int| 0 <= k < i ==> is_white_space(#[trigger] s[k]),
        i < s.len() ==> !is_white_space(s[i]),
    ensures
        leading_ws(s) == i,
    decreases i,
{
    if i > 0 {
        assert(is_white_space(s[0]));
        let t = s.drop_first();
        assert forall|k: int| 0 <= k < i - 1 implies is_white_space(#[trigger] t[k]) by {
            assert(t[k] == s[k + 1]);
        }
        if i - 1 < t.len() {
            assert(t[i - 1] == s[i]);
        }
        lemma_leading_ws_is(t, i - 1);
    }
}

/// A whitespace suffix from `j` on, preceded by a non-whitespace character
/// (or the start), is the trailing whitespace.
pub proof fn lemma_trailing_ws_is(s: Seq<char>, j: int)
    requires
        0 <= j <= s.len(),
        forall|k: int| j <= k < s.len() ==> is_white_space(#[trigger] s[k]),
        j > 0 ==> !is_white_space(s[j - 1]),
    ensures
        trailing_ws(s) == s.len() - j,
    decreases s.len() - j,
{
    if j < s.len() {
        assert(is_white_space(s.last()));
        let t = s.drop_last();
        assert forall|k: int| j <= k < t.len() implies is_white_space(#[trigger] t[k]) by {
            assert(t[k] == s[k]);
        }
        if j > 0 {
            assert(t[j - 1] == s[j - 1]);
        }
        lemma_trailing_ws_is(t, j);
    }
}

/// Index of the first non-whitespace character at or after `from` (or `s.len()`).
fn skip_ws_forward(s: &Vec<char>) -> (i: usize)
    ensures
        i == leading_ws(s@),
{
    let mut i: usize = 0;
    while i < s.len() && white_space(s[i])
        invariant
            i <= s@.len(),
            forall|k: int| 0 <= k < i ==> is_white_space(#[trigger] s@[k]),
        decreases s@.len() - i,
    {
        i = i + 1;
    }
    proof {
        lemma_leading_ws_is(s@, i as int);
    }
    i
}

/// Copies `s[from..to]`.
pub fn slice_chars(s: &Vec<char>, from: usize, to: usize) -> (r: Vec<char>)
    requires
        from <= to <= s@.len(),
    ensures
        r@ == s@.subrange(from as int, to as int),
{
    let mut r: Vec<char> = Vec::new();
    let mut i = from;
    while i < to
        invariant
            from <= i <= to <= s@.len(),
            r@ == s@.subrange(from as int, i as int),
        decreases to - i,
    {
        r.push(s[i]);
        i = i + 1;
        assert(r@ =~= s@.subrange(from as int, i as int));
    }
    r
}

/// `str::trim` on a character vector.
pub fn trim_chars(s: &Vec<char>) -> (r: Vec<char>)
    ensures
        r@ == trim(s@),
{
    let start = skip_ws_forward(s);
    proof {
        lemma_leading_ws_bound(s@);
    }
    let ghost t = s@.skip(start as int);
    let mut end: usize = s.len();
    while end > start && white_space(s[end - 1])
        invariant
            start <= end <= s@.len(),
            start == leading_ws(s@),
            forall|k: int| end <= k < s@.len() ==> is_white_space(#[trigger] s@[k]),
        decreases end,
    {
        end = end - 1;
    }
    proof {
        lemma_leading_ws_bound(s@);
        let j = end - start;
        assert forall|k: int| j <= k < t.len() implies is_white_space(#[trigger] t[k]) by {
            assert(t[k] == s@[k + start]);
        }
        if j > 0 {
            assert(t[j - 1] == s@[end - 1]);
        }
        lemma_trailing_ws_is(t, j as int);
    }
    let r = slice_chars(s, start, end);
    assert(r@ =~= trim(s@));
    r
}

/// `s.trim().to_string()`.
pub fn trimmed(s: &str) -> (r: String)
    ensures
        r@ == trim(s@),
{
    let v = chars_of(s);
    let t = trim_chars(&v);
    string_of(t.as_slice())
}

/// `needle` occurs in `hay` (`str::contains` with a `&str` pattern).
pub open spec fn occurs_in(hay: Seq<char>, needle: Seq<char>) -> bool {
    exists|i: int| 0 <= i && i + needle.len() <= hay.len() && #[trigger] hay.subrange(
        i,
        i + needle.len(),
    ) == needle
}

/// Whether `needle` occurs in `hay`.
pub fn text_contains(hay: &str, needle: &str) -> (r: bool)
    ensures
        r == occurs_in(hay@, needle@),
{
    let h = chars_of(hay);
    let n = chars_of(needle);
    if n.len() > h.len() {
        return false;
    }
    let hl = h.len();
    let last = hl - n.len();
    let mut i: usize = 0;
    while i <= last
        invariant
            hl == h@.len(),
            last == h@.len() - n@.len(),
            h@ == hay@,
            n@ == needle@,
            i <= last + 1,
            forall|j: int| 0 <= j < i ==> #[trigger] h@.subrange(j, j + n@.len()) != n@,
        decreases last + 1 - i,
    {
        let mut k: usize = 0;
        let mut same = true;
        while same && k < n.len()
            invariant
                i <= last,
                hl == h@.len(),
                last == h@.len() - n@.len(),
                k <= n@.len(),
                forall|m: int| 0 <= m < k ==> #[trigger] h@[i + m] == n@[m],
                !same ==> k < n@.len() && h@[i + k] != n@[k as int],
            decreases n@.len() - k + if same { 1int } else { 0int },
        {
            if h[i + k] == n[k] {
                k = k + 1;
            } else {
                same = false;
            }
        }
        if same {
            assert forall|m: int| 0 <= m < n@.len() implies #[trigger] h@.subrange(
                i as int,
                i + n@.len(),
            )[m] == n@[m] by {
                assert(h@[i + m] == n@[m]);
            }
            assert(h@.subrange(i as int, i + n@.len()) =~= n@);
            return true;
        }
        assert(h@.subrange(i as int, i + n@.len())[k as int] != n@[k as int]);
        i = i + 1;
    }
    assert forall|j: int| 0 <= j && j + needle@.len() <= hay@.len() implies #[trigger] hay@.subrange(
        j,
        j + needle@.len(),
    ) != needle@ by {
        assert(h@.subrange(j, j + n@.len()) != n@);
    }
    false
}

/// `str::trim_start` on a character vector.
pub fn trim_start_chars(s: &Vec<char>) -> (r: Vec<char>)
    ensures
        r@ == trim_start(s@),
{
    let start = skip_ws_forward(s);
    proof {
        lemma_leading_ws_bound(s@);
    }
    let r = slice_chars(s, start, s.len());
    assert(r@ =~= trim_start(s@));
    r
}

/// Character-wise equality of two sequences.
pub fn chars_eq(a: &Vec<char>, b: &Vec<char>) -> (r: bool)
    ensures
        r == (a@ == b@),
{
    if a.len() != b.len() {
        return false;
    }
    let mut i: usize = 0;
    while i < a.len()
        invariant
            a@.len() == b@.len(),
            i <= a@.len(),
            forall|k: int| 0 <= k < i ==> a@[k] == b@[k],
        decreases a@.len() - i,
    {
        if a[i] != b[i] {
            return false;
        }
        i = i + 1;
    }
    assert(a@ =~= b@);
    true
}

/// `prefix` is a prefix of `s` (`str::starts_with`).
pub open spec fn has_prefix(s: Seq<char>, prefix: Seq<char>) -> bool {
    prefix.len() <= s.len() && s.take(prefix.len() as int) == prefix
}

pub fn starts_with_chars(s: &Vec<char>, prefix: &Vec<char>) -> (r: bool)
    ensures
        r == has_prefix(s@, prefix@),
{
    if prefix.len() > s.len() {
        return false;
    }
    let mut i: usize = 0;
    while i < prefix.len()
        invariant
            prefix@.len() <= s@.len(),
            i <= prefix@.len(),
            forall|k: int| 0 <= k < i ==> s@[k] == prefix@[k],
        decreases prefix@.len() - i,
    {
        if s[i] != prefix[i] {
            assert(s@.take(prefix@.len() as int)[i as int] != prefix@[i as int]);
            return false;
        }
        i = i + 1;
    }
    assert(s@.take(prefix@.len() as int) =~= prefix@);
    true
}

/// Concatenation of two character vectors.
pub fn concat_chars(a: &Vec<char>, b: &Vec<char>) -> (r: Vec<char>)
    ensures
        r@ == a@ + b@,
{
    let mut r: Vec<char> = Vec::new();
    let mut i: usize = 0;
    while i < a.len()
        invariant
            i <= a@.len(),
            r@ == a@.take(i as int),
        decreases a@.len() - i,
    {
        r.push(a[i]);
        i = i + 1;
        assert(r@ =~= a@.take(i as int));
    }
    let mut j: usize = 0;
    while j < b.len()
        invariant
            i == a@.len(),
            j <= b@.len(),
            r@ == a@ + b@.take(j as int),
        decreases b@.len() - j,
    {
        r.push(b[j]);
        j = j + 1;
        assert(r@ =~= a@ + b@.take(j as int));
    }
    assert(a@.take(i as int) =~= a@);
    assert(b@.take(j as int) =~= b@);
    r
}

/// Index of the first `c` in `s`, or `s.len()` when there is none.
pub open spec fn first_index(s: Seq<char>, c: char) -> nat
    decreases s.len(),
{
    if s.len() == 0 {
        0
    } else if s[0] == c {
        0
    } else {
        1 + first_index(s.drop_first(), c)
    }
}

/// Index of the first `'\n'` of `s`, or `s.len()` when there is none.
pub open spec fn newline_index(s: Seq<char>) -> nat {
    first_index(s, '\n')
}

/// `first_index` is within `s`, no `c` stands before it, and `c` stands at
/// it when it is not the end.
pub proof fn lemma_first_index_bound(s: Seq<char>, c: char)
    ensures
        first_index(s, c) <= s.len(),
        forall|k: int| 0 <= k < first_index(s, c) ==> #[trigger] s[k] != c,
        first_index(s, c) < s.len() ==> s[first_index(s, c) as int] == c,
    decreases s.len(),
{
    if s.len() > 0 && s[0] != c {
        lemma_first_index_bound(s.drop_first(), c);
        assert forall|k: int| 0 <= k < first_index(s, c) implies #[trigger] s[k] != c by {
            if k > 0 {
                assert(s[k] == s.drop_first()[k - 1]);
            }
        }
    }
}

/// The first `c` is at `j` when none stands before `j` and `c` stands at `j`
/// (or `j` is the end).
pub proof fn lemma_first_index_is(t: Seq<char>, c: char, j: int)
    requires
        0 <= j <= t.len(),
        forall|k: int| 0 <= k < j ==> #[trigger] t[k] != c,
        j < t.len() ==> t[j] == c,
    ensures
        first_index(t, c) == j,
    decreases j,
{
    if j > 0 {
        let u = t.drop_first();
        assert forall|k: int| 0 <= k < j - 1 implies #[trigger] u[k] != c by {
            assert(u[k] == t[k + 1]);
        }
        if j - 1 < u.len() {
            assert(u[j - 1] == t[j]);
        }
        lemma_first_index_is(u, c, j - 1);
    }
}

/// Index of the first `c` in `s`, or `s.len()`.
pub fn find_char(s: &Vec<char>, c: char) -> (i: usize)
    ensures
        i == first_index(s@, c),
{
    let mut i: usize = 0;
    while i < s.len() && s[i] != c
        invariant
            i <= s@.len(),
            forall|k: int| 0 <= k < i ==> s@[k] != c,
        decreases s@.len() - i,
    {
        i = i + 1;
    }
    proof {
        lemma_first_index_is(s@, c, i as int);
    }
    i
}

/// `s` holds no `c`.
pub open spec fn lacks(s: Seq<char>, c: char) -> bool {
    forall|k: int| 0 <= k < s.len() ==> #[trigger] s[k] != c
}

/// Drops one trailing `'\r'`.
pub open spec fn strip_cr(l: Seq<char>) -> Seq<char> {
    if l.len() > 0 && l.last() == '\r' {
        l.drop_last()
    } else {
        l
    }
}

/// `str::lines`: pieces ended by `"\n"` or `"\r\n"`; a final line needs no ending.
pub open spec fn lines(s: Seq<char>) -> Seq<Seq<char>>
    decreases s.len(),
{
    if s.len() == 0 {
        seq![]
    } else {
        let i = newline_index(s);
        if i >= s.len() {
            seq![s]
        } else {
            seq![strip_cr(s.take(i as int))] + lines(s.skip(i + 1 as int))
        }
    }
}

/// The views of a sequence of character vectors.
pub open spec fn views(v: Seq<Vec<char>>) -> Seq<Seq<char>> {
    v.map_values(|l: Vec<char>| l@)
}

fn strip_cr_chars(l: Vec<char>) -> (r: Vec<char>)
    ensures
        r@ == strip_cr(l@),
{
    let mut l = l;
    if l.len() > 0 && l[l.len() - 1] == '\r' {
        l.pop();
    }
    l
}

/// Text ended by a line break splits into its lines and those of what follows.
pub proof fn lemma_lines_append(a: Seq<char>, b: Seq<char>)
    requires
        a.len() == 0 || a.last() == '\n',
    ensures
        lines(a + b) == lines(a) + lines(b),
    decreases a.len(),
{
    if a.len() == 0 {
        assert(a + b =~= b);
        assert(lines(a) + lines(b) =~= lines(b));
    } else {
        lemma_first_index_bound(a, '\n');
        let i = newline_index(a);
        if i == a.len() {
            assert(a[a.len() - 1] != '\n');
        }
        let ab = a + b;
        assert forall|k: int| 0 <= k < i implies #[trigger] ab[k] != '\n' by {
            assert(ab[k] == a[k]);
        }
        assert(ab[i as int] == a[i as int]);
        lemma_first_index_is(ab, '\n', i as int);
        assert(ab.take(i as int) =~= a.take(i as int));
        let r = a.skip(i + 1 as int);
        assert(ab.skip(i + 1 as int) =~= r + b);
        if r.len() > 0 {
            assert(r.last() == a.last());
        }
        lemma_lines_append(r, b);
        assert(lines(a + b) =~= lines(a) + lines(b));
    }
}

/// A line without `'\n'`, ended by `'\n'`, is read back as one line (less a
/// trailing `'\r'`).
pub proof fn lemma_lines_of_one_line(l: Seq<char>)
    requires
        forall|k: int| 0 <= k < l.len() ==> #[trigger] l[k] != '\n',
    ensures
        lines(l + seq!['\n']) == seq![strip_cr(l)],
{
    let s = l + seq!['\n'];
    assert forall|k: int| 0 <= k < l.len() implies #[trigger] s[k] != '\n' by {
        assert(s[k] == l[k]);
    }
    lemma_first_index_is(s, '\n', l.len() as int);
    assert(s.take(l.len() as int) =~= l);
    assert(s.skip(l.len() + 1 as int) =~= Seq::<char>::empty());
    assert(lines(Seq::<char>::empty()) =~= Seq::<Seq<char>>::empty());
    assert(s.len() > 0);
    assert(lines(s) == seq![strip_cr(s.take(l.len() as int))] + lines(s.skip(l.len() + 1 as int)));
    assert(lines(s) =~= seq![strip_cr(l)]);
}

/// No line holds a `'\n'`; when the text holds no `'\r'`, no line does.
pub proof fn lemma_lines_lack(s: Seq<char>)
    ensures
        forall|i: int| 0 <= i < lines(s).len() ==> lacks(#[trigger] lines(s)[i], '\n'),
        lacks(s, '\r') ==> forall|i: int| 0 <= i < lines(s).len() ==> lacks(#[trigger] lines(s)[i], '\r'),
    decreases s.len(),
{
    if s.len() > 0 {
        lemma_first_index_bound(s, '\n');
        let i = newline_index(s);
        if i < s.len() {
            let rest = s.skip(i + 1 as int);
            lemma_lines_lack(rest);
            let first = s.take(i as int);
            let l = strip_cr(first);
            assert(lacks(l, '\n')) by {
                assert forall|k: int| 0 <= k < l.len() implies #[trigger] l[k] != '\n' by {
                    assert(l[k] == first[k]);
                }
            }
            if lacks(s, '\r') {
                assert(lacks(rest, '\r')) by {
                    assert forall|k: int| 0 <= k < rest.len() implies #[trigger] rest[k] != '\r' by {
                        assert(rest[k] == s[k + i + 1]);
                    }
                }
                assert(lacks(l, '\r')) by {
                    assert forall|k: int| 0 <= k < l.len() implies #[trigger] l[k] != '\r' by {
                        assert(l[k] == s[k]);
                    }
                }
            }
            let ls = lines(s);
            assert(ls == seq![l] + lines(rest));
            assert forall|j: int| 0 <= j < ls.len() implies lacks(#[trigger] ls[j], '\n') by {
                if j > 0 {
                    assert(ls[j] == lines(rest)[j - 1]);
                }
            }
            if lacks(s, '\r') {
                assert forall|j: int| 0 <= j < ls.len() implies lacks(#[trigger] ls[j], '\r') by {
                    if j > 0 {
                        assert(ls[j] == lines(rest)[j - 1]);
                    }
                }
            }
        } else {
            assert(lines(s) == seq![s]);
        }
    }
}

/// Lines, each followed by `'\n'`.
pub open spec fn terminated(ls: Seq<Seq<char>>) -> Seq<char>
    decreases ls.len(),
{
    if ls.len() == 0 {
        seq![]
    } else {
        terminated(ls.drop_last()) + ls.last() + seq!['\n']
    }
}

/// Writing lines out, each ended by `'\n'`, and reading them back gives
/// the same lines.
pub proof fn lemma_lines_of_terminated(ls: Seq<Seq<char>>)
    requires
        forall|i: int| 0 <= i < ls.len() ==> lacks(#[trigger] ls[i], '\n') && lacks(ls[i], '\r'),
    ensures
        lines(terminated(ls)) == ls,
    decreases ls.len(),
{
    if ls.len() == 0 {
        assert(lines(terminated(ls)) =~= ls);
    } else {
        let init = ls.drop_last();
        assert forall|i: int| 0 <= i < init.len() implies lacks(#[trigger] init[i], '\n') && lacks(
            init[i],
            '\r',
        ) by {
            assert(init[i] == ls[i]);
        }
        lemma_lines_of_terminated(init);
        let a = terminated(init);
        let l = ls.last();
        assert(lacks(l, '\n') && lacks(l, '\r')) by {
            assert(l == ls[ls.len() - 1]);
        }
        if init.len() > 0 {
            assert(a.last() == '\n');
        }
        lemma_lines_append(a, l + seq!['\n']);
        lemma_lines_of_one_line(l);
        if l.len() > 0 {
            assert(l.last() != '\r');
        }
        assert(strip_cr(l) == l);
        assert(terminated(ls) =~= a + (l + seq!['\n']));
        assert(lines(terminated(ls)) =~= init + seq![l]);
        assert(init + seq![l] =~= ls);
    }
}

/// Lines with one more in front: that line, its `'\n'`, then the others.
pub proof fn lemma_terminated_prepend(a: Seq<char>, ls: Seq<Seq<char>>)
    ensures
        terminated(seq![a] + ls) == a + seq!['\n'] + terminated(ls),
    decreases ls.len(),
{
    if ls.len() == 0 {
        assert(seq![a] + ls =~= seq![a]);
        assert(seq![a].drop_last() =~= Seq::<Seq<char>>::empty());
        assert(terminated(Seq::<Seq<char>>::empty()) =~= Seq::<char>::empty());
        assert(seq![a].last() == a);
        assert(terminated(seq![a]) == terminated(seq![a].drop_last()) + seq![a].last() + seq!['\n']);
        assert(terminated(seq![a]) =~= a + seq!['\n']);
        assert(a + seq!['\n'] + terminated(ls) =~= a + seq!['\n']);
    } else {
        let all = seq![a] + ls;
        assert(all.drop_last() =~= seq![a] + ls.drop_last());
        assert(all.last() == ls.last());
        lemma_terminated_prepend(a, ls.drop_last());
        assert(terminated(all) =~= a + seq!['\n'] + terminated(ls));
    }
}

/// Text without `'\r'` that is empty or ends in `'\n'` is its lines, each
/// ended by `'\n'`.
pub proof fn lemma_terminated_lines(s: Seq<char>)
    requires
        s.len() == 0 || s.last() == '\n',
        lacks(s, '\r'),
    ensures
        terminated(lines(s)) == s,
    decreases s.len(),
{
    if s.len() == 0 {
        assert(lines(s) =~= Seq::<Seq<char>>::empty());
        assert(terminated(lines(s)) =~= s);
    } else {
        lemma_first_index_bound(s, '\n');
        let i = newline_index(s);
        assert(i < s.len()) by {
            if i >= s.len() {
                assert(s[s.len() - 1] != '\n');
            }
        }
        let first = s.take(i as int);
        let rest = s.skip(i + 1 as int);
        assert(strip_cr(first) == first) by {
            if first.len() > 0 {
                assert(first.last() == s[i - 1]);
            }
        }
        assert(lacks(rest, '\r')) by {
            assert forall|k: int| 0 <= k < rest.len() implies #[trigger] rest[k] != '\r' by {
                assert(rest[k] == s[k + i + 1]);
            }
        }
        if rest.len() > 0 {
            assert(rest.last() == s.last());
        }
        lemma_terminated_lines(rest);
        assert(lines(s) == seq![first] + lines(rest));
        lemma_terminated_prepend(first, lines(rest));
        assert(s =~= first + seq!['\n'] + rest);
    }
}

/// A final line ending changes nothing: text whose last character is
/// neither `'\n'` nor `'\r'` has the same lines with a `'\n'` after it.
pub proof fn lemma_lines_final_newline(x: Seq<char>)
    requires
        x.len() > 0,
        x.last() != '\n',
        x.last() != '\r',
    ensures
        lines(x + seq!['\n']) == lines(x),
    decreases x.len(),
{
    let y = x + seq!['\n'];
    lemma_first_index_bound(x, '\n');
    let i = newline_index(x);
    if i >= x.len() {
        assert forall|k: int| 0 <= k < x.len() implies #[trigger] y[k] != '\n' by {
            assert(y[k] == x[k]);
        }
        lemma_first_index_is(y, '\n', x.len() as int);
        assert(y.take(x.len() as int) =~= x);
        assert(y.skip(x.len() + 1 as int) =~= Seq::<char>::empty());
        assert(lines(Seq::<char>::empty()) =~= Seq::<Seq<char>>::empty());
        assert(strip_cr(x) == x);
        assert(lines(y) =~= seq![x]);
    } else {
        assert(i < x.len() - 1) by {
            if i == x.len() - 1 {
                assert(x[i as int] == '\n');
            }
        }
        assert forall|k: int| 0 <= k < i implies #[trigger] y[k] != '\n' by {
            assert(y[k] == x[k]);
        }
        assert(y[i as int] == x[i as int]);
        lemma_first_index_is(y, '\n', i as int);
        let rest = x.skip(i + 1 as int);
        assert(y.take(i as int) =~= x.take(i as int));
        assert(y.skip(i + 1 as int) =~= rest + seq!['\n']);
        assert(rest.last() == x.last());
        lemma_lines_final_newline(rest);
    }
}

/// `str::lines` on a character vector.
pub fn split_lines(s: &Vec<char>) -> (r: Vec<Vec<char>>)
    ensures
        views(r@) == lines(s@),
{
    let mut out: Vec<Vec<char>> = Vec::new();
    let mut pos: usize = 0;
    assert(s@.skip(0) =~= s@);
    while pos < s.len()
        invariant
            pos <= s@.len(),
            lines(s@) == views(out@) + lines(s@.skip(pos as int)),
        decreases s@.len() - pos,
    {
        let ghost t = s@.skip(pos as int);
        let mut i = pos;
        while i < s.len() && s[i] != '\n'
            invariant
                pos <= i <= s@.len(),
                forall|k: int| pos <= k < i ==> s@[k] != '\n',
            decreases s@.len() - i,
        {
            i = i + 1;
        }
        proof {
            assert forall|k: int| 0 <= k < i - pos implies #[trigger] t[k] != '\n' by {
                assert(t[k] == s@[k + pos]);
            }
            if i < s@.len() {
                assert(t[i - pos] == s@[i as int]);
            }
            lemma_first_index_is(t, '\n', i - pos);
        }
        let piece = slice_chars(s, pos, i);
        let line = if i < s.len() {
            strip_cr_chars(piece)
        } else {
            piece
        };
        let ghost before = out@;
        out.push(line);
        proof {
            assert(views(out@) =~= views(before) + seq![line@]);
        }
        if i == s.len() {
            assert(t =~= s@.subrange(pos as int, i as int));
            assert(t.take((i - pos) as int) =~= t);
            assert(lines(t) == seq![t]);
            assert(line@ == t);
            assert(lines(s@) =~= views(out@));
            pos = i;
            assert(s@.skip(pos as int) =~= Seq::<char>::empty());
            assert(views(out@) + lines(s@.skip(pos as int)) =~= views(out@));
        } else {
            assert(t.take((i - pos) as int) =~= s@.subrange(pos as int, i as int));
            assert(t.skip((i - pos) + 1) =~= s@.skip(i + 1));
            assert(lines(t) == seq![strip_cr(t.take((i - pos) as int))] + lines(t.skip((i - pos) + 1)));
            assert(lines(s@) =~= views(out@) + lines(s@.skip(i + 1)));
            pos = i + 1;
        }
    }
    assert(s@.skip(pos as int) =~= Seq::<char>::empty());
    assert(views(out@) + Seq::<Seq<char>>::empty() =~= views(out@));
    out
}

} // verus!
