//! Character-level text handling: whitespace trimming, comma splitting,
//! substring search and path joining, each proved against a spec function.
use vstd::prelude::*;

verus! {

/// Unicode `White_Space`, the set of characters that `char::is_whitespace` accepts.
pub open spec fn is_white(c: char) -> bool {
    let u = c as u32;
    (0x09 <= u && u <= 0x0d) || u == 0x20 || u == 0x85 || u == 0xa0 || u == 0x1680 || (0x2000
        <= u && u <= 0x200a) || u == 0x2028 || u == 0x2029 || u == 0x202f || u == 0x205f || u
        == 0x3000
}

/// Drops leading whitespace.
pub open spec fn trim_start(s: Seq<char>) -> Seq<char>
    decreases s.len(),
{
    if s.len() > 0 && is_white(s[0]) {
        trim_start(s.drop_first())
    } else {
        s
    }
}

/// Drops trailing whitespace.
pub open spec fn trim_end(s: Seq<char>) -> Seq<char>
    decreases s.len(),
{
    if s.len() > 0 && is_white(s.last()) {
        trim_end(s.drop_last())
    } else {
        s
    }
}

/// Drops leading and trailing whitespace.
pub open spec fn trim(s: Seq<char>) -> Seq<char> {
    trim_end(trim_start(s))
}

/// The pieces of `s` between commas, in order; there is always at least one.
pub open spec fn split_commas(s: Seq<char>) -> Seq<Seq<char>>
    decreases s.len(),
{
    if s.len() == 0 {
        seq![Seq::empty()]
    } else {
        let r = split_commas(s.drop_last());
        if s.last() == ',' {
            r.push(Seq::empty())
        } else {
            r.update(r.len() - 1, r.last().push(s.last()))
        }
    }
}

/// Each piece trimmed.
pub open spec fn trim_all(pieces: Seq<Seq<char>>) -> Seq<Seq<char>>
    decreases pieces.len(),
{
    if pieces.len() == 0 {
        Seq::empty()
    } else {
        trim_all(pieces.drop_last()).push(trim(pieces.last()))
    }
}

/// The non-empty pieces, in order.
pub open spec fn keep_nonempty(pieces: Seq<Seq<char>>) -> Seq<Seq<char>>
    decreases pieces.len(),
{
    if pieces.len() == 0 {
        Seq::empty()
    } else if pieces.last().len() == 0 {
        keep_nonempty(pieces.drop_last())
    } else {
        keep_nonempty(pieces.drop_last()).push(pieces.last())
    }
}

/// The trimmed comma-separated pieces of an attribute value, empty ones included.
pub open spec fn trimmed_pieces(s: Seq<char>) -> Seq<Seq<char>> {
    trim_all(split_commas(s))
}

/// The tokens of an attribute value: split on commas, trimmed, empty ones dropped.
pub open spec fn tokens_of(s: Seq<char>) -> Seq<Seq<char>> {
    keep_nonempty(trimmed_pieces(s))
}

/// `t` occurs in `s` as a contiguous run of characters.
pub open spec fn has_substring(s: Seq<char>, t: Seq<char>) -> bool {
    exists|k: int| 0 <= k && k + t.len() <= s.len() && #[trigger] s.subrange(k, k + t.len()) == t
}

/// `prefix/path`, or `path` alone where the prefix is empty.
pub open spec fn join_path(prefix: Seq<char>, path: Seq<char>) -> Seq<char> {
    if prefix.len() == 0 {
        path
    } else {
        prefix + seq!['/'] + path
    }
}

proof fn lemma_trim_start_at(s: Seq<char>, a: int)
    requires
        0 <= a <= s.len(),
        forall|j: int| 0 <= j < a ==> is_white(#[trigger] s[j]),
        a == s.len() || !is_white(s[a]),
    ensures
        trim_start(s) == s.subrange(a, s.len() as int),
    decreases a,
{
    if a == 0 {
        assert(s.subrange(0, s.len() as int) =~= s);
    } else {
        let d = s.drop_first();
        assert forall|j: int| 0 <= j < a - 1 implies is_white(#[trigger] d[j]) by {
            assert(d[j] == s[j + 1]);
        }
        if a - 1 < d.len() {
            assert(d[a - 1] == s[a]);
        }
        lemma_trim_start_at(d, a - 1);
        assert(d.subrange(a - 1, d.len() as int) =~= s.subrange(a, s.len() as int));
    }
}

proof fn lemma_trim_end_at(s: Seq<char>, b: int)
    requires
        0 <= b <= s.len(),
        forall|j: int| b <= j < s.len() ==> is_white(#[trigger] s[j]),
        b == 0 || !is_white(s[b - 1]),
    ensures
        trim_end(s) == s.subrange(0, b),
    decreases s.len() - b,
{
    if b == s.len() {
        assert(s.subrange(0, s.len() as int) =~= s);
    } else {
        let d = s.drop_last();
        assert forall|j: int| b <= j < d.len() implies is_white(#[trigger] d[j]) by {
            assert(d[j] == s[j]);
        }
        if b > 0 {
            assert(d[b - 1] == s[b - 1]);
        }
        lemma_trim_end_at(d, b);
        assert(d.subrange(0, b) =~= s.subrange(0, b));
    }
}

/// Whether `c` is whitespace, as `char::is_whitespace` decides it.
pub fn is_white_char(c: char) -> (r: bool)
    ensures
        r == is_white(c),
{
    let u = c as u32;
    (0x09 <= u && u <= 0x0d) || u == 0x20 || u == 0x85 || u == 0xa0 || u == 0x1680 || (0x2000
        <= u && u <= 0x200a) || u == 0x2028 || u == 0x2029 || u == 0x202f || u == 0x205f || u
        == 0x3000
}

/// The characters of `s` from `a` to `b`, as a new string.
pub fn slice_chars(s: &str, a: usize, b: usize) -> (r: String)
    requires
        a <= b <= s@.len(),
    ensures
        r@ == s@.subrange(a as int, b as int),
{
    s.substring_char(a, b).to_owned()
}

/// `s` without leading and trailing whitespace.
pub fn trim_text(s: &str) -> (r: String)
    ensures
        r@ == trim(s@),
{
    let n = s.unicode_len();
    let mut a: usize = 0;
    while a < n && is_white_char(s.get_char(a))
        invariant
            n == s@.len(),
            a <= n,
            forall|j: int| 0 <= j < a ==> is_white(#[trigger] s@[j]),
        decreases n - a,
    {
        a = a + 1;
    }
    let mut b: usize = n;
    while b > a && is_white_char(s.get_char(b - 1))
        invariant
            n == s@.len(),
            a <= b <= n,
            forall|j: int| b <= j < n ==> is_white(#[trigger] s@[j]),
        decreases b,
    {
        b = b - 1;
    }
    proof {
        lemma_trim_start_at(s@, a as int);
        let t = s@.subrange(a as int, n as int);
        assert forall|j: int| (b - a) <= j < t.len() implies is_white(#[trigger] t[j]) by {
            assert(t[j] == s@[a + j]);
        }
        if b > a {
            assert(t[b - a - 1] == s@[b - 1]);
        }
        lemma_trim_end_at(t, (b - a) as int);
        assert(t.subrange(0, (b - a) as int) =~= s@.subrange(a as int, b as int));
    }
    slice_chars(s, a, b)
}

/// The trimmed comma-separated pieces of `s`, empty ones included.
pub fn split_trimmed(s: &str) -> (r: Vec<String>)
    ensures
        r@.map_values(|x: String| x@) == trimmed_pieces(s@),
{
    let n = s.unicode_len();
    let mut out: Vec<String> = Vec::new();
    let mut start: usize = 0;
    let mut i: usize = 0;
    proof {
        assert(s@.take(0) =~= Seq::<char>::empty());
    }
    while i < n
        invariant
            n == s@.len(),
            start <= i <= n,
            ({
                let sp = split_commas(s@.take(i as int));
                &&& sp.len() >= 1
                &&& out@.map_values(|x: String| x@) == trim_all(sp.drop_last())
                &&& sp.last() == s@.subrange(start as int, i as int)
            }),
        decreases n - i,
    {
        let ghost old_sp = split_commas(s@.take(i as int));
        let c = s.get_char(i);
        proof {
            assert(s@.take(i + 1).drop_last() =~= s@.take(i as int));
            assert(s@.take(i + 1).last() == c);
        }
        if c == ',' {
            let piece = slice_chars(s, start, i);
            let t = trim_text(piece.as_str());
            out.push(t);
            proof {
                let sp = split_commas(s@.take(i + 1));
                assert(sp == old_sp.push(Seq::empty()));
                assert(sp.drop_last() =~= old_sp);
                assert(old_sp.drop_last().push(old_sp.last()) =~= old_sp);
                assert(out@.map_values(|x: String| x@) =~= trim_all(old_sp.drop_last()).push(
                    trim(old_sp.last()),
                ));
                assert(s@.subrange(i + 1, i + 1) =~= Seq::<char>::empty());
            }
            start = i + 1;
        } else {
            proof {
                let sp = split_commas(s@.take(i + 1));
                assert(sp == old_sp.update(old_sp.len() - 1, old_sp.last().push(c)));
                assert(sp.drop_last() =~= old_sp.drop_last());
                assert(s@.subrange(start as int, i + 1) =~= s@.subrange(start as int, i as int).push(
                    c,
                ));
            }
        }
        i = i + 1;
    }
    let piece = slice_chars(s, start, n);
    let t = trim_text(piece.as_str());
    out.push(t);
    proof {
        let sp = split_commas(s@.take(n as int));
        assert(s@.take(n as int) =~= s@);
        assert(sp.drop_last().push(sp.last()) =~= sp);
        assert(out@.map_values(|x: String| x@) =~= trim_all(sp.drop_last()).push(trim(sp.last())));
    }
    out
}

/// The tokens of an attribute value: the trimmed, non-empty comma-separated pieces.
pub fn split_tokens(s: &str) -> (r: Vec<String>)
    ensures
        r@.map_values(|x: String| x@) == tokens_of(s@),
{
    let pieces = split_trimmed(s);
    let ghost pv = pieces@.map_values(|x: String| x@);
    let mut out: Vec<String> = Vec::new();
    let mut i: usize = 0;
    while i < pieces.len()
        invariant
            i <= pieces.len(),
            pv == pieces@.map_values(|x: String| x@),
            out@.map_values(|x: String| x@) == keep_nonempty(pv.take(i as int)),
        decreases pieces.len() - i,
    {
        proof {
            assert(pv.take(i + 1).drop_last() =~= pv.take(i as int));
            assert(pv.take(i + 1).last() == pieces@[i as int]@);
        }
        if pieces[i].unicode_len() > 0 {
            out.push(pieces[i].clone());
            proof {
                assert(out@.map_values(|x: String| x@) =~= keep_nonempty(pv.take(i as int)).push(
                    pieces@[i as int]@,
                ));
            }
        }
        i = i + 1;
    }
    proof {
        assert(pv.take(pieces.len() as int) =~= pv);
    }
    out
}

/// Whether the characters of `t` appear at position `k` of `s`.
pub fn occurs_at(s: &str, t: &str, k: usize) -> (r: bool)
    requires
        k + t@.len() <= s@.len(),
        s@.len() <= usize::MAX,
    ensures
        r == (s@.subrange(k as int, k + t@.len()) == t@),
{
    let m = t.unicode_len();
    let mut j: usize = 0;
    while j < m
        invariant
            m == t@.len(),
            j <= m,
            k + m <= s@.len(),
            s@.len() <= usize::MAX,
            forall|q: int| 0 <= q < j ==> s@[k + q] == t@[q],
        decreases m - j,
    {
        if s.get_char(k + j) != t.get_char(j) {
            proof {
                assert(s@.subrange(k as int, k + m)[j as int] == s@[k + j]);
            }
            return false;
        }
        j = j + 1;
    }
    assert(s@.subrange(k as int, k + m) =~= t@);
    true
}

/// Whether `t` occurs in `s`.
pub fn contains_text(s: &str, t: &str) -> (r: bool)
    ensures
        r == has_substring(s@, t@),
{
    let n = s.unicode_len();
    let m = t.unicode_len();
    if m > n {
        return false;
    }
    let mut k: usize = 0;
    while k < n - m
        invariant
            n == s@.len(),
            m == t@.len(),
            m <= n,
            k <= n - m,
            forall|q: int| 0 <= q < k ==> #[trigger] s@.subrange(q, q + m) != t@,
        decreases n - m - k,
    {
        if occurs_at(s, t, k) {
            return true;
        }
        k = k + 1;
    }
    occurs_at(s, t, k)
}

/// Whether two strings hold the same characters.
pub fn same_text(a: &str, b: &str) -> (r: bool)
    ensures
        r == (a@ == b@),
{
    let n = a.unicode_len();
    if n != b.unicode_len() {
        return false;
    }
    let r = occurs_at(a, b, 0);
    proof {
        assert(a@.subrange(0, n as int) =~= a@);
    }
    r
}

/// `prefix/path`, or `path` alone where the prefix is empty.
pub fn join_text(prefix: &str, path: &str) -> (r: String)
    ensures
        r@ == join_path(prefix@, path@),
{
    if prefix.unicode_len() == 0 {
        path.to_owned()
    } else {
        let mut r = prefix.to_owned();
        r.append("/");
        r.append(path);
        proof {
            reveal_strlit("/");
        }
        r
    }
}

/// What separates the pieces of a split.
#[derive(Clone, Copy, Debug, PartialEq, Eq)]
pub enum Separator {
    /// One given character.
    Char(char),
    /// Any whitespace character.
    White,
}

pub open spec fn is_sep(sep: Separator, c: char) -> bool {
    match sep {
        Separator::Char(x) => c == x,
        Separator::White => is_white(c),
    }
}

/// The pieces of `s` between separators, in order; there is always at least one.
pub open spec fn split_on(s: Seq<char>, sep: Separator) -> Seq<Seq<char>>
    decreases s.len(),
{
    if s.len() == 0 {
        seq![Seq::empty()]
    } else {
        let r = split_on(s.drop_last(), sep);
        if is_sep(sep, s.last()) {
            r.push(Seq::empty())
        } else {
            r.update(r.len() - 1, r.last().push(s.last()))
        }
    }
}

/// The whitespace-separated words of `s`, as `str::split_whitespace` gives them.
pub open spec fn words(s: Seq<char>) -> Seq<Seq<char>> {
    keep_nonempty(split_on(s, Separator::White))
}

/// Whether `c` separates pieces.
pub fn is_sep_char(sep: Separator, c: char) -> (r: bool)
    ensures
        r == is_sep(sep, c),
{
    match sep {
        Separator::Char(x) => c == x,
        Separator::White => is_white_char(c),
    }
}

/// The pieces of `s` between separators.
pub fn split_text(s: &str, sep: Separator) -> (r: Vec<String>)
    ensures
        r@.map_values(|x: String| x@) == split_on(s@, sep),
{
    let n = s.unicode_len();
    let mut out: Vec<String> = Vec::new();
    let mut start: usize = 0;
    let mut i: usize = 0;
    proof {
        assert(s@.take(0) =~= Seq::<char>::empty());
    }
    while i < n
        invariant
            n == s@.len(),
            start <= i <= n,
            ({
                let sp = split_on(s@.take(i as int), sep);
                &&& sp.len() >= 1
                &&& out@.map_values(|x: String| x@) == sp.drop_last()
                &&& sp.last() == s@.subrange(start as int, i as int)
            }),
        decreases n - i,
    {
        let ghost old_sp = split_on(s@.take(i as int), sep);
        let c = s.get_char(i);
        proof {
            assert(s@.take(i + 1).drop_last() =~= s@.take(i as int));
            assert(s@.take(i + 1).last() == c);
        }
        if is_sep_char(sep, c) {
            let piece = slice_chars(s, start, i);
            out.push(piece);
            proof {
                let sp = split_on(s@.take(i + 1), sep);
                assert(sp == old_sp.push(Seq::empty()));
                assert(sp.drop_last() =~= old_sp);
                assert(old_sp.drop_last().push(old_sp.last()) =~= old_sp);
                assert(out@.map_values(|x: String| x@) =~= old_sp.drop_last().push(old_sp.last()));
                assert(s@.subrange(i + 1, i + 1) =~= Seq::<char>::empty());
            }
            start = i + 1;
        } else {
            proof {
                let sp = split_on(s@.take(i + 1), sep);
                assert(sp == old_sp.update(old_sp.len() - 1, old_sp.last().push(c)));
                assert(sp.drop_last() =~= old_sp.drop_last());
                assert(s@.subrange(start as int, i + 1) =~= s@.subrange(start as int, i as int).push(
                    c,
                ));
            }
        }
        i = i + 1;
    }
    let piece = slice_chars(s, start, n);
    out.push(piece);
    proof {
        let sp = split_on(s@.take(n as int), sep);
        assert(s@.take(n as int) =~= s@);
        assert(sp.drop_last().push(sp.last()) =~= sp);
        assert(out@.map_values(|x: String| x@) =~= sp.drop_last().push(sp.last()));
    }
    out
}

/// The non-empty strings, in order.
pub fn nonempty_only(pieces: Vec<String>) -> (r: Vec<String>)
    ensures
        r@.map_values(|x: String| x@) == keep_nonempty(pieces@.map_values(|x: String| x@)),
{
    let ghost pv = pieces@.map_values(|x: String| x@);
    let mut out: Vec<String> = Vec::new();
    let mut i: usize = 0;
    while i < pieces.len()
        invariant
            i <= pieces.len(),
            pv == pieces@.map_values(|x: String| x@),
            out@.map_values(|x: String| x@) == keep_nonempty(pv.take(i as int)),
        decreases pieces.len() - i,
    {
        proof {
            assert(pv.take(i + 1).drop_last() =~= pv.take(i as int));
            assert(pv.take(i + 1).last() == pieces@[i as int]@);
        }
        if pieces[i].unicode_len() > 0 {
            out.push(pieces[i].clone());
            proof {
                assert(out@.map_values(|x: String| x@) =~= keep_nonempty(pv.take(i as int)).push(
                    pieces@[i as int]@,
                ));
            }
        }
        i = i + 1;
    }
    proof {
        assert(pv.take(pieces.len() as int) =~= pv);
    }
    out
}

/// The whitespace-separated words of `s`.
pub fn split_words(s: &str) -> (r: Vec<String>)
    ensures
        r@.map_values(|x: String| x@) == words(s@),
{
    nonempty_only(split_text(s, Separator::White))
}

/// Whether `s` begins with `p`.
pub fn starts_with_text(s: &str, p: &str) -> (r: bool)
    ensures
        r == (p@.len() <= s@.len() && s@.subrange(0, p@.len() as int) == p@),
{
    let n = s.unicode_len();
    let m = p.unicode_len();
    if m > n {
        return false;
    }
    occurs_at(s, p, 0)
}

/// The characters of `s` from position `a` on.
pub fn suffix_from(s: &str, a: usize) -> (r: String)
    requires
        a <= s@.len(),
    ensures
        r@ == s@.subrange(a as int, s@.len() as int),
{
    let n = s.unicode_len();
    slice_chars(s, a, n)
}

pub proof fn lemma_split_on_nonempty(s: Seq<char>, sep: Separator)
    ensures
        split_on(s, sep).len() >= 1,
    decreases s.len(),
{
    if s.len() > 0 {
        lemma_split_on_nonempty(s.drop_last(), sep);
    }
}

/// `s` without leading whitespace.
pub fn trim_start_text(s: &str) -> (r: String)
    ensures
        r@ == trim_start(s@),
{
    let n = s.unicode_len();
    let mut a: usize = 0;
    while a < n && is_white_char(s.get_char(a))
        invariant
            n == s@.len(),
            a <= n,
            forall|j: int| 0 <= j < a ==> is_white(#[trigger] s@[j]),
        decreases n - a,
    {
        a = a + 1;
    }
    proof {
        lemma_trim_start_at(s@, a as int);
    }
    slice_chars(s, a, n)
}

/// The character of decimal digit `d`.
pub open spec fn digit_char(d: int) -> char {
    if d == 0 { '0' } else if d == 1 { '1' } else if d == 2 { '2' } else if d == 3 { '3' } else if d == 4 { '4' } else if d == 5 { '5' } else if d == 6 { '6' } else if d == 7 { '7' } else if d == 8 { '8' } else { '9' }
}

/// The decimal digits of `n`, without leading zeros.
pub open spec fn decimal(n: nat) -> Seq<char>
    decreases n,
{
    if n < 10 {
        seq![digit_char(n as int)]
    } else {
        decimal(n / 10).push(digit_char((n % 10) as int))
    }
}

fn digit_text(d: usize) -> (r: &'static str)
    requires
        d < 10,
    ensures
        r@ == seq![digit_char(d as int)],
{
    let r = match d {
        0 => "0",
        1 => "1",
        2 => "2",
        3 => "3",
        4 => "4",
        5 => "5",
        6 => "6",
        7 => "7",
        8 => "8",
        9 => "9",
        _ => "9",
    };
    proof {
        reveal_strlit("0");
        assert("0"@ =~= seq!['0']);
        reveal_strlit("1");
        assert("1"@ =~= seq!['1']);
        reveal_strlit("2");
        assert("2"@ =~= seq!['2']);
        reveal_strlit("3");
        assert("3"@ =~= seq!['3']);
        reveal_strlit("4");
        assert("4"@ =~= seq!['4']);
        reveal_strlit("5");
        assert("5"@ =~= seq!['5']);
        reveal_strlit("6");
        assert("6"@ =~= seq!['6']);
        reveal_strlit("7");
        assert("7"@ =~= seq!['7']);
        reveal_strlit("8");
        assert("8"@ =~= seq!['8']);
        reveal_strlit("9");
        assert("9"@ =~= seq!['9']);
    }
    r
}

/// The decimal digits of `n`.
pub fn decimal_text(n: usize) -> (r: String)
    ensures
        r@ == decimal(n as nat),
    decreases n,
{
    let ds = digit_text(n % 10);
    if n < 10 {
        ds.to_owned()
    } else {
        let mut r = decimal_text(n / 10);
        r.append(ds);
        r
    }
}

/// Relies on std's `String::push`: it appends the character.
#[verifier::external_body]
pub(crate) fn push_char(s: &mut String, c: char)
    ensures
        final(s)@ == old(s)@.push(c),
{
    s.push(c);
}

/// Composing prefixes level by level gives the same pattern at any depth:
/// joining `a` and `b` first, then `c`, is joining `a` with `b/c`, as long as
/// the middle segment is not empty.
pub proof fn lemma_join_path_assoc(a: Seq<char>, b: Seq<char>, c: Seq<char>)
    requires
        b.len() > 0,
    ensures
        join_path(join_path(a, b), c) == join_path(a, join_path(b, c)),
{
    if a.len() == 0 {
        assert(join_path(a, b) == b);
    } else {
        assert(join_path(a, b).len() > 0);
        assert((a + seq!['/'] + b) + seq!['/'] + c =~= a + seq!['/'] + (b + seq!['/'] + c));
    }
}

} // verus!
