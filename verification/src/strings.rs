//! Verified string utilities: equality, splitting, substring search,
//! replacement and joining, each specified over `Seq<char>` views.
use vstd::prelude::*;

verus! {

/// The segments of `s` between occurrences of the separator `c`,
/// in order; always at least one segment, as `str::split` yields.
pub open spec fn split_seq(s: Seq<char>, c: char) -> Seq<Seq<char>>
    decreases s.len(),
{
    if s.len() == 0 {
        seq![s]
    } else if s[0] == c {
        seq![Seq::<char>::empty()] + split_seq(s.skip(1), c)
    } else {
        let rest = split_seq(s.skip(1), c);
        seq![seq![s[0]] + rest[0]] + rest.skip(1)
    }
}

pub proof fn lemma_split_seq_len(s: Seq<char>, c: char)
    ensures
        split_seq(s, c).len() >= 1,
    decreases s.len(),
{
    if s.len() == 0 {
    } else if s[0] == c {
        lemma_split_seq_len(s.skip(1), c);
    } else {
        lemma_split_seq_len(s.skip(1), c);
    }
}

/// A string without the separator splits into itself alone.
pub proof fn lemma_split_seq_no_sep(s: Seq<char>, c: char)
    requires
        forall|i: int| 0 <= i < s.len() ==> s[i] != c,
    ensures
        split_seq(s, c) =~= seq![s],
    decreases s.len(),
{
    if s.len() == 0 {
    } else {
        lemma_split_seq_no_sep(s.skip(1), c);
        assert(split_seq(s, c)[0] =~= seq![s[0]] + s.skip(1));
        assert(seq![s[0]] + s.skip(1) =~= s);
    }
}

/// Splitting at the first occurrence of the separator: the part before
/// it is the first segment, and the rest splits independently.
pub proof fn lemma_split_seq_at_first(s: Seq<char>, c: char, i: int)
    requires
        0 <= i < s.len(),
        s[i] == c,
        forall|j: int| 0 <= j < i ==> s[j] != c,
    ensures
        split_seq(s, c) =~= seq![s.take(i)] + split_seq(s.skip(i + 1), c),
    decreases i,
{
    if i == 0 {
        assert(s.take(0) =~= Seq::<char>::empty());
    } else {
        assert(s.skip(1)[i - 1] == c);
        lemma_split_seq_at_first(s.skip(1), c, i - 1);
        lemma_split_seq_len(s.skip(1).skip(i), c);
        let rest = split_seq(s.skip(1), c);
        assert(rest[0] == s.skip(1).take(i - 1));
        assert(seq![s[0]] + s.skip(1).take(i - 1) =~= s.take(i));
        assert(s.skip(1).skip(i) =~= s.skip(i + 1));
        assert(rest.skip(1) =~= split_seq(s.skip(i + 1), c));
        assert(split_seq(s, c) =~= seq![seq![s[0]] + rest[0]] + rest.skip(1));
    }
}

/// Character-wise string equality, specified as equality of the views.
pub fn str_eq(a: &str, b: &str) -> (r: bool)
    ensures
        r == (a@ == b@),
{
    let n: usize = a.unicode_len();
    let m: usize = b.unicode_len();
    if n != m {
        return false;
    }
    let mut i: usize = 0;
    while i < n
        invariant
            i <= n,
            n == a@.len(),
            n == b@.len(),
            forall|j: int| 0 <= j < i ==> a@[j] == b@[j],
        decreases n - i,
    {
        if a.get_char(i) != b.get_char(i) {
            return false;
        }
        i = i + 1;
    }
    proof {
        assert(a@ =~= b@);
    }
    true
}

/// Splits `s` on the character `c`, as `str::split` does.
pub fn split_on_char(s: &str, c: char) -> (r: Vec<String>)
    ensures
        r.deep_view() == split_seq(s@, c),
    decreases s@.len(),
{
    let n: usize = s.unicode_len();
    let mut i: usize = 0;
    while i < n && s.get_char(i) != c
        invariant
            i <= n,
            n == s@.len(),
            forall|j: int| 0 <= j < i ==> s@[j] != c,
        decreases n - i,
    {
        i = i + 1;
    }
    if i == n {
        proof {
            lemma_split_seq_no_sep(s@, c);
        }
        let mut r: Vec<String> = Vec::new();
        r.push(s.to_owned());
        proof {
            assert(r.deep_view() =~= seq![s@]);
        }
        r
    } else {
        let head = s.substring_char(0, i).to_owned();
        let tail = s.substring_char(i + 1, n);
        let mut rest = split_on_char(tail, c);
        proof {
            lemma_split_seq_at_first(s@, c, i as int);
        }
        rest.insert(0, head);
        proof {
            assert(rest.deep_view() =~= seq![s@.take(i as int)] + split_seq(
                s@.skip(i as int + 1),
                c,
            ));
        }
        rest
    }
}

/// `pat` occurs in `s` starting at position `i`.
pub open spec fn match_at(s: Seq<char>, pat: Seq<char>, i: int) -> bool {
    0 <= i && i + pat.len() <= s.len() && s.subrange(i, i + pat.len()) == pat
}

/// `pat` occurs somewhere in `s`.
pub open spec fn contains_seq(s: Seq<char>, pat: Seq<char>) -> bool {
    exists|i: int| match_at(s, pat, i)
}

/// Substring search, as `str::contains` decides it.
pub fn contains_sub(s: &str, pat: &str) -> (r: bool)
    ensures
        r == contains_seq(s@, pat@),
{
    let n: usize = s.unicode_len();
    let m: usize = pat.unicode_len();
    if m > n {
        return false;
    }
    if m == 0 {
        proof {
            assert(s@.subrange(0, 0) =~= pat@);
        }
        assert(match_at(s@, pat@, 0));
        return true;
    }
    let mut i: usize = 0;
    while i <= n - m
        invariant
            0 < m <= n,
            n == s@.len(),
            m == pat@.len(),
            i <= n - m + 1,
            forall|j: int| 0 <= j < i ==> !match_at(s@, pat@, j),
        decreases n - i,
    {
        let piece = s.substring_char(i, i + m);
        if str_eq(piece, pat) {
            assert(match_at(s@, pat@, i as int));
            return true;
        }
        i = i + 1;
    }
    false
}

/// `s` with every non-overlapping occurrence of `pat` replaced by
/// `repl`, scanning left to right, as `str::replace` does.
pub open spec fn replace_seq(s: Seq<char>, pat: Seq<char>, repl: Seq<char>) -> Seq<char>
    decreases s.len(),
{
    if pat.len() == 0 || s.len() < pat.len() {
        s
    } else if s.take(pat.len() as int) == pat {
        repl + replace_seq(s.skip(pat.len() as int), pat, repl)
    } else {
        seq![s[0]] + replace_seq(s.skip(1), pat, repl)
    }
}

/// Replaces every occurrence of `pat` in `s` by `repl`.
pub fn replace_all(s: &str, pat: &str, repl: &str) -> (r: String)
    requires
        pat@.len() > 0,
    ensures
        r@ == replace_seq(s@, pat@, repl@),
    decreases s@.len(),
{
    let n: usize = s.unicode_len();
    let m: usize = pat.unicode_len();
    if n < m {
        return s.to_owned();
    }
    let head = s.substring_char(0, m);
    if str_eq(head, pat) {
        let rest = replace_all(s.substring_char(m, n), pat, repl);
        let mut out = repl.to_owned();
        out.append(rest.as_str());
        out
    } else {
        let first = s.substring_char(0, 1);
        let rest = replace_all(s.substring_char(1, n), pat, repl);
        proof {
            assert(s@.subrange(0, 1) =~= seq![s@[0]]);
        }
        let mut out = first.to_owned();
        out.append(rest.as_str());
        out
    }
}

/// The parts joined with `sep` between consecutive parts.
pub open spec fn join_seq(parts: Seq<Seq<char>>, sep: Seq<char>) -> Seq<char>
    decreases parts.len(),
{
    if parts.len() == 0 {
        Seq::<char>::empty()
    } else if parts.len() == 1 {
        parts[0]
    } else {
        parts[0] + sep + join_seq(parts.skip(1), sep)
    }
}

fn join_from(parts: &Vec<String>, from: usize, sep: &str) -> (r: String)
    requires
        from <= parts.len(),
    ensures
        r@ == join_seq(parts.deep_view().skip(from as int), sep@),
    decreases parts.len() - from,
{
    if from == parts.len() {
        proof {
            assert(parts.deep_view().skip(from as int) =~= Seq::<Seq<char>>::empty());
        }
        String::new()
    } else if from + 1 == parts.len() {
        let r = parts[from].clone();
        proof {
            assert(parts.deep_view().skip(from as int) =~= seq![parts.deep_view()[from as int]]);
        }
        r
    } else {
        let mut out = parts[from].clone();
        out.append(sep);
        let rest = join_from(parts, from + 1, sep);
        out.append(rest.as_str());
        proof {
            assert(parts.deep_view().skip(from as int + 1) =~= parts.deep_view().skip(
                from as int,
            ).skip(1));
            assert(parts.deep_view().skip(from as int)[0] == parts.deep_view()[from as int]);
        }
        out
    }
}

/// Appends one string to a vector, tracked on the views.
pub fn push_string(v: &mut Vec<String>, s: String)
    ensures
        final(v).deep_view() == old(v).deep_view().push(s@),
        final(v)@.len() == old(v)@.len() + 1,
{
    let ghost pre = v.deep_view();
    let ghost sv = s@;
    v.push(s);
    proof {
        assert forall|j: int| 0 <= j < v@.len() implies v.deep_view()[j] == pre.push(sv)[j] by {
            if j < pre.len() {
                assert(v.deep_view()[j] == pre[j]);
            }
        }
        assert(v.deep_view() =~= pre.push(sv));
    }
}

/// Joins the parts with `sep` between consecutive parts.
pub fn join_with(parts: &Vec<String>, sep: &str) -> (r: String)
    ensures
        r@ == join_seq(parts.deep_view(), sep@),
{
    let r = join_from(parts, 0, sep);
    proof {
        assert(parts.deep_view().skip(0) =~= parts.deep_view());
    }
    r
}

/// A character `str::trim` strips: the Unicode White_Space set.
pub open spec fn is_space_char(c: char) -> bool {
    c == '\u{0009}' || c == '\u{000A}' || c == '\u{000B}' || c == '\u{000C}' || c == '\u{000D}'
        || c == '\u{0020}' || c == '\u{0085}' || c == '\u{00A0}' || c == '\u{1680}' || c
        == '\u{2000}' || c == '\u{2001}' || c == '\u{2002}' || c == '\u{2003}' || c == '\u{2004}'
        || c == '\u{2005}' || c == '\u{2006}' || c == '\u{2007}' || c == '\u{2008}' || c
        == '\u{2009}' || c == '\u{200A}' || c == '\u{2028}' || c == '\u{2029}' || c == '\u{202F}'
        || c == '\u{205F}' || c == '\u{3000}'
}

fn is_space(c: char) -> (r: bool)
    ensures
        r == is_space_char(c),
{
    c == '\u{0009}' || c == '\u{000A}' || c == '\u{000B}' || c == '\u{000C}' || c == '\u{000D}'
        || c == '\u{0020}' || c == '\u{0085}' || c == '\u{00A0}' || c == '\u{1680}' || c
        == '\u{2000}' || c == '\u{2001}' || c == '\u{2002}' || c == '\u{2003}' || c == '\u{2004}'
        || c == '\u{2005}' || c == '\u{2006}' || c == '\u{2007}' || c == '\u{2008}' || c
        == '\u{2009}' || c == '\u{200A}' || c == '\u{2028}' || c == '\u{2029}' || c == '\u{202F}'
        || c == '\u{205F}' || c == '\u{3000}'
}

/// The string without its leading whitespace.
pub open spec fn trim_start_seq(s: Seq<char>) -> Seq<char>
    decreases s.len(),
{
    if s.len() > 0 && is_space_char(s[0]) {
        trim_start_seq(s.skip(1))
    } else {
        s
    }
}

/// The string without its trailing whitespace.
pub open spec fn trim_end_seq(s: Seq<char>) -> Seq<char>
    decreases s.len(),
{
    if s.len() > 0 && is_space_char(s[s.len() - 1]) {
        trim_end_seq(s.take(s.len() - 1))
    } else {
        s
    }
}

/// The string without leading and trailing whitespace, as `str::trim`
/// strips it.
pub open spec fn trim_seq(s: Seq<char>) -> Seq<char> {
    trim_end_seq(trim_start_seq(s))
}

proof fn lemma_trim_start_at(s: Seq<char>, i: int)
    requires
        0 <= i <= s.len(),
        forall|j: int| 0 <= j < i ==> is_space_char(s[j]),
        i < s.len() ==> !is_space_char(s[i]),
    ensures
        trim_start_seq(s) =~= s.skip(i),
    decreases i,
{
    if i == 0 {
        assert(s.skip(0) =~= s);
    } else {
        lemma_trim_start_at(s.skip(1), i - 1);
        assert(s.skip(1).skip(i - 1) =~= s.skip(i));
    }
}

proof fn lemma_trim_end_at(s: Seq<char>, k: int)
    requires
        0 <= k <= s.len(),
        forall|j: int| k <= j < s.len() ==> is_space_char(s[j]),
        k > 0 ==> !is_space_char(s[k - 1]),
    ensures
        trim_end_seq(s) =~= s.take(k),
    decreases s.len(),
{
    if s.len() == 0 {
    } else if k == s.len() {
        assert(s.take(k) =~= s);
    } else {
        lemma_trim_end_at(s.take(s.len() - 1), k);
        assert(s.take(s.len() - 1).take(k) =~= s.take(k));
    }
}

/// Strips leading and trailing whitespace, as `str::trim` does.
pub fn trim_str(s: &str) -> (r: String)
    ensures
        r@ == trim_seq(s@),
{
    let n: usize = s.unicode_len();
    let mut start: usize = 0;
    while start < n && is_space(s.get_char(start))
        invariant
            start <= n,
            n == s@.len(),
            forall|j: int| 0 <= j < start ==> is_space_char(s@[j]),
        decreases n - start,
    {
        start = start + 1;
    }
    let mut end: usize = n;
    while end > start && is_space(s.get_char(end - 1))
        invariant
            start <= end <= n,
            n == s@.len(),
            forall|j: int| 0 <= j < start ==> is_space_char(s@[j]),
            forall|j: int| end <= j < n ==> is_space_char(s@[j]),
        decreases end,
    {
        end = end - 1;
    }
    let piece = s.substring_char(start, end).to_owned();
    proof {
        lemma_trim_start_at(s@, start as int);
        let t = s@.skip(start as int);
        assert forall|j: int| (end - start) <= j < t.len() implies is_space_char(t[j]) by {
            assert(t[j] == s@[j + start]);
        }
        if end > start {
            assert(t[end - start - 1] == s@[end - 1]);
        }
        lemma_trim_end_at(t, end - start);
        assert(s@.subrange(start as int, end as int) =~= t.take(end - start));
    }
    piece
}

/// A character that file names must not hold.
pub open spec fn invalid_path_char(c: char) -> bool {
    c == '\\' || c == '/' || c == ':' || c == '*' || c == '?' || c == '"' || c == '<' || c == '>'
        || c == '|'
}

/// Strips every character that file names must not hold.
pub fn remove_invalid_characters(string: &str) -> (r: String)
    ensures
        r@ == string@.filter(|c: char| !invalid_path_char(c)),
{
    let ghost pred = (|c: char| !invalid_path_char(c));
    let n: usize = string.unicode_len();
    let mut r = String::new();
    let mut i: usize = 0;
    while i < n
        invariant
            i <= n,
            n == string@.len(),
            pred == (|c: char| !invalid_path_char(c)),
            r@ =~= string@.take(i as int).filter(pred),
        decreases n - i,
    {
        let c = string.get_char(i);
        let keep = !(c == '\\' || c == '/' || c == ':' || c == '*' || c == '?' || c == '"' || c
            == '<' || c == '>' || c == '|');
        if keep {
            let piece = string.substring_char(i, i + 1);
            r.append(piece);
        }
        proof {
            reveal_with_fuel(Seq::<_>::filter, 2);
            let taken = string@.take(i as int);
            let next = string@.take(i + 1);
            assert(next =~= taken + seq![string@[i as int]]);
            Seq::<char>::filter_distributes_over_add(taken, seq![string@[i as int]], pred);
            let single = seq![string@[i as int]];
            assert(single.drop_last() =~= Seq::<char>::empty());
            assert(Seq::<char>::empty().filter(pred) =~= Seq::<char>::empty());
            assert(single.last() == string@[i as int]);
            assert(single.filter(pred) =~= (if pred(string@[i as int]) {
                single
            } else {
                Seq::<char>::empty()
            }));
            assert(string@.subrange(i as int, i + 1) =~= seq![string@[i as int]]);
        }
        i = i + 1;
    }
    proof {
        assert(string@.take(n as int) =~= string@);
    }
    r
}

} // verus!
