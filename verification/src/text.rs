use vstd::prelude::*;

verus! {

/// Specifies `String::push` from std: the character is appended at the end.
pub assume_specification[ std::string::String::push ](s: &mut std::string::String, ch: char)
    ensures
        final(s)@ == old(s)@.push(ch),
;

/// Unicode `White_Space` property, the set `char::is_whitespace` and the
/// regular-expression class `\s` both test against.
pub open spec fn is_ws(c: char) -> bool {
    ||| c == '\t' || c == '\n' || c == '\x0B' || c == '\x0C' || c == '\r' || c == ' '
    ||| c == '\u{85}' || c == '\u{A0}' || c == '\u{1680}'
    ||| ('\u{2000}' <= c && c <= '\u{200A}')
    ||| c == '\u{2028}' || c == '\u{2029}' || c == '\u{202F}' || c == '\u{205F}' || c == '\u{3000}'
}

pub fn is_whitespace(c: char) -> (b: bool)
    ensures
        b == is_ws(c),
{
    c == '\t' || c == '\n' || c == '\x0B' || c == '\x0C' || c == '\r' || c == ' ' || c == '\u{85}'
        || c == '\u{A0}' || c == '\u{1680}' || ('\u{2000}' <= c && c <= '\u{200A}') || c == '\u{2028}'
        || c == '\u{2029}' || c == '\u{202F}' || c == '\u{205F}' || c == '\u{3000}'
}

/// The characters of a string, in order.
pub fn chars_of(s: &str) -> (v: Vec<char>)
    ensures
        v@ == s@,
{
    broadcast use vstd::string::group_string_axioms;
    let mut v: Vec<char> = Vec::new();
    let mut it = s.chars();
    loop
        invariant
            v@ + vstd::std_specs::iter::IteratorSpec::remaining(&it) == s@,
            vstd::std_specs::iter::IteratorSpec::obeys_prophetic_iter_laws(&it),
        ensures
            v@ == s@,
        decreases s@.len() - v@.len(),
    {
        let ghost before = vstd::std_specs::iter::IteratorSpec::remaining(&it);
        match it.next() {
            Some(c) => {
                v.push(c);
                assert(v@ + vstd::std_specs::iter::IteratorSpec::remaining(&it) == s@) by {
                    assert(before == seq![c] + vstd::std_specs::iter::IteratorSpec::remaining(&it));
                }
            },
            None => {
                assert(v@ == s@) by {
                    assert(before.len() == 0);
                    assert(v@ + before == v@);
                }
                break ;
            },
        }
    }
    v
}

/// The string made of the given characters.
pub fn string_of(v: &Vec<char>) -> (s: String)
    ensures
        s@ == v@,
{
    let mut s = String::new();
    let mut i: usize = 0;
    while i < v.len()
        invariant
            i <= v.len(),
            s@ == v@.take(i as int),
        decreases v.len() - i,
    {
        s.push(v[i]);
        assert(v@.take(i + 1) == v@.take(i as int).push(v@[i as int]));
        i += 1;
    }
    assert(v@.take(v.len() as int) == v@);
    s
}

} // verus!

verus! {

/// `p` occurs in `s` at position `i`.
pub open spec fn matches_at(s: Seq<char>, i: int, p: Seq<char>) -> bool {
    0 <= i && i + p.len() <= s.len() && s.subrange(i, i + p.len()) == p
}

/// `p` occurs somewhere in `s`.
pub open spec fn contains_seq(s: Seq<char>, p: Seq<char>) -> bool {
    exists|i: int| #[trigger] matches_at(s, i, p)
}

pub fn matches_at_exec(s: &Vec<char>, i: usize, p: &Vec<char>) -> (b: bool)
    ensures
        b == matches_at(s@, i as int, p@),
{
    if i > s.len() || p.len() > s.len() - i {
        return false;
    }
    let mut k: usize = 0;
    while k < p.len()
        invariant
            k <= p.len(),
            i + p.len() <= s.len(),
            forall|j: int| 0 <= j < k ==> s@[i + j] == p@[j],
        decreases p.len() - k,
    {
        if s[i + k] != p[k] {
            assert(s@.subrange(i as int, i + p.len())[k as int] != p@[k as int]);
            return false;
        }
        k += 1;
    }
    assert(s@.subrange(i as int, i + p.len()) =~= p@);
    true
}

pub fn contains_exec(s: &Vec<char>, p: &Vec<char>) -> (b: bool)
    ensures
        b == contains_seq(s@, p@),
{
    let mut i: usize = 0;
    while i < s.len()
        invariant
            i <= s.len(),
            forall|j: int| 0 <= j < i ==> !matches_at(s@, j, p@),
        decreases s.len() - i,
    {
        if matches_at_exec(s, i, p) {
            return true;
        }
        i += 1;
    }
    if matches_at_exec(s, i, p) {
        return true;
    }
    assert forall|j: int| !matches_at(s@, j, p@) by {
        if 0 <= j <= i {
        }
    }
    false
}

/// Appends the characters of `src` to `dst`.
pub fn push_all(dst: &mut Vec<char>, src: &Vec<char>)
    ensures
        final(dst)@ == old(dst)@ + src@,
{
    let mut k: usize = 0;
    while k < src.len()
        invariant
            k <= src.len(),
            dst@ == old(dst)@ + src@.take(k as int),
        decreases src.len() - k,
    {
        dst.push(src[k]);
        assert(src@.take(k + 1) == src@.take(k as int).push(src@[k as int]));
        k += 1;
    }
    assert(src@.take(src.len() as int) == src@);
}

/// The characters of `s` from position `a` up to `b`.
pub fn sub_vec(s: &Vec<char>, a: usize, b: usize) -> (r: Vec<char>)
    requires
        a <= b <= s.len(),
    ensures
        r@ == s@.subrange(a as int, b as int),
{
    let mut r: Vec<char> = Vec::new();
    let mut k: usize = a;
    while k < b
        invariant
            a <= k <= b <= s.len(),
            r@ == s@.subrange(a as int, k as int),
        decreases b - k,
    {
        r.push(s[k]);
        assert(s@.subrange(a as int, k + 1) == s@.subrange(a as int, k as int).push(s@[k as int]));
        k += 1;
    }
    r
}

pub fn seq_eq(a: &Vec<char>, b: &Vec<char>) -> (r: bool)
    ensures
        r == (a@ == b@),
{
    if a.len() != b.len() {
        return false;
    }
    let r = matches_at_exec(a, 0, b);
    assert(a@.subrange(0, a@.len() as int) == a@);
    r
}

/// First position at or after `i` where the whitespace run starting at `i` ends.
pub open spec fn skip_ws(s: Seq<char>, i: int) -> int
    decreases s.len() - i,
{
    if 0 <= i < s.len() && is_ws(s[i]) {
        skip_ws(s, i + 1)
    } else {
        i
    }
}

/// Start of the whitespace run that ends at `j`.
pub open spec fn back_ws(s: Seq<char>, j: int) -> int
    decreases j,
{
    if 0 < j <= s.len() && is_ws(s[j - 1]) {
        back_ws(s, j - 1)
    } else {
        j
    }
}

/// `str::trim`: leading and trailing whitespace removed.
pub open spec fn trim_seq(s: Seq<char>) -> Seq<char> {
    let a = skip_ws(s, 0);
    let b = back_ws(s, s.len() as int);
    if a < b {
        s.subrange(a, b)
    } else {
        Seq::empty()
    }
}

pub proof fn lemma_skip_ws(s: Seq<char>, i: int)
    requires
        0 <= i <= s.len(),
    ensures
        i <= skip_ws(s, i) <= s.len(),
        forall|k: int| i <= k < skip_ws(s, i) ==> is_ws(#[trigger] s[k]),
        skip_ws(s, i) < s.len() ==> !is_ws(s[skip_ws(s, i)]),
    decreases s.len() - i,
{
    if i < s.len() && is_ws(s[i]) {
        lemma_skip_ws(s, i + 1);
    }
}

pub proof fn lemma_back_ws(s: Seq<char>, j: int)
    requires
        0 <= j <= s.len(),
    ensures
        0 <= back_ws(s, j) <= j,
        forall|k: int| back_ws(s, j) <= k < j ==> is_ws(#[trigger] s[k]),
        back_ws(s, j) > 0 ==> !is_ws(s[back_ws(s, j) - 1]),
    decreases j,
{
    if 0 < j && is_ws(s[j - 1]) {
        lemma_back_ws(s, j - 1);
    }
}

pub fn skip_ws_exec(s: &Vec<char>, i: usize) -> (r: usize)
    requires
        i <= s.len(),
    ensures
        r == skip_ws(s@, i as int),
        r <= s.len(),
{
    let mut k = i;
    while k < s.len() && is_whitespace(s[k])
        invariant
            i <= k <= s.len(),
            skip_ws(s@, k as int) == skip_ws(s@, i as int),
        decreases s.len() - k,
    {
        k += 1;
    }
    k
}

pub fn back_ws_exec(s: &Vec<char>, j: usize) -> (r: usize)
    requires
        j <= s.len(),
    ensures
        r == back_ws(s@, j as int),
{
    let mut k = j;
    while k > 0 && is_whitespace(s[k - 1])
        invariant
            k <= j <= s.len(),
            back_ws(s@, k as int) == back_ws(s@, j as int),
        decreases k,
    {
        k -= 1;
    }
    k
}

pub fn trim(s: &Vec<char>) -> (r: Vec<char>)
    ensures
        r@ == trim_seq(s@),
{
    let a = skip_ws_exec(s, 0);
    let b = back_ws_exec(s, s.len());
    proof {
        lemma_back_ws(s@, s@.len() as int);
    }
    if a < b {
        sub_vec(s, a, b)
    } else {
        Vec::new()
    }
}

} // verus!

verus! {

/// End of the run of back-to-back copies of `p` that starts at `i`.
pub open spec fn prefix_run_end(s: Seq<char>, p: Seq<char>, i: int) -> int
    decreases s.len() - i,
{
    if p.len() > 0 && 0 <= i && matches_at(s, i, p) {
        prefix_run_end(s, p, i + p.len())
    } else {
        i
    }
}

/// Start of the run of back-to-back copies of `p` that ends at `j`.
pub open spec fn suffix_run_start(s: Seq<char>, p: Seq<char>, j: int) -> int
    decreases j,
{
    if p.len() > 0 && j >= p.len() && matches_at(s, j - p.len(), p) {
        suffix_run_start(s, p, j - p.len())
    } else {
        j
    }
}

/// `str::trim_start_matches` with a string pattern.
pub open spec fn trim_start_matches(s: Seq<char>, p: Seq<char>) -> Seq<char> {
    s.subrange(prefix_run_end(s, p, 0), s.len() as int)
}

/// `str::trim_end_matches` with a string pattern.
pub open spec fn trim_end_matches(s: Seq<char>, p: Seq<char>) -> Seq<char> {
    s.subrange(0, suffix_run_start(s, p, s.len() as int))
}

proof fn lemma_prefix_run_end(s: Seq<char>, p: Seq<char>, i: int)
    requires
        0 <= i <= s.len(),
    ensures
        i <= prefix_run_end(s, p, i) <= s.len(),
    decreases s.len() - i,
{
    if p.len() > 0 && matches_at(s, i, p) {
        lemma_prefix_run_end(s, p, i + p.len());
    }
}

proof fn lemma_suffix_run_start(s: Seq<char>, p: Seq<char>, j: int)
    requires
        0 <= j <= s.len(),
    ensures
        0 <= suffix_run_start(s, p, j) <= j,
    decreases j,
{
    if p.len() > 0 && j >= p.len() && matches_at(s, j - p.len(), p) {
        lemma_suffix_run_start(s, p, j - p.len());
    }
}

pub fn trim_start_matches_exec(s: &Vec<char>, p: &Vec<char>) -> (r: Vec<char>)
    ensures
        r@ == trim_start_matches(s@, p@),
{
    let mut i: usize = 0;
    if p.len() > 0 {
        while matches_at_exec(s, i, p)
            invariant
                0 < p.len(),
                i <= s.len(),
                prefix_run_end(s@, p@, i as int) == prefix_run_end(s@, p@, 0),
            decreases s.len() - i,
        {
            i = i + p.len();
        }
    }
    proof {
        lemma_prefix_run_end(s@, p@, i as int);
    }
    sub_vec(s, i, s.len())
}

pub fn trim_end_matches_exec(s: &Vec<char>, p: &Vec<char>) -> (r: Vec<char>)
    ensures
        r@ == trim_end_matches(s@, p@),
{
    let mut j: usize = s.len();
    if p.len() > 0 {
        while j >= p.len() && matches_at_exec(s, j - p.len(), p)
            invariant
                0 < p.len(),
                j <= s.len(),
                suffix_run_start(s@, p@, j as int) == suffix_run_start(s@, p@, s.len() as int),
            decreases j,
        {
            j = j - p.len();
        }
    }
    proof {
        lemma_suffix_run_start(s@, p@, j as int);
    }
    sub_vec(s, 0, j)
}

/// First position at or after `i` that holds `c`.
pub open spec fn find_from(s: Seq<char>, c: char, i: int) -> Option<int>
    decreases s.len() - i,
{
    if i < 0 || i >= s.len() {
        None
    } else if s[i] == c {
        Some(i)
    } else {
        find_from(s, c, i + 1)
    }
}

pub proof fn lemma_find_from(s: Seq<char>, c: char, i: int)
    requires
        0 <= i,
    ensures
        find_from(s, c, i) matches Some(k) ==> i <= k < s.len() && s[k] == c && forall|m: int|
            i <= m < k ==> s[m] != c,
        find_from(s, c, i) is None ==> forall|m: int| i <= m < s.len() ==> s[m] != c,
    decreases s.len() - i,
{
    if i < s.len() && s[i] != c {
        lemma_find_from(s, c, i + 1);
    }
}

pub fn find_from_exec(s: &Vec<char>, c: char, i: usize) -> (r: Option<usize>)
    ensures
        r matches Some(k) ==> find_from(s@, c, i as int) == Some(k as int),
        r is None ==> find_from(s@, c, i as int) is None,
{
    let mut k = i;
    while k < s.len()
        invariant
            i <= k,
            find_from(s@, c, k as int) == find_from(s@, c, i as int),
        decreases s.len() - k,
    {
        if s[k] == c {
            return Some(k);
        }
        k += 1;
    }
    None
}

/// `str::split` with a character separator, on the part of `s` from `i`.
pub open spec fn split_from(s: Seq<char>, c: char, i: int) -> Seq<Seq<char>>
    decreases s.len() - i,
{
    if i < 0 || i > s.len() {
        Seq::empty()
    } else {
        match find_from(s, c, i) {
            Some(k) => if i <= k < s.len() {
                seq![s.subrange(i, k)] + split_from(s, c, k + 1)
            } else {
                Seq::empty()
            },
            None => seq![s.subrange(i, s.len() as int)],
        }
    }
}

/// `str::split` with a character separator.
pub open spec fn split_seq(s: Seq<char>, c: char) -> Seq<Seq<char>> {
    split_from(s, c, 0)
}

pub fn split_exec(s: &Vec<char>, c: char) -> (r: Vec<Vec<char>>)
    ensures
        r@.map_values(|v: Vec<char>| v@) == split_seq(s@, c),
{
    let mut r: Vec<Vec<char>> = Vec::new();
    let mut i: usize = 0;
    loop
        invariant
            i <= s.len(),
            r@.map_values(|v: Vec<char>| v@) + split_from(s@, c, i as int) == split_seq(s@, c),
        decreases s.len() - i,
    {
        proof {
            lemma_find_from(s@, c, i as int);
        }
        match find_from_exec(s, c, i) {
            Some(k) => {
                let seg = sub_vec(s, i, k);
                let ghost before = r@.map_values(|v: Vec<char>| v@);
                r.push(seg);
                assert(r@.map_values(|v: Vec<char>| v@) == before.push(seg@));
                assert(split_from(s@, c, i as int) == seq![seg@] + split_from(s@, c, k + 1));
                assert(r@.map_values(|v: Vec<char>| v@) + split_from(s@, c, k + 1) == before
                    + split_from(s@, c, i as int));
                i = k + 1;
            },
            None => {
                let seg = sub_vec(s, i, s.len());
                let ghost before = r@.map_values(|v: Vec<char>| v@);
                r.push(seg);
                assert(r@.map_values(|v: Vec<char>| v@) == before.push(seg@));
                assert(split_from(s@, c, i as int) == seq![seg@]);
                return r;
            },
        }
    }
}

/// `str::replace` with a non-empty pattern, applied to the part of `s` from `i`.
pub open spec fn replace_from(s: Seq<char>, p: Seq<char>, rep: Seq<char>, i: int) -> Seq<char>
    decreases s.len() - i,
{
    if i < 0 || i >= s.len() {
        Seq::empty()
    } else if p.len() > 0 && matches_at(s, i, p) {
        rep + replace_from(s, p, rep, i + p.len())
    } else {
        seq![s[i]] + replace_from(s, p, rep, i + 1)
    }
}

/// `str::replace`: every non-overlapping occurrence of `p`, found left to
/// right, replaced by `rep`.
pub open spec fn replace_seq(s: Seq<char>, p: Seq<char>, rep: Seq<char>) -> Seq<char> {
    replace_from(s, p, rep, 0)
}

pub fn replace_exec(s: &Vec<char>, p: &Vec<char>, rep: &Vec<char>) -> (r: Vec<char>)
    requires
        p.len() > 0,
    ensures
        r@ == replace_seq(s@, p@, rep@),
{
    let mut r: Vec<char> = Vec::new();
    let mut i: usize = 0;
    while i < s.len()
        invariant
            0 < p.len(),
            i <= s.len(),
            r@ + replace_from(s@, p@, rep@, i as int) == replace_seq(s@, p@, rep@),
        decreases s.len() - i,
    {
        if matches_at_exec(s, i, p) {
            let ghost before = r@;
            push_all(&mut r, rep);
            assert(r@ + replace_from(s@, p@, rep@, i + p.len()) == before + replace_from(
                s@,
                p@,
                rep@,
                i as int,
            ));
            i = i + p.len();
        } else {
            let ghost before = r@;
            r.push(s[i]);
            assert(r@ + replace_from(s@, p@, rep@, i + 1) == before + replace_from(
                s@,
                p@,
                rep@,
                i as int,
            ));
            i = i + 1;
        }
    }
    assert(replace_from(s@, p@, rep@, i as int) == Seq::<char>::empty());
    assert(r@ == r@ + Seq::<char>::empty());
    r
}

/// `str::trim_matches` with a single character: every copy of `c` at either end removed.
pub open spec fn skip_char(s: Seq<char>, c: char, i: int) -> int
    decreases s.len() - i,
{
    if 0 <= i < s.len() && s[i] == c {
        skip_char(s, c, i + 1)
    } else {
        i
    }
}

pub open spec fn back_char(s: Seq<char>, c: char, j: int) -> int
    decreases j,
{
    if 0 < j <= s.len() && s[j - 1] == c {
        back_char(s, c, j - 1)
    } else {
        j
    }
}

pub open spec fn trim_char_seq(s: Seq<char>, c: char) -> Seq<char> {
    let a = skip_char(s, c, 0);
    let b = back_char(s, c, s.len() as int);
    if a < b {
        s.subrange(a, b)
    } else {
        Seq::empty()
    }
}

proof fn lemma_back_char(s: Seq<char>, c: char, j: int)
    requires
        0 <= j <= s.len(),
    ensures
        0 <= back_char(s, c, j) <= j,
    decreases j,
{
    if 0 < j && s[j - 1] == c {
        lemma_back_char(s, c, j - 1);
    }
}

pub fn trim_char(s: &Vec<char>, c: char) -> (r: Vec<char>)
    ensures
        r@ == trim_char_seq(s@, c),
{
    let mut a: usize = 0;
    while a < s.len() && s[a] == c
        invariant
            a <= s.len(),
            skip_char(s@, c, a as int) == skip_char(s@, c, 0),
        decreases s.len() - a,
    {
        a += 1;
    }
    let mut b: usize = s.len();
    while b > 0 && s[b - 1] == c
        invariant
            b <= s.len(),
            back_char(s@, c, b as int) == back_char(s@, c, s.len() as int),
        decreases b,
    {
        b -= 1;
    }
    proof {
        lemma_back_char(s@, c, s@.len() as int);
    }
    if a < b {
        sub_vec(s, a, b)
    } else {
        Vec::new()
    }
}

} // verus!

verus! {

/// The items joined with `sep` between them.
pub open spec fn join_with(items: Seq<Seq<char>>, sep: Seq<char>) -> Seq<char>
    decreases items.len(),
{
    if items.len() == 0 {
        Seq::empty()
    } else if items.len() == 1 {
        items[0]
    } else {
        join_with(items.drop_last(), sep) + sep + items.last()
    }
}

/// The strings joined with `sep` between them.
pub fn join_exec(items: &Vec<String>, sep: &str) -> (r: Vec<char>)
    ensures
        r@ == join_with(crate::project::strings_view(items@), sep@),
{
    let ghost iv = crate::project::strings_view(items@);
    let sv = chars_of(sep);
    let mut out: Vec<char> = Vec::new();
    let mut i: usize = 0;
    while i < items.len()
        invariant
            i <= items.len(),
            iv == crate::project::strings_view(items@),
            sv@ == sep@,
            out@ == join_with(iv.take(i as int), sep@),
        decreases items.len() - i,
    {
        let ghost before = out@;
        if i > 0 {
            push_all(&mut out, &sv);
        }
        push_all(&mut out, &chars_of(items[i].as_str()));
        assert(iv.take(i + 1).drop_last() =~= iv.take(i as int));
        assert(out@ == join_with(iv.take(i + 1), sep@)) by {
            if i == 0 {
                assert(before =~= Seq::<char>::empty());
                assert(out@ =~= iv[0]);
            }
        }
        i += 1;
    }
    assert(iv.take(items.len() as int) =~= iv);
    out
}

} // verus!
