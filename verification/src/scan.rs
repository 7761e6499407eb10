//! Scanners for the template directives that models are written with:
//! `{{ ref('m') }}`, `{{ source('s', 't') }}`, `dbt.ref('m')`,
//! `{{ config(...) }}` and `{% if is_incremental() %} ... {% endif %}`.
//! Each directive is described by a short token pattern; a pattern is tried
//! at every position from left to right, and a match resumes the search at
//! its end.
use vstd::prelude::*;
use crate::text::{matches_at, matches_at_exec, skip_ws, skip_ws_exec, lemma_skip_ws, sub_vec};

verus! {

/// One element of a directive pattern.
pub enum Tok {
    /// Exactly these characters.
    Lit(Vec<char>),
    /// Any number of whitespace characters (`\s*`).
    Ws,
    /// At least one whitespace character (`\s+`).
    Ws1,
    /// A single or double quote (`['"]`).
    Quote,
    /// A non-empty run of characters that are not quotes (`[^'"]+`), captured.
    Field,
}

/// The mathematical form of a [`Tok`].
pub enum TokV {
    Lit(Seq<char>),
    Ws,
    Ws1,
    Quote,
    Field,
}

impl View for Tok {
    type V = TokV;

    open spec fn view(&self) -> TokV {
        match self {
            Tok::Lit(l) => TokV::Lit(l@),
            Tok::Ws => TokV::Ws,
            Tok::Ws1 => TokV::Ws1,
            Tok::Quote => TokV::Quote,
            Tok::Field => TokV::Field,
        }
    }
}

pub open spec fn toks_view(p: Seq<Tok>) -> Seq<TokV> {
    p.map_values(|t: Tok| t@)
}

pub open spec fn is_quote(c: char) -> bool {
    c == '\'' || c == '"'
}

/// End of the run of non-quote characters that starts at `i`.
pub open spec fn skip_field(s: Seq<char>, i: int) -> int
    decreases s.len() - i,
{
    if 0 <= i < s.len() && !is_quote(s[i]) {
        skip_field(s, i + 1)
    } else {
        i
    }
}

/// Tries the pattern `p`, from its `k`-th token on, at position `i` of `s`.
/// On success gives the end of the match and the captured fields in order.
pub open spec fn match_from(s: Seq<char>, i: int, p: Seq<TokV>, k: int) -> Option<
    (int, Seq<Seq<char>>),
>
    decreases p.len() - k,
{
    if k < 0 || k >= p.len() {
        Some((i, Seq::empty()))
    } else {
        match p[k] {
            TokV::Lit(l) => if matches_at(s, i, l) {
                match_from(s, i + l.len(), p, k + 1)
            } else {
                None
            },
            TokV::Ws => match_from(s, skip_ws(s, i), p, k + 1),
            TokV::Ws1 => if skip_ws(s, i) > i {
                match_from(s, skip_ws(s, i), p, k + 1)
            } else {
                None
            },
            TokV::Quote => if 0 <= i < s.len() && is_quote(s[i]) {
                match_from(s, i + 1, p, k + 1)
            } else {
                None
            },
            TokV::Field => {
                let j = skip_field(s, i);
                if j > i {
                    match match_from(s, j, p, k + 1) {
                        Some((e, caps)) => Some((e, seq![s.subrange(i, j)] + caps)),
                        None => None,
                    }
                } else {
                    None
                }
            },
        }
    }
}

/// Whole-pattern match at `i`.
pub open spec fn match_at(s: Seq<char>, i: int, p: Seq<TokV>) -> Option<(int, Seq<Seq<char>>)> {
    match_from(s, i, p, 0)
}

/// The first captured field of every match of `p` found scanning `s` from `i`.
pub open spec fn scan_from(s: Seq<char>, p: Seq<TokV>, i: int) -> Seq<Seq<char>>
    decreases s.len() - i,
{
    if i < 0 || i >= s.len() {
        Seq::empty()
    } else {
        match match_at(s, i, p) {
            Some((e, caps)) => if i < e <= s.len() && caps.len() > 0 {
                seq![caps[0]] + scan_from(s, p, e)
            } else {
                scan_from(s, p, i + 1)
            },
            None => scan_from(s, p, i + 1),
        }
    }
}

/// The first captured field of every match of `p` in `s`, left to right.
pub open spec fn scan_all(s: Seq<char>, p: Seq<TokV>) -> Seq<Seq<char>> {
    scan_from(s, p, 0)
}

pub proof fn lemma_skip_field(s: Seq<char>, i: int)
    requires
        0 <= i <= s.len(),
    ensures
        i <= skip_field(s, i) <= s.len(),
        forall|k: int| i <= k < skip_field(s, i) ==> !is_quote(#[trigger] s[k]),
    decreases s.len() - i,
{
    if i < s.len() && !is_quote(s[i]) {
        lemma_skip_field(s, i + 1);
    }
}

pub proof fn lemma_match_from_bounds(s: Seq<char>, i: int, p: Seq<TokV>, k: int)
    requires
        0 <= i <= s.len(),
        0 <= k,
    ensures
        match_from(s, i, p, k) matches Some((e, caps)) ==> i <= e <= s.len(),
    decreases p.len() - k,
{
    if k < p.len() {
        match p[k] {
            TokV::Lit(l) => {
                if matches_at(s, i, l) {
                    lemma_match_from_bounds(s, i + l.len(), p, k + 1);
                }
            },
            TokV::Ws => {
                lemma_skip_ws(s, i);
                lemma_match_from_bounds(s, skip_ws(s, i), p, k + 1);
            },
            TokV::Ws1 => {
                lemma_skip_ws(s, i);
                lemma_match_from_bounds(s, skip_ws(s, i), p, k + 1);
            },
            TokV::Quote => {
                if i < s.len() {
                    lemma_match_from_bounds(s, i + 1, p, k + 1);
                }
            },
            TokV::Field => {
                lemma_skip_field(s, i);
                lemma_match_from_bounds(s, skip_field(s, i), p, k + 1);
            },
        }
    }
}

fn skip_field_exec(s: &Vec<char>, i: usize) -> (r: usize)
    requires
        i <= s.len(),
    ensures
        r == skip_field(s@, i as int),
{
    let mut k = i;
    while k < s.len() && !(s[k] == '\'' || s[k] == '"')
        invariant
            i <= k <= s.len(),
            skip_field(s@, k as int) == skip_field(s@, i as int),
        decreases s.len() - k,
    {
        k += 1;
    }
    k
}

/// Captures `caps` put in front of those of a partial match.
pub open spec fn prepend_caps(caps: Seq<Seq<char>>, m: Option<(int, Seq<Seq<char>>)>) -> Option<
    (int, Seq<Seq<char>>),
> {
    match m {
        Some((e, cs)) => Some((e, caps + cs)),
        None => None,
    }
}

pub open spec fn caps_view(caps: Seq<Vec<char>>) -> Seq<Seq<char>> {
    caps.map_values(|v: Vec<char>| v@)
}

/// Tries the pattern `p` at position `i` of `s`.
pub fn match_tokens(s: &Vec<char>, i: usize, p: &Vec<Tok>) -> (r: Option<(usize, Vec<Vec<char>>)>)
    requires
        i <= s.len(),
    ensures
        r matches Some((e, caps)) ==> match_at(s@, i as int, toks_view(p@)) == Some(
            (e as int, caps_view(caps@)),
        ),
        r is None ==> match_at(s@, i as int, toks_view(p@)) is None,
{
    let ghost pv = toks_view(p@);
    let mut pos = i;
    let mut caps: Vec<Vec<char>> = Vec::new();
    let mut k: usize = 0;
    while k < p.len()
        invariant
            pv == toks_view(p@),
            i <= pos <= s.len(),
            k <= p.len(),
            match_from(s@, i as int, pv, 0) == prepend_caps(
                caps_view(caps@),
                match_from(s@, pos as int, pv, k as int),
            ),
        decreases p.len() - k,
    {
        let ghost old_caps = caps_view(caps@);
        proof {
            lemma_skip_ws(s@, pos as int);
        }
        match &p[k] {
            Tok::Lit(l) => {
                if matches_at_exec(s, pos, l) {
                    pos = pos + l.len();
                } else {
                    return None;
                }
            },
            Tok::Ws => {
                pos = skip_ws_exec(s, pos);
            },
            Tok::Ws1 => {
                let q = skip_ws_exec(s, pos);
                if q > pos {
                    pos = q;
                } else {
                    return None;
                }
            },
            Tok::Quote => {
                if pos < s.len() && (s[pos] == '\'' || s[pos] == '"') {
                    pos = pos + 1;
                } else {
                    return None;
                }
            },
            Tok::Field => {
                proof {
                    lemma_skip_field(s@, pos as int);
                }
                let j = skip_field_exec(s, pos);
                if j > pos {
                    let seg = sub_vec(s, pos, j);
                    caps.push(seg);
                    assert(caps_view(caps@) == old_caps.push(seg@));
                    proof {
                        let rest = match_from(s@, j as int, pv, k + 1);
                        match rest {
                            Some((e, cs)) => {
                                assert(old_caps + (seq![seg@] + cs) == old_caps.push(seg@) + cs);
                            },
                            None => {},
                        }
                    }
                    pos = j;
                } else {
                    return None;
                }
            },
        }
        k += 1;
    }
    assert(caps_view(caps@) + Seq::<Seq<char>>::empty() == caps_view(caps@));
    Some((pos, caps))
}

/// The first captured field of every match of `p` in `s`, left to right.
pub fn scan_exec(s: &Vec<char>, p: &Vec<Tok>) -> (r: Vec<Vec<char>>)
    ensures
        caps_view(r@) == scan_all(s@, toks_view(p@)),
{
    let ghost pv = toks_view(p@);
    let mut r: Vec<Vec<char>> = Vec::new();
    let mut i: usize = 0;
    while i < s.len()
        invariant
            pv == toks_view(p@),
            i <= s.len(),
            caps_view(r@) + scan_from(s@, pv, i as int) == scan_all(s@, pv),
        decreases s.len() - i,
    {
        proof {
            lemma_match_from_bounds(s@, i as int, pv, 0);
        }
        let ghost before = caps_view(r@);
        match match_tokens(s, i, p) {
            Some((e, caps)) => {
                if i < e && caps.len() > 0 {
                    let first = sub_vec(&caps[0], 0, caps[0].len());
                    assert(first@ == caps_view(caps@)[0]);
                    r.push(first);
                    assert(caps_view(r@) == before.push(first@));
                    assert(caps_view(r@) + scan_from(s@, pv, e as int) == before + scan_from(
                        s@,
                        pv,
                        i as int,
                    ));
                    i = e;
                } else {
                    i = i + 1;
                }
            },
            None => {
                i = i + 1;
            },
        }
    }
    assert(caps_view(r@) + Seq::<Seq<char>>::empty() == caps_view(r@));
    r
}

} // verus!

verus! {

pub fn lit(s: &str) -> (t: Tok)
    ensures
        t@ == TokV::Lit(s@),
{
    Tok::Lit(crate::text::chars_of(s))
}

/// `{{ ref('name') }}` with any whitespace inside the braces and either quote.
pub open spec fn sql_ref_pattern() -> Seq<TokV> {
    seq![
        TokV::Lit("{{"@), TokV::Ws, TokV::Lit("ref"@), TokV::Ws, TokV::Lit("("@), TokV::Ws,
        TokV::Quote, TokV::Field, TokV::Quote, TokV::Ws, TokV::Lit(")"@), TokV::Ws,
        TokV::Lit("}}"@),
    ]
}

/// `{{ source('source', 'table') }}` with any whitespace inside the braces and either quote.
pub open spec fn sql_source_pattern() -> Seq<TokV> {
    seq![
        TokV::Lit("{{"@), TokV::Ws, TokV::Lit("source"@), TokV::Ws, TokV::Lit("("@), TokV::Ws,
        TokV::Quote, TokV::Field, TokV::Quote, TokV::Ws, TokV::Lit(","@), TokV::Ws,
        TokV::Quote, TokV::Field, TokV::Quote, TokV::Ws, TokV::Lit(")"@), TokV::Ws,
        TokV::Lit("}}"@),
    ]
}

/// `dbt.ref('name')` in a Python model.
pub open spec fn py_ref_pattern() -> Seq<TokV> {
    seq![TokV::Lit("dbt.ref("@), TokV::Quote, TokV::Field, TokV::Quote, TokV::Lit(")"@)]
}

/// `dbt.source('source', 'table')` in a Python model.
pub open spec fn py_source_pattern() -> Seq<TokV> {
    seq![
        TokV::Lit("dbt.source("@), TokV::Quote, TokV::Field, TokV::Quote, TokV::Ws,
        TokV::Lit(","@), TokV::Ws, TokV::Quote, TokV::Field, TokV::Quote, TokV::Lit(")"@),
    ]
}

/// The opening `{% if is_incremental() %}` of an incremental block.
pub open spec fn incremental_open_pattern() -> Seq<TokV> {
    seq![
        TokV::Lit("{%"@), TokV::Ws, TokV::Lit("if"@), TokV::Ws1, TokV::Lit("is_incremental("@),
        TokV::Ws, TokV::Lit(")"@), TokV::Ws, TokV::Lit("%}"@),
    ]
}

/// The closing `{% endif %}` of an incremental block.
pub open spec fn endif_pattern() -> Seq<TokV> {
    seq![TokV::Lit("{%"@), TokV::Ws, TokV::Lit("endif"@), TokV::Ws, TokV::Lit("%}"@)]
}

pub fn sql_ref_tokens() -> (p: Vec<Tok>)
    ensures
        toks_view(p@) == sql_ref_pattern(),
{
    let p = vec![
        lit("{{"), Tok::Ws, lit("ref"), Tok::Ws, lit("("), Tok::Ws, Tok::Quote, Tok::Field,
        Tok::Quote, Tok::Ws, lit(")"), Tok::Ws, lit("}}"),
    ];
    assert(toks_view(p@) =~= sql_ref_pattern());
    p
}

pub fn sql_source_tokens() -> (p: Vec<Tok>)
    ensures
        toks_view(p@) == sql_source_pattern(),
{
    let p = vec![
        lit("{{"), Tok::Ws, lit("source"), Tok::Ws, lit("("), Tok::Ws, Tok::Quote, Tok::Field,
        Tok::Quote, Tok::Ws, lit(","), Tok::Ws, Tok::Quote, Tok::Field, Tok::Quote, Tok::Ws,
        lit(")"), Tok::Ws, lit("}}"),
    ];
    assert(toks_view(p@) =~= sql_source_pattern());
    p
}

pub fn py_ref_tokens() -> (p: Vec<Tok>)
    ensures
        toks_view(p@) == py_ref_pattern(),
{
    let p = vec![lit("dbt.ref("), Tok::Quote, Tok::Field, Tok::Quote, lit(")")];
    assert(toks_view(p@) =~= py_ref_pattern());
    p
}

pub fn py_source_tokens() -> (p: Vec<Tok>)
    ensures
        toks_view(p@) == py_source_pattern(),
{
    let p = vec![
        lit("dbt.source("), Tok::Quote, Tok::Field, Tok::Quote, Tok::Ws, lit(","), Tok::Ws,
        Tok::Quote, Tok::Field, Tok::Quote, lit(")"),
    ];
    assert(toks_view(p@) =~= py_source_pattern());
    p
}

fn incremental_open_tokens() -> (p: Vec<Tok>)
    ensures
        toks_view(p@) == incremental_open_pattern(),
{
    let p = vec![
        lit("{%"), Tok::Ws, lit("if"), Tok::Ws1, lit("is_incremental("), Tok::Ws, lit(")"),
        Tok::Ws, lit("%}"),
    ];
    assert(toks_view(p@) =~= incremental_open_pattern());
    p
}

fn endif_tokens() -> (p: Vec<Tok>)
    ensures
        toks_view(p@) == endif_pattern(),
{
    let p = vec![lit("{%"), Tok::Ws, lit("endif"), Tok::Ws, lit("%}")];
    assert(toks_view(p@) =~= endif_pattern());
    p
}

/// End of the run of characters other than `}` that starts at `i`.
pub open spec fn skip_not_brace(s: Seq<char>, i: int) -> int
    decreases s.len() - i,
{
    if 0 <= i < s.len() && s[i] != '}' {
        skip_not_brace(s, i + 1)
    } else {
        i
    }
}

proof fn lemma_skip_not_brace(s: Seq<char>, i: int)
    requires
        0 <= i <= s.len(),
    ensures
        i <= skip_not_brace(s, i) <= s.len(),
    decreases s.len() - i,
{
    if i < s.len() && s[i] != '}' {
        lemma_skip_not_brace(s, i + 1);
    }
}

/// A directive that is removed from SQL text.
pub enum Directive {
    /// `{{ config(<one or more characters other than '}'>) }}`, written with
    /// exactly these spaces.
    Config,
    /// `{% if is_incremental() %}<body>{% endif %}`, where the body is the
    /// shortest run of characters other than a newline that reaches an
    /// `{% endif %}`.
    IncrementalBlock,
}

/// End of the shortest newline-free run from `j` that is followed by `{% endif %}`,
/// counting the `{% endif %}`.
pub open spec fn endif_search(s: Seq<char>, j: int) -> Option<int>
    decreases s.len() - j,
{
    if j < 0 || j > s.len() {
        None
    } else {
        match match_at(s, j, endif_pattern()) {
            Some((e, _)) => Some(e),
            None => if j < s.len() && s[j] != '\n' {
                endif_search(s, j + 1)
            } else {
                None
            },
        }
    }
}

/// End of the directive `d` if it starts at position `i` of `s`.
pub open spec fn directive_end(s: Seq<char>, i: int, d: Directive) -> Option<int> {
    match d {
        Directive::Config => {
            let p = i + "{{ config("@.len();
            if matches_at(s, i, "{{ config("@) {
                let k = skip_not_brace(s, p);
                if k >= p + 3 && s[k - 2] == ')' && s[k - 1] == ' ' && matches_at(s, k, "}}"@) {
                    Some(k + 2)
                } else {
                    None
                }
            } else {
                None
            }
        },
        Directive::IncrementalBlock => match match_at(s, i, incremental_open_pattern()) {
            Some((b, _)) => endif_search(s, b),
            None => None,
        },
    }
}

/// `s` from position `i` with every occurrence of the directive `d` removed,
/// occurrences found left to right without overlap.
pub open spec fn remove_from(s: Seq<char>, i: int, d: Directive) -> Seq<char>
    decreases s.len() - i,
{
    if i < 0 || i >= s.len() {
        Seq::empty()
    } else {
        match directive_end(s, i, d) {
            Some(e) => if i < e <= s.len() {
                remove_from(s, e, d)
            } else {
                seq![s[i]] + remove_from(s, i + 1, d)
            },
            None => seq![s[i]] + remove_from(s, i + 1, d),
        }
    }
}

/// `s` with every occurrence of the directive `d` removed.
pub open spec fn remove_directive(s: Seq<char>, d: Directive) -> Seq<char> {
    remove_from(s, 0, d)
}

proof fn lemma_endif_search(s: Seq<char>, j: int)
    requires
        0 <= j <= s.len(),
    ensures
        endif_search(s, j) matches Some(e) ==> j <= e <= s.len(),
    decreases s.len() - j,
{
    lemma_match_from_bounds(s, j, endif_pattern(), 0);
    if j < s.len() {
        lemma_endif_search(s, j + 1);
    }
}

fn endif_search_exec(s: &Vec<char>, j: usize, endif: &Vec<Tok>) -> (r: Option<usize>)
    requires
        j <= s.len(),
        toks_view(endif@) == endif_pattern(),
    ensures
        r matches Some(e) ==> endif_search(s@, j as int) == Some(e as int),
        r is None ==> endif_search(s@, j as int) is None,
{
    let mut k = j;
    loop
        invariant
            j <= k <= s.len(),
            toks_view(endif@) == endif_pattern(),
            endif_search(s@, k as int) == endif_search(s@, j as int),
        decreases s.len() - k,
    {
        match match_tokens(s, k, endif) {
            Some((e, _)) => {
                return Some(e);
            },
            None => {
                if k < s.len() && s[k] != '\n' {
                    k = k + 1;
                } else {
                    return None;
                }
            },
        }
    }
}

fn directive_end_exec(s: &Vec<char>, i: usize, d: &Directive, open: &Vec<Tok>, endif: &Vec<Tok>) -> (r:
    Option<usize>)
    requires
        i <= s.len(),
        toks_view(open@) == incremental_open_pattern(),
        toks_view(endif@) == endif_pattern(),
    ensures
        r matches Some(e) ==> directive_end(s@, i as int, *d) == Some(e as int) && i < e <= s.len(),
        r is None ==> directive_end(s@, i as int, *d) is None || !(i < directive_end(
            s@,
            i as int,
            *d,
        )->0 <= s.len()),
{
    match d {
        Directive::Config => {
            let head = crate::text::chars_of("{{ config(");
            if !matches_at_exec(s, i, &head) {
                return None;
            }
            let p = i + head.len();
            let mut k = p;
            while k < s.len() && s[k] != '}'
                invariant
                    p <= k <= s.len(),
                    skip_not_brace(s@, k as int) == skip_not_brace(s@, p as int),
                decreases s.len() - k,
            {
                k += 1;
            }
            let close = crate::text::chars_of("}}");
            proof {
                reveal_strlit("}}");
            }
            if k - p >= 3 && s[k - 2] == ')' && s[k - 1] == ' ' && matches_at_exec(s, k, &close) {
                Some(k + close.len())
            } else {
                None
            }
        },
        Directive::IncrementalBlock => {
            proof {
                lemma_match_from_bounds(s@, i as int, incremental_open_pattern(), 0);
            }
            match match_tokens(s, i, open) {
                Some((b, _)) => {
                    proof {
                        lemma_endif_search(s@, b as int);
                    }
                    match endif_search_exec(s, b, endif) {
                        Some(e) => if i < e {
                            Some(e)
                        } else {
                            None
                        },
                        None => None,
                    }
                },
                None => None,
            }
        },
    }
}

/// `s` with every occurrence of the directive `d` removed.
pub fn remove_directive_exec(s: &Vec<char>, d: Directive) -> (r: Vec<char>)
    ensures
        r@ == remove_directive(s@, d),
{
    let open = incremental_open_tokens();
    let endif = endif_tokens();
    let mut r: Vec<char> = Vec::new();
    let mut i: usize = 0;
    while i < s.len()
        invariant
            i <= s.len(),
            toks_view(open@) == incremental_open_pattern(),
            toks_view(endif@) == endif_pattern(),
            r@ + remove_from(s@, i as int, d) == remove_directive(s@, d),
        decreases s.len() - i,
    {
        let ghost before = r@;
        match directive_end_exec(s, i, &d, &open, &endif) {
            Some(e) => {
                i = e;
            },
            None => {
                r.push(s[i]);
                assert(r@ + remove_from(s@, i + 1, d) == before + remove_from(s@, i as int, d));
                i = i + 1;
            },
        }
    }
    assert(r@ + Seq::<char>::empty() == r@);
    r
}

} // verus!
