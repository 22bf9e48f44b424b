//! Display templates: literal text with `{field}` or `{field:spec}`
//! placeholders, and `{{` / `}}` for literal braces.
use vstd::prelude::*;
use crate::text::{chars_of, push_char, string_of, views};

verus! {

/// Why a display template was refused.
#[derive(Clone, Copy, Debug, PartialEq, Eq, Structural)]
pub enum TemplateError {
    /// A `{` inside a placeholder that is still open.
    UnbalancedOpenBracket,
    /// A `}` with no open placeholder.
    UnmatchedClosingBracket,
    /// The text of a placeholder before its first `:` is no identifier.
    InvalidIdentifier,
    /// The template ends inside a placeholder.
    UnclosedBracket,
}

/// One element of a template: a literal character, or a placeholder with
/// the field name it refers to.
#[derive(Clone, Debug)]
pub enum Piece {
    Lit(char),
    Field(Vec<char>),
}

/// The model of a [`Piece`].
pub ghost enum Tok {
    Lit(char),
    Field(Seq<char>),
}

impl View for Piece {
    type V = Tok;

    open spec fn view(&self) -> Tok {
        match self {
            Piece::Lit(c) => Tok::Lit(*c),
            Piece::Field(n) => Tok::Field(n@),
        }
    }
}

pub open spec fn toks_of(ps: Seq<Piece>) -> Seq<Tok> {
    ps.map_values(|p: Piece| p@)
}

/// The first index at or after `j` that holds `a` or `b`, or the length.
pub open spec fn first_of(t: Seq<char>, j: int, a: char, b: char) -> int
    decreases t.len() - j,
{
    if j < 0 || j >= t.len() {
        t.len() as int
    } else if t[j] == a || t[j] == b {
        j
    } else {
        first_of(t, j + 1, a, b)
    }
}

/// The name a placeholder opened at `i` and closed at `k` refers to: its
/// text up to the first `:`.
pub open spec fn hole_name(t: Seq<char>, i: int, k: int) -> Seq<char> {
    let c = first_of(t, i + 1, ':', ':');
    t.subrange(i + 1, if c < k { c } else { k })
}

pub open spec fn cons(x: Tok, r: Result<Seq<Tok>, TemplateError>) -> Result<Seq<Tok>, TemplateError> {
    match r {
        Ok(s) => Ok(seq![x] + s),
        Err(e) => Err(e),
    }
}

/// The template from index `i` on, split into pieces, or the first fault of
/// its brackets.
pub open spec fn scan(t: Seq<char>, i: int) -> Result<Seq<Tok>, TemplateError>
    decreases t.len() - i,
{
    if i < 0 || i >= t.len() {
        Ok(seq![])
    } else if t[i] == '{' && i + 1 < t.len() && t[i + 1] == '{' {
        cons(Tok::Lit('{'), scan(t, i + 2))
    } else if t[i] == '}' && i + 1 < t.len() && t[i + 1] == '}' {
        cons(Tok::Lit('}'), scan(t, i + 2))
    } else if t[i] == '}' {
        Err(TemplateError::UnmatchedClosingBracket)
    } else if t[i] == '{' {
        let k = first_of(t, i + 1, '{', '}');
        if !(i < k < t.len()) {
            Err(TemplateError::UnclosedBracket)
        } else if t[k] == '{' {
            Err(TemplateError::UnbalancedOpenBracket)
        } else {
            cons(Tok::Field(hole_name(t, i, k)), scan(t, k + 1))
        }
    } else {
        cons(Tok::Lit(t[i]), scan(t, i + 1))
    }
}

/// The template split into pieces, or the first fault of its brackets.
pub open spec fn parse(t: Seq<char>) -> Result<Seq<Tok>, TemplateError> {
    scan(t, 0)
}

/// The field names of the placeholders, in order.
pub open spec fn names(ts: Seq<Tok>) -> Seq<Seq<char>>
    decreases ts.len(),
{
    if ts.len() == 0 {
        seq![]
    } else {
        match ts.last() {
            Tok::Field(f) => names(ts.drop_last()).push(f),
            Tok::Lit(_) => names(ts.drop_last()),
        }
    }
}

/// The names with later repeats left out.
pub open spec fn dedup(s: Seq<Seq<char>>) -> Seq<Seq<char>>
    decreases s.len(),
{
    if s.len() == 0 {
        seq![]
    } else {
        let d = dedup(s.drop_last());
        if d.contains(s.last()) {
            d
        } else {
            d.push(s.last())
        }
    }
}

/// Whether the text parses as one Rust identifier that is no keyword, as
/// the `syn` crate decides it.
pub uninterp spec fn is_ident(s: Seq<char>) -> bool;

/// Relies on `syn::parse_str::<syn::Ident>`: whether the text is one
/// identifier, keywords and `_` excluded.
#[verifier::external_body]
fn parses_as_ident(s: &str) -> (r: bool)
    ensures
        r == is_ident(s@),
{
    syn::parse_str::<syn::Ident>(s).is_ok()
}

/// The ordered set of field names that a template refers to, given for each
/// piece whether its name was found to be an identifier.
pub open spec fn placeholders_given(ts: Seq<Tok>, valid: Seq<bool>) -> Result<Seq<Seq<char>>, TemplateError> {
    if exists|i: int| 0 <= i < ts.len() && ts[i] is Field && !valid[i] {
        Err(TemplateError::InvalidIdentifier)
    } else {
        Ok(dedup(names(ts)))
    }
}

/// The ordered set of field names that a template refers to, or why the
/// template is refused.
pub open spec fn placeholders(t: Seq<char>) -> Result<Seq<Seq<char>>, TemplateError> {
    match parse(t) {
        Err(e) => Err(e),
        Ok(ts) => placeholders_given(ts, ts.map_values(|x: Tok| x is Field ==> is_ident(x->Field_0))),
    }
}

proof fn lemma_first_of_ge(t: Seq<char>, j: int, a: char, b: char)
    requires
        0 <= j <= t.len(),
    ensures
        first_of(t, j, a, b) >= j,
    decreases t.len() - j,
{
    if j < t.len() {
        lemma_first_of_ge(t, j + 1, a, b);
    }
}

proof fn lemma_first_of(t: Seq<char>, j: int, k: int, a: char, b: char)
    requires
        0 <= j <= k <= t.len(),
        forall|m: int| j <= m < k ==> t[m] != a && t[m] != b,
    ensures
        first_of(t, j, a, b) >= k,
        k < t.len() && (t[k] == a || t[k] == b) ==> first_of(t, j, a, b) == k,
    decreases k - j,
{
    if j < k {
        lemma_first_of(t, j + 1, k, a, b);
    } else {
        lemma_first_of_ge(t, j, a, b);
    }
}

pub open spec fn then_all(acc: Seq<Tok>, r: Result<Seq<Tok>, TemplateError>) -> Result<Seq<Tok>, TemplateError> {
    match r {
        Ok(s) => Ok(acc + s),
        Err(e) => Err(e),
    }
}

proof fn lemma_toks_push(ps: Seq<Piece>, p: Piece)
    ensures
        toks_of(ps.push(p)) == toks_of(ps).push(p@),
{
    assert(toks_of(ps.push(p)) =~= toks_of(ps).push(p@));
}

proof fn lemma_then_cons(acc: Seq<Tok>, x: Tok, r: Result<Seq<Tok>, TemplateError>)
    ensures
        then_all(acc, cons(x, r)) == then_all(acc.push(x), r),
{
    if let Ok(s) = r {
        assert(acc + (seq![x] + s) =~= acc.push(x) + s);
    }
}

proof fn lemma_step(t: Seq<char>, before: Seq<Piece>, p: Piece, i: int, j: int)
    requires
        scan(t, 0) == then_all(toks_of(before), scan(t, i)),
        scan(t, i) == cons(p@, scan(t, j)),
    ensures
        scan(t, 0) == then_all(toks_of(before.push(p)), scan(t, j)),
{
    lemma_then_cons(toks_of(before), p@, scan(t, j));
    lemma_toks_push(before, p);
}

/// Splits a template into pieces; fails with the first fault of its
/// brackets.
pub fn parse_template(template: &Vec<char>) -> (r: Result<Vec<Piece>, TemplateError>)
    ensures
        match r {
            Ok(ps) => parse(template@) == Ok::<Seq<Tok>, TemplateError>(toks_of(ps@)),
            Err(e) => parse(template@) == Err::<Seq<Tok>, TemplateError>(e),
        },
{
    let ghost t = template@;
    let n = template.len();
    let mut out: Vec<Piece> = Vec::new();
    let mut i: usize = 0;
    while i < n
        invariant
            t == template@,
            n == t.len(),
            i <= n,
            scan(t, 0) == then_all(toks_of(out@), scan(t, i as int)),
        decreases n - i,
    {
        let c = template[i];
        let ghost before = out@;
        if c == '{' && i + 1 < n && template[i + 1] == '{' {
            out.push(Piece::Lit('{'));
            proof { lemma_step(t, before, Piece::Lit('{'), i as int, i + 2); }
            i = i + 2;
        } else if c == '}' && i + 1 < n && template[i + 1] == '}' {
            out.push(Piece::Lit('}'));
            proof { lemma_step(t, before, Piece::Lit('}'), i as int, i + 2); }
            i = i + 2;
        } else if c == '}' {
            return Err(TemplateError::UnmatchedClosingBracket);
        } else if c == '{' {
            let mut k: usize = i + 1;
            while k < n && template[k] != '{' && template[k] != '}'
                invariant
                    t == template@,
                    n == t.len(),
                    i < k <= n,
                    forall|m: int| i + 1 <= m < k ==> t[m] != '{' && t[m] != '}',
                decreases n - k,
            {
                k = k + 1;
            }
            proof { lemma_first_of(t, i + 1, k as int, '{', '}'); }
            if k >= n {
                return Err(TemplateError::UnclosedBracket);
            }
            if template[k] == '{' {
                return Err(TemplateError::UnbalancedOpenBracket);
            }
            let mut name: Vec<char> = Vec::new();
            let mut m: usize = i + 1;
            while m < k && template[m] != ':'
                invariant
                    t == template@,
                    n == t.len(),
                    i < m <= k < n,
                    forall|x: int| i + 1 <= x < m ==> t[x] != ':',
                    name@ == t.subrange(i + 1, m as int),
                decreases k - m,
            {
                name.push(template[m]);
                m = m + 1;
            }
            proof {
                lemma_first_of(t, i + 1, m as int, ':', ':');
                assert(name@ == hole_name(t, i as int, k as int));
            }
            let p = Piece::Field(name);
            let ghost pv = p;
            out.push(p);
            proof { lemma_step(t, before, pv, i as int, k + 1); }
            i = k + 1;
        } else {
            out.push(Piece::Lit(c));
            proof { lemma_step(t, before, Piece::Lit(c), i as int, i + 1); }
            i = i + 1;
        }
    }
    assert(toks_of(out@) + seq![] =~= toks_of(out@));
    Ok(out)
}

/// Whether two character sequences are equal.
pub fn chars_eq(a: &Vec<char>, b: &Vec<char>) -> (r: bool)
    ensures
        r == (a@ == b@),
{
    if a.len() != b.len() {
        return false;
    }
    let mut i: usize = 0;
    while i < a.len()
        invariant
            a@.len() == b@.len(),
            i <= a@.len(),
            forall|j: int| 0 <= j < i ==> a@[j] == b@[j],
        decreases a@.len() - i,
    {
        if a[i] != b[i] {
            return false;
        }
        i = i + 1;
    }
    assert(a@ =~= b@);
    true
}

/// Whether `f` is among `v`.
pub fn contains_chars(v: &Vec<Vec<char>>, f: &Vec<char>) -> (r: bool)
    ensures
        r == v@.map_values(|x: Vec<char>| x@).contains(f@),
{
    let ghost vs = v@.map_values(|x: Vec<char>| x@);
    let mut i: usize = 0;
    while i < v.len()
        invariant
            vs == v@.map_values(|x: Vec<char>| x@),
            i <= v@.len(),
            forall|j: int| 0 <= j < i ==> vs[j] != f@,
        decreases v@.len() - i,
    {
        if chars_eq(&v[i], f) {
            assert(vs[i as int] == f@);
            return true;
        }
        i = i + 1;
    }
    false
}

/// The ordered set of field names among the pieces of a template, given
/// for each piece whether its name is an identifier; `InvalidIdentifier`
/// when a placeholder's name is not.
pub fn select_idents(pieces: &Vec<Piece>, valid: &Vec<bool>) -> (r: Result<Vec<String>, TemplateError>)
    requires
        valid@.len() == pieces@.len(),
    ensures
        match r {
            Ok(v) => placeholders_given(toks_of(pieces@), valid@) == Ok::<Seq<Seq<char>>, TemplateError>(views(v@)),
            Err(e) => placeholders_given(toks_of(pieces@), valid@) == Err::<Seq<Seq<char>>, TemplateError>(e),
        },
{
    let ghost ts = toks_of(pieces@);
    let mut i: usize = 0;
    while i < pieces.len()
        invariant
            ts == toks_of(pieces@),
            valid@.len() == pieces@.len(),
            i <= pieces@.len(),
            forall|j: int| 0 <= j < i ==> !(ts[j] is Field && !valid@[j]),
        decreases pieces@.len() - i,
    {
        if let Piece::Field(_) = &pieces[i] {
            if !valid[i] {
                assert(ts[i as int] is Field && !valid@[i as int]);
                return Err(TemplateError::InvalidIdentifier);
            }
        }
        i = i + 1;
    }
    let mut seen: Vec<Vec<char>> = Vec::new();
    let mut out: Vec<String> = Vec::new();
    let mut i: usize = 0;
    while i < pieces.len()
        invariant
            ts == toks_of(pieces@),
            i <= pieces@.len(),
            seen@.map_values(|x: Vec<char>| x@) == dedup(names(ts.subrange(0, i as int))),
            views(out@) == seen@.map_values(|x: Vec<char>| x@),
        decreases pieces@.len() - i,
    {
        let ghost pre = ts.subrange(0, i as int);
        assert(ts.subrange(0, i + 1).drop_last() =~= pre);
        if let Piece::Field(f) = &pieces[i] {
            let ghost nm = names(pre);
            assert(names(ts.subrange(0, i + 1)) == nm.push(f@));
            assert(nm.push(f@).drop_last() =~= nm);
            if !contains_chars(&seen, f) {
                let ghost s0 = seen@;
                let ghost o0 = out@;
                seen.push(f.clone());
                out.push(string_of(f));
                assert(seen@.map_values(|x: Vec<char>| x@) =~= s0.map_values(|x: Vec<char>| x@).push(f@));
                assert(views(out@) =~= views(o0).push(f@));
            }
        }
        i = i + 1;
    }
    assert(ts.subrange(0, pieces@.len() as int) =~= ts);
    Ok(out)
}

/// The ordered set of field names that a display template refers to, each
/// once, at its first occurrence; or why the template is refused.
pub fn capture_format_string_idents(template: &str) -> (r: Result<Vec<String>, TemplateError>)
    ensures
        match r {
            Ok(v) => placeholders(template@) == Ok::<Seq<Seq<char>>, TemplateError>(views(v@)),
            Err(e) => placeholders(template@) == Err::<Seq<Seq<char>>, TemplateError>(e),
        },
{
    let t = chars_of(template);
    let pieces = match parse_template(&t) {
        Ok(ps) => ps,
        Err(e) => return Err(e),
    };
    let ghost ts = toks_of(pieces@);
    let mut valid: Vec<bool> = Vec::new();
    let mut i: usize = 0;
    while i < pieces.len()
        invariant
            ts == toks_of(pieces@),
            i <= pieces@.len(),
            valid@.len() == i,
            forall|j: int| 0 <= j < i ==> valid@[j] == (ts[j] is Field ==> is_ident(ts[j]->Field_0)),
        decreases pieces@.len() - i,
    {
        match &pieces[i] {
            Piece::Field(f) => {
                let s = string_of(f);
                valid.push(parses_as_ident(s.as_str()));
            },
            Piece::Lit(_) => {
                valid.push(true);
            },
        }
        i = i + 1;
    }
    assert(valid@ =~= ts.map_values(|x: Tok| x is Field ==> is_ident(x->Field_0)));
    select_idents(&pieces, &valid)
}

/// The index of the first `f` at or after `j` among `names`, or their
/// number.
pub open spec fn index_from(names: Seq<Seq<char>>, f: Seq<char>, j: int) -> int
    decreases names.len() - j,
{
    if j < 0 || j >= names.len() {
        names.len() as int
    } else if names[j] == f {
        j
    } else {
        index_from(names, f, j + 1)
    }
}

/// The value of the first field called `f`; empty where there is none.
pub open spec fn lookup(names: Seq<Seq<char>>, vals: Seq<Seq<char>>, f: Seq<char>) -> Seq<char> {
    let k = index_from(names, f, 0);
    if k < names.len() && k < vals.len() {
        vals[k]
    } else {
        seq![]
    }
}

/// What one piece renders to.
pub open spec fn tok_text(t: Tok, names: Seq<Seq<char>>, vals: Seq<Seq<char>>) -> Seq<char> {
    match t {
        Tok::Lit(c) => seq![c],
        Tok::Field(f) => lookup(names, vals, f),
    }
}

/// A template rendered with the fields called `names` holding `vals`:
/// literal text as it stands, each placeholder replaced by its field's
/// value; any format spec after the placeholder's `:` is not applied.
pub open spec fn render(ts: Seq<Tok>, names: Seq<Seq<char>>, vals: Seq<Seq<char>>) -> Seq<char>
    decreases ts.len(),
{
    if ts.len() == 0 {
        seq![]
    } else {
        render(ts.drop_last(), names, vals) + tok_text(ts.last(), names, vals)
    }
}

proof fn lemma_index_from(names: Seq<Seq<char>>, f: Seq<char>, j: int, k: int)
    requires
        0 <= j <= k <= names.len(),
        forall|m: int| j <= m < k ==> names[m] != f,
        k < names.len() ==> names[k] == f,
    ensures
        index_from(names, f, j) == k,
    decreases k - j,
{
    if j < k {
        lemma_index_from(names, f, j + 1, k);
    }
}

/// The value of the first field called `f`, or the empty string.
fn lookup_field(names: &Vec<String>, vals: &Vec<String>, f: &Vec<char>) -> (r: String)
    ensures
        r@ == lookup(views(names@), views(vals@), f@),
{
    let ghost ns = views(names@);
    let mut k: usize = 0;
    while k < names.len()
        invariant
            ns == views(names@),
            k <= names@.len(),
            forall|m: int| 0 <= m < k ==> ns[m] != f@,
        ensures
            k <= names@.len(),
            forall|m: int| 0 <= m < k ==> ns[m] != f@,
            k < names@.len() ==> ns[k as int] == f@,
        decreases names@.len() - k,
    {
        let cs = chars_of(names[k].as_str());
        if chars_eq(&cs, f) {
            break;
        }
        k = k + 1;
    }
    proof { lemma_index_from(ns, f@, 0, k as int); }
    if k < names.len() && k < vals.len() {
        vals[k].clone()
    } else {
        String::new()
    }
}

/// Renders the pieces of a template with the fields called `names`
/// holding `vals`.
pub fn render_pieces(pieces: &Vec<Piece>, names: &Vec<String>, vals: &Vec<String>) -> (r: String)
    ensures
        r@ == render(toks_of(pieces@), views(names@), views(vals@)),
{
    let ghost ts = toks_of(pieces@);
    let mut r = String::new();
    let mut i: usize = 0;
    while i < pieces.len()
        invariant
            ts == toks_of(pieces@),
            i <= pieces@.len(),
            r@ == render(ts.subrange(0, i as int), views(names@), views(vals@)),
        decreases pieces@.len() - i,
    {
        assert(ts.subrange(0, i + 1).drop_last() =~= ts.subrange(0, i as int));
        match &pieces[i] {
            Piece::Lit(c) => {
                push_char(&mut r, *c);
            },
            Piece::Field(f) => {
                let v = lookup_field(names, vals, f);
                r.append(v.as_str());
            },
        }
        assert(r@ =~= render(ts.subrange(0, i + 1), views(names@), views(vals@)));
        i = i + 1;
    }
    assert(ts.subrange(0, pieces@.len() as int) =~= ts);
    r
}

} // verus!
