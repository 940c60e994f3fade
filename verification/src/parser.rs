use vstd::prelude::*;
use crate::expression::{deep_seq, lemma_deep_seq_index, lemma_deep_seq_len, ExprShape, Expression};
use crate::strutil::is_digit;

verus! {

// The front end hands each contract over as JSON documents. The grammar
// accepted here covers what those documents hold: unsigned decimal
// integers, plain double-quoted strings without escapes, arrays, and — for
// the metadata and ABI documents — flat string-valued objects. The spec
// functions below are the grammar's definition; the executable parsers are
// proved to decide exactly that grammar.

pub open spec fn is_ws(c: char) -> bool {
    c == ' ' || c == '\t' || c == '\n' || c == '\r'
}

/// The first position at or after `pos` holding no whitespace.
pub open spec fn sp_ws(s: Seq<char>, pos: int) -> int
    decreases s.len() - pos when 0 <= pos <= s.len()
{
    if pos >= s.len() {
        pos
    } else if is_ws(s[pos]) {
        sp_ws(s, pos + 1)
    } else {
        pos
    }
}

pub proof fn lemma_sp_digits_end_bounds(s: Seq<char>, pos: int)
    requires
        0 <= pos <= s.len(),
    ensures
        pos <= sp_digits_end(s, pos) <= s.len(),
    decreases s.len() - pos,
{
    if pos < s.len() && is_digit(s[pos]) {
        lemma_sp_digits_end_bounds(s, pos + 1);
    }
}

/// The first position at or after `pos` holding no decimal digit.
pub open spec fn sp_digits_end(s: Seq<char>, pos: int) -> int
    decreases s.len() - pos when 0 <= pos <= s.len()
{
    if pos >= s.len() {
        pos
    } else if is_digit(s[pos]) {
        sp_digits_end(s, pos + 1)
    } else {
        pos
    }
}

/// The position of the closing quote at or after `pos`, if the characters
/// up to it are plain (escapes are not part of the accepted grammar).
pub open spec fn sp_str_end(s: Seq<char>, pos: int) -> Option<int>
    decreases s.len() - pos when 0 <= pos <= s.len()
{
    if pos >= s.len() {
        None
    } else if s[pos] == '"' {
        Some(pos)
    } else if s[pos] == '\\' {
        None
    } else {
        sp_str_end(s, pos + 1)
    }
}

/// A value of the expression grammar beginning at `pos`, with the position
/// just after it: an integer literal, a string (an identifier), or a
/// bracketed list.
pub open spec fn sp_value(s: Seq<char>, pos: int) -> Option<(ExprShape, int)>
    decreases s.len() - pos, 0int when 0 <= pos <= s.len()
{
    let p = sp_ws(s, pos);
    if !(pos <= p && p <= s.len()) {
        None
    } else if p >= s.len() {
        None
    } else if is_digit(s[p]) {
        let e = sp_digits_end(s, p);
        if p < e <= s.len() {
            Some((ExprShape::Int(s.subrange(p, e)), e))
        } else {
            None
        }
    } else if s[p] == '"' {
        match sp_str_end(s, p + 1) {
            Some(q) => if p + 1 <= q < s.len() {
                Some((ExprShape::Ident(s.subrange(p + 1, q)), q + 1))
            } else {
                None
            },
            None => None,
        }
    } else if s[p] == '[' {
        match sp_elems(s, p + 1, true) {
            Some((es, e)) => Some((ExprShape::List(es), e)),
            None => None,
        }
    } else {
        None
    }
}

/// The elements of a list after its opening bracket (or after a comma),
/// with the position just after the closing bracket.
pub open spec fn sp_elems(s: Seq<char>, pos: int, first: bool) -> Option<(Seq<ExprShape>, int)>
    decreases s.len() - pos, 1int when 0 <= pos <= s.len()
{
    let p = sp_ws(s, pos);
    if !(pos <= p && p <= s.len()) {
        None
    } else if p >= s.len() {
        None
    } else if s[p] == ']' {
        Some((Seq::empty(), p + 1))
    } else {
        let vstart: int = if first {
            pos
        } else if s[p] == ',' {
            p + 1
        } else {
            -1
        };
        if !(pos <= vstart && vstart <= s.len()) {
            None
        } else {
            match sp_value(s, vstart) {
                Some((v, q)) => if pos < q <= s.len() {
                    match sp_elems(s, q, false) {
                        Some((rest, e)) => Some((seq![v] + rest, e)),
                        None => None,
                    }
                } else {
                    None
                },
                None => None,
            }
        }
    }
}

/// A whole expression document: one value with nothing but whitespace
/// after it.
pub open spec fn sp_parse_expression(s: Seq<char>) -> Option<ExprShape> {
    match sp_value(s, 0) {
        Some((v, q)) => if 0 <= q <= s.len() && sp_ws(s, q) == s.len() {
            Some(v)
        } else {
            None
        },
        None => None,
    }
}

/// Skips whitespace.
fn x_ws(s: &str, len: usize, pos: usize) -> (r: usize)
    requires
        len == s@.len(),
        pos <= len,
    ensures
        r == sp_ws(s@, pos as int),
        pos <= r <= len,
{
    let mut cur = pos;
    while cur < len
        invariant
            len == s@.len(),
            pos <= cur <= len,
            sp_ws(s@, pos as int) == sp_ws(s@, cur as int),
        decreases len - cur,
    {
        let c = s.get_char(cur);
        let cu = c as u32;
        if !(cu == 32 || cu == 9 || cu == 10 || cu == 13) {
            proof {
                assert(!is_ws(s@[cur as int]));
            }
            return cur;
        }
        proof {
            assert(is_ws(s@[cur as int]));
        }
        cur += 1;
    }
    cur
}

/// Scans past decimal digits.
fn x_digits_end(s: &str, len: usize, pos: usize) -> (r: usize)
    requires
        len == s@.len(),
        pos <= len,
    ensures
        r == sp_digits_end(s@, pos as int),
        pos <= r <= len,
{
    let mut cur = pos;
    while cur < len
        invariant
            len == s@.len(),
            pos <= cur <= len,
            sp_digits_end(s@, pos as int) == sp_digits_end(s@, cur as int),
        decreases len - cur,
    {
        let c = s.get_char(cur);
        let cu = c as u32;
        if !(cu >= 48 && cu <= 57) {
            proof {
                assert(!is_digit(s@[cur as int]));
            }
            return cur;
        }
        proof {
            assert(is_digit(s@[cur as int]));
        }
        cur += 1;
    }
    cur
}

/// Scans for the closing quote of a string token.
fn x_str_end(s: &str, len: usize, pos: usize) -> (r: Option<usize>)
    requires
        len == s@.len(),
        pos <= len,
    ensures
        match r {
            Some(q) => sp_str_end(s@, pos as int) == Some(q as int) && pos <= q < len,
            None => sp_str_end(s@, pos as int) is None,
        },
{
    let mut cur = pos;
    while cur < len
        invariant
            len == s@.len(),
            pos <= cur <= len,
            sp_str_end(s@, pos as int) == sp_str_end(s@, cur as int),
        decreases len - cur,
    {
        let c = s.get_char(cur);
        if c == '"' {
            return Some(cur);
        }
        if c == '\\' {
            return None;
        }
        cur += 1;
    }
    None
}

/// Parses one value of the expression grammar.
fn x_value(s: &str, len: usize, pos: usize) -> (r: Option<(Expression, usize)>)
    requires
        len == s@.len(),
        pos <= len,
    ensures
        match r {
            Some((e, q)) => sp_value(s@, pos as int) == Some((e.deep(), q as int)) && pos < q
                <= len,
            None => sp_value(s@, pos as int) is None,
        },
    decreases len - pos, 0int,
{
    let p = x_ws(s, len, pos);
    if p >= len {
        return None;
    }
    let c = s.get_char(p);
    let cu = c as u32;
    if cu >= 48 && cu <= 57 {
        proof {
            assert(is_digit(s@[p as int]));
        }
        let e = x_digits_end(s, len, p);
        proof {
            assert(sp_digits_end(s@, p as int) == sp_digits_end(s@, p + 1));
            lemma_sp_digits_end_bounds(s@, p + 1);
        }
        assert(e > p);
        let tok = s.substring_char(p, e);
        let text = tok.to_owned();
        let r = Expression::IntegerLiteral(text);
        assert(r.deep() == ExprShape::Int(s@.subrange(p as int, e as int)));
        Some((r, e))
    } else if c == '"' {
        match x_str_end(s, len, p + 1) {
            Some(q) => {
                let tok = s.substring_char(p + 1, q);
                let text = tok.to_owned();
                let r = Expression::Identifier(text);
                assert(r.deep() == ExprShape::Ident(s@.subrange(p + 1, q as int)));
                Some((r, q + 1))
            },
            None => None,
        }
    } else if c == '[' {
        match x_elems(s, len, p + 1, true) {
            Some((es, e)) => {
                let r = Expression::List(es);
                Some((r, e))
            },
            None => None,
        }
    } else {
        proof {
            assert(!is_digit(s@[p as int]) && s@[p as int] != '"' && s@[p as int] != '[');
        }
        None
    }
}

/// Parses the elements of a list up to its closing bracket.
fn x_elems(s: &str, len: usize, pos: usize, first: bool) -> (r: Option<(Vec<Expression>, usize)>)
    requires
        len == s@.len(),
        pos <= len,
    ensures
        match r {
            Some((es, q)) => sp_elems(s@, pos as int, first) == Some((deep_seq(es@), q as int))
                && pos < q <= len,
            None => sp_elems(s@, pos as int, first) is None,
        },
    decreases len - pos, 1int,
{
    let p = x_ws(s, len, pos);
    if p >= len {
        return None;
    }
    let c = s.get_char(p);
    if c == ']' {
        let es: Vec<Expression> = Vec::new();
        proof {
            lemma_deep_seq_len(es@);
            assert(deep_seq(es@) =~= Seq::<ExprShape>::empty());
        }
        return Some((es, p + 1));
    }
    let vstart: usize = if first {
        pos
    } else {
        if c == ',' {
            p + 1
        } else {
            return None;
        }
    };
    match x_value(s, len, vstart) {
        Some((v, q)) => {
            match x_elems(s, len, q, false) {
                Some((rest, e)) => {
                    let ghost rest_old = rest@;
                    let mut es = rest;
                    es.insert(0, v);
                    proof {
                        lemma_deep_seq_len(es@);
                        lemma_deep_seq_len(rest_old);
                        assert forall|k: int| 0 <= k < es@.len() implies deep_seq(es@)[k] == (
                        seq![v.deep()] + deep_seq(rest_old))[k] by {
                            lemma_deep_seq_index(es@, k);
                            if k > 0 {
                                lemma_deep_seq_index(rest_old, k - 1);
                                assert(es@[k] == rest_old[k - 1]);
                            }
                        }
                        assert(deep_seq(es@) =~= seq![v.deep()] + deep_seq(rest_old));
                    }
                    Some((es, e))
                },
                None => None,
            }
        },
        None => None,
    }
}

/// Parses a whole expression document.
pub fn parse_expression(s: &str) -> (r: Option<Expression>)
    ensures
        match r {
            Some(e) => sp_parse_expression(s@) == Some(e.deep()),
            None => sp_parse_expression(s@) is None,
        },
{
    let len = s.unicode_len();
    match x_value(s, len, 0) {
        Some((e, q)) => {
            let t = x_ws(s, len, q);
            if t == len {
                Some(e)
            } else {
                None
            }
        },
        None => None,
    }
}

/// A string token: a quoted run of plain characters, with the position
/// just after the closing quote.
pub open spec fn sp_string_token(s: Seq<char>, pos: int) -> Option<(Seq<char>, int)> {
    let p = sp_ws(s, pos);
    if !(pos <= p && p <= s.len()) {
        None
    } else if p >= s.len() {
        None
    } else if s[p] == '"' {
        match sp_str_end(s, p + 1) {
            Some(q) => if p + 1 <= q < s.len() {
                Some((s.subrange(p + 1, q), q + 1))
            } else {
                None
            },
            None => None,
        }
    } else {
        None
    }
}

/// The members of a string-valued object after its opening brace (or
/// after a comma), with the position just after the closing brace.
pub open spec fn sp_pairs(s: Seq<char>, pos: int, first: bool) -> Option<
    (Seq<(Seq<char>, Seq<char>)>, int),
>
    decreases s.len() - pos when 0 <= pos <= s.len()
{
    let p = sp_ws(s, pos);
    if !(pos <= p && p <= s.len()) {
        None
    } else if p >= s.len() {
        None
    } else if s[p] == '}' {
        Some((Seq::empty(), p + 1))
    } else {
        let kstart: int = if first {
            pos
        } else if s[p] == ',' {
            p + 1
        } else {
            -1
        };
        if !(pos <= kstart && kstart <= s.len()) {
            None
        } else {
            match sp_string_token(s, kstart) {
                Some((k, ke)) => if 0 <= ke <= s.len() {
                    let c = sp_ws(s, ke);
                    if ke <= c < s.len() && s[c] == ':' {
                        match sp_string_token(s, c + 1) {
                            Some((v, ve)) => if pos < ve <= s.len() {
                                match sp_pairs(s, ve, false) {
                                    Some((rest, e)) => Some((seq![(k, v)] + rest, e)),
                                    None => None,
                                }
                            } else {
                                None
                            },
                            None => None,
                        }
                    } else {
                        None
                    }
                } else {
                    None
                },
                None => None,
            }
        }
    }
}

/// A string-valued object beginning at `pos`.
pub open spec fn sp_obj_pairs(s: Seq<char>, pos: int) -> Option<(Seq<(Seq<char>, Seq<char>)>, int)> {
    let p = sp_ws(s, pos);
    if !(pos <= p && p <= s.len()) {
        None
    } else if p < s.len() && s[p] == '{' {
        sp_pairs(s, p + 1, true)
    } else {
        None
    }
}

/// A whole ABI document: one string-valued object with nothing but
/// whitespace after it.
pub open spec fn sp_parse_abi(s: Seq<char>) -> Option<Seq<(Seq<char>, Seq<char>)>> {
    match sp_obj_pairs(s, 0) {
        Some((ps, q)) => if 0 <= q <= s.len() && sp_ws(s, q) == s.len() {
            Some(ps)
        } else {
            None
        },
        None => None,
    }
}

/// The members of the function-information object: each maps a function
/// name to a flat string-valued object of its metadata fields.
pub open spec fn sp_entries(s: Seq<char>, pos: int, first: bool) -> Option<
    (Seq<(Seq<char>, Seq<(Seq<char>, Seq<char>)>)>, int),
>
    decreases s.len() - pos when 0 <= pos <= s.len()
{
    let p = sp_ws(s, pos);
    if !(pos <= p && p <= s.len()) {
        None
    } else if p >= s.len() {
        None
    } else if s[p] == '}' {
        Some((Seq::empty(), p + 1))
    } else {
        let kstart: int = if first {
            pos
        } else if s[p] == ',' {
            p + 1
        } else {
            -1
        };
        if !(pos <= kstart && kstart <= s.len()) {
            None
        } else {
            match sp_string_token(s, kstart) {
                Some((k, ke)) => if 0 <= ke <= s.len() {
                    let c = sp_ws(s, ke);
                    if ke <= c < s.len() && s[c] == ':' {
                        match sp_obj_pairs(s, c + 1) {
                            Some((fields, ve)) => if pos < ve <= s.len() {
                                match sp_entries(s, ve, false) {
                                    Some((rest, e)) => Some((seq![(k, fields)] + rest, e)),
                                    None => None,
                                }
                            } else {
                                None
                            },
                            None => None,
                        }
                    } else {
                        None
                    }
                } else {
                    None
                },
                None => None,
            }
        }
    }
}

/// A whole metadata document: an object that is either empty or holds the
/// single function-information key, whose value maps function names to
/// flat string-valued field objects.
pub open spec fn sp_parse_metadata(s: Seq<char>) -> Option<
    Seq<(Seq<char>, Seq<(Seq<char>, Seq<char>)>)>,
> {
    let p = sp_ws(s, 0);
    if !(0 <= p && p <= s.len()) {
        None
    } else if p >= s.len() || s[p] != '{' {
        None
    } else {
        let q = sp_ws(s, p + 1);
        if !(p + 1 <= q && q <= s.len()) {
            None
        } else if q < s.len() && s[q] == '}' {
            if sp_ws(s, q + 1) == s.len() {
                Some(Seq::empty())
            } else {
                None
            }
        } else {
            match sp_string_token(s, p + 1) {
                Some((k, ke)) => if k == "function_info"@ && 0 <= ke <= s.len() {
                    let c = sp_ws(s, ke);
                    if ke <= c < s.len() && s[c] == ':' {
                        let op = sp_ws(s, c + 1);
                        if c + 1 <= op < s.len() && s[op] == '{' {
                            match sp_entries(s, op + 1, true) {
                                Some((entries, e2)) => if 0 <= e2 <= s.len() {
                                    let b = sp_ws(s, e2);
                                    if e2 <= b < s.len() && s[b] == '}' && sp_ws(s, b + 1)
                                        == s.len() {
                                        Some(entries)
                                    } else {
                                        None
                                    }
                                } else {
                                    None
                                },
                                None => None,
                            }
                        } else {
                            None
                        }
                    } else {
                        None
                    }
                } else {
                    None
                },
                None => None,
            }
        }
    }
}

/// The character-level view of a sequence of string pairs.
pub open spec fn pairs_view(v: Seq<(String, String)>) -> Seq<(Seq<char>, Seq<char>)> {
    Seq::new(v.len(), |i: int| (v[i].0@, v[i].1@))
}

/// The character-level view of a sequence of named field objects.
pub open spec fn entries_view(v: Seq<(String, Vec<(String, String)>)>) -> Seq<
    (Seq<char>, Seq<(Seq<char>, Seq<char>)>),
> {
    Seq::new(v.len(), |i: int| (v[i].0@, pairs_view(v[i].1@)))
}

/// Parses a string token.
fn x_string_token(s: &str, len: usize, pos: usize) -> (r: Option<(String, usize)>)
    requires
        len == s@.len(),
        pos <= len,
    ensures
        match r {
            Some((t, q)) => sp_string_token(s@, pos as int) == Some((t@, q as int)) && pos < q
                <= len,
            None => sp_string_token(s@, pos as int) is None,
        },
{
    let p = x_ws(s, len, pos);
    if p >= len {
        return None;
    }
    let c = s.get_char(p);
    if c == '"' {
        match x_str_end(s, len, p + 1) {
            Some(q) => {
                let tok = s.substring_char(p + 1, q);
                Some((tok.to_owned(), q + 1))
            },
            None => None,
        }
    } else {
        None
    }
}

/// Parses the members of a string-valued object up to its closing brace.
fn x_pairs(s: &str, len: usize, pos: usize, first: bool) -> (r: Option<
    (Vec<(String, String)>, usize),
>)
    requires
        len == s@.len(),
        pos <= len,
    ensures
        match r {
            Some((ps, q)) => sp_pairs(s@, pos as int, first) == Some((pairs_view(ps@), q as int))
                && pos < q <= len,
            None => sp_pairs(s@, pos as int, first) is None,
        },
    decreases len - pos,
{
    let p = x_ws(s, len, pos);
    if p >= len {
        return None;
    }
    let c = s.get_char(p);
    if c == '}' {
        let ps: Vec<(String, String)> = Vec::new();
        proof {
            assert(pairs_view(ps@) =~= Seq::<(Seq<char>, Seq<char>)>::empty());
        }
        return Some((ps, p + 1));
    }
    let kstart: usize = if first {
        pos
    } else {
        if c == ',' {
            p + 1
        } else {
            return None;
        }
    };
    match x_string_token(s, len, kstart) {
        Some((k, ke)) => {
            let cp = x_ws(s, len, ke);
            if cp < len && s.get_char(cp) == ':' {
                match x_string_token(s, len, cp + 1) {
                    Some((v, ve)) => {
                        match x_pairs(s, len, ve, false) {
                            Some((rest, e)) => {
                                let ghost rest_old = rest@;
                                let mut ps = rest;
                                ps.insert(0, (k, v));
                                proof {
                                    assert(pairs_view(ps@) =~= seq![(k@, v@)] + pairs_view(
                                        rest_old,
                                    ));
                                }
                                Some((ps, e))
                            },
                            None => None,
                        }
                    },
                    None => None,
                }
            } else {
                None
            }
        },
        None => None,
    }
}

/// Parses a string-valued object.
fn x_obj_pairs(s: &str, len: usize, pos: usize) -> (r: Option<(Vec<(String, String)>, usize)>)
    requires
        len == s@.len(),
        pos <= len,
    ensures
        match r {
            Some((ps, q)) => sp_obj_pairs(s@, pos as int) == Some((pairs_view(ps@), q as int))
                && pos < q <= len,
            None => sp_obj_pairs(s@, pos as int) is None,
        },
{
    let p = x_ws(s, len, pos);
    if p < len && s.get_char(p) == '{' {
        x_pairs(s, len, p + 1, true)
    } else {
        None
    }
}

/// Parses a whole ABI document.
pub fn parse_abi(s: &str) -> (r: Option<Vec<(String, String)>>)
    ensures
        match r {
            Some(ps) => sp_parse_abi(s@) == Some(pairs_view(ps@)),
            None => sp_parse_abi(s@) is None,
        },
{
    let len = s.unicode_len();
    match x_obj_pairs(s, len, 0) {
        Some((ps, q)) => {
            let t = x_ws(s, len, q);
            if t == len {
                Some(ps)
            } else {
                None
            }
        },
        None => None,
    }
}

/// Parses the members of the function-information object.
fn x_entries(s: &str, len: usize, pos: usize, first: bool) -> (r: Option<
    (Vec<(String, Vec<(String, String)>)>, usize),
>)
    requires
        len == s@.len(),
        pos <= len,
    ensures
        match r {
            Some((es, q)) => sp_entries(s@, pos as int, first) == Some(
                (entries_view(es@), q as int),
            ) && pos < q <= len,
            None => sp_entries(s@, pos as int, first) is None,
        },
    decreases len - pos,
{
    let p = x_ws(s, len, pos);
    if p >= len {
        return None;
    }
    let c = s.get_char(p);
    if c == '}' {
        let es: Vec<(String, Vec<(String, String)>)> = Vec::new();
        proof {
            assert(entries_view(es@) =~= Seq::<
                (Seq<char>, Seq<(Seq<char>, Seq<char>)>),
            >::empty());
        }
        return Some((es, p + 1));
    }
    let kstart: usize = if first {
        pos
    } else {
        if c == ',' {
            p + 1
        } else {
            return None;
        }
    };
    match x_string_token(s, len, kstart) {
        Some((k, ke)) => {
            let cp = x_ws(s, len, ke);
            if cp < len && s.get_char(cp) == ':' {
                match x_obj_pairs(s, len, cp + 1) {
                    Some((fields, ve)) => {
                        match x_entries(s, len, ve, false) {
                            Some((rest, e)) => {
                                let ghost rest_old = rest@;
                                let ghost fields_old = fields@;
                                let mut es = rest;
                                es.insert(0, (k, fields));
                                proof {
                                    assert forall|i: int| 0 <= i < es@.len() implies entries_view(
                                        es@,
                                    )[i] == (seq![(k@, pairs_view(fields_old))] + entries_view(
                                        rest_old,
                                    ))[i] by {
                                        if i > 0 {
                                            assert(es@[i] == rest_old[i - 1]);
                                        }
                                    }
                                    assert(entries_view(es@) =~= seq![(k@, pairs_view(fields_old))]
                                        + entries_view(rest_old));
                                }
                                Some((es, e))
                            },
                            None => None,
                        }
                    },
                    None => None,
                }
            } else {
                None
            }
        },
        None => None,
    }
}

/// Parses a whole metadata document.
pub fn parse_metadata(s: &str) -> (r: Option<Vec<(String, Vec<(String, String)>)>>)
    ensures
        match r {
            Some(es) => sp_parse_metadata(s@) == Some(entries_view(es@)),
            None => sp_parse_metadata(s@) is None,
        },
{
    let len = s.unicode_len();
    let p = x_ws(s, len, 0);
    if p >= len || s.get_char(p) != '{' {
        return None;
    }
    let q = x_ws(s, len, p + 1);
    if q < len && s.get_char(q) == '}' {
        let t = x_ws(s, len, q + 1);
        if t == len {
            let es: Vec<(String, Vec<(String, String)>)> = Vec::new();
            proof {
                assert(entries_view(es@) =~= Seq::<
                    (Seq<char>, Seq<(Seq<char>, Seq<char>)>),
                >::empty());
            }
            return Some(es);
        } else {
            return None;
        }
    }
    match x_string_token(s, len, p + 1) {
        Some((k, ke)) => {
            if !crate::strutil::str_eq(k.as_str(), "function_info") {
                return None;
            }
            let cp = x_ws(s, len, ke);
            if cp < len && s.get_char(cp) == ':' {
                let op = x_ws(s, len, cp + 1);
                if op < len && s.get_char(op) == '{' {
                    match x_entries(s, len, op + 1, true) {
                        Some((entries, e2)) => {
                            let b = x_ws(s, len, e2);
                            if b < len && s.get_char(b) == '}' {
                                let t = x_ws(s, len, b + 1);
                                if t == len {
                                    Some(entries)
                                } else {
                                    None
                                }
                            } else {
                                None
                            }
                        },
                        None => None,
                    }
                } else {
                    None
                }
            } else {
                None
            }
        },
        None => None,
    }
}

} // verus!
