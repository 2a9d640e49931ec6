//! Pieces shared by all parsers: token tests, identifiers, numerals, and the
//! conversion of positions into the remaining input.

use vstd::prelude::*;
use vstd::string::StringSliceAdditionalSpecFns;
use vstd::utf8::encode_utf8_decode_utf8;

use super::error::PError;
use super::grammar::{decimal_value, is_decimal_numeral, is_quoted_form, kind_at, token_bytes, spec_ident, spec_idents1, spec_idents_tail, text_at, lexeme, lexemes};
use super::token::{kind_name, span_ok, text_of, Token, TokenKind};
use super::{IResult, Input};
use crate::ast::{lemma_view_idents_push, view_idents, Ident};

pub use super::grammar::AffixKind;

verus! {

broadcast use vstd::string::group_string_axioms;

/// The lowest binding power.
pub const MIN_PRECEDENCE: u32 = 0;

/// A token as the lexer makes it: its span is valid, an integer literal is a
/// decimal numeral, and a quoted string has its quotes at both ends.
pub open spec fn token_wf(t: Token) -> bool {
    &&& span_ok(t)
    &&& t.kind == TokenKind::LiteralInteger ==> is_decimal_numeral(token_bytes(t))
    &&& t.kind == TokenKind::QuotedString ==> is_quoted_form(token_bytes(t))
}

pub open spec fn tokens_wf(toks: Seq<Token>) -> bool {
    forall|i: int| 0 <= i < toks.len() ==> token_wf(#[trigger] toks[i])
}

/// An integer literal token whose value fits in `usize`; other tokens always do.
pub open spec fn literal_fits(t: Token) -> bool {
    t.kind == TokenKind::LiteralInteger ==> decimal_value(token_bytes(t)) <= usize::MAX
}

/// Every integer literal among the tokens fits in `usize`. The parsers take either
/// this or that the parse reads no oversize literal (see `reads`).
pub open spec fn literals_fit(toks: Seq<Token>) -> bool {
    forall|i: int| 0 <= i < toks.len() ==> literal_fits(#[trigger] toks[i])
}

/// The model of a parse at a position: the position after it and the model of the tree.
pub open spec fn view_res<T: View>(r: Option<(usize, T)>) -> Option<(int, T::V)> {
    match r {
        Some((q, v)) => Some((q as int, v@)),
        None => None,
    }
}

/// A parse that starts at `p` ends after it, within the tokens.
pub open spec fn advances<T>(r: Option<(usize, T)>, p: int, len: int) -> bool {
    r matches Some((q, _)) ==> p < q <= len
}

/// `rest` is what is left of `i` after some tokens at its start were read.
pub open spec fn is_rest_of(rest: Seq<Token>, i: Seq<Token>) -> bool {
    rest.len() <= i.len() && rest == i.subrange(i.len() - rest.len(), i.len() as int)
}

/// `r` is what the grammar rule gives at the start of `i`: on success the remaining
/// input is what the rule did not read and the value is the rule's tree; otherwise
/// an error.
pub open spec fn result_matches<'a, T: View>(i: Input<'a>, r: IResult<'a, T>, s: Option<(int, T::V)>) -> bool {
    match r {
        Ok((rest, v)) => {
            &&& s == Some(((i@.len() - rest@.len()) as int, v@))
            &&& is_rest_of(rest@, i@)
        },
        Err(_) => s is None,
    }
}

/// A step of a parser that reports its error: on success what the rule gives at `p`,
/// ending after `p` within `len` tokens; on failure the rule fails there and the
/// message is `err`.
pub open spec fn step_matches<T: View>(r: Result<(usize, T), String>, s: Option<(int, T::V)>, err: Seq<char>, p: int, len: int) -> bool {
    match r {
        Ok((q, v)) => s == Some((q as int, v@)) && p < q <= len,
        Err(m) => s is None && m@ == err,
    }
}

/// Turns a parse from the start of `i` into the remaining input and the tree, or the error `message`.
pub fn finish<'a, T: View>(i: Input<'a>, r: Option<(usize, T)>, message: &str) -> (res: IResult<'a, T>)
    requires
        r matches Some((q, _)) ==> q <= i@.len(),
    ensures
        result_matches(i, res, view_res(r)),
        res matches Err(e) ==> e@ == message@,
{
    match r {
        Some((q, v)) => {
            let (_, rest) = i.split_at(q);
            Ok((rest, v))
        },
        None => Err(PError(String::from_str(message))),
    }
}

/// Whether the token at `p` has kind `k`.
pub fn kind_is(toks: &[Token], p: usize, k: TokenKind) -> (b: bool)
    ensures
        b == kind_at(lexemes(toks@), p as int, k),
        toks@.len() == toks.len(),
{
    p < toks.len() && toks[p].kind == k
}

/// Whether two strings hold the same characters.
pub fn str_eq(a: &str, b: &str) -> (r: bool)
    ensures
        r == (a@ == b@),
{
    let x = a.as_bytes();
    let y = b.as_bytes();
    proof {
        encode_utf8_decode_utf8(a@);
        encode_utf8_decode_utf8(b@);
    }
    if x.len() != y.len() {
        return false;
    }
    let mut i: usize = 0;
    while i < x.len()
        invariant
            x@.len() == y@.len(),
            x@ == a.spec_bytes(),
            y@ == b.spec_bytes(),
            0 <= i <= x@.len(),
            forall|j: int| 0 <= j < i ==> x@[j] == y@[j],
        decreases x@.len() - i,
    {
        if x[i] != y[i] {
            return false;
        }
        i = i + 1;
    }
    assert(x@ =~= y@);
    true
}

/// The token at `p` exists and its text is `t`, whatever its kind.
pub open spec fn raw_text_at(toks: Seq<Token>, p: int, t: Seq<char>) -> bool {
    0 <= p < toks.len() && text_of(toks[p]) == t
}

/// Whether the token at `p` has the text `t`.
pub fn raw_text_is(toks: &[Token], p: usize, t: &str) -> (b: bool)
    requires
        tokens_wf(toks@),
    ensures
        b == raw_text_at(toks@, p as int, t@),
        toks@.len() == toks.len(),
{
    if p < toks.len() {
        assert(token_wf(toks@[p as int]));
        str_eq(toks[p].text(), t)
    } else {
        false
    }
}

/// Whether the token at `p` is not a keyword and has the text `t`.
pub fn text_is(toks: &[Token], p: usize, t: &str) -> (b: bool)
    requires
        tokens_wf(toks@),
    ensures
        b == text_at(lexemes(toks@), p as int, t@),
        toks@.len() == toks.len(),
{
    if p < toks.len() && !toks[p].kind.is_keyword() {
        assert(lexemes(toks@)[p as int] == lexeme(toks@[p as int]));
        raw_text_is(toks, p, t)
    } else {
        false
    }
}

/// The value of a decimal numeral of a prefix is at most that of the whole.
proof fn lemma_decimal_prefix_le(s: Seq<u8>, j: int)
    requires
        0 <= j <= s.len(),
    ensures
        decimal_value(s.take(j)) <= decimal_value(s),
    decreases s.len(),
{
    if j < s.len() {
        lemma_decimal_prefix_le(s.drop_last(), j);
        assert(s.drop_last().take(j) =~= s.take(j));
    } else {
        assert(s.take(j) =~= s);
    }
}

/// The value of a decimal numeral.
pub fn parse_decimal(digits: &[u8]) -> (r: usize)
    requires
        is_decimal_numeral(digits@),
        decimal_value(digits@) <= usize::MAX,
    ensures
        r == decimal_value(digits@),
{
    let n = digits.len();
    let mut acc: usize = 0;
    let mut i: usize = 0;
    assert(digits@.take(0) =~= Seq::<u8>::empty());
    while i < n
        invariant
            n == digits@.len(),
            0 <= i <= n,
            is_decimal_numeral(digits@),
            decimal_value(digits@) <= usize::MAX,
            acc == decimal_value(digits@.take(i as int)),
        decreases n - i,
    {
        let c = digits[i];
        assert(48 <= digits@[i as int] <= 57);
        let d = (c - 48) as usize;
        proof {
            assert(digits@.take(i + 1).drop_last() =~= digits@.take(i as int));
            assert(digits@.take(i + 1).last() == c);
            lemma_decimal_prefix_le(digits@, i + 1);
        }
        acc = acc * 10 + d;
        i = i + 1;
    }
    assert(digits@.take(n as int) =~= digits@);
    acc
}

/// Whether a decimal numeral has a value that fits in `usize`.
pub fn decimal_fits(digits: &[u8]) -> (r: bool)
    requires
        is_decimal_numeral(digits@),
    ensures
        r == (decimal_value(digits@) <= usize::MAX),
{
    let n = digits.len();
    let mut acc: usize = 0;
    let mut i: usize = 0;
    assert(digits@.take(0) =~= Seq::<u8>::empty());
    while i < n
        invariant
            n == digits@.len(),
            0 <= i <= n,
            is_decimal_numeral(digits@),
            acc == decimal_value(digits@.take(i as int)),
        decreases n - i,
    {
        let c = digits[i];
        assert(48 <= digits@[i as int] <= 57);
        let d = (c - 48) as usize;
        proof {
            assert(digits@.take(i + 1).drop_last() =~= digits@.take(i as int));
            assert(digits@.take(i + 1).last() == c);
            lemma_decimal_prefix_le(digits@, i + 1);
        }
        let next = match acc.checked_mul(10) {
            Some(m) => m.checked_add(d),
            None => None,
        };
        match next {
            Some(v) => {
                acc = v;
            },
            None => {
                return false;
            },
        }
        i = i + 1;
    }
    assert(digits@.take(n as int) =~= digits@);
    true
}

/// Whether every integer literal among the tokens fits in `usize`.
pub fn all_literals_fit(toks: &[Token]) -> (r: bool)
    requires
        tokens_wf(toks@),
    ensures
        r == literals_fit(toks@),
{
    let mut k: usize = 0;
    while k < toks.len()
        invariant
            tokens_wf(toks@),
            0 <= k <= toks@.len(),
            forall|j: int| 0 <= j < k ==> literal_fits(#[trigger] toks@[j]),
        decreases toks@.len() - k,
    {
        if toks[k].kind == TokenKind::LiteralInteger {
            assert(token_wf(toks@[k as int]));
            if !decimal_fits(toks[k].text().as_bytes()) {
                assert(!literal_fits(toks@[k as int]));
                return false;
            }
        }
        k = k + 1;
    }
    true
}

/// An identifier at position `p`.
pub fn parse_ident(toks: &[Token], p: usize) -> (r: Option<(usize, Ident)>)
    requires
        tokens_wf(toks@),
    ensures
        view_res(r) == spec_ident(lexemes(toks@), p as int),
        advances(r, p as int, toks@.len() as int),
        toks@.len() == toks.len(),
{
    if kind_is(toks, p, TokenKind::Ident) {
        assert(token_wf(toks@[p as int]));
        let value = toks[p].text().to_owned();
        Some((p + 1, Ident { value }))
    } else if kind_is(toks, p, TokenKind::QuotedString) {
        assert(token_wf(toks@[p as int]));
        let t = &toks[p];
        proof {
            let b = t.source.spec_bytes();
            let bytes = token_bytes(*t);
            assert(bytes[0] == b[t.span.start as int]);
            assert(bytes[bytes.len() - 1] == b[t.span.end - 1]);
        }
        let value = t.unquoted_text().to_owned();
        Some((p + 1, Ident { value }))
    } else {
        None
    }
}

/// One or more identifiers separated by `,`.
pub fn parse_idents1(toks: &[Token], p: usize) -> (r: Option<(usize, Vec<Ident>)>)
    requires
        tokens_wf(toks@),
    ensures
        match r {
            Some((q, v)) => spec_idents1(lexemes(toks@), p as int) == Some((q as int, view_idents(v@))),
            None => spec_idents1(lexemes(toks@), p as int) is None,
        },
        advances(r, p as int, toks@.len() as int),
{
    let (mut q, first) = match parse_ident(toks, p) {
        Some(x) => x,
        None => return None,
    };
    let mut v: Vec<Ident> = Vec::new();
    proof {
        lemma_view_idents_push(v@, first);
    }
    v.push(first);
    assert(view_idents(v@) =~= seq![first@]);
    loop
        invariant
            tokens_wf(toks@),
            p < q <= toks.len(),
            spec_idents1(lexemes(toks@), p as int) == Some(
                (spec_idents_tail(lexemes(toks@), q as int).0, view_idents(v@) + spec_idents_tail(lexemes(toks@), q as int).1),
            ),
        decreases toks@.len() - q,
    {
        let sep = text_is(toks, q, ",");
        if !sep {
            assert(view_idents(v@) + seq![] =~= view_idents(v@));
            return Some((q, v));
        }
        assert(q < toks@.len());
        match parse_ident(toks, q + 1) {
            Some((r, x)) => {
                proof {
                    lemma_view_idents_push(v@, x);
                    let (e, rest) = spec_idents_tail(lexemes(toks@), r as int);
                    assert(view_idents(v@) + (seq![x@] + rest) =~= view_idents(v@).push(x@) + rest);
                }
                v.push(x);
                q = r;
            },
            None => {
                assert(view_idents(v@) + seq![] =~= view_idents(v@));
                return Some((q, v));
            },
        }
    }
}

/// The token at the start of `i`, when it has the text `text`.
pub fn match_text<'a>(i: Input<'a>, text: &str) -> (r: IResult<'a, &'a Token<'a>>)
    requires
        tokens_wf(i@),
    ensures
        match r {
            Ok((rest, t)) => raw_text_at(i@, 0, text@) && *t == i@[0] && rest@ == i@.drop_first(),
            Err(e) => !raw_text_at(i@, 0, text@) && e@ == "text "@ + text@ + " does not match"@,
        },
{
    if raw_text_is(i, 0, text) {
        let (_, rest) = i.split_at(1);
        Ok((rest, &i[0]))
    } else {
        let mut m = String::from_str("text ");
        m.append(text);
        m.append(" does not match");
        Err(PError(m))
    }
}

/// The token at the start of `i`, when it has kind `kind`.
pub fn match_token<'a>(i: Input<'a>, kind: TokenKind) -> (r: IResult<'a, &'a Token<'a>>)
    ensures
        match r {
            Ok((rest, t)) => kind_at(lexemes(i@), 0, kind) && *t == i@[0] && rest@ == i@.drop_first(),
            Err(e) => !kind_at(lexemes(i@), 0, kind) && e@ == "token kind "@ + kind_name(kind) + " does not match"@,
        },
{
    if kind_is(i, 0, kind) {
        let (_, rest) = i.split_at(1);
        Ok((rest, &i[0]))
    } else {
        let mut m = String::from_str("token kind ");
        m.append(kind.name());
        m.append(" does not match");
        Err(PError(m))
    }
}

/// An identifier at the start of `i`.
pub fn ident<'a>(i: Input<'a>) -> (r: IResult<'a, Ident>)
    requires
        tokens_wf(i@),
    ensures
        result_matches(i, r, spec_ident(lexemes(i@), 0)),
        r matches Err(e) ==> e@ == "ident should not be a keyword"@,
{
    let res = parse_ident(i, 0);
    finish(i, res, "ident should not be a keyword")
}

} // verus!

verus! {

/// A parser for list items: it can be called on any valid input, and what it
/// leaves is the rest of its input.
pub open spec fn item_parser<'a, T, F: Fn(Input<'a>) -> IResult<'a, T>>(item: F) -> bool {
    &&& forall|j: Input<'a>| tokens_wf(j@) && literals_fit(j@) ==> call_requires(item, (j,))
    &&& forall|j: Input<'a>, out: IResult<'a, T>|
        #[trigger] call_ensures(item, (j,), out) ==> (out matches Ok((rest, _)) ==> is_rest_of(rest@, j@))
}

/// Items read one after the other: item `k` was read from `ins[k]` and left
/// `outs[k]`, and between two items stands a `,`.
pub open spec fn comma_steps<'a, T, F: Fn(Input<'a>) -> IResult<'a, T>>(
    item: F,
    ins: Seq<Input<'a>>,
    outs: Seq<Input<'a>>,
    v: Seq<T>,
) -> bool {
    &&& ins.len() == v.len()
    &&& outs.len() == v.len()
    &&& forall|k: int|
        0 <= k < v.len() ==> call_ensures(item, (#[trigger] ins[k],), Ok::<(Input<'a>, T), PError>((outs[k], v[k])))
    &&& forall|k: int| 0 <= k < v.len() - 1 ==> raw_text_at((#[trigger] outs[k])@, 0, ","@)
    &&& forall|k: int| 0 <= k < v.len() - 1 ==> (#[trigger] ins[k + 1])@ == outs[k]@.drop_first()
}

/// The list stops at `rest`: no `,` follows, or the item parser failed after it.
pub open spec fn comma_list_stops<'a, T, F: Fn(Input<'a>) -> IResult<'a, T>>(item: F, rest: Input<'a>) -> bool {
    raw_text_at(rest@, 0, ","@) ==> exists|j: Input<'a>, e: PError|
        j@ == rest@.drop_first() && #[trigger] call_ensures(item, (j,), Err::<(Input<'a>, T), PError>(e))
}

/// One more item after a `,` extends the steps of a list.
proof fn lemma_comma_steps_push<'a, T, F: Fn(Input<'a>) -> IResult<'a, T>>(
    item: F,
    ins: Seq<Input<'a>>,
    outs: Seq<Input<'a>>,
    v: Seq<T>,
    after: Input<'a>,
    rest: Input<'a>,
    o: T,
)
    requires
        comma_steps(item, ins, outs, v),
        v.len() >= 1,
        raw_text_at(outs.last()@, 0, ","@),
        after@ == outs.last()@.drop_first(),
        call_ensures(item, (after,), Ok::<(Input<'a>, T), PError>((rest, o))),
    ensures
        comma_steps(item, ins.push(after), outs.push(rest), v.push(o)),
{
    let ins2 = ins.push(after);
    let outs2 = outs.push(rest);
    let v2 = v.push(o);
    assert forall|k: int| 0 <= k < v2.len() implies call_ensures(
        item,
        (#[trigger] ins2[k],),
        Ok::<(Input<'a>, T), PError>((outs2[k], v2[k])),
    ) by {
        if k < v.len() {
            assert(ins2[k] == ins[k]);
        }
    }
    assert forall|k: int| 0 <= k < v2.len() - 1 implies raw_text_at((#[trigger] outs2[k])@, 0, ","@) by {
        assert(outs2[k] == outs[k]);
        if k == v.len() - 1 {
            assert(outs[k] == outs.last());
        }
    }
    assert forall|k: int| 0 <= k < v2.len() - 1 implies (#[trigger] ins2[k + 1])@ == outs2[k]@.drop_first() by {
        assert(outs2[k] == outs[k]);
        if k < v.len() - 1 {
            assert(ins2[k + 1] == ins[k + 1]);
        }
    }
}

/// Items read by `item` from `first` on: after each item a `,` and a further
/// item, for as long as both are there.
fn comma_separated_tail<'a, T, F: Fn(Input<'a>) -> IResult<'a, T>>(
    item: F,
    first: Input<'a>,
    rest0: Input<'a>,
    v0: Vec<T>,
    Ghost(ins0): Ghost<Seq<Input<'a>>>,
    Ghost(outs0): Ghost<Seq<Input<'a>>>,
) -> (r: (Input<'a>, Vec<T>))
    requires
        item_parser(item),
        tokens_wf(first@),
        literals_fit(first@),
        is_rest_of(rest0@, first@),
        v0@.len() >= 1,
        comma_steps(item, ins0, outs0, v0@),
        ins0[0] == first,
        outs0.last() == rest0,
    ensures
        r.1@.len() >= 1,
        is_rest_of(r.0@, first@),
        comma_list_stops(item, r.0),
        exists|ins: Seq<Input<'a>>, outs: Seq<Input<'a>>|
            #[trigger] comma_steps(item, ins, outs, r.1@) && ins[0] == first && outs.last() == r.0,
{
    let mut rest = rest0;
    let mut v = v0;
    let ghost mut ins = ins0;
    let ghost mut outs = outs0;
    loop
        invariant
            item_parser(item),
            tokens_wf(first@),
            literals_fit(first@),
            is_rest_of(rest@, first@),
            v@.len() >= 1,
            comma_steps(item, ins, outs, v@),
            ins[0] == first,
            outs.last() == rest,
        ensures
            v@.len() >= 1,
            is_rest_of(rest@, first@),
            comma_list_stops(item, rest),
            comma_steps(item, ins, outs, v@),
            ins[0] == first,
            outs.last() == rest,
        decreases rest@.len(),
    {
        assert(tokens_wf(rest@) && literals_fit(rest@)) by {
            assert forall|k: int| 0 <= k < rest@.len() implies token_wf(#[trigger] rest@[k]) && literal_fits(
                rest@[k],
            ) by {
                assert(rest@[k] == first@[first@.len() - rest@.len() + k]);
            }
        }
        if !raw_text_is(rest, 0, ",") {
            break;
        }
        assert(raw_text_at(rest@, 0, ","@));
        let (_, after) = rest.split_at(1);
        assert(after@ == rest@.drop_first());
        assert(after@ =~= first@.subrange(first@.len() - after@.len(), first@.len() as int));
        assert(tokens_wf(after@) && literals_fit(after@)) by {
            assert forall|k: int| 0 <= k < after@.len() implies token_wf(#[trigger] after@[k]) && literal_fits(
                after@[k],
            ) by {
                assert(after@[k] == first@[first@.len() - after@.len() + k]);
            }
        }
        match item(after) {
            Ok((r2, o)) => {
                proof {
                    let out = Ok::<(Input<'a>, T), PError>((r2, o));
                    assert(call_ensures(item, (after,), out));
                    assert(is_rest_of(r2@, after@));
                    assert(r2@ =~= first@.subrange(first@.len() - r2@.len(), first@.len() as int));
                }
                let ghost old_v = v@;
                let ghost old_ins = ins;
                let ghost old_outs = outs;
                v.push(o);
                proof {
                    ins = ins.push(after);
                    outs = outs.push(r2);
                    lemma_comma_steps_push(item, old_ins, old_outs, old_v, after, r2, o);
                    assert(v@ == old_v.push(o));
                }
                rest = r2;
            },
            Err(e) => {
                proof {
                    assert(call_ensures(item, (after,), Err::<(Input<'a>, T), PError>(e)));
                }
                break;
            },
        }
    }
    let r = (rest, v);
    assert(comma_steps(item, ins, outs, r.1@) && ins[0] == first && outs.last() == r.0);
    r
}

/// One or more items read by `item`, separated by `,`. The list stops before a
/// `,` that no item follows. When the first item fails, its error is returned.
pub fn comma_separated_list1<'a, T, F: Fn(Input<'a>) -> IResult<'a, T>>(i: Input<'a>, item: F) -> (r: IResult<'a, Vec<T>>)
    requires
        item_parser(item),
        tokens_wf(i@),
        literals_fit(i@),
    ensures
        match r {
            Ok((rest, v)) => {
                &&& v@.len() >= 1
                &&& is_rest_of(rest@, i@)
                &&& comma_list_stops(item, rest)
                &&& exists|ins: Seq<Input<'a>>, outs: Seq<Input<'a>>|
                    #[trigger] comma_steps(item, ins, outs, v@) && ins[0] == i && outs.last() == rest
            },
            Err(e) => call_ensures(item, (i,), Err::<(Input<'a>, T), PError>(e)),
        },
{
    match item(i) {
        Ok((rest, first)) => {
            proof {
                assert(call_ensures(item, (i,), Ok::<(Input<'a>, T), PError>((rest, first))));
            }
            let v = vec![first];
            let ghost ins = seq![i];
            let ghost outs = seq![rest];
            let (rest, v) = comma_separated_tail(item, i, rest, v, Ghost(ins), Ghost(outs));
            proof {
                let (ins2, outs2) = choose|ins2: Seq<Input<'a>>, outs2: Seq<Input<'a>>|
                    #[trigger] comma_steps(item, ins2, outs2, v@) && ins2[0] == i && outs2.last() == rest;
                assert(comma_steps(item, ins2, outs2, v@) && ins2[0] == i && outs2.last() == rest);
            }
            Ok((rest, v))
        },
        Err(e) => Err(e),
    }
}

/// Zero or more items read by `item`, separated by `,`: none when the first item
/// fails, and then nothing is read.
pub fn comma_separated_list0<'a, T, F: Fn(Input<'a>) -> IResult<'a, T>>(i: Input<'a>, item: F) -> (r: IResult<'a, Vec<T>>)
    requires
        item_parser(item),
        tokens_wf(i@),
        literals_fit(i@),
    ensures
        match r {
            Ok((rest, v)) => {
                &&& is_rest_of(rest@, i@)
                &&& v@.len() == 0 ==> rest == i && exists|e: PError|
                    call_ensures(item, (i,), Err::<(Input<'a>, T), PError>(e))
                &&& v@.len() >= 1 ==> comma_list_stops(item, rest) && exists|ins: Seq<Input<'a>>, outs: Seq<Input<'a>>|
                    #[trigger] comma_steps(item, ins, outs, v@) && ins[0] == i && outs.last() == rest
            },
            Err(_) => false,
        },
{
    match item(i) {
        Ok((rest, first)) => {
            proof {
                assert(call_ensures(item, (i,), Ok::<(Input<'a>, T), PError>((rest, first))));
            }
            let v = vec![first];
            let ghost ins = seq![i];
            let ghost outs = seq![rest];
            let (rest, v) = comma_separated_tail(item, i, rest, v, Ghost(ins), Ghost(outs));
            proof {
                let (ins2, outs2) = choose|ins2: Seq<Input<'a>>, outs2: Seq<Input<'a>>|
                    #[trigger] comma_steps(item, ins2, outs2, v@) && ins2[0] == i && outs2.last() == rest;
                assert(comma_steps(item, ins2, outs2, v@) && ins2[0] == i && outs2.last() == rest);
            }
            Ok((rest, v))
        },
        Err(e) => {
            proof {
                assert(call_ensures(item, (i,), Err::<(Input<'a>, T), PError>(e)));
                assert(i@ =~= i@.subrange(0, i@.len() as int));
            }
            Ok((i, Vec::new()))
        },
    }
}

} // verus!
