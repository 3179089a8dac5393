//! The CSS transform-list grammar: a text of `matrix(...)` and
//! `matrix3d(...)` calls, each argument the text of a number.
//!
//! The text is cut at every `)`. Each piece before a `)`, trimmed, is either
//! empty and skipped, or one call without its closing parenthesis. A
//! `matrix` call takes 6 arguments, a `matrix3d` call 16, separated by commas
//! and trimmed. Any other function name, argument count or argument text is
//! an error that names the offending piece, and the first such piece decides.
//! Text after the last `)` must be blank: anything else is a call that no
//! parenthesis closes, and an error that names that text.

use vstd::prelude::*;

use crate::error::MatrixError;
use crate::number::{is_number_text, is_number_text_in};
use crate::text::{
    chars_of, find_in, is_white_space, lemma_find_char, lemma_find_char_bounds,
    lemma_split_all_nonempty, lemma_trim_start, split_all, trim, trim_bounds,
};

verus! {

/// The two transform functions of the grammar.
#[derive(Clone, Copy, Debug, PartialEq, Eq, Structural)]
pub enum TransformKind {
    /// `matrix(a, b, c, d, e, f)`
    Matrix,
    /// `matrix3d(m11, ..., m44)`
    Matrix3d,
}

/// One call of the list: its function and its argument texts, trimmed.
#[derive(Clone, Debug)]
pub struct TransformFunction {
    pub kind: TransformKind,
    pub args: Vec<String>,
}

/// The model of a call: its function and the views of its argument texts.
pub type FunctionModel = (TransformKind, Seq<Seq<char>>);

/// The model of a parse error: the offending piece and whether its function
/// name is unknown (an unclosed call counts as malformed, not unknown).
pub type ErrorModel = (Seq<char>, bool);

impl View for TransformFunction {
    type V = FunctionModel;

    open spec fn view(&self) -> FunctionModel {
        (self.kind, self.args@.map_values(|a: String| a@))
    }
}

/// The number of arguments that `kind` takes.
pub open spec fn arity(kind: TransformKind) -> nat {
    match kind {
        TransformKind::Matrix => 6,
        TransformKind::Matrix3d => 16,
    }
}

pub open spec fn matrix_prefix() -> Seq<char> {
    seq!['m', 'a', 't', 'r', 'i', 'x', '(']
}

pub open spec fn matrix3d_prefix() -> Seq<char> {
    seq!['m', 'a', 't', 'r', 'i', 'x', '3', 'd', '(']
}

pub open spec fn has_prefix(s: Seq<char>, p: Seq<char>) -> bool {
    s.len() >= p.len() && s.take(p.len() as int) == p
}

/// The argument texts of an argument list, when there are `count` of them
/// and each is a number.
pub open spec fn arguments(inner: Seq<char>, count: nat) -> Option<Seq<Seq<char>>> {
    let parts = split_all(inner, ',');
    if parts.len() == count && forall|i: int|
        0 <= i < parts.len() ==> is_number_text(trim(#[trigger] parts[i])) {
        Some(parts.map_values(|p: Seq<char>| trim(p)))
    } else {
        None
    }
}

/// A call of the list, given as its trimmed, non-empty piece (the call
/// without its closing parenthesis).
pub open spec fn function_model(piece: Seq<char>) -> Result<FunctionModel, ErrorModel> {
    let segment = piece.push(')');
    if has_prefix(piece, matrix3d_prefix()) {
        match arguments(piece.skip(9), 16) {
            Some(a) => Ok((TransformKind::Matrix3d, a)),
            None => Err((segment, false)),
        }
    } else if has_prefix(piece, matrix_prefix()) {
        match arguments(piece.skip(7), 6) {
            Some(a) => Ok((TransformKind::Matrix, a)),
            None => Err((segment, false)),
        }
    } else {
        Err((segment, true))
    }
}

/// The calls of a sequence of pieces, in order, skipping the pieces that
/// trim to nothing; or the error of the first piece that is no call.
pub open spec fn functions_of(pieces: Seq<Seq<char>>) -> Result<Seq<FunctionModel>, ErrorModel>
    decreases pieces.len(),
{
    if pieces.len() == 0 {
        Ok(Seq::empty())
    } else {
        match functions_of(pieces.drop_last()) {
            Err(e) => Err(e),
            Ok(fs) => {
                let piece = trim(pieces.last());
                if piece.len() == 0 {
                    Ok(fs)
                } else {
                    match function_model(piece) {
                        Ok(f) => Ok(fs.push(f)),
                        Err(e) => Err(e),
                    }
                }
            },
        }
    }
}

/// The calls of a transform list: those of the pieces that a `)` closes,
/// then an error if the text after the last `)` is not blank.
pub open spec fn transform_list(s: Seq<char>) -> Result<Seq<FunctionModel>, ErrorModel> {
    let pieces = split_all(s, ')');
    match functions_of(pieces.drop_last()) {
        Err(e) => Err(e),
        Ok(fs) => {
            let rest = trim(pieces.last());
            if rest.len() == 0 {
                Ok(fs)
            } else {
                Err((rest, false))
            }
        },
    }
}

/// What a parse returns, against its model.
pub open spec fn parse_matches(
    r: Result<Vec<TransformFunction>, MatrixError>,
    m: Result<Seq<FunctionModel>, ErrorModel>,
) -> bool {
    match m {
        Ok(fs) => r matches Ok(v) && v@.map_values(|f: TransformFunction| f@) == fs,
        Err(e) => r matches Err(MatrixError::ParseError { segment, unknown_function })
            && segment@ == e.0 && unknown_function == e.1,
    }
}

/// An error in a prefix of the pieces is the error of them all.
proof fn lemma_error_persists(pieces: Seq<Seq<char>>, m: int)
    requires
        0 <= m <= pieces.len(),
        functions_of(pieces.take(m)) is Err,
    ensures
        functions_of(pieces) == functions_of(pieces.take(m)),
    decreases pieces.len() - m,
{
    if m < pieces.len() {
        let shorter = pieces.drop_last();
        assert(shorter.take(m) =~= pieces.take(m));
        lemma_error_persists(shorter, m);
    } else {
        assert(pieces.take(m) =~= pieces);
    }
}

/// Whether `[lo, hi)` of `cs` starts with `p`.
fn has_prefix_in(cs: &Vec<char>, lo: usize, hi: usize, p: &[char]) -> (r: bool)
    requires
        lo <= hi <= cs.len(),
    ensures
        r == has_prefix(cs@.subrange(lo as int, hi as int), p@),
{
    let ghost s = cs@.subrange(lo as int, hi as int);
    if hi - lo < p.len() {
        return false;
    }
    let mut i: usize = 0;
    while i < p.len()
        invariant
            hi - lo >= p@.len(),
            lo <= hi <= cs.len(),
            s == cs@.subrange(lo as int, hi as int),
            i <= p.len(),
            forall|j: int| 0 <= j < i ==> s[j] == p@[j],
        decreases p.len() - i,
    {
        if cs[lo + i] != p[i] {
            assert(s.take(p@.len() as int)[i as int] != p@[i as int]);
            return false;
        }
        i = i + 1;
    }
    assert(s.take(p@.len() as int) =~= p@);
    true
}

/// The argument texts of the list `[lo, hi)`, when there are `count` of
/// them and each is a number.
fn parse_arguments(s: &str, cs: &Vec<char>, lo: usize, hi: usize, count: usize) -> (r: Option<
    Vec<String>,
>)
    requires
        cs@ == s@,
        lo <= hi <= cs.len(),
    ensures
        match arguments(cs@.subrange(lo as int, hi as int), count as nat) {
            Some(a) => r matches Some(v) && v@.map_values(|x: String| x@) == a,
            None => r is None,
        },
{
    let ghost inner = cs@.subrange(lo as int, hi as int);
    let mut out: Vec<String> = Vec::new();
    let mut pos = lo;
    let ghost mut done: Seq<Seq<char>> = Seq::empty();
    assert(cs@.subrange(lo as int, hi as int) =~= inner);
    loop
        invariant_except_break
            split_all(inner, ',') == done + split_all(cs@.subrange(pos as int, hi as int), ','),
        invariant
            cs@ == s@,
            lo <= pos <= hi <= cs.len(),
            inner == cs@.subrange(lo as int, hi as int),
            forall|i: int| 0 <= i < done.len() ==> is_number_text(trim(#[trigger] done[i])),
            out@.map_values(|x: String| x@) == done.map_values(|p: Seq<char>| trim(p)),
        ensures
            split_all(inner, ',') == done,
            forall|i: int| 0 <= i < done.len() ==> is_number_text(trim(#[trigger] done[i])),
            out@.map_values(|x: String| x@) == done.map_values(|p: Seq<char>| trim(p)),
        decreases hi - pos,
    {
        let ghost rest = cs@.subrange(pos as int, hi as int);
        let k = find_in(cs, pos, hi, ',');
        let ghost piece = cs@.subrange(pos as int, k as int);
        proof {
            if k == hi {
                assert(rest =~= piece);
                assert(split_all(rest, ',') == seq![piece]);
            } else {
                assert(rest.take(k - pos) =~= piece);
                assert(rest.skip(k - pos + 1) =~= cs@.subrange(k + 1, hi as int));
                assert(split_all(rest, ',') == seq![piece] + split_all(
                    cs@.subrange(k + 1, hi as int),
                    ',',
                ));
            }
        }
        let (a, b) = trim_bounds(cs, pos, k);
        if !is_number_text_in(cs, a, b) {
            proof {
                let parts = split_all(inner, ',');
                assert(parts[done.len() as int] == piece);
                assert(!is_number_text(trim(parts[done.len() as int])));
                assert(arguments(inner, count as nat) is None);
            }
            return None;
        }
        let arg = String::from_str(s.substring_char(a, b));
        let ghost before = out@;
        out.push(arg);
        proof {
            assert(out@.map_values(|x: String| x@) =~= before.map_values(|x: String| x@).push(
                trim(piece),
            ));
            let old_done = done;
            done = done.push(piece);
            assert(done.map_values(|p: Seq<char>| trim(p)) =~= old_done.map_values(
                |p: Seq<char>| trim(p),
            ).push(trim(piece)));
            if k == hi {
                assert(split_all(inner, ',') =~= done);
            } else {
                assert(split_all(inner, ',') =~= done + split_all(
                    cs@.subrange(k + 1, hi as int),
                    ',',
                ));
            }
        }
        if k == hi {
            break ;
        }
        pos = k + 1;
    }
    if out.len() == count {
        Some(out)
    } else {
        None
    }
}

/// One call, given as its trimmed, non-empty piece `[lo, hi)`.
fn parse_transform(s: &str, cs: &Vec<char>, lo: usize, hi: usize) -> (r: Result<
    TransformFunction,
    MatrixError,
>)
    requires
        cs@ == s@,
        lo <= hi <= cs.len(),
    ensures
        match function_model(cs@.subrange(lo as int, hi as int)) {
            Ok(f) => r matches Ok(t) && t@ == f,
            Err(e) => r matches Err(MatrixError::ParseError { segment, unknown_function })
                && segment@ == e.0 && unknown_function == e.1,
        },
{
    let ghost piece = cs@.subrange(lo as int, hi as int);
    let matrix3d = ['m', 'a', 't', 'r', 'i', 'x', '3', 'd', '('];
    let matrix = ['m', 'a', 't', 'r', 'i', 'x', '('];
    assert(matrix3d@ =~= matrix3d_prefix());
    assert(matrix@ =~= matrix_prefix());
    let (kind, skip, count) = if has_prefix_in(cs, lo, hi, &matrix3d) {
        (TransformKind::Matrix3d, 9usize, 16usize)
    } else if has_prefix_in(cs, lo, hi, &matrix) {
        (TransformKind::Matrix, 7usize, 6usize)
    } else {
        (TransformKind::Matrix, 0usize, 0usize)
    };
    if count != 0 {
        assert(piece.skip(skip as int) =~= cs@.subrange(lo + skip, hi as int));
        match parse_arguments(s, cs, lo + skip, hi, count) {
            Some(args) => {
                return Ok(TransformFunction { kind, args });
            },
            None => {},
        }
    }
    let mut segment = String::from_str(s.substring_char(lo, hi));
    segment.append(")");
    proof {
        reveal_strlit(")");
        assert(segment@ =~= piece.push(')'));
    }
    Err(MatrixError::ParseError { segment, unknown_function: count == 0 })
}

/// Reads a CSS transform list into its calls, in order.
///
/// A list that is empty or only white space has no calls.
pub fn parse_transform_list(s: &str) -> (r: Result<Vec<TransformFunction>, MatrixError>)
    ensures
        parse_matches(r, transform_list(s@)),
{
    let cs = chars_of(s);
    let n = cs.len();
    let mut out: Vec<TransformFunction> = Vec::new();
    let mut pos: usize = 0;
    let ghost all = split_all(s@, ')');
    let ghost mut done: Seq<Seq<char>> = Seq::empty();
    assert(cs@.subrange(0, n as int) =~= s@);
    assert(all =~= done + all);
    assert(out@.map_values(|f: TransformFunction| f@) =~= Seq::<FunctionModel>::empty());
    assert(functions_of(done) == Ok::<Seq<FunctionModel>, ErrorModel>(Seq::empty()));
    loop
        invariant_except_break
            all == done + split_all(cs@.subrange(pos as int, n as int), ')'),
        invariant
            cs@ == s@,
            n == cs.len(),
            pos <= n,
            all == split_all(s@, ')'),
            functions_of(done) == Ok::<Seq<FunctionModel>, ErrorModel>(
                out@.map_values(|f: TransformFunction| f@),
            ),
        ensures
            pos <= n,
            all == done.push(cs@.subrange(pos as int, n as int)),
            functions_of(done) == Ok::<Seq<FunctionModel>, ErrorModel>(
                out@.map_values(|f: TransformFunction| f@),
            ),
        decreases n - pos,
    {
        let ghost rest = cs@.subrange(pos as int, n as int);
        let k = find_in(&cs, pos, n, ')');
        if k == n {
            proof {
                assert(split_all(rest, ')') == seq![rest]);
                assert(all =~= done.push(rest));
            }
            break ;
        }
        let ghost piece = cs@.subrange(pos as int, k as int);
        let ghost after = split_all(cs@.subrange(k + 1, n as int), ')');
        proof {
            assert(rest.take(k - pos) =~= piece);
            assert(rest.skip(k - pos + 1) =~= cs@.subrange(k + 1, n as int));
            assert(split_all(rest, ')') == seq![piece] + after);
        }
        let ghost old_done = done;
        proof {
            done = done.push(piece);
            assert(done.drop_last() =~= old_done);
            assert(all =~= done + after);
        }
        let (a, b) = trim_bounds(&cs, pos, k);
        if a < b {
            match parse_transform(s, &cs, a, b) {
                Ok(f) => {
                    let ghost before = out@;
                    out.push(f);
                    assert(out@.map_values(|f: TransformFunction| f@) =~= before.map_values(
                        |f: TransformFunction| f@,
                    ).push(f@));
                },
                Err(e) => {
                    proof {
                        lemma_split_all_nonempty(cs@.subrange(k + 1, n as int), ')');
                        let closed = all.drop_last();
                        assert(closed.take(done.len() as int) =~= done);
                        lemma_error_persists(closed, done.len() as int);
                    }
                    return Err(e);
                },
            }
        }
        pos = k + 1;
    }
    let (a, b) = trim_bounds(&cs, pos, n);
    proof {
        assert(all.drop_last() =~= done);
    }
    if a < b {
        let segment = String::from_str(s.substring_char(a, b));
        return Err(MatrixError::ParseError { segment, unknown_function: false });
    }
    Ok(out)
}

/// A transform list of white space alone, the empty one included, has no
/// calls: it stands for the identity.
pub proof fn lemma_blank_list_has_no_calls(s: Seq<char>)
    requires
        forall|i: int| 0 <= i < s.len() ==> is_white_space(#[trigger] s[i]),
    ensures
        transform_list(s) == Ok::<Seq<FunctionModel>, ErrorModel>(Seq::empty()),
{
    lemma_find_char(s, ')', s.len() as int);
    lemma_find_char_bounds(s, ')');
    assert(split_all(s, ')') == seq![s]);
    lemma_trim_start(s, s.len() as int);
    assert(trim(s) =~= Seq::<char>::empty());
    assert(seq![s].drop_last() =~= Seq::<Seq<char>>::empty());
    assert(functions_of(Seq::<Seq<char>>::empty()) == Ok::<Seq<FunctionModel>, ErrorModel>(
        Seq::empty(),
    ));
}

/// A call with as many arguments as its function takes, each the text of
/// a number.
pub open spec fn well_formed_call(f: FunctionModel) -> bool {
    &&& f.1.len() == arity(f.0)
    &&& forall|j: int| 0 <= j < f.1.len() ==> is_number_text(#[trigger] f.1[j])
}

proof fn lemma_function_model_well_formed(piece: Seq<char>)
    ensures
        function_model(piece) matches Ok(f) ==> well_formed_call(f),
{
    let inner = if has_prefix(piece, matrix3d_prefix()) {
        piece.skip(9)
    } else {
        piece.skip(7)
    };
    let parts = split_all(inner, ',');
    if let Ok(f) = function_model(piece) {
        assert(f.1 == parts.map_values(|p: Seq<char>| trim(p)));
        assert forall|j: int| 0 <= j < f.1.len() implies is_number_text(#[trigger] f.1[j]) by {
            assert(f.1[j] == trim(parts[j]));
        }
    }
}

proof fn lemma_functions_well_formed(pieces: Seq<Seq<char>>)
    ensures
        functions_of(pieces) matches Ok(fs) ==> forall|i: int|
            0 <= i < fs.len() ==> well_formed_call(#[trigger] fs[i]),
    decreases pieces.len(),
{
    if pieces.len() > 0 {
        lemma_functions_well_formed(pieces.drop_last());
        lemma_function_model_well_formed(trim(pieces.last()));
    }
}

/// Every call read from a transform list has exactly the 6 or 16 arguments
/// of its function, each the text of a number: the arguments always make a
/// valid coefficient list.
pub proof fn lemma_calls_are_well_formed(s: Seq<char>)
    ensures
        transform_list(s) matches Ok(fs) ==> forall|i: int|
            0 <= i < fs.len() ==> well_formed_call(#[trigger] fs[i]),
{
    lemma_functions_well_formed(split_all(s, ')').drop_last());
}

} // verus!
