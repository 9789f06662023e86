//! The point-list decoder of the geometry layer: whitespace-separated
//! `latitude,longitude` tokens, each half a valid floating-point text.
//! Textual `latitude,longitude` maps to the geometry convention
//! `(x, y) = (longitude, latitude)`.

use vstd::prelude::*;
use crate::deserialise_error::{DeserialiseError, DeserialiseErrorV};
use crate::text::{is_float_text, sp_is_float, sp_split_char, sp_ws_tokens, split_char, ws_tokens};
use crate::utilities::sp_res;

verus! {

/// A geographic point; both coordinates are kept as their validated
/// floating-point texts, with `x` the longitude and `y` the latitude.
#[derive(Debug, Clone, PartialEq)]
pub struct Point {
    pub x: String,
    pub y: String,
}

/// Spec-level mirror of [`Point`].
pub struct PointV {
    pub x: Seq<char>,
    pub y: Seq<char>,
}

impl View for Point {
    type V = PointV;

    open spec fn view(&self) -> PointV {
        PointV { x: self.x@, y: self.y@ }
    }
}

impl DeepView for Point {
    type V = PointV;

    open spec fn deep_view(&self) -> PointV {
        self.view()
    }
}

impl Point {
    /// The latitude text of this point.
    pub fn latitude(&self) -> (r: &String)
        ensures
            r@ == self@.y,
    {
        &self.y
    }

    /// The longitude text of this point.
    pub fn longitude(&self) -> (r: &String)
        ensures
            r@ == self@.x,
    {
        &self.x
    }
}

/// What decoding one coordinate token yields: a token without a comma is
/// no point; a token whose latitude or longitude half is not a valid float
/// is a float-parse error; otherwise the point, with the axis swap
/// `(x, y) = (longitude, latitude)`.
pub open spec fn sp_point(tok: Seq<char>) -> Result<Option<PointV>, DeserialiseErrorV> {
    let parts = sp_split_char(tok, ',');
    if parts.len() < 2 {
        Ok(None)
    } else if !sp_is_float(parts[0]) {
        Err(DeserialiseErrorV::ParseFloatError(parts[0]))
    } else if !sp_is_float(parts[1]) {
        Err(DeserialiseErrorV::ParseFloatError(parts[1]))
    } else {
        Ok(Some(PointV { x: parts[1], y: parts[0] }))
    }
}

/// Decodes one `latitude,longitude` token.
pub fn parse_point_string(point_string: &str) -> (r: Result<Option<Point>, DeserialiseError>)
    ensures
        sp_res(r) == sp_point(point_string@),
{
    let parts = split_char(point_string, ',');
    proof {
        assert(parts.deep_view() == sp_split_char(point_string@, ','));
    }
    if parts.len() < 2 {
        return Ok(None);
    }
    proof {
        assert(parts.deep_view()[0] == parts@[0]@);
        assert(parts.deep_view()[1] == parts@[1]@);
    }
    if !is_float_text(parts[0].as_str()) {
        return Err(DeserialiseError::ParseFloatError(parts[0].clone()));
    }
    if !is_float_text(parts[1].as_str()) {
        return Err(DeserialiseError::ParseFloatError(parts[1].clone()));
    }
    Ok(Some(Point { x: parts[1].clone(), y: parts[0].clone() }))
}

/// What decoding a list of coordinate tokens yields: the points of the
/// comma-carrying tokens in order, or the first float-parse error.
pub open spec fn sp_points_of(toks: Seq<Seq<char>>) -> Result<Seq<PointV>, DeserialiseErrorV>
    decreases toks.len(),
{
    if toks.len() == 0 {
        Ok(Seq::empty())
    } else {
        match sp_points_of(toks.drop_last()) {
            Ok(ps) => match sp_point(toks.last()) {
                Ok(Some(p)) => Ok(ps + seq![p]),
                Ok(None) => Ok(ps),
                Err(e) => Err(e),
            },
            Err(e) => Err(e),
        }
    }
}

/// What decoding a whole point-list text yields: its whitespace-separated
/// tokens decoded in order; no decoded points at all is `None`.
pub open spec fn sp_points(s: Seq<char>) -> Result<Option<Seq<PointV>>, DeserialiseErrorV> {
    match sp_points_of(sp_ws_tokens(s)) {
        Ok(ps) => if ps.len() > 0 {
            Ok(Some(ps))
        } else {
            Ok(None)
        },
        Err(e) => Err(e),
    }
}

/// Decodes a whitespace-separated list of `latitude,longitude` tokens; a
/// float-parse failure of any token aborts the whole list.
pub fn parse_points_string(points_string: &str) -> (r: Result<
    Option<Vec<Point>>,
    DeserialiseError,
>)
    ensures
        match r {
            Ok(Some(v)) => sp_points(points_string@) == Ok::<_, DeserialiseErrorV>(Some(v.deep_view())),
            Ok(None) => sp_points(points_string@) == Ok::<_, DeserialiseErrorV>(None::<Seq<PointV>>),
            Err(e) => sp_points(points_string@) == Err::<Option<Seq<PointV>>, _>(e@),
        },
{
    let toks = ws_tokens(points_string);
    let ghost ts = toks.deep_view();
    let mut out: Vec<Point> = Vec::new();
    let mut i: usize = 0;
    let n = toks.len();
    proof {
        assert(ts.take(0) =~= Seq::<Seq<char>>::empty());
        assert(out.deep_view() =~= Seq::<PointV>::empty());
    }
    while i < n
        invariant
            ts == toks.deep_view(),
            ts == sp_ws_tokens(points_string@),
            n == toks@.len(),
            i <= n,
            sp_points_of(ts.take(i as int)) == Ok::<_, DeserialiseErrorV>(out.deep_view()),
        decreases n - i,
    {
        proof {
            assert(ts[i as int] == toks@[i as int]@);
            assert(ts.take(i + 1 as int).drop_last() =~= ts.take(i as int));
            assert(ts.take(i + 1 as int).last() == ts[i as int]);
        }
        let ghost old_out = out.deep_view();
        match parse_point_string(toks[i].as_str()) {
            Ok(Some(p)) => {
                out.push(p);
                proof {
                    assert(out.deep_view() =~= old_out.push(p@));
                    assert(old_out.push(p@) =~= old_out + seq![p@]);
                }
            },
            Ok(None) => {},
            Err(e) => {
                proof {
                    let full = ts;
                    lemma_points_of_error_prefix(full, i + 1, e@);
                }
                return Err(e);
            },
        }
        i += 1;
    }
    proof {
        assert(ts.take(n as int) =~= ts);
    }
    if out.len() > 0 {
        Ok(Some(out))
    } else {
        Ok(None)
    }
}

/// An error on a prefix of the token list is the error of the whole list.
proof fn lemma_points_of_error_prefix(toks: Seq<Seq<char>>, k: int, e: DeserialiseErrorV)
    requires
        0 <= k <= toks.len(),
        sp_points_of(toks.take(k)) == Err::<Seq<PointV>, _>(e),
    ensures
        sp_points_of(toks) == Err::<Seq<PointV>, _>(e),
    decreases toks.len() - k,
{
    if k == toks.len() {
        assert(toks.take(k) =~= toks);
    } else {
        assert(toks.take(k + 1).drop_last() =~= toks.take(k));
        lemma_points_of_error_prefix(toks, k + 1, e);
    }
}

} // verus!

verus! {

/// Geometry idempotence: decoding a token list whose every token is a
/// well-formed `latitude,longitude` pair yields exactly one point per
/// token, each holding its token's float texts with the geometry's `x`
/// the longitude and `y` the latitude.
pub proof fn lemma_points_of_all_wellformed(toks: Seq<Seq<char>>)
    requires
        forall|k: int|
            0 <= k < toks.len() ==> #[trigger] sp_split_char(toks[k], ',').len() >= 2
                && sp_is_float(sp_split_char(toks[k], ',')[0]) && sp_is_float(
                sp_split_char(toks[k], ',')[1],
            ),
    ensures
        sp_points_of(toks) matches Ok(ps) ==> ps.len() == toks.len() && forall|k: int|
            0 <= k < toks.len() ==> ps[k].y == #[trigger] sp_split_char(toks[k], ',')[0]
                && ps[k].x == sp_split_char(toks[k], ',')[1],
        sp_points_of(toks) is Ok,
    decreases toks.len(),
{
    if toks.len() == 0 {
    } else {
        let front = toks.drop_last();
        assert(forall|k: int|
            0 <= k < front.len() ==> front[k] == toks[k]);
        lemma_points_of_all_wellformed(front);
        let ps = sp_points_of(front)->Ok_0;
        assert(sp_split_char(toks.last(), ',').len() >= 2 && sp_is_float(
            sp_split_char(toks.last(), ',')[0],
        ) && sp_is_float(sp_split_char(toks.last(), ',')[1])) by {
            assert(toks[toks.len() - 1] == toks.last());
        }
        let p = sp_point(toks.last())->Ok_0->Some_0;
        assert(sp_points_of(toks) == Ok::<_, DeserialiseErrorV>(ps + seq![p]));
        let whole = ps + seq![p];
        assert forall|k: int| 0 <= k < toks.len() implies whole[k].y == #[trigger] sp_split_char(
            toks[k],
            ',',
        )[0] && whole[k].x == sp_split_char(toks[k], ',')[1] by {
            if k < toks.len() - 1 {
                assert(whole[k] == ps[k]);
            } else {
                assert(whole[k] == p);
                assert(toks[k] == toks.last());
            }
        }
    }
}

} // verus!
