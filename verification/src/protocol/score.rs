//! A game score: its cause, a reason text, and per-team point parts.

use crate::element::{attr_lookup, Element};
use crate::error::SCError;
use crate::protocol::score_cause::{spec_parse_cause, ScoreCause};
use crate::text::{parse_i32, spec_parse_i32, str_eq};
use vstd::prelude::*;

verus! {

/// The mathematical content of a score.
pub ghost struct ScoreView {
    pub cause: ScoreCause,
    pub reason: Seq<char>,
    pub parts: Seq<int>,
}

/// The views of a sequence of score parts.
pub open spec fn parts_view(s: Seq<i32>) -> Seq<int> {
    s.map_values(|x: i32| x as int)
}

/// Taking views commutes with appending one part.
proof fn lemma_parts_view_push(s: Seq<i32>, x: i32)
    ensures
        parts_view(s.push(x)) == parts_view(s).push(x as int),
{
    assert(parts_view(s.push(x)) =~= parts_view(s).push(x as int));
}

/// The parsed parts among the children `i` and higher: the content of each
/// part child as an integer, or the first parse failure.
pub open spec fn score_parts(children: Seq<Element>, i: int) -> Result<Seq<int>, SCError>
    decreases children.len() - i,
{
    if i < 0 || i >= children.len() {
        Ok(Seq::empty())
    } else if children[i].name@ == "part"@ {
        match spec_parse_i32(children[i].content@) {
            Err(er) => Err(er),
            Ok(v) => match score_parts(children, i + 1) {
                Err(er) => Err(er),
                Ok(rest) => Ok(seq![v as int] + rest),
            },
        }
    } else {
        score_parts(children, i + 1)
    }
}

/// What decoding a score yields: its cause and reason attributes and its part
/// children, or the first failure among them in that order.
pub open spec fn spec_decode_score(e: Element) -> Result<ScoreView, SCError> {
    match attr_lookup(e.attributes@, "cause"@, 0) {
        None => Err(SCError::MissingAttribute),
        Some(cs) => match spec_parse_cause(cs) {
            Err(er) => Err(er),
            Ok(cause) => match attr_lookup(e.attributes@, "reason"@, 0) {
                None => Err(SCError::MissingAttribute),
                Some(rs) => match score_parts(e.children@, 0) {
                    Err(er) => Err(er),
                    Ok(parts) => Ok(ScoreView { cause, reason: rs, parts }),
                },
            },
        },
    }
}

/// A game score.
#[derive(Debug, PartialEq, Eq)]
pub struct Score {
    cause: ScoreCause,
    reason: String,
    parts: Vec<i32>,
}

impl View for Score {
    type V = ScoreView;

    closed spec fn view(&self) -> ScoreView {
        ScoreView { cause: self.cause, reason: self.reason@, parts: parts_view(self.parts@) }
    }
}

impl Score {
    /// Creates a score from its parts.
    pub fn new(cause: ScoreCause, reason: &str, parts: Vec<i32>) -> (r: Score)
        ensures
            r@ == (ScoreView { cause, reason: reason@, parts: parts_view(parts@) }),
    {
        Score { cause, reason: reason.to_owned(), parts }
    }

    /// The cause of the score.
    pub fn cause(&self) -> (r: ScoreCause)
        ensures
            r == self@.cause,
    {
        self.cause
    }

    /// The reason text of the score.
    pub fn reason(&self) -> (r: &str)
        ensures
            r@ == self@.reason,
    {
        self.reason.as_str()
    }

    /// The per-team point parts of the score.
    pub fn parts(&self) -> (r: &Vec<i32>)
        ensures
            parts_view(r@) == self@.parts,
    {
        &self.parts
    }

    /// Decodes a score from an element.
    #[verifier::loop_isolation(false)]
    pub fn from_element(elem: &Element) -> (r: Result<Score, SCError>)
        ensures
            match r {
                Ok(s) => spec_decode_score(*elem) == Ok::<ScoreView, SCError>(s@),
                Err(e) => spec_decode_score(*elem) == Err::<ScoreView, SCError>(e),
            },
    {
        let cause = match elem.attribute("cause") {
            None => {
                return Err(SCError::MissingAttribute);
            },
            Some(cs) => match ScoreCause::from_name(cs.as_str()) {
                Ok(c) => c,
                Err(er) => {
                    return Err(er);
                },
            },
        };
        let reason = match elem.attribute("reason") {
            None => {
                return Err(SCError::MissingAttribute);
            },
            Some(rs) => rs.clone(),
        };
        let mut parts: Vec<i32> = Vec::new();
        proof {
            assert(parts_view(parts@) + Seq::<int>::empty() =~= Seq::<int>::empty());
        }
        let mut i: usize = 0;
        let n = elem.children.len();
        while i < n
            invariant
                i <= n,
                n == elem.children@.len(),
                score_parts(elem.children@, 0) == (match score_parts(elem.children@, i as int) {
                    Ok(rest) => Ok::<Seq<int>, SCError>(parts_view(parts@) + rest),
                    Err(er) => Err::<Seq<int>, SCError>(er),
                }),
            decreases n - i,
        {
            if str_eq(elem.children[i].name.as_str(), "part") {
                match parse_i32(elem.children[i].content.as_str()) {
                    Ok(v) => {
                        proof {
                            lemma_parts_view_push(parts@, v);
                            assert(parts_view(parts@).push(v as int) + (match score_parts(
                                elem.children@,
                                i + 1,
                            ) {
                                Ok(rest) => rest,
                                Err(_) => Seq::<int>::empty(),
                            }) =~= parts_view(parts@) + (seq![v as int] + (match score_parts(
                                elem.children@,
                                i + 1,
                            ) {
                                Ok(rest) => rest,
                                Err(_) => Seq::<int>::empty(),
                            })));
                        }
                        parts.push(v);
                    },
                    Err(er) => {
                        return Err(er);
                    },
                }
            }
            i += 1;
        }
        proof {
            assert(parts_view(parts@) + Seq::<int>::empty() =~= parts_view(parts@));
        }
        Ok(Score { cause, reason, parts })
    }
}

} // verus!
