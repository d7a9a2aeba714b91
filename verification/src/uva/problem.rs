//! What a `uva@1` problem says about itself.
//!
//! **There is no package.** The whole of a UVa problem's configuration is
//! documents the Server already carries.
//!
//! **Two documents, and they answer different questions**:
//!
//! - the **version's** `props` says *which problem this is* — the archive's
//!   number. Identity, written once at import and inherited by every
//!   assignment. That half is this file's, because the member is spelt `uva`.
//! - the **assignment's** `config` says *how this course judges it* — which
//!   verdicts count as solved, and which languages are allowed. That half is
//!   spelt the same whichever judge holds the problem, so it is read by
//!   `crate::integration::judging` and not here.

use vstd::prelude::*;

use crate::integration::{
    choice, first_with_id, judging, judging_of, Chosen, ChosenView, ReadError, ReadErrorView,
    Setup, SetupView,
};
use crate::json::{as_i64, as_text, fields, member_of, slot_value, slots, Json, JsonView, Missing};
use crate::text::same;
use crate::uva::language::{catalogue, offered};
use crate::uva::{JUDGE, PROBLEM_TYPE};

verus! {

/// The version's `uva` member: absent, or the problem number it carries.
pub open spec fn read_uva(doc: JsonView) -> Option<Option<int>> {
    match slots(doc, seq!["problemNumber"@]) {
        None => None,
        Some((s, positional)) => match slot_value(s[0], Missing::Absent, positional, true) {
            Err(_) => None,
            Ok(None) => Some(None),
            Ok(Some(v)) => match as_i64(v) {
                None => None,
                Some(n) => Some(Some(n)),
            },
        },
    }
}

/// The version's document: the type it names and the `uva` member, each
/// absent or present.
pub open spec fn read_identity(doc: JsonView) -> Option<(Option<Seq<char>>, Option<Option<int>>)> {
    match slots(doc, seq!["type"@, "uva"@]) {
        None => None,
        Some((s, positional)) => {
            let kind: Option<Option<Seq<char>>> = match slot_value(
                s[0],
                Missing::Absent,
                positional,
                true,
            ) {
                Err(_) => None,
                Ok(None) => Some(None),
                Ok(Some(v)) => match as_text(v) {
                    None => None,
                    Some(t) => Some(Some(t)),
                },
            };
            let uva: Option<Option<Option<int>>> = match slot_value(
                s[1],
                Missing::Absent,
                positional,
                true,
            ) {
                Err(_) => None,
                Ok(None) => Some(None),
                Ok(Some(v)) => match read_uva(v) {
                    None => None,
                    Some(n) => Some(Some(n)),
                },
            };
            match (kind, uva) {
                (Some(kind), Some(uva)) => Some((kind, uva)),
                _ => None,
            }
        },
    }
}

/// The problem, out of the version's `props` and the assignment's `config`.
pub open spec fn problem_of(identity: Option<JsonView>, config: Option<JsonView>) -> Result<
    SetupView,
    ReadErrorView,
> {
    match identity {
        None => Err(ReadErrorView::NoProps),
        Some(doc) => match read_identity(doc) {
            None => Err(ReadErrorView::PropsUnreadable),
            Some((kind, uva)) => if kind is Some && kind->0 != PROBLEM_TYPE@ {
                Err(ReadErrorView::WrongType(kind->0))
            } else {
                match uva {
                    Some(Some(n)) => if n <= 0 {
                        Err(ReadErrorView::NotANumber(n))
                    } else {
                        match judging_of(config) {
                            None => Err(ReadErrorView::ConfigUnreadable),
                            Some((languages, accepted)) => Ok(
                                SetupView { languages, number: n, accepted },
                            ),
                        }
                    },
                    _ => Err(ReadErrorView::NoNumber),
                }
            },
        },
    }
}

pub open spec fn view_of(doc: Option<&Json>) -> Option<JsonView> {
    match doc {
        Some(d) => Some(d@),
        None => None,
    }
}

fn problem_number(doc: &Json) -> (r: Option<Option<i64>>)
    ensures
        match r {
            None => read_uva(doc@) is None,
            Some(None) => read_uva(doc@) == Some(None::<int>),
            Some(Some(n)) => read_uva(doc@) == Some(Some(n as int)),
        },
{
    let names = vec!["problemNumber"];
    proof {
        assert(names@.map_values(|n: &str| n@) =~= seq!["problemNumber"@]);
    }
    let (values, positional) = match fields(doc, names.as_slice()) {
        None => return None,
        Some(found) => found,
    };
    match values[0] {
        None => if positional {
            None
        } else {
            Some(None)
        },
        Some(Json::Null) => Some(None),
        Some(Json::Int(n)) => Some(Some(*n)),
        Some(_) => None,
    }
}

/// The problem, out of the two documents that describe it.
///
/// **The number comes from the version and the scoring from the assignment**,
/// and neither substitutes for the other: a problem attached to three courses is
/// one archive number and three ways of counting it.
pub fn read(identity: Option<&Json>, config: Option<&Json>) -> (r: Result<Setup, ReadError>)
    ensures
        match r {
            Ok(setup) => problem_of(view_of(identity), view_of(config)) == Ok::<
                SetupView,
                ReadErrorView,
            >(setup@),
            Err(e) => problem_of(view_of(identity), view_of(config)) == Err::<
                SetupView,
                ReadErrorView,
            >(e@),
        },
{
    let doc = match identity {
        None => return Err(ReadError::NoProps),
        Some(doc) => doc,
    };
    let names = vec!["type", "uva"];
    proof {
        assert(names@.map_values(|n: &str| n@) =~= seq!["type"@, "uva"@]);
    }
    let (values, positional) = match fields(doc, names.as_slice()) {
        None => return Err(ReadError::PropsUnreadable),
        Some(found) => found,
    };
    let kind: Option<&String> = match values[0] {
        None => {
            if positional {
                return Err(ReadError::PropsUnreadable);
            }
            None
        },
        Some(Json::Null) => None,
        Some(Json::Str(s)) => Some(s),
        Some(_) => return Err(ReadError::PropsUnreadable),
    };
    let number: Option<i64> = match values[1] {
        None => {
            if positional {
                return Err(ReadError::PropsUnreadable);
            }
            None
        },
        Some(Json::Null) => None,
        Some(v) => match problem_number(v) {
            None => return Err(ReadError::PropsUnreadable),
            Some(n) => n,
        },
    };
    if let Some(kind) = kind {
        if !same(kind.as_str(), PROBLEM_TYPE) {
            return Err(ReadError::WrongType(kind.clone()));
        }
    }
    let number = match number {
        None => return Err(ReadError::NoNumber),
        Some(n) => n,
    };
    if number <= 0 {
        return Err(ReadError::NotANumber(number));
    }
    let (languages, accepted) = match judging(config) {
        Err(e) => return Err(e),
        Ok(found) => found,
    };
    Ok(Setup { number, accepted, languages })
}

impl Setup {
    /// The archive's number for a language, or a refusal naming what is on
    /// offer — against the six onlinejudge.org offers.
    pub fn language(&self, wanted: Option<&str>) -> (c: Chosen)
        ensures
            c@ == choice(
                JUDGE@,
                offered(),
                self.languages.deep_view(),
                match wanted {
                    Some(w) => Some(w@),
                    None => None,
                },
            ),
    {
        let all = catalogue();
        self.language_in(JUDGE, all.as_slice(), wanted)
    }
}

/// **An assignment that names no languages allows every one the archive
/// offers** — not none, which would be an assignment nobody could submit to.
pub proof fn lemma_silence_allows_all(at: int)
    requires
        0 <= at < offered().len(),
    ensures
        choice(JUDGE@, offered(), Seq::empty(), Some(offered()[at].id)) == ChosenView::Accepted(
            offered()[at].number,
        ),
{
    crate::uva::language::lemma_catalogue_is_unambiguous();
    assert(first_with_id(offered(), offered()[at].id, at));
    let k = choose|k: int| first_with_id(offered(), offered()[at].id, k);
    if k < at {
        assert(offered()[k].id != offered()[at].id);
    } else if k > at {
        assert(offered()[at].id != offered()[k].id);
    }
}

/// **A problem that is read is the one its props name.** Reading succeeds only
/// on a version that carries props. When those props are an object — as they
/// are written — the `type` member is absent, `null` or `uva@1`, the `uva`
/// member is there, and when that is an object too the number is its
/// `problemNumber` member. The number is positive, something counts as solved,
/// and the languages and the accepted verdicts are exactly what the
/// assignment's document gives. (Props written as an array are read by
/// position, as the record rules say, and are not covered by the member
/// clauses.)
pub proof fn lemma_a_read_problem_is_the_one_its_props_name(
    props: Option<JsonView>,
    config: Option<JsonView>,
)
    ensures
        problem_of(props, config) is Ok ==> {
            let s = problem_of(props, config)->Ok_0;
            &&& props is Some
            &&& s.number > 0
            &&& s.accepted.len() > 0
            &&& judging_of(config) == Some((s.languages, s.accepted))
            &&& props->Some_0 is Object ==> {
                &&& match member_of(props->Some_0, "type"@) {
                    None => true,
                    Some(JsonView::Null) => true,
                    Some(t) => t == JsonView::Str(PROBLEM_TYPE@),
                }
                &&& member_of(props->Some_0, "uva"@) matches Some(u) && (u is Object ==> member_of(
                    u,
                    "problemNumber"@,
                ) == Some(JsonView::Int(s.number)))
            }
        },
{
    if problem_of(props, config) is Ok {
        crate::integration::lemma_judging_never_accepts_nothing(config);
    }
}

/// The language at `at` is chosen, as its own number, by any assignment that
/// allows it.
proof fn lemma_allowed_language_is_accepted(at: int, allowed: Seq<Seq<char>>)
    requires
        0 <= at < offered().len(),
        allowed.len() == 0 || allowed.contains(offered()[at].id),
    ensures
        choice(JUDGE@, offered(), allowed, Some(offered()[at].id)) == ChosenView::Accepted(
            offered()[at].number,
        ),
{
    crate::uva::language::lemma_catalogue_is_unambiguous();
    assert(first_with_id(offered(), offered()[at].id, at));
    let k = choose|k: int| first_with_id(offered(), offered()[at].id, k);
    if k < at {
        assert(offered()[k].id != offered()[at].id);
    } else if k > at {
        assert(offered()[at].id != offered()[k].id);
    }
}

/// **Each language posts the archive's own form value**, whatever else the
/// assignment allows: `c89-gcc` is 1, `java8` 2, `cpp98-gcc` 3, `pascal-fpc`
/// 4, `cpp11-gcc` 5 and `python3` 6. A number posted for the wrong id is a
/// source compiled as another language.
pub proof fn lemma_each_language_posts_the_archives_value(allowed: Seq<Seq<char>>)
    ensures
        (allowed.len() == 0 || allowed.contains("c89-gcc"@)) ==> choice(JUDGE@, offered(), allowed, Some("c89-gcc"@)) == ChosenView::Accepted(1),
        (allowed.len() == 0 || allowed.contains("java8"@)) ==> choice(JUDGE@, offered(), allowed, Some("java8"@)) == ChosenView::Accepted(2),
        (allowed.len() == 0 || allowed.contains("cpp98-gcc"@)) ==> choice(JUDGE@, offered(), allowed, Some("cpp98-gcc"@)) == ChosenView::Accepted(3),
        (allowed.len() == 0 || allowed.contains("pascal-fpc"@)) ==> choice(JUDGE@, offered(), allowed, Some("pascal-fpc"@)) == ChosenView::Accepted(4),
        (allowed.len() == 0 || allowed.contains("cpp11-gcc"@)) ==> choice(JUDGE@, offered(), allowed, Some("cpp11-gcc"@)) == ChosenView::Accepted(5),
        (allowed.len() == 0 || allowed.contains("python3"@)) ==> choice(JUDGE@, offered(), allowed, Some("python3"@)) == ChosenView::Accepted(6),
{
    if allowed.len() == 0 || allowed.contains("c89-gcc"@) {
        lemma_allowed_language_is_accepted(0, allowed);
    }
    if allowed.len() == 0 || allowed.contains("java8"@) {
        lemma_allowed_language_is_accepted(1, allowed);
    }
    if allowed.len() == 0 || allowed.contains("cpp98-gcc"@) {
        lemma_allowed_language_is_accepted(2, allowed);
    }
    if allowed.len() == 0 || allowed.contains("pascal-fpc"@) {
        lemma_allowed_language_is_accepted(3, allowed);
    }
    if allowed.len() == 0 || allowed.contains("cpp11-gcc"@) {
        lemma_allowed_language_is_accepted(4, allowed);
    }
    if allowed.len() == 0 || allowed.contains("python3"@) {
        lemma_allowed_language_is_accepted(5, allowed);
    }
}

} // verus!
