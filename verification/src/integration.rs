//! The boundary an external judging system is reached through.
//!
//! **This repository forwards work; it does not judge it.** What differs between
//! one external judge and the next is how a submission is handed over, how an
//! answer is asked for, and what its verdicts are called. What does not differ is
//! everything decided here: what a problem's documents say, which language a
//! submission may use, and whether a verdict counts as solved.

use vstd::prelude::*;

use crate::json::{
    as_texts, fields, read_texts, slot_value, slots, Json, JsonView, Missing,
};
use crate::text::{
    ascii_lowered, debug_list, debug_quoted, eq_ignore_ascii_case, joined, push_signed, quoted,
    quoted_list, same, signed_decimal,
};

verus! {

/// One language a judge accepts.
#[derive(Clone, Copy, Debug)]
pub struct Language {
    /// The product's id, as a submission carries it.
    pub id: &'static str,
    /// What a person reads. The judge's own compiler and version.
    pub label: &'static str,
    /// The value the judge's own submit form or API wants. Its numbering, not
    /// ours.
    pub number: i64,
}

pub struct LanguageView {
    pub id: Seq<char>,
    pub label: Seq<char>,
    pub number: int,
}

impl View for Language {
    type V = LanguageView;

    open spec fn view(&self) -> LanguageView {
        LanguageView { id: self.id@, label: self.label@, number: self.number as int }
    }
}

/// The problem, as this Runner needs it, out of the two documents describing it.
///
/// **The number comes from the version and the scoring from the assignment**,
/// and neither substitutes for the other: a problem attached to three courses is
/// one archive number and three ways of counting it.
#[derive(Debug, Clone, PartialEq, Eq)]
pub struct Setup {
    /// Which languages this assignment allows. Empty means all the judge offers.
    pub languages: Vec<String>,
    /// The judge's public number for the problem — what a person types.
    pub number: i64,
    /// Which verdicts count as solved. Never empty: a problem nobody can pass is
    /// a configuration mistake, not a strict activity.
    pub accepted: Vec<String>,
}

pub struct SetupView {
    pub languages: Seq<Seq<char>>,
    pub number: int,
    pub accepted: Seq<Seq<char>>,
}

impl View for Setup {
    type V = SetupView;

    open spec fn view(&self) -> SetupView {
        SetupView {
            languages: self.languages.deep_view(),
            number: self.number as int,
            accepted: self.accepted.deep_view(),
        }
    }
}

/// What happened when a submission named a language.
#[derive(Debug, PartialEq, Eq)]
pub enum Chosen {
    /// The judge's own value for it.
    Accepted(i64),
    /// **The manager narrowed the list and this is outside it.** A verdict, not
    /// an infrastructure failure: the participant chose it, their code may be
    /// perfect, and what they broke is a rule of the activity.
    NotAllowed { wanted: String, allowed: Vec<String> },
    /// Not a language the judge offers at all, or none named. The participant
    /// chose from a list the platform gave them, so this is the platform's
    /// fault: an infrastructure failure, and the submission stays rejudgeable.
    NotSubmittable(String),
}

pub enum ChosenView {
    Accepted(int),
    NotAllowed { wanted: Seq<char>, allowed: Seq<Seq<char>> },
    NotSubmittable(Seq<char>),
}

impl View for Chosen {
    type V = ChosenView;

    open spec fn view(&self) -> ChosenView {
        match self {
            Chosen::Accepted(n) => ChosenView::Accepted(*n as int),
            Chosen::NotAllowed { wanted, allowed } => ChosenView::NotAllowed {
                wanted: wanted@,
                allowed: allowed.deep_view(),
            },
            Chosen::NotSubmittable(why) => ChosenView::NotSubmittable(why@),
        }
    }
}

/// What the Runner does with an answer it recognised.
#[derive(Debug, Clone, Copy, PartialEq, Eq)]
pub enum Outcome {
    /// The judge decided. `verdict` is stored verbatim; `solved` decides the
    /// score against the activity's list of accepted verdicts.
    Judged {
        /// The canonical long name, for the column filters and rankings key on.
        verdict: &'static str,
        /// The short name a user of that judge recognises, for the result screen.
        abbreviation: &'static str,
    },
    /// Not judged yet. Keep waiting; this is not an answer.
    Pending,
    /// The judge never formed an opinion. Never a verdict, never a score.
    Failed {
        reason: &'static str,
        /// Whether asking again could ever produce a different answer.
        permanent: bool,
    },
}

pub enum OutcomeView {
    Judged { verdict: Seq<char>, abbreviation: Seq<char> },
    Pending,
    Failed { reason: Seq<char>, permanent: bool },
}

impl View for Outcome {
    type V = OutcomeView;

    open spec fn view(&self) -> OutcomeView {
        match self {
            Outcome::Judged { verdict, abbreviation } => OutcomeView::Judged {
                verdict: verdict@,
                abbreviation: abbreviation@,
            },
            Outcome::Pending => OutcomeView::Pending,
            Outcome::Failed { reason, permanent } => OutcomeView::Failed {
                reason: reason@,
                permanent: *permanent,
            },
        }
    }
}

/// Why a submission did not produce an id.
#[derive(Debug, Clone, PartialEq, Eq)]
pub enum Refused {
    /// The session is gone — re-establish it **once** and try again.
    SessionLapsed,
    /// **The judge said it received the submission and did not name it.** This
    /// submission is on the account, so it is never sent again by this Runner:
    /// the job fails and stays rejudgeable — by a person, who can look at the
    /// account first.
    AcceptedWithoutAnId,
    /// Anything else. Not retried: a second attempt at a submission the judge
    /// has already refused is a duplicate to a third party.
    Site(String),
}

pub open spec fn refused_text(r: Refused) -> Seq<char> {
    match r {
        Refused::SessionLapsed => "the session with the judge had lapsed"@,
        Refused::AcceptedWithoutAnId => "the judge received the submission and did not say which id it gave it"@,
        Refused::Site(why) => "the judge refused the submission: "@ + why@,
    }
}

impl Refused {
    /// What a person reads about the refusal.
    pub fn message(&self) -> (m: String)
        ensures
            m@ == refused_text(*self),
    {
        match self {
            Refused::SessionLapsed => String::from_str("the session with the judge had lapsed"),
            Refused::AcceptedWithoutAnId => String::from_str(
                "the judge received the submission and did not say which id it gave it",
            ),
            Refused::Site(why) => joined("the judge refused the submission: ", why.as_str()),
        }
    }
}

/// What a submission the activity's rules refuse is called.
///
/// **The same word `standard-io@1` uses**, and that is the point: a participant
/// who chose a language the manager excluded should read the same verdict
/// whichever Runner would have judged it.
pub const POLICY_VIOLATION: &'static str = "PolicyViolation";

/// What the Server is told about a judge that never formed an opinion.
pub open spec fn failure_text(reason: Seq<char>, permanent: bool) -> Seq<char> {
    if permanent {
        reason + "; judging it again will not help"@
    } else {
        reason + "; judging it again may help"@
    }
}

/// What the Server is told about a judge that never formed an opinion.
///
/// **Whether asking again could help is said to the Server**, not only to this
/// Runner's log: the Server is what a manager reads when they decide on a
/// rejudge.
pub fn failure_reason(reason: &str, permanent: bool) -> (why: String)
    ensures
        why@ == failure_text(reason@, permanent),
{
    if permanent {
        proof {
            reveal_strlit("; judging it again will not help");
        }
        joined(reason, "; judging it again will not help")
    } else {
        proof {
            reveal_strlit("; judging it again may help");
        }
        joined(reason, "; judging it again may help")
    }
}

// ------------------------------------------------------------------- scoring

/// Whether a judged verdict counts as solved: some accepted verdict names it,
/// with ASCII case set aside.
pub open spec fn counts_as_solved(abbreviation: Seq<char>, accepted: Seq<Seq<char>>) -> bool {
    exists|i: int|
        0 <= i < accepted.len() && ascii_lowered(#[trigger] accepted[i]) == ascii_lowered(
            abbreviation,
        )
}

/// Whether a judged verdict counts as solved **here**.
///
/// The list comes from the problem's configuration, not from any judge: a
/// contest counts only `AC`, while a course may reasonably accept a correct
/// answer with sloppy whitespace.
pub fn solved(abbreviation: &str, accepted: &[String]) -> (yes: bool)
    ensures
        yes == counts_as_solved(abbreviation@, accepted@.map_values(|s: String| s@)),
{
    let ghost all = accepted@.map_values(|s: String| s@);
    for i in 0..accepted.len()
        invariant
            all == accepted@.map_values(|s: String| s@),
            forall|j: int|
                0 <= j < i ==> ascii_lowered(#[trigger] all[j]) != ascii_lowered(abbreviation@),
    {
        if eq_ignore_ascii_case(accepted[i].as_str(), abbreviation) {
            assert(ascii_lowered(all[i as int]) == ascii_lowered(abbreviation@));
            return true;
        }
    }
    false
}

/// Widening the list of accepted verdicts never takes a solve away.
pub proof fn lemma_widening_keeps_solved(
    abbreviation: Seq<char>,
    accepted: Seq<Seq<char>>,
    more: Seq<Seq<char>>,
)
    requires
        counts_as_solved(abbreviation, accepted),
    ensures
        counts_as_solved(abbreviation, accepted + more),
{
    let i = choose|i: int|
        0 <= i < accepted.len() && ascii_lowered(#[trigger] accepted[i]) == ascii_lowered(
            abbreviation,
        );
    assert((accepted + more)[i] == accepted[i]);
}

/// ASCII case never decides whether a verdict counts.
pub proof fn lemma_case_does_not_decide(a: Seq<char>, b: Seq<char>, accepted: Seq<Seq<char>>)
    requires
        ascii_lowered(a) == ascii_lowered(b),
    ensures
        counts_as_solved(a, accepted) == counts_as_solved(b, accepted),
{
}

// ------------------------------------------------- what the assignment decides

/// Why a problem's documents could not be read.
#[derive(Debug, Clone, PartialEq, Eq)]
pub enum ReadError {
    /// The version carries no `props` at all.
    NoProps,
    /// The version's `props` are not the document they should be.
    PropsUnreadable,
    /// The version's `props` name another problem type.
    WrongType(String),
    /// The version's `props` name no problem.
    NoNumber,
    /// The number is not one a problem can have.
    NotANumber(i64),
    /// The assignment's configuration is not the document it should be.
    ConfigUnreadable,
}

pub enum ReadErrorView {
    NoProps,
    PropsUnreadable,
    WrongType(Seq<char>),
    NoNumber,
    NotANumber(int),
    ConfigUnreadable,
}

impl View for ReadError {
    type V = ReadErrorView;

    open spec fn view(&self) -> ReadErrorView {
        match self {
            ReadError::NoProps => ReadErrorView::NoProps,
            ReadError::PropsUnreadable => ReadErrorView::PropsUnreadable,
            ReadError::WrongType(kind) => ReadErrorView::WrongType(kind@),
            ReadError::NoNumber => ReadErrorView::NoNumber,
            ReadError::NotANumber(n) => ReadErrorView::NotANumber(*n as int),
            ReadError::ConfigUnreadable => ReadErrorView::ConfigUnreadable,
        }
    }
}

/// The text a person reads for a problem that cannot be forwarded.
pub open spec fn read_error_text(e: ReadError) -> Seq<char> {
    match e {
        ReadError::NoProps => "this problem version carries no props, so there is no UVa problem number to submit to. A problem imported before 2026-08-22 kept its number on the version's `config`, which no longer exists; set `props` to {\"type\":\"uva@1\",\"uva\":{\"problemNumber\":N}} on the version."@,
        ReadError::PropsUnreadable => "the problem version's props cannot be read: they must be an object with an optional string `type` and an optional `uva` object holding an integer `problemNumber`"@,
        ReadError::WrongType(kind) => "the problem version's props say type "@ + debug_quoted(kind@)
            + ", not \"uva@1\""@,
        ReadError::NoNumber => "the problem version's props have no uva.problemNumber"@,
        ReadError::NotANumber(n) => "uva.problemNumber is "@ + signed_decimal(n as int)
            + ", which is not a problem number"@,
        ReadError::ConfigUnreadable => "the assignment's configuration cannot be read: it must be an object with an optional `scoring` object holding a list of strings `acceptedVerdicts`, and an optional list of strings `languages`"@,
    }
}

impl ReadError {
    /// What a person reads about it.
    pub fn message(&self) -> (m: String)
        ensures
            m@ == read_error_text(*self),
    {
        match self {
            ReadError::NoProps => String::from_str(
                "this problem version carries no props, so there is no UVa problem number to submit to. A problem imported before 2026-08-22 kept its number on the version's `config`, which no longer exists; set `props` to {\"type\":\"uva@1\",\"uva\":{\"problemNumber\":N}} on the version.",
            ),
            ReadError::PropsUnreadable => String::from_str(
                "the problem version's props cannot be read: they must be an object with an optional string `type` and an optional `uva` object holding an integer `problemNumber`",
            ),
            ReadError::WrongType(kind) => {
                let mut m = String::from_str("the problem version's props say type ");
                let q = quoted(kind.as_str());
                m.append(q.as_str());
                m.append(", not \"uva@1\"");
                m
            },
            ReadError::NoNumber => String::from_str(
                "the problem version's props have no uva.problemNumber",
            ),
            ReadError::NotANumber(n) => {
                let mut m = String::from_str("uva.problemNumber is ");
                push_signed(&mut m, *n);
                m.append(", which is not a problem number");
                m
            },
            ReadError::ConfigUnreadable => String::from_str(
                "the assignment's configuration cannot be read: it must be an object with an optional `scoring` object holding a list of strings `acceptedVerdicts`, and an optional list of strings `languages`",
            ),
        }
    }
}

/// A list-of-strings field with a default of nothing.
pub open spec fn texts_field(slot: Option<JsonView>, positional: bool) -> Option<Seq<Seq<char>>> {
    match slot_value(slot, Missing::Defaulted, positional, false) {
        Err(_) => None,
        Ok(None) => Some(Seq::empty()),
        Ok(Some(v)) => as_texts(v),
    }
}

/// The assignment's `scoring` member: its accepted verdicts, empty when unsaid.
pub open spec fn read_scoring(doc: JsonView) -> Option<Seq<Seq<char>>> {
    match slots(doc, seq!["acceptedVerdicts"@]) {
        None => None,
        Some((s, positional)) => texts_field(s[0], positional),
    }
}

/// The assignment's document: its `scoring` (absent, or the accepted verdicts it
/// lists) and its `languages`.
pub open spec fn read_judging(doc: JsonView) -> Option<(Option<Seq<Seq<char>>>, Seq<Seq<char>>)> {
    match slots(doc, seq!["scoring"@, "languages"@]) {
        None => None,
        Some((s, positional)) => {
            let scoring: Option<Option<Seq<Seq<char>>>> = match slot_value(
                s[0],
                Missing::Absent,
                positional,
                true,
            ) {
                Err(_) => None,
                Ok(None) => Some(None),
                Ok(Some(v)) => match read_scoring(v) {
                    None => None,
                    Some(accepted) => Some(Some(accepted)),
                },
            };
            match (scoring, texts_field(s[1], positional)) {
                (Some(scoring), Some(languages)) => Some((scoring, languages)),
                _ => None,
            }
        },
    }
}

/// The default, and the only one: an accepted answer.
pub open spec fn strict() -> Seq<Seq<char>> {
    seq!["AC"@]
}

/// The allowed languages and the accepted verdicts an assignment asks for.
pub open spec fn judging_of(config: Option<JsonView>) -> Option<(Seq<Seq<char>>, Seq<Seq<char>>)> {
    match config {
        None => Some((Seq::empty(), strict())),
        Some(doc) => match read_judging(doc) {
            None => None,
            Some((scoring, languages)) => Some(
                (
                    languages,
                    match scoring {
                        Some(accepted) => if accepted.len() > 0 {
                            accepted
                        } else {
                            strict()
                        },
                        None => strict(),
                    },
                ),
            ),
        },
    }
}

fn texts_slot(slot: Option<&Json>, positional: bool) -> (r: Option<Vec<String>>)
    ensures
        match r {
            Some(list) => texts_field(
                match slot {
                    Some(v) => Some(v@),
                    None => None,
                },
                positional,
            ) == Some(list.deep_view()),
            None => texts_field(
                match slot {
                    Some(v) => Some(v@),
                    None => None,
                },
                positional,
            ) is None,
        },
{
    match slot {
        None => {
            let v: Vec<String> = Vec::new();
            assert(v.deep_view() =~= Seq::<Seq<char>>::empty());
            Some(v)
        },
        Some(v) => read_texts(v),
    }
}

fn scoring(doc: &Json) -> (r: Option<Vec<String>>)
    ensures
        match r {
            Some(list) => read_scoring(doc@) == Some(list.deep_view()),
            None => read_scoring(doc@) is None,
        },
{
    let names = vec!["acceptedVerdicts"];
    proof {
        assert(names@.map_values(|n: &str| n@) =~= seq!["acceptedVerdicts"@]);
    }
    match fields(doc, names.as_slice()) {
        None => None,
        Some((values, positional)) => texts_slot(values[0], positional),
    }
}

/// The allowed languages and the accepted verdicts, out of the assignment.
///
/// **Absent is allowed.** An assignment that says nothing about scoring gets the
/// strict default, which is the answer a course would have written anyway;
/// refusing would make every attachment carry a document to say "as usual".
pub fn judging(config: Option<&Json>) -> (r: Result<(Vec<String>, Vec<String>), ReadError>)
    ensures
        match r {
            Ok((languages, accepted)) => judging_of(
                match config {
                    Some(c) => Some(c@),
                    None => None,
                },
            ) == Some((languages.deep_view(), accepted.deep_view())),
            Err(e) => e == ReadError::ConfigUnreadable && judging_of(
                match config {
                    Some(c) => Some(c@),
                    None => None,
                },
            ) is None,
        },
{
    let doc = match config {
        None => {
            let languages: Vec<String> = Vec::new();
            let accepted = vec![String::from_str("AC")];
            assert(languages.deep_view() =~= Seq::<Seq<char>>::empty());
            assert(accepted.deep_view() =~= strict());
            return Ok((languages, accepted));
        },
        Some(doc) => doc,
    };
    let names = vec!["scoring", "languages"];
    proof {
        assert(names@.map_values(|n: &str| n@) =~= seq!["scoring"@, "languages"@]);
    }
    let (values, positional) = match fields(doc, names.as_slice()) {
        None => return Err(ReadError::ConfigUnreadable),
        Some(found) => found,
    };
    let declared: Option<Vec<String>> = match values[0] {
        None => {
            if positional {
                return Err(ReadError::ConfigUnreadable);
            }
            None
        },
        Some(Json::Null) => None,
        Some(v) => match scoring(v) {
            None => return Err(ReadError::ConfigUnreadable),
            Some(accepted) => Some(accepted),
        },
    };
    let languages = match texts_slot(values[1], positional) {
        None => return Err(ReadError::ConfigUnreadable),
        Some(languages) => languages,
    };
    let accepted = match declared {
        Some(accepted) => {
            if accepted.len() > 0 {
                accepted
            } else {
                let only = vec![String::from_str("AC")];
                assert(only.deep_view() =~= strict());
                only
            }
        },
        None => {
            let only = vec![String::from_str("AC")];
            assert(only.deep_view() =~= strict());
            only
        },
    };
    Ok((languages, accepted))
}

/// What an assignment counts as solved is never empty.
pub proof fn lemma_judging_never_accepts_nothing(config: Option<JsonView>)
    requires
        judging_of(config) is Some,
    ensures
        judging_of(config).unwrap().1.len() > 0,
{
}

// ------------------------------------------------------------ the languages

/// The languages of a catalogue.
pub open spec fn catalogue_view(catalogue: Seq<Language>) -> Seq<LanguageView> {
    catalogue.map_values(|l: Language| l@)
}

/// The ids of a catalogue, in its order.
pub open spec fn ids_of(catalogue: Seq<LanguageView>) -> Seq<Seq<char>> {
    catalogue.map_values(|l: LanguageView| l.id)
}

/// Where a language id first appears in a catalogue.
pub open spec fn first_with_id(catalogue: Seq<LanguageView>, id: Seq<char>, at: int) -> bool {
    0 <= at < catalogue.len() && catalogue[at].id == id && forall|j: int|
        0 <= j < at ==> catalogue[j].id != id
}

/// What a refusal names when no language was named.
pub open spec fn no_language_text(judge: Seq<char>) -> Seq<char> {
    "the submission names no language, and "@ + judge + " needs one"@
}

/// What a refusal names when the judge does not offer the language.
pub open spec fn unknown_language_text(judge: Seq<char>, wanted: Seq<char>, ids: Seq<Seq<char>>) -> Seq<char> {
    judge + " does not accept "@ + debug_quoted(wanted) + "; it accepts "@ + debug_list(ids)
}

/// The decision about a submission's language, given the judge's name and
/// catalogue and the assignment's allowed list.
pub open spec fn choice(
    judge: Seq<char>,
    catalogue: Seq<LanguageView>,
    allowed: Seq<Seq<char>>,
    wanted: Option<Seq<char>>,
) -> ChosenView {
    match wanted {
        None => ChosenView::NotSubmittable(no_language_text(judge)),
        Some(w) => if !(exists|at: int| first_with_id(catalogue, w, at)) {
            ChosenView::NotSubmittable(unknown_language_text(judge, w, ids_of(catalogue)))
        } else if allowed.len() > 0 && !allowed.contains(w) {
            ChosenView::NotAllowed { wanted: w, allowed }
        } else {
            ChosenView::Accepted(
                catalogue[choose|at: int| first_with_id(catalogue, w, at)].number,
            )
        },
    }
}

/// The ids of a catalogue, in its order.
pub fn language_ids(catalogue: &[Language]) -> (ids: Vec<String>)
    ensures
        ids.deep_view() == ids_of(catalogue_view(catalogue@)),
{
    let ghost all = catalogue_view(catalogue@);
    let mut ids: Vec<String> = Vec::new();
    for i in 0..catalogue.len()
        invariant
            all == catalogue_view(catalogue@),
            ids@.len() == i,
            ids.deep_view() == ids_of(all).take(i as int),
    {
        let id = catalogue[i].id.to_owned();
        assert(id@ == all[i as int].id);
        ids.push(id);
        assert(ids@[i as int]@ == all[i as int].id);
        assert(ids.deep_view() =~= ids_of(all).take(i + 1));
    }
    assert(ids_of(all).take(catalogue@.len() as int) =~= ids_of(all));
    ids
}

fn position(catalogue: &[Language], wanted: &str) -> (at: Option<usize>)
    ensures
        match at {
            Some(k) => first_with_id(catalogue_view(catalogue@), wanted@, k as int),
            None => forall|k: int| !#[trigger] first_with_id(catalogue_view(catalogue@), wanted@, k),
        },
{
    let ghost all = catalogue_view(catalogue@);
    for i in 0..catalogue.len()
        invariant
            all == catalogue_view(catalogue@),
            forall|j: int| 0 <= j < i ==> (#[trigger] all[j]).id != wanted@,
    {
        if same(catalogue[i].id, wanted) {
            return Some(i);
        }
    }
    None
}

fn allows(allowed: &[String], wanted: &str) -> (yes: bool)
    ensures
        yes == allowed@.map_values(|s: String| s@).contains(wanted@),
{
    let ghost all = allowed@.map_values(|s: String| s@);
    for i in 0..allowed.len()
        invariant
            all == allowed@.map_values(|s: String| s@),
            forall|j: int| 0 <= j < i ==> (#[trigger] all[j]) != wanted@,
    {
        if same(allowed[i].as_str(), wanted) {
            assert(all[i as int] == wanted@);
            return true;
        }
    }
    false
}

impl Setup {
    /// The judge's number for a language, or a refusal naming what is on offer.
    ///
    /// Refused here as well as in the Client, because a rule only the Client
    /// applies is a rule a devtools console turns off.
    ///
    /// **Against the judge's own catalogue**, not against something the problem
    /// carried: a judge offers what it offers, which is the same list for every
    /// problem it holds.
    pub fn language_in(&self, judge: &str, catalogue: &[Language], wanted: Option<&str>) -> (c: Chosen)
        ensures
            c@ == choice(
                judge@,
                catalogue_view(catalogue@),
                self.languages.deep_view(),
                match wanted {
                    Some(w) => Some(w@),
                    None => None,
                },
            ),
    {
        let ghost all = catalogue_view(catalogue@);
        let wanted = match wanted {
            None => {
                let mut why = String::from_str("the submission names no language, and ");
                why.append(judge);
                why.append(" needs one");
                return Chosen::NotSubmittable(why);
            },
            Some(w) => w,
        };
        let at = match position(catalogue, wanted) {
            None => {
                let ids = language_ids(catalogue);
                let mut why = judge.to_owned();
                why.append(" does not accept ");
                let q = quoted(wanted);
                why.append(q.as_str());
                why.append("; it accepts ");
                let listed = quoted_list(ids.as_slice());
                why.append(listed.as_str());
                proof {
                    assert(ids@.map_values(|s: String| s@) =~= ids.deep_view());
                }
                return Chosen::NotSubmittable(why);
            },
            Some(at) => at,
        };
        proof {
            assert(self.languages@.map_values(|s: String| s@) =~= self.languages.deep_view());
        }
        if self.languages.len() > 0 && !allows(self.languages.as_slice(), wanted) {
            let mut allowed: Vec<String> = Vec::new();
            for i in 0..self.languages.len()
                invariant
                    allowed@.len() == i,
                    allowed.deep_view() == self.languages.deep_view().take(i as int),
            {
                let one = self.languages[i].clone();
                assert(one@ == self.languages@[i as int]@);
                allowed.push(one);
                assert(allowed@[i as int]@ == self.languages.deep_view()[i as int]);
                assert(allowed.deep_view() =~= self.languages.deep_view().take(i + 1));
            }
            assert(self.languages.deep_view().take(self.languages@.len() as int)
                =~= self.languages.deep_view());
            return Chosen::NotAllowed { wanted: wanted.to_owned(), allowed };
        }
        proof {
            let k = choose|k: int| first_with_id(all, wanted@, k);
            if k != at as int {
                if k < at {
                    assert(all[k].id != wanted@);
                } else {
                    assert(all[at as int].id != wanted@);
                }
            }
        }
        Chosen::Accepted(catalogue[at].number)
    }
}

/// **A listed verdict is solved, and nothing is solved that no listed verdict
/// names**: a verdict counts exactly when some accepted verdict is the same
/// word, ASCII case aside.
pub proof fn lemma_solved_is_what_the_list_names(abbreviation: Seq<char>, accepted: Seq<Seq<char>>)
    ensures
        accepted.contains(abbreviation) ==> counts_as_solved(abbreviation, accepted),
        (forall|i: int| 0 <= i < accepted.len() ==> ascii_lowered(#[trigger] accepted[i]) != ascii_lowered(abbreviation))
            ==> !counts_as_solved(abbreviation, accepted),
        accepted.len() == 0 ==> !counts_as_solved(abbreviation, accepted),
{
    if accepted.contains(abbreviation) {
        let i = choose|i: int| 0 <= i < accepted.len() && accepted[i] == abbreviation;
        assert(ascii_lowered(accepted[i]) == ascii_lowered(abbreviation));
    }
}

/// **An assignment that says nothing allows every language and counts only
/// `AC` as solved.**
pub proof fn lemma_silence_is_strict_and_allows_all()
    ensures
        judging_of(None) == Some((Seq::<Seq<char>>::empty(), seq!["AC"@])),
{
}

} // verus!
