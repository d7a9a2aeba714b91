//! The decisions of the loop: take work, hand it to the judge, wait, report.
//!
//! The loop itself waits on three things at once — the Server for work, the
//! judge for answers, the judge's live channel for a sign — and those waits
//! are the program's, not the library's. **Every choice the loop makes between
//! two waits is made here**, from plain values, so that what the Runner does
//! with an answer does not depend on how long the answer took to arrive.
//!
//! **Nothing here speaks to an archive.** The judge is reached through its
//! name, its catalogue, the documents it reads and the answers it gives, each
//! handed in as a plain value.

use vstd::prelude::*;

use crate::config::Config;
use crate::integration::{
    catalogue_view, choice, counts_as_solved, failure_reason, failure_text, first_with_id,
    read_error_text, solved, Chosen, ChosenView, Language, LanguageView, Outcome, ReadError,
    Refused, Setup, SetupView,
};
use crate::json::{str_member, Json, JsonView};
use crate::lease::{act, decision, Action, Standing};
use crate::pending::{ids_in, match_of, unreachable_count, Entry, Matched, Pending};
use crate::text::{debug_list, decimal, joined, quoted_list, same, signed_decimal};
use crate::uva::uhunt::Row;

verus! {

/// Why a claimed job never reaches the judge, and **whose fault that is**.
///
/// One reader decides both, because two readers once disagreed about the same
/// condition: one called it a verdict and the other an infrastructure failure.
#[derive(Debug, Clone, PartialEq, Eq)]
pub enum Blocked {
    /// The activity's own rules refuse it. **A verdict, not a failure**: the
    /// participant chose it, their code may be perfect, and what they broke is a
    /// rule of the activity.
    Verdict(String),
    /// The platform cannot forward it. An infrastructure failure, and the
    /// submission stays rejudgeable.
    Failure(String),
}

pub enum BlockedView {
    Verdict(Seq<char>),
    Failure(Seq<char>),
}

impl View for Blocked {
    type V = BlockedView;

    open spec fn view(&self) -> BlockedView {
        match self {
            Blocked::Verdict(why) => BlockedView::Verdict(why@),
            Blocked::Failure(why) => BlockedView::Failure(why@),
        }
    }
}

/// What the Server records this Runner as being.
///
/// One string for every judge: what varies is which problem types it declares.
pub const PRODUCT: &'static str = "algojudge-external-runner";

/// What this Runner declares it serves: the judge's own type unless an
/// operator named others.
pub open spec fn declared_types(configured: Seq<Seq<char>>, own: Seq<char>) -> Seq<Seq<char>> {
    if configured.len() == 0 {
        seq![own]
    } else {
        configured
    }
}

/// What this Runner declares it serves.
///
/// The judge's own type unless an operator narrowed or widened it with
/// `AJ_Runner__ProblemTypes`. **One function for the start-up log and the
/// registration**, so the two cannot say different things.
pub fn declared(config: &Config, problem_type: &str) -> (types: Vec<String>)
    ensures
        types.deep_view() == declared_types(config.problem_types.deep_view(), problem_type@),
{
    let configured = &config.problem_types;
    let mut types: Vec<String> = Vec::new();
    if configured.len() == 0 {
        types.push(problem_type.to_owned());
        assert(types.deep_view() =~= seq![problem_type@]);
        return types;
    }
    let ghost all = configured.deep_view();
    for i in 0..configured.len()
        invariant
            all == configured.deep_view(),
            types.deep_view() == all.take(i as int),
    {
        let ghost before = types.deep_view();
        let copy = configured[i].clone();
        types.push(copy);
        assert(types.deep_view() =~= before.push(all[i as int]));
        assert(all.take(i + 1) =~= all.take(i as int).push(all[i as int]));
    }
    assert(all.take(configured@.len() as int) =~= all);
    types
}

/// The language a submission names: the string member `language` of its
/// `props`.
pub open spec fn named_language(props: Option<JsonView>) -> Option<Seq<char>> {
    match props {
        Some(p) => str_member(p, "language"@),
        None => None,
    }
}

/// Which member of a submission's `props` names the language.
///
/// The same member `standard-io@1` reads, deliberately: a participant reading
/// their own submission should not have to know which Runner judged it.
pub fn language_of(props: Option<&Json>) -> (language: Option<&str>)
    ensures
        named_language(match props {
            Some(p) => Some(p@),
            None => None,
        }) == match language {
            Some(l) => Some(l@),
            None => None::<Seq<char>>,
        },
{
    match props {
        Some(p) => p.str_member("language"),
        None => None,
    }
}

/// The refusal of a language the assignment excluded.
pub open spec fn not_allowed_text(wanted: Seq<char>, allowed: Seq<Seq<char>>) -> Seq<char> {
    "this problem does not accept "@ + wanted + " here; it accepts "@ + debug_list(allowed)
}

/// Everything a job has to say before anything leaves the installation: the
/// problem and the judge's number for the language, or why it cannot go.
pub open spec fn preparation(
    read: Result<Setup, ReadError>,
    language: Option<Seq<char>>,
    judge: Seq<char>,
    catalogue: Seq<LanguageView>,
) -> Result<(SetupView, int), BlockedView> {
    match read {
        Err(e) => Err(BlockedView::Failure(read_error_text(e))),
        Ok(setup) => match choice(judge, catalogue, setup@.languages, language) {
            ChosenView::Accepted(number) => Ok((setup@, number)),
            ChosenView::NotAllowed { wanted, allowed } => Err(
                BlockedView::Verdict(not_allowed_text(wanted, allowed)),
            ),
            ChosenView::NotSubmittable(why) => Err(BlockedView::Failure(why)),
        },
    }
}

/// Everything a job has to say before anything leaves the installation.
///
/// `read` is what the judge made of the problem's two documents; `props` is
/// the submission's own. **An unreadable configuration is a failure naming the
/// field**, a language the assignment excluded is a verdict, and a language
/// the judge does not offer is the platform's failure.
pub fn prepare(
    read: Result<Setup, ReadError>,
    props: Option<&Json>,
    judge: &str,
    catalogue: &[Language],
) -> (r: Result<(Setup, i64), Blocked>)
    ensures
        match r {
            Ok((setup, number)) => preparation(
                read,
                named_language(
                    match props {
                        Some(p) => Some(p@),
                        None => None,
                    },
                ),
                judge@,
                catalogue_view(catalogue@),
            ) == Ok::<(SetupView, int), BlockedView>((setup@, number as int)),
            Err(b) => preparation(
                read,
                named_language(
                    match props {
                        Some(p) => Some(p@),
                        None => None,
                    },
                ),
                judge@,
                catalogue_view(catalogue@),
            ) == Err::<(SetupView, int), BlockedView>(b@),
        },
{
    let setup = match read {
        Err(e) => return Err(Blocked::Failure(e.message())),
        Ok(setup) => setup,
    };
    let wanted = language_of(props);
    match setup.language_in(judge, catalogue, wanted) {
        Chosen::Accepted(number) => Ok((setup, number)),
        Chosen::NotAllowed { wanted, allowed } => {
            let mut why = joined("this problem does not accept ", wanted.as_str());
            why.append(" here; it accepts ");
            let listed = quoted_list(allowed.as_slice());
            why.append(listed.as_str());
            proof {
                assert(allowed@.map_values(|s: String| s@) =~= allowed.deep_view());
                assert(why@ =~= not_allowed_text(wanted@, allowed.deep_view()));
            }
            Err(Blocked::Verdict(why))
        },
        Chosen::NotSubmittable(why) => Err(Blocked::Failure(why)),
    }
}

/// **Nothing the activity's rules refuse reaches the judge.** A job is ready
/// to go only with a language the submission names, that the judge offers,
/// and that the assignment allows when it names any — and what goes is the
/// judge's own number for it. A language the judge offers and the assignment
/// excluded is a verdict, never a failure.
pub proof fn lemma_nothing_refused_is_forwarded(
    read: Result<Setup, ReadError>,
    language: Option<Seq<char>>,
    judge: Seq<char>,
    catalogue: Seq<LanguageView>,
)
    ensures
        preparation(read, language, judge, catalogue) matches Ok((setup, number)) ==> {
            &&& read matches Ok(s) && s@ == setup
            &&& language matches Some(w) && (setup.languages.len() == 0
                || setup.languages.contains(w)) && exists|at: int|
                first_with_id(catalogue, w, at) && catalogue[at].number == number
        },
        (read matches Ok(s) && language matches Some(w) && (exists|at: int|
            first_with_id(catalogue, w, at)) && s@.languages.len() > 0
            && !s@.languages.contains(w)) ==> preparation(read, language, judge, catalogue) is Err
            && preparation(read, language, judge, catalogue)->Err_0 is Verdict,
{
    if let Ok(s) = read {
        if let Some(w) = language {
            if exists|at: int| first_with_id(catalogue, w, at) {
                let at = choose|at: int| first_with_id(catalogue, w, at);
                assert(first_with_id(catalogue, w, at));
            }
        }
    }
}

/// The longer of two waits, when the other was asked for at all.
pub open spec fn longer(mine: u64, asked: Option<u64>) -> u64 {
    match asked {
        Some(a) => if a > mine {
            a
        } else {
            mine
        },
        None => mine,
    }
}

/// The longer of this Runner's own backoff and what the Server asked for.
///
/// Advice, not an instruction, and the arithmetic says which: an operator's
/// `Retry-After: 300` is honoured because it is longer, and a proxy's
/// `Retry-After: 0` cannot turn a retry into a spin because it is not.
pub fn how_long(mine: u64, asked: Option<u64>) -> (wait: u64)
    ensures
        wait == longer(mine, asked),
{
    match asked {
        Some(a) => if a > mine {
            a
        } else {
            mine
        },
        None => mine,
    }
}

/// Whether the Server held a claim open: it answered no sooner than half of
/// the wait that was asked for. **Told apart by how long it took**, because a
/// Server that does not know about the wait answers at once, and so does one
/// that is draining.
pub open spec fn was_held(wait: Option<u64>, elapsed: u64) -> bool {
    match wait {
        Some(w) => elapsed >= w / 2,
        None => false,
    }
}

/// Whether the Server held a claim open, so the next one needs no backoff:
/// the wait *was* the interval.
pub fn held_open(wait: Option<u64>, elapsed: u64) -> (held: bool)
    ensures
        held == was_held(wait, elapsed),
{
    match wait {
        Some(w) => elapsed >= w / 2,
        None => false,
    }
}

// ------------------------------------------------------------- the source

/// The file a submission's source is in: the one named `source`, else the
/// first, else none.
pub open spec fn source_at(names: Seq<Seq<char>>, at: int) -> bool {
    0 <= at < names.len() && if names.contains("source"@) {
        names[at] == "source"@ && forall|j: int| 0 <= j < at ==> names[j] != "source"@
    } else {
        at == 0
    }
}

/// Which of a submission's files carries the source: the one named `source`,
/// else the first.
pub fn source_file(names: &[String]) -> (at: Option<usize>)
    ensures
        match at {
            Some(k) => source_at(names@.map_values(|s: String| s@), k as int),
            None => names@.len() == 0,
        },
{
    let ghost all = names@.map_values(|s: String| s@);
    proof {
        reveal_strlit("source");
    }
    for i in 0..names.len()
        invariant
            all == names@.map_values(|s: String| s@),
            forall|j: int| 0 <= j < i ==> all[j] != "source"@,
    {
        if same(names[i].as_str(), "source") {
            assert(all.contains("source"@)) by {
                assert(all[i as int] == "source"@);
            }
            return Some(i);
        }
    }
    if names.len() == 0 {
        None
    } else {
        assert(!all.contains("source"@));
        Some(0)
    }
}

/// What a submission that carries no file is told.
pub const NO_FILE: &'static str = "the submission carries no file";

/// What a source that is not text is told.
pub const NOT_TEXT: &'static str = "the source file is not valid UTF-8 text";

/// The bytes read as UTF-8: the characters they encode, when they are a valid
/// encoding, and nothing otherwise.
///
/// Trusted: the standard library's `String::from_utf8`, which answers the
/// string the bytes encode exactly when they are valid UTF-8, and refuses
/// them otherwise.
#[verifier::external_body]
fn from_utf8(bytes: Vec<u8>) -> (text: Option<String>)
    ensures
        match text {
            Some(t) => vstd::utf8::valid_utf8(bytes@) && t@ == vstd::utf8::decode_utf8(bytes@),
            None => !vstd::utf8::valid_utf8(bytes@),
        },
{
    String::from_utf8(bytes).ok()
}

/// What a decoded source is to the loop: the text to send, or a verdict.
///
/// **A source that is not text is a verdict, not a failure of ours.** What
/// leaves the installation is the bytes of a form field, so a file that cannot
/// be decoded is one the judge could never have been given — and a failure
/// would be rejudged for ever against a file that will never change.
pub fn text_or_verdict(decoded: Option<String>) -> (r: Result<String, Blocked>)
    ensures
        match decoded {
            Some(t) => r == Ok::<String, Blocked>(t),
            None => r matches Err(Blocked::Verdict(why)) && why@ == NOT_TEXT@,
        },
{
    match decoded {
        Some(t) => Ok(t),
        None => Err(Blocked::Verdict(NOT_TEXT.to_owned())),
    }
}

/// The source to send, out of the bytes the cache held.
pub fn source_text(bytes: Vec<u8>) -> (r: Result<String, Blocked>)
    ensures
        vstd::utf8::valid_utf8(bytes@) ==> (r matches Ok(s) && s@ == vstd::utf8::decode_utf8(
            bytes@,
        )),
        !vstd::utf8::valid_utf8(bytes@) ==> (r matches Err(Blocked::Verdict(why)) && why@
            == NOT_TEXT@),
{
    let decoded = from_utf8(bytes);
    text_or_verdict(decoded)
}

// -------------------------------------------------------------- the trail

/// The first two lines of a submission's trail.
pub open spec fn first_trail(number: i64, language: i64, sid: i64) -> Seq<Seq<char>> {
    seq![
        "submitted problem "@ + signed_decimal(number as int) + " as language "@
            + signed_decimal(language as int),
        "sid: "@ + signed_decimal(sid as int),
    ]
}

/// What a submission's trail starts with: what was sent, and the id it got.
pub fn submission_trail(number: i64, language: i64, sid: i64) -> (trail: Vec<String>)
    ensures
        trail.deep_view() == first_trail(number, language, sid),
{
    let mut sent = String::from_str("submitted problem ");
    crate::text::push_signed(&mut sent, number);
    sent.append(" as language ");
    crate::text::push_signed(&mut sent, language);
    let mut id = String::from_str("sid: ");
    crate::text::push_signed(&mut id, sid);
    let mut trail: Vec<String> = Vec::new();
    trail.push(sent);
    trail.push(id);
    assert(trail.deep_view() =~= first_trail(number, language, sid));
    trail
}

/// Lines joined by a newline, as a log is written.
pub open spec fn lines(trail: Seq<Seq<char>>) -> Seq<char>
    decreases trail.len(),
{
    if trail.len() == 0 {
        Seq::empty()
    } else if trail.len() == 1 {
        trail[0]
    } else {
        lines(trail.drop_last()) + seq!['\n'] + trail.last()
    }
}

/// The log attached to an attempt: the trail, one line each, or nothing when
/// there is no trail.
pub fn log_text(trail: &[String]) -> (log: Option<String>)
    ensures
        match log {
            Some(l) => trail@.len() > 0 && l@ == lines(trail@.map_values(|s: String| s@)),
            None => trail@.len() == 0,
        },
{
    let ghost all = trail@.map_values(|s: String| s@);
    if trail.len() == 0 {
        return None;
    }
    let mut log = trail[0].clone();
    assert(all.take(1) =~= seq![all[0]]);
    for i in 1..trail.len()
        invariant
            all == trail@.map_values(|s: String| s@),
            all.len() == trail@.len(),
            1 <= i <= trail@.len(),
            log@ == lines(all.take(i as int)),
    {
        log.append("\n");
        log.append(trail[i].as_str());
        proof {
            reveal_strlit("\n");
            let next = all.take(i + 1);
            assert(next.drop_last() =~= all.take(i as int));
            assert(log@ =~= lines(next));
        }
    }
    assert(all.take(trail@.len() as int) =~= all);
    Some(log)
}

// ----------------------------------------------------------- the handover

/// What the Server is told when the judge did not take a submission.
pub open spec fn refusal_text(judge: Seq<char>, refused: Refused) -> Seq<char> {
    match refused {
        Refused::SessionLapsed => "the "@ + judge + " session had lapsed"@,
        Refused::AcceptedWithoutAnId => judge
            + " received the submission and did not say which id it gave it. It is on the account and cannot be matched to this job — look at the account before rejudging, or the participant gets two rows for one attempt"@,
        Refused::Site(why) => judge + " refused the submission: "@ + why@,
    }
}

/// What the Server is told when the judge did not take a submission.
///
/// **The judge is named here rather than by the refusal.** One wording for
/// every integration would drop the only word an operator reading a failed
/// submission needs.
pub fn refusal(judge: &str, refused: &Refused) -> (why: String)
    ensures
        why@ == refusal_text(judge@, *refused),
{
    match refused {
        Refused::SessionLapsed => {
            let mut why = joined("the ", judge);
            why.append(" session had lapsed");
            why
        },
        Refused::AcceptedWithoutAnId => joined(
            judge,
            " received the submission and did not say which id it gave it. It is on the account and cannot be matched to this job — look at the account before rejudging, or the participant gets two rows for one attempt",
        ),
        Refused::Site(site) => {
            let mut why = joined(judge, " refused the submission: ");
            why.append(site.as_str());
            why
        },
    }
}

// ------------------------------------------------------------ the answers

/// What an answer settles.
#[derive(Debug, Clone, PartialEq, Eq)]
pub enum Settled {
    /// The judge decided, and this assignment counts it as `solved` or not.
    Judged { verdict: &'static str, abbreviation: &'static str, solved: bool },
    /// The judge never formed an opinion; `why` says whether asking again
    /// could help.
    Failed { why: String },
}

/// Whether a settled answer is what an outcome settles.
pub open spec fn settled_as(s: Option<Settled>, outcome: Outcome, accepted: Seq<Seq<char>>) -> bool {
    match (s, outcome) {
        (None, Outcome::Pending) => true,
        (
            Some(Settled::Judged { verdict, abbreviation, solved }),
            Outcome::Judged { verdict: v, abbreviation: a },
        ) => verdict == v && abbreviation == a && solved == counts_as_solved(a@, accepted),
        (Some(Settled::Failed { why }), Outcome::Failed { reason, permanent }) => why@
            == failure_text(reason@, permanent),
        _ => false,
    }
}

/// What an outcome settles for an assignment that counts `accepted` as solved.
///
/// **The score is the assignment's, not the judge's**: the same verdict is a
/// solve in a course that accepts it and not in a contest that does not.
pub fn settle(outcome: Outcome, accepted: &[String]) -> (s: Option<Settled>)
    ensures
        settled_as(s, outcome, accepted@.map_values(|t: String| t@)),
{
    match outcome {
        Outcome::Pending => None,
        Outcome::Judged { verdict, abbreviation } => Some(
            Settled::Judged { verdict, abbreviation, solved: solved(abbreviation, accepted) },
        ),
        Outcome::Failed { reason, permanent } => Some(
            Settled::Failed { why: failure_reason(reason, permanent) },
        ),
    }
}

/// Whether `after` is `before` with one more line at the end of its trail.
pub open spec fn appended(before: Entry, after: Entry, line: String) -> bool {
    &&& after.trail@ == before.trail@.push(line)
    &&& after.job_id == before.job_id
    &&& after.lease_token == before.lease_token
    &&& after.problem_number == before.problem_number
    &&& after.pid == before.pid
    &&& after.language_id == before.language_id
    &&& after.sent == before.sent
    &&& after.announced == before.announced
    &&& after.unreachable == before.unreachable
    &&& after.accepted == before.accepted
}

/// One answer from the judge, recorded against what it answers.
///
/// **A row that is not ours is silence**, and so is one that names another
/// problem than the one sent: the account is shared, and a mismatch means our
/// own bookkeeping is wrong, which no report would mend. A row that is ours has
/// `evidence` — the row verbatim — appended to the entry's trail whatever it
/// says, and settles what `outcome` settles. The entry stays in the set: it is
/// taken out when its report goes.
pub fn record(pending: &mut Pending, row: &Row, outcome: Outcome, evidence: String) -> (s: Option<
    Settled,
>)
    ensures
        match_of(old(pending)@, row.sid, row.pid) == Some(None::<(i64, i64)>) ==> {
            &&& final(pending)@.dom() == old(pending)@.dom()
            &&& appended(old(pending)@[row.sid], final(pending)@[row.sid], evidence)
            &&& forall|k: i64|
                k != row.sid && #[trigger] old(pending)@.contains_key(k) ==> final(pending)@[k]
                    == old(pending)@[k]
            &&& settled_as(
                s,
                outcome,
                old(pending)@[row.sid].accepted@.map_values(|t: String| t@),
            )
        },
        match_of(old(pending)@, row.sid, row.pid) != Some(None::<(i64, i64)>) ==> {
            &&& final(pending)@ == old(pending)@
            &&& s is None
        },
{
    let ours = match pending.matched(row) {
        Matched::Ours(_) => true,
        _ => false,
    };
    if !ours {
        return None;
    }
    match pending.get_mut(row.sid) {
        Some(entry) => {
            entry.trail.push(evidence);
            settle(outcome, entry.accepted.as_slice())
        },
        None => None,
    }
}

/// The entry a submission the judge accepted is held under.
///
/// What it was sent as, what it counts as solved, and when the judge took it:
/// the timeout runs from here, not from the claim. Its trail starts with what
/// was sent and the id it got; nothing is announced and no renewal has failed
/// yet.
pub fn submitted_entry(
    job_id: &str,
    lease_token: &str,
    setup: Setup,
    pid: i64,
    language: i64,
    sid: i64,
    sent: u64,
) -> (entry: Entry)
    ensures
        entry.job_id@ == job_id@,
        entry.lease_token@ == lease_token@,
        entry.problem_number == setup.number,
        entry.pid == pid,
        entry.language_id == language,
        entry.sent == sent,
        !entry.announced,
        entry.unreachable == 0,
        entry.accepted == setup.accepted,
        entry.trail.deep_view() == first_trail(setup.number, language, sid),
{
    let trail = submission_trail(setup.number, language, sid);
    Entry {
        job_id: job_id.to_owned(),
        lease_token: lease_token.to_owned(),
        problem_number: setup.number,
        pid,
        language_id: language,
        sent,
        announced: false,
        unreachable: 0,
        accepted: setup.accepted,
        trail,
    }
}

// ------------------------------------------------------------- giving up

/// What the Server is told about a submission the judge did not answer in
/// time.
pub open spec fn expiry_text(judge: Seq<char>, sid: i64, timeout: u64) -> Seq<char> {
    judge + " did not judge submission "@ + signed_decimal(sid as int) + " within "@
        + signed_decimal(timeout as int) + " seconds"@
}

/// What the Server is told about a submission the judge did not answer in
/// time.
pub fn expiry_reason(judge: &str, sid: i64, timeout: u64) -> (why: String)
    ensures
        why@ == expiry_text(judge@, sid, timeout),
{
    let mut why = joined(judge, " did not judge submission ");
    crate::text::push_signed(&mut why, sid);
    why.append(" within ");
    crate::text::push_decimal(&mut why, timeout);
    why.append(" seconds");
    proof {
        assert(signed_decimal(timeout as int) == decimal(timeout as nat));
    }
    why
}

/// What the Server is told about a submission this Runner stopped holding
/// because the Server itself could not be reached.
pub open spec fn give_up_text(judge: Seq<char>, sid: i64, consecutive: u32) -> Seq<char> {
    "the Server could not be reached for "@ + signed_decimal(consecutive as int)
        + " renewal cycles in a row, so this Runner stopped holding submission "@
        + signed_decimal(sid as int) + " on "@ + judge
        + ". The submission is on the account and was never collected; a rejudge would send it again"@
}

/// What the Server is told about a submission this Runner stopped holding
/// because the Server itself could not be reached.
///
/// **Said, because the submission is on somebody else's account** and a
/// rejudge would put a second one there.
pub fn give_up_reason(judge: &str, sid: i64, consecutive: u32) -> (why: String)
    ensures
        why@ == give_up_text(judge@, sid, consecutive),
{
    let mut why = String::from_str("the Server could not be reached for ");
    crate::text::push_decimal(&mut why, consecutive as u64);
    why.append(" renewal cycles in a row, so this Runner stopped holding submission ");
    crate::text::push_signed(&mut why, sid);
    why.append(" on ");
    why.append(judge);
    why.append(
        ". The submission is on the account and was never collected; a rejudge would send it again",
    );
    proof {
        assert(signed_decimal(consecutive as int) == decimal(consecutive as nat));
    }
    why
}

/// The count `Pending::renewal` keeps after a run of renewal answers, from
/// none: any answer from the Server starts it again.
pub open spec fn count_of(answers: Seq<Standing>) -> u32
    decreases answers.len(),
{
    if answers.len() == 0 {
        0
    } else {
        unreachable_count(answers.last() != Standing::Unreachable, count_of(answers.drop_last()))
    }
}

/// **The count is the run of unreachable answers at the end, and nothing
/// older.** Whatever came before the last answer that reached the Server, the
/// count after `k` unreachable answers is `k`; so a job is given up exactly
/// at the renewal that makes the run as long as the ceiling.
pub proof fn lemma_the_count_is_the_latest_run(before: Seq<Standing>, reached: Standing, k: nat)
    requires
        reached != Standing::Unreachable,
        k <= u32::MAX,
    ensures
        count_of(before.push(reached) + Seq::new(k, |i: int| Standing::Unreachable)) == k,
    decreases k,
{
    let run = before.push(reached) + Seq::new(k, |i: int| Standing::Unreachable);
    if k == 0 {
        assert(run =~= before.push(reached));
        assert(run.drop_last() =~= before);
    } else {
        let shorter = before.push(reached) + Seq::new((k - 1) as nat, |i: int| Standing::Unreachable);
        lemma_the_count_is_the_latest_run(before, reached, (k - 1) as nat);
        assert(run.drop_last() =~= shorter);
        assert(run.last() == Standing::Unreachable);
    }
}

/// **A job is given up at the ceiling-th renewal in a row that did not reach
/// the Server, and not one renewal sooner.**
pub proof fn lemma_given_up_at_the_ceiling(before: Seq<Standing>, reached: Standing, k: nat, ceiling: u32)
    requires
        reached != Standing::Unreachable,
        1 <= k <= u32::MAX,
    ensures
        decision(
            Standing::Unreachable,
            count_of(before.push(reached) + Seq::new(k, |i: int| Standing::Unreachable)),
            ceiling,
        ) == (if k >= ceiling {
            Action::GiveUp
        } else {
            Action::KeepWaiting
        }),
{
    lemma_the_count_is_the_latest_run(before, reached, k);
}

/// How long an entry has waited by `now`.
pub open spec fn waited(entry: Entry, now: u64) -> u64 {
    if now >= entry.sent {
        (now - entry.sent) as u64
    } else {
        0
    }
}

/// How long the oldest outstanding submission has waited, by `now`; nothing
/// outstanding has waited nothing.
///
/// What the judge's poll interval escalates on: the interval grows with how
/// long the oldest has been waiting, not with how many are.
pub fn oldest_wait(pending: &Pending, now: u64) -> (oldest: u64)
    ensures
        forall|sid: i64| #[trigger] pending@.contains_key(sid) ==> waited(pending@[sid], now) <= oldest,
        pending@ == Map::<i64, Entry>::empty() ==> oldest == 0,
        oldest > 0 ==> exists|sid: i64| #[trigger] pending@.contains_key(sid) && waited(pending@[sid], now) == oldest,
{
    let all = pending.iter();
    let ghost ids = crate::pending::ids_in(all@);
    let mut oldest: u64 = 0;
    for i in 0..all.len()
        invariant
            ids == crate::pending::ids_in(all@),
            forall|sid: i64| #[trigger] ids.contains(sid) <==> pending@.contains_key(sid),
            forall|j: int| 0 <= j < all@.len() ==> *(#[trigger] all@[j]).1 == pending@[all@[j].0],
            forall|j: int| 0 <= j < i ==> waited(*(#[trigger] all@[j]).1, now) <= oldest,
            oldest > 0 ==> exists|j: int| 0 <= j < i && waited(*(#[trigger] all@[j]).1, now) == oldest,
    {
        let entry = all[i].1;
        let w: u64 = if now >= entry.sent {
            now - entry.sent
        } else {
            0
        };
        if w > oldest {
            oldest = w;
        }
    }
    proof {
        assert forall|sid: i64| #[trigger] pending@.contains_key(sid) implies waited(pending@[sid], now) <= oldest by {
            assert(ids.contains(sid));
            let j = choose|j: int| 0 <= j < ids.len() && ids[j] == sid;
            assert(all@[j].0 == sid);
            assert(waited(*all@[j].1, now) <= oldest);
        }
        if oldest > 0 {
            let j = choose|j: int| 0 <= j < all@.len() && waited(*(#[trigger] all@[j]).1, now) == oldest;
            let sid = all@[j].0;
            assert(ids[j] == sid);
            assert(ids.contains(sid));
            assert(pending@.contains_key(sid));
        }
    }
    oldest
}

// ---------------------------------------------------- the Server's refusals

/// A refusal from the Server, as the protocol's own classifiers read it.
#[derive(Debug, Clone, Copy, PartialEq, Eq, Structural)]
pub struct Trouble {
    /// The lease is gone: somebody else holds the job now.
    pub lease_lost: bool,
    /// This Runner's key has been revoked.
    pub revoked: bool,
    /// The token lapsed; a new handshake is needed.
    pub needs_handshake: bool,
    /// Registered, and not yet approved by a manager.
    pub not_approved: bool,
    /// Asking again could get another answer.
    pub retryable: bool,
    /// The Server is up and not serving.
    pub unavailable: bool,
    /// The Server is under maintenance.
    pub in_maintenance: bool,
}

/// What the loop does next.
#[derive(Debug, Clone, PartialEq, Eq)]
pub enum Next {
    /// Carry on to the next step.
    Proceed,
    /// Wait this Runner's own backoff, or until it is told to stop, and ask
    /// again.
    Wait,
    /// Wait out a Server that is up and declining to serve: the longer of this
    /// Runner's backoff and what the Server asked for, with `/health` read and
    /// said.
    WaitOut,
    /// The token lapsed: forget it, be admitted again, carry on.
    Handshake,
    /// Say so, and carry on after the backoff.
    Warn,
    /// The lease is gone: drop the answer, say so, and report nothing.
    Drop,
    /// The Server has decided: asking again with the same body gets the same
    /// answer.
    Abandon,
    /// Stop, with the reason a person reads.
    Stop(String),
}

pub enum NextView {
    Proceed,
    Wait,
    WaitOut,
    Handshake,
    Warn,
    Drop,
    Abandon,
    Stop(Seq<char>),
}

impl View for Next {
    type V = NextView;

    open spec fn view(&self) -> NextView {
        match self {
            Next::Proceed => NextView::Proceed,
            Next::Wait => NextView::Wait,
            Next::WaitOut => NextView::WaitOut,
            Next::Handshake => NextView::Handshake,
            Next::Warn => NextView::Warn,
            Next::Drop => NextView::Drop,
            Next::Abandon => NextView::Abandon,
            Next::Stop(why) => NextView::Stop(why@),
        }
    }
}

/// Whether waiting could change the Server's answer.
pub open spec fn passing(t: Trouble) -> bool {
    t.retryable || t.unavailable || t.in_maintenance
}

/// What a revoked key is told.
pub open spec fn revoked_text(detail: Seq<char>) -> Seq<char> {
    "this Runner's key has been revoked; it needs a new key and a new registration, which no retry can do: "@
        + detail
}

fn revoked_reason(detail: &str) -> (why: String)
    ensures
        why@ == revoked_text(detail@),
{
    joined(
        "this Runner's key has been revoked; it needs a new key and a new registration, which no retry can do: ",
        detail,
    )
}

/// What a registration the Server answered leads to.
pub open spec fn after_registered(approved: bool, theirs: Seq<char>, mine: Seq<char>) -> NextView {
    if !approved {
        NextView::Wait
    } else if theirs != mine {
        NextView::Stop(
            "the Server registered the fingerprint "@ + theirs + " and this Runner holds "@ + mine
                + "; the key on disk is not the key the Server knows"@,
        )
    } else {
        NextView::Proceed
    }
}

/// What a registration the Server answered leads to.
///
/// **The Server's answer names the key it registered.** A mismatch means this
/// process holds one key and the Server another, and every claim after it
/// would be refused for a reason that reads like somebody else's fault.
pub fn registered(approved: bool, theirs: &str, mine: &str) -> (next: Next)
    ensures
        next@ == after_registered(approved, theirs@, mine@),
{
    if !approved {
        Next::Wait
    } else if !same(theirs, mine) {
        let mut why = joined("the Server registered the fingerprint ", theirs);
        why.append(" and this Runner holds ");
        why.append(mine);
        why.append("; the key on disk is not the key the Server knows");
        Next::Stop(why)
    } else {
        Next::Proceed
    }
}

/// What a refused registration leads to.
pub open spec fn after_registration_refused(t: Trouble, detail: Seq<char>) -> NextView {
    if t.revoked {
        NextView::Stop(revoked_text(detail))
    } else if passing(t) {
        NextView::WaitOut
    } else {
        NextView::Stop("the Server refused the registration: "@ + detail)
    }
}

/// What a refused registration leads to. **A revoked key is finished**, and
/// no amount of waiting revives it.
pub fn registration_refused(t: Trouble, detail: &str) -> (next: Next)
    ensures
        next@ == after_registration_refused(t, detail@),
{
    if t.revoked {
        Next::Stop(revoked_reason(detail))
    } else if t.retryable || t.unavailable || t.in_maintenance {
        Next::WaitOut
    } else {
        Next::Stop(joined("the Server refused the registration: ", detail))
    }
}

/// What a refused handshake leads to.
pub open spec fn after_handshake_refused(t: Trouble, detail: Seq<char>) -> NextView {
    if t.not_approved {
        NextView::Wait
    } else if t.revoked {
        NextView::Stop(revoked_text(detail))
    } else if passing(t) {
        NextView::Wait
    } else {
        NextView::Stop("the Server refused the handshake: "@ + detail)
    }
}

/// What a refused handshake leads to: still waiting for a manager is a wait
/// like a Server that could not answer.
pub fn handshake_refused(t: Trouble, detail: &str) -> (next: Next)
    ensures
        next@ == after_handshake_refused(t, detail@),
{
    if t.not_approved {
        Next::Wait
    } else if t.revoked {
        Next::Stop(revoked_reason(detail))
    } else if t.retryable || t.unavailable || t.in_maintenance {
        Next::Wait
    } else {
        Next::Stop(joined("the Server refused the handshake: ", detail))
    }
}

/// What a refused claim leads to.
pub open spec fn after_claim_refused(t: Trouble, detail: Seq<char>) -> NextView {
    if t.needs_handshake {
        NextView::Handshake
    } else if t.unavailable || t.in_maintenance {
        NextView::WaitOut
    } else if t.revoked {
        NextView::Stop(revoked_text(detail))
    } else {
        NextView::Warn
    }
}

/// What a refused claim leads to. **Up and declining to serve is not the same
/// as broken**: that window is waited out, with the Server's own reason.
pub fn claim_refused(t: Trouble, detail: &str) -> (next: Next)
    ensures
        next@ == after_claim_refused(t, detail@),
{
    if t.needs_handshake {
        Next::Handshake
    } else if t.unavailable || t.in_maintenance {
        Next::WaitOut
    } else if t.revoked {
        Next::Stop(revoked_reason(detail))
    } else {
        Next::Warn
    }
}

/// What a refused report leads to.
pub open spec fn after_report_refused(t: Trouble) -> NextView {
    if t.lease_lost {
        NextView::Drop
    } else if !passing(t) {
        NextView::Abandon
    } else {
        NextView::Wait
    }
}

/// What a refused report leads to. The report is idempotent, so trying again
/// is always safe — **a lost lease is the one answer to stop on**, and a
/// refusal is the Server having decided.
pub fn report_refused(t: Trouble) -> (next: Next)
    ensures
        next@ == after_report_refused(t),
{
    if t.lease_lost {
        Next::Drop
    } else if !(t.retryable || t.unavailable || t.in_maintenance) {
        Next::Abandon
    } else {
        Next::Wait
    }
}

// ------------------------------------------------------------ the intake

/// What the intake does before it asks the Server for work.
#[derive(Debug, Clone, Copy, PartialEq, Eq, Structural)]
pub enum Intake {
    /// Told to stop: ask for nothing more.
    Stop,
    /// As many submissions outstanding as may be: wait rather than spin.
    Full,
    /// Ask for a job.
    Claim,
}

/// What the intake does before it asks the Server for work.
pub open spec fn intake_step(stopping: bool, outstanding: usize, max_pending: usize) -> Intake {
    if stopping {
        Intake::Stop
    } else if outstanding >= max_pending {
        Intake::Full
    } else {
        Intake::Claim
    }
}

/// What the intake does before it asks the Server for work. **A stop comes
/// first**, and what protects the archive is the gap between submissions, not
/// this ceiling.
pub fn before_claim(stopping: bool, outstanding: usize, max_pending: usize) -> (next: Intake)
    ensures
        next == intake_step(stopping, outstanding, max_pending),
{
    if stopping {
        Intake::Stop
    } else if outstanding >= max_pending {
        Intake::Full
    } else {
        Intake::Claim
    }
}

/// What becomes of a job the Server handed over.
#[derive(Debug, Clone, Copy, PartialEq, Eq, Structural)]
pub enum Arrival {
    /// Hand it to the judge.
    Forward,
    /// Give it straight back, without ever having forwarded it.
    GiveBack,
}

/// What becomes of a job the Server handed over, given whether this Runner
/// has been told to stop by the time it is in hand.
///
/// **A job that arrives as the stop lands is given back and never
/// forwarded**: forwarding it would put a real submission on somebody else's
/// account that this installation is about to abandon, and the next Runner to
/// claim the job would submit it a second time.
pub fn on_arrival(stopping: bool) -> (fate: Arrival)
    ensures
        fate == (if stopping {
            Arrival::GiveBack
        } else {
            Arrival::Forward
        }),
{
    if stopping {
        Arrival::GiveBack
    } else {
        Arrival::Forward
    }
}

/// How long the Server may hold a claim open, when a wait is asked for at
/// all: `0` asks for none.
pub fn claim_wait(poll_wait: u64) -> (wait: Option<u64>)
    ensures
        wait == (if poll_wait > 0 {
            Some(poll_wait)
        } else {
            None::<u64>
        }),
{
    if poll_wait > 0 {
        Some(poll_wait)
    } else {
        None
    }
}

/// Every submission this Runner holds, with the job and the lease it is held
/// under, lowest id first: what a stop hands back, and what a renewal renews.
///
/// **Every one of them**: a job left out here is one that sits out its whole
/// lease after the Runner holding it has gone.
pub fn held(pending: &Pending) -> (all: Vec<(i64, String, String)>)
    ensures
        all@.len() == pending@.dom().len(),
        forall|sid: i64|
            pending@.contains_key(sid) <==> exists|i: int|
                0 <= i < all@.len() && #[trigger] all@[i].0 == sid,
        forall|i: int|
            0 <= i < all@.len() ==> pending@.contains_key((#[trigger] all@[i]).0) && all@[i].1
                == pending@[all@[i].0].job_id && all@[i].2 == pending@[all@[i].0].lease_token,
        forall|i: int, j: int| 0 <= i < j < all@.len() ==> all@[i].0 < all@[j].0,
{
    let entries = pending.iter();
    let ghost ids = ids_in(entries@);
    let mut all: Vec<(i64, String, String)> = Vec::new();
    for k in 0..entries.len()
        invariant
            ids == ids_in(entries@),
            forall|sid: i64| #[trigger] ids.contains(sid) <==> pending@.contains_key(sid),
            forall|j: int|
                0 <= j < entries@.len() ==> *(#[trigger] entries@[j]).1 == pending@[entries@[j].0],
            crate::pending::increasing(ids),
            all@.len() == k,
            forall|j: int| 0 <= j < k ==> (#[trigger] all@[j]).0 == ids[j],
            forall|j: int|
                0 <= j < k ==> (#[trigger] all@[j]).1 == pending@[ids[j]].job_id && all@[j].2
                    == pending@[ids[j]].lease_token,
    {
        let (sid, entry) = entries[k];
        assert(ids[k as int] == sid);
        all.push((sid, entry.job_id.clone(), entry.lease_token.clone()));
    }
    proof {
        assert forall|sid: i64| pending@.contains_key(sid) <==> exists|i: int|
            0 <= i < all@.len() && #[trigger] all@[i].0 == sid by {
            if pending@.contains_key(sid) {
                assert(ids.contains(sid));
                let i = choose|i: int| 0 <= i < ids.len() && ids[i] == sid;
                assert(all@[i].0 == sid);
            }
            if exists|i: int| 0 <= i < all@.len() && #[trigger] all@[i].0 == sid {
                let i = choose|i: int| 0 <= i < all@.len() && #[trigger] all@[i].0 == sid;
                assert(ids[i] == sid);
                assert(ids.contains(sid));
            }
        }
        assert forall|i: int| 0 <= i < all@.len() implies pending@.contains_key((#[trigger] all@[i]).0) by {
            assert(ids.contains(ids[i]));
        }
        lemma_increasing_ids_count(ids, pending@.dom());
    }
    all
}

/// An increasing list holding exactly the members of a set has as many items
/// as the set.
proof fn lemma_increasing_ids_count(ids: Seq<i64>, keys: Set<i64>)
    requires
        crate::pending::increasing(ids),
        forall|sid: i64| #[trigger] ids.contains(sid) <==> keys.contains(sid),
    ensures
        keys.finite(),
        ids.len() == keys.len(),
{
    assert(ids.no_duplicates()) by {
        assert forall|i: int, j: int| 0 <= i < ids.len() && 0 <= j < ids.len() && i != j implies ids[i] != ids[j] by {
            if i < j {
                assert(ids[i] < ids[j]);
            } else {
                assert(ids[j] < ids[i]);
            }
        }
    }
    assert(ids.to_set() =~= keys);
    vstd::seq_lib::seq_to_set_is_finite(ids);
    ids.unique_seq_to_set();
}

// ---------------------------------------------------------- the collecting

/// What one pass of the collecting does: renew every held lease, ask the
/// judge about everything outstanding, or both.
#[derive(Debug, Clone, Copy, PartialEq, Eq, Structural)]
pub struct Pass {
    pub renew: bool,
    pub collect: bool,
}

/// What a pass at `now` does: whatever has come due.
pub open spec fn pass_at(now: u64, renew_at: u64, collect_at: u64) -> Pass {
    Pass { renew: now >= renew_at, collect: now >= collect_at }
}

/// What a pass at `now` does: **whatever has come due**, each on its own
/// deadline. Renewal keeps the interval's cadence however often a sign pulls
/// collecting forward, because the ceiling counts renewal cycles.
pub fn pass(now: u64, renew_at: u64, collect_at: u64) -> (p: Pass)
    ensures
        p == pass_at(now, renew_at, collect_at),
{
    Pass { renew: now >= renew_at, collect: now >= collect_at }
}

/// When something done at `ended` is next due: one cycle later, or at the end
/// of the clock.
pub open spec fn due_after(ended: u64, cycle: u64) -> u64 {
    if ended + cycle <= u64::MAX {
        (ended + cycle) as u64
    } else {
        u64::MAX
    }
}

/// When something done at `ended` is next due: one cycle later.
pub fn next_due(ended: u64, cycle: u64) -> (at: u64)
    ensures
        at == due_after(ended, cycle),
{
    if ended <= u64::MAX - cycle {
        ended + cycle
    } else {
        u64::MAX
    }
}

/// How long to sleep at `now`: until the earlier of the two deadlines, and
/// not at all when one has passed.
pub open spec fn sleep_until_due(now: u64, renew_at: u64, collect_at: u64) -> u64 {
    let due = if renew_at <= collect_at {
        renew_at
    } else {
        collect_at
    };
    if due > now {
        (due - now) as u64
    } else {
        0
    }
}

/// How long to sleep at `now`: until the earlier of the two deadlines.
pub fn sleep_for(now: u64, renew_at: u64, collect_at: u64) -> (wait: u64)
    ensures
        wait == sleep_until_due(now, renew_at, collect_at),
{
    let due = if renew_at <= collect_at {
        renew_at
    } else {
        collect_at
    };
    if due > now {
        due - now
    } else {
        0
    }
}

/// The deadlines after a sign from the judge's live channel: **collecting is
/// due at once**, and renewal keeps its own.
pub fn on_sign(now: u64, renew_at: u64) -> (deadlines: (u64, u64))
    ensures
        deadlines == (renew_at, now),
{
    (renew_at, now)
}

/// Whether the waiters on the live channel are told that nothing is left to
/// hear about: exactly when nothing is outstanding.
pub fn settled_after(outstanding: usize) -> (settled: bool)
    ensures
        settled == (outstanding == 0),
{
    outstanding == 0
}

/// **A held lease is renewed once per cycle.** After a renewal that ended at
/// `ended`, the next renewal is due one cycle later; no sleep the collecting
/// takes runs past that deadline (unless it has already passed, when there is
/// no sleep at all), and a pass at any moment from the deadline on renews.
pub proof fn lemma_renewed_once_per_cycle(ended: u64, cycle: u64, now: u64, collect_at: u64, woke: u64)
    ensures
        now + sleep_until_due(now, due_after(ended, cycle), collect_at) <= if now
            <= due_after(ended, cycle) {
            due_after(ended, cycle) as int
        } else {
            now as int
        },
        woke >= due_after(ended, cycle) ==> pass_at(woke, due_after(ended, cycle), collect_at).renew,
        ended + cycle <= u64::MAX ==> due_after(ended, cycle) == ended + cycle,
{
}

// ------------------------------------------- what the Server's refusals lead to

/// **A refused report is given up only when it is the Server's decision.** A
/// lost lease drops the answer; a refusal that is neither retryable, nor from
/// a Server that is unavailable or under maintenance, abandons it; every
/// other refusal is waited out and the report, which is idempotent, sent
/// again. Nothing else can come of it.
pub proof fn lemma_a_report_is_abandoned_only_when_refused_for_good(t: Trouble)
    ensures
        (after_report_refused(t) == NextView::Drop) == t.lease_lost,
        (after_report_refused(t) == NextView::Abandon) == (!t.lease_lost && !t.retryable
            && !t.unavailable && !t.in_maintenance),
        (after_report_refused(t) == NextView::Wait) == (!t.lease_lost && (t.retryable
            || t.unavailable || t.in_maintenance)),
{
}

/// **A transient refusal never stops a registering Runner.** A revoked key
/// stops it, naming the revocation; otherwise a refusal that is retryable, or
/// from a Server that is unavailable or under maintenance, is waited out; any
/// other stops it, naming the refusal.
pub proof fn lemma_registration_stops_only_for_good(t: Trouble, detail: Seq<char>)
    ensures
        (after_registration_refused(t, detail) == NextView::WaitOut) == (!t.revoked && (t.retryable
            || t.unavailable || t.in_maintenance)),
        t.revoked ==> after_registration_refused(t, detail) == NextView::Stop(
            "this Runner's key has been revoked; it needs a new key and a new registration, which no retry can do: "@
                + detail,
        ),
        (!t.revoked && !t.retryable && !t.unavailable && !t.in_maintenance)
            ==> after_registration_refused(t, detail) == NextView::Stop(
            "the Server refused the registration: "@ + detail,
        ),
{
}

/// **A handshake that could still succeed is tried again.** Waiting for a
/// manager's approval, a retryable refusal, an unavailable Server and one under
/// maintenance all wait; a revoked key stops the Runner unless approval is
/// what it is still waiting for; any other refusal stops it.
pub proof fn lemma_a_handshake_stops_only_for_good(t: Trouble, detail: Seq<char>)
    ensures
        (after_handshake_refused(t, detail) == NextView::Wait) == (t.not_approved || (!t.revoked
            && (t.retryable || t.unavailable || t.in_maintenance))),
        (!t.not_approved && t.revoked) ==> after_handshake_refused(t, detail) == NextView::Stop(
            "this Runner's key has been revoked; it needs a new key and a new registration, which no retry can do: "@
                + detail,
        ),
        (!t.not_approved && !t.revoked && !t.retryable && !t.unavailable && !t.in_maintenance)
            ==> after_handshake_refused(t, detail) == NextView::Stop(
            "the Server refused the handshake: "@ + detail,
        ),
{
}

/// **What a refused claim leads to.** A lapsed token is a new handshake; an
/// unavailable Server or one under maintenance is waited out; a revoked key
/// stops the Runner; anything else is said and the intake backs off.
pub proof fn lemma_a_refused_claim_stops_only_on_a_revoked_key(t: Trouble, detail: Seq<char>)
    ensures
        (after_claim_refused(t, detail) == NextView::Handshake) == t.needs_handshake,
        (after_claim_refused(t, detail) == NextView::WaitOut) == (!t.needs_handshake && (t.unavailable
            || t.in_maintenance)),
        (after_claim_refused(t, detail) is Stop) == (!t.needs_handshake && !t.unavailable
            && !t.in_maintenance && t.revoked),
        (after_claim_refused(t, detail) == NextView::Warn) == (!t.needs_handshake && !t.unavailable
            && !t.in_maintenance && !t.revoked),
{
}

/// **An approved registration goes on only under this Runner's own key.** An
/// unapproved one waits; one the Server registered under another fingerprint
/// stops, naming both.
pub proof fn lemma_admitted_only_under_its_own_key(approved: bool, theirs: Seq<char>, mine: Seq<char>)
    ensures
        (after_registered(approved, theirs, mine) == NextView::Proceed) == (approved && theirs
            == mine),
        (after_registered(approved, theirs, mine) == NextView::Wait) == !approved,
        (approved && theirs != mine) ==> after_registered(approved, theirs, mine) is Stop,
{
}

/// **A stop comes before anything, and a full set asks for nothing.** The
/// intake claims only when it has not been told to stop and fewer
/// submissions are outstanding than may be.
pub proof fn lemma_a_claim_is_made_only_with_room_and_no_stop(
    stopping: bool,
    outstanding: usize,
    max_pending: usize,
)
    ensures
        (intake_step(stopping, outstanding, max_pending) == Intake::Stop) == stopping,
        (intake_step(stopping, outstanding, max_pending) == Intake::Claim) == (!stopping
            && outstanding < max_pending),
        (intake_step(stopping, outstanding, max_pending) == Intake::Full) == (!stopping
            && outstanding >= max_pending),
{
}

/// **A claim counts as held only when a wait was asked for and the answer
/// took at least half of it**; a longer answer to the same claim is held too,
/// and with no wait nothing is.
pub proof fn lemma_held_is_told_by_how_long_it_took(wait: Option<u64>, elapsed: u64, later: u64)
    ensures
        wait is None ==> !was_held(wait, elapsed),
        wait matches Some(w) ==> (was_held(wait, elapsed) == (2 * elapsed >= w
            - w % 2)),
        (was_held(wait, elapsed) && elapsed <= later) ==> was_held(wait, later),
        wait matches Some(w) ==> was_held(wait, w),
{
}

/// **The longer of the two waits, and never shorter than this Runner's own.**
/// What the Server asked for is honoured only when it is longer.
pub proof fn lemma_the_longer_wait_wins(mine: u64, asked: Option<u64>)
    ensures
        longer(mine, asked) >= mine,
        asked matches Some(a) ==> longer(mine, asked) >= a,
        longer(mine, asked) == mine || asked == Some(longer(mine, asked)),
{
}

/// **The file named `source` is the source whenever there is one**, and the
/// first file otherwise; a submission with no files has none.
pub proof fn lemma_the_source_is_the_file_named_source(names: Seq<Seq<char>>, at: int)
    ensures
        source_at(names, at) ==> 0 <= at < names.len(),
        (source_at(names, at) && names.contains("source"@)) ==> names[at] == "source"@,
        (source_at(names, at) && !names.contains("source"@)) ==> at == 0,
        (names.len() > 0 && names[0] == "source"@) ==> source_at(names, 0),
{
    if names.len() > 0 && names[0] == "source"@ {
        assert(names.contains("source"@));
    }
}

} // verus!
