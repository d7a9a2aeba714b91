//! onlinejudge.org: one session, and the submissions made through it.
//!
//! Submitting is an HTML form flow, not an API, so this is the part most likely
//! to be broken by somebody else's layout change. Two habits keep that
//! survivable: the form is found by its **id** rather than by counting tags,
//! and a failure to submit is told apart from a session that lapsed.
//!
//! The requests are made where the network is; what a page says, what a form
//! carries, and what to do after an attempt are decided here.

use vstd::prelude::*;

pub use crate::integration::Refused;
use crate::text::{
    all_digits, ascii_lowered, chars_of, contains, digits_value, find, is_digit, occurs,
    occurs_at, parse_digits_i64, signed_decimal, signed_text, to_ascii_lowercase,
};

verus! {

// ------------------------------------------------------------------ the page

/// What a page holds under two CSS selectors: every element that `outer`
/// selects, in document order, and for each of them the `name` and `value`
/// attributes of every element inside it that `inner` selects, in document
/// order; nothing when either selector does not parse.
pub uninterp spec fn selected(page: Seq<char>, outer: Seq<char>, inner: Seq<char>) -> Option<
    Seq<Seq<(Option<Seq<char>>, Option<Seq<char>>)>>,
>;

/// The inputs under each selected element, read with a real HTML parser.
///
/// Trusted: `scraper` parses the page as a browser would (`Html::parse_document`),
/// parses both selectors (`Selector::parse`), selects every element `outer`
/// matches (`Html::select`) and within each every element `inner` matches
/// (`ElementRef::select`), handing back each one's `name` and `value`
/// attributes. What that selects depends on the page and the selectors alone,
/// and is named rather than restated.
#[verifier::external_body]
fn select_within(page: &str, outer: &str, inner: &str) -> (found: Option<
    Vec<Vec<(Option<String>, Option<String>)>>,
>)
    ensures
        match found {
            Some(all) => selected(page@, outer@, inner@) == Some(all.deep_view()),
            None => selected(page@, outer@, inner@) is None,
        },
{
    let document = scraper::Html::parse_document(page);
    let outer = scraper::Selector::parse(outer).ok()?;
    let inner = scraper::Selector::parse(inner).ok()?;
    Some(document.select(&outer).map(|element| element.select(&inner).map(
        |input| (input.value().attr("name").map(str::to_owned), input.value().attr("value").map(str::to_owned)),
    ).collect()).collect())
}

/// The login form, **by its id and not by its position**: the day something
/// is added above it changes nothing.
pub const LOGIN_FORM: &'static str = "#mod_loginform";

/// What the login form carries that the sign-in has to send back.
pub const HIDDEN_INPUT: &'static str = "input[type=hidden]";

/// What the login form on a page holds: the hidden inputs of the first
/// element with id `mod_loginform`; nothing when the page has no such
/// element.
pub open spec fn login_form_of(page: Seq<char>) -> Option<Seq<(Option<Seq<char>>, Option<Seq<char>>)>> {
    match selected(page, LOGIN_FORM@, HIDDEN_INPUT@) {
        Some(forms) => if forms.len() > 0 {
            Some(forms[0])
        } else {
            None
        },
        None => None,
    }
}

/// The first of the selected elements' inputs, when anything was selected.
pub fn first_form(found: Option<Vec<Vec<(Option<String>, Option<String>)>>>) -> (form: Option<
    Vec<(Option<String>, Option<String>)>,
>)
    ensures
        match found {
            Some(all) => if all@.len() > 0 {
                form matches Some(f) && f.deep_view() == all.deep_view()[0]
            } else {
                form is None
            },
            None => form is None,
        },
{
    match found {
        None => None,
        Some(mut all) => {
            if all.len() == 0 {
                return None;
            }
            let ghost before = all.deep_view();
            let ghost first = all@[0];
            let f = all.remove(0);
            assert(f == first);
            assert(before[0] == first.deep_view());
            Some(f)
        },
    }
}

/// The login form's hidden inputs.
fn login_form(page: &str) -> (form: Option<Vec<(Option<String>, Option<String>)>>)
    ensures
        match form {
            Some(inputs) => login_form_of(page@) == Some(inputs.deep_view()),
            None => login_form_of(page@) is None,
        },
{
    first_form(select_within(page, LOGIN_FORM, HIDDEN_INPUT))
}

/// Why a page, a sign-in or a submission did not go as it should.
#[derive(Debug, Clone, PartialEq, Eq)]
pub enum SiteError {
    /// The page carries no `#mod_loginform`.
    NoLoginForm,
    /// The login form carries no named hidden field.
    NoHiddenFields,
    /// The sign-in was answered with the login form again.
    CredentialsRefused,
    /// The sign-in's answer carries no logout link.
    NoSession,
}

pub open spec fn site_error_text(e: SiteError) -> Seq<char> {
    match e {
        SiteError::NoLoginForm => "the login form #mod_loginform is not on the page; the layout changed"@,
        SiteError::NoHiddenFields => "the login form carries no hidden fields; the layout changed"@,
        SiteError::CredentialsRefused => "onlinejudge.org answered the sign-in with the login form again, which is what it does when the credentials are refused"@,
        SiteError::NoSession => "onlinejudge.org's answer to the sign-in carries no logout link, so nothing on it says a session was established"@,
    }
}

impl SiteError {
    /// What a person reads about it.
    pub fn message(&self) -> (m: String)
        ensures
            m@ == site_error_text(*self),
    {
        match self {
            SiteError::NoLoginForm => String::from_str(
                "the login form #mod_loginform is not on the page; the layout changed",
            ),
            SiteError::NoHiddenFields => String::from_str(
                "the login form carries no hidden fields; the layout changed",
            ),
            SiteError::CredentialsRefused => String::from_str(
                "onlinejudge.org answered the sign-in with the login form again, which is what it does when the credentials are refused",
            ),
            SiteError::NoSession => String::from_str(
                "onlinejudge.org's answer to the sign-in carries no logout link, so nothing on it says a session was established",
            ),
        }
    }
}

/// The named hidden inputs, each with its value or nothing.
pub open spec fn named_fields(inputs: Seq<(Option<Seq<char>>, Option<Seq<char>>)>) -> Seq<
    (Seq<char>, Seq<char>),
>
    decreases inputs.len(),
{
    if inputs.len() == 0 {
        Seq::empty()
    } else {
        let before = named_fields(inputs.drop_last());
        match inputs.last().0 {
            Some(name) => before.push(
                (
                    name,
                    match inputs.last().1 {
                        Some(value) => value,
                        None => Seq::empty(),
                    },
                ),
            ),
            None => before,
        }
    }
}

/// The hidden fields out of what the login form holds: the named inputs,
/// refused when there is no form or no named input.
pub fn fields_of_form(form: Option<Vec<(Option<String>, Option<String>)>>) -> (r: Result<
    Vec<(String, String)>,
    SiteError,
>)
    ensures
        match form {
            None => r == Err::<Vec<(String, String)>, SiteError>(SiteError::NoLoginForm),
            Some(inputs) => {
                let fields = named_fields(inputs.deep_view());
                if fields.len() == 0 {
                    r == Err::<Vec<(String, String)>, SiteError>(SiteError::NoHiddenFields)
                } else {
                    r matches Ok(found) && found.deep_view() == fields
                }
            },
        },
{
    let inputs = match form {
        None => return Err(SiteError::NoLoginForm),
        Some(inputs) => inputs,
    };
    let ghost all = inputs.deep_view();
    let mut found: Vec<(String, String)> = Vec::new();
    for i in 0..inputs.len()
        invariant
            all == inputs.deep_view(),
            found.deep_view() == named_fields(all.take(i as int)),
    {
        let ghost t = all.take(i + 1);
        assert(t.drop_last() =~= all.take(i as int));
        assert(t.last() == inputs@[i as int].deep_view());
        match &inputs[i].0 {
            Some(name) => {
                let value = match &inputs[i].1 {
                    Some(value) => value.clone(),
                    None => String::new(),
                };
                let ghost before = found.deep_view();
                found.push((name.clone(), value));
                assert(found.deep_view() =~= before.push(
                    (name@, found@[found@.len() - 1].1@),
                ));
            },
            None => {},
        }
        assert(found.deep_view() =~= named_fields(t));
    }
    assert(all.take(inputs@.len() as int) =~= all);
    if found.len() == 0 {
        return Err(SiteError::NoHiddenFields);
    }
    Ok(found)
}

/// The hidden fields of the login form.
///
/// **They change per response**, so they are read from the page each time and
/// never cached. Found through `#mod_loginform` with a real parser, so the day
/// something is added above the form changes nothing.
pub fn hidden_fields(page: &str) -> (r: Result<Vec<(String, String)>, SiteError>)
    ensures
        match login_form_of(page@) {
            None => r == Err::<Vec<(String, String)>, SiteError>(SiteError::NoLoginForm),
            Some(inputs) => {
                let fields = named_fields(inputs);
                if fields.len() == 0 {
                    r == Err::<Vec<(String, String)>, SiteError>(SiteError::NoHiddenFields)
                } else {
                    r matches Ok(found) && found.deep_view() == fields
                }
            },
        },
{
    fields_of_form(login_form(page))
}

/// Whether this page is still offering the login form.
///
/// **The one signal both directions of the session are read from.** Signed
/// out, `#mod_loginform` is on the page; signed in it is not.
pub fn shows_the_login_form(page: &str) -> (shown: bool)
    ensures
        shown == login_form_of(page@) is Some,
{
    login_form(page).is_some()
}

/// What a sign-in's answer says, when the status already said a web server
/// answered: the login form again is a refusal of the credentials, and a page
/// without a logout link says nothing about a session.
pub open spec fn session_of(page: Seq<char>) -> Result<(), SiteError> {
    if login_form_of(page) is Some {
        Err(SiteError::CredentialsRefused)
    } else if !occurs(ascii_lowered(page), "logout"@) {
        Err(SiteError::NoSession)
    } else {
        Ok(())
    }
}

/// Whether the answer to a sign-in established a session.
///
/// **A 200 is not a session.** onlinejudge.org answers a refused sign-in with
/// 200 and the login page again, so both signals are read, and both are hard:
/// a session wrongly believed in costs submissions to a third party's account,
/// and refusing to go on is the cheaper failure of the two.
pub fn confirm_session(page: &str) -> (r: Result<(), SiteError>)
    ensures
        r == session_of(page@),
{
    if shows_the_login_form(page) {
        return Err(SiteError::CredentialsRefused);
    }
    let lowered = to_ascii_lowercase(page);
    if !contains(lowered.as_str(), "logout") {
        return Err(SiteError::NoSession);
    }
    Ok(())
}

// ------------------------------------------------------------------ the forms

/// What the sign-in posts: the form's hidden fields, then the account.
pub open spec fn login_form_fields(
    hidden: Seq<(Seq<char>, Seq<char>)>,
    username: Seq<char>,
    password: Seq<char>,
) -> Seq<(Seq<char>, Seq<char>)> {
    hidden + seq![
        ("username"@, username),
        ("passwd"@, password),
        ("remember"@, "yes"@),
        ("Submit"@, "Login"@),
    ]
}

/// What the sign-in posts. **No credential reaches a log line here.**
pub fn login_fields(hidden: Vec<(String, String)>, username: &str, password: &str) -> (form: Vec<
    (String, String),
>)
    ensures
        form.deep_view() == login_form_fields(hidden.deep_view(), username@, password@),
{
    let mut form = hidden;
    let ghost start = form.deep_view();
    form.push((String::from_str("username"), username.to_owned()));
    form.push((String::from_str("passwd"), password.to_owned()));
    form.push((String::from_str("remember"), String::from_str("yes")));
    form.push((String::from_str("Submit"), String::from_str("Login")));
    assert(form.deep_view() =~= login_form_fields(start, username@, password@));
    form
}

/// What a submission posts: the problem's public number, the archive's number
/// for the language, and the source.
pub open spec fn submission_form_fields(
    problem_number: int,
    language_id: int,
    source: Seq<char>,
) -> Seq<(Seq<char>, Seq<char>)> {
    seq![
        ("problemid"@, Seq::empty()),
        ("category"@, Seq::empty()),
        ("codeupl"@, Seq::empty()),
        ("localid"@, signed_decimal(problem_number)),
        ("language"@, signed_decimal(language_id)),
        ("code"@, source),
    ]
}

/// What is sent as the source.
///
/// **Nothing is appended to it.** The same program submitted twice from one
/// account was measured to be judged normally both times, so the source travels
/// exactly as its author wrote it.
pub fn source_to_send(written: &str) -> (sent: &str)
    ensures
        sent@ == written@,
{
    written
}

/// What a submission posts.
pub fn submission_fields(problem_number: i64, language_id: i64, source: &str) -> (form: Vec<
    (String, String),
>)
    ensures
        form.deep_view() == submission_form_fields(
            problem_number as int,
            language_id as int,
            source@,
        ),
{
    let form = vec![
        (String::from_str("problemid"), String::new()),
        (String::from_str("category"), String::new()),
        (String::from_str("codeupl"), String::new()),
        (String::from_str("localid"), signed_text(problem_number)),
        (String::from_str("language"), signed_text(language_id)),
        (String::from_str("code"), source_to_send(source).to_owned()),
    ];
    assert(form.deep_view() =~= submission_form_fields(
        problem_number as int,
        language_id as int,
        source@,
    ));
    form
}

// ----------------------------------------------------------------- the answer

/// Where the site's message starts, URL-encoded.
pub open spec fn plus_marker() -> Seq<char> {
    "Submission+received+with+ID+"@
}

/// Where the site's message starts, decoded.
pub open spec fn spaced_marker() -> Seq<char> {
    "Submission received with ID "@
}

/// Where a text first occurs.
pub open spec fn first_at(hay: Seq<char>, needle: Seq<char>) -> int {
    choose|at: int|
        occurs_at(hay, needle, at) && forall|j: int| 0 <= j < at ==> !occurs_at(hay, needle, j)
}

/// The run of ASCII digits a text starts with.
pub open spec fn leading_digits(s: Seq<char>) -> Seq<char>
    decreases s.len(),
{
    if s.len() > 0 && is_digit(s[0]) {
        seq![s[0]] + leading_digits(s.drop_first())
    } else {
        Seq::empty()
    }
}

/// The digits after the first marker found — the encoded one is looked for
/// first, and the decoded one only when the encoded one is nowhere.
pub open spec fn sid_digits(trail: Seq<char>) -> Option<Seq<char>> {
    if occurs(trail, plus_marker()) {
        Some(leading_digits(trail.skip(first_at(trail, plus_marker()) + plus_marker().len())))
    } else if occurs(trail, spaced_marker()) {
        Some(leading_digits(trail.skip(first_at(trail, spaced_marker()) + spaced_marker().len())))
    } else {
        None
    }
}

/// The submission id a redirect names, when it names one that fits.
pub open spec fn sid_in(trail: Seq<char>) -> Option<int> {
    match sid_digits(trail) {
        Some(d) => if d.len() > 0 && digits_value(d) <= i64::MAX {
            Some(digits_value(d))
        } else {
            None
        },
        None => None,
    }
}

proof fn lemma_leading_digits(s: Seq<char>, k: int)
    requires
        0 <= k <= s.len(),
        forall|i: int| 0 <= i < k ==> is_digit(#[trigger] s[i]),
        k == s.len() || !is_digit(s[k]),
    ensures
        leading_digits(s) == s.take(k),
    decreases k,
{
    if k > 0 {
        let rest = s.drop_first();
        assert forall|i: int| 0 <= i < k - 1 implies is_digit(#[trigger] rest[i]) by {
            assert(rest[i] == s[i + 1]);
        }
        if k - 1 < rest.len() {
            assert(rest[k - 1] == s[k]);
        }
        lemma_leading_digits(rest, k - 1);
        assert(seq![s[0]] + rest.take(k - 1) =~= s.take(k));
    } else {
        assert(s.take(0) =~= Seq::<char>::empty());
    }
}

proof fn lemma_first_at(hay: Seq<char>, needle: Seq<char>, at: int)
    requires
        occurs_at(hay, needle, at),
        forall|j: int| 0 <= j < at ==> !occurs_at(hay, needle, j),
    ensures
        first_at(hay, needle) == at,
        occurs(hay, needle),
{
    let f = first_at(hay, needle);
    if f < at {
        assert(!occurs_at(hay, needle, f));
    }
    if f > at {
        assert(!occurs_at(hay, needle, at));
    }
}

fn digits_after(chars: &Vec<char>, from: usize) -> (digits: Vec<char>)
    requires
        from <= chars@.len(),
    ensures
        digits@ == leading_digits(chars@.skip(from as int)),
        all_digits(digits@),
{
    let mut k: usize = from;
    let mut digits: Vec<char> = Vec::new();
    while k < chars.len() && '0' <= chars[k] && chars[k] <= '9'
        invariant
            from <= k <= chars@.len(),
            digits@ == chars@.subrange(from as int, k as int),
            forall|i: int| from <= i < k ==> is_digit(#[trigger] chars@[i]),
        decreases chars@.len() - k,
    {
        digits.push(chars[k]);
        k = k + 1;
        assert(digits@ =~= chars@.subrange(from as int, k as int));
    }
    let ghost rest = chars@.skip(from as int);
    assert forall|i: int| 0 <= i < k - from implies is_digit(#[trigger] rest[i]) by {
        assert(rest[i] == chars@[from + i]);
    }
    proof {
        if k < chars@.len() {
            assert(rest[k - from] == chars@[k as int]);
        }
        lemma_leading_digits(rest, k - from);
    }
    assert(rest.take(k - from) =~= digits@);
    digits
}

/// The external submission id, out of the redirect the site answers with.
///
/// **This is the correlation key and there is no other.** Both spellings are
/// accepted because the site answers with a URL-encoded message and a reader
/// may or may not have decoded it before getting here. While a submission is
/// queued the id is simply absent, which is the ordinary case and not a
/// failure.
pub fn sid_from(trail: &str) -> (sid: Option<i64>)
    ensures
        match sid {
            Some(id) => sid_in(trail@) == Some(id as int),
            None => sid_in(trail@) is None,
        },
{
    let chars = chars_of(trail);
    let plus = chars_of("Submission+received+with+ID+");
    let spaced = chars_of("Submission received with ID ");
    let digits = match find(chars.as_slice(), plus.as_slice()) {
        Some(at) => {
            proof {
                lemma_first_at(trail@, plus_marker(), at as int);
            }
            let n = plus.len();
            let total = chars.len();
            assert(at + n <= total);
            let start = at + n;
            digits_after(&chars, start)
        },
        None => match find(chars.as_slice(), spaced.as_slice()) {
            Some(at) => {
                proof {
                    lemma_first_at(trail@, spaced_marker(), at as int);
                }
                let n = spaced.len();
                let total = chars.len();
                assert(at + n <= total);
                let start = at + n;
                digits_after(&chars, start)
            },
            None => return None,
        },
    };
    parse_digits_i64(digits.as_slice())
}

// ------------------------------------------------------------- the attempts

/// How long to wait before the next submission, in milliseconds: whatever is
/// left of the minimum interval since the last one.
pub fn pause(since_last: Option<u64>, min_interval: u64) -> (wait: u64)
    ensures
        wait == match since_last {
            Some(since) => if since < min_interval {
                min_interval - since
            } else {
                0
            },
            None => 0,
        },
{
    match since_last {
        Some(since) => if since < min_interval {
            min_interval - since
        } else {
            0
        },
        None => 0,
    }
}

/// What to do after an attempt at a submission.
#[derive(Debug, Clone, Copy, PartialEq, Eq, Structural)]
pub enum Step {
    /// The archive named the submission.
    Done(i64),
    /// No id came back: sign in again, once, and try again.
    SignInAgain,
    /// No id came back from the retry either: the session had lapsed.
    Lapsed,
}

/// The rule for submitting: **exactly one re-login and one retry.** A loop
/// turned a wrong password into thirty requests and a plausible ban.
pub open spec fn next_step(retried: bool, sid: Option<i64>) -> Step {
    match sid {
        Some(id) => Step::Done(id),
        None => if retried {
            Step::Lapsed
        } else {
            Step::SignInAgain
        },
    }
}

/// What to do after an attempt, given whether it was already the retry.
pub fn after_attempt(retried: bool, sid: Option<i64>) -> (step: Step)
    ensures
        step == next_step(retried, sid),
{
    match sid {
        Some(id) => Step::Done(id),
        None => if retried {
            Step::Lapsed
        } else {
            Step::SignInAgain
        },
    }
}

/// **A lapsed session is re-established once and not fifteen times**: after
/// the retry there is never another.
pub proof fn lemma_at_most_two_attempts(sid: Option<i64>)
    ensures
        next_step(true, sid) != Step::SignInAgain,
        next_step(false, None) == Step::SignInAgain,
{
}

} // verus!
