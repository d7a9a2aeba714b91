//! Reading uHunt: what the archive has judged, and which problem is which.
//!
//! Everything here reads answers to somebody else's public API. The one design
//! rule is that a row we did not ask for is **ignored, not an error**: the
//! account is shared, so the window necessarily contains our own finished
//! submissions and anything a person did by hand while signed into it.
//!
//! The requests themselves are made where the network is; what an answer
//! means is decided here.

use vstd::prelude::*;

use crate::json::{
    as_i64, as_text, as_u64, fields, lemma_array_view, read_i64, read_text, read_u64,
    slot_value, slots, Json, JsonView, Missing,
};
use crate::text::{
    chars_of, debug_quoted, decimal, parse_u64, parsed_u64, push_decimal, push_signed, quoted,
    signed_decimal, string_from, trim, trimmed,
};

verus! {

/// One row of `GET /api/subs-user/{uid}/{min-sid}`.
///
/// Positional, seven elements, and the order is the whole contract:
/// `[sid, pid, verdict, runtimeMs, submittedAt, language, rank]`.
#[derive(Debug, Clone, Copy, PartialEq, Eq, Structural)]
pub struct Row {
    /// The submission id. **Monotonic**, which is what makes the cursor valid,
    /// and the only thing a pending entry is keyed on.
    pub sid: i64,
    /// uHunt's **internal** problem id — not the public number a person types.
    pub pid: i64,
    pub verdict_id: i64,
    pub runtime_ms: i64,
    pub submitted_at: i64,
    pub language_id: i64,
}

/// Cell `i` of a row, when it is there and is an integer that fits.
pub open spec fn cell(cells: Seq<JsonView>, i: int) -> Option<int> {
    if 0 <= i < cells.len() {
        as_i64(cells[i])
    } else {
        None
    }
}

/// A row, read by position: the first three cells are required, the next
/// three read as zero when missing or unreadable.
pub open spec fn row_of(value: JsonView) -> Option<Row> {
    match value {
        JsonView::Array(cells) => match (cell(cells, 0), cell(cells, 1), cell(cells, 2)) {
            (Some(sid), Some(pid), Some(verdict)) => Some(
                Row {
                    sid: sid as i64,
                    pid: pid as i64,
                    verdict_id: verdict as i64,
                    runtime_ms: (match cell(cells, 3) {
                        Some(v) => v,
                        None => 0,
                    }) as i64,
                    submitted_at: (match cell(cells, 4) {
                        Some(v) => v,
                        None => 0,
                    }) as i64,
                    language_id: (match cell(cells, 5) {
                        Some(v) => v,
                        None => 0,
                    }) as i64,
                },
            ),
            _ => None,
        },
        _ => None,
    }
}

/// Every row that could be read, in the answer's order.
pub open spec fn rows_of(values: Seq<JsonView>) -> Seq<Row>
    decreases values.len(),
{
    if values.len() == 0 {
        Seq::empty()
    } else {
        let before = rows_of(values.drop_last());
        match row_of(values.last()) {
            Some(r) => before.push(r),
            None => before,
        }
    }
}

/// The `subs` member of an answer to `subs-user`: a list of anything.
pub open spec fn subs_of(answer: JsonView) -> Option<Seq<JsonView>> {
    match slots(answer, seq!["subs"@]) {
        None => None,
        Some((s, positional)) => match slot_value(s[0], Missing::Refused, positional, false) {
            Ok(Some(JsonView::Array(items))) => Some(items),
            _ => None,
        },
    }
}

fn cell_of(cells: &Vec<Json>, i: usize) -> (c: Option<i64>)
    ensures
        match c {
            Some(v) => cell(cells@.map_values(|j: Json| j@), i as int) == Some(v as int),
            None => cell(cells@.map_values(|j: Json| j@), i as int) is None,
        },
{
    if i < cells.len() {
        read_i64(&cells[i])
    } else {
        None
    }
}

impl Row {
    /// Reads a row, or nothing.
    ///
    /// A short row is skipped rather than failing the poll: one malformed entry
    /// in a window of somebody else's submissions must not stop us reporting the
    /// verdicts that did arrive.
    pub fn read(value: &Json) -> (r: Option<Row>)
        ensures
            r == row_of(value@),
    {
        match value {
            Json::Array(cells) => {
                proof {
                    lemma_array_view(*value);
                    assert(cells@.map_values(|j: Json| j@) =~= value@->Array_0);
                }
                let sid = match cell_of(cells, 0) {
                    Some(v) => v,
                    None => return None,
                };
                let pid = match cell_of(cells, 1) {
                    Some(v) => v,
                    None => return None,
                };
                let verdict_id = match cell_of(cells, 2) {
                    Some(v) => v,
                    None => return None,
                };
                let runtime_ms = match cell_of(cells, 3) {
                    Some(v) => v,
                    None => 0,
                };
                let submitted_at = match cell_of(cells, 4) {
                    Some(v) => v,
                    None => 0,
                };
                let language_id = match cell_of(cells, 5) {
                    Some(v) => v,
                    None => 0,
                };
                Some(Row { sid, pid, verdict_id, runtime_ms, submitted_at, language_id })
            },
            _ => None,
        }
    }
}

/// Why an answer from uHunt could not be used.
#[derive(Debug, Clone, PartialEq, Eq)]
pub enum UhuntError {
    /// An answer to `subs-user` that carries no list of submissions.
    NoSubmissions,
    /// An answer to `uname2uid` that is not a number.
    NotAnId { body: String, username: String },
    /// uHunt's `0`, its word for a name it has never seen.
    UnknownAccount(String),
    /// An answer to `p/num` that is not a problem.
    NoSuchProblem(i64),
    /// A problem the archive lists as unavailable.
    Unavailable(i64),
}

pub open spec fn uhunt_error_text(e: UhuntError) -> Seq<char> {
    match e {
        UhuntError::NoSubmissions => "uHunt's answer carries no list of submissions"@,
        UhuntError::NotAnId { body, username } => "uHunt answered "@ + debug_quoted(body@)
            + " for the account "@ + debug_quoted(username@),
        UhuntError::UnknownAccount(username) => "uHunt does not know the account "@
            + debug_quoted(username@)
            + " — it answers 0 for a name it has never seen, which is not an id to poll with"@,
        UhuntError::NoSuchProblem(n) => "onlinejudge.org has no problem "@ + signed_decimal(
            n as int,
        ),
        UhuntError::Unavailable(n) => "onlinejudge.org lists problem "@ + signed_decimal(n as int)
            + " as unavailable, so it cannot be judged"@,
    }
}

impl UhuntError {
    /// What a person reads about it.
    pub fn message(&self) -> (m: String)
        ensures
            m@ == uhunt_error_text(*self),
    {
        match self {
            UhuntError::NoSubmissions => String::from_str(
                "uHunt's answer carries no list of submissions",
            ),
            UhuntError::NotAnId { body, username } => {
                let mut m = String::from_str("uHunt answered ");
                let b = quoted(body.as_str());
                m.append(b.as_str());
                m.append(" for the account ");
                let u = quoted(username.as_str());
                m.append(u.as_str());
                m
            },
            UhuntError::UnknownAccount(username) => {
                let mut m = String::from_str("uHunt does not know the account ");
                let u = quoted(username.as_str());
                m.append(u.as_str());
                m.append(
                    " — it answers 0 for a name it has never seen, which is not an id to poll with",
                );
                m
            },
            UhuntError::NoSuchProblem(n) => {
                let mut m = String::from_str("onlinejudge.org has no problem ");
                push_signed(&mut m, *n);
                m
            },
            UhuntError::Unavailable(n) => {
                let mut m = String::from_str("onlinejudge.org lists problem ");
                push_signed(&mut m, *n);
                m.append(" as unavailable, so it cannot be judged");
                m
            },
        }
    }
}

/// Every row in a `subs-user` answer that could be read.
pub fn rows(answer: &Json) -> (r: Result<Vec<Row>, UhuntError>)
    ensures
        match r {
            Ok(found) => subs_of(answer@) matches Some(values) && found@ == rows_of(values),
            Err(e) => subs_of(answer@) is None && e == UhuntError::NoSubmissions,
        },
{
    let names = vec!["subs"];
    proof {
        assert(names@.map_values(|n: &str| n@) =~= seq!["subs"@]);
    }
    let (values, _positional) = match fields(answer, names.as_slice()) {
        None => return Err(UhuntError::NoSubmissions),
        Some(found) => found,
    };
    let items = match values[0] {
        Some(Json::Array(items)) => items,
        _ => return Err(UhuntError::NoSubmissions),
    };
    let ghost all = values@[0]->0@->Array_0;
    proof {
        lemma_array_view(*values@[0]->0);
    }
    let mut found: Vec<Row> = Vec::new();
    for i in 0..items.len()
        invariant
            all.len() == items@.len(),
            forall|j: int| 0 <= j < items@.len() ==> #[trigger] all[j] == items@[j]@,
            found@ == rows_of(all.take(i as int)),
    {
        let ghost t = all.take(i + 1);
        assert(t.drop_last() =~= all.take(i as int));
        if let Some(row) = Row::read(&items[i]) {
            found.push(row);
        }
    }
    assert(all.take(items@.len() as int) =~= all);
    Ok(found)
}

/// Where to start asking from: one below the oldest outstanding submission,
/// or nothing when nothing is outstanding.
pub open spec fn cursor_of(pending: Seq<i64>) -> Option<int> {
    if pending.len() == 0 {
        None
    } else {
        Some(
            (choose|m: i64|
                pending.contains(m) && forall|j: int|
                    0 <= j < pending.len() ==> m <= #[trigger] pending[j]) - 1,
        )
    }
}

/// Where to start asking from, given what is still outstanding.
///
/// **Derived at request time, never stored.** It is a function of the pending
/// set, so it advances by itself as the oldest submission completes.
///
/// The `- 1` makes the inclusive-or-exclusive question moot — uHunt does not
/// say which `min-sid` is, the rows are filtered against the pending set
/// anyway, and both readings then give the same answer.
///
/// `None` means there is nothing outstanding, so **no request is made at all**.
pub fn cursor(pending: &[i64]) -> (after: Option<i64>)
    requires
        forall|i: int| 0 <= i < pending@.len() ==> #[trigger] pending@[i] > i64::MIN,
    ensures
        match after {
            None => pending@.len() == 0,
            Some(c) => pending@.contains((c + 1) as i64) && forall|i: int|
                0 <= i < pending@.len() ==> c < #[trigger] pending@[i],
        },
        after matches Some(c) ==> cursor_of(pending@) == Some(c as int),
        after is None ==> cursor_of(pending@) is None,
{
    if pending.len() == 0 {
        return None;
    }
    let mut oldest = pending[0];
    let mut at: usize = 0;
    for i in 1..pending.len()
        invariant
            pending@.len() > 0,
            at < pending@.len(),
            oldest == pending@[at as int],
            forall|j: int| 0 <= j < i ==> oldest <= #[trigger] pending@[j],
    {
        if pending[i] < oldest {
            oldest = pending[i];
            at = i;
        }
    }
    proof {
        assert(pending@.contains(oldest));
        let m = choose|m: i64|
            pending@.contains(m) && forall|j: int|
                0 <= j < pending@.len() ==> m <= #[trigger] pending@[j];
        let k = choose|k: int| 0 <= k < pending@.len() && pending@[k] == m;
        assert(m <= pending@[at as int]);
        assert(oldest <= pending@[k]);
    }
    Some(oldest - 1)
}

/// **Nothing outstanding, no request**: the cursor of an empty set is none, and
/// every outstanding submission lies inside the window a cursor opens.
pub proof fn lemma_the_window_covers_everything_outstanding(pending: Seq<i64>)
    ensures
        cursor_of(pending) is None <==> pending.len() == 0,
        cursor_of(pending) matches Some(c) ==> forall|i: int|
            0 <= i < pending.len() ==> c < #[trigger] pending[i],
{
    if pending.len() > 0 {
        lemma_lowest_exists(pending);
    }
}

/// **The cursor reads the set rather than a number kept beside it.** Whatever
/// order the outstanding ids come in, there is a cursor exactly when something
/// is outstanding, and it sits one below the lowest of them: so it moves up as
/// the oldest completes, and never past one that has not.
pub proof fn lemma_the_cursor_follows_the_set(outstanding: Set<i64>, ids: Seq<i64>)
    requires
        forall|sid: i64| #[trigger] ids.contains(sid) <==> outstanding.contains(sid),
    ensures
        cursor_of(ids) is None <==> outstanding =~= Set::<i64>::empty(),
        cursor_of(ids) matches Some(c) ==> outstanding.contains((c + 1) as i64) && forall|sid: i64|
            #[trigger] outstanding.contains(sid) ==> c < sid,
{
    if ids.len() == 0 {
        assert forall|sid: i64| !outstanding.contains(sid) by {
            assert(!ids.contains(sid));
        }
    } else {
        assert(ids.contains(ids[0]));
        assert(outstanding.contains(ids[0]));
        lemma_lowest_exists(ids);
        let m = choose|m: i64|
            ids.contains(m) && forall|j: int| 0 <= j < ids.len() ==> m <= #[trigger] ids[j];
        assert(cursor_of(ids) == Some(m - 1));
        assert forall|sid: i64| #[trigger] outstanding.contains(sid) implies m - 1 < sid by {
            assert(ids.contains(sid));
            let j = choose|j: int| 0 <= j < ids.len() && ids[j] == sid;
            assert(m <= ids[j]);
        }
    }
}

proof fn lemma_lowest_exists(s: Seq<i64>)
    requires
        s.len() > 0,
    ensures
        exists|m: i64| s.contains(m) && forall|j: int| 0 <= j < s.len() ==> m <= #[trigger] s[j],
    decreases s.len(),
{
    if s.len() == 1 {
        assert(s.contains(s[0]));
        assert(forall|j: int| 0 <= j < s.len() ==> s[0] <= #[trigger] s[j]);
    } else {
        let rest = s.drop_last();
        lemma_lowest_exists(rest);
        let m = choose|m: i64|
            rest.contains(m) && forall|j: int| 0 <= j < rest.len() ==> m <= #[trigger] rest[j];
        let k = choose|k: int| 0 <= k < rest.len() && rest[k] == m;
        assert(s[k] == m);
        if s.last() < m {
            assert(s.contains(s.last()));
            assert forall|j: int| 0 <= j < s.len() implies s.last() <= #[trigger] s[j] by {
                if j < s.len() - 1 {
                    assert(s[j] == rest[j]);
                }
            }
        } else {
            assert(s.contains(m));
            assert forall|j: int| 0 <= j < s.len() implies m <= #[trigger] s[j] by {
                if j < s.len() - 1 {
                    assert(s[j] == rest[j]);
                }
            }
        }
    }
}

/// One problem, by its public number: `GET /api/p/num/{num}`.
///
/// Only `pid` is load-bearing — it is what a submission row carries, and it is
/// uHunt's own key rather than ours, so it is re-derived rather than depended on.
#[derive(Debug, Clone, PartialEq, Eq)]
pub struct Problem {
    pub pid: i64,
    pub num: i64,
    pub title: String,
    /// `0` unavailable, `1` normal, `2` special judge.
    pub status: i64,
    /// The archive's own run-time limit, milliseconds. Informational: UVa
    /// enforces it, we do not.
    pub rtl: i64,
}

/// A problem document: five required members.
pub open spec fn problem_of(doc: JsonView) -> Option<(int, int, Seq<char>, int, int)> {
    match slots(doc, seq!["pid"@, "num"@, "title"@, "status"@, "rtl"@]) {
        None => None,
        Some((s, _)) => match (s[0], s[1], s[2], s[3], s[4]) {
            (Some(pid), Some(num), Some(title), Some(status), Some(rtl)) => match (
                as_i64(pid),
                as_i64(num),
                as_text(title),
                as_i64(status),
                as_i64(rtl),
            ) {
                (Some(pid), Some(num), Some(title), Some(status), Some(rtl)) => Some(
                    (pid, num, title, status, rtl),
                ),
                _ => None,
            },
            _ => None,
        },
    }
}

impl Problem {
    /// The problem an answer to `p/num/{number}` describes.
    pub fn read(number: i64, answer: &Json) -> (r: Result<Problem, UhuntError>)
        ensures
            match r {
                Ok(p) => problem_of(answer@) == Some(
                    (p.pid as int, p.num as int, p.title@, p.status as int, p.rtl as int),
                ),
                Err(e) => problem_of(answer@) is None && e == UhuntError::NoSuchProblem(number),
            },
    {
        let names = vec!["pid", "num", "title", "status", "rtl"];
        proof {
            assert(names@.map_values(|n: &str| n@) =~= seq![
                "pid"@,
                "num"@,
                "title"@,
                "status"@,
                "rtl"@,
            ]);
        }
        let (values, _positional) = match fields(answer, names.as_slice()) {
            None => return Err(UhuntError::NoSuchProblem(number)),
            Some(found) => found,
        };
        let pid = match values[0] {
            Some(v) => read_i64(v),
            None => None,
        };
        let num = match values[1] {
            Some(v) => read_i64(v),
            None => None,
        };
        let title = match values[2] {
            Some(v) => read_text(v),
            None => None,
        };
        let status = match values[3] {
            Some(v) => read_i64(v),
            None => None,
        };
        let rtl = match values[4] {
            Some(v) => read_i64(v),
            None => None,
        };
        match (pid, num, title, status, rtl) {
            (Some(pid), Some(num), Some(title), Some(status), Some(rtl)) => Ok(
                Problem { pid, num, title, status, rtl },
            ),
            _ => Err(UhuntError::NoSuchProblem(number)),
        }
    }

    /// uHunt's id for this problem, which its answers carry — unless the
    /// archive lists it as unavailable, in which case nothing sent could be
    /// judged.
    pub fn judgeable(&self, number: i64) -> (r: Result<i64, UhuntError>)
        ensures
            match r {
                Ok(pid) => self.status != 0 && pid == self.pid,
                Err(e) => self.status == 0 && e == UhuntError::Unavailable(number),
            },
    {
        if self.status == 0 {
            Err(UhuntError::Unavailable(number))
        } else {
            Ok(self.pid)
        }
    }
}

/// What uHunt's answer to `uname2uid` means.
pub open spec fn account_of(body: Seq<char>) -> Option<u64> {
    match parsed_u64(trimmed(body)) {
        Some(uid) => if uid == 0 {
            None
        } else {
            Some(uid)
        },
        None => None,
    }
}

/// What uHunt's answer to `uname2uid` means.
///
/// **Zero is uHunt's word for "no such account", and it parses.** A typo in the
/// username used to resolve to uid 0, was cached, and every poll then asked
/// about an account with no rows — so nothing ever matched and every
/// submission aged out while the solutions sat judged on the real account.
pub fn account_id(body: &str, username: &str) -> (r: Result<u64, UhuntError>)
    ensures
        match r {
            Ok(uid) => account_of(body@) == Some(uid),
            Err(UhuntError::NotAnId { body: b, username: u }) => parsed_u64(trimmed(body@)) is None
                && b@ == body@ && u@ == username@,
            Err(UhuntError::UnknownAccount(u)) => parsed_u64(trimmed(body@)) == Some(0u64) && u@
                == username@,
            Err(_) => false,
        },
{
    match parse_u64(trim(body)) {
        None => Err(UhuntError::NotAnId { body: body.to_owned(), username: username.to_owned() }),
        Some(uid) => if uid == 0 {
            Err(UhuntError::UnknownAccount(username.to_owned()))
        } else {
            Ok(uid)
        },
    }
}

// ---------------------------------------------------------------- path segment

/// The bytes that travel as themselves in a path segment.
pub open spec fn unreserved(b: u8) -> bool {
    ||| 48 <= b <= 57
    ||| 65 <= b <= 90
    ||| 97 <= b <= 122
    ||| b == 45
    ||| b == 95
    ||| b == 46
    ||| b == 126
}

/// An upper-case hexadecimal digit.
pub open spec fn hex_digit(n: int) -> char {
    if n < 10 {
        (48 + n) as char
    } else {
        (55 + n) as char
    }
}

/// One byte of a path segment: itself, or `%` and two hexadecimal digits.
pub open spec fn escaped_byte(b: u8) -> Seq<char> {
    if unreserved(b) {
        seq![b as char]
    } else {
        seq!['%', hex_digit(b as int / 16), hex_digit(b as int % 16)]
    }
}

/// A text's UTF-8 bytes as one path segment.
pub open spec fn escaped(bytes: Seq<u8>) -> Seq<char>
    decreases bytes.len(),
{
    if bytes.len() == 0 {
        Seq::empty()
    } else {
        escaped(bytes.drop_last()) + escaped_byte(bytes.last())
    }
}

fn hex(n: u8) -> (c: char)
    requires
        n < 16,
    ensures
        c == hex_digit(n as int),
{
    if n < 10 {
        (48 + n) as char
    } else {
        (55 + n) as char
    }
}

/// One path segment, and not a path.
///
/// **An operator's typo should not change the shape of a request.** The
/// username is interpolated straight into a URL, and a name carrying a slash
/// or a question mark asked uHunt something other than what was meant. Every
/// byte outside the unreserved set is written as `%` and two upper-case
/// hexadecimal digits, byte by byte of its UTF-8 encoding.
pub fn segment(value: &str) -> (s: String)
    ensures
        s@ == escaped(vstd::utf8::encode_utf8(value@)),
{
    let bytes = value.as_bytes();
    let ghost all = bytes@;
    let mut out: Vec<char> = Vec::new();
    for i in 0..bytes.len()
        invariant
            all == bytes@,
            out@ == escaped(all.take(i as int)),
    {
        let b = bytes[i];
        let ghost t = all.take(i + 1);
        assert(t.drop_last() =~= all.take(i as int));
        assert(t.last() == b);
        if (48 <= b && b <= 57) || (65 <= b && b <= 90) || (97 <= b && b <= 122) || b == 45 || b
            == 95 || b == 46 || b == 126 {
            out.push(b as char);
        } else {
            out.push('%');
            out.push(hex(b / 16));
            out.push(hex(b % 16));
        }
        assert(out@ =~= escaped(t));
    }
    assert(all.take(bytes@.len() as int) =~= all);
    assert(vstd::utf8::encode_utf8(value@) == all);
    string_from(out.as_slice())
}

/// The characters a segment can hold.
pub open spec fn segment_char(c: char) -> bool {
    ||| ('0' <= c <= '9')
    ||| ('A' <= c <= 'Z')
    ||| ('a' <= c <= 'z')
    ||| c == '-'
    ||| c == '_'
    ||| c == '.'
    ||| c == '~'
    ||| c == '%'
}

/// **A name is one segment of a path, whatever an operator typed into it**: no
/// slash, no question mark, nothing but unreserved characters and escapes.
pub proof fn lemma_a_segment_is_not_a_path(bytes: Seq<u8>)
    ensures
        forall|i: int| 0 <= i < escaped(bytes).len() ==> segment_char(#[trigger] escaped(bytes)[i]),
    decreases bytes.len(),
{
    if bytes.len() > 0 {
        lemma_a_segment_is_not_a_path(bytes.drop_last());
        let before = escaped(bytes.drop_last());
        let b = bytes.last();
        assert forall|i: int| 0 <= i < escaped(bytes).len() implies segment_char(
            #[trigger] escaped(bytes)[i],
        ) by {
            if i >= before.len() {
                let k = i - before.len();
                assert(escaped(bytes)[i] == escaped_byte(b)[k]);
                if !unreserved(b) && k > 0 {
                    let d = if k == 1 {
                        b as int / 16
                    } else {
                        b as int % 16
                    };
                    assert(0 <= d < 16);
                }
            } else {
                assert(escaped(bytes)[i] == before[i]);
            }
        }
    }
}

// ------------------------------------------------------------- the live stream

/// **Only the account matters here.** The event carries the verdict too, and
/// reading it would be the mistake this whole arrangement avoids: a stream that
/// drops what it cannot buffer is not a place to learn that somebody's
/// submission was judged.
#[derive(Debug, Default, Clone, Copy, PartialEq, Eq)]
pub struct EventAbout {
    pub uid: u64,
}

/// One event from the live stream.
#[derive(Debug, Clone, Copy, PartialEq, Eq)]
pub struct Event {
    pub id: i64,
    pub msg: EventAbout,
}

/// An event's `msg` member: the account, zero when unsaid.
pub open spec fn event_about_of(doc: JsonView) -> Option<int> {
    match slots(doc, seq!["uid"@]) {
        None => None,
        Some((s, positional)) => match slot_value(s[0], Missing::Defaulted, positional, false) {
            Err(_) => None,
            Ok(None) => Some(0),
            Ok(Some(v)) => as_u64(v),
        },
    }
}

/// An event: its required id, and what it is about.
pub open spec fn event_of(doc: JsonView) -> Option<(int, int)> {
    match slots(doc, seq!["id"@, "msg"@]) {
        None => None,
        Some((s, positional)) => {
            let id = match s[0] {
                Some(v) => as_i64(v),
                None => None,
            };
            let uid = match slot_value(s[1], Missing::Defaulted, positional, false) {
                Err(_) => None,
                Ok(None) => Some(0),
                Ok(Some(v)) => event_about_of(v),
            };
            match (id, uid) {
                (Some(id), Some(uid)) => Some((id, uid)),
                _ => None,
            }
        },
    }
}

impl EventAbout {
    pub fn read(doc: &Json) -> (r: Option<EventAbout>)
        ensures
            match r {
                Some(e) => event_about_of(doc@) == Some(e.uid as int),
                None => event_about_of(doc@) is None,
            },
    {
        let names = vec!["uid"];
        proof {
            assert(names@.map_values(|n: &str| n@) =~= seq!["uid"@]);
        }
        let (values, _positional) = match fields(doc, names.as_slice()) {
            None => return None,
            Some(found) => found,
        };
        match values[0] {
            None => Some(EventAbout { uid: 0 }),
            Some(v) => match read_u64(v) {
                Some(uid) => Some(EventAbout { uid }),
                None => None,
            },
        }
    }
}

impl Event {
    pub fn read(doc: &Json) -> (r: Option<Event>)
        ensures
            match r {
                Some(e) => event_of(doc@) == Some((e.id as int, e.msg.uid as int)),
                None => event_of(doc@) is None,
            },
    {
        let names = vec!["id", "msg"];
        proof {
            assert(names@.map_values(|n: &str| n@) =~= seq!["id"@, "msg"@]);
        }
        let (values, _positional) = match fields(doc, names.as_slice()) {
            None => return None,
            Some(found) => found,
        };
        let id = match values[0] {
            Some(v) => match read_i64(v) {
                Some(id) => id,
                None => return None,
            },
            None => return None,
        };
        let msg = match values[1] {
            None => EventAbout { uid: 0 },
            Some(v) => match EventAbout::read(v) {
                Some(msg) => msg,
                None => return None,
            },
        };
        Some(Event { id, msg })
    }
}

} // verus!
