use vstd::prelude::*;
use crate::text::{contains_text, parse_u128, parse_usize, parsed_unsigned, text_contains, text_equals};
use crate::time::{apple_from_unix, unix_to_apple};

verus! {

/// The body sent when a request does not carry the server password.
pub fn unauthorized_body() -> (body: String)
    ensures
        body@ == "{\"status\":401,\"message\":\"You are not authorized to access this resource\",\"error\":{\"type\":\"Authentication Error\",\"message\":\"Unauthorized\"}}"@,
{
    String::from_str(
        "{\"status\":401,\"message\":\"You are not authorized to access this resource\",\"error\":{\"type\":\"Authentication Error\",\"message\":\"Unauthorized\"}}",
    )
}

/// A request is authorized when it supplies a password equal to the server's.
pub open spec fn authorized(supplied: Option<Seq<char>>, password: Seq<char>) -> bool {
    supplied matches Some(p) && p == password
}

/// The text of an optional string parameter.
pub open spec fn text_of(param: Option<&str>) -> Option<Seq<char>> {
    match param {
        Some(s) => Some(s@),
        None => None,
    }
}

/// Whether the supplied password (if any) is the server's password.
pub fn is_authorized(supplied: Option<&str>, password: &str) -> (ok: bool)
    ensures
        ok == authorized(text_of(supplied), password@),
{
    match supplied {
        Some(p) => text_equals(p, password),
        None => false,
    }
}

/// Which of two extras a `with` parameter asks for: each one whose name
/// occurs in the parameter's text; none when there is no parameter.
pub fn requested_extras(with: Option<&str>, first: &str, second: &str) -> (asked: (bool, bool))
    ensures
        asked == (match with {
            Some(w) => (contains_text(w@, first@), contains_text(w@, second@)),
            None => (false, false),
        }),
{
    match with {
        Some(w) => (text_contains(w, first), text_contains(w, second)),
        None => (false, false),
    }
}

/// Whether `list` holds an entry equal to `name`.
pub fn list_names(list: &Vec<String>, name: &str) -> (found: bool)
    ensures
        found == exists|i: int| 0 <= i < list@.len() && #[trigger] list@[i]@ == name@,
{
    let mut i: usize = 0;
    while i < list.len()
        invariant
            i <= list@.len(),
            forall|j: int| 0 <= j < i ==> #[trigger] list@[j]@ != name@,
        decreases list@.len() - i,
    {
        if text_equals(list[i].as_str(), name) {
            return true;
        }
        i = i + 1;
    }
    false
}

/// The body of a chat query.
pub struct ChatQuery {
    pub limit: Option<usize>,
    pub offset: Option<usize>,
    pub with: Option<Vec<String>>,
    pub sort: Option<String>,
}

/// What a chat query asks the store for.
pub struct ChatQueryPlan {
    pub limit: usize,
    pub offset: usize,
    pub sort: Option<String>,
    pub last_message: bool,
    pub participants: bool,
}

impl ChatQuery {
    /// The page of chats to fetch: at most `limit` (1000 by default) from
    /// `offset` (0 by default), with each chat's last message when `with`
    /// lists `lastmessage`, and always with the participants.
    pub fn plan(self) -> (plan: ChatQueryPlan)
        ensures
            plan.limit == (match self.limit {
                Some(l) => l,
                None => 1000,
            }),
            plan.offset == (match self.offset {
                Some(o) => o,
                None => 0,
            }),
            plan.sort == self.sort,
            plan.last_message == (self.with matches Some(w) && exists|i: int|
                0 <= i < w@.len() && #[trigger] w@[i]@ == "lastmessage"@),
            plan.participants,
    {
        let limit = match self.limit {
            Some(l) => l,
            None => 1000,
        };
        let offset = match self.offset {
            Some(o) => o,
            None => 0,
        };
        let last_message = match &self.with {
            Some(w) => list_names(w, "lastmessage"),
            None => false,
        };
        ChatQueryPlan { limit, offset, sort: self.sort, last_message, participants: true }
    }
}

/// A count parameter: its default when absent, else its text read as a `usize`.
pub open spec fn count_param(param: Option<Seq<char>>, default: nat) -> Option<nat> {
    match param {
        Some(s) => parsed_unsigned(s, usize::MAX as nat),
        None => Some(default),
    }
}

/// A time in Unix milliseconds (`millis`) on the Apple time base in
/// nanoseconds, where the nanoseconds fit a `u128`.
pub open spec fn apple_nanos_from_millis(millis: nat) -> Option<int> {
    if millis * 1000000 <= u128::MAX {
        Some(apple_from_unix((millis * 1000000) as int))
    } else {
        None
    }
}

/// The lower time bound of a message listing: 0 for an empty parameter, else
/// the parameter (Unix milliseconds, `0` when absent) on the Apple time base.
pub open spec fn after_bound(param: Option<Seq<char>>) -> Option<int> {
    match param {
        Some(s) => if s.len() == 0 {
            Some(0)
        } else {
            match parsed_unsigned(s, u128::MAX as nat) {
                Some(n) => apple_nanos_from_millis(n),
                None => None,
            }
        },
        None => Some(0),
    }
}

/// The upper time bound of a message listing: the largest `u128` for an empty
/// parameter, the largest `u128` on the Apple time base when absent, else the
/// parameter (Unix milliseconds) on the Apple time base.
pub open spec fn before_bound(param: Option<Seq<char>>) -> Option<int> {
    match param {
        Some(s) => if s.len() == 0 {
            Some(u128::MAX as int)
        } else {
            match parsed_unsigned(s, u128::MAX as nat) {
                Some(n) => apple_nanos_from_millis(n),
                None => None,
            }
        },
        None => Some(apple_from_unix(u128::MAX as int)),
    }
}

/// What a request for the messages of a chat asks for.
pub struct MessageQuery {
    pub attachments: bool,
    pub handle: bool,
    pub limit: usize,
    pub offset: usize,
    pub sort: String,
    pub after: u128,
    pub before: u128,
}

fn count_from_param(param: Option<&str>, default: usize) -> (n: Option<usize>)
    ensures
        match count_param(text_of(param), default as nat) {
            Some(v) => n == Some(v as usize),
            None => n is None,
        },
{
    match param {
        Some(s) => parse_usize(s),
        None => Some(default),
    }
}

fn apple_nanos_from_millis_param(s: &str) -> (t: Option<u128>)
    ensures
        match parsed_unsigned(s@, u128::MAX as nat) {
            Some(n) => match apple_nanos_from_millis(n) {
                Some(v) => t == Some(v as u128),
                None => t is None,
            },
            None => t is None,
        },
{
    match parse_u128(s) {
        Some(millis) => match millis.checked_mul(1000000) {
            Some(nanos) => Some(unix_to_apple(nanos)),
            None => None,
        },
        None => None,
    }
}

fn after_from_param(param: Option<&str>) -> (t: Option<u128>)
    ensures
        match after_bound(text_of(param)) {
            Some(v) => t == Some(v as u128),
            None => t is None,
        },
{
    match param {
        Some(s) => if s.unicode_len() == 0 {
            Some(0)
        } else {
            apple_nanos_from_millis_param(s)
        },
        None => Some(0),
    }
}

fn before_from_param(param: Option<&str>) -> (t: Option<u128>)
    ensures
        match before_bound(text_of(param)) {
            Some(v) => t == Some(v as u128),
            None => t is None,
        },
{
    match param {
        Some(s) => if s.unicode_len() == 0 {
            Some(u128::MAX)
        } else {
            apple_nanos_from_millis_param(s)
        },
        None => Some(unix_to_apple(u128::MAX)),
    }
}

impl MessageQuery {
    /// Reads the query parameters of a message listing: `with` (attachments
    /// when it mentions `chats`, handles when it mentions `participants`),
    /// `limit` (1000 by default), `offset` (0 by default), `sort` (`ASC` by
    /// default) and the time bounds `after` and `before` (see [`after_bound`]
    /// and [`before_bound`]). `None` where a count or a time does not read
    /// as a number or a time does not fit.
    pub fn from_params(
        with: Option<&str>,
        limit: Option<&str>,
        offset: Option<&str>,
        sort: Option<&str>,
        after: Option<&str>,
        before: Option<&str>,
    ) -> (query: Option<MessageQuery>)
        ensures
            match (
                count_param(text_of(limit), 1000),
                count_param(text_of(offset), 0),
                after_bound(text_of(after)),
                before_bound(text_of(before)),
            ) {
                (Some(l), Some(o), Some(a), Some(b)) => query matches Some(q) && {
                    &&& q.limit == l
                    &&& q.offset == o
                    &&& q.after == a
                    &&& q.before == b
                    &&& q.sort@ == (match sort {
                        Some(s) => s@,
                        None => "ASC"@,
                    })
                    &&& (q.attachments, q.handle) == (match with {
                        Some(w) => (contains_text(w@, "chats"@), contains_text(w@, "participants"@)),
                        None => (false, false),
                    })
                },
                _ => query is None,
            },
    {
        let (attachments, handle) = requested_extras(with, "chats", "participants");
        let limit = match count_from_param(limit, 1000) {
            Some(l) => l,
            None => return None,
        };
        let offset = match count_from_param(offset, 0) {
            Some(o) => o,
            None => return None,
        };
        let sort = match sort {
            Some(s) => String::from_str(s),
            None => String::from_str("ASC"),
        };
        let after = match after_from_param(after) {
            Some(a) => a,
            None => return None,
        };
        let before = match before_from_param(before) {
            Some(b) => b,
            None => return None,
        };
        Some(MessageQuery { attachments, handle, limit, offset, sort, after, before })
    }
}

/// Whether `sort` names one of the two orders, `ASC` or `DESC`.
pub fn is_sort_order(sort: &str) -> (ok: bool)
    ensures
        ok == (sort@ == "ASC"@ || sort@ == "DESC"@),
{
    text_equals(sort, "ASC") || text_equals(sort, "DESC")
}

/// A time in Unix seconds (0 when absent) on the Apple time base in
/// nanoseconds, where the nanoseconds fit a `u128`.
pub open spec fn apple_nanos_from_seconds(seconds: Option<u128>) -> Option<int> {
    let s: int = match seconds {
        Some(s) => s as int,
        None => 0,
    };
    if s * 1000000000 <= u128::MAX {
        Some(apple_from_unix(s * 1000000000))
    } else {
        None
    }
}

/// The Apple-time bounds of a message listing given in Unix seconds (absent
/// bounds read as 0); `None` where a bound overflows.
pub fn seconds_bounds(after: Option<u128>, before: Option<u128>) -> (bounds: Option<(u128, u128)>)
    ensures
        match (apple_nanos_from_seconds(after), apple_nanos_from_seconds(before)) {
            (Some(a), Some(b)) => bounds == Some((a as u128, b as u128)),
            _ => bounds is None,
        },
{
    let a = match after {
        Some(s) => s,
        None => 0,
    };
    let b = match before {
        Some(s) => s,
        None => 0,
    };
    let a = match a.checked_mul(1000000000) {
        Some(n) => unix_to_apple(n),
        None => return None,
    };
    let b = match b.checked_mul(1000000000) {
        Some(n) => unix_to_apple(n),
        None => return None,
    };
    Some((a, b))
}

/// `s` without its last character, where that character is ASCII; `None`
/// where `s` is empty or ends in a character of more than one byte.
pub open spec fn without_last_ascii(s: Seq<char>) -> Option<Seq<char>> {
    if s.len() > 0 && (s.last() as u32) < 128 {
        Some(s.drop_last())
    } else {
        None
    }
}

/// Removes the last character of a command's output (its line break).
pub fn drop_last_char(s: &str) -> (r: Option<String>)
    ensures
        match without_last_ascii(s@) {
            Some(t) => r matches Some(x) && x@ == t,
            None => r is None,
        },
{
    let n = s.unicode_len();
    if n == 0 {
        return None;
    }
    let c = s.get_char(n - 1);
    if (c as u32) >= 128 {
        return None;
    }
    Some(String::from_str(s.substring_char(0, n - 1)))
}

/// Both time bounds read a non-empty parameter the same way: as Unix
/// milliseconds, multiplied by one million and shifted to the Apple epoch;
/// text that is not a number, or a time whose nanoseconds overflow, is refused.
pub proof fn lemma_bounds_read_millis(s: Seq<char>)
    requires
        s.len() > 0,
    ensures
        after_bound(Some(s)) == before_bound(Some(s)),
        match parsed_unsigned(s, u128::MAX as nat) {
            Some(n) => if n * 1000000 <= u128::MAX {
                before_bound(Some(s)) == Some(apple_from_unix((n * 1000000) as int))
            } else {
                before_bound(Some(s)) is None
            },
            None => before_bound(Some(s)) is None,
        },
{
}

/// An empty `after` puts no lower limit (0) and an empty `before` no upper
/// limit (the largest `u128`).
pub proof fn lemma_empty_bounds_are_open()
    ensures
        after_bound(Some(Seq::<char>::empty())) == Some(0int),
        before_bound(Some(Seq::<char>::empty())) == Some(u128::MAX as int),
{
}

/// Absent bounds: no lower limit, and as upper limit the largest Unix time on
/// the Apple time base.
pub proof fn lemma_absent_bounds()
    ensures
        after_bound(None) == Some(0int),
        before_bound(None) == Some(u128::MAX - 978307200000000000int),
{
}

/// Bounds given in Unix seconds (0 when absent) are read as seconds times a
/// billion, shifted to the Apple epoch, and refused where they overflow.
pub proof fn lemma_seconds_bounds_read_seconds(seconds: Option<u128>)
    ensures
        ({
            let s: int = match seconds {
                Some(s) => s as int,
                None => 0,
            };
            if s * 1000000000 <= u128::MAX {
                apple_nanos_from_seconds(seconds) == Some(apple_from_unix(s * 1000000000))
            } else {
                apple_nanos_from_seconds(seconds) is None
            }
        }),
{
}

/// Dropping the last character leaves a text that, followed by that ASCII
/// character, is the whole text again.
pub proof fn lemma_without_last_ascii(s: Seq<char>)
    ensures
        without_last_ascii(s) matches Some(t) ==> t.len() + 1 == s.len() && t.push(s.last()) == s
            && (s.last() as u32) < 128,
        (without_last_ascii(s) is None) <==> (s.len() == 0 || (s.last() as u32) >= 128),
{
    if s.len() > 0 {
        assert(s.drop_last().push(s.last()) =~= s);
    }
}

} // verus!
