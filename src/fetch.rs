//! The decisions of the page fetch: which responses are accepted, when a
//! request is sent again and after what wait, and when the fetch gives up.
//! The caller performs each action and reports what came of it as an event.
use vstd::prelude::*;
use crate::text::chars_of;

verus! {

/// How many failed tries end a fetch.
pub const MAX_ATTEMPTS: u32 = 3;

/// The wait before the first resend after a send failure, in milliseconds;
/// it doubles with each further failure.
pub const BASE_DELAY_MS: u64 = 1000;

/// What came of the last action.
#[derive(Clone, Copy, Debug, PartialEq, Eq, Structural)]
pub enum FetchEvent {
    /// The request could not be sent or got no response.
    SendFailed,
    /// A response arrived; `html` tells whether its content type names HTML.
    Response { status: u16, html: bool },
    /// The body of an accepted-looking page was read; `captcha` tells whether
    /// it asks for a captcha.
    Body { captcha: bool },
}

#[derive(Clone, Copy, Debug, PartialEq, Eq, Structural)]
pub enum FetchError {
    /// Every try failed to get a response.
    Unreachable,
    /// Every try was refused, rate limited or met a captcha.
    NoValidResponse,
    /// The server answered with this status, which is no success.
    Http(u16),
}

/// What the caller does next.
#[derive(Clone, Copy, Debug, PartialEq, Eq, Structural)]
pub enum FetchAction {
    /// Send the request again after waiting this many milliseconds.
    Retry { delay_ms: u64 },
    /// Read the body and report it as a `Body` event.
    CheckBody,
    /// Read the body and return it as the page.
    Accept,
    /// Stop with this error.
    Fail(FetchError),
}

pub open spec fn doubling(n: nat) -> nat
    decreases n,
{
    if n == 0 {
        1
    } else {
        2 * doubling((n - 1) as nat)
    }
}

/// The failure count and the action after a failed try, `failures` tries
/// having failed before it; `exhausted` is the error once no try is left.
pub open spec fn after_failure(failures: nat, delay: bool, exhausted: FetchError) -> (
    nat,
    FetchAction,
) {
    let f = failures + 1;
    if f >= MAX_ATTEMPTS {
        (f, FetchAction::Fail(exhausted))
    } else if delay {
        (f, FetchAction::Retry { delay_ms: (BASE_DELAY_MS * doubling(f)) as u64 })
    } else {
        (f, FetchAction::Retry { delay_ms: 0 })
    }
}

/// The next failure count and action, `failures` tries having failed: send
/// failures are retried with a doubling wait; refusals (403), rate limits
/// (429) and captcha pages are retried at once; a 200 HTML page has its body
/// checked; any other success (2xx) is accepted; every other status fails.
pub open spec fn fetch_step(failures: nat, e: FetchEvent) -> (nat, FetchAction) {
    match e {
        FetchEvent::SendFailed => after_failure(failures, true, FetchError::Unreachable),
        FetchEvent::Response { status, html } => if status == 403 || status == 429 {
            after_failure(failures, false, FetchError::NoValidResponse)
        } else if status == 200 && html {
            (failures, FetchAction::CheckBody)
        } else if 200 <= status && status <= 299 {
            (failures, FetchAction::Accept)
        } else {
            (failures, FetchAction::Fail(FetchError::Http(status)))
        },
        FetchEvent::Body { captcha } => if captcha {
            after_failure(failures, false, FetchError::NoValidResponse)
        } else {
            (failures, FetchAction::Accept)
        },
    }
}

/// The count of failed tries of one fetch.
pub struct FetchState {
    pub failures: u32,
}

impl FetchState {
    pub fn new() -> (s: FetchState)
        ensures
            s.failures == 0,
    {
        FetchState { failures: 0 }
    }

    /// Takes in what came of the last action and says what to do next. A
    /// `Retry` leaves a try to spend; after `Fail` or `Accept` the fetch is over.
    pub fn step(&mut self, e: FetchEvent) -> (r: FetchAction)
        requires
            old(self).failures < MAX_ATTEMPTS,
        ensures
            (final(self).failures as nat, r) == fetch_step(old(self).failures as nat, e),
            r is Retry ==> final(self).failures < MAX_ATTEMPTS,
    {
        match e {
            FetchEvent::SendFailed => self.fail(true, FetchError::Unreachable),
            FetchEvent::Response { status, html } => {
                if status == 403 || status == 429 {
                    self.fail(false, FetchError::NoValidResponse)
                } else if status == 200 && html {
                    FetchAction::CheckBody
                } else if 200 <= status && status <= 299 {
                    FetchAction::Accept
                } else {
                    FetchAction::Fail(FetchError::Http(status))
                }
            },
            FetchEvent::Body { captcha } => {
                if captcha {
                    self.fail(false, FetchError::NoValidResponse)
                } else {
                    FetchAction::Accept
                }
            },
        }
    }

    fn fail(&mut self, delay: bool, exhausted: FetchError) -> (r: FetchAction)
        requires
            old(self).failures < MAX_ATTEMPTS,
        ensures
            (final(self).failures as nat, r) == after_failure(
                old(self).failures as nat,
                delay,
                exhausted,
            ),
    {
        self.failures = self.failures + 1;
        if self.failures >= MAX_ATTEMPTS {
            FetchAction::Fail(exhausted)
        } else if delay {
            let mut d: u64 = BASE_DELAY_MS;
            let mut k: u32 = 0;
            while k < self.failures
                invariant
                    k <= self.failures < MAX_ATTEMPTS,
                    d == BASE_DELAY_MS * doubling(k as nat),
                decreases self.failures - k,
            {
                assert(doubling((k + 1) as nat) == 2 * doubling(k as nat));
                assert(doubling(k as nat) <= 2) by {
                    assert(doubling(0) == 1);
                    assert(doubling(1) == 2);
                }
                d = d * 2;
                k = k + 1;
            }
            FetchAction::Retry { delay_ms: d }
        } else {
            FetchAction::Retry { delay_ms: 0 }
        }
    }
}

/// Whether `needle` occurs in `hay` at position `p`.
pub open spec fn occurs_at(hay: Seq<char>, needle: Seq<char>, p: int) -> bool {
    0 <= p && p + needle.len() <= hay.len() && hay.subrange(p, p + needle.len()) == needle
}

pub open spec fn contains(hay: Seq<char>, needle: Seq<char>) -> bool {
    exists|p: int| occurs_at(hay, needle, p)
}

/// Whether the literal `needle` occurs in `hay`.
pub fn contains_lit(hay: &Vec<char>, needle: &str) -> (r: bool)
    ensures
        r == contains(hay@, needle@),
{
    let n = needle.unicode_len();
    let h = hay.len();
    if n > h {
        assert forall|p: int| !occurs_at(hay@, needle@, p) by {}
        return false;
    }
    let mut p: usize = 0;
    while p <= h - n
        invariant
            n == needle@.len(),
            h == hay@.len(),
            n <= h,
            p <= h - n + 1,
            forall|q: int| 0 <= q < p ==> !occurs_at(hay@, needle@, q),
        decreases h - n + 1 - p,
    {
        let mut k: usize = 0;
        let mut same = true;
        while k < n
            invariant
                n == needle@.len(),
                h == hay@.len(),
                p + n <= h,
                k <= n,
                same == (forall|j: int| 0 <= j < k ==> hay@[p + j] == needle@[j]),
            decreases n - k,
        {
            if hay[p + k] != needle.get_char(k) {
                same = false;
            }
            k = k + 1;
        }
        if same {
            assert(hay@.subrange(p as int, p + n) =~= needle@);
            assert(occurs_at(hay@, needle@, p as int));
            return true;
        }
        assert(!occurs_at(hay@, needle@, p as int)) by {
            let j = choose|j: int| 0 <= j < n && hay@[p + j] != needle@[j];
            assert(hay@.subrange(p as int, p + n)[j] == hay@[p + j]);
        }
        p = p + 1;
    }
    assert forall|q: int| !occurs_at(hay@, needle@, q) by {
        if 0 <= q && q + n <= h {
            assert(q < p);
        }
    }
    false
}

/// Whether a content type names an HTML page.
pub fn is_html_content_type(content_type: &str) -> (r: bool)
    ensures
        r == contains(content_type@, "text/html"@),
{
    let ct = chars_of(content_type);
    contains_lit(&ct, "text/html")
}

/// The lowercase form of a text, as `str::to_lowercase` gives it.
pub uninterp spec fn lower_of(s: Seq<char>) -> Seq<char>;

/// Relies on `str::to_lowercase`: the result depends on the characters alone.
#[verifier::external_body]
fn lowercase(s: &str) -> (r: Vec<char>)
    ensures
        r@ == lower_of(s@),
{
    s.to_lowercase().chars().collect()
}

/// Whether an already lowercased page mentions a captcha.
pub fn mentions_captcha(lowered: &Vec<char>) -> (r: bool)
    ensures
        r == contains(lowered@, "captcha"@),
{
    contains_lit(lowered, "captcha")
}

/// Whether a page body mentions a captcha, in any letter case.
pub fn looks_like_captcha(body: &str) -> (r: bool)
    ensures
        r == contains(lower_of(body@), "captcha"@),
{
    let lowered = lowercase(body);
    mentions_captcha(&lowered)
}

} // verus!
