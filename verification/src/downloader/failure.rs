//! How a failed yt-dlp run is judged: whether trying again could help, and what
//! to do about it.
use vstd::prelude::*;
use vstd::string::*;

use crate::downloader::verdict_laws::{is_verdict, law_failures_are_judged_by_their_words};
use crate::text;
use crate::text::{contains, lowered};

verus! {

/// Says what was observed rather than asserting a cause.
pub const RESTRICTED_REASON: &'static str =
    "SoundCloud restricted access (authentication or extractor issue)";

/// Shown when the failure looks like the signed-in session has lapsed.
pub const EXPIRED_COOKIES_REASON: &'static str =
    "SoundCloud authentication may have expired — refreshing browser cookies";

/// Shown when yt-dlp exits cleanly but hands back no track at all.
pub const NO_DATA_REASON: &'static str = "SoundCloud returned no data for this track";

/// How a failed fetch is treated.
#[derive(Debug, Clone, Copy, PartialEq, Eq, Structural)]
pub enum FailureKind {
    /// Rate limiting or a transient network or server error: retry after a
    /// back-off. Anything that is not recognised counts as this.
    Retryable,
    /// SoundCloud refused an anonymous client. Repeating the identical request is
    /// pointless, but browser cookies or a newer yt-dlp may get through.
    Restricted,
    /// The track is gone; nothing will recover it.
    Permanent,
}

impl FailureKind {
    /// Worth requesting again exactly as before.
    pub fn is_retryable(self) -> (r: bool)
        ensures
            r == (self is Retryable),
    {
        self == FailureKind::Retryable
    }

    /// Not worth requesting ever again.
    pub fn is_permanent(self) -> (r: bool)
        ensures
            r == (self is Permanent),
    {
        self == FailureKind::Permanent
    }
}

/// What to do about a failed fetch.
#[derive(Debug, Clone, Copy, PartialEq, Eq, Structural)]
pub enum RetryDecision {
    /// Pause on the shared cooldown and try again.
    Retry,
    /// Refresh the browser cookies and try once more.
    RefreshCookiesAndRetry,
    /// Never try again.
    PermanentFailure,
}

/// What is done about a failure of each kind.
pub open spec fn decision_for(kind: FailureKind) -> RetryDecision {
    match kind {
        FailureKind::Retryable => RetryDecision::Retry,
        FailureKind::Restricted => RetryDecision::RefreshCookiesAndRetry,
        FailureKind::Permanent => RetryDecision::PermanentFailure,
    }
}

impl RetryDecision {
    /// What to do about a failure of this kind.
    pub fn from_failure_kind(kind: FailureKind) -> (r: Self)
        ensures
            r == decision_for(kind),
    {
        match kind {
            FailureKind::Retryable => RetryDecision::Retry,
            FailureKind::Restricted => RetryDecision::RefreshCookiesAndRetry,
            FailureKind::Permanent => RetryDecision::PermanentFailure,
        }
    }
}

/// Texts that show a failure of some kind, each with the reason to give.
pub type Signatures = Seq<(Seq<char>, Seq<char>)>;

/// What shows that access was refused: a message about DRM (which yt-dlp gives
/// when no plain stream was offered), a demand to sign in, or lapsed cookies.
pub open spec fn restricted_signatures() -> Signatures {
    seq![
        ("drm protected"@, RESTRICTED_REASON@),
        ("drm-protected"@, RESTRICTED_REASON@),
        ("requires authentication"@, "SoundCloud requires a sign-in for this track"@),
        ("authentication required"@, "SoundCloud requires a sign-in for this track"@),
        ("login required"@, "SoundCloud requires a sign-in for this track"@),
        ("http error 401"@, "SoundCloud requires a sign-in for this track"@),
        ("cookies are no longer valid"@, EXPIRED_COOKIES_REASON@),
        ("cookies have expired"@, EXPIRED_COOKIES_REASON@),
    ]
}

/// What shows that a track is gone. A refusal with code 403 is not among them:
/// that is how SoundCloud throttles.
pub open spec fn permanent_signatures() -> Signatures {
    seq![
        ("has been removed"@, "Track was removed by the uploader"@),
        ("was deleted"@, "Track was deleted"@),
        ("private"@, "Track is private"@),
        ("unavailable in your country"@, "Track is not available in your country"@),
        ("unsupported url"@, "Not a supported SoundCloud page"@),
        ("is not a valid url"@, "Not a supported SoundCloud page"@),
        ("404"@, "Track no longer exists"@),
        ("not found"@, "Track no longer exists"@),
        ("does not exist"@, "Track no longer exists"@),
        ("410"@, "Track no longer exists"@),
    ]
}

/// The reason that goes with the first signature that stands in `s`.
pub open spec fn first_reason(signatures: Signatures, s: Seq<char>) -> Option<Seq<char>>
    decreases signatures.len(),
{
    if signatures.len() == 0 {
        None
    } else if contains(s, signatures[0].0) {
        Some(signatures[0].1)
    } else {
        first_reason(signatures.skip(1), s)
    }
}

/// The kind of a failure and the reason to give, from the error text in lower
/// case: refused access first, then a lost track, and anything else is worth
/// another try.
pub open spec fn judged(lower: Seq<char>) -> (FailureKind, Option<Seq<char>>) {
    if first_reason(restricted_signatures(), lower) is Some {
        (FailureKind::Restricted, first_reason(restricted_signatures(), lower))
    } else if first_reason(permanent_signatures(), lower) is Some {
        (FailureKind::Permanent, first_reason(permanent_signatures(), lower))
    } else {
        (FailureKind::Retryable, None)
    }
}

/// The text behind an optional reason.
pub open spec fn reason_text(reason: Option<&'static str>) -> Option<Seq<char>> {
    match reason {
        Some(s) => Some(s@),
        None => None,
    }
}

spec fn pairs(table: Seq<(&'static str, &'static str)>) -> Signatures {
    Seq::new(table.len(), |i: int| (table[i].0@, table[i].1@))
}

fn find_reason(table: &Vec<(&'static str, &'static str)>, s: &str) -> (r: Option<&'static str>)
    ensures
        reason_text(r) == first_reason(pairs(table@), s@),
{
    let ghost all = pairs(table@);
    let mut i: usize = 0;
    assert(all.skip(0) =~= all);
    while i < table.len()
        invariant
            i <= table@.len(),
            all == pairs(table@),
            first_reason(all, s@) == first_reason(all.skip(i as int), s@),
        decreases table@.len() - i,
    {
        assert(all.skip(i as int).skip(1) =~= all.skip(i + 1));
        if text::has(s, table[i].0) {
            return Some(table[i].1);
        }
        i = i + 1;
    }
    None
}

/// Classifies a failure from its error text in lower case.
pub fn classify_lowered(lower: &str) -> (r: (FailureKind, Option<&'static str>))
    ensures
        r.0 == judged(lower@).0,
        reason_text(r.1) == judged(lower@).1,
        is_verdict(lower@, r.0, reason_text(r.1)),
{
    proof {
        law_failures_are_judged_by_their_words(lower@);
    }
    let restricted: Vec<(&'static str, &'static str)> = vec![
        ("drm protected", RESTRICTED_REASON),
        ("drm-protected", RESTRICTED_REASON),
        ("requires authentication", "SoundCloud requires a sign-in for this track"),
        ("authentication required", "SoundCloud requires a sign-in for this track"),
        ("login required", "SoundCloud requires a sign-in for this track"),
        ("http error 401", "SoundCloud requires a sign-in for this track"),
        ("cookies are no longer valid", EXPIRED_COOKIES_REASON),
        ("cookies have expired", EXPIRED_COOKIES_REASON),
    ];
    assert(pairs(restricted@) =~= restricted_signatures());
    let reason = find_reason(&restricted, lower);
    if reason.is_some() {
        return (FailureKind::Restricted, reason);
    }
    let permanent: Vec<(&'static str, &'static str)> = vec![
        ("has been removed", "Track was removed by the uploader"),
        ("was deleted", "Track was deleted"),
        ("private", "Track is private"),
        ("unavailable in your country", "Track is not available in your country"),
        ("unsupported url", "Not a supported SoundCloud page"),
        ("is not a valid url", "Not a supported SoundCloud page"),
        ("404", "Track no longer exists"),
        ("not found", "Track no longer exists"),
        ("does not exist", "Track no longer exists"),
        ("410", "Track no longer exists"),
    ];
    assert(pairs(permanent@) =~= permanent_signatures());
    let reason = find_reason(&permanent, lower);
    if reason.is_some() {
        return (FailureKind::Permanent, reason);
    }
    (FailureKind::Retryable, None)
}

/// Classifies a yt-dlp failure from its stderr. Refused access is looked for
/// first, so that no looser signature swallows it, and an error that is not
/// recognised stays retryable: misjudging a rate limit would lose the track.
pub fn classify_failure(stderr: &str) -> (r: (FailureKind, Option<&'static str>))
    ensures
        r.0 == judged(lowered(stderr@)).0,
        reason_text(r.1) == judged(lowered(stderr@)).1,
        is_verdict(lowered(stderr@), r.0, reason_text(r.1)),
{
    classify_lowered(text::to_lowercase(stderr).as_str())
}

/// What to do about a yt-dlp failure, from its stderr.
pub fn retry_decision(stderr: &str) -> (r: RetryDecision)
    ensures
        r == decision_for(judged(lowered(stderr@)).0),
{
    RetryDecision::from_failure_kind(classify_failure(stderr).0)
}

/// A download error, with advice where access was refused.
pub open spec fn annotated(message: Seq<char>, kind: FailureKind) -> Seq<char> {
    if kind == FailureKind::Restricted {
        message + "\n\n"@ + RESTRICTED_REASON@
            + ". SoundCloud is withholding this track's audio from an anonymous client — the track itself may be fine. Setting a browser under Settings → SoundCloud Authentication may allow it."@
    } else {
        message
    }
}

/// Adds the cookies hint to a download failure that looks like withheld access.
pub fn annotate_download_failure(message: &str) -> (r: String)
    ensures
        r@ == annotated(message@, judged(lowered(message@)).0),
{
    let mut s = message.to_owned();
    if classify_failure(message).0 == FailureKind::Restricted {
        s.append("\n\n");
        s.append(RESTRICTED_REASON);
        s.append(
            ". SoundCloud is withholding this track's audio from an anonymous client — the track itself may be fine. Setting a browser under Settings → SoundCloud Authentication may allow it.",
        );
    }
    s
}

/// The reason why a track can never load, or `None` if it may yet be recovered.
pub fn permanent_failure_reason(stderr: &str) -> (r: Option<&'static str>)
    ensures
        reason_text(r) == (if judged(lowered(stderr@)).0 == FailureKind::Permanent {
            judged(lowered(stderr@)).1
        } else {
            None
        }),
{
    let (kind, reason) = classify_failure(stderr);
    if kind == FailureKind::Permanent {
        reason
    } else {
        None
    }
}

/// Whether a failure is worth retrying after a back-off: everything is, unless it
/// clearly says that the track is gone.
pub fn is_transient_failure(stderr: &str) -> (r: bool)
    ensures
        r == (judged(lowered(stderr@)).0 != FailureKind::Permanent),
{
    proof {
        law_a_verdict_has_a_reason_exactly_when_it_is_not_retryable(lowered(stderr@));
    }
    permanent_failure_reason(stderr).is_none()
}

/// Refused access and a lost track always come with a reason, a failure that is
/// worth another try never does.
pub proof fn law_a_verdict_has_a_reason_exactly_when_it_is_not_retryable(lower: Seq<char>)
    ensures
        judged(lower).1 is Some <==> judged(lower).0 != FailureKind::Retryable,
{
}

/// Refused access wins over a lost track: an error that shows both is not given
/// up.
pub proof fn law_refused_access_is_never_taken_for_a_lost_track(lower: Seq<char>, i: int)
    requires
        0 <= i < restricted_signatures().len(),
        contains(lower, restricted_signatures()[i].0),
    ensures
        judged(lower).0 == FailureKind::Restricted,
        decision_for(judged(lower).0) == RetryDecision::RefreshCookiesAndRetry,
{
    lemma_first_reason(restricted_signatures(), lower, i);
}

/// An error that shows neither refused access nor a lost track is tried again.
pub proof fn law_an_unrecognised_error_is_retried(lower: Seq<char>)
    requires
        forall|i: int|
            0 <= i < restricted_signatures().len() ==> !contains(
                lower,
                (#[trigger] restricted_signatures()[i]).0,
            ),
        forall|i: int|
            0 <= i < permanent_signatures().len() ==> !contains(
                lower,
                (#[trigger] permanent_signatures()[i]).0,
            ),
    ensures
        judged(lower).0 == FailureKind::Retryable,
        decision_for(judged(lower).0) == RetryDecision::Retry,
{
    lemma_no_reason(restricted_signatures(), lower);
    lemma_no_reason(permanent_signatures(), lower);
}

proof fn lemma_first_reason(signatures: Signatures, s: Seq<char>, i: int)
    requires
        0 <= i < signatures.len(),
        contains(s, signatures[i].0),
    ensures
        first_reason(signatures, s) is Some,
    decreases signatures.len(),
{
    if !contains(s, signatures[0].0) {
        assert(signatures.skip(1)[i - 1] == signatures[i]);
        lemma_first_reason(signatures.skip(1), s, i - 1);
    }
}

proof fn lemma_no_reason(signatures: Signatures, s: Seq<char>)
    requires
        forall|i: int| 0 <= i < signatures.len() ==> !contains(s, (#[trigger] signatures[i]).0),
    ensures
        first_reason(signatures, s) is None,
    decreases signatures.len(),
{
    if signatures.len() > 0 {
        let rest = signatures.skip(1);
        assert forall|i: int| 0 <= i < rest.len() implies !contains(s, (#[trigger] rest[i]).0) by {
            assert(rest[i] == signatures[i + 1]);
        }
        lemma_no_reason(rest, s);
    }
}

} // verus!
