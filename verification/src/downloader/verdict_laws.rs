//! What the words of a failed run lead to.
use vstd::prelude::*;

use crate::config::settings::CookieBrowser;
use crate::downloader::cookies::{
    count_in_line, first_count, first_error_line, is_probe_status, probe_verdict, StatusView,
};
use crate::downloader::failure::{
    annotated, decision_for, first_reason, judged, permanent_signatures, restricted_signatures,
    FailureKind, RetryDecision, Signatures, EXPIRED_COOKIES_REASON, RESTRICTED_REASON,
};
use crate::downloader::ytdlp::{last_lines, run_outcome, FinishedRun};
use crate::text::{
    contains, decimal, ends, first_index, joined, law_decimal_reads_back, lemma_first_index,
    lemma_first_index_bounds, lemma_trimmed_part, lines_of, lowered, occurs_at, starts, trimmed,
    unsigned_of,
};

verus! {

// ---------------------------------------------------------------------------
// Failures
// ---------------------------------------------------------------------------

/// Whether an error, in lower case, says that the stream is protected.
pub open spec fn speaks_of_protection(e: Seq<char>) -> bool {
    contains(e, "drm protected"@) || contains(e, "drm-protected"@)
}

/// Whether an error, in lower case, asks for a sign-in.
pub open spec fn asks_for_sign_in(e: Seq<char>) -> bool {
    ||| contains(e, "requires authentication"@)
    ||| contains(e, "authentication required"@)
    ||| contains(e, "login required"@)
    ||| contains(e, "http error 401"@)
}

/// Whether an error, in lower case, says that a session has lapsed.
pub open spec fn speaks_of_stale_cookies(e: Seq<char>) -> bool {
    contains(e, "cookies are no longer valid"@) || contains(e, "cookies have expired"@)
}

/// Whether an error, in lower case, says that the track is not there.
pub open spec fn speaks_of_nothing_there(e: Seq<char>) -> bool {
    ||| contains(e, "404"@)
    ||| contains(e, "not found"@)
    ||| contains(e, "does not exist"@)
    ||| contains(e, "410"@)
}

/// Whether an error, in lower case, says that the address is no page of a track.
pub open spec fn speaks_of_the_wrong_page(e: Seq<char>) -> bool {
    contains(e, "unsupported url"@) || contains(e, "is not a valid url"@)
}

/// Whether an error, in lower case, says that access was refused.
pub open spec fn speaks_of_refusal(e: Seq<char>) -> bool {
    speaks_of_protection(e) || asks_for_sign_in(e) || speaks_of_stale_cookies(e)
}

/// Whether an error, in lower case, says that the track is lost.
pub open spec fn speaks_of_loss(e: Seq<char>) -> bool {
    ||| contains(e, "has been removed"@)
    ||| contains(e, "was deleted"@)
    ||| contains(e, "private"@)
    ||| contains(e, "unavailable in your country"@)
    ||| speaks_of_the_wrong_page(e)
    ||| speaks_of_nothing_there(e)
}

/// Whether a kind and a reason are the verdict on an error in lower case.
pub open spec fn is_verdict(e: Seq<char>, kind: FailureKind, reason: Option<Seq<char>>) -> bool {
    &&& kind == FailureKind::Restricted <==> speaks_of_refusal(e)
    &&& kind == FailureKind::Permanent <==> !speaks_of_refusal(e) && speaks_of_loss(e)
    &&& kind == FailureKind::Retryable ==> reason is None
    &&& kind == FailureKind::Restricted ==> reason == Some(
        if speaks_of_protection(e) {
            RESTRICTED_REASON@
        } else if asks_for_sign_in(e) {
            "SoundCloud requires a sign-in for this track"@
        } else {
            EXPIRED_COOKIES_REASON@
        },
    )
    &&& kind == FailureKind::Permanent ==> reason == Some(
        if contains(e, "has been removed"@) {
            "Track was removed by the uploader"@
        } else if contains(e, "was deleted"@) {
            "Track was deleted"@
        } else if contains(e, "private"@) {
            "Track is private"@
        } else if contains(e, "unavailable in your country"@) {
            "Track is not available in your country"@
        } else if speaks_of_the_wrong_page(e) {
            "Not a supported SoundCloud page"@
        } else {
            "Track no longer exists"@
        },
    )
}

proof fn lemma_reason(signatures: Signatures, s: Seq<char>, k: int)
    requires
        0 <= k <= signatures.len(),
        forall|i: int| 0 <= i < k ==> !contains(s, (#[trigger] signatures[i]).0),
    ensures
        k < signatures.len() && contains(s, signatures[k].0) ==> first_reason(signatures, s)
            == Some(signatures[k].1),
        k == signatures.len() ==> first_reason(signatures, s) is None,
    decreases signatures.len(),
{
    if k > 0 {
        let rest = signatures.skip(1);
        assert(!contains(s, signatures[0].0));
        assert forall|i: int| 0 <= i < k - 1 implies !contains(s, (#[trigger] rest[i]).0) by {
            assert(rest[i] == signatures[i + 1]);
        }
        lemma_reason(rest, s, k - 1);
        if k < signatures.len() {
            assert(rest[k - 1] == signatures[k]);
        }
    }
}

/// The first signature that stands in a text, or their number where none does.
spec fn first_hit(signatures: Signatures, s: Seq<char>) -> int
    decreases signatures.len(),
{
    if signatures.len() == 0 || contains(s, signatures[0].0) {
        0
    } else {
        1 + first_hit(signatures.skip(1), s)
    }
}

proof fn lemma_first_hit(signatures: Signatures, s: Seq<char>)
    ensures
        0 <= first_hit(signatures, s) <= signatures.len(),
        forall|i: int|
            0 <= i < first_hit(signatures, s) ==> !contains(s, (#[trigger] signatures[i]).0),
        first_hit(signatures, s) < signatures.len() ==> contains(
            s,
            signatures[first_hit(signatures, s)].0,
        ),
    decreases signatures.len(),
{
    if signatures.len() > 0 && !contains(s, signatures[0].0) {
        let rest = signatures.skip(1);
        lemma_first_hit(rest, s);
        assert forall|i: int| 0 <= i < first_hit(signatures, s) implies !contains(
            s,
            (#[trigger] signatures[i]).0,
        ) by {
            if i > 0 {
                assert(signatures[i] == rest[i - 1]);
            }
        }
        if first_hit(rest, s) < rest.len() {
            assert(signatures[first_hit(rest, s) + 1] == rest[first_hit(rest, s)]);
        }
    }
}

proof fn lemma_restricted(e: Seq<char>)
    ensures
        first_reason(restricted_signatures(), e) is Some <==> speaks_of_refusal(e),
        speaks_of_refusal(e) ==> first_reason(restricted_signatures(), e) == Some(
            if speaks_of_protection(e) {
                RESTRICTED_REASON@
            } else if asks_for_sign_in(e) {
                "SoundCloud requires a sign-in for this track"@
            } else {
                EXPIRED_COOKIES_REASON@
            },
        ),
{
    let all = restricted_signatures();
    let k = first_hit(all, e);
    lemma_first_hit(all, e);
    lemma_reason(all, e, k);
    assert(all[0].0 == "drm protected"@ && all[1].0 == "drm-protected"@ && all[2].0
        == "requires authentication"@ && all[3].0 == "authentication required"@ && all[4].0
        == "login required"@ && all[5].0 == "http error 401"@ && all[6].0
        == "cookies are no longer valid"@ && all[7].0 == "cookies have expired"@);
}

proof fn lemma_permanent(e: Seq<char>)
    ensures
        first_reason(permanent_signatures(), e) is Some <==> speaks_of_loss(e),
        speaks_of_loss(e) ==> first_reason(permanent_signatures(), e) == Some(
            if contains(e, "has been removed"@) {
                "Track was removed by the uploader"@
            } else if contains(e, "was deleted"@) {
                "Track was deleted"@
            } else if contains(e, "private"@) {
                "Track is private"@
            } else if contains(e, "unavailable in your country"@) {
                "Track is not available in your country"@
            } else if speaks_of_the_wrong_page(e) {
                "Not a supported SoundCloud page"@
            } else {
                "Track no longer exists"@
            },
        ),
{
    let all = permanent_signatures();
    let k = first_hit(all, e);
    lemma_first_hit(all, e);
    lemma_reason(all, e, k);
    assert(all[0].0 == "has been removed"@ && all[1].0 == "was deleted"@ && all[2].0 == "private"@
        && all[3].0 == "unavailable in your country"@ && all[4].0 == "unsupported url"@ && all[5].0
        == "is not a valid url"@ && all[6].0 == "404"@ && all[7].0 == "not found"@ && all[8].0
        == "does not exist"@ && all[9].0 == "410"@);
}

/// A failure is judged by its words: refused access first, then a lost track, and
/// whatever says neither is worth another try.
pub proof fn law_failures_are_judged_by_their_words(lower: Seq<char>)
    ensures
        is_verdict(lower, judged(lower).0, judged(lower).1),
{
    lemma_restricted(lower);
    lemma_permanent(lower);
}

/// Each verdict has its remedy: a pause, fresh cookies, or none.
pub proof fn law_each_verdict_has_its_remedy(kind: FailureKind)
    ensures
        kind == FailureKind::Retryable <==> decision_for(kind) == RetryDecision::Retry,
        kind == FailureKind::Restricted <==> decision_for(kind)
            == RetryDecision::RefreshCookiesAndRetry,
        kind == FailureKind::Permanent <==> decision_for(kind) == RetryDecision::PermanentFailure,
{
}

/// A download error is shown as it is, and only one of refused access carries advice
/// behind it.
pub proof fn law_only_refused_downloads_carry_advice(message: Seq<char>, kind: FailureKind)
    ensures
        starts(annotated(message, kind), message),
        annotated(message, kind) == message <==> kind != FailureKind::Restricted,
        kind == FailureKind::Restricted ==> occurs_at(
            annotated(message, kind),
            "\n\n"@ + RESTRICTED_REASON@,
            message.len() as int,
        ),
{
    let r = annotated(message, kind);
    assert(r.subrange(0, message.len() as int) =~= message);
    if kind == FailureKind::Restricted {
        let note = "\n\n"@ + RESTRICTED_REASON@;
        assert("\n\n"@.len() == 2) by {
            reveal_strlit("\n\n");
        }
        assert(r.len() > message.len());
        assert(r.subrange(message.len() as int, (message.len() + note.len()) as int) =~= note);
    }
}

/// What a metadata run leads to. A run that never came to an end is a matter of another
/// try, and counts as cancelled when somebody cancelled it; a run that failed is judged
/// by all that it printed, keeps its exit code, and shows the last four lines.
pub proof fn law_a_failed_run_is_judged_by_what_it_printed(
    run: Result<FinishedRun, String>,
    cancelled: bool,
)
    ensures
        match run {
            Err(e) => run_outcome(run, cancelled) matches Err(f) && {
                &&& f.message == e@
                &&& f.exit_code is None
                &&& f.kind == FailureKind::Retryable && f.reason is None
                &&& f.cancelled <==> cancelled || contains(e@, "cancelled"@)
            },
            Ok(done) => !done.success ==> (run_outcome(run, cancelled) matches Err(f) && {
                &&& is_verdict(lowered(done.stderr@), f.kind, f.reason)
                &&& f.exit_code == done.code
                &&& !f.cancelled
                &&& ends(f.message, joined(last_lines(done.stderr@, 4), "\n"@))
            }),
        },
{
    if let Ok(done) = run {
        law_failures_are_judged_by_their_words(lowered(done.stderr@));
        let tail = joined(last_lines(done.stderr@, 4), "\n"@);
        let m = "yt-dlp failed (metadata fetch):\n"@ + tail;
        assert(m.subrange(m.len() - tail.len(), m.len() as int) =~= tail);
    }
}

// ---------------------------------------------------------------------------
// Cookies
// ---------------------------------------------------------------------------

/// Whether line `i` is the first that reports a number of cookies.
pub open spec fn reports_first(lines: Seq<Seq<char>>, i: int) -> bool {
    &&& 0 <= i < lines.len()
    &&& count_in_line(lines[i]) is Some
    &&& forall|k: int| 0 <= k < i ==> count_in_line(#[trigger] lines[k]) is None
}

/// Whether no line reports a number of cookies.
pub open spec fn reports_none(lines: Seq<Seq<char>>) -> bool {
    forall|k: int| 0 <= k < lines.len() ==> count_in_line(#[trigger] lines[k]) is None
}

/// Whether a line is an error message, in any case of letters.
pub open spec fn is_error(line: Seq<char>) -> bool {
    starts(lowered(trimmed(line)), "error:"@)
}

/// Whether a detail is what yt-dlp said: its first error message, or a fixed text.
pub open spec fn is_detail(lines: Seq<Seq<char>>, detail: Seq<char>) -> bool {
    &&& forall|i: int|
        0 <= i < lines.len() && is_error(#[trigger] lines[i]) && (forall|k: int|
            0 <= k < i ==> !is_error(#[trigger] lines[k])) ==> detail == trimmed(lines[i])
    &&& (forall|k: int| 0 <= k < lines.len() ==> !is_error(#[trigger] lines[k])) ==> detail
        == "no cookies were extracted"@
}

/// Whether a status is what a probe's output says of a browser's cookies.
pub open spec fn is_status(
    output: Seq<char>,
    lower: Seq<char>,
    browser: Seq<char>,
    status: StatusView,
) -> bool {
    let missing = contains(lower, "could not find"@) && contains(lower, "cookies database"@);
    let sealed = contains(lower, "failed to decrypt"@) || contains(lower, "dpapi"@);
    let shut = contains(lower, "permission denied"@) || contains(lower, "database is locked"@);
    &&& forall|i: int| #[trigger]
        reports_first(lines_of(output), i) ==> status == (StatusView::Available {
            count: count_in_line(lines_of(output)[i])->0,
            source: browser,
        })
    &&& reports_none(lines_of(output)) ==> {
        &&& missing ==> status == (StatusView::BrowserNotFound { browser })
        &&& !missing && sealed ==> status == (StatusView::DecryptFailed {
            browser,
            app_bound: contains(lower, "dpapi"@) || contains(lower, "10927"@),
        })
        &&& !missing && !sealed && shut ==> status == (StatusView::DecryptFailed {
            browser,
            app_bound: false,
        })
        &&& !missing && !sealed && !shut ==> (status matches StatusView::ProbeFailed { detail }
            && is_detail(lines_of(output), detail))
    }
}

proof fn lemma_first_count(lines: Seq<Seq<char>>)
    ensures
        forall|i: int| #[trigger]
            reports_first(lines, i) ==> first_count(lines) == count_in_line(lines[i]),
        reports_none(lines) ==> first_count(lines) is None,
    decreases lines.len(),
{
    if lines.len() > 0 {
        let rest = lines.skip(1);
        lemma_first_count(rest);
        assert forall|i: int| #[trigger] reports_first(lines, i) implies first_count(lines)
            == count_in_line(lines[i]) by {
            if i > 0 {
                assert(count_in_line(lines[0]) is None);
                assert(rest[i - 1] == lines[i]);
                assert forall|k: int| 0 <= k < i - 1 implies count_in_line(#[trigger] rest[k]) is None by {
                    assert(rest[k] == lines[k + 1]);
                }
                assert(reports_first(rest, i - 1));
            }
        }
        if reports_none(lines) {
            assert(count_in_line(lines[0]) is None);
            assert forall|k: int| 0 <= k < rest.len() implies count_in_line(#[trigger] rest[k]) is None by {
                assert(rest[k] == lines[k + 1]);
            }
        }
    }
}

proof fn lemma_error_line(lines: Seq<Seq<char>>)
    ensures
        forall|i: int|
            0 <= i < lines.len() && is_error(#[trigger] lines[i]) && (forall|k: int|
                0 <= k < i ==> !is_error(#[trigger] lines[k])) ==> first_error_line(lines) == Some(
                trimmed(lines[i]),
            ),
        (forall|k: int| 0 <= k < lines.len() ==> !is_error(#[trigger] lines[k]))
            ==> first_error_line(lines) is None,
    decreases lines.len(),
{
    if lines.len() > 0 {
        let rest = lines.skip(1);
        lemma_error_line(rest);
        assert forall|i: int|
            0 <= i < lines.len() && is_error(#[trigger] lines[i]) && (forall|k: int|
                0 <= k < i ==> !is_error(#[trigger] lines[k])) implies first_error_line(lines)
            == Some(trimmed(lines[i])) by {
            if i > 0 {
                assert(!is_error(lines[0]));
                assert(rest[i - 1] == lines[i]);
                assert forall|k: int| 0 <= k < i - 1 implies !is_error(#[trigger] rest[k]) by {
                    assert(rest[k] == lines[k + 1]);
                }
            }
        }
        if forall|k: int| 0 <= k < lines.len() ==> !is_error(#[trigger] lines[k]) {
            assert(!is_error(lines[0]));
            assert forall|k: int| 0 <= k < rest.len() implies !is_error(#[trigger] rest[k]) by {
                assert(rest[k] == lines[k + 1]);
            }
        }
    }
}

/// A probe's verdict is what was printed: a number of cookies above all, then a browser
/// that is not there, a jar that is sealed, a jar that is shut, and else the first error.
pub proof fn law_a_probe_is_judged_by_what_was_printed(
    output: Seq<char>,
    lower: Seq<char>,
    browser: Seq<char>,
)
    ensures
        is_status(output, lower, browser, probe_verdict(output, lower, browser)),
{
    lemma_first_count(lines_of(output));
    lemma_error_line(lines_of(output));
}

/// The number of cookies is read where yt-dlp prints it.
pub proof fn law_the_number_of_cookies_is_read(n: nat, rest: Seq<char>)
    requires
        n <= usize::MAX,
        ({
            let line = "Extracted "@ + decimal(n) + " cookies"@ + rest;
            trimmed(line) == line
        }),
    ensures
        count_in_line("Extracted "@ + decimal(n) + " cookies"@ + rest) == Some(n as int),
{
    let line = "Extracted "@ + decimal(n) + " cookies"@ + rest;
    let digits = decimal(n);
    law_decimal_reads_back(n);
    let head = "Extracted "@;
    assert(line.subrange(0, head.len() as int) =~= head);
    let after = line.skip(head.len() as int);
    assert(" cookies"@ =~= " "@ + "cookies"@ && " "@ =~= seq![' ']) by {
        reveal_strlit(" cookies");
        reveal_strlit(" ");
        reveal_strlit("cookies");
    }
    assert(after =~= digits + seq![' '] + ("cookies"@ + rest));
    let k = digits.len() as int;
    assert forall|i: int| 0 <= i < k implies after[i] != ' ' by {
        assert(after[i] == digits[i]);
    }
    assert(after[k] == ' ');
    lemma_first_index(after, ' ', k);
    assert(after.take(k) =~= digits);
    let tail = after.skip(k + 1);
    assert(tail =~= "cookies"@ + rest);
    assert(tail.subrange(0, "cookies"@.len() as int) =~= "cookies"@);
    assert(digits[0] != '+');
    assert(unsigned_of(digits) == Some(n as int));
}

/// The status line of the cookies shows how many were read, and there is advice exactly
/// where none were. Where the jar is sealed, nobody is told to close the browser.
pub proof fn law_advice_fits_the_status(status: StatusView)
    ensures
        status.detail() is None <==> status is Disabled || status is Available,
        status matches StatusView::Available { count, source } ==> ends(
            status.headline(),
            "("@ + decimal(count as nat) + " cookies)"@,
        ),
        status matches StatusView::BrowserNotFound { browser } ==> contains(
            status.headline(),
            browser,
        ),
        status matches StatusView::ProbeFailed { detail } ==> ends(status.detail()->0, detail),
        status matches StatusView::DecryptFailed { browser, app_bound } ==> {
            &&& app_bound ==> starts(status.detail()->0, browser + " seals its cookie database"@)
            &&& !app_bound ==> starts(status.detail()->0, "Unable to access "@ + browser)
        },
{
    match status {
        StatusView::Available { count, source } => {
            let s = status.headline();
            let tail = "("@ + decimal(count as nat) + " cookies)"@;
            assert("✓ Cookies available ("@ =~= "✓ Cookies available "@ + "("@) by {
                reveal_strlit("✓ Cookies available (");
                reveal_strlit("✓ Cookies available ");
                reveal_strlit("(");
            }
            assert(s =~= "✓ Cookies available "@ + tail);
            assert(s.subrange(s.len() - tail.len(), s.len() as int) =~= tail);
        },
        StatusView::BrowserNotFound { browser } => {
            let s = status.headline();
            let at = "✗ "@.len() as int;
            assert(s.subrange(at, at + browser.len()) =~= browser);
            assert(occurs_at(s, browser, at));
        },
        StatusView::ProbeFailed { detail } => {
            let d = status.detail()->0;
            assert(d.subrange(d.len() - detail.len(), d.len() as int) =~= detail);
        },
        StatusView::DecryptFailed { browser, app_bound } => {
            let d = status.detail()->0;
            if app_bound {
                let said =
                    " seals its cookie database with app-bound encryption (Windows DPAPI), which yt-dlp cannot read — closing the browser will not help. Firefox is not affected and is the reliable choice here. Otherwise export cookies manually to a Netscape-format cookies.txt and set it below."@;
                let key = " seals its cookie database"@;
                assert(said.len() >= key.len() && said.subrange(0, key.len() as int) =~= key) by {
                    reveal_strlit(
                        " seals its cookie database with app-bound encryption (Windows DPAPI), which yt-dlp cannot read — closing the browser will not help. Firefox is not affected and is the reliable choice here. Otherwise export cookies manually to a Netscape-format cookies.txt and set it below.",
                    );
                    reveal_strlit(" seals its cookie database");
                }
                assert(d.subrange(0, (browser + key).len() as int) =~= browser + said.subrange(
                    0,
                    key.len() as int,
                ));
            } else {
                let head = "Unable to access "@ + browser;
                assert(d.subrange(0, head.len() as int) =~= head);
            }
        },
        StatusView::Disabled => {},
    }
}

/// A line that does not begin as yt-dlp's report does reports no cookies.
pub proof fn law_no_other_line_reports_cookies(line: Seq<char>)
    ensures
        !starts(trimmed(line), "Extracted "@) ==> count_in_line(line) is None,
        count_in_line(line) is Some ==> contains(line, "cookies"@),
{
    if count_in_line(line) is Some {
        let l = trimmed(line);
        let head = "Extracted "@.len() as int;
        let rest = l.skip(head);
        let k = first_index(rest, ' ');
        lemma_first_index_bounds(rest, ' ');
        let tail = rest.skip(k + 1);
        let n = "cookies"@.len() as int;
        assert(tail.subrange(0, n) == "cookies"@);
        let (from, to) = lemma_trimmed_part(line);
        let at = from + head + k + 1;
        assert(line.subrange(at, at + n) =~= tail.subrange(0, n));
        assert(occurs_at(line, "cookies"@, at));
    }
}

/// A probe without a browser says that cookies are not used; one that could not run says
/// why; and any other is judged by all that was printed, under the browser's name.
pub proof fn law_a_probe_of_no_browser_is_none(
    browser: CookieBrowser,
    run: Result<(String, String), String>,
    r: StatusView,
)
    requires
        is_probe_status(browser, run, r),
    ensures
        r is Disabled <==> browser == CookieBrowser::NoBrowser,
        browser != CookieBrowser::NoBrowser ==> {
            &&& run matches Err(e) ==> r == (StatusView::ProbeFailed { detail: e@ })
            &&& run matches Ok(out) ==> is_status(
                out.0@ + "\n"@ + out.1@,
                lowered(out.0@ + "\n"@ + out.1@),
                browser.spec_label(),
                r,
            )
        },
{
    if let Ok(out) = run {
        let output = out.0@ + "\n"@ + out.1@;
        law_a_probe_is_judged_by_what_was_printed(output, lowered(output), browser.spec_label());
    }
}

} // verus!
