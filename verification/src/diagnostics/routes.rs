//! Requests to report bugs and to have reports analysed.

use crate::abuse::request_window;
use crate::auth::extractor;
use crate::auth::extractor::AuthenticatedUser;
use crate::auth::extractor::Authentication;
use crate::crypto;
use crate::diagnostics::bug_report;
use crate::diagnostics::bug_report::AuthenticatedIdentity;
use crate::diagnostics::bug_report::BugReportError;
use crate::diagnostics::bug_report::GitHubClient;
use crate::diagnostics::bug_report::GitHubExchange;
use crate::diagnostics::bug_report::ValidatedBugReport;
use crate::diagnostics::bug_report_rate_limiter::BugReportRateLimiter;
use crate::diagnostics::llm_client;
use crate::diagnostics::llm_client::BugReportContext;
use crate::diagnostics::llm_client::LlmClient;
use crate::diagnostics::llm_client::LlmError;
use crate::diagnostics::llm_client::LlmExchange;
use crate::diagnostics::llm_client::LlmQuestion;
use crate::diagnostics::llm_client::QaPair;
use crate::http::Rejection;
use crate::net::IpAddr;
use crate::text;
use crate::time::Instant;
use vstd::prelude::*;

verus! {

/// The longest title, in bytes.
pub const MAX_TITLE_LEN: usize = 256;

/// The longest category, in bytes.
pub const MAX_CATEGORY_LEN: usize = 64;

/// The longest body, in bytes.
pub const MAX_BODY_LEN: usize = 1_000_000;

/// The largest report with its screenshot, in bytes.
pub const MAX_DECODED_PAYLOAD_SIZE: usize = 5 * 1024 * 1024;

/// A report; the screenshot is in base64.
#[derive(Debug)]
pub struct BugReportRequest {
    pub title: String,
    pub body: String,
    pub category: String,
    pub screenshot: Option<String>,
}

/// The issue that a report has become.
#[derive(Debug)]
pub struct BugReportResponse {
    pub issue_url: String,
}

/// What to do first to find out who reports: nothing where there is no header,
/// for then the report is anonymous. A header that is there must be valid.
pub fn try_extract_auth(
    header: Option<&str>,
    secret: &[u8],
    previous_secret: Option<&[u8]>,
) -> (state: Option<Authentication>)
    ensures
        state is None <==> header is None,
        header is Some && extractor::token_of(header) is None ==> state->0 is Done
            && state->0->Done_0 is Err && extractor::turned_down(state->0->Done_0->Err_0),
        header is Some && extractor::token_of(header) is Some ==> extractor::started(
            extractor::token_of(header)->0,
            secret@,
            previous_secret,
            state->0,
        ),
{
    if header.is_none() {
        None
    } else {
        Some(extractor::start_authentication(header, secret, previous_secret))
    }
}

/// The field that is too long: the first of title, category and body.
pub open spec fn long_field(req: BugReportRequest) -> Option<Seq<char>> {
    if text::utf8(req.title@).len() > MAX_TITLE_LEN {
        Some("title too long"@)
    } else if text::utf8(req.category@).len() > MAX_CATEGORY_LEN {
        Some("category too long"@)
    } else if text::utf8(req.body@).len() > MAX_BODY_LEN {
        Some("body too long"@)
    } else {
        None
    }
}

/// The field that is too long, if any.
pub fn validate_bug_report_fields(req: &BugReportRequest) -> (r: Option<&'static str>)
    ensures
        match r {
            Some(e) => long_field(*req) == Some(e@),
            None => long_field(*req) is None,
        },
{
    if text::byte_len(req.title.as_str()) > MAX_TITLE_LEN {
        return Some("title too long");
    }
    if text::byte_len(req.category.as_str()) > MAX_CATEGORY_LEN {
        return Some("category too long");
    }
    if text::byte_len(req.body.as_str()) > MAX_BODY_LEN {
        return Some("body too long");
    }
    None
}

/// The size of a report: that of its texts, and three quarters of that of the
/// screenshot's base64 text.
pub open spec fn payload_size(req: BugReportRequest) -> nat {
    text::utf8(req.title@).len() + text::utf8(req.body@).len() + text::utf8(req.category@).len() + (
    match req.screenshot {
        Some(b64) => text::utf8(b64@).len() * 3 / 4,
        None => 0,
    })
}

/// Whether a report is too large.
pub fn payload_too_large(req: &BugReportRequest) -> (r: bool)
    ensures
        r == (payload_size(*req) > MAX_DECODED_PAYLOAD_SIZE),
{
    let texts: u128 = text::byte_len(req.title.as_str()) as u128 + text::byte_len(
        req.body.as_str(),
    ) as u128 + text::byte_len(req.category.as_str()) as u128;
    let picture: u128 = match &req.screenshot {
        Some(b64) => text::byte_len(b64.as_str()) as u128 * 3 / 4,
        None => 0,
    };
    texts + picture > MAX_DECODED_PAYLOAD_SIZE as u128
}

/// What someone over a limit is told.
pub open spec fn wait_text(secs: u64) -> Seq<char> {
    "rate limit exceeded, retry after "@ + text::decimal(secs as nat) + "s"@
}

/// The rejection of someone over a limit.
pub fn too_many(secs: u64) -> (r: Rejection)
    ensures
        r.says(429, wait_text(secs)),
{
    let mut s = "rate limit exceeded, retry after ".to_owned();
    text::push_decimal(&mut s, secs);
    s.append("s");
    Rejection { status: 429, error: s }
}

/// The seconds that an address has to wait, if any.
pub open spec fn ip_wait(l: BugReportRateLimiter, ip: IpAddr, now: nat) -> Option<u64> {
    request_window::retry_after(
        request_window::log_of(l.by_ip(), ip),
        l.limits().window@,
        l.limits().max_requests,
        now,
    )
}

/// The seconds that a user has to wait, if any.
pub open spec fn user_wait(
    l: BugReportRateLimiter,
    user: Option<AuthenticatedUser>,
    now: nat,
) -> Option<u64> {
    match user {
        Some(u) => request_window::retry_after(
            request_window::log_of(l.by_user(), u.user_id),
            l.limits().window@,
            l.limits().max_requests,
            now,
        ),
        None => None,
    }
}

/// Why a report is refused before anything is sent, with the status: the limit
/// of the address, that of the user, the size, the fields, the base64 text.
pub open spec fn refusal(
    l: BugReportRateLimiter,
    ip: IpAddr,
    user: Option<AuthenticatedUser>,
    payload: BugReportRequest,
    now: nat,
) -> Option<(u16, Seq<char>)> {
    if ip_wait(l, ip, now) is Some {
        Some((429u16, wait_text(ip_wait(l, ip, now)->0)))
    } else if user_wait(l, user, now) is Some {
        Some((429u16, wait_text(user_wait(l, user, now)->0)))
    } else if payload_size(payload) > MAX_DECODED_PAYLOAD_SIZE {
        Some((413u16, "payload too large"@))
    } else if long_field(payload) is Some {
        Some((400u16, long_field(payload)->0))
    } else if payload.screenshot is Some && !crypto::is_base64_standard(payload.screenshot->0@) {
        Some((400u16, "invalid screenshot encoding"@))
    } else {
        None
    }
}

/// That `request` is the report with its screenshot decoded.
pub open spec fn decodes_to(payload: BugReportRequest, request: ValidatedBugReport) -> bool {
    &&& request.title == payload.title
    &&& request.body == payload.body
    &&& request.category == payload.category
    &&& match payload.screenshot {
        Some(b64) => request.screenshot is Some && crypto::base64_standard(
            request.screenshot->0@,
        ) == b64@,
        None => request.screenshot is None,
    }
}

/// The identity of a user.
pub open spec fn identity_of(user: Option<AuthenticatedUser>) -> Option<AuthenticatedIdentity> {
    match user {
        Some(u) => Some(AuthenticatedIdentity { user_id: u.user_id, device_id: u.device_id }),
        None => None,
    }
}

/// The status and the text for a report that was not submitted.
pub open spec fn report_error(e: BugReportError) -> (u16, Seq<char>) {
    match e {
        BugReportError::InvalidScreenshot => (400u16, "invalid screenshot"@),
        BugReportError::ScreenshotUploadFailed => (502u16, "screenshot upload failed"@),
        BugReportError::IssueCreationFailed => (502u16, "issue creation failed"@),
        BugReportError::PayloadTooLarge => (413u16, "payload too large"@),
    }
}

/// The rejection of a report that was not submitted.
pub fn map_bug_report_error(e: &BugReportError) -> (r: Rejection)
    ensures
        r.says(report_error(*e).0, report_error(*e).1),
{
    match e {
        BugReportError::InvalidScreenshot => Rejection::new(400, "invalid screenshot"),
        BugReportError::ScreenshotUploadFailed => Rejection::new(502, "screenshot upload failed"),
        BugReportError::IssueCreationFailed => Rejection::new(502, "issue creation failed"),
        BugReportError::PayloadTooLarge => Rejection::new(413, "payload too large"),
    }
}

/// That a report was submitted, with what was asked of the service and the
/// result.
pub open spec fn submitted(
    asked: Seq<GitHubExchange>,
    result: Result<Seq<char>, BugReportError>,
    repo: Seq<char>,
    payload: BugReportRequest,
    user: Option<AuthenticatedUser>,
) -> bool {
    exists|request: ValidatedBugReport| #[trigger]
        decodes_to(payload, request) && bug_report::submission(
            asked,
            result,
            repo,
            request,
            identity_of(user),
        )
}

/// The answer to a report that got as far as being submitted.
pub open spec fn answers(
    result: Result<Seq<char>, BugReportError>,
    r: Result<(u16, BugReportResponse), Rejection>,
) -> bool {
    match result {
        Ok(url) => r is Ok && r->Ok_0.0 == 201 && r->Ok_0.1.issue_url@ == url,
        Err(e) => r is Err && r->Err_0.says(report_error(e).0, report_error(e).1),
    }
}

/// That some submission led to the answer.
pub open spec fn submitted_and_answered(
    asked: Seq<GitHubExchange>,
    repo: Seq<char>,
    payload: BugReportRequest,
    user: Option<AuthenticatedUser>,
    r: Result<(u16, BugReportResponse), Rejection>,
) -> bool {
    exists|result: Result<Seq<char>, BugReportError>| #[trigger]
        submitted(asked, result, repo, payload, user) && answers(result, r)
}

/// Whether a report may be sent. It is refused for the limits, its size, its
/// fields and the encoding of its screenshot, in that order; otherwise it comes
/// back with its screenshot decoded.
pub fn admit_report(
    limiter: &mut BugReportRateLimiter,
    client_ip: IpAddr,
    user: Option<AuthenticatedUser>,
    payload: BugReportRequest,
    now: Instant,
) -> (r: Result<ValidatedBugReport, Rejection>)
    requires
        old(limiter).wf(),
    ensures
        final(limiter).wf(),
        final(limiter).limits() == old(limiter).limits(),
        match refusal(*old(limiter), client_ip, user, payload, now@) {
            Some((status, error)) => r is Err && r->Err_0.says(status, error),
            None => r is Ok && decodes_to(payload, r->Ok_0),
        },
        final(limiter).by_ip() == request_window::asked_at(
            old(limiter).by_ip(),
            client_ip,
            old(limiter).limits().window@,
            now@,
        ),
        final(limiter).by_user() == (match user {
            Some(u) if ip_wait(*old(limiter), client_ip, now@) is None => request_window::asked_at(
                old(limiter).by_user(),
                u.user_id,
                old(limiter).limits().window@,
                now@,
            ),
            _ => old(limiter).by_user(),
        }),
{
    if let Some(secs) = limiter.seconds_until_retry_ip(client_ip, now) {
        return Err(too_many(secs));
    }
    if let Some(u) = user {
        if let Some(secs) = limiter.seconds_until_retry_user(u.user_id, now) {
            return Err(too_many(secs));
        }
    }
    if payload_too_large(&payload) {
        return Err(Rejection::new(413, "payload too large"));
    }
    if let Some(e) = validate_bug_report_fields(&payload) {
        return Err(Rejection::new(400, e));
    }
    let screenshot = match &payload.screenshot {
        None => None,
        Some(b64) => match crypto::base64_standard_decode(b64.as_str()) {
            Some(bytes) => Some(bytes),
            None => {
                return Err(Rejection::new(400, "invalid screenshot encoding"));
            },
        },
    };
    Ok(
        ValidatedBugReport {
            title: payload.title,
            body: payload.body,
            category: payload.category,
            screenshot,
        },
    )
}

/// That the submission of the report led to the answer.
pub open spec fn sent_and_answered(
    asked: Seq<GitHubExchange>,
    repo: Seq<char>,
    request: ValidatedBugReport,
    user: Option<AuthenticatedUser>,
    r: Result<(u16, BugReportResponse), Rejection>,
) -> bool {
    exists|result: Result<Seq<char>, BugReportError>| #[trigger]
        bug_report::submission(asked, result, repo, request, identity_of(user)) && answers(
            result,
            r,
        )
}

/// Sends a report that may be sent.
pub fn send_report<C: GitHubClient>(
    github_client: &mut C,
    repo: &str,
    user: Option<AuthenticatedUser>,
    request: ValidatedBugReport,
) -> (r: Result<(u16, BugReportResponse), Rejection>)
    ensures
        old(github_client).exchanges().is_prefix_of(final(github_client).exchanges()),
        old(github_client).record_agrees() ==> final(github_client).record_agrees(),
        final(github_client).fixed_upload() == old(github_client).fixed_upload(),
        final(github_client).fixed_issue() == old(github_client).fixed_issue(),
        bug_report::all_replied_as_fixed(
            final(github_client).exchanges().skip(old(github_client).exchanges().len() as int),
            old(github_client).fixed_upload(),
            old(github_client).fixed_issue(),
        ),
        sent_and_answered(
            final(github_client).exchanges().skip(old(github_client).exchanges().len() as int),
            repo@,
            request,
            user,
            r,
        ),
{
    let identity = match user {
        Some(u) => Some(AuthenticatedIdentity { user_id: u.user_id, device_id: u.device_id }),
        None => None,
    };
    let result = bug_report::submit_bug_report(github_client, repo, request, identity);
    let ghost found = bug_report::reply_view(result);
    let r = match result {
        Ok(issue_url) => Ok((201u16, BugReportResponse { issue_url })),
        Err(e) => Err(map_bug_report_error(&e)),
    };
    assert(answers(found, r));
    r
}

/// Counts a report that was submitted toward the limits.
pub fn record_report(
    limiter: &mut BugReportRateLimiter,
    client_ip: IpAddr,
    user: Option<AuthenticatedUser>,
    now: Instant,
)
    requires
        old(limiter).wf(),
    ensures
        final(limiter).wf(),
        final(limiter).limits() == old(limiter).limits(),
        final(limiter).by_ip() == request_window::recorded_at(
            old(limiter).by_ip(),
            client_ip,
            now@,
        ),
        final(limiter).by_user() == (match user {
            Some(u) => request_window::recorded_at(old(limiter).by_user(), u.user_id, now@),
            None => old(limiter).by_user(),
        }),
{
    limiter.record_ip(client_ip, now);
    if let Some(u) = user {
        limiter.record_user(u.user_id, now);
    }
}

/// Takes a report. It is refused for the limits, its size, its fields and the
/// encoding of its screenshot, in that order, before anything is sent. Only a
/// report that was submitted counts toward the limits.
pub fn submit_bug_report<C: GitHubClient>(
    limiter: &mut BugReportRateLimiter,
    github_client: &mut C,
    repo: &str,
    client_ip: IpAddr,
    user: Option<AuthenticatedUser>,
    payload: BugReportRequest,
    now: Instant,
) -> (r: Result<(u16, BugReportResponse), Rejection>)
    requires
        old(limiter).wf(),
    ensures
        final(limiter).wf(),
        final(limiter).limits() == old(limiter).limits(),
        old(github_client).exchanges().is_prefix_of(final(github_client).exchanges()),
        old(github_client).record_agrees() ==> final(github_client).record_agrees(),
        final(github_client).fixed_upload() == old(github_client).fixed_upload(),
        final(github_client).fixed_issue() == old(github_client).fixed_issue(),
        bug_report::all_replied_as_fixed(
            final(github_client).exchanges().skip(old(github_client).exchanges().len() as int),
            old(github_client).fixed_upload(),
            old(github_client).fixed_issue(),
        ),
        match refusal(*old(limiter), client_ip, user, payload, now@) {
            Some((status, error)) => {
                &&& r is Err
                &&& r->Err_0.says(status, error)
                &&& final(github_client).exchanges() == old(github_client).exchanges()
            },
            None => submitted_and_answered(
                final(github_client).exchanges().skip(old(github_client).exchanges().len() as int),
                repo@,
                payload,
                user,
                r,
            ),
        },
        final(limiter).by_ip() == ({
            let asked = request_window::asked_at(
                old(limiter).by_ip(),
                client_ip,
                old(limiter).limits().window@,
                now@,
            );
            if r is Ok {
                request_window::recorded_at(asked, client_ip, now@)
            } else {
                asked
            }
        }),
        final(limiter).by_user() == (match user {
            None => old(limiter).by_user(),
            Some(u) => if ip_wait(*old(limiter), client_ip, now@) is Some {
                old(limiter).by_user()
            } else {
                let asked = request_window::asked_at(
                    old(limiter).by_user(),
                    u.user_id,
                    old(limiter).limits().window@,
                    now@,
                );
                if r is Ok {
                    request_window::recorded_at(asked, u.user_id, now@)
                } else {
                    asked
                }
            },
        }),
{
    let ghost taken = payload;
    let request = match admit_report(limiter, client_ip, user, payload, now) {
        Ok(request) => request,
        Err(e) => {
            assert(github_client.exchanges().skip(github_client.exchanges().len() as int)
                =~= Seq::<GitHubExchange>::empty());
            return Err(e);
        },
    };
    let ghost asked_for = request;
    let ghost before = github_client.exchanges();
    let r = send_report(github_client, repo, user, request);
    proof {
        let asked = github_client.exchanges().skip(before.len() as int);
        let found = choose|found: Result<Seq<char>, BugReportError>| #[trigger]
            bug_report::submission(asked, found, repo@, asked_for, identity_of(user)) && answers(
                found,
                r,
            );
        assert(decodes_to(taken, asked_for));
        assert(submitted(asked, found, repo@, taken, user));
    }
    if r.is_ok() {
        record_report(limiter, client_ip, user, now);
    }
    r
}

/// A request to have a report analysed.
#[derive(Debug)]
pub struct AnalyzeRequest {
    pub description: String,
    pub context: BugReportContext,
    pub previous_answers: Option<Vec<QaPair>>,
}

/// The analysis of a report.
#[derive(Debug)]
pub struct AnalyzeResponse {
    pub category: String,
    pub questions: Vec<LlmQuestion>,
    pub needs_follow_up: bool,
}

/// A request for the issue that a report makes.
#[derive(Debug)]
pub struct GenerateBodyRequest {
    pub description: String,
    pub context: BugReportContext,
    pub qa_rounds: Vec<Vec<QaPair>>,
    pub category: String,
}

/// The issue that a report makes.
#[derive(Debug)]
pub struct GenerateBodyResponse {
    pub title: String,
    pub body: String,
}

/// The status and the text where the language model gave no answer.
pub open spec fn llm_error(e: LlmError) -> (u16, Seq<char>) {
    match e {
        LlmError::NotConfigured => (503u16, "LLM not configured"@),
        LlmError::ApiError(_) => (502u16, "LLM analysis failed"@),
        LlmError::ParseError => (502u16, "LLM response invalid"@),
        LlmError::NetworkError => (502u16, "LLM service unreachable"@),
    }
}

/// The rejection where the language model gave no answer.
pub fn map_llm_error(e: &LlmError) -> (r: Rejection)
    ensures
        r.says(llm_error(*e).0, llm_error(*e).1),
{
    match e {
        LlmError::NotConfigured => Rejection::new(503, "LLM not configured"),
        LlmError::ApiError(_) => Rejection::new(502, "LLM analysis failed"),
        LlmError::ParseError => Rejection::new(502, "LLM response invalid"),
        LlmError::NetworkError => Rejection::new(502, "LLM service unreachable"),
    }
}

/// Why a request for an analysis is refused before the model is asked.
pub open spec fn analyze_refusal(
    l: BugReportRateLimiter,
    ip: IpAddr,
    description: Seq<char>,
    now: nat,
) -> Option<(u16, Seq<char>)> {
    if ip_wait(l, ip, now) is Some {
        Some((429u16, wait_text(ip_wait(l, ip, now)->0)))
    } else if text::utf8(description).len() < 10 {
        Some((400u16, "description too short"@))
    } else if text::utf8(description).len() > MAX_BODY_LEN {
        Some((400u16, "description too long"@))
    } else {
        None
    }
}

/// The answers of an earlier round as the model gets them.
pub open spec fn earlier_answers(previous: Option<Vec<QaPair>>) -> Option<Seq<QaPair>> {
    match previous {
        Some(answers) => Some(answers@),
        None => None,
    }
}

/// That the model was asked once for an analysis, and the answer is what it
/// said.
pub open spec fn analyzed(
    e: LlmExchange,
    payload: AnalyzeRequest,
    r: Result<AnalyzeResponse, Rejection>,
) -> bool {
    &&& e matches LlmExchange::Analyze { description, context, previous_answers, analysis }
    &&& description == payload.description@
    &&& context == payload.context
    &&& previous_answers == earlier_answers(payload.previous_answers)
    &&& match analysis {
        Ok(a) => r is Ok && r->Ok_0.category == a.category && r->Ok_0.questions == a.questions
            && r->Ok_0.needs_follow_up == a.needs_follow_up,
        Err(e) => r is Err && r->Err_0.says(llm_error(e).0, llm_error(e).1),
    }
}

/// Whether a report may be analysed, within the limit on reports of the address.
pub fn admit_analysis(
    limiter: &mut BugReportRateLimiter,
    client_ip: IpAddr,
    description: &str,
    now: Instant,
) -> (r: Result<(), Rejection>)
    requires
        old(limiter).wf(),
    ensures
        final(limiter).wf(),
        final(limiter).limits() == old(limiter).limits(),
        final(limiter).by_user() == old(limiter).by_user(),
        final(limiter).by_ip() == request_window::asked_at(
            old(limiter).by_ip(),
            client_ip,
            old(limiter).limits().window@,
            now@,
        ),
        match analyze_refusal(*old(limiter), client_ip, description@, now@) {
            Some((status, error)) => r is Err && r->Err_0.says(status, error),
            None => r is Ok,
        },
{
    if let Some(secs) = limiter.seconds_until_retry_ip(client_ip, now) {
        return Err(too_many(secs));
    }
    let len: usize = text::byte_len(description);
    if len < 10 {
        return Err(Rejection::new(400, "description too short"));
    }
    if len > MAX_BODY_LEN {
        return Err(Rejection::new(400, "description too long"));
    }
    Ok(())
}

/// Asks the model for the analysis of a report that may be analysed.
pub fn ask_for_analysis<C: LlmClient>(llm: &mut C, payload: AnalyzeRequest) -> (r: Result<
    AnalyzeResponse,
    Rejection,
>)
    ensures
        old(llm).record_agrees() ==> final(llm).record_agrees(),
        final(llm).fixed_analysis() == old(llm).fixed_analysis(),
        final(llm).fixed_body() == old(llm).fixed_body(),
        final(llm).exchanges().len() == old(llm).exchanges().len() + 1,
        final(llm).exchanges().drop_last() == old(llm).exchanges(),
        analyzed(final(llm).exchanges().last(), payload, r),
        llm_client::replied_as_fixed(
            final(llm).exchanges().last(),
            old(llm).fixed_analysis(),
            old(llm).fixed_body(),
        ),
{
    let previous = match &payload.previous_answers {
        Some(answers) => Some(answers.as_slice()),
        None => None,
    };
    let ghost before = llm.exchanges();
    let found = llm.analyze_bug_report(
        payload.description.as_str(),
        &payload.context,
        previous,
    );
    assert(llm.exchanges().drop_last() =~= before);
    match found {
        Ok(a) => Ok(
            AnalyzeResponse {
                category: a.category,
                questions: a.questions,
                needs_follow_up: a.needs_follow_up,
            },
        ),
        Err(e) => Err(map_llm_error(&e)),
    }
}

/// Has a report analysed, within the limit on reports of the address.
pub fn analyze_bug_report<C: LlmClient>(
    limiter: &mut BugReportRateLimiter,
    llm: &mut C,
    client_ip: IpAddr,
    payload: AnalyzeRequest,
    now: Instant,
) -> (r: Result<AnalyzeResponse, Rejection>)
    requires
        old(limiter).wf(),
    ensures
        final(limiter).wf(),
        final(limiter).limits() == old(limiter).limits(),
        final(limiter).by_user() == old(limiter).by_user(),
        final(limiter).by_ip() == request_window::asked_at(
            old(limiter).by_ip(),
            client_ip,
            old(limiter).limits().window@,
            now@,
        ),
        old(llm).record_agrees() ==> final(llm).record_agrees(),
        final(llm).fixed_analysis() == old(llm).fixed_analysis(),
        final(llm).fixed_body() == old(llm).fixed_body(),
        match analyze_refusal(*old(limiter), client_ip, payload.description@, now@) {
            Some((status, error)) => {
                &&& r is Err
                &&& r->Err_0.says(status, error)
                &&& final(llm).exchanges() == old(llm).exchanges()
            },
            None => {
                &&& final(llm).exchanges().len() == old(llm).exchanges().len() + 1
                &&& final(llm).exchanges().drop_last() == old(llm).exchanges()
                &&& analyzed(final(llm).exchanges().last(), payload, r)
                &&& llm_client::replied_as_fixed(
                    final(llm).exchanges().last(),
                    old(llm).fixed_analysis(),
                    old(llm).fixed_body(),
                )
            },
        },
{
    match admit_analysis(limiter, client_ip, payload.description.as_str(), now) {
        Ok(()) => ask_for_analysis(llm, payload),
        Err(e) => Err(e),
    }
}

/// Why a request for an issue is refused before the model is asked.
pub open spec fn generate_refusal(
    l: BugReportRateLimiter,
    ip: IpAddr,
    description: Seq<char>,
    now: nat,
) -> Option<(u16, Seq<char>)> {
    if ip_wait(l, ip, now) is Some {
        Some((429u16, wait_text(ip_wait(l, ip, now)->0)))
    } else if text::utf8(description).len() < 10 || text::utf8(description).len() > MAX_BODY_LEN {
        Some((400u16, "invalid description length"@))
    } else {
        None
    }
}

/// That the model was asked once for an issue, and the answer is what it said.
pub open spec fn generated(
    e: LlmExchange,
    payload: GenerateBodyRequest,
    r: Result<GenerateBodyResponse, Rejection>,
) -> bool {
    &&& e matches LlmExchange::GenerateBody { description, context, qa_rounds, category, issue }
    &&& description == payload.description@
    &&& context == payload.context
    &&& qa_rounds == payload.qa_rounds@
    &&& category == payload.category@
    &&& match issue {
        Ok(i) => r is Ok && r->Ok_0.title == i.title && r->Ok_0.body == i.body,
        Err(e) => r is Err && r->Err_0.says(llm_error(e).0, llm_error(e).1),
    }
}

/// Whether the issue of a report may be written, within the limit on reports of
/// the address.
pub fn admit_generation(
    limiter: &mut BugReportRateLimiter,
    client_ip: IpAddr,
    description: &str,
    now: Instant,
) -> (r: Result<(), Rejection>)
    requires
        old(limiter).wf(),
    ensures
        final(limiter).wf(),
        final(limiter).limits() == old(limiter).limits(),
        final(limiter).by_user() == old(limiter).by_user(),
        final(limiter).by_ip() == request_window::asked_at(
            old(limiter).by_ip(),
            client_ip,
            old(limiter).limits().window@,
            now@,
        ),
        match generate_refusal(*old(limiter), client_ip, description@, now@) {
            Some((status, error)) => r is Err && r->Err_0.says(status, error),
            None => r is Ok,
        },
{
    if let Some(secs) = limiter.seconds_until_retry_ip(client_ip, now) {
        return Err(too_many(secs));
    }
    let len: usize = text::byte_len(description);
    if len < 10 || len > MAX_BODY_LEN {
        return Err(Rejection::new(400, "invalid description length"));
    }
    Ok(())
}

/// Asks the model for the issue of a report that may be written.
pub fn ask_for_issue<C: LlmClient>(llm: &mut C, payload: GenerateBodyRequest) -> (r: Result<
    GenerateBodyResponse,
    Rejection,
>)
    ensures
        old(llm).record_agrees() ==> final(llm).record_agrees(),
        final(llm).fixed_analysis() == old(llm).fixed_analysis(),
        final(llm).fixed_body() == old(llm).fixed_body(),
        final(llm).exchanges().len() == old(llm).exchanges().len() + 1,
        final(llm).exchanges().drop_last() == old(llm).exchanges(),
        generated(final(llm).exchanges().last(), payload, r),
        llm_client::replied_as_fixed(
            final(llm).exchanges().last(),
            old(llm).fixed_analysis(),
            old(llm).fixed_body(),
        ),
{
    let ghost before = llm.exchanges();
    let found = llm.generate_issue_body(
        payload.description.as_str(),
        &payload.context,
        payload.qa_rounds.as_slice(),
        payload.category.as_str(),
    );
    assert(llm.exchanges().drop_last() =~= before);
    match found {
        Ok(i) => Ok(GenerateBodyResponse { title: i.title, body: i.body }),
        Err(e) => Err(map_llm_error(&e)),
    }
}

/// Has the issue of a report written, within the limit on reports of the
/// address.
pub fn generate_bug_report_body<C: LlmClient>(
    limiter: &mut BugReportRateLimiter,
    llm: &mut C,
    client_ip: IpAddr,
    payload: GenerateBodyRequest,
    now: Instant,
) -> (r: Result<GenerateBodyResponse, Rejection>)
    requires
        old(limiter).wf(),
    ensures
        final(limiter).wf(),
        final(limiter).limits() == old(limiter).limits(),
        final(limiter).by_user() == old(limiter).by_user(),
        final(limiter).by_ip() == request_window::asked_at(
            old(limiter).by_ip(),
            client_ip,
            old(limiter).limits().window@,
            now@,
        ),
        old(llm).record_agrees() ==> final(llm).record_agrees(),
        final(llm).fixed_analysis() == old(llm).fixed_analysis(),
        final(llm).fixed_body() == old(llm).fixed_body(),
        match generate_refusal(*old(limiter), client_ip, payload.description@, now@) {
            Some((status, error)) => {
                &&& r is Err
                &&& r->Err_0.says(status, error)
                &&& final(llm).exchanges() == old(llm).exchanges()
            },
            None => {
                &&& final(llm).exchanges().len() == old(llm).exchanges().len() + 1
                &&& final(llm).exchanges().drop_last() == old(llm).exchanges()
                &&& generated(final(llm).exchanges().last(), payload, r)
                &&& llm_client::replied_as_fixed(
                    final(llm).exchanges().last(),
                    old(llm).fixed_analysis(),
                    old(llm).fixed_body(),
                )
            },
        },
{
    match admit_generation(limiter, client_ip, payload.description.as_str(), now) {
        Ok(()) => ask_for_issue(llm, payload),
        Err(e) => Err(e),
    }
}

/// A report over the limits, too large, or with a field that is too long is
/// never sent, whoever it comes from.
pub proof fn law_checked_before_it_is_sent(
    l: BugReportRateLimiter,
    ip: IpAddr,
    user: Option<AuthenticatedUser>,
    payload: BugReportRequest,
    now: nat,
)
    ensures
        refusal(l, ip, user, payload, now) is None ==> {
            &&& ip_wait(l, ip, now) is None
            &&& user_wait(l, user, now) is None
            &&& payload_size(payload) <= MAX_DECODED_PAYLOAD_SIZE
            &&& text::utf8(payload.title@).len() <= MAX_TITLE_LEN
            &&& text::utf8(payload.category@).len() <= MAX_CATEGORY_LEN
            &&& text::utf8(payload.body@).len() <= MAX_BODY_LEN
        },
{
}

/// What becomes of a report that is not refused. The issue that is asked for has
/// the title of the report, and its text begins with that of the report; the
/// screenshot is uploaded as the very base64 text that came with it. The answer is
/// 201 with the address of the issue, or says which step failed.
pub proof fn law_reports_become_issues(
    asked: Seq<GitHubExchange>,
    repo: Seq<char>,
    payload: BugReportRequest,
    user: Option<AuthenticatedUser>,
    r: Result<(u16, BugReportResponse), Rejection>,
)
    requires
        submitted_and_answered(asked, repo, payload, user, r),
    ensures
        r is Ok ==> {
            &&& asked.len() > 0
            &&& asked.last() is CreateIssue
            &&& (r->Ok_0).0 == 201
            &&& bug_report::reply_of(asked.last()) == Ok::<Seq<char>, BugReportError>(
                (r->Ok_0).1.issue_url@,
            )
        },
        asked.len() > 0 && asked.last() is CreateIssue ==> {
            &&& asked.last()->CreateIssue_repo == repo
            &&& asked.last()->CreateIssue_title == payload.title@
            &&& payload.body@.is_prefix_of(asked.last()->CreateIssue_body)
            &&& asked.last()->CreateIssue_labels.contains("anonymous"@) <==> user is None
        },
        asked.len() > 0 && payload.screenshot is Some ==> {
            &&& asked[0] is UploadContents
            &&& asked[0]->UploadContents_content_base64 == payload.screenshot->0@
        },
        asked.len() > 0 && payload.screenshot is None ==> asked.len() == 1,
        asked.len() == 0 ==> r is Err && r->Err_0.says(400, "invalid screenshot"@),
        asked.len() > 0 && bug_report::reply_of(asked.last()) is Ok ==> r is Ok,
        asked.len() > 0 && bug_report::reply_of(asked.last()) is Err ==> r is Err
            && match bug_report::reply_of(asked.last())->Err_0 {
            BugReportError::InvalidScreenshot => r->Err_0.says(400, "invalid screenshot"@),
            BugReportError::ScreenshotUploadFailed => r->Err_0.says(
                502,
                "screenshot upload failed"@,
            ),
            BugReportError::IssueCreationFailed => r->Err_0.says(502, "issue creation failed"@),
            BugReportError::PayloadTooLarge => r->Err_0.says(413, "payload too large"@),
        },
{
    let result = choose|result: Result<Seq<char>, BugReportError>| #[trigger]
        submitted(asked, result, repo, payload, user) && answers(result, r);
    let request = choose|request: ValidatedBugReport| #[trigger]
        decodes_to(payload, request) && bug_report::submission(
            asked,
            result,
            repo,
            request,
            identity_of(user),
        );
    bug_report::law_what_is_asked_for_a_report(asked, result, repo, request, identity_of(user));
    if asked.len() > 0 && asked.last() is CreateIssue {
        bug_report::law_the_issue_is_the_report(asked, result, repo, request, identity_of(user));
    }
}

/// Why a report is refused before anything is sent, in this order: the address or
/// the user is over the limit, the report is over 5 MiB, a field is too long, or
/// the screenshot is not the base64 text of any bytes.
pub proof fn law_why_reports_are_refused(
    l: BugReportRateLimiter,
    ip: IpAddr,
    user: Option<AuthenticatedUser>,
    payload: BugReportRequest,
    now: nat,
)
    ensures
        ({
            let r = refusal(l, ip, user, payload, now);
            let size = text::utf8(payload.title@).len() + text::utf8(payload.body@).len()
                + text::utf8(payload.category@).len() + (if payload.screenshot is Some {
                text::utf8(payload.screenshot->0@).len() * 3 / 4
            } else {
                0
            });
            &&& r is Some && (r->0).0 == 429 <==> ip_wait(l, ip, now) is Some || user_wait(
                l,
                user,
                now,
            ) is Some
            &&& ip_wait(l, ip, now) is None && user_wait(l, user, now) is None ==> {
                &&& r == Some((413u16, "payload too large"@)) <==> size > 5 * 1024 * 1024
                &&& size <= 5 * 1024 * 1024 ==> {
                    &&& text::utf8(payload.title@).len() > 256 ==> r == Some(
                        (400u16, "title too long"@),
                    )
                    &&& text::utf8(payload.title@).len() <= 256 && text::utf8(
                        payload.category@,
                    ).len() > 64 ==> r == Some((400u16, "category too long"@))
                    &&& text::utf8(payload.title@).len() <= 256 && text::utf8(
                        payload.category@,
                    ).len() <= 64 && text::utf8(payload.body@).len() > 1_000_000
                        ==> r == Some((400u16, "body too long"@))
                    &&& text::utf8(payload.title@).len() <= 256 && text::utf8(
                        payload.category@,
                    ).len() <= 64 && text::utf8(payload.body@).len() <= 1_000_000
                        ==> r == if payload.screenshot is Some && !(exists|bytes: Seq<u8>|
                        #[trigger] crypto::base64_standard(bytes) == payload.screenshot->0@) {
                        Some((400u16, "invalid screenshot encoding"@))
                    } else {
                        None
                    }
                }
            }
        }),
{
}

/// Someone over the limit is told to wait as long as the limiter says and nothing
/// is sent for them; nothing is sent either for a report that is too large. Exactly
/// the reports that became issues count toward the limits of the address and the
/// user.
pub proof fn law_only_issues_count<C: GitHubClient>(
    by_ip: &mut BugReportRateLimiter,
    by_user: &mut BugReportRateLimiter,
    limiter: &mut BugReportRateLimiter,
    github_client: &mut C,
    repo: &str,
    ip: IpAddr,
    user: Option<AuthenticatedUser>,
    payload: BugReportRequest,
    now: Instant,
    ip_waits: Option<u64>,
    user_waits: Option<u64>,
    r: Result<(u16, BugReportResponse), Rejection>,
)
    requires
        call_ensures(BugReportRateLimiter::seconds_until_retry_ip, (by_ip, ip, now), ip_waits),
        *old(by_user) == *old(by_ip),
        user is Some ==> call_ensures(
            BugReportRateLimiter::seconds_until_retry_user,
            (by_user, user->0.user_id, now),
            user_waits,
        ),
        *old(limiter) == *old(by_ip),
        call_ensures(
            submit_bug_report::<C>,
            (limiter, github_client, repo, ip, user, payload, now),
            r,
        ),
    ensures
        ip_waits is Some ==> r is Err && r->Err_0.status == 429 && r->Err_0.error@
            == "rate limit exceeded, retry after "@ + text::decimal(ip_waits->0 as nat) + "s"@,
        ip_waits is None && user is Some && user_waits is Some ==> r is Err && r->Err_0.status
            == 429 && r->Err_0.error@ == "rate limit exceeded, retry after "@ + text::decimal(
            user_waits->0 as nat,
        ) + "s"@,
        ip_waits is Some || (user is Some && user_waits is Some) || text::utf8(payload.title@).len()
            > 256 || text::utf8(payload.category@).len() > 64 || text::utf8(payload.body@).len()
            > 1_000_000 ==> r is Err && final(github_client).exchanges() == old(
            github_client,
        ).exchanges(),
        r is Ok ==> (r->Ok_0).0 == 201,
        r is Ok ==> request_window::log_of(final(limiter).by_ip(), ip) == request_window::log_of(
            final(by_ip).by_ip(),
            ip,
        ).push(now@),
        r is Err ==> final(limiter).by_ip() == final(by_ip).by_ip(),
        r is Ok && user is Some ==> request_window::log_of(
            final(limiter).by_user(),
            user->0.user_id,
        ) == request_window::log_of(final(by_user).by_user(), user->0.user_id).push(now@),
        user is None ==> final(limiter).by_user() == old(limiter).by_user(),
{
}

/// A report that is admitted is the report that was sent in, with the bytes of the
/// screenshot that its base64 text gives.
pub proof fn law_admitted_reports_are_complete(
    limiter: &mut BugReportRateLimiter,
    ip: IpAddr,
    user: Option<AuthenticatedUser>,
    payload: BugReportRequest,
    now: Instant,
    r: Result<ValidatedBugReport, Rejection>,
)
    requires
        call_ensures(admit_report, (limiter, ip, user, payload, now), r),
        r is Ok,
    ensures
        r->Ok_0.title@ == payload.title@,
        r->Ok_0.body@ == payload.body@,
        r->Ok_0.category@ == payload.category@,
        r->Ok_0.screenshot is Some <==> payload.screenshot is Some,
        payload.screenshot is Some ==> crypto::base64_standard(r->Ok_0.screenshot->0@)
            == payload.screenshot->0@,
        text::utf8(payload.title@).len() <= 256,
        text::utf8(payload.category@).len() <= 64,
        text::utf8(payload.body@).len() <= 1_000_000,
{
}

/// The model is asked about a report exactly where the address need not wait and the
/// description has ten bytes to a million; it is asked once, about that report, and
/// its answer is given as it is. Questions do not count as reports.
pub proof fn law_the_model_analyses_the_report<C: LlmClient>(
    asking: &mut BugReportRateLimiter,
    limiter: &mut BugReportRateLimiter,
    llm: &mut C,
    ip: IpAddr,
    payload: AnalyzeRequest,
    now: Instant,
    waits: Option<u64>,
    r: Result<AnalyzeResponse, Rejection>,
)
    requires
        call_ensures(BugReportRateLimiter::seconds_until_retry_ip, (asking, ip, now), waits),
        *old(limiter) == *old(asking),
        call_ensures(analyze_bug_report::<C>, (limiter, llm, ip, payload, now), r),
    ensures
        final(limiter).by_ip() == final(asking).by_ip(),
        final(limiter).by_user() == old(limiter).by_user(),
        waits is Some ==> r is Err && r->Err_0.status == 429,
        waits is None && text::utf8(payload.description@).len() < 10 ==> r is Err
            && r->Err_0.status == 400 && r->Err_0.error@ == "description too short"@,
        waits is None && text::utf8(payload.description@).len() > 1_000_000 ==> r is Err
            && r->Err_0.status == 400 && r->Err_0.error@ == "description too long"@,
        waits is None && 10 <= text::utf8(payload.description@).len() <= 1_000_000 ==> {
            let e = final(llm).exchanges().last();
            &&& final(llm).exchanges().len() == old(llm).exchanges().len() + 1
            &&& e is Analyze
            &&& e->Analyze_description == payload.description@
            &&& e->Analyze_context == payload.context
            &&& e->Analyze_previous_answers is Some <==> payload.previous_answers is Some
            &&& payload.previous_answers is Some ==> e->Analyze_previous_answers->0
                == payload.previous_answers->0@
            &&& r is Ok <==> e->Analyze_analysis is Ok
            &&& r is Ok ==> r->Ok_0.category@ == e->Analyze_analysis->Ok_0.category@
            &&& r is Ok ==> r->Ok_0.questions@ == e->Analyze_analysis->Ok_0.questions@
            &&& r is Ok ==> r->Ok_0.needs_follow_up == e->Analyze_analysis->Ok_0.needs_follow_up
        },
        !(waits is None && 10 <= text::utf8(payload.description@).len() <= 1_000_000) ==> final(llm).exchanges()
            == old(llm).exchanges(),
{
}

/// The same of the issue that the model writes.
pub proof fn law_the_model_writes_the_issue<C: LlmClient>(
    asking: &mut BugReportRateLimiter,
    limiter: &mut BugReportRateLimiter,
    llm: &mut C,
    ip: IpAddr,
    payload: GenerateBodyRequest,
    now: Instant,
    waits: Option<u64>,
    r: Result<GenerateBodyResponse, Rejection>,
)
    requires
        call_ensures(BugReportRateLimiter::seconds_until_retry_ip, (asking, ip, now), waits),
        *old(limiter) == *old(asking),
        call_ensures(generate_bug_report_body::<C>, (limiter, llm, ip, payload, now), r),
    ensures
        final(limiter).by_ip() == final(asking).by_ip(),
        final(limiter).by_user() == old(limiter).by_user(),
        waits is Some ==> r is Err && r->Err_0.status == 429,
        waits is None && !(10 <= text::utf8(payload.description@).len() <= 1_000_000) ==> r is Err
            && r->Err_0.status == 400 && r->Err_0.error@ == "invalid description length"@,
        waits is None && 10 <= text::utf8(payload.description@).len() <= 1_000_000 ==> {
            let e = final(llm).exchanges().last();
            &&& final(llm).exchanges().len() == old(llm).exchanges().len() + 1
            &&& e is GenerateBody
            &&& e->GenerateBody_description == payload.description@
            &&& e->GenerateBody_context == payload.context
            &&& e->GenerateBody_qa_rounds == payload.qa_rounds@
            &&& e->GenerateBody_category == payload.category@
            &&& r is Ok <==> e->GenerateBody_issue is Ok
            &&& r is Ok ==> r->Ok_0.title@ == e->GenerateBody_issue->Ok_0.title@
            &&& r is Ok ==> r->Ok_0.body@ == e->GenerateBody_issue->Ok_0.body@
        },
        !(waits is None && 10 <= text::utf8(payload.description@).len() <= 1_000_000) ==> final(llm).exchanges()
            == old(llm).exchanges(),
{
}

/// What the services outside could not do is told as their failure, 502, and only
/// what lies with the sender or the size of the report as theirs.
pub proof fn law_why_services_fail(
    e: &LlmError,
    r: Rejection,
    b: &BugReportError,
    s: Rejection,
)
    requires
        call_ensures(map_llm_error, (e,), r),
        call_ensures(map_bug_report_error, (b,), s),
    ensures
        r.status == 503 <==> *e is NotConfigured,
        r.status == 502 <==> !(*e is NotConfigured),
        *e is NotConfigured ==> r.error@ == "LLM not configured"@,
        *e is ApiError ==> r.error@ == "LLM analysis failed"@,
        *e is ParseError ==> r.error@ == "LLM response invalid"@,
        *e is NetworkError ==> r.error@ == "LLM service unreachable"@,
        s.status == 400 <==> *b is InvalidScreenshot,
        s.status == 413 <==> *b is PayloadTooLarge,
        s.status == 502 <==> *b is ScreenshotUploadFailed || *b is IssueCreationFailed,
        *b is ScreenshotUploadFailed ==> s.error@ == "screenshot upload failed"@,
        *b is IssueCreationFailed ==> s.error@ == "issue creation failed"@,
{
}

/// A report without a header is anonymous; one with a header is treated as any
/// request that must be authenticated.
pub proof fn law_headers_must_be_valid(
    header: Option<&str>,
    secret: &[u8],
    previous: Option<&[u8]>,
    state: Option<Authentication>,
)
    requires
        call_ensures(try_extract_auth, (header, secret, previous), state),
    ensures
        state is None <==> header is None,
        header is Some && !("Bearer "@.is_prefix_of(header->0@)) ==> state->0 is Done
            && state->0->Done_0 is Err && state->0->Done_0->Err_0.status == 401,
{
}

} // verus!
