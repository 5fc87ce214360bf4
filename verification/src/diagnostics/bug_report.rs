//! Bug reports that become issues.

use crate::crypto;
use crate::ids;
use crate::ids::Uuid;
use crate::json;
use crate::json::Json;
use crate::json::JsonView;
use crate::text;
use vstd::prelude::*;

verus! {

/// Why a report was not submitted.
#[derive(Debug, Clone, Copy, PartialEq, Eq, Structural)]
pub enum BugReportError {
    /// The screenshot is not a PNG image.
    InvalidScreenshot,
    /// The screenshot could not be stored.
    ScreenshotUploadFailed,
    /// The issue could not be created.
    IssueCreationFailed,
    /// The report is too large.
    PayloadTooLarge,
}

impl BugReportError {
    /// The error in words.
    pub fn message(&self) -> (s: &'static str)
        ensures
            s@ == (match *self {
                BugReportError::InvalidScreenshot => "invalid screenshot: not valid PNG"@,
                BugReportError::ScreenshotUploadFailed => "screenshot upload failed"@,
                BugReportError::IssueCreationFailed => "issue creation failed"@,
                BugReportError::PayloadTooLarge => "payload too large"@,
            }),
    {
        match self {
            BugReportError::InvalidScreenshot => "invalid screenshot: not valid PNG",
            BugReportError::ScreenshotUploadFailed => "screenshot upload failed",
            BugReportError::IssueCreationFailed => "issue creation failed",
            BugReportError::PayloadTooLarge => "payload too large",
        }
    }
}

/// The reply to a call, with the text it carries.
pub open spec fn reply_view(r: Result<String, BugReportError>) -> Result<
    Seq<char>,
    BugReportError,
> {
    match r {
        Ok(s) => Ok(s@),
        Err(e) => Err(e),
    }
}

/// What was asked of a client, and what it answered.
pub enum GitHubExchange {
    UploadContents {
        repo: Seq<char>,
        path: Seq<char>,
        content_base64: Seq<char>,
        message: Seq<char>,
        reply: Result<Seq<char>, BugReportError>,
    },
    CreateIssue {
        repo: Seq<char>,
        title: Seq<char>,
        body: Seq<char>,
        labels: Seq<Seq<char>>,
        reply: Result<Seq<char>, BugReportError>,
    },
}

/// The texts of labels.
pub open spec fn label_texts(labels: Seq<&str>) -> Seq<Seq<char>> {
    labels.map_values(|l: &str| l@)
}

/// A client of the service that keeps the issues.
pub trait GitHubClient {
    /// What was asked of this client so far, in order. Where a client does not
    /// say how it keeps its record, that is left open.
    open spec fn exchanges(&self) -> Seq<GitHubExchange> {
        (arbitrary::<spec_fn(&Self) -> Seq<GitHubExchange>>())(self)
    }

    /// That what the client keeps of its calls agrees with this record. Where a
    /// client keeps nothing, it does.
    open spec fn record_agrees(&self) -> bool {
        true
    }

    /// The reply to every file that is stored, where it is settled beforehand.
    open spec fn fixed_upload(&self) -> Option<Result<Seq<char>, BugReportError>> {
        None
    }

    /// The reply to every issue, where it is settled beforehand.
    open spec fn fixed_issue(&self) -> Option<Result<Seq<char>, BugReportError>> {
        None
    }

    /// Stores a file, and gives the address at which it can be seen.
    fn upload_contents(
        &mut self,
        repo: &str,
        path: &str,
        content_base64: &str,
        message: &str,
    ) -> (r: Result<String, BugReportError>)
        ensures
            final(self).exchanges() == old(self).exchanges().push(
                (GitHubExchange::UploadContents {
                    repo: repo@,
                    path: path@,
                    content_base64: content_base64@,
                    message: message@,
                    reply: reply_view(r),
                }),
            ),
            old(self).record_agrees() ==> final(self).record_agrees(),
            old(self).fixed_upload() is Some ==> reply_view(r) == old(self).fixed_upload()->0,
            final(self).fixed_upload() == old(self).fixed_upload(),
            final(self).fixed_issue() == old(self).fixed_issue(),
    ;

    /// Creates an issue, and gives its address.
    fn create_issue(&mut self, repo: &str, title: &str, body: &str, labels: Vec<&str>) -> (r:
        Result<String, BugReportError>)
        ensures
            final(self).exchanges() == old(self).exchanges().push(
                (GitHubExchange::CreateIssue {
                    repo: repo@,
                    title: title@,
                    body: body@,
                    labels: label_texts(labels@),
                    reply: reply_view(r),
                }),
            ),
            old(self).record_agrees() ==> final(self).record_agrees(),
            old(self).fixed_issue() is Some ==> reply_view(r) == old(self).fixed_issue()->0,
            final(self).fixed_upload() == old(self).fixed_upload(),
            final(self).fixed_issue() == old(self).fixed_issue(),
    ;
}

/// The address at which a stored image is rendered: that of its page, with
/// `raw=1` as a further parameter.
pub open spec fn renderable_url(html_url: Seq<char>) -> Seq<char> {
    html_url + (if html_url.contains('?') {
        "&raw=1"@
    } else {
        "?raw=1"@
    })
}

/// The address at which a stored image is rendered.
pub fn github_blob_html_url_to_renderable_url(html_url: &str) -> (url: String)
    ensures
        url@ == renderable_url(html_url@),
{
    if text::find_char(html_url, '?').is_some() {
        html_url.to_owned().concat("&raw=1")
    } else {
        html_url.to_owned().concat("?raw=1")
    }
}

/// The address that the service gives for a stored file.
pub open spec fn uploaded_url(reply: JsonView) -> Option<Seq<char>> {
    match json::json_field(reply, "content"@) {
        Some(content) => match json::field_text(content, "html_url"@) {
            Some(url) => Some(renderable_url(url)),
            None => None,
        },
        None => None,
    }
}

/// The address at which a stored image is rendered, from the reply of the
/// service.
pub fn read_uploaded_url(reply: &Json) -> (r: Result<String, BugReportError>)
    ensures
        reply_view(r) == (match uploaded_url(reply@) {
            Some(url) => Ok::<Seq<char>, BugReportError>(url),
            None => Err(BugReportError::ScreenshotUploadFailed),
        }),
{
    if let Some(content) = reply.field("content") {
        if let Some(url) = content.field_str("html_url") {
            return Ok(github_blob_html_url_to_renderable_url(url));
        }
    }
    Err(BugReportError::ScreenshotUploadFailed)
}

/// The address of an issue, from the reply of the service.
pub fn read_issue_url(reply: &Json) -> (r: Result<String, BugReportError>)
    ensures
        reply_view(r) == (match json::field_text(reply@, "html_url"@) {
            Some(url) => Ok::<Seq<char>, BugReportError>(url),
            None => Err(BugReportError::IssueCreationFailed),
        }),
{
    match reply.field_str("html_url") {
        Some(url) => Ok(url.to_owned()),
        None => Err(BugReportError::IssueCreationFailed),
    }
}

/// The bytes that a PNG image starts with.
pub const PNG_MAGIC: [u8; 8] = [0x89, 0x50, 0x4E, 0x47, 0x0D, 0x0A, 0x1A, 0x0A];

/// Whether the bytes start as a PNG image does.
pub open spec fn starts_as_png(bytes: Seq<u8>) -> bool {
    PNG_MAGIC@.is_prefix_of(bytes)
}

/// Whether the bytes start as a PNG image does.
pub fn is_png(bytes: &Vec<u8>) -> (r: bool)
    ensures
        r == starts_as_png(bytes@),
{
    if bytes.len() < 8 {
        return false;
    }
    let magic: [u8; 8] = PNG_MAGIC;
    let mut i: usize = 0;
    while i < 8
        invariant
            i <= 8,
            8 <= bytes@.len(),
            magic == PNG_MAGIC,
            forall|j: int| 0 <= j < i ==> bytes@[j] == #[trigger] PNG_MAGIC@[j],
        decreases 8 - i,
    {
        if bytes[i] != magic[i] {
            assert(bytes@.subrange(0, 8)[i as int] != PNG_MAGIC@[i as int]);
            return false;
        }
        i = i + 1;
    }
    assert(bytes@.subrange(0, 8) =~= PNG_MAGIC@);
    true
}

/// Who submits a report.
#[derive(Clone, Copy)]
pub struct AuthenticatedIdentity {
    pub user_id: Uuid,
    pub device_id: Uuid,
}

/// A report whose fields were checked; the screenshot is decoded.
#[derive(Debug)]
pub struct ValidatedBugReport {
    pub title: String,
    pub body: String,
    pub category: String,
    pub screenshot: Option<Vec<u8>>,
}

/// The text of the issue: the report, the screenshot, and the device.
pub open spec fn issue_text(
    body: Seq<char>,
    image_url: Option<Seq<char>>,
    identity: Option<AuthenticatedIdentity>,
) -> Seq<char> {
    let shown = match image_url {
        Some(url) => body + "\n\n![Screenshot]("@ + url + ")\n"@,
        None => body,
    };
    match identity {
        Some(id) => shown + "\n\n---\n_Device ID: "@ + ids::uuid_text(id.device_id.value) + "_"@,
        None => shown,
    }
}

/// The labels of the issue.
pub open spec fn issue_labels(identity: Option<AuthenticatedIdentity>) -> Seq<Seq<char>> {
    if identity is None {
        seq!["bug-report"@, "anonymous"@]
    } else {
        seq!["bug-report"@]
    }
}

/// The text of the issue: the report, the screenshot, and the device.
pub fn compose_issue(
    body: &str,
    image_url: Option<&str>,
    identity: Option<AuthenticatedIdentity>,
) -> (s: String)
    ensures
        s@ == issue_text(
            body@,
            match image_url {
                Some(url) => Some(url@),
                None => None,
            },
            identity,
        ),
{
    let mut s = body.to_owned();
    if let Some(url) = image_url {
        s.append("\n\n![Screenshot](");
        s.append(url);
        s.append(")\n");
    }
    if let Some(id) = identity {
        s.append("\n\n---\n_Device ID: ");
        s.append(id.device_id.text().as_str());
        s.append("_");
    }
    s
}

/// The labels of the issue.
pub fn labels_for(identity: Option<AuthenticatedIdentity>) -> (labels: Vec<&'static str>)
    ensures
        label_texts(labels@) == issue_labels(identity),
{
    let mut labels: Vec<&'static str> = Vec::new();
    labels.push("bug-report");
    if identity.is_none() {
        labels.push("anonymous");
    }
    assert(label_texts(labels@) =~= issue_labels(identity));
    labels
}

/// Whether a path is one under which screenshots are stored: a directory and a
/// UUID.
pub open spec fn screenshot_path(path: Seq<char>) -> bool {
    exists|id: u128| path == "bug-reports/"@ + #[trigger] ids::uuid_text(id) + ".png"@
}

/// The path under which the screenshot with this id is stored.
pub fn screenshot_path_for(id: &Uuid) -> (p: String)
    ensures
        p@ == "bug-reports/"@ + ids::uuid_text(id.value) + ".png"@,
{
    let mut path = "bug-reports/".to_owned();
    path.append(id.text().as_str());
    path.append(".png");
    path
}

/// Whether the exchange is the upload of these bytes, wherever to.
pub open spec fn uploads(e: GitHubExchange, repo: Seq<char>, png: Seq<u8>) -> bool {
    &&& e matches GitHubExchange::UploadContents { repo: r, path, content_base64, message, reply: _ }
    &&& r == repo
    &&& screenshot_path(path)
    &&& content_base64 == crypto::base64_standard(png)
    &&& message == "upload bug report screenshot"@
}

/// Whether the exchange is the creation of this issue.
pub open spec fn creates(
    e: GitHubExchange,
    repo: Seq<char>,
    title: Seq<char>,
    body: Seq<char>,
    labels: Seq<Seq<char>>,
) -> bool {
    &&& e matches GitHubExchange::CreateIssue { repo: r, title: t, body: b, labels: l, reply: _ }
    &&& r == repo
    &&& t == title
    &&& b == body
    &&& l == labels
}

/// The reply that an exchange got.
pub open spec fn reply_of(e: GitHubExchange) -> Result<Seq<char>, BugReportError> {
    match e {
        GitHubExchange::UploadContents { reply, .. } => reply,
        GitHubExchange::CreateIssue { reply, .. } => reply,
    }
}

/// That an exchange got the reply that was settled beforehand, where one was.
pub open spec fn replied_as_fixed(
    e: GitHubExchange,
    upload: Option<Result<Seq<char>, BugReportError>>,
    issue: Option<Result<Seq<char>, BugReportError>>,
) -> bool {
    let fixed = match e {
        GitHubExchange::UploadContents { .. } => upload,
        GitHubExchange::CreateIssue { .. } => issue,
    };
    fixed is Some ==> reply_of(e) == fixed->0
}

/// That every exchange got the reply that was settled beforehand.
pub open spec fn all_replied_as_fixed(
    asked: Seq<GitHubExchange>,
    upload: Option<Result<Seq<char>, BugReportError>>,
    issue: Option<Result<Seq<char>, BugReportError>>,
) -> bool {
    forall|i: int| 0 <= i < asked.len() ==> replied_as_fixed(#[trigger] asked[i], upload, issue)
}

/// What submitting a report leads to: what is asked of the client, in order,
/// and the result.
pub open spec fn submission(
    asked: Seq<GitHubExchange>,
    result: Result<Seq<char>, BugReportError>,
    repo: Seq<char>,
    request: ValidatedBugReport,
    identity: Option<AuthenticatedIdentity>,
) -> bool {
    match request.screenshot {
        None => {
            &&& asked.len() == 1
            &&& creates(
                asked[0],
                repo,
                request.title@,
                issue_text(request.body@, None, identity),
                issue_labels(identity),
            )
            &&& result == reply_of(asked[0])
        },
        Some(png) => if !starts_as_png(png@) {
            asked.len() == 0 && result == Err::<Seq<char>, BugReportError>(
                BugReportError::InvalidScreenshot,
            )
        } else {
            &&& asked.len() >= 1
            &&& uploads(asked[0], repo, png@)
            &&& match reply_of(asked[0]) {
                Err(_) => asked.len() == 1 && result == reply_of(asked[0]),
                Ok(url) => {
                    &&& asked.len() == 2
                    &&& creates(
                        asked[1],
                        repo,
                        request.title@,
                        issue_text(request.body@, Some(url), identity),
                        issue_labels(identity),
                    )
                    &&& result == reply_of(asked[1])
                },
            }
        },
    }
}

/// Submits a report: checks the screenshot and stores it, if there is one, then
/// creates the issue. The address of the issue comes back.
pub fn submit_bug_report<C: GitHubClient>(
    github_client: &mut C,
    repo: &str,
    request: ValidatedBugReport,
    identity: Option<AuthenticatedIdentity>,
) -> (r: Result<String, BugReportError>)
    ensures
        old(github_client).exchanges().is_prefix_of(final(github_client).exchanges()),
        old(github_client).record_agrees() ==> final(github_client).record_agrees(),
        final(github_client).fixed_upload() == old(github_client).fixed_upload(),
        final(github_client).fixed_issue() == old(github_client).fixed_issue(),
        all_replied_as_fixed(
            final(github_client).exchanges().skip(old(github_client).exchanges().len() as int),
            old(github_client).fixed_upload(),
            old(github_client).fixed_issue(),
        ),
        submission(
            final(github_client).exchanges().skip(old(github_client).exchanges().len() as int),
            reply_view(r),
            repo@,
            request,
            identity,
        ),
{
    let ghost before = github_client.exchanges();
    let body = match &request.screenshot {
        None => compose_issue(request.body.as_str(), None, identity),
        Some(png) => {
            if !is_png(png) {
                assert(before.skip(before.len() as int) =~= Seq::<GitHubExchange>::empty());
                return Err(BugReportError::InvalidScreenshot);
            }
            let content_base64 = crypto::base64_standard_encode(png.as_slice());
            let id = Uuid::new_v4();
            let path = screenshot_path_for(&id);
            assert(screenshot_path(path@));
            match github_client.upload_contents(
                repo,
                path.as_str(),
                content_base64.as_str(),
                "upload bug report screenshot",
            ) {
                Err(e) => {
                    let ghost after = github_client.exchanges();
                    assert(after.skip(before.len() as int) =~= seq![after.last()]);
                    return Err(e);
                },
                Ok(url) => compose_issue(request.body.as_str(), Some(url.as_str()), identity),
            }
        },
    };
    let ghost mid = github_client.exchanges();
    let r = github_client.create_issue(
        repo,
        request.title.as_str(),
        body.as_str(),
        labels_for(identity),
    );
    proof {
        let after = github_client.exchanges();
        if request.screenshot is Some {
            assert(after.skip(before.len() as int) =~= seq![mid.last(), after.last()]);
        } else {
            assert(after.skip(before.len() as int) =~= seq![after.last()]);
        }
    }
    r
}

/// Nothing is asked of the service for a screenshot that is not a PNG image,
/// and no issue is created where the screenshot could not be stored.
pub proof fn law_no_issue_without_its_screenshot(
    asked: Seq<GitHubExchange>,
    result: Result<Seq<char>, BugReportError>,
    repo: Seq<char>,
    request: ValidatedBugReport,
    identity: Option<AuthenticatedIdentity>,
)
    requires
        submission(asked, result, repo, request, identity),
        request.screenshot is Some,
        exists|i: int| 0 <= i < asked.len() && #[trigger] asked[i] is CreateIssue,
    ensures
        starts_as_png(request.screenshot->0@),
        uploads(asked[0], repo, request.screenshot->0@),
        reply_of(asked[0]) is Ok,
        asked.len() == 2,
{
}

/// A submission succeeds exactly if an issue is created, and the issue is the
/// last thing that is asked for.
pub proof fn law_success_is_an_issue(
    asked: Seq<GitHubExchange>,
    result: Result<Seq<char>, BugReportError>,
    repo: Seq<char>,
    request: ValidatedBugReport,
    identity: Option<AuthenticatedIdentity>,
)
    requires
        submission(asked, result, repo, request, identity),
    ensures
        result is Ok <==> asked.len() > 0 && asked.last() is CreateIssue && reply_of(asked.last())
            is Ok,
        result is Ok ==> result == reply_of(asked.last()),
{
}

/// Where the replies are settled beforehand, so is the outcome: a report without a
/// screenshot gets the reply to the issue; one with a PNG image gets that too,
/// after the upload, or the error of the upload and no issue.
pub proof fn law_fixed_replies_decide(
    asked: Seq<GitHubExchange>,
    result: Result<Seq<char>, BugReportError>,
    repo: Seq<char>,
    request: ValidatedBugReport,
    identity: Option<AuthenticatedIdentity>,
    upload: Result<Seq<char>, BugReportError>,
    issue: Result<Seq<char>, BugReportError>,
)
    requires
        submission(asked, result, repo, request, identity),
        all_replied_as_fixed(asked, Some(upload), Some(issue)),
    ensures
        match request.screenshot {
            None => result == issue && asked.len() == 1 && asked[0] is CreateIssue,
            Some(png) => starts_as_png(png@) ==> asked[0] is UploadContents && (if upload is Err {
                result == upload && asked.len() == 1
            } else {
                result == issue && asked.len() == 2 && asked[1] is CreateIssue
            }),
        },
{
    if asked.len() > 0 {
        assert(replied_as_fixed(asked[0], Some(upload), Some(issue)));
    }
    if asked.len() > 1 {
        assert(replied_as_fixed(asked[1], Some(upload), Some(issue)));
    }
}

/// The label `anonymous` marks exactly the reports without an identity.
pub proof fn law_anonymous_label(identity: Option<AuthenticatedIdentity>)
    ensures
        issue_labels(identity).contains("bug-report"@),
        issue_labels(identity).contains("anonymous"@) <==> identity is None,
{
    reveal_strlit("anonymous");
    reveal_strlit("bug-report");
    assert(issue_labels(identity)[0] == "bug-report"@);
    assert("bug-report"@.len() != "anonymous"@.len());
    if identity is None {
        assert(issue_labels(identity)[1] == "anonymous"@);
    }
}

/// What the issue of a report says. It is created in the repository given, under
/// the title of the report. Its text begins with that of the report, shows the
/// screenshot where the service put it, if there is one, and ends with the device,
/// if it is known; it says nothing else.
pub proof fn law_the_issue_is_the_report(
    asked: Seq<GitHubExchange>,
    result: Result<Seq<char>, BugReportError>,
    repo: Seq<char>,
    request: ValidatedBugReport,
    identity: Option<AuthenticatedIdentity>,
)
    requires
        submission(asked, result, repo, request, identity),
        asked.len() > 0,
        asked.last() is CreateIssue,
    ensures
        ({
            let issue = asked.last();
            let text = issue->CreateIssue_body;
            &&& issue->CreateIssue_repo == repo
            &&& issue->CreateIssue_title == request.title@
            &&& request.body@.is_prefix_of(text)
            &&& request.screenshot is None && identity is None ==> text == request.body@
            &&& request.screenshot is Some && identity is None ==> text == request.body@
                + "\n\n![Screenshot]("@ + reply_of(asked[0])->Ok_0 + ")\n"@
            &&& request.screenshot is None && identity is Some ==> text == request.body@
                + "\n\n---\n_Device ID: "@ + ids::uuid_text(identity->0.device_id.value) + "_"@
            &&& request.screenshot is Some && identity is Some ==> text == request.body@
                + "\n\n![Screenshot]("@ + reply_of(asked[0])->Ok_0 + ")\n"@
                + "\n\n---\n_Device ID: "@ + ids::uuid_text(identity->0.device_id.value) + "_"@
            &&& issue->CreateIssue_labels.contains("bug-report"@)
            &&& issue->CreateIssue_labels.contains("anonymous"@) <==> identity is None
            &&& issue->CreateIssue_labels.len() == if identity is None {
                2
            } else {
                1nat
            }
        }),
{
    law_anonymous_label(identity);
    let text = asked.last()->CreateIssue_body;
    assert(text.subrange(0, request.body@.len() as int) =~= request.body@);
}

/// What is asked for a report: without a screenshot only the issue; with one that
/// does not start as a PNG image nothing; with another first its upload, unchanged
/// but for the encoding, and then, where it was stored, the issue. The result is
/// the last reply.
pub proof fn law_what_is_asked_for_a_report(
    asked: Seq<GitHubExchange>,
    result: Result<Seq<char>, BugReportError>,
    repo: Seq<char>,
    request: ValidatedBugReport,
    identity: Option<AuthenticatedIdentity>,
)
    requires
        submission(asked, result, repo, request, identity),
    ensures
        asked.len() > 0 ==> result == reply_of(asked.last()),
        request.screenshot is None ==> asked.len() == 1 && asked[0] is CreateIssue,
        request.screenshot is Some ==> ({
            let png = request.screenshot->0@;
            let starts = png.len() >= 8 && png[0] == 0x89 && png[1] == 0x50 && png[2] == 0x4e
                && png[3] == 0x47 && png[4] == 0x0d && png[5] == 0x0a && png[6] == 0x1a && png[7]
                == 0x0a;
            &&& !starts ==> asked.len() == 0 && result == Err::<Seq<char>, BugReportError>(
                BugReportError::InvalidScreenshot,
            )
            &&& starts ==> {
                &&& asked.len() >= 1
                &&& asked[0] is UploadContents
                &&& asked[0]->UploadContents_repo == repo
                &&& asked[0]->UploadContents_content_base64 == crypto::base64_standard(png)
                &&& "bug-reports/"@.is_prefix_of(asked[0]->UploadContents_path)
                &&& asked[0]->UploadContents_message == "upload bug report screenshot"@
                &&& asked.len() == 2 <==> reply_of(asked[0]) is Ok
                &&& asked.len() <= 2
                &&& asked.len() == 2 ==> asked[1] is CreateIssue
            }
        }),
{
    if request.screenshot is Some {
        let png = request.screenshot->0@;
        let magic = PNG_MAGIC@;
        assert(magic.len() == 8 && magic[0] == 0x89 && magic[1] == 0x50 && magic[2] == 0x4e
            && magic[3] == 0x47 && magic[4] == 0x0d && magic[5] == 0x0a && magic[6] == 0x1a
            && magic[7] == 0x0a);
        if starts_as_png(png) {
            assert(png.subrange(0, 8) == magic);
            assert(png.subrange(0, 8)[0] == png[0] && png.subrange(0, 8)[1] == png[1]
                && png.subrange(0, 8)[2] == png[2] && png.subrange(0, 8)[3] == png[3]
                && png.subrange(0, 8)[4] == png[4] && png.subrange(0, 8)[5] == png[5]
                && png.subrange(0, 8)[6] == png[6] && png.subrange(0, 8)[7] == png[7]);
            let path = asked[0]->UploadContents_path;
            let id = choose|id: u128|
                path == "bug-reports/"@ + #[trigger] ids::uuid_text(id) + ".png"@;
            assert(path.subrange(0, "bug-reports/"@.len() as int) =~= "bug-reports/"@);
        } else if png.len() >= 8 && png[0] == 0x89 && png[1] == 0x50 && png[2] == 0x4e && png[3]
            == 0x47 && png[4] == 0x0d && png[5] == 0x0a && png[6] == 0x1a && png[7] == 0x0a {
            assert(png.subrange(0, 8) =~= magic);
            assert(false);
        }
    }
}

/// A stored image is rendered at the address of its page with one more parameter:
/// the address is kept, and `raw=1` stands behind the first `?` or a further `&`.
/// A reply without an address is a failure.
pub proof fn law_addresses_come_from_the_replies(
    html_url: &str,
    rendered: String,
    reply: &Json,
    uploaded: Result<String, BugReportError>,
    created: Result<String, BugReportError>,
)
    requires
        call_ensures(github_blob_html_url_to_renderable_url, (html_url,), rendered),
        call_ensures(read_uploaded_url, (reply,), uploaded),
        call_ensures(read_issue_url, (reply,), created),
    ensures
        html_url@.contains('?') ==> rendered@ == html_url@ + "&raw=1"@,
        !html_url@.contains('?') ==> rendered@ == html_url@ + "?raw=1"@,
        ({
            let content = json::json_field(reply@, "content"@);
            let url = json::field_text(content->0, "html_url"@);
            if content is Some && url is Some {
                uploaded is Ok && (url->0 == html_url@ ==> uploaded->Ok_0@ == rendered@)
            } else {
                uploaded == Err::<String, BugReportError>(BugReportError::ScreenshotUploadFailed)
            }
        }),
        match json::field_text(reply@, "html_url"@) {
            Some(url) => created is Ok && created->Ok_0@ == url,
            None => created == Err::<String, BugReportError>(BugReportError::IssueCreationFailed),
        },
{
}

/// A call that a `MockGitHubClient` has received.
#[derive(Debug, Clone, PartialEq)]
pub enum MockGitHubCall {
    UploadContents { repo: String, path: String, content_base64: String, message: String },
    CreateIssue { repo: String, title: String, body: String, labels: Vec<String> },
}

/// That the call is what the exchange asked for.
pub open spec fn same_call(call: MockGitHubCall, e: GitHubExchange) -> bool {
    match (call, e) {
        (
            MockGitHubCall::UploadContents { repo, path, content_base64, message },
            GitHubExchange::UploadContents { repo: r, path: p, content_base64: c, message: m, .. },
        ) => repo@ == r && path@ == p && content_base64@ == c && message@ == m,
        (
            MockGitHubCall::CreateIssue { repo, title, body, labels },
            GitHubExchange::CreateIssue { repo: r, title: t, body: b, labels: l, .. },
        ) => repo@ == r && title@ == t && body@ == b && text::views(labels@) == l,
        _ => false,
    }
}

/// What a `MockGitHubClient` answers.
#[derive(Debug)]
pub struct MockGitHubConfig {
    pub upload_contents_result: Result<String, BugReportError>,
    pub create_issue_result: Result<String, BugReportError>,
}

impl Default for MockGitHubConfig {
    fn default() -> (c: MockGitHubConfig)
        ensures
            reply_view(c.upload_contents_result) == Ok::<Seq<char>, BugReportError>(
                "https://github.com/test/repo/blob/main/bug-reports/test.png?raw=1"@,
            ),
            reply_view(c.create_issue_result) == Ok::<Seq<char>, BugReportError>(
                "https://github.com/test/repo/issues/1"@,
            ),
    {
        MockGitHubConfig {
            upload_contents_result: Ok(
                "https://github.com/test/repo/blob/main/bug-reports/test.png?raw=1".to_owned(),
            ),
            create_issue_result: Ok("https://github.com/test/repo/issues/1".to_owned()),
        }
    }
}

/// A client for tests: it keeps the calls and answers as configured.
pub struct MockGitHubClient {
    pub calls: Vec<MockGitHubCall>,
    pub config: MockGitHubConfig,
    pub log: Ghost<Seq<GitHubExchange>>,
}

impl MockGitHubClient {
    /// A client that answers every call with success.
    pub fn new() -> (c: MockGitHubClient)
        ensures
            c.calls@.len() == 0,
            c.exchanges() == Seq::<GitHubExchange>::empty(),
            c.record_agrees(),
            c.fixed_upload() == Some(
                Ok::<Seq<char>, BugReportError>(
                    "https://github.com/test/repo/blob/main/bug-reports/test.png?raw=1"@,
                ),
            ),
            c.fixed_issue() == Some(
                Ok::<Seq<char>, BugReportError>("https://github.com/test/repo/issues/1"@),
            ),
    {
        MockGitHubClient {
            calls: Vec::new(),
            config: MockGitHubConfig::default(),
            log: Ghost(Seq::empty()),
        }
    }

    /// A client that answers as configured.
    pub fn with_config(config: MockGitHubConfig) -> (c: MockGitHubClient)
        ensures
            c.calls@.len() == 0,
            c.exchanges() == Seq::<GitHubExchange>::empty(),
            c.record_agrees(),
            c.config == config,
    {
        MockGitHubClient { calls: Vec::new(), config, log: Ghost(Seq::empty()) }
    }

    proof fn lemma_record_grows(self, before: Self)
        requires
            before.record_agrees(),
            self.calls@.len() == before.calls@.len() + 1,
            self.calls@.drop_last() == before.calls@,
            self.exchanges().len() == before.exchanges().len() + 1,
            self.exchanges().drop_last() == before.exchanges(),
            same_call(self.calls@.last(), self.exchanges().last()),
        ensures
            self.record_agrees(),
    {
        assert forall|i: int| 0 <= i < self.calls@.len() implies same_call(
            #[trigger] self.calls@[i],
            self.exchanges()[i],
        ) by {
            if i < before.calls@.len() {
                assert(self.calls@[i] == before.calls@[i]);
                assert(self.exchanges()[i] == before.exchanges()[i]);
            }
        }
    }

    /// The calls so far.
    pub fn get_calls(&self) -> (calls: &Vec<MockGitHubCall>)
        ensures
            *calls == self.calls,
    {
        &self.calls
    }
}

impl Default for MockGitHubClient {
    fn default() -> (c: MockGitHubClient)
        ensures
            c.calls@.len() == 0,
            c.exchanges() == Seq::<GitHubExchange>::empty(),
            c.record_agrees(),
            c.fixed_upload() == Some(
                Ok::<Seq<char>, BugReportError>(
                    "https://github.com/test/repo/blob/main/bug-reports/test.png?raw=1"@,
                ),
            ),
            c.fixed_issue() == Some(
                Ok::<Seq<char>, BugReportError>("https://github.com/test/repo/issues/1"@),
            ),
    {
        MockGitHubClient::new()
    }
}

impl GitHubClient for MockGitHubClient {
    closed spec fn exchanges(&self) -> Seq<GitHubExchange> {
        self.log@
    }

    open spec fn fixed_upload(&self) -> Option<Result<Seq<char>, BugReportError>> {
        Some(
            match self.config.upload_contents_result {
                Ok(url) => Ok(url@),
                Err(_) => Err(BugReportError::ScreenshotUploadFailed),
            },
        )
    }

    open spec fn fixed_issue(&self) -> Option<Result<Seq<char>, BugReportError>> {
        Some(
            match self.config.create_issue_result {
                Ok(url) => Ok(url@),
                Err(_) => Err(BugReportError::IssueCreationFailed),
            },
        )
    }

    open spec fn record_agrees(&self) -> bool {
        &&& self.calls@.len() == self.exchanges().len()
        &&& forall|i: int|
            0 <= i < self.calls@.len() ==> same_call(#[trigger] self.calls@[i], self.exchanges()[i])
    }

    fn upload_contents(
        &mut self,
        repo: &str,
        path: &str,
        content_base64: &str,
        message: &str,
    ) -> (r: Result<String, BugReportError>)
        ensures
            final(self).config == old(self).config,
            final(self).calls@.len() == old(self).calls@.len() + 1,
            final(self).calls@.drop_last() == old(self).calls@,
            final(self).calls@.last() matches MockGitHubCall::UploadContents {
                repo: a,
                path: b,
                content_base64: c,
                message: d,
            } && a@ == repo@ && b@ == path@ && c@ == content_base64@ && d@ == message@,
            match old(self).config.upload_contents_result {
                Ok(url) => r == Ok::<String, BugReportError>(url),
                Err(_) => r == Err::<String, BugReportError>(
                    BugReportError::ScreenshotUploadFailed,
                ),
            },
    {
        self.calls.push(
            MockGitHubCall::UploadContents {
                repo: repo.to_owned(),
                path: path.to_owned(),
                content_base64: content_base64.to_owned(),
                message: message.to_owned(),
            },
        );
        assert(self.calls@.drop_last() =~= old(self).calls@);
        let r = match &self.config.upload_contents_result {
            Ok(url) => Ok(url.clone()),
            Err(_) => Err(BugReportError::ScreenshotUploadFailed),
        };
        self.log = Ghost(
            self.log@.push(
                GitHubExchange::UploadContents {
                    repo: repo@,
                    path: path@,
                    content_base64: content_base64@,
                    message: message@,
                    reply: reply_view(r),
                },
            ),
        );
        proof {
            if old(self).record_agrees() {
                assert(self.exchanges().drop_last() =~= old(self).exchanges());
                self.lemma_record_grows(*old(self));
            }
        }
        r
    }

    fn create_issue(&mut self, repo: &str, title: &str, body: &str, labels: Vec<&str>) -> (r:
        Result<String, BugReportError>)
        ensures
            final(self).config == old(self).config,
            final(self).calls@.len() == old(self).calls@.len() + 1,
            final(self).calls@.drop_last() == old(self).calls@,
            final(self).calls@.last() matches MockGitHubCall::CreateIssue {
                repo: a,
                title: b,
                body: c,
                labels: d,
            } && a@ == repo@ && b@ == title@ && c@ == body@ && text::views(d@) == label_texts(
                labels@,
            ),
            match old(self).config.create_issue_result {
                Ok(url) => r == Ok::<String, BugReportError>(url),
                Err(_) => r == Err::<String, BugReportError>(BugReportError::IssueCreationFailed),
            },
    {
        let mut owned: Vec<String> = Vec::new();
        let mut i: usize = 0;
        while i < labels.len()
            invariant
                i <= labels@.len(),
                owned@.len() == i,
                forall|j: int| 0 <= j < i ==> (#[trigger] owned@[j])@ == labels@[j]@,
            decreases labels@.len() - i,
        {
            owned.push(labels[i].to_owned());
            i = i + 1;
        }
        assert(text::views(owned@) =~= label_texts(labels@));
        self.calls.push(
            MockGitHubCall::CreateIssue {
                repo: repo.to_owned(),
                title: title.to_owned(),
                body: body.to_owned(),
                labels: owned,
            },
        );
        assert(self.calls@.drop_last() =~= old(self).calls@);
        let r = match &self.config.create_issue_result {
            Ok(url) => Ok(url.clone()),
            Err(_) => Err(BugReportError::IssueCreationFailed),
        };
        self.log = Ghost(
            self.log@.push(
                GitHubExchange::CreateIssue {
                    repo: repo@,
                    title: title@,
                    body: body@,
                    labels: label_texts(labels@),
                    reply: reply_view(r),
                },
            ),
        );
        proof {
            if old(self).record_agrees() {
                assert(self.exchanges().drop_last() =~= old(self).exchanges());
                self.lemma_record_grows(*old(self));
            }
        }
        r
    }
}

/// Each error is told in its own words.
pub proof fn law_messages_say_what_is_wrong(e: &BugReportError, s: &'static str)
    requires
        call_ensures(BugReportError::message, (e,), s),
    ensures
        *e is InvalidScreenshot ==> s@ == "invalid screenshot: not valid PNG"@,
        *e is ScreenshotUploadFailed ==> s@ == "screenshot upload failed"@,
        *e is IssueCreationFailed ==> s@ == "issue creation failed"@,
        *e is PayloadTooLarge ==> s@ == "payload too large"@,
{
}

/// Whatever is submitted is asked for as it was reported: one issue with the title of
/// the report, and the answer to it is the answer.
pub proof fn law_submissions_ask_for_the_issue<C: GitHubClient>(
    github_client: &mut C,
    repo: &str,
    request: ValidatedBugReport,
    identity: Option<AuthenticatedIdentity>,
    r: Result<String, BugReportError>,
)
    requires
        call_ensures(submit_bug_report::<C>, (github_client, repo, request, identity), r),
    ensures
        r is Ok ==> {
            let issue = final(github_client).exchanges().last();
            &&& final(github_client).exchanges().len() > old(github_client).exchanges().len()
            &&& issue is CreateIssue
            &&& issue->CreateIssue_repo == repo@
            &&& issue->CreateIssue_title == request.title@
            &&& request.body@.is_prefix_of(issue->CreateIssue_body)
            &&& reply_of(issue) == Ok::<Seq<char>, BugReportError>(r->Ok_0@)
        },
        request.screenshot is None ==> final(github_client).exchanges().len() == old(
            github_client,
        ).exchanges().len() + 1,
{
    let asked = final(github_client).exchanges().skip(
        old(github_client).exchanges().len() as int,
    );
    assert(asked.len() == final(github_client).exchanges().len() - old(
        github_client,
    ).exchanges().len());
    law_what_is_asked_for_a_report(asked, reply_view(r), repo@, request, identity);
    if r is Ok {
        assert(asked.len() > 0);
        assert(asked.last() == final(github_client).exchanges().last());
        law_the_issue_is_the_report(asked, reply_view(r), repo@, request, identity);
    }
}

/// Screenshots of different ids are stored in different files, below the directory of
/// reports; an image is one exactly where it starts with the eight bytes of PNG.
pub proof fn law_screenshots_are_stored_by_id(id: &Uuid, path: String, bytes: &Vec<u8>, png: bool)
    requires
        call_ensures(screenshot_path_for, (id,), path),
        call_ensures(is_png, (bytes,), png),
    ensures
        path@ == "bug-reports/"@ + ids::uuid_text(id.value) + ".png"@,
        png <==> bytes@.len() >= 8 && bytes@[0] == 137 && bytes@[1] == 80 && bytes@[2] == 78
            && bytes@[3] == 71 && bytes@[4] == 13 && bytes@[5] == 10 && bytes@[6] == 26 && bytes@[7]
            == 10,
{
    let magic = PNG_MAGIC@;
    assert(magic.len() == 8 && magic[0] == 137 && magic[1] == 80 && magic[2] == 78 && magic[3]
        == 71 && magic[4] == 13 && magic[5] == 10 && magic[6] == 26 && magic[7] == 10);
    if png {
        let head = bytes@.subrange(0, 8);
        assert(head == magic);
        assert(head[0] == bytes@[0] && head[1] == bytes@[1] && head[2] == bytes@[2] && head[3]
            == bytes@[3] && head[4] == bytes@[4] && head[5] == bytes@[5] && head[6] == bytes@[6]
            && head[7] == bytes@[7]);
    } else if bytes@.len() >= 8 && bytes@[0] == 137 && bytes@[1] == 80 && bytes@[2] == 78 && bytes@[3]
        == 71 && bytes@[4] == 13 && bytes@[5] == 10 && bytes@[6] == 26 && bytes@[7] == 10 {
        assert(bytes@.subrange(0, 8) =~= magic);
    }
}

/// A client for tests keeps each call as it was made, and in the order in which they
/// were made.
pub proof fn law_kept_calls_are_those_made(client: MockGitHubClient, i: int)
    requires
        client.record_agrees(),
        0 <= i < client.exchanges().len(),
    ensures
        client.calls@.len() == client.exchanges().len(),
        client.exchanges()[i] is UploadContents <==> client.calls@[i] is UploadContents,
        client.exchanges()[i] is UploadContents ==> {
            let e = client.exchanges()[i];
            let c = client.calls@[i];
            &&& c->UploadContents_repo@ == e->UploadContents_repo
            &&& c->UploadContents_path@ == e->UploadContents_path
            &&& c->UploadContents_content_base64@ == e->UploadContents_content_base64
            &&& c->UploadContents_message@ == e->UploadContents_message
        },
        client.exchanges()[i] is CreateIssue ==> {
            let e = client.exchanges()[i];
            let c = client.calls@[i];
            &&& c->CreateIssue_repo@ == e->CreateIssue_repo
            &&& c->CreateIssue_title@ == e->CreateIssue_title
            &&& c->CreateIssue_body@ == e->CreateIssue_body
            &&& text::views(c->CreateIssue_labels@) == e->CreateIssue_labels
        },
{
    assert(same_call(client.calls@[i], client.exchanges()[i]));
}

} // verus!
