//! Questions to a language model about a bug report, and its replies.

use crate::diagnostics::prompts;
use crate::json;
use crate::json::Json;
use crate::json::JsonView;
use crate::text;
use vstd::prelude::*;

verus! {

/// Why the language model gave no answer.
#[derive(Debug, Clone)]
pub enum LlmError {
    /// The service answered with a status other than success.
    ApiError(String),
    /// The reply is not of the form expected.
    ParseError,
    /// The service could not be reached in time.
    NetworkError,
    /// No key for the service is configured.
    NotConfigured,
}

impl LlmError {
    /// The error in words.
    pub open spec fn text(self) -> Seq<char> {
        match self {
            LlmError::ApiError(msg) => "LLM API error: "@ + msg@,
            LlmError::ParseError => "LLM response parse error"@,
            LlmError::NetworkError => "LLM network error"@,
            LlmError::NotConfigured => "LLM not configured"@,
        }
    }

    /// The error in words.
    pub fn message(&self) -> (s: String)
        ensures
            s@ == self.text(),
    {
        match self {
            LlmError::ApiError(msg) => "LLM API error: ".to_owned().concat(msg.as_str()),
            LlmError::ParseError => "LLM response parse error".to_owned(),
            LlmError::NetworkError => "LLM network error".to_owned(),
            LlmError::NotConfigured => "LLM not configured".to_owned(),
        }
    }
}

/// What the client saw before the bug was reported.
#[derive(Debug, Clone)]
pub struct BugReportContext {
    pub js_console_logs: Vec<String>,
    pub rust_logs: Vec<String>,
    pub ws_messages: Vec<String>,
    pub app_state: AppStateSnapshot,
}

/// The state of the client.
#[derive(Debug, Clone)]
pub struct AppStateSnapshot {
    pub route: String,
    pub ws_status: String,
    pub voice_room_state: Option<String>,
    pub platform: String,
}

/// A question and its answer.
#[derive(Debug, Clone)]
pub struct QaPair {
    pub question: String,
    pub answer: String,
}

/// A question to the user; with options it is answered by choosing one.
#[derive(Debug, Clone)]
pub struct LlmQuestion {
    pub text: String,
    pub options: Option<Vec<String>>,
}

/// What the model makes of a report.
#[derive(Debug, Clone)]
pub struct LlmAnalysis {
    pub category: String,
    pub questions: Vec<LlmQuestion>,
    pub needs_follow_up: bool,
}

/// The issue that the model has written.
#[derive(Debug, Clone)]
pub struct GeneratedIssueBody {
    pub title: String,
    pub body: String,
}

/// A route without the hash in front that client-side routing may add.
pub open spec fn bare_route(route: Seq<char>) -> Seq<char> {
    if route.len() > 0 && route[0] == '#' {
        route.skip(1)
    } else {
        route
    }
}

/// What the model is told of the screen at a route.
pub open spec fn screen_context(route: Seq<char>) -> Seq<char> {
    let path = bare_route(route);
    if path == "/"@ {
        prompts::SCREEN_HOME@
    } else if path == "/setup"@ {
        prompts::SCREEN_SETUP@
    } else if path == "/login"@ {
        prompts::SCREEN_LOGIN@
    } else if path == "/recover"@ {
        prompts::SCREEN_RECOVER@
    } else if path == "/pair"@ {
        prompts::SCREEN_PAIR@
    } else if path == "/settings"@ {
        prompts::SCREEN_SETTINGS@
    } else if path == "/devices"@ {
        prompts::SCREEN_DEVICES@
    } else if path == "/phrase"@ {
        prompts::SCREEN_PHRASE@
    } else if path == "/room"@ {
        prompts::SCREEN_ROOM@
    } else if path == "/screen-share"@ || path == "/watch-all"@ || path == "/share-indicator"@ {
        prompts::SCREEN_SHARE@
    } else if path == "/share-picker"@ {
        prompts::SCREEN_SHARE_PICKER@
    } else if "/channel/"@.is_prefix_of(path) {
        prompts::SCREEN_CHANNEL@
    } else {
        prompts::SCREEN_UNKNOWN@
    }
}

/// What the model is told of the screen at a route.
pub fn screen_context_for_route(route: &str) -> (r: &'static str)
    ensures
        r@ == screen_context(route@),
{
    proof {
        reveal_strlit("#");
        assert("#"@.is_prefix_of(route@) <==> route@.len() > 0 && route@[0] == '#') by {
            if route@.len() > 0 {
                assert(route@.subrange(0, 1)[0] == route@[0]);
                assert(route@[0] == '#' ==> route@.subrange(0, 1) =~= "#"@);
            }
        }
    }
    let path = match text::strip_prefix(route, "#") {
        Some(rest) => rest,
        None => route,
    };
    if text::str_eq(path, "/") {
        prompts::SCREEN_HOME
    } else if text::str_eq(path, "/setup") {
        prompts::SCREEN_SETUP
    } else if text::str_eq(path, "/login") {
        prompts::SCREEN_LOGIN
    } else if text::str_eq(path, "/recover") {
        prompts::SCREEN_RECOVER
    } else if text::str_eq(path, "/pair") {
        prompts::SCREEN_PAIR
    } else if text::str_eq(path, "/settings") {
        prompts::SCREEN_SETTINGS
    } else if text::str_eq(path, "/devices") {
        prompts::SCREEN_DEVICES
    } else if text::str_eq(path, "/phrase") {
        prompts::SCREEN_PHRASE
    } else if text::str_eq(path, "/room") {
        prompts::SCREEN_ROOM
    } else if text::str_eq(path, "/screen-share") || text::str_eq(path, "/watch-all")
        || text::str_eq(path, "/share-indicator") {
        prompts::SCREEN_SHARE
    } else if text::str_eq(path, "/share-picker") {
        prompts::SCREEN_SHARE_PICKER
    } else if text::strip_prefix(path, "/channel/").is_some() {
        prompts::SCREEN_CHANNEL
    } else {
        prompts::SCREEN_UNKNOWN
    }
}

/// A route means the same screen with a hash in front and without.
pub proof fn law_hash_is_ignored(path: Seq<char>)
    requires
        path.len() == 0 || path[0] != '#',
    ensures
        screen_context("#"@ + path) == screen_context(path),
{
    reveal_strlit("#");
    assert(("#"@ + path).skip(1) =~= path);
}

/// The last `n` lines, one below the other.
pub open spec fn last_lines(lines: Seq<String>, n: nat) -> Seq<char> {
    text::joined(
        text::views(
            if lines.len() <= n {
                lines
            } else {
                lines.skip(lines.len() - n)
            },
        ),
        "\n"@,
    )
}

fn tail_of(lines: &Vec<String>, n: usize) -> (s: String)
    ensures
        s@ == last_lines(lines@, n as nat),
{
    let start: usize = if lines.len() <= n {
        0
    } else {
        lines.len() - n
    };
    let mut tail: Vec<String> = Vec::new();
    let mut i: usize = start;
    while i < lines.len()
        invariant
            start <= i <= lines@.len(),
            tail@ == lines@.subrange(start as int, i as int),
        decreases lines@.len() - i,
    {
        tail.push(lines[i].clone());
        i = i + 1;
        assert(tail@ =~= lines@.subrange(start as int, i as int));
    }
    assert(lines@.len() <= n ==> tail@ =~= lines@);
    assert(lines@.len() > n ==> tail@ =~= lines@.skip(lines@.len() - n));
    text::join(&tail, "\n")
}

/// The state of the voice room in words.
pub open spec fn voice_room(state: Option<String>) -> Seq<char> {
    match state {
        Some(s) => s@,
        None => "none"@,
    }
}

fn voice_room_of(state: &Option<String>) -> (s: &str)
    ensures
        s@ == voice_room(*state),
{
    match state {
        Some(s) => s.as_str(),
        None => "none",
    }
}

/// The context as the model gets it for an analysis.
pub open spec fn context_summary(context: BugReportContext) -> Seq<char> {
    "## Console Logs (last "@ + text::decimal(context.js_console_logs@.len()) + " lines)\n"@
        + last_lines(context.js_console_logs@, 20) + "\n\n## Rust Logs (last "@ + text::decimal(
        context.rust_logs@.len(),
    ) + " lines)\n"@ + last_lines(context.rust_logs@, 20) + "\n\n## WebSocket Messages (last "@
        + text::decimal(context.ws_messages@.len()) + ")\n"@ + last_lines(context.ws_messages@, 10)
        + "\n\n## App State\nRoute: "@ + context.app_state.route@ + "\nWS Status: "@
        + context.app_state.ws_status@ + "\nVoice Room: "@ + voice_room(
        context.app_state.voice_room_state,
    ) + "\nPlatform: "@ + context.app_state.platform@
}

fn summary_of(context: &BugReportContext) -> (s: String)
    ensures
        s@ == context_summary(*context),
{
    let mut s = "## Console Logs (last ".to_owned();
    text::push_decimal(&mut s, context.js_console_logs.len() as u64);
    s.append(" lines)\n");
    s.append(tail_of(&context.js_console_logs, 20).as_str());
    s.append("\n\n## Rust Logs (last ");
    text::push_decimal(&mut s, context.rust_logs.len() as u64);
    s.append(" lines)\n");
    s.append(tail_of(&context.rust_logs, 20).as_str());
    s.append("\n\n## WebSocket Messages (last ");
    text::push_decimal(&mut s, context.ws_messages.len() as u64);
    s.append(")\n");
    s.append(tail_of(&context.ws_messages, 10).as_str());
    s.append("\n\n## App State\nRoute: ");
    s.append(context.app_state.route.as_str());
    s.append("\nWS Status: ");
    s.append(context.app_state.ws_status.as_str());
    s.append("\nVoice Room: ");
    s.append(voice_room_of(&context.app_state.voice_room_state));
    s.append("\nPlatform: ");
    s.append(context.app_state.platform.as_str());
    s
}

/// A question and its answer in an analysis.
pub open spec fn qa_text(qa: QaPair) -> Seq<char> {
    "Q: "@ + qa.question@ + "\nA: "@ + qa.answer@
}

/// The prompt that asks for an analysis of a report.
pub open spec fn analysis_prompt(
    description: Seq<char>,
    context: BugReportContext,
    previous_answers: Option<Seq<QaPair>>,
) -> Seq<char> {
    let question = prompts::ANALYSIS_INTRO@ + description + prompts::ANALYSIS_CONTEXT@
        + context_summary(context) + prompts::ANALYSIS_SCREEN@ + screen_context(
        context.app_state.route@,
    ) + prompts::ANALYSIS_RULES@;
    match previous_answers {
        Some(answers) => if answers.len() > 0 {
            question + prompts::ANALYSIS_ANSWERED@ + text::joined(
                answers.map_values(|qa: QaPair| qa_text(qa)),
                "\n\n"@,
            ) + prompts::ANALYSIS_FINAL@
        } else {
            question
        },
        None => question,
    }
}

/// The answers of an argument, if there is one.
pub open spec fn answers_of(previous_answers: Option<&[QaPair]>) -> Option<Seq<QaPair>> {
    match previous_answers {
        Some(answers) => Some(answers@),
        None => None,
    }
}

/// The prompt that asks for an analysis of a report: the description, the last
/// lines of each log, the state of the client, what is known of its screen, the
/// form of the reply, and the answers of an earlier round.
pub fn build_analysis_prompt(
    description: &str,
    context: &BugReportContext,
    previous_answers: Option<&[QaPair]>,
) -> (prompt: String)
    ensures
        prompt@ == analysis_prompt(description@, *context, answers_of(previous_answers)),
{
    let mut prompt = prompts::ANALYSIS_INTRO.to_owned();
    prompt.append(description);
    prompt.append(prompts::ANALYSIS_CONTEXT);
    prompt.append(summary_of(context).as_str());
    prompt.append(prompts::ANALYSIS_SCREEN);
    prompt.append(screen_context_for_route(context.app_state.route.as_str()));
    prompt.append(prompts::ANALYSIS_RULES);
    if let Some(answers) = previous_answers {
        if answers.len() > 0 {
            let mut pieces: Vec<String> = Vec::new();
            let mut i: usize = 0;
            while i < answers.len()
                invariant
                    i <= answers@.len(),
                    pieces@.len() == i,
                    forall|j: int| 0 <= j < i ==> (#[trigger] pieces@[j])@ == qa_text(answers@[j]),
                decreases answers@.len() - i,
            {
                let mut piece = "Q: ".to_owned();
                piece.append(answers[i].question.as_str());
                piece.append("\nA: ");
                piece.append(answers[i].answer.as_str());
                pieces.push(piece);
                i = i + 1;
            }
            assert(text::views(pieces@) =~= answers@.map_values(|qa: QaPair| qa_text(qa)));
            prompt.append(prompts::ANALYSIS_ANSWERED);
            prompt.append(text::join(&pieces, "\n\n").as_str());
            prompt.append(prompts::ANALYSIS_FINAL);
        }
    }
    prompt
}

/// A question and its answer in an issue; rounds count from one.
pub open spec fn round_qa_text(round: nat, qa: QaPair) -> Seq<char> {
    "**Round "@ + text::decimal(round) + " — Q:** "@ + qa.question@ + "\n**A:** "@ + qa.answer@
}

/// One round of questions and answers in an issue.
pub open spec fn round_text(round: nat, pairs: Seq<QaPair>) -> Seq<char> {
    text::joined(pairs.map_values(|qa: QaPair| round_qa_text(round, qa)), "\n\n"@)
}

/// The rounds of questions and answers in an issue.
pub open spec fn rounds_text(rounds: Seq<Vec<QaPair>>) -> Seq<char> {
    text::joined(
        Seq::new(rounds.len(), |i: int| round_text((i + 1) as nat, rounds[i]@)),
        "\n\n"@,
    )
}

fn round_of(round: u64, pairs: &Vec<QaPair>) -> (s: String)
    ensures
        s@ == round_text(round as nat, pairs@),
{
    let mut pieces: Vec<String> = Vec::new();
    let mut i: usize = 0;
    while i < pairs.len()
        invariant
            i <= pairs@.len(),
            pieces@.len() == i,
            forall|j: int| 0 <= j < i ==> (#[trigger] pieces@[j])@ == round_qa_text(round as nat, pairs@[j]),
        decreases pairs@.len() - i,
    {
        let mut piece = "**Round ".to_owned();
        text::push_decimal(&mut piece, round);
        piece.append(" — Q:** ");
        piece.append(pairs[i].question.as_str());
        piece.append("\n**A:** ");
        piece.append(pairs[i].answer.as_str());
        pieces.push(piece);
        i = i + 1;
    }
    assert(text::views(pieces@) =~= pairs@.map_values(|qa: QaPair| round_qa_text(round as nat, qa)));
    text::join(&pieces, "\n\n")
}

fn rounds_of(rounds: &[Vec<QaPair>]) -> (s: String)
    ensures
        s@ == rounds_text(rounds@),
{
    let mut pieces: Vec<String> = Vec::new();
    let mut i: usize = 0;
    while i < rounds.len()
        invariant
            i <= rounds@.len(),
            pieces@.len() == i,
            forall|j: int|
                0 <= j < i ==> (#[trigger] pieces@[j])@ == round_text((j + 1) as nat, rounds@[j]@),
        decreases rounds@.len() - i,
    {
        let piece = round_of(i as u64 + 1, &rounds[i]);
        pieces.push(piece);
        i = i + 1;
    }
    assert(text::views(pieces@) =~= Seq::new(
        rounds@.len(),
        |i: int| round_text((i + 1) as nat, rounds@[i]@),
    ));
    text::join(&pieces, "\n\n")
}

/// The context as the model gets it for an issue.
pub open spec fn issue_diagnostics(context: BugReportContext) -> Seq<char> {
    "### Console Logs\n```\n"@ + last_lines(context.js_console_logs@, 30)
        + "\n```\n\n### Rust Logs\n```\n"@ + last_lines(context.rust_logs@, 30)
        + "\n```\n\n### WebSocket Messages\n```\n"@ + last_lines(context.ws_messages@, 15)
        + "\n```\n\n### App State\n- Route: "@ + context.app_state.route@ + "\n- WS Status: "@
        + context.app_state.ws_status@ + "\n- Voice Room: "@ + voice_room(
        context.app_state.voice_room_state,
    ) + "\n- Platform: "@ + context.app_state.platform@
}

fn diagnostics_of(context: &BugReportContext) -> (s: String)
    ensures
        s@ == issue_diagnostics(*context),
{
    let mut s = "### Console Logs\n```\n".to_owned();
    s.append(tail_of(&context.js_console_logs, 30).as_str());
    s.append("\n```\n\n### Rust Logs\n```\n");
    s.append(tail_of(&context.rust_logs, 30).as_str());
    s.append("\n```\n\n### WebSocket Messages\n```\n");
    s.append(tail_of(&context.ws_messages, 15).as_str());
    s.append("\n```\n\n### App State\n- Route: ");
    s.append(context.app_state.route.as_str());
    s.append("\n- WS Status: ");
    s.append(context.app_state.ws_status.as_str());
    s.append("\n- Voice Room: ");
    s.append(voice_room_of(&context.app_state.voice_room_state));
    s.append("\n- Platform: ");
    s.append(context.app_state.platform.as_str());
    s
}

/// The prompt that asks for an issue.
pub open spec fn issue_prompt(
    description: Seq<char>,
    context: BugReportContext,
    qa_rounds: Seq<Vec<QaPair>>,
    category: Seq<char>,
) -> Seq<char> {
    let qa = rounds_text(qa_rounds);
    prompts::ISSUE_INTRO@ + category + prompts::ISSUE_SECTIONS@ + description
        + prompts::ISSUE_CATEGORY@ + category + prompts::ISSUE_ANSWERS@ + (if qa.len() == 0 {
        "None (offline mode)"@
    } else {
        qa
    }) + prompts::ISSUE_DIAGNOSTICS@ + issue_diagnostics(context)
}

/// The prompt that asks for an issue: the category, the description, the rounds
/// of questions and answers, and the context.
pub fn build_issue_body_prompt(
    description: &str,
    context: &BugReportContext,
    qa_rounds: &[Vec<QaPair>],
    category: &str,
) -> (prompt: String)
    ensures
        prompt@ == issue_prompt(description@, *context, qa_rounds@, category@),
{
    let qa_section = rounds_of(qa_rounds);
    let mut prompt = prompts::ISSUE_INTRO.to_owned();
    prompt.append(category);
    prompt.append(prompts::ISSUE_SECTIONS);
    prompt.append(description);
    prompt.append(prompts::ISSUE_CATEGORY);
    prompt.append(category);
    prompt.append(prompts::ISSUE_ANSWERS);
    if qa_section.as_str().is_empty() {
        prompt.append("None (offline mode)");
    } else {
        prompt.append(qa_section.as_str());
    }
    prompt.append(prompts::ISSUE_DIAGNOSTICS);
    prompt.append(diagnostics_of(context).as_str());
    prompt
}

/// What follows the first line break of a text; all of it where there is none.
pub open spec fn after_first_line(s: Seq<char>) -> Seq<char> {
    match s.index_of_first('\n') {
        Some(i) => s.skip(i + 1),
        None => s,
    }
}

/// A text without the code fences that may stand around it.
pub open spec fn unfenced(s: Seq<char>) -> Seq<char> {
    let t = text::trimmed(s);
    if "```"@.is_prefix_of(t) {
        let inner = after_first_line(t.skip(3));
        text::trimmed(
            if "```"@.is_suffix_of(inner) {
                inner.take(inner.len() - 3)
            } else {
                inner
            },
        )
    } else {
        t
    }
}

/// The text without the code fences, and their language tag, that may stand
/// around it.
pub fn strip_markdown_fences<'a>(text: &'a str) -> (r: &'a str)
    ensures
        r@ == unfenced(text@),
{
    let trimmed = text::trim(text);
    proof {
        reveal_strlit("```");
    }
    match text::strip_prefix(trimmed, "```") {
        None => trimmed,
        Some(rest) => {
            proof {
                rest@.index_of_first_ensures('\n');
            }
            let inner = match text::find_char(rest, '\n') {
                Some(i) => {
                    proof {
                        let j = rest@.index_of_first('\n')->0;
                        if j < i {
                            assert(rest@.take(i as int)[j] == '\n');
                        }
                    }
                    let n: usize = rest.unicode_len();
                    let after = rest.substring_char(i + 1, n);
                    assert(after@ =~= rest@.skip(i + 1));
                    after
                },
                None => rest,
            };
            match text::strip_suffix(inner, "```") {
                Some(content) => text::trim(content),
                None => text::trim(inner),
            }
        },
    }
}

/// A fenced text is unwrapped, whatever language its first line names.
pub proof fn law_fences_come_off(tag: Seq<char>, inner: Seq<char>)
    requires
        !tag.contains('\n'),
    ensures
        unfenced("```"@ + tag + "\n"@ + inner + "```"@) == text::trimmed(inner),
{
    reveal_strlit("```");
    reveal_strlit("\n");
    let s = "```"@ + tag + "\n"@ + inner + "```"@;
    assert(s[0] == '`');
    assert(s.last() == '`');
    assert(text::skip_white(s) == s);
    assert(text::trimmed(s) == s);
    assert("```"@.is_prefix_of(s)) by {
        assert(s.subrange(0, 3) =~= "```"@);
    }
    let rest = s.skip(3);
    assert(rest =~= tag + "\n"@ + inner + "```"@);
    rest.index_of_first_ensures('\n');
    assert(rest[tag.len() as int] == '\n');
    let i = rest.index_of_first('\n')->0;
    assert(i == tag.len()) by {
        if i < tag.len() {
            assert(rest[i] == tag[i]);
            assert(tag.contains('\n'));
        }
    }
    let after = rest.skip(i + 1);
    assert(after =~= inner + "```"@);
    assert("```"@.is_suffix_of(after)) by {
        assert(after.subrange(after.len() - 3, after.len() as int) =~= "```"@);
    }
    assert(after.take(after.len() - 3) =~= inner);
}

/// A text that does not begin with a fence only loses the white space at its
/// ends.
pub proof fn law_other_text_is_kept(s: Seq<char>)
    requires
        !"```"@.is_prefix_of(text::trimmed(s)),
    ensures
        unfenced(s) == text::trimmed(s),
{
}

/// A question as the reply gives it.
#[verifier::ext_equal]
pub struct QuestionView {
    pub text: Seq<char>,
    pub options: Option<Seq<Seq<char>>>,
}

/// An analysis as the reply gives it.
#[verifier::ext_equal]
pub struct AnalysisView {
    pub category: Seq<char>,
    pub questions: Seq<QuestionView>,
    pub needs_follow_up: bool,
}

impl View for LlmQuestion {
    type V = QuestionView;

    open spec fn view(&self) -> QuestionView {
        QuestionView {
            text: self.text@,
            options: match self.options {
                Some(options) => Some(text::views(options@)),
                None => None,
            },
        }
    }
}

impl View for LlmAnalysis {
    type V = AnalysisView;

    open spec fn view(&self) -> AnalysisView {
        AnalysisView {
            category: self.category@,
            questions: self.questions@.map_values(|q: LlmQuestion| q@),
            needs_follow_up: self.needs_follow_up,
        }
    }
}

/// The texts among the items of an array.
pub open spec fn texts_among(items: Seq<JsonView>) -> Seq<Seq<char>>
    decreases items.len(),
{
    if items.len() == 0 {
        Seq::empty()
    } else {
        let before = texts_among(items.drop_last());
        match items.last() {
            JsonView::Text(s) => before.push(s),
            _ => before,
        }
    }
}

/// The question that an item of the reply is; one without a text is none.
pub open spec fn question_of(item: JsonView) -> Option<QuestionView> {
    match json::field_text(item, "text"@) {
        None => None,
        Some(t) => Some(
            QuestionView {
                text: t,
                options: match json::json_field(item, "options"@) {
                    Some(JsonView::Array(options)) => Some(texts_among(options)),
                    _ => None,
                },
            },
        ),
    }
}

/// The questions among the items of an array.
pub open spec fn questions_among(items: Seq<JsonView>) -> Seq<QuestionView>
    decreases items.len(),
{
    if items.len() == 0 {
        Seq::empty()
    } else {
        let before = questions_among(items.drop_last());
        match question_of(items.last()) {
            Some(q) => before.push(q),
            None => before,
        }
    }
}

/// At most the first five.
pub open spec fn first_five(questions: Seq<QuestionView>) -> Seq<QuestionView> {
    if questions.len() <= 5 {
        questions
    } else {
        questions.take(5)
    }
}

/// The analysis that a reply is: the category (`other` where none is given), at
/// most five questions, and whether more are needed (not, where nothing is
/// said).
pub open spec fn analysis_view(reply: JsonView) -> AnalysisView {
    AnalysisView {
        category: match json::field_text(reply, "category"@) {
            Some(c) => c,
            None => "other"@,
        },
        questions: match json::json_field(reply, "questions"@) {
            Some(JsonView::Array(items)) => first_five(questions_among(items)),
            _ => Seq::empty(),
        },
        needs_follow_up: match json::json_field(reply, "needsFollowUp"@) {
            Some(JsonView::Bool(b)) => b,
            _ => false,
        },
    }
}

fn texts_of(items: &Vec<Json>, Ghost(views): Ghost<Seq<JsonView>>) -> (v: Vec<String>)
    requires
        views.len() == items@.len(),
        forall|i: int| 0 <= i < items@.len() ==> views[i] == (#[trigger] items@[i])@,
    ensures
        text::views(v@) == texts_among(views),
{
    let mut v: Vec<String> = Vec::new();
    let mut i: usize = 0;
    assert(text::views(v@) =~= texts_among(views.take(0)));
    while i < items.len()
        invariant
            i <= items@.len(),
            views.len() == items@.len(),
            forall|i: int| 0 <= i < items@.len() ==> views[i] == (#[trigger] items@[i])@,
            text::views(v@) == texts_among(views.take(i as int)),
        decreases items@.len() - i,
    {
        let ghost before = v@;
        proof {
            assert(views.take(i as int + 1).drop_last() =~= views.take(i as int));
            assert(views.take(i as int + 1).last() == items@[i as int]@);
        }
        if let Some(s) = items[i].as_str() {
            v.push(s.to_owned());
            assert(text::views(v@) =~= text::views(before).push(s@));
        }
        i = i + 1;
    }
    assert(views.take(i as int) =~= views);
    v
}

fn question_from(item: &Json) -> (q: Option<LlmQuestion>)
    ensures
        match q {
            Some(q) => question_of(item@) == Some(q@),
            None => question_of(item@) is None,
        },
{
    let text = match item.field_str("text") {
        Some(t) => t.to_owned(),
        None => {
            return None;
        },
    };
    let options = match item.field("options") {
        None => None,
        Some(o) => match o.as_array() {
            None => None,
            Some(items) => Some(texts_of(items, Ghost(o@->Array_0))),
        },
    };
    Some(LlmQuestion { text, options })
}

fn questions_from(items: &Vec<Json>, Ghost(views): Ghost<Seq<JsonView>>) -> (v: Vec<LlmQuestion>)
    requires
        views.len() == items@.len(),
        forall|i: int| 0 <= i < items@.len() ==> views[i] == (#[trigger] items@[i])@,
    ensures
        v@.map_values(|q: LlmQuestion| q@) == first_five(questions_among(views)),
{
    let mut v: Vec<LlmQuestion> = Vec::new();
    let mut i: usize = 0;
    assert(v@.map_values(|q: LlmQuestion| q@) =~= first_five(questions_among(views.take(0))));
    while i < items.len()
        invariant
            i <= items@.len(),
            views.len() == items@.len(),
            forall|i: int| 0 <= i < items@.len() ==> views[i] == (#[trigger] items@[i])@,
            v@.map_values(|q: LlmQuestion| q@) == first_five(
                questions_among(views.take(i as int)),
            ),
        decreases items@.len() - i,
    {
        let ghost before = v@.map_values(|q: LlmQuestion| q@);
        let ghost all = questions_among(views.take(i as int));
        proof {
            assert(before.len() == v@.len());
            assert(views.take(i as int + 1).drop_last() =~= views.take(i as int));
            assert(views.take(i as int + 1).last() == items@[i as int]@);
        }
        if let Some(q) = question_from(&items[i]) {
            if v.len() < 5 {
                let ghost shown = q@;
                v.push(q);
                assert(v@.map_values(|q: LlmQuestion| q@) =~= before.push(shown));
                assert(first_five(all.push(shown)) =~= before.push(shown));
            } else {
                assert(first_five(all.push(q@)) =~= first_five(all));
            }
        }
        i = i + 1;
    }
    assert(views.take(i as int) =~= views);
    v
}

/// The analysis that a reply is.
pub fn analysis_from(reply: &Json) -> (a: LlmAnalysis)
    ensures
        a@ == analysis_view(reply@),
{
    let category = match reply.field_str("category") {
        Some(c) => c.to_owned(),
        None => "other".to_owned(),
    };
    let questions = match reply.field("questions") {
        None => Vec::new(),
        Some(q) => match q.as_array() {
            None => Vec::new(),
            Some(items) => questions_from(items, Ghost(q@->Array_0)),
        },
    };
    let needs_follow_up = match reply.field("needsFollowUp") {
        None => false,
        Some(b) => match b.as_bool() {
            Some(b) => b,
            None => false,
        },
    };
    let a = LlmAnalysis { category, questions, needs_follow_up };
    assert(a@ =~= analysis_view(reply@));
    a
}

/// Reads a reply as JSON, without the fences that may stand around it.
pub fn reply_json(text: &str) -> (r: Result<Json, LlmError>)
    ensures
        match r {
            Ok(j) => json::json_parsed(unfenced(text@)) == Some(j@),
            Err(e) => e is ParseError && json::json_parsed(unfenced(text@)) is None,
        },
{
    match json::parse(strip_markdown_fences(text)) {
        Some(j) => Ok(j),
        None => Err(LlmError::ParseError),
    }
}

/// The analysis that the text of a reply gives.
pub fn read_analysis(text: &str) -> (r: Result<LlmAnalysis, LlmError>)
    ensures
        match r {
            Ok(a) => json::json_parsed(unfenced(text@)) is Some && a@ == analysis_view(
                json::json_parsed(unfenced(text@))->0,
            ),
            Err(e) => e is ParseError && json::json_parsed(unfenced(text@)) is None,
        },
{
    match reply_json(text) {
        Ok(j) => Ok(analysis_from(&j)),
        Err(e) => Err(e),
    }
}

/// The text of a member, if it is there and not empty.
pub open spec fn given_text(reply: JsonView, name: Seq<char>) -> Option<Seq<char>> {
    match json::field_text(reply, name) {
        Some(t) => if t.len() > 0 {
            Some(t)
        } else {
            None
        },
        None => None,
    }
}

fn given<'a>(reply: &'a Json, name: &str) -> (r: Option<&'a str>)
    ensures
        match r {
            Some(t) => given_text(reply@, name@) == Some(t@),
            None => given_text(reply@, name@) is None,
        },
{
    match reply.field_str(name) {
        Some(t) => if t.is_empty() {
            None
        } else {
            Some(t)
        },
        None => None,
    }
}

/// The number of bytes of the description that a title takes over.
pub open spec fn title_bytes(description: Seq<char>) -> nat {
    if text::utf8(description).len() < 80 {
        text::utf8(description).len()
    } else {
        80
    }
}

/// The title that a reply gives, or one made of the first bytes of the
/// description.
pub open spec fn issue_title(reply: JsonView, description: Seq<char>) -> Seq<char> {
    match given_text(reply, "title"@) {
        Some(t) => t,
        None => "Bug Report: "@ + text::first_bytes(description, title_bytes(description)),
    }
}

/// The body that a reply gives, or one made of the description.
pub open spec fn issue_body(reply: JsonView, description: Seq<char>) -> Seq<char> {
    match given_text(reply, "body"@) {
        Some(t) => t,
        None => "## Bug Report\n\n### Description\n"@ + description,
    }
}

/// Whether the reply gives a title, or the description can be cut to one.
pub open spec fn has_title(reply: JsonView, description: Seq<char>) -> bool {
    given_text(reply, "title"@) is Some || text::cuts_at(description, title_bytes(description))
}

/// The issue that a reply gives. A reply without a title takes the first 80
/// bytes of the description, which must then end with a whole character.
pub fn issue_body_from(reply: &Json, description: &str) -> (issue: GeneratedIssueBody)
    requires
        has_title(reply@, description@),
    ensures
        issue.title@ == issue_title(reply@, description@),
        issue.body@ == issue_body(reply@, description@),
{
    let title = match given(reply, "title") {
        Some(t) => t.to_owned(),
        None => {
            let len: usize = text::byte_len(description);
            let n: usize = if len < 80 {
                len
            } else {
                80
            };
            let start = text::byte_prefix(description, n).unwrap();
            "Bug Report: ".to_owned().concat(start)
        },
    };
    let body = match given(reply, "body") {
        Some(t) => t.to_owned(),
        None => "## Bug Report\n\n### Description\n".to_owned().concat(description),
    };
    GeneratedIssueBody { title, body }
}

/// The issue that the text of a reply gives; nothing where there is no title
/// and the description cannot be cut to one.
pub fn read_issue_body(text: &str, description: &str) -> (r: Option<
    Result<GeneratedIssueBody, LlmError>,
>)
    ensures
        match json::json_parsed(unfenced(text@)) {
            None => r matches Some(Err(e)) && e is ParseError,
            Some(reply) => if has_title(reply, description@) {
                r matches Some(Ok(issue)) && issue.title@ == issue_title(reply, description@)
                    && issue.body@ == issue_body(reply, description@)
            } else {
                r is None
            },
        },
{
    match reply_json(text) {
        Err(e) => Some(Err(e)),
        Ok(reply) => {
            if given(&reply, "title").is_none() {
                let len: usize = text::byte_len(description);
                let n: usize = if len < 80 {
                    len
                } else {
                    80
                };
                if text::byte_prefix(description, n).is_none() {
                    return None;
                }
            }
            Some(Ok(issue_body_from(&reply, description)))
        },
    }
}

/// A text of at most 80 bytes can always be cut to a title.
pub proof fn law_short_descriptions_make_titles(reply: JsonView, description: Seq<char>)
    requires
        text::utf8(description).len() <= 80,
    ensures
        has_title(reply, description),
{
    vstd::utf8::encode_utf8_valid_utf8(description);
    vstd::utf8::is_char_boundary_start_end_of_seq(text::utf8(description));
}

/// The text that a reply of the service carries: that of the first item of its
/// content.
pub open spec fn content_text(reply: JsonView) -> Option<Seq<char>> {
    match json::json_field(reply, "content"@) {
        Some(JsonView::Array(items)) => if items.len() > 0 {
            json::field_text(items[0], "text"@)
        } else {
            None
        },
        _ => None,
    }
}

/// The text that a reply of the service carries.
pub fn content_from(reply: &Json) -> (r: Result<String, LlmError>)
    ensures
        match r {
            Ok(t) => content_text(reply@) == Some(t@),
            Err(e) => e is ParseError && content_text(reply@) is None,
        },
{
    if let Some(content) = reply.field("content") {
        if let Some(items) = content.as_array() {
            if items.len() > 0 {
                if let Some(t) = items[0].field_str("text") {
                    return Ok(t.to_owned());
                }
            }
        }
    }
    Err(LlmError::ParseError)
}

/// The error for a reply with a status other than success: the status and the
/// first 200 bytes of the reply, which must end with a whole character.
pub fn api_error(status: u16, reply: &str) -> (e: LlmError)
    requires
        text::cuts_at(
            reply@,
            if text::utf8(reply@).len() < 200 {
                text::utf8(reply@).len()
            } else {
                200
            },
        ),
    ensures
        e matches LlmError::ApiError(msg) && msg@ == text::decimal(status as nat) + ": "@
            + text::first_bytes(
            reply@,
            if text::utf8(reply@).len() < 200 {
                text::utf8(reply@).len()
            } else {
                200
            },
        ),
{
    let len: usize = text::byte_len(reply);
    let n: usize = if len < 200 {
        len
    } else {
        200
    };
    let mut msg = text::decimal_string(status as u64);
    msg.append(": ");
    msg.append(text::byte_prefix(reply, n).unwrap());
    LlmError::ApiError(msg)
}

/// What was asked of a client, and what it answered.
pub enum LlmExchange {
    Analyze {
        description: Seq<char>,
        context: BugReportContext,
        previous_answers: Option<Seq<QaPair>>,
        analysis: Result<LlmAnalysis, LlmError>,
    },
    GenerateBody {
        description: Seq<char>,
        context: BugReportContext,
        qa_rounds: Seq<Vec<QaPair>>,
        category: Seq<char>,
        issue: Result<GeneratedIssueBody, LlmError>,
    },
}

/// A language model that can be asked about bug reports.
pub trait LlmClient {
    /// What was asked of this client so far, in order. Where a client does not
    /// say how it keeps its record, that is left open.
    open spec fn exchanges(&self) -> Seq<LlmExchange> {
        (arbitrary::<spec_fn(&Self) -> Seq<LlmExchange>>())(self)
    }

    /// That what the client keeps of its calls agrees with this record. Where a
    /// client keeps nothing, it does.
    open spec fn record_agrees(&self) -> bool {
        true
    }

    /// The reply to every report to analyse, where it is settled beforehand.
    open spec fn fixed_analysis(&self) -> Option<Result<LlmAnalysis, LlmError>> {
        None
    }

    /// The reply to every request for an issue, where it is settled beforehand.
    open spec fn fixed_body(&self) -> Option<Result<GeneratedIssueBody, LlmError>> {
        None
    }

    /// Asks for the category of a report and for questions to its author.
    fn analyze_bug_report(
        &mut self,
        description: &str,
        context: &BugReportContext,
        previous_answers: Option<&[QaPair]>,
    ) -> (r: Result<LlmAnalysis, LlmError>)
        ensures
            final(self).exchanges() == old(self).exchanges().push(
                (LlmExchange::Analyze {
                    description: description@,
                    context: *context,
                    previous_answers: answers_of(previous_answers),
                    analysis: r,
                }),
            ),
            old(self).record_agrees() ==> final(self).record_agrees(),
            old(self).fixed_analysis() is Some ==> same_analysis(r, old(self).fixed_analysis()->0),
            final(self).fixed_analysis() == old(self).fixed_analysis(),
            final(self).fixed_body() == old(self).fixed_body(),
    ;

    /// Asks for the issue that a report makes.
    fn generate_issue_body(
        &mut self,
        description: &str,
        context: &BugReportContext,
        qa_rounds: &[Vec<QaPair>],
        category: &str,
    ) -> (r: Result<GeneratedIssueBody, LlmError>)
        ensures
            final(self).exchanges() == old(self).exchanges().push(
                (LlmExchange::GenerateBody {
                    description: description@,
                    context: *context,
                    qa_rounds: qa_rounds@,
                    category: category@,
                    issue: r,
                }),
            ),
            old(self).record_agrees() ==> final(self).record_agrees(),
            old(self).fixed_body() is Some ==> r == old(self).fixed_body()->0,
            final(self).fixed_analysis() == old(self).fixed_analysis(),
            final(self).fixed_body() == old(self).fixed_body(),
    ;
}

/// That an exchange got the reply that was settled beforehand, where one was.
pub open spec fn replied_as_fixed(
    e: LlmExchange,
    fixed_analysis: Option<Result<LlmAnalysis, LlmError>>,
    fixed_body: Option<Result<GeneratedIssueBody, LlmError>>,
) -> bool {
    match e {
        LlmExchange::Analyze { analysis, .. } => fixed_analysis is Some ==> same_analysis(
            analysis,
            fixed_analysis->0,
        ),
        LlmExchange::GenerateBody { issue, .. } => fixed_body is Some ==> issue == fixed_body->0,
    }
}

/// The client where no language model is configured.
pub struct NoOpLlmClient {
    log: Ghost<Seq<LlmExchange>>,
}

impl NoOpLlmClient {
    /// The client.
    pub fn new() -> (c: NoOpLlmClient)
        ensures
            c.exchanges() == Seq::<LlmExchange>::empty(),
    {
        NoOpLlmClient { log: Ghost(Seq::empty()) }
    }
}

impl LlmClient for NoOpLlmClient {
    closed spec fn exchanges(&self) -> Seq<LlmExchange> {
        self.log@
    }

    open spec fn fixed_analysis(&self) -> Option<Result<LlmAnalysis, LlmError>> {
        Some(Err(LlmError::NotConfigured))
    }

    open spec fn fixed_body(&self) -> Option<Result<GeneratedIssueBody, LlmError>> {
        Some(Err(LlmError::NotConfigured))
    }

    fn analyze_bug_report(
        &mut self,
        description: &str,
        context: &BugReportContext,
        previous_answers: Option<&[QaPair]>,
    ) -> (r: Result<LlmAnalysis, LlmError>)
        ensures
            r matches Err(e) && e is NotConfigured,
    {
        let r = Err(LlmError::NotConfigured);
        self.log = Ghost(
            self.log@.push(
                LlmExchange::Analyze {
                    description: description@,
                    context: *context,
                    previous_answers: answers_of(previous_answers),
                    analysis: r,
                },
            ),
        );
        r
    }

    fn generate_issue_body(
        &mut self,
        description: &str,
        context: &BugReportContext,
        qa_rounds: &[Vec<QaPair>],
        category: &str,
    ) -> (r: Result<GeneratedIssueBody, LlmError>)
        ensures
            r matches Err(e) && e is NotConfigured,
    {
        let r = Err(LlmError::NotConfigured);
        self.log = Ghost(
            self.log@.push(
                LlmExchange::GenerateBody {
                    description: description@,
                    context: *context,
                    qa_rounds: qa_rounds@,
                    category: category@,
                    issue: r,
                },
            ),
        );
        r
    }
}

impl LlmError {
    fn copied(&self) -> (e: LlmError)
        ensures
            e == *self,
    {
        match self {
            LlmError::ApiError(msg) => LlmError::ApiError(msg.clone()),
            LlmError::ParseError => LlmError::ParseError,
            LlmError::NetworkError => LlmError::NetworkError,
            LlmError::NotConfigured => LlmError::NotConfigured,
        }
    }
}

impl LlmQuestion {
    fn copied(&self) -> (q: LlmQuestion)
        ensures
            q@ == self@,
    {
        let options = match &self.options {
            None => None,
            Some(options) => {
                let mut all: Vec<String> = Vec::new();
                let mut i: usize = 0;
                while i < options.len()
                    invariant
                        i <= options@.len(),
                        all@ == options@.take(i as int),
                    decreases options@.len() - i,
                {
                    all.push(options[i].clone());
                    i = i + 1;
                    assert(all@ =~= options@.take(i as int));
                }
                assert(all@ =~= options@);
                Some(all)
            },
        };
        LlmQuestion { text: self.text.clone(), options }
    }
}

impl LlmAnalysis {
    fn copied(&self) -> (a: LlmAnalysis)
        ensures
            a@ == self@,
    {
        let mut questions: Vec<LlmQuestion> = Vec::new();
        let mut i: usize = 0;
        while i < self.questions.len()
            invariant
                i <= self.questions@.len(),
                questions@.len() == i,
                forall|j: int| 0 <= j < i ==> (#[trigger] questions@[j])@ == self.questions@[j]@,
            decreases self.questions@.len() - i,
        {
            let q = self.questions[i].copied();
            questions.push(q);
            i = i + 1;
        }
        let a = LlmAnalysis {
            category: self.category.clone(),
            questions,
            needs_follow_up: self.needs_follow_up,
        };
        assert(a@ =~= self@);
        a
    }
}

/// A call that a `MockLlmClient` has received.
#[derive(Debug, Clone, PartialEq)]
pub enum MockLlmCall {
    Analyze { description: String },
    GenerateBody { description: String, category: String },
}

/// That the call is what the exchange asked for.
pub open spec fn same_call(call: MockLlmCall, e: LlmExchange) -> bool {
    match (call, e) {
        (
            MockLlmCall::Analyze { description },
            LlmExchange::Analyze { description: d, .. },
        ) => description@ == d,
        (
            MockLlmCall::GenerateBody { description, category },
            LlmExchange::GenerateBody { description: d, category: c, .. },
        ) => description@ == d && category@ == c,
        _ => false,
    }
}

/// A client for tests: it keeps the calls and gives the results it was given.
pub struct MockLlmClient {
    pub calls: Vec<MockLlmCall>,
    pub analyze_result: Result<LlmAnalysis, LlmError>,
    pub generate_result: Result<GeneratedIssueBody, LlmError>,
    pub log: Ghost<Seq<LlmExchange>>,
}

/// The two results are the same analysis or the same error.
pub open spec fn same_analysis(
    a: Result<LlmAnalysis, LlmError>,
    b: Result<LlmAnalysis, LlmError>,
) -> bool {
    match (a, b) {
        (Ok(x), Ok(y)) => x@ == y@,
        (Err(x), Err(y)) => x == y,
        _ => false,
    }
}

impl MockLlmClient {
    /// A client that answers with one question and a short issue.
    pub fn new() -> (c: MockLlmClient)
        ensures
            c.exchanges() == Seq::<LlmExchange>::empty(),
            c.calls@.len() == 0,
            c.record_agrees(),
            c.analyze_result matches Ok(a) && a.category@ == "other"@ && !a.needs_follow_up
                && a.questions@.len() == 1 && a.questions@[0]@ == (QuestionView {
                text: "What happened?"@,
                options: Some(seq!["App crashed"@, "UI froze"@, "Audio stopped"@]),
            }),
            c.generate_result matches Ok(issue) && issue.title@ == "Bug Report: test"@
                && issue.body@ == "## Bug Report\n\nTest body"@,
    {
        let mut options: Vec<String> = Vec::new();
        options.push("App crashed".to_owned());
        options.push("UI froze".to_owned());
        options.push("Audio stopped".to_owned());
        assert(text::views(options@) =~= seq!["App crashed"@, "UI froze"@, "Audio stopped"@]);
        let mut questions: Vec<LlmQuestion> = Vec::new();
        questions.push(LlmQuestion { text: "What happened?".to_owned(), options: Some(options) });
        MockLlmClient {
            calls: Vec::new(),
            analyze_result: Ok(
                LlmAnalysis { category: "other".to_owned(), questions, needs_follow_up: false },
            ),
            generate_result: Ok(
                GeneratedIssueBody {
                    title: "Bug Report: test".to_owned(),
                    body: "## Bug Report\n\nTest body".to_owned(),
                },
            ),
            log: Ghost(Seq::empty()),
        }
    }

    proof fn lemma_record_grows(self, before: Self)
        requires
            before.record_agrees(),
            self.calls@.len() == before.calls@.len() + 1,
            self.calls@.drop_last() == before.calls@,
            self.exchanges().len() == before.exchanges().len() + 1,
            self.exchanges().drop_last() == before.exchanges(),
            same_call(self.calls@.last(), self.exchanges().last()),
        ensures
            self.record_agrees(),
    {
        assert forall|i: int| 0 <= i < self.calls@.len() implies same_call(
            #[trigger] self.calls@[i],
            self.exchanges()[i],
        ) by {
            if i < before.calls@.len() {
                assert(self.calls@[i] == before.calls@[i]);
                assert(self.exchanges()[i] == before.exchanges()[i]);
            }
        }
    }

    /// The calls so far.
    pub fn get_calls(&self) -> (calls: &Vec<MockLlmCall>)
        ensures
            *calls == self.calls,
    {
        &self.calls
    }
}

impl Default for MockLlmClient {
    fn default() -> (c: MockLlmClient)
        ensures
            c.exchanges() == Seq::<LlmExchange>::empty(),
            c.calls@.len() == 0,
            c.record_agrees(),
    {
        MockLlmClient::new()
    }
}

impl LlmClient for MockLlmClient {
    closed spec fn exchanges(&self) -> Seq<LlmExchange> {
        self.log@
    }

    open spec fn fixed_analysis(&self) -> Option<Result<LlmAnalysis, LlmError>> {
        Some(self.analyze_result)
    }

    open spec fn fixed_body(&self) -> Option<Result<GeneratedIssueBody, LlmError>> {
        Some(self.generate_result)
    }

    open spec fn record_agrees(&self) -> bool {
        &&& self.calls@.len() == self.exchanges().len()
        &&& forall|i: int|
            0 <= i < self.calls@.len() ==> same_call(#[trigger] self.calls@[i], self.exchanges()[i])
    }

    fn analyze_bug_report(
        &mut self,
        description: &str,
        context: &BugReportContext,
        previous_answers: Option<&[QaPair]>,
    ) -> (r: Result<LlmAnalysis, LlmError>)
        ensures
            same_analysis(r, old(self).analyze_result),
            final(self).analyze_result == old(self).analyze_result,
            final(self).generate_result == old(self).generate_result,
            final(self).calls@.len() == old(self).calls@.len() + 1,
            final(self).calls@.drop_last() == old(self).calls@,
            final(self).calls@.last() matches MockLlmCall::Analyze { description: d } && d@
                == description@,
    {
        self.calls.push(MockLlmCall::Analyze { description: description.to_owned() });
        assert(self.calls@.drop_last() =~= old(self).calls@);
        let r = match &self.analyze_result {
            Ok(a) => Ok(a.copied()),
            Err(e) => Err(e.copied()),
        };
        self.log = Ghost(
            self.log@.push(
                LlmExchange::Analyze {
                    description: description@,
                    context: *context,
                    previous_answers: answers_of(previous_answers),
                    analysis: r,
                },
            ),
        );
        proof {
            if old(self).record_agrees() {
                assert(self.exchanges().drop_last() =~= old(self).exchanges());
                self.lemma_record_grows(*old(self));
            }
        }
        r
    }

    fn generate_issue_body(
        &mut self,
        description: &str,
        context: &BugReportContext,
        qa_rounds: &[Vec<QaPair>],
        category: &str,
    ) -> (r: Result<GeneratedIssueBody, LlmError>)
        ensures
            r == old(self).generate_result,
            final(self).analyze_result == old(self).analyze_result,
            final(self).generate_result == old(self).generate_result,
            final(self).calls@.len() == old(self).calls@.len() + 1,
            final(self).calls@.drop_last() == old(self).calls@,
            final(self).calls@.last() matches MockLlmCall::GenerateBody {
                description: d,
                category: c,
            } && d@ == description@ && c@ == category@,
    {
        self.calls.push(
            MockLlmCall::GenerateBody {
                description: description.to_owned(),
                category: category.to_owned(),
            },
        );
        assert(self.calls@.drop_last() =~= old(self).calls@);
        let r = match &self.generate_result {
            Ok(issue) => Ok(
                GeneratedIssueBody { title: issue.title.clone(), body: issue.body.clone() },
            ),
            Err(e) => Err(e.copied()),
        };
        self.log = Ghost(
            self.log@.push(
                LlmExchange::GenerateBody {
                    description: description@,
                    context: *context,
                    qa_rounds: qa_rounds@,
                    category: category@,
                    issue: r,
                },
            ),
        );
        proof {
            if old(self).record_agrees() {
                assert(self.exchanges().drop_last() =~= old(self).exchanges());
                self.lemma_record_grows(*old(self));
            }
        }
        r
    }
}

/// Each screen is told as what it is, and any other route as unknown; a hash in
/// front changes nothing.
pub proof fn law_screens_are_told_by_their_routes(
    route: &str,
    hashed: &str,
    r: &'static str,
    of_hashed: &'static str,
)
    requires
        call_ensures(screen_context_for_route, (route,), r),
        call_ensures(screen_context_for_route, (hashed,), of_hashed),
        route@.len() == 0 || route@[0] != '#',
        hashed@ == "#"@ + route@,
    ensures
        of_hashed@ == r@,
        ({
            let path = route@;
            {
                &&& path == "/"@ ==> r@ == prompts::SCREEN_HOME@
                &&& path == "/setup"@ ==> r@ == prompts::SCREEN_SETUP@
                &&& path == "/login"@ ==> r@ == prompts::SCREEN_LOGIN@
                &&& path == "/recover"@ ==> r@ == prompts::SCREEN_RECOVER@
                &&& path == "/pair"@ ==> r@ == prompts::SCREEN_PAIR@
                &&& path == "/settings"@ ==> r@ == prompts::SCREEN_SETTINGS@
                &&& path == "/devices"@ ==> r@ == prompts::SCREEN_DEVICES@
                &&& path == "/phrase"@ ==> r@ == prompts::SCREEN_PHRASE@
                &&& path == "/room"@ ==> r@ == prompts::SCREEN_ROOM@
                &&& path == "/screen-share"@ || path == "/watch-all"@ || path == "/share-indicator"@ ==> r@ == prompts::SCREEN_SHARE@
                &&& path == "/share-picker"@ ==> r@ == prompts::SCREEN_SHARE_PICKER@
                &&& path.len() > 9 && path.take(9) == "/channel/"@ ==> r@ == prompts::SCREEN_CHANNEL@
                &&& path.len() == 0 || path[0] != '/' ==> r@ == prompts::SCREEN_UNKNOWN@
            }
        }),
{
    law_hash_is_ignored(route@);
    reveal_strlit("/");
    reveal_strlit("/setup");
    reveal_strlit("/login");
    reveal_strlit("/recover");
    reveal_strlit("/pair");
    reveal_strlit("/settings");
    reveal_strlit("/devices");
    reveal_strlit("/phrase");
    reveal_strlit("/room");
    reveal_strlit("/screen-share");
    reveal_strlit("/watch-all");
    reveal_strlit("/share-indicator");
    reveal_strlit("/share-picker");
    reveal_strlit("/channel/");
    assert("/login"@[1] != "/setup"@[1]);
    assert("/recover"@[1] != "/devices"@[1]);
    assert("/pair"@[1] != "/room"@[1]);
    assert("/screen-share"@[2] != "/share-picker"@[2]);
    let path = route@;
    if path.len() > 9 && path.take(9) == "/channel/"@ {
        assert(path.subrange(0, 9) =~= path.take(9));
        assert(path[8] == path.take(9)[8]);
        assert(path[1] == path.take(9)[1]);
        assert(path[2] == path.take(9)[2]);
        assert("/channel/"@.is_prefix_of(path));
        assert(path[1] == 'c' && path[2] == 'h');
        assert("/screen-share"@[1] == 's' && "/share-picker"@[1] == 's');
        assert("/watch-all"@[1] == 'w' && "/share-indicator"@[1] == 's');
    }
    if path.len() == 0 || path[0] != '/' {
        assert("/channel/"@[0] == '/' && "/"@[0] == '/' && "/setup"@[0] == '/');
        assert("/login"@[0] == '/' && "/recover"@[0] == '/' && "/pair"@[0] == '/');
        assert("/settings"@[0] == '/' && "/devices"@[0] == '/' && "/phrase"@[0] == '/');
        assert("/room"@[0] == '/' && "/screen-share"@[0] == '/' && "/watch-all"@[0] == '/');
        assert("/share-indicator"@[0] == '/' && "/share-picker"@[0] == '/');
        assert(!"/channel/"@.is_prefix_of(path)) by {
            if "/channel/"@.is_prefix_of(path) {
                assert(path.subrange(0, "/channel/"@.len() as int)[0] == path[0]);
            }
        }
    }
}

/// What occurs in one of two texts occurs in both behind each other.
proof fn lemma_told(a: Seq<char>, b: Seq<char>)
    ensures
        forall|p: Seq<char>|
            text::occurs(a, p) || text::occurs(b, p) ==> #[trigger] text::occurs(a + b, p),
        text::occurs(a, a),
        text::occurs(b, b),
{
    assert forall|p: Seq<char>| text::occurs(a, p) || text::occurs(b, p) implies #[trigger] text::occurs(
        a + b,
        p,
    ) by {
        if text::occurs(a, p) {
            let i = choose|i: int| text::occurs_at(a, p, i);
            assert((a + b).subrange(i, i + p.len()) =~= a.subrange(i, i + p.len()));
            assert(text::occurs_at(a + b, p, i));
        } else {
            let i = choose|i: int| text::occurs_at(b, p, i);
            let j = a.len() + i;
            assert((a + b).subrange(j, j + p.len()) =~= b.subrange(i, i + p.len()));
            assert(text::occurs_at(a + b, p, j));
        }
    }
    assert(a.subrange(0, a.len() as int) =~= a);
    assert(text::occurs_at(a, a, 0));
    assert(b.subrange(0, b.len() as int) =~= b);
    assert(text::occurs_at(b, b, 0));
}

proof fn lemma_pieces_told(pieces: Seq<Seq<char>>, sep: Seq<char>, i: int)
    requires
        0 <= i < pieces.len(),
    ensures
        text::occurs(text::joined(pieces, sep), pieces[i]),
    decreases pieces.len(),
{
    if pieces.len() == 1 {
        lemma_told(pieces[0], pieces[0]);
    } else {
        let before = text::joined(pieces.drop_last(), sep);
        lemma_told(before, sep);
        lemma_told(before + sep, pieces.last());
        if i < pieces.len() - 1 {
            lemma_pieces_told(pieces.drop_last(), sep, i);
            assert(text::occurs(before + sep, pieces[i]));
        }
    }
}

proof fn lemma_last_lines_told(lines: Seq<String>, n: nat, i: int)
    requires
        0 <= i < lines.len(),
        lines.len() - n <= i,
    ensures
        text::occurs(last_lines(lines, n), lines[i]@),
{
    let tail = if lines.len() <= n {
        lines
    } else {
        lines.skip(lines.len() - n)
    };
    let j = if lines.len() <= n {
        i
    } else {
        i - (lines.len() - n)
    };
    lemma_pieces_told(text::views(tail), "\n"@, j);
    assert(text::views(tail)[j] == lines[i]@);
}

proof fn lemma_summary_told(context: BugReportContext)
    ensures
        forall|p: Seq<char>|
            {
                ||| text::occurs(last_lines(context.js_console_logs@, 20), p)
                ||| text::occurs(last_lines(context.rust_logs@, 20), p)
                ||| text::occurs(last_lines(context.ws_messages@, 10), p)
            } ==> #[trigger] text::occurs(context_summary(context), p),
        text::occurs(context_summary(context), context.app_state.route@),
        text::occurs(context_summary(context), context.app_state.ws_status@),
        text::occurs(context_summary(context), voice_room(context.app_state.voice_room_state)),
        text::occurs(context_summary(context), context.app_state.platform@),
{
    let s0 = "## Console Logs (last "@;
    let s1 = s0 + text::decimal(context.js_console_logs@.len());
    lemma_told(s0, text::decimal(context.js_console_logs@.len()));
    let s2 = s1 + " lines)\n"@;
    lemma_told(s1, " lines)\n"@);
    let s3 = s2 + last_lines(context.js_console_logs@, 20);
    lemma_told(s2, last_lines(context.js_console_logs@, 20));
    let s4 = s3 + "\n\n## Rust Logs (last "@;
    lemma_told(s3, "\n\n## Rust Logs (last "@);
    let s5 = s4 + text::decimal(context.rust_logs@.len());
    lemma_told(s4, text::decimal(context.rust_logs@.len()));
    let s6 = s5 + " lines)\n"@;
    lemma_told(s5, " lines)\n"@);
    let s7 = s6 + last_lines(context.rust_logs@, 20);
    lemma_told(s6, last_lines(context.rust_logs@, 20));
    let s8 = s7 + "\n\n## WebSocket Messages (last "@;
    lemma_told(s7, "\n\n## WebSocket Messages (last "@);
    let s9 = s8 + text::decimal(context.ws_messages@.len());
    lemma_told(s8, text::decimal(context.ws_messages@.len()));
    let s10 = s9 + ")\n"@;
    lemma_told(s9, ")\n"@);
    let s11 = s10 + last_lines(context.ws_messages@, 10);
    lemma_told(s10, last_lines(context.ws_messages@, 10));
    let s12 = s11 + "\n\n## App State\nRoute: "@;
    lemma_told(s11, "\n\n## App State\nRoute: "@);
    let s13 = s12 + context.app_state.route@;
    lemma_told(s12, context.app_state.route@);
    let s14 = s13 + "\nWS Status: "@;
    lemma_told(s13, "\nWS Status: "@);
    let s15 = s14 + context.app_state.ws_status@;
    lemma_told(s14, context.app_state.ws_status@);
    let s16 = s15 + "\nVoice Room: "@;
    lemma_told(s15, "\nVoice Room: "@);
    let s17 = s16 + voice_room(context.app_state.voice_room_state);
    lemma_told(s16, voice_room(context.app_state.voice_room_state));
    let s18 = s17 + "\nPlatform: "@;
    lemma_told(s17, "\nPlatform: "@);
    let s19 = s18 + context.app_state.platform@;
    lemma_told(s18, context.app_state.platform@);
    assert(s19 == context_summary(context));
}

/// The model is told what was reported and what the client saw: the description,
/// the route, the state and the platform of the client, the last twenty lines of
/// each log and the last ten messages.
pub proof fn law_the_model_is_told_what_happened(
    description: &str,
    context: &BugReportContext,
    previous_answers: Option<&[QaPair]>,
    prompt: String,
    screen: &'static str,
    route: &str,
    i: int,
)
    requires
        call_ensures(build_analysis_prompt, (description, context, previous_answers), prompt),
        route@ == context.app_state.route@,
        call_ensures(screen_context_for_route, (route,), screen),
    ensures
        text::occurs(prompt@, description@),
        text::occurs(prompt@, screen@),
        text::occurs(prompt@, context.app_state.route@),
        text::occurs(prompt@, context.app_state.ws_status@),
        text::occurs(prompt@, context.app_state.platform@),
        context.app_state.voice_room_state is Some ==> text::occurs(
            prompt@,
            context.app_state.voice_room_state->0@,
        ),
        0 <= i < context.js_console_logs@.len() && context.js_console_logs@.len() - 20 <= i
            ==> text::occurs(prompt@, context.js_console_logs@[i]@),
        0 <= i < context.rust_logs@.len() && context.rust_logs@.len() - 20 <= i ==> text::occurs(
            prompt@,
            context.rust_logs@[i]@,
        ),
        0 <= i < context.ws_messages@.len() && context.ws_messages@.len() - 10 <= i
            ==> text::occurs(prompt@, context.ws_messages@[i]@),
{
    lemma_summary_told(*context);
    let q0 = prompts::ANALYSIS_INTRO@;
    let q1 = q0 + description@;
    lemma_told(q0, description@);
    let q2 = q1 + prompts::ANALYSIS_CONTEXT@;
    lemma_told(q1, prompts::ANALYSIS_CONTEXT@);
    let q3 = q2 + context_summary(*context);
    lemma_told(q2, context_summary(*context));
    let q4 = q3 + prompts::ANALYSIS_SCREEN@;
    lemma_told(q3, prompts::ANALYSIS_SCREEN@);
    let q5 = q4 + screen_context(context.app_state.route@);
    lemma_told(q4, screen_context(context.app_state.route@));
    let q6 = q5 + prompts::ANALYSIS_RULES@;
    lemma_told(q5, prompts::ANALYSIS_RULES@);
    if 0 <= i < context.js_console_logs@.len() && context.js_console_logs@.len() - 20 <= i {
        lemma_last_lines_told(context.js_console_logs@, 20, i);
    }
    if 0 <= i < context.rust_logs@.len() && context.rust_logs@.len() - 20 <= i {
        lemma_last_lines_told(context.rust_logs@, 20, i);
    }
    if 0 <= i < context.ws_messages@.len() && context.ws_messages@.len() - 10 <= i {
        lemma_last_lines_told(context.ws_messages@, 10, i);
    }
    if previous_answers is Some && previous_answers->0@.len() > 0 {
        let said = text::joined(
            previous_answers->0@.map_values(|qa: QaPair| qa_text(qa)),
            "\n\n"@,
        );
        lemma_told(q6, prompts::ANALYSIS_ANSWERED@);
        lemma_told(q6 + prompts::ANALYSIS_ANSWERED@, said);
        lemma_told(q6 + prompts::ANALYSIS_ANSWERED@ + said, prompts::ANALYSIS_FINAL@);
        assert(prompt@ == q6 + prompts::ANALYSIS_ANSWERED@ + said + prompts::ANALYSIS_FINAL@);
        assert forall|p: Seq<char>| text::occurs(q6, p) implies #[trigger] text::occurs(
            prompt@,
            p,
        ) by {
            assert(text::occurs(q6 + prompts::ANALYSIS_ANSWERED@, p));
            assert(text::occurs(q6 + prompts::ANALYSIS_ANSWERED@ + said, p));
        }
    } else {
        assert(prompt@ == q6);
    }
    assert forall|p: Seq<char>| text::occurs(context_summary(*context), p) implies #[trigger] text::occurs(
        q6,
        p,
    ) by {
        assert(text::occurs(q3, p));
        assert(text::occurs(q4, p));
        assert(text::occurs(q5, p));
    }
    assert(text::occurs(q1, description@));
    assert(text::occurs(q2, description@));
    assert(text::occurs(q3, description@));
    assert(text::occurs(q4, description@));
    assert(text::occurs(q5, description@));
    assert(text::occurs(q6, description@));
    assert(text::occurs(q5, screen@));
    assert(text::occurs(q6, screen@));
    assert(text::occurs(q6, context.app_state.route@));
    assert(text::occurs(q6, context.app_state.ws_status@));
    assert(text::occurs(q6, context.app_state.platform@));
    assert(text::occurs(q6, voice_room(context.app_state.voice_room_state)));
    if 0 <= i < context.js_console_logs@.len() && context.js_console_logs@.len() - 20 <= i {
        assert(text::occurs(context_summary(*context), context.js_console_logs@[i]@));
        assert(text::occurs(q6, context.js_console_logs@[i]@));
    }
    if 0 <= i < context.rust_logs@.len() && context.rust_logs@.len() - 20 <= i {
        assert(text::occurs(context_summary(*context), context.rust_logs@[i]@));
        assert(text::occurs(q6, context.rust_logs@[i]@));
    }
    if 0 <= i < context.ws_messages@.len() && context.ws_messages@.len() - 10 <= i {
        assert(text::occurs(context_summary(*context), context.ws_messages@[i]@));
        assert(text::occurs(q6, context.ws_messages@[i]@));
    }
}

/// The answers of an earlier round are told, each with its question; without any the
/// model is asked as in the first round.
pub proof fn law_earlier_answers_are_told(
    description: &str,
    context: &BugReportContext,
    answers: &[QaPair],
    prompt: String,
    first: String,
    i: int,
)
    requires
        call_ensures(build_analysis_prompt, (description, context, Some(answers)), prompt),
        call_ensures(build_analysis_prompt, (description, context, None), first),
    ensures
        answers@.len() == 0 ==> prompt@ == first@,
        answers@.len() > 0 ==> first@.is_prefix_of(prompt@) && prompt@ != first@,
        0 <= i < answers@.len() ==> text::occurs(prompt@, answers@[i].question@) && text::occurs(
            prompt@,
            answers@[i].answer@,
        ),
{
    if answers@.len() > 0 {
        let pieces = answers@.map_values(|qa: QaPair| qa_text(qa));
        let said = text::joined(pieces, "\n\n"@);
        let a = first@ + prompts::ANALYSIS_ANSWERED@;
        lemma_told(first@, prompts::ANALYSIS_ANSWERED@);
        lemma_told(a, said);
        lemma_told(a + said, prompts::ANALYSIS_FINAL@);
        assert(prompt@ == a + said + prompts::ANALYSIS_FINAL@);
        assert(prompt@.subrange(0, first@.len() as int) =~= first@);
        assert(said.len() > 0) by {
            reveal_strlit("Q: ");
            lemma_pieces_told(pieces, "\n\n"@, 0);
            assert(pieces[0].len() > 0);
            let k = choose|k: int| text::occurs_at(said, pieces[0], k);
        }
        if 0 <= i < answers@.len() {
            lemma_pieces_told(pieces, "\n\n"@, i);
            lemma_qa_told(answers@[i]);
            lemma_occurs_within(said, pieces[i], answers@[i].question@);
            lemma_occurs_within(said, pieces[i], answers@[i].answer@);
            assert(text::occurs(a + said, answers@[i].question@));
            assert(text::occurs(a + said, answers@[i].answer@));
        }
    }
}

proof fn lemma_qa_told(qa: QaPair)
    ensures
        text::occurs(qa_text(qa), qa.question@),
        text::occurs(qa_text(qa), qa.answer@),
{
    let a = "Q: "@ + qa.question@;
    lemma_told("Q: "@, qa.question@);
    lemma_told(a, "\nA: "@);
    lemma_told(a + "\nA: "@, qa.answer@);
    assert(text::occurs(a, qa.question@));
    assert(text::occurs(a + "\nA: "@, qa.question@));
}

proof fn lemma_round_qa_told(round: nat, qa: QaPair)
    ensures
        text::occurs(round_qa_text(round, qa), qa.question@),
        text::occurs(round_qa_text(round, qa), qa.answer@),
{
    let a = "**Round "@ + text::decimal(round) + " — Q:** "@;
    let b = a + qa.question@;
    let c = b + "\n**A:** "@;
    lemma_told(a, qa.question@);
    lemma_told(b, "\n**A:** "@);
    lemma_told(c, qa.answer@);
    assert(text::occurs(b, qa.question@));
    assert(text::occurs(c, qa.question@));
}

proof fn lemma_occurs_within(whole: Seq<char>, part: Seq<char>, p: Seq<char>)
    requires
        text::occurs(whole, part),
        text::occurs(part, p),
    ensures
        text::occurs(whole, p),
{
    let i = choose|i: int| text::occurs_at(whole, part, i);
    let j = choose|j: int| text::occurs_at(part, p, j);
    assert(whole.subrange(i + j, i + j + p.len()) =~= part.subrange(j, j + p.len()));
    assert(text::occurs_at(whole, p, i + j));
}

proof fn lemma_diagnostics_told(context: BugReportContext)
    ensures
        forall|p: Seq<char>|
            {
                ||| text::occurs(last_lines(context.js_console_logs@, 30), p)
                ||| text::occurs(last_lines(context.rust_logs@, 30), p)
                ||| text::occurs(last_lines(context.ws_messages@, 15), p)
            } ==> #[trigger] text::occurs(issue_diagnostics(context), p),
        text::occurs(issue_diagnostics(context), context.app_state.route@),
        text::occurs(issue_diagnostics(context), context.app_state.ws_status@),
        text::occurs(issue_diagnostics(context), voice_room(context.app_state.voice_room_state)),
        text::occurs(issue_diagnostics(context), context.app_state.platform@),
{
    let s0 = "### Console Logs\n```\n"@;
    let s1 = s0 + last_lines(context.js_console_logs@, 30);
    lemma_told(s0, last_lines(context.js_console_logs@, 30));
    let s2 = s1 + "\n```\n\n### Rust Logs\n```\n"@;
    lemma_told(s1, "\n```\n\n### Rust Logs\n```\n"@);
    let s3 = s2 + last_lines(context.rust_logs@, 30);
    lemma_told(s2, last_lines(context.rust_logs@, 30));
    let s4 = s3 + "\n```\n\n### WebSocket Messages\n```\n"@;
    lemma_told(s3, "\n```\n\n### WebSocket Messages\n```\n"@);
    let s5 = s4 + last_lines(context.ws_messages@, 15);
    lemma_told(s4, last_lines(context.ws_messages@, 15));
    let s6 = s5 + "\n```\n\n### App State\n- Route: "@;
    lemma_told(s5, "\n```\n\n### App State\n- Route: "@);
    let s7 = s6 + context.app_state.route@;
    lemma_told(s6, context.app_state.route@);
    let s8 = s7 + "\n- WS Status: "@;
    lemma_told(s7, "\n- WS Status: "@);
    let s9 = s8 + context.app_state.ws_status@;
    lemma_told(s8, context.app_state.ws_status@);
    let s10 = s9 + "\n- Voice Room: "@;
    lemma_told(s9, "\n- Voice Room: "@);
    let s11 = s10 + voice_room(context.app_state.voice_room_state);
    lemma_told(s10, voice_room(context.app_state.voice_room_state));
    let s12 = s11 + "\n- Platform: "@;
    lemma_told(s11, "\n- Platform: "@);
    let s13 = s12 + context.app_state.platform@;
    lemma_told(s12, context.app_state.platform@);
    assert(s13 == issue_diagnostics(context));
}

/// For an issue the model is told the category, the description, each question and
/// answer of each round, the state of the client, the last thirty lines of each log
/// and the last fifteen messages.
pub proof fn law_the_model_is_told_what_the_issue_is(
    description: &str,
    context: &BugReportContext,
    qa_rounds: &[Vec<QaPair>],
    category: &str,
    prompt: String,
    round: int,
    i: int,
)
    requires
        call_ensures(build_issue_body_prompt, (description, context, qa_rounds, category), prompt),
    ensures
        text::occurs(prompt@, description@),
        text::occurs(prompt@, category@),
        text::occurs(prompt@, context.app_state.route@),
        text::occurs(prompt@, context.app_state.ws_status@),
        text::occurs(prompt@, context.app_state.platform@),
        qa_rounds@.len() == 0 ==> text::occurs(prompt@, "None (offline mode)"@),
        0 <= round < qa_rounds@.len() && 0 <= i < qa_rounds@[round]@.len() ==> text::occurs(
            prompt@,
            qa_rounds@[round]@[i].question@,
        ) && text::occurs(prompt@, qa_rounds@[round]@[i].answer@),
        0 <= i < context.js_console_logs@.len() && context.js_console_logs@.len() - 30 <= i
            ==> text::occurs(prompt@, context.js_console_logs@[i]@),
        0 <= i < context.rust_logs@.len() && context.rust_logs@.len() - 30 <= i ==> text::occurs(
            prompt@,
            context.rust_logs@[i]@,
        ),
        0 <= i < context.ws_messages@.len() && context.ws_messages@.len() - 15 <= i
            ==> text::occurs(prompt@, context.ws_messages@[i]@),
{
    let qa = rounds_text(qa_rounds@);
    let said = if qa.len() == 0 {
        "None (offline mode)"@
    } else {
        qa
    };
    lemma_diagnostics_told(*context);
    let q0 = prompts::ISSUE_INTRO@;
    let q1 = q0 + category@;
    lemma_told(q0, category@);
    let q2 = q1 + prompts::ISSUE_SECTIONS@;
    lemma_told(q1, prompts::ISSUE_SECTIONS@);
    let q3 = q2 + description@;
    lemma_told(q2, description@);
    let q4 = q3 + prompts::ISSUE_CATEGORY@;
    lemma_told(q3, prompts::ISSUE_CATEGORY@);
    let q5 = q4 + category@;
    lemma_told(q4, category@);
    let q6 = q5 + prompts::ISSUE_ANSWERS@;
    lemma_told(q5, prompts::ISSUE_ANSWERS@);
    let q7 = q6 + said;
    lemma_told(q6, said);
    let q8 = q7 + prompts::ISSUE_DIAGNOSTICS@;
    lemma_told(q7, prompts::ISSUE_DIAGNOSTICS@);
    let q9 = q8 + issue_diagnostics(*context);
    lemma_told(q8, issue_diagnostics(*context));
    assert(q9 == prompt@);
    assert forall|p: Seq<char>| text::occurs(said, p) implies #[trigger] text::occurs(prompt@, p) by {
        assert(text::occurs(q7, p));
        assert(text::occurs(q8, p));
    }
    assert(text::occurs(q5, category@));
    assert(text::occurs(q6, category@));
    assert(text::occurs(q7, category@));
    assert(text::occurs(q8, category@));
    assert(text::occurs(q3, description@));
    assert(text::occurs(q4, description@));
    assert(text::occurs(q5, description@));
    assert(text::occurs(q6, description@));
    assert(text::occurs(q7, description@));
    assert(text::occurs(q8, description@));
    assert(text::occurs(said, said));
    if 0 <= round < qa_rounds@.len() && 0 <= i < qa_rounds@[round]@.len() {
        let pair = qa_rounds@[round]@[i];
        let rounds = Seq::new(
            qa_rounds@.len(),
            |k: int| round_text((k + 1) as nat, qa_rounds@[k]@),
        );
        let n = (round + 1) as nat;
        let pieces = qa_rounds@[round]@.map_values(|x: QaPair| round_qa_text(n, x));
        lemma_pieces_told(rounds, "\n\n"@, round);
        lemma_pieces_told(pieces, "\n\n"@, i);
        lemma_round_qa_told(n, pair);
        assert(rounds[round] == round_text(n, qa_rounds@[round]@));
        lemma_occurs_within(qa, rounds[round], pieces[i]);
        lemma_occurs_within(qa, pieces[i], pair.question@);
        lemma_occurs_within(qa, pieces[i], pair.answer@);
        assert(qa.len() > 0) by {
            reveal_strlit("**Round ");
            assert(pieces[i].len() > 0);
            let k = choose|k: int| text::occurs_at(qa, pieces[i], k);
        }
    }
    if 0 <= i < context.js_console_logs@.len() && context.js_console_logs@.len() - 30 <= i {
        lemma_last_lines_told(context.js_console_logs@, 30, i);
        assert(text::occurs(issue_diagnostics(*context), context.js_console_logs@[i]@));
    }
    if 0 <= i < context.rust_logs@.len() && context.rust_logs@.len() - 30 <= i {
        lemma_last_lines_told(context.rust_logs@, 30, i);
        assert(text::occurs(issue_diagnostics(*context), context.rust_logs@[i]@));
    }
    if 0 <= i < context.ws_messages@.len() && context.ws_messages@.len() - 15 <= i {
        lemma_last_lines_told(context.ws_messages@, 15, i);
        assert(text::occurs(issue_diagnostics(*context), context.ws_messages@[i]@));
    }
}

/// That two logs are equally long and end with the same `n` lines.
pub open spec fn end_alike(a: Seq<String>, b: Seq<String>, n: int) -> bool {
    a.len() == b.len() && forall|i: int|
        0 <= i < a.len() && a.len() - n <= i ==> (#[trigger] a[i])@ == b[i]@
}

proof fn lemma_end_alike(a: Seq<String>, b: Seq<String>, n: nat)
    requires
        end_alike(a, b, n as int),
    ensures
        last_lines(a, n) == last_lines(b, n),
{
    if a.len() <= n {
        assert(text::views(a) =~= text::views(b));
    } else {
        let k = a.len() - n;
        assert(text::views(a.skip(k)) =~= text::views(b.skip(k))) by {
            assert forall|i: int| 0 <= i < n implies a.skip(k)[i]@ == b.skip(k)[i]@ by {
                assert(a[k + i]@ == b[k + i]@);
            }
        }
    }
}

/// What older lines say makes no difference: the model is not told of them.
pub proof fn law_older_lines_are_left_out(
    description: &str,
    a: &BugReportContext,
    b: &BugReportContext,
    previous_answers: Option<&[QaPair]>,
    qa_rounds: &[Vec<QaPair>],
    category: &str,
    of_a: String,
    of_b: String,
    issue_of_a: String,
    issue_of_b: String,
)
    requires
        call_ensures(build_analysis_prompt, (description, a, previous_answers), of_a),
        call_ensures(build_analysis_prompt, (description, b, previous_answers), of_b),
        call_ensures(build_issue_body_prompt, (description, a, qa_rounds, category), issue_of_a),
        call_ensures(build_issue_body_prompt, (description, b, qa_rounds, category), issue_of_b),
        a.app_state == b.app_state,
    ensures
        end_alike(a.js_console_logs@, b.js_console_logs@, 20) && end_alike(
            a.rust_logs@,
            b.rust_logs@,
            20,
        ) && end_alike(a.ws_messages@, b.ws_messages@, 10) ==> of_a@ == of_b@,
        end_alike(a.js_console_logs@, b.js_console_logs@, 30) && end_alike(
            a.rust_logs@,
            b.rust_logs@,
            30,
        ) && end_alike(a.ws_messages@, b.ws_messages@, 15) ==> issue_of_a@ == issue_of_b@,
{
    if end_alike(a.js_console_logs@, b.js_console_logs@, 20) && end_alike(
        a.rust_logs@,
        b.rust_logs@,
        20,
    ) && end_alike(a.ws_messages@, b.ws_messages@, 10) {
        lemma_end_alike(a.js_console_logs@, b.js_console_logs@, 20);
        lemma_end_alike(a.rust_logs@, b.rust_logs@, 20);
        lemma_end_alike(a.ws_messages@, b.ws_messages@, 10);
        assert(context_summary(*a) == context_summary(*b));
    }
    if end_alike(a.js_console_logs@, b.js_console_logs@, 30) && end_alike(
        a.rust_logs@,
        b.rust_logs@,
        30,
    ) && end_alike(a.ws_messages@, b.ws_messages@, 15) {
        lemma_end_alike(a.js_console_logs@, b.js_console_logs@, 30);
        lemma_end_alike(a.rust_logs@, b.rust_logs@, 30);
        lemma_end_alike(a.ws_messages@, b.ws_messages@, 15);
        assert(issue_diagnostics(*a) == issue_diagnostics(*b));
    }
}

/// A reply is taken at its word: its category, its questions in their order as far
/// as there are no more than five, and whether it wants to ask more. What it does not
/// say is `other`, no questions, and no.
pub proof fn law_replies_are_taken_at_their_word(reply: &Json, a: LlmAnalysis, i: int)
    requires
        call_ensures(analysis_from, (reply,), a),
    ensures
        json::field_text(reply@, "category"@) is Some ==> a.category@ == json::field_text(
            reply@,
            "category"@,
        )->0,
        json::field_text(reply@, "category"@) is None ==> a.category@ == "other"@,
        json::json_field(reply@, "needsFollowUp"@) == Some(JsonView::Bool(true)) <==> a.needs_follow_up,
        a.questions@.len() <= 5,
        !(json::json_field(reply@, "questions"@) is Some && json::json_field(reply@, "questions"@)->0
            is Array) ==> a.questions@.len() == 0,
        json::json_field(reply@, "questions"@) is Some && json::json_field(reply@, "questions"@)->0
            is Array ==> {
            let items = json::json_field(reply@, "questions"@)->0->Array_0;
            (forall|k: int|
                0 <= k < items.len() ==> json::field_text(#[trigger] items[k], "text"@) is Some)
                ==> {
                &&& a.questions@.len() == (if items.len() <= 5 {
                    items.len()
                } else {
                    5
                })
                &&& 0 <= i < a.questions@.len() ==> a.questions@[i].text@ == json::field_text(
                    items[i],
                    "text"@,
                )->0
            }
        },
{
    let shown = a@.questions;
    assert(shown.len() == a.questions@.len());
    if json::json_field(reply@, "questions"@) is Some && json::json_field(reply@, "questions"@)->0
        is Array {
        let items = json::json_field(reply@, "questions"@)->0->Array_0;
        if forall|k: int|
            0 <= k < items.len() ==> json::field_text(#[trigger] items[k], "text"@) is Some {
            lemma_all_are_questions(items);
            if 0 <= i < a.questions@.len() {
                assert(shown[i] == questions_among(items)[i]);
                assert(shown[i] == a.questions@[i]@);
            }
        }
    }
}

proof fn lemma_all_are_questions(items: Seq<JsonView>)
    requires
        forall|k: int|
            0 <= k < items.len() ==> json::field_text(#[trigger] items[k], "text"@) is Some,
    ensures
        questions_among(items).len() == items.len(),
        forall|k: int|
            0 <= k < items.len() ==> (#[trigger] questions_among(items)[k]).text
                == json::field_text(items[k], "text"@)->0,
    decreases items.len(),
{
    if items.len() > 0 {
        let before = items.drop_last();
        assert forall|k: int| 0 <= k < before.len() implies json::field_text(
            #[trigger] before[k],
            "text"@,
        ) is Some by {
            assert(before[k] == items[k]);
        }
        lemma_all_are_questions(before);
        assert(json::field_text(items[items.len() - 1], "text"@) is Some);
        assert forall|k: int| 0 <= k < items.len() implies (#[trigger] questions_among(items)[k]).text
            == json::field_text(items[k], "text"@)->0 by {
            if k < before.len() {
                assert(questions_among(items)[k] == questions_among(before)[k]);
                assert(before[k] == items[k]);
            }
        }
    }
}

/// The options of a question are the texts that the reply lists for it, in their
/// order.
pub proof fn law_options_are_taken_over(
    reply: &Json,
    a: LlmAnalysis,
    item: JsonView,
    options: Seq<JsonView>,
    j: int,
)
    requires
        call_ensures(analysis_from, (reply,), a),
        json::json_field(reply@, "questions"@) == Some(JsonView::Array(seq![item])),
        json::field_text(item, "text"@) is Some,
        json::json_field(item, "options"@) == Some(JsonView::Array(options)),
        forall|k: int| 0 <= k < options.len() ==> (#[trigger] options[k]) is Text,
    ensures
        a.questions@.len() == 1,
        a.questions@[0].options is Some,
        a.questions@[0].options->0@.len() == options.len(),
        0 <= j < options.len() ==> a.questions@[0].options->0@[j]@ == options[j]->Text_0,
{
    let items = seq![item];
    assert(items.drop_last() =~= Seq::<JsonView>::empty());
    assert(questions_among(Seq::<JsonView>::empty()) =~= Seq::<QuestionView>::empty());
    assert(questions_among(items) =~= seq![question_of(item)->0]);
    let shown = a@.questions;
    assert(shown.len() == a.questions@.len());
    assert(shown[0] == a.questions@[0]@);
    lemma_all_are_texts(options);
    assert(text::views(a.questions@[0].options->0@) == texts_among(options));
    if 0 <= j < options.len() {
        assert(text::views(a.questions@[0].options->0@)[j] == a.questions@[0].options->0@[j]@);
    }
}

proof fn lemma_all_are_texts(items: Seq<JsonView>)
    requires
        forall|k: int| 0 <= k < items.len() ==> (#[trigger] items[k]) is Text,
    ensures
        texts_among(items).len() == items.len(),
        forall|k: int|
            0 <= k < items.len() ==> #[trigger] texts_among(items)[k] == items[k]->Text_0,
    decreases items.len(),
{
    if items.len() > 0 {
        let before = items.drop_last();
        assert forall|k: int| 0 <= k < before.len() implies (#[trigger] before[k]) is Text by {
            assert(before[k] == items[k]);
        }
        lemma_all_are_texts(before);
        assert(items[items.len() - 1] is Text);
        assert forall|k: int| 0 <= k < items.len() implies #[trigger] texts_among(items)[k]
            == items[k]->Text_0 by {
            if k < before.len() {
                assert(texts_among(items)[k] == texts_among(before)[k]);
                assert(before[k] == items[k]);
            }
        }
    }
}

/// The issue has the title and the body that the reply gives. Without a title it is
/// called after the first eighty bytes of the description, and without a body the
/// description is its body.
#[verifier::spinoff_prover]
pub proof fn law_issues_are_what_the_reply_gives(
    reply: &Json,
    description: &str,
    issue: GeneratedIssueBody,
)
    requires
        call_ensures(issue_body_from, (reply, description), issue),
    ensures
        ({
            let title = json::field_text(reply@, "title"@);
            let body = json::field_text(reply@, "body"@);
            {
                &&& title is Some && title->0.len() > 0 ==> issue.title@ == title->0
                &&& body is Some && body->0.len() > 0 ==> issue.body@ == body->0
                &&& !(title is Some && title->0.len() > 0) && text::utf8(description@).len() <= 80
                    ==> issue.title@ == "Bug Report: "@ + description@
                &&& !(title is Some && title->0.len() > 0) && text::utf8(description@).len() > 80
                    ==> issue.title@ == "Bug Report: "@ + text::first_bytes(description@, 80)
                &&& !(body is Some && body->0.len() > 0) ==> text::occurs(
                    issue.body@,
                    description@,
                )
            }
        }),
{
    lemma_told("## Bug Report\n\n### Description\n"@, description@);
    if text::utf8(description@).len() <= 80 {
        let bytes = text::utf8(description@);
        assert(bytes.take(bytes.len() as int) =~= bytes);
        vstd::utf8::encode_utf8_decode_utf8(description@);
        assert(text::first_bytes(description@, bytes.len()) == description@);
        assert(bytes.len() == 80 || title_bytes(description@) == bytes.len());
        assert(text::first_bytes(description@, title_bytes(description@)) == description@);
    }
    let title = json::field_text(reply@, "title"@);
    let body = json::field_text(reply@, "body"@);
    assert(given_text(reply@, "title"@) is Some <==> title is Some && title->0.len() > 0);
    assert(given_text(reply@, "body"@) is Some <==> body is Some && body->0.len() > 0);
}

/// What the service says is the text of the first item of its content, and an error
/// of the service is told with its status and its words.
pub proof fn law_the_first_item_is_the_reply(
    reply: &Json,
    r: Result<String, LlmError>,
    status: u16,
    words: &str,
    e: LlmError,
)
    requires
        call_ensures(content_from, (reply,), r),
        call_ensures(api_error, (status, words), e),
    ensures
        r is Err ==> r->Err_0 is ParseError,
        ({
            let content = json::json_field(reply@, "content"@);
            {
                &&& r is Ok ==> content is Some && content->0 is Array && content->0->Array_0.len()
                    > 0 && json::field_text(content->0->Array_0[0], "text"@) == Some(r->Ok_0@)
                &&& r is Err ==> !(content is Some && content->0 is Array && content->0->Array_0.len()
                    > 0 && json::field_text(content->0->Array_0[0], "text"@) is Some)
            }
        }),
        e is ApiError,
        text::utf8(words@).len() <= 200 ==> e->ApiError_0@ == text::decimal(status as nat) + ": "@
            + words@,
        text::utf8(words@).len() > 200 ==> e->ApiError_0@ == text::decimal(status as nat) + ": "@
            + text::first_bytes(words@, 200),
{
    if text::utf8(words@).len() <= 200 {
        let bytes = text::utf8(words@);
        assert(bytes.take(bytes.len() as int) =~= bytes);
        vstd::utf8::encode_utf8_decode_utf8(words@);
    }
}

/// Each error is told in its own words.
pub proof fn law_messages_say_what_is_wrong(e: &LlmError, s: String)
    requires
        call_ensures(LlmError::message, (e,), s),
    ensures
        *e is ApiError ==> s@ == "LLM API error: "@ + e->ApiError_0@,
        *e is ParseError ==> s@ == "LLM response parse error"@,
        *e is NetworkError ==> s@ == "LLM network error"@,
        *e is NotConfigured ==> s@ == "LLM not configured"@,
{
}

/// A reply is read with or without fences around it, and is an error exactly where
/// what is left is no JSON.
pub proof fn law_fenced_replies_are_read(
    plain: &str,
    fenced: &str,
    tag: Seq<char>,
    inner: Seq<char>,
    of_plain: Result<LlmAnalysis, LlmError>,
    of_fenced: Result<LlmAnalysis, LlmError>,
)
    requires
        call_ensures(read_analysis, (plain,), of_plain),
        call_ensures(read_analysis, (fenced,), of_fenced),
        plain@ == inner,
        fenced@ == "```"@ + tag + "\n"@ + inner + "```"@,
        !tag.contains('\n'),
        !"```"@.is_prefix_of(text::trimmed(inner)),
    ensures
        of_plain is Ok <==> json::json_parsed(text::trimmed(inner)) is Some,
        of_plain is Err ==> of_plain->Err_0 is ParseError,
        of_fenced is Ok <==> of_plain is Ok,
        of_fenced is Ok ==> of_fenced->Ok_0@ == of_plain->Ok_0@,
{
    law_fences_come_off(tag, inner);
    law_other_text_is_kept(inner);
}

/// A reply that is no JSON makes no issue, and one that has a title always makes one.
pub proof fn law_issues_are_read(
    text: &str,
    description: &str,
    r: Option<Result<GeneratedIssueBody, LlmError>>,
    stripped: &str,
)
    requires
        call_ensures(read_issue_body, (text, description), r),
        call_ensures(strip_markdown_fences, (text,), stripped),
    ensures
        json::json_parsed(stripped@) is None ==> r is Some && r->0 is Err && r->0->Err_0
            is ParseError,
        json::json_parsed(stripped@) is Some && text::utf8(description@).len() <= 80 ==> r is Some
            && r->0 is Ok,
        ({
            let title = json::field_text(json::json_parsed(stripped@)->0, "title"@);
            json::json_parsed(stripped@) is Some && title is Some && title->0.len() > 0 ==> r is Some
                && r->0 is Ok && r->0->Ok_0.title@ == title->0
        }),
{
    if json::json_parsed(stripped@) is Some && text::utf8(description@).len() <= 80 {
        law_short_descriptions_make_titles(json::json_parsed(stripped@)->0, description@);
    }
}

/// A client for tests keeps each call as it was made, and in the order in which they
/// were made.
pub proof fn law_kept_calls_are_those_made(client: MockLlmClient, i: int)
    requires
        client.record_agrees(),
        0 <= i < client.exchanges().len(),
    ensures
        client.calls@.len() == client.exchanges().len(),
        client.exchanges()[i] is Analyze <==> client.calls@[i] is Analyze,
        client.exchanges()[i] is Analyze ==> client.calls@[i]->Analyze_description@
            == client.exchanges()[i]->Analyze_description,
        client.exchanges()[i] is GenerateBody ==> client.calls@[i]->GenerateBody_description@
            == client.exchanges()[i]->GenerateBody_description && client.calls@[i]->category@
            == client.exchanges()[i]->GenerateBody_category,
{
    assert(same_call(client.calls@[i], client.exchanges()[i]));
}

} // verus!
