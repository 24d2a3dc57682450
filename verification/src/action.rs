//! Voice actions: telling a command from a dictation, and deciding what a command asks for.
//!
//! A language model classifies the dictation. What it is asked, how its answer is read, when it is
//! asked again, and what follows from a command is decided here; asking it and acting is not.
use vstd::prelude::*;
use vstd::string::*;
use vstd::utf8::*;

use crate::numerals::{decimal, decimal_text};
use crate::search::{
    begins_with, bytes_upto, last_position_of, law_occurs_in, occurs_in, position_of, starts_with,
};
use crate::split::{trim, trimmed};
use crate::spoken::{address, encoded, normalize_spoken_email, percent_encode};
use crate::text::{byte_len, chars_of, glue, glue3, lower, same, text_of, texts};

verus! {

// ----- commands -----

/// What the classifier made of a dictation.
#[derive(Debug)]
pub struct ActionCommand {
    pub is_action: bool,
    pub action_type: Option<String>,
    pub app_name: Option<String>,
    pub email_to: Option<String>,
    pub email_subject: Option<String>,
    pub email_body: Option<String>,
    pub url: Option<String>,
    /// The template that was asked for, where a text is to be formatted.
    pub format_id: Option<String>,
    /// The part of the dictation that is to be formatted.
    pub format_body: Option<String>,
}

/// Why an action failed.
#[derive(Debug)]
pub enum ActionError {
    Llm(String),
    Parse(String),
    Execute(String),
    Settings(String),
}

impl ActionError {
    /// The error in words.
    pub open spec fn text(self) -> Seq<char> {
        match self {
            ActionError::Llm(e) => "llm error: "@ + e@,
            ActionError::Parse(e) => "json parsing failed: "@ + e@,
            ActionError::Execute(e) => "execution failed: "@ + e@,
            ActionError::Settings(e) => "settings error: "@ + e@,
        }
    }

    /// The error in words.
    pub fn message(&self) -> (r: String)
        ensures
            r@ == self.text(),
    {
        match self {
            ActionError::Llm(e) => glue("llm error: ", e.as_str()),
            ActionError::Parse(e) => glue("json parsing failed: ", e.as_str()),
            ActionError::Execute(e) => glue("execution failed: ", e.as_str()),
            ActionError::Settings(e) => glue("settings error: ", e.as_str()),
        }
    }
}

// ----- asking the classifier -----

/// How a text can be rewritten on request.
#[derive(Debug)]
pub struct FormatTemplate {
    pub id: String,
    pub name: String,
    pub trigger_phrases: Vec<String>,
    pub system_prompt: String,
}

/// The first part of what the classifier is told.
pub const ACTION_SYSTEM_PROMPT_BASE: &'static str = "\
You are Echo Scribe's system action classifier.
Analyze the user's voice dictation and classify if it represents a system action/command.
Respond ONLY with a single JSON object matching this schema:
{
  \"is_action\": true | false,
  \"action_type\": \"launch_app\" | \"draft_email\" | \"open_url\" | \"increment_counter\" | \"reset_counter\" | \"show_counter\" | \"format_text\" | null,
  \"app_name\": \"<name of app to launch or null>\",
  \"email_to\": \"<recipient name or email address or null>\",
  \"email_subject\": \"<subject line or null>\",
  \"email_body\": \"<body content or null>\",
  \"url\": \"<url to open or null>\",
  \"format_id\": \"<id of matched format template or null>\",
  \"format_body\": \"<the portion of dictation that should be reformatted, or null>\",
  \"confidence\": <float between 0.0 and 1.0>
}

Common templates:
- Launch app: 'open Slack', 'launch Safari', 'open Growthinator', 'launch LiveCase'. action_type: 'launch_app'
- Draft email: 'email denis about Growthinator saying tests passed', 'email John about meeting saying I will be there'. action_type: 'draft_email'
- Open URL: 'open google', 'go to github.com', 'open website echo-scribe.com'. action_type: 'open_url'
- Increment counter: 'increment counter', 'add one to counter', 'add to count'. action_type: 'increment_counter'
- Reset counter: 'reset counter', 'clear count', 'reset action count'. action_type: 'reset_counter'
- Show counter: 'show counter', 'how many actions', 'what is the count'. action_type: 'show_counter'
- Format text: the user dictates a 'format as X' phrase followed by the body to reformat. action_type: 'format_text'. Set format_id to the matching template id, and format_body to the dictation text AFTER the trigger phrase (the content to be reformatted). Only use format_text if the user's dictation clearly starts with or contains a format-trigger phrase from the list below.";

/// The last part of what the classifier is told.
pub const ACTION_SYSTEM_PROMPT_TAIL: &'static str = "\n\
Rules:
- If the user's transcript matches any of these command intents, set is_action to true, appropriate action_type, extract details, and set confidence high (e.g. >= 0.85).
- If it's just regular dictation (like a note, task, diary thoughts, or description), set is_action to false and all other fields to null.
- For format_text: confidence must be >= 0.85 only when both (a) a recognised format trigger phrase appears AND (b) format_body is non-empty.
- Respond ONLY with the raw JSON object. No surrounding markdown, no backticks, no prose.";

/// A list of texts as `Debug` writes it.
pub uninterp spec fn debug_text(list: Seq<Seq<char>>) -> Seq<char>;

/// `format!("{:?}")` of a list of strings: a fixed function of the strings, named [`debug_text`].
#[verifier::external_body]
pub(crate) fn debug_list(list: &Vec<String>) -> (r: String)
    ensures
        r@ == debug_text(texts(list@)),
{
    format!("{:?}", list)
}

/// The line that describes a template; `phrases` is how its trigger phrases are written.
pub open spec fn template_line(id: Seq<char>, name: Seq<char>, phrases: Seq<char>) -> Seq<char> {
    "\n- id='"@ + id + "' name='"@ + name + "' trigger_phrases="@ + phrases
}

/// The lines that describe templates.
pub open spec fn template_lines(t: Seq<FormatTemplate>, phrases: Seq<Seq<char>>) -> Seq<char>
    decreases t.len(),
{
    if t.len() == 0 {
        Seq::empty()
    } else {
        template_lines(t.drop_last(), phrases) + template_line(
            t.last().id@,
            t.last().name@,
            phrases[t.len() - 1],
        )
    }
}

/// What the classifier is told, where the trigger phrases of each template are written as
/// `phrases` says.
pub open spec fn action_prompt(t: Seq<FormatTemplate>, phrases: Seq<Seq<char>>) -> Seq<char> {
    let listing = if t.len() == 0 {
        "\n\nAvailable format templates: (none configured — do not classify as format_text)"@
    } else {
        "\n\nAvailable format templates:"@ + template_lines(t, phrases)
    };
    ACTION_SYSTEM_PROMPT_BASE@ + listing + ACTION_SYSTEM_PROMPT_TAIL@
}

/// How the trigger phrases of each template are written.
pub open spec fn phrases_of(t: Seq<FormatTemplate>) -> Seq<Seq<char>> {
    t.map_values(|x: FormatTemplate| debug_text(texts(x.trigger_phrases@)))
}

/// What the classifier is told, where the trigger phrases of each template are already written.
pub fn action_prompt_with(templates: &Vec<FormatTemplate>, phrases: &Vec<String>) -> (r: String)
    requires
        phrases@.len() == templates@.len(),
    ensures
        r@ == action_prompt(templates@, texts(phrases@)),
{
    let mut out = ACTION_SYSTEM_PROMPT_BASE.to_owned();
    let ghost base = out@;
    let ghost written = texts(phrases@);
    if templates.len() == 0 {
        out.append(
            "\n\nAvailable format templates: (none configured — do not classify as format_text)",
        );
    } else {
        out.append("\n\nAvailable format templates:");
        let ghost head = "\n\nAvailable format templates:"@;
        let mut i: usize = 0;
        assert(out@ == base + (head + template_lines(templates@.take(0), written)));
        while i < templates.len()
            invariant
                i <= templates@.len() == phrases@.len(),
                written == texts(phrases@),
                out@ == base + (head + template_lines(templates@.take(i as int), written)),
            decreases templates@.len() - i,
        {
            let ghost upto = templates@.take(i + 1);
            proof {
                assert(upto.drop_last() == templates@.take(i as int));
                assert(written[i as int] == phrases@[i as int]@);
            }
            let mut line = glue3("\n- id='", templates[i].id.as_str(), "' name='");
            line.append(templates[i].name.as_str());
            line.append("' trigger_phrases=");
            line.append(phrases[i].as_str());
            out.append(line.as_str());
            proof {
                assert(template_lines(upto, written) == template_lines(
                    templates@.take(i as int),
                    written,
                ) + line@);
                assert(out@ == base + (head + template_lines(upto, written)));
            }
            i = i + 1;
        }
        assert(templates@.take(i as int) == templates@);
    }
    out.append(ACTION_SYSTEM_PROMPT_TAIL);
    out
}

/// What the classifier is told: the commands there are, and the user's templates.
pub fn build_action_system_prompt(templates: &Vec<FormatTemplate>) -> (r: String)
    ensures
        r@ == action_prompt(templates@, phrases_of(templates@)),
{
    let mut phrases: Vec<String> = Vec::new();
    let mut i: usize = 0;
    while i < templates.len()
        invariant
            i <= templates@.len(),
            phrases@.len() == i,
            forall|k: int|
                0 <= k < i ==> (#[trigger] phrases@[k])@ == debug_text(
                    texts(templates@[k].trigger_phrases@),
                ),
        decreases templates@.len() - i,
    {
        phrases.push(debug_list(&templates[i].trigger_phrases));
        i = i + 1;
    }
    assert(texts(phrases@) == phrases_of(templates@));
    action_prompt_with(templates, &phrases)
}

/// How many tokens the classifier may answer with.
pub const ACTION_MAX_TOKENS: u32 = 256;

/// How much context the classifier works with.
pub const ACTION_CONTEXT: u32 = 2048;

/// How many tokens a formatted text may have.
pub const FORMAT_MAX_TOKENS: u32 = 1024;

/// How much context formatting works with.
pub const FORMAT_CONTEXT: u32 = 4096;

// ----- reading the answer -----

/// Whether `k` is the first place of `c`.
pub open spec fn is_first(s: Seq<char>, c: char, k: int) -> bool {
    0 <= k < s.len() && s[k] == c && forall|i: int| 0 <= i < k ==> #[trigger] s[i] != c
}

/// Whether `k` is the last place of `c`.
pub open spec fn is_last(s: Seq<char>, c: char, k: int) -> bool {
    0 <= k < s.len() && s[k] == c && forall|i: int| k < i < s.len() ==> #[trigger] s[i] != c
}

/// The JSON object in an answer: from the first opening brace to the last closing one.
pub fn action_json(raw: &str) -> (r: Result<String, String>)
    ensures
        match r {
            Ok(t) => exists|a: int, b: int|
                #![trigger is_first(raw@, '{', a), is_last(raw@, '}', b)]
                is_first(raw@, '{', a) && is_last(raw@, '}', b) && a < b && t@ == raw@.subrange(
                    a,
                    b + 1,
                ),
            Err(e) => {
                ||| !raw@.contains('{') && e@ == "no '{' in output"@
                ||| raw@.contains('{') && !raw@.contains('}') && e@ == "no '}' in output"@
                ||| exists|a: int, b: int|
                    #![trigger is_first(raw@, '{', a), is_last(raw@, '}', b)]
                    is_first(raw@, '{', a) && is_last(raw@, '}', b) && b < a && e@
                        == "malformed braces: start="@ + decimal(bytes_upto(raw@, a)) + " end="@
                        + decimal(bytes_upto(raw@, b))
            },
        },
{
    let v = chars_of(raw);
    let n: usize = v.len();
    let a: usize = match position_of(&v, '{') {
        Some(k) => k,
        None => {
            return Err("no '{' in output".to_owned());
        },
    };
    assert(raw@[a as int] == '{');
    let b: usize = match last_position_of(&v, '}') {
        Some(k) => k,
        None => {
            return Err("no '}' in output".to_owned());
        },
    };
    proof {
        assert(is_first(raw@, '{', a as int));
        assert(is_last(raw@, '}', b as int));
    }
    if b <= a {
        let before_a = text_of(&v, 0, a);
        let before_b = text_of(&v, 0, b);
        proof {
            assert(v@.subrange(0, a as int) == raw@.take(a as int));
            assert(v@.subrange(0, b as int) == raw@.take(b as int));
        }
        let x = decimal_text(byte_len(before_a.as_str()) as u64);
        let y = decimal_text(byte_len(before_b.as_str()) as u64);
        let mut e = glue3("malformed braces: start=", x.as_str(), " end=");
        e.append(y.as_str());
        return Err(e);
    }
    assert(b < n);
    Ok(text_of(&v, a, b + 1))
}

/// What the classifier is told when its first answer could not be read.
pub open spec fn retry_text(transcript: Seq<char>, problem: Seq<char>) -> Seq<char> {
    transcript + "\n\n(Your previous response failed to parse: "@ + problem
        + ". Respond ONLY with a single JSON object matching the action schema. No prose, no code fences.)"@
}

/// What the classifier is told when its first answer could not be read.
pub fn retry_prompt(transcript: &str, problem: &str) -> (r: String)
    ensures
        r@ == retry_text(transcript@, problem@),
{
    let mut s = glue3(transcript, "\n\n(Your previous response failed to parse: ", problem);
    s.append(
        ". Respond ONLY with a single JSON object matching the action schema. No prose, no code fences.)",
    );
    s
}

/// What a round with the classifier came to.
#[derive(Clone, Copy, PartialEq, Eq, Structural, Debug)]
pub enum Round {
    /// It did not answer.
    NoAnswer,
    /// Its answer could not be read.
    Unreadable,
    Read,
}

/// How a classification goes on.
#[derive(Clone, Copy, PartialEq, Eq, Structural, Debug)]
pub enum Classify {
    Ask,
    AskAgain,
    Accept,
    /// The classifier did not answer.
    GiveUp,
    /// Neither answer could be read.
    Reject,
}

impl Classify {
    /// What follows a round.
    pub open spec fn after(self, round: Round) -> Classify {
        match (self, round) {
            (Classify::Ask, Round::Unreadable) => Classify::AskAgain,
            (Classify::AskAgain, Round::Unreadable) => Classify::Reject,
            (Classify::Ask, Round::Read) | (Classify::AskAgain, Round::Read) => Classify::Accept,
            (Classify::Ask, Round::NoAnswer) | (Classify::AskAgain, Round::NoAnswer) =>
                Classify::GiveUp,
            _ => self,
        }
    }

    /// Takes in what a round came to: an answer that cannot be read is asked for once more.
    pub fn advance(self, round: Round) -> (r: Classify)
        ensures
            r == self.after(round),
    {
        match (self, round) {
            (Classify::Ask, Round::Unreadable) => Classify::AskAgain,
            (Classify::AskAgain, Round::Unreadable) => Classify::Reject,
            (Classify::Ask, Round::Read) | (Classify::AskAgain, Round::Read) => Classify::Accept,
            (Classify::Ask, Round::NoAnswer) | (Classify::AskAgain, Round::NoAnswer) =>
                Classify::GiveUp,
            _ => self,
        }
    }
}

/// The classifier is asked at most twice.
pub proof fn law_two_rounds_at_most(a: Round, b: Round)
    ensures
        ({
            let c = Classify::Ask.after(a).after(b);
            c == Classify::Accept || c == Classify::GiveUp || c == Classify::Reject
        }),
        Classify::Ask.after(a).after(b) == Classify::Accept <==> a == Round::Read || (a
            == Round::Unreadable && b == Round::Read),
{
}

/// The error when neither answer could be read.
pub fn rejection(first: &str, second: &str) -> (r: ActionError)
    ensures
        r matches ActionError::Parse(e) && e@ == "primary: "@ + first@ + "; retry: "@ + second@,
{
    let mut s = glue3("primary: ", first, "; retry: ");
    s.append(second);
    ActionError::Parse(s)
}

/// The rewritten text in the model's answer.
pub fn formatted_text(raw: &str) -> (r: String)
    ensures
        r@ == trimmed(raw@),
{
    trim(raw)
}

// ----- what a command asks for -----

/// What is to be done for a command, and what the user is told once it is done.
#[derive(Debug)]
pub enum ActionPlan {
    LaunchApp { app_name: String, done: String },
    DraftEmail { url: String, done: String },
    OpenUrl { url: String, done: String },
    IncrementCounter,
    ResetCounter,
    ShowCounter,
}

/// An optional text, empty where there is none.
pub open spec fn or_empty(o: Option<String>) -> Seq<char> {
    match o {
        Some(s) => s@,
        None => Seq::empty(),
    }
}

/// The link that drafts an email.
pub open spec fn mailto(to: Seq<char>, subject: Seq<char>, body: Seq<char>) -> Seq<char> {
    "mailto:"@ + to + "?subject="@ + encoded(encode_utf8(subject)) + "&body="@ + encoded(
        encode_utf8(body),
    )
}

/// What is said of a drafted email.
pub open spec fn drafted(to: Seq<char>, subject: Seq<char>) -> Seq<char> {
    let recipient = if to.len() == 0 {
        "default recipient"@
    } else {
        to
    };
    let about = if subject.len() == 0 {
        "no subject"@
    } else {
        subject
    };
    "Drafted email to '"@ + recipient + "' with subject '"@ + about + "'"@
}

/// A link that names how it is opened: `https://` is put in front of one that does not.
pub open spec fn with_scheme(url: Seq<char>) -> Seq<char> {
    if begins_with(url, "http://"@) || begins_with(url, "https://"@) || begins_with(
        url,
        "mailto:"@,
    ) {
        url
    } else {
        "https://"@ + url
    }
}

/// A link that begins with `http://`, `https://` or `mailto:` stays as it is, and any other gets
/// `https://` in front; so completing a link twice does no more than completing it once.
pub proof fn law_links_are_completed_once(url: Seq<char>)
    ensures
        url.len() >= 7 && url.take(7) == seq!['h', 't', 't', 'p', ':', '/', '/'] ==> with_scheme(
            url,
        ) == url,
        url.len() >= 8 && url.take(8) == seq!['h', 't', 't', 'p', 's', ':', '/', '/']
            ==> with_scheme(url) == url,
        url.len() >= 7 && url.take(7) == seq!['m', 'a', 'i', 'l', 't', 'o', ':'] ==> with_scheme(
            url,
        ) == url,
        with_scheme(url) == url || with_scheme(url) == seq![
            'h',
            't',
            't',
            'p',
            's',
            ':',
            '/',
            '/',
        ] + url,
        with_scheme(url) == url ==> {
            ||| url.len() >= 7 && url.take(7) == seq!['h', 't', 't', 'p', ':', '/', '/']
            ||| url.len() >= 8 && url.take(8) == seq!['h', 't', 't', 'p', 's', ':', '/', '/']
            ||| url.len() >= 7 && url.take(7) == seq!['m', 'a', 'i', 'l', 't', 'o', ':']
        },
        with_scheme(with_scheme(url)) == with_scheme(url),
{
    reveal_strlit("http://");
    reveal_strlit("https://");
    reveal_strlit("mailto:");
    assert("http://"@ =~= seq!['h', 't', 't', 'p', ':', '/', '/']);
    assert("https://"@ =~= seq!['h', 't', 't', 'p', 's', ':', '/', '/']);
    assert("mailto:"@ =~= seq!['m', 'a', 'i', 'l', 't', 'o', ':']);
    let full = "https://"@ + url;
    assert(full.take(8) =~= "https://"@);
    assert(full.len() == url.len() + 8);
}

/// The email that a command asks for, where the recipient's address is `to`.
pub open spec fn is_draft(p: ActionPlan, cmd: ActionCommand, to: Seq<char>) -> bool {
    p matches ActionPlan::DraftEmail { url, done } && url@ == mailto(
        to,
        or_empty(cmd.email_subject),
        or_empty(cmd.email_body),
    ) && done@ == drafted(to, or_empty(cmd.email_subject))
}

/// What a command asks for.
pub open spec fn is_plan(r: Result<ActionPlan, ActionError>, cmd: ActionCommand) -> bool {
    let kind = or_empty(cmd.action_type);
    if kind == "launch_app"@ {
        match cmd.app_name {
            Some(name) => r matches Ok(ActionPlan::LaunchApp { app_name, done }) && app_name@
                == name@ && done@ == "Launched application '"@ + name@ + "'"@,
            None => r matches Err(ActionError::Execute(e)) && e@ == "launch_app missing app_name"@,
        }
    } else if kind == "draft_email"@ {
        r matches Ok(p) && is_draft(p, cmd, address(lower(or_empty(cmd.email_to))))
    } else if kind == "open_url"@ {
        match cmd.url {
            Some(raw) => r matches Ok(ActionPlan::OpenUrl { url, done }) && url@ == with_scheme(
                raw@,
            ) && done@ == "Opened URL '"@ + with_scheme(raw@) + "'"@,
            None => r matches Err(ActionError::Execute(e)) && e@
                == "open_url missing url parameter"@,
        }
    } else if kind == "increment_counter"@ {
        r matches Ok(ActionPlan::IncrementCounter)
    } else if kind == "reset_counter"@ {
        r matches Ok(ActionPlan::ResetCounter)
    } else if kind == "show_counter"@ {
        r matches Ok(ActionPlan::ShowCounter)
    } else {
        r matches Err(ActionError::Execute(e)) && e@
            == "Unsupported or unrecognized action type: '"@ + kind + "'"@
    }
}

fn text_or_empty(o: &Option<String>) -> (r: String)
    ensures
        r@ == or_empty(*o),
{
    match o {
        Some(s) => s.clone(),
        None => String::new(),
    }
}

/// The email that a command asks for, to the given address.
pub fn draft_email_to(cmd: &ActionCommand, to: &str) -> (r: ActionPlan)
    ensures
        is_draft(r, *cmd, to@),
{
    let subject = text_or_empty(&cmd.email_subject);
    let body = text_or_empty(&cmd.email_body);
    let encoded_subject = percent_encode(subject.as_str());
    let encoded_body = percent_encode(body.as_str());
    let mut url = glue3("mailto:", to, "?subject=");
    url.append(encoded_subject.as_str());
    url.append("&body=");
    url.append(encoded_body.as_str());
    let recipient = if to.is_empty() {
        "default recipient"
    } else {
        to
    };
    let about = if subject.as_str().is_empty() {
        "no subject"
    } else {
        subject.as_str()
    };
    let mut done = glue3("Drafted email to '", recipient, "' with subject '");
    done.append(about);
    done.append("'");
    ActionPlan::DraftEmail { url, done }
}

/// Decides what a command asks for. A kind of action that is not known, and one without what it
/// needs, is refused.
pub fn plan_action(cmd: &ActionCommand) -> (r: Result<ActionPlan, ActionError>)
    ensures
        is_plan(r, *cmd),
{
    let kind_text = text_or_empty(&cmd.action_type);
    let kind = kind_text.as_str();
    if same(kind, "launch_app") {
        match &cmd.app_name {
            Some(name) => Ok(
                ActionPlan::LaunchApp {
                    app_name: name.clone(),
                    done: glue3("Launched application '", name.as_str(), "'"),
                },
            ),
            None => Err(ActionError::Execute("launch_app missing app_name".to_owned())),
        }
    } else if same(kind, "draft_email") {
        let spoken = text_or_empty(&cmd.email_to);
        let to = normalize_spoken_email(spoken.as_str());
        Ok(draft_email_to(cmd, to.as_str()))
    } else if same(kind, "open_url") {
        match &cmd.url {
            Some(raw) => {
                let url = if starts_with(raw.as_str(), "http://") || starts_with(
                    raw.as_str(),
                    "https://",
                ) || starts_with(raw.as_str(), "mailto:") {
                    raw.clone()
                } else {
                    glue("https://", raw.as_str())
                };
                let done = glue3("Opened URL '", url.as_str(), "'");
                Ok(ActionPlan::OpenUrl { url, done })
            },
            None => Err(ActionError::Execute("open_url missing url parameter".to_owned())),
        }
    } else if same(kind, "increment_counter") {
        Ok(ActionPlan::IncrementCounter)
    } else if same(kind, "reset_counter") {
        Ok(ActionPlan::ResetCounter)
    } else if same(kind, "show_counter") {
        Ok(ActionPlan::ShowCounter)
    } else {
        Err(
            ActionError::Execute(
                glue3("Unsupported or unrecognized action type: '", kind, "'"),
            ),
        )
    }
}

impl ActionPlan {
    /// Whether it adds one to the count of actions beside its own work.
    pub open spec fn is_counted(self) -> bool {
        self is LaunchApp || self is DraftEmail || self is OpenUrl
    }

    /// Whether it adds one to the count of actions beside its own work.
    pub fn counts(&self) -> (r: bool)
        ensures
            r == self.is_counted(),
    {
        match self {
            ActionPlan::LaunchApp { .. } => true,
            ActionPlan::DraftEmail { .. } => true,
            ActionPlan::OpenUrl { .. } => true,
            _ => false,
        }
    }

    /// What the user is told when it is done; `count` is the counter's value then.
    pub open spec fn report(self, count: nat) -> Seq<char> {
        match self {
            ActionPlan::LaunchApp { app_name, done } => done@,
            ActionPlan::DraftEmail { url, done } => done@,
            ActionPlan::OpenUrl { url, done } => done@,
            ActionPlan::IncrementCounter => "Incremented action counter. Current count: "@
                + decimal(count),
            ActionPlan::ResetCounter => "Action counter has been reset to 0"@,
            ActionPlan::ShowCounter => "The current action counter value is "@ + decimal(count),
        }
    }

    /// What the user is told when it is done; `count` is the counter's value then.
    pub fn done_message(&self, count: u32) -> (r: String)
        ensures
            r@ == self.report(count as nat),
    {
        match self {
            ActionPlan::LaunchApp { app_name: _, done } => done.clone(),
            ActionPlan::DraftEmail { url: _, done } => done.clone(),
            ActionPlan::OpenUrl { url: _, done } => done.clone(),
            ActionPlan::IncrementCounter => {
                let n = decimal_text(count as u64);
                glue("Incremented action counter. Current count: ", n.as_str())
            },
            ActionPlan::ResetCounter => "Action counter has been reset to 0".to_owned(),
            ActionPlan::ShowCounter => {
                let n = decimal_text(count as u64);
                glue("The current action counter value is ", n.as_str())
            },
        }
    }

    /// The error when the system would not do it, for the given reason.
    pub open spec fn is_failure(self, detail: Seq<char>, e: ActionError) -> bool {
        match self {
            ActionPlan::LaunchApp { app_name, done } => e matches ActionError::Execute(t) && t@
                == "Failed to launch app '"@ + app_name@ + "'. Check if it is installed."@,
            ActionPlan::DraftEmail { url, done } => e matches ActionError::Execute(t) && t@
                == "Failed to open mail client draft: "@ + detail,
            ActionPlan::OpenUrl { url, done } => e matches ActionError::Execute(t) && t@
                == "Failed to open URL '"@ + url@ + "': "@ + detail,
            _ => e matches ActionError::Settings(t) && t@ == detail,
        }
    }

    /// The error when the system would not do it, for the given reason.
    pub fn failure(&self, detail: &str) -> (r: ActionError)
        ensures
            self.is_failure(detail@, r),
    {
        match self {
            ActionPlan::LaunchApp { app_name, done: _ } => ActionError::Execute(
                glue3(
                    "Failed to launch app '",
                    app_name.as_str(),
                    "'. Check if it is installed.",
                ),
            ),
            ActionPlan::DraftEmail { url: _, done: _ } => ActionError::Execute(
                glue("Failed to open mail client draft: ", detail),
            ),
            ActionPlan::OpenUrl { url, done: _ } => {
                let mut s = glue3("Failed to open URL '", url.as_str(), "': ");
                s.append(detail);
                ActionError::Execute(s)
            },
            _ => ActionError::Settings(detail.to_owned()),
        }
    }
}

/// Launching an application by name where the platform has no way to do it.
pub fn launch_app_by_name(app_name: &str) -> (r: Result<(), ActionError>)
    ensures
        r matches Err(ActionError::Execute(e)) && e@
            == "Launching applications by name isn't supported on this platform (wanted '"@
            + app_name@ + "')."@,
{
    Err(
        ActionError::Execute(
            glue3(
                "Launching applications by name isn't supported on this platform (wanted '",
                app_name,
                "').",
            ),
        ),
    )
}

/// What a command asks for is decided by its type alone, and carried out with what belongs to that
/// type: the application that is named, the address, subject and body of the email, the link. A
/// command without what its type needs, or of another type, is refused.
pub proof fn law_commands_do_what_they_say(r: Result<ActionPlan, ActionError>, cmd: ActionCommand)
    requires
        is_plan(r, cmd),
    ensures
        ({
            let kind = or_empty(cmd.action_type);
            let launches = kind == seq![
                'l', 'a', 'u', 'n', 'c', 'h', '_', 'a', 'p', 'p',
            ] && cmd.app_name is Some;
            let opens = kind == seq!['o', 'p', 'e', 'n', '_', 'u', 'r', 'l'] && cmd.url is Some;
            &&& r matches Ok(ActionPlan::LaunchApp { app_name, done }) ==> launches && app_name@
                == cmd.app_name->0@ && occurs_in(done@, app_name@)
            &&& r matches Ok(ActionPlan::OpenUrl { url, done }) ==> opens && url@ == with_scheme(
                cmd.url->0@,
            ) && occurs_in(done@, url@)
            &&& launches ==> r is Ok && r->Ok_0 is LaunchApp
            &&& opens ==> r is Ok && r->Ok_0 is OpenUrl
            &&& kind == seq![
                'd', 'r', 'a', 'f', 't', '_', 'e', 'm', 'a', 'i', 'l',
            ] <==> r is Ok && r->Ok_0 is DraftEmail
            &&& kind == seq!['d', 'r', 'a', 'f', 't', '_', 'e', 'm', 'a', 'i', 'l'] ==> is_draft(
                r->Ok_0,
                cmd,
                address(lower(or_empty(cmd.email_to))),
            )
            &&& kind == seq![
                'i', 'n', 'c', 'r', 'e', 'm', 'e', 'n', 't', '_', 'c', 'o', 'u', 'n', 't', 'e',
                'r',
            ] <==> r is Ok && r->Ok_0 is IncrementCounter
            &&& kind == seq![
                'r', 'e', 's', 'e', 't', '_', 'c', 'o', 'u', 'n', 't', 'e', 'r',
            ] <==> r is Ok && r->Ok_0 is ResetCounter
            &&& kind == seq![
                's', 'h', 'o', 'w', '_', 'c', 'o', 'u', 'n', 't', 'e', 'r',
            ] <==> r is Ok && r->Ok_0 is ShowCounter
            &&& r matches Err(e) ==> e is Execute
        }),
{
    reveal_strlit("launch_app");
    assert("launch_app"@ =~= seq!['l', 'a', 'u', 'n', 'c', 'h', '_', 'a', 'p', 'p']);
    reveal_strlit("open_url");
    assert("open_url"@ =~= seq!['o', 'p', 'e', 'n', '_', 'u', 'r', 'l']);
    reveal_strlit("draft_email");
    assert("draft_email"@ =~= seq!['d', 'r', 'a', 'f', 't', '_', 'e', 'm', 'a', 'i', 'l']);
    reveal_strlit("increment_counter");
    assert("increment_counter"@ =~= seq![
        'i', 'n', 'c', 'r', 'e', 'm', 'e', 'n', 't', '_', 'c', 'o', 'u', 'n', 't', 'e', 'r',
    ]);
    reveal_strlit("reset_counter");
    assert("reset_counter"@ =~= seq![
        'r', 'e', 's', 'e', 't', '_', 'c', 'o', 'u', 'n', 't', 'e', 'r',
    ]);
    reveal_strlit("show_counter");
    assert("show_counter"@ =~= seq!['s', 'h', 'o', 'w', '_', 'c', 'o', 'u', 'n', 't', 'e', 'r']);
    assert("launch_app"@.len() == 10 && "open_url"@.len() == 8 && "draft_email"@.len() == 11);
    assert("increment_counter"@.len() == 17 && "reset_counter"@.len() == 13 && "show_counter"@.len()
        == 12);
    let q = "'"@;
    if let Ok(ActionPlan::LaunchApp { app_name, done }) = r {
        law_occurs_in(done@, "Launched application '"@, app_name@, q);
    }
    if let Ok(ActionPlan::OpenUrl { url, done }) = r {
        law_occurs_in(done@, "Opened URL '"@, url@, q);
    }
}

/// An email is drafted to the address it was dictated to, with its subject and its body each under
/// its own name, and the user is told both, or that there is none.
pub proof fn law_draft_has_its_parts(p: ActionPlan, cmd: ActionCommand, to: Seq<char>)
    requires
        is_draft(p, cmd, to),
    ensures
        p matches ActionPlan::DraftEmail { url, done } && {
            let subject = or_empty(cmd.email_subject);
            &&& url@ == seq!['m', 'a', 'i', 'l', 't', 'o', ':'] + to + seq![
                '?', 's', 'u', 'b', 'j', 'e', 'c', 't', '=',
            ] + encoded(encode_utf8(subject)) + seq!['&', 'b', 'o', 'd', 'y', '=']
                + encoded(encode_utf8(or_empty(cmd.email_body)))
            &&& occurs_in(
                done@,
                if to.len() == 0 {
                    seq![
                        'd', 'e', 'f', 'a', 'u', 'l', 't', ' ', 'r', 'e', 'c', 'i', 'p', 'i', 'e',
                        'n', 't',
                    ]
                } else {
                    to
                },
            )
            &&& occurs_in(
                done@,
                if subject.len() == 0 {
                    seq!['n', 'o', ' ', 's', 'u', 'b', 'j', 'e', 'c', 't']
                } else {
                    subject
                },
            )
        },
        cmd.email_subject is None ==> or_empty(cmd.email_subject).len() == 0,
        cmd.email_subject matches Some(s) ==> or_empty(cmd.email_subject) == s@,
{
    reveal_strlit("mailto:");
    assert("mailto:"@ =~= seq!['m', 'a', 'i', 'l', 't', 'o', ':']);
    reveal_strlit("?subject=");
    assert("?subject="@ =~= seq!['?', 's', 'u', 'b', 'j', 'e', 'c', 't', '=']);
    reveal_strlit("&body=");
    assert("&body="@ =~= seq!['&', 'b', 'o', 'd', 'y', '=']);
    reveal_strlit("default recipient");
    assert("default recipient"@ =~= seq![
        'd', 'e', 'f', 'a', 'u', 'l', 't', ' ', 'r', 'e', 'c', 'i', 'p', 'i', 'e', 'n', 't',
    ]);
    reveal_strlit("no subject");
    assert("no subject"@ =~= seq!['n', 'o', ' ', 's', 'u', 'b', 'j', 'e', 'c', 't']);
    let subject = or_empty(cmd.email_subject);
    let recipient = if to.len() == 0 {
        "default recipient"@
    } else {
        to
    };
    let about = if subject.len() == 0 {
        "no subject"@
    } else {
        subject
    };
    if let ActionPlan::DraftEmail { url, done } = p {
        let a = "Drafted email to '"@;
        let m = "' with subject '"@;
        law_occurs_in(done@, a, recipient, m + about + "'"@);
        assert(done@ =~= a + recipient + (m + about + "'"@));
        law_occurs_in(done@, a + recipient + m, about, "'"@);
    }
}

/// Launching, drafting and opening count as actions, once each; changing and showing the counter does
/// not. The user is told the counter where it was changed or asked for.
pub proof fn law_counter_counts_actions(p: ActionPlan, n: nat)
    ensures
        !p.is_counted() <==> p is IncrementCounter || p is ResetCounter || p is ShowCounter,
        p is IncrementCounter ==> p.report(n) == seq![
            'I', 'n', 'c', 'r', 'e', 'm', 'e', 'n', 't', 'e', 'd', ' ', 'a', 'c', 't', 'i', 'o',
            'n', ' ', 'c', 'o', 'u', 'n', 't', 'e', 'r', '.', ' ', 'C', 'u', 'r', 'r', 'e', 'n',
            't', ' ', 'c', 'o', 'u', 'n', 't', ':', ' ',
        ]
            + decimal(n),
        p is ShowCounter ==> p.report(n) == seq![
            'T', 'h', 'e', ' ', 'c', 'u', 'r', 'r', 'e', 'n', 't', ' ', 'a', 'c', 't', 'i', 'o',
            'n', ' ', 'c', 'o', 'u', 'n', 't', 'e', 'r', ' ', 'v', 'a', 'l', 'u', 'e', ' ', 'i',
            's', ' ',
        ] + decimal(n),
        p is ResetCounter ==> p.report(n) == seq![
            'A', 'c', 't', 'i', 'o', 'n', ' ', 'c', 'o', 'u', 'n', 't', 'e', 'r', ' ', 'h', 'a',
            's', ' ', 'b', 'e', 'e', 'n', ' ', 'r', 'e', 's', 'e', 't', ' ', 't', 'o', ' ', '0',
        ],
        p matches ActionPlan::LaunchApp { app_name, done } ==> p.report(n) == done@,
        p matches ActionPlan::DraftEmail { url, done } ==> p.report(n) == done@,
        p matches ActionPlan::OpenUrl { url, done } ==> p.report(n) == done@,
{
    reveal_strlit("Incremented action counter. Current count: ");
    assert("Incremented action counter. Current count: "@ =~= seq![
        'I', 'n', 'c', 'r', 'e', 'm', 'e', 'n', 't', 'e', 'd', ' ', 'a', 'c', 't', 'i', 'o', 'n',
        ' ', 'c', 'o', 'u', 'n', 't', 'e', 'r', '.', ' ', 'C', 'u', 'r', 'r', 'e', 'n', 't', ' ',
        'c', 'o', 'u', 'n', 't', ':', ' ',
    ]);
    reveal_strlit("The current action counter value is ");
    assert("The current action counter value is "@ =~= seq![
        'T', 'h', 'e', ' ', 'c', 'u', 'r', 'r', 'e', 'n', 't', ' ', 'a', 'c', 't', 'i', 'o', 'n',
        ' ', 'c', 'o', 'u', 'n', 't', 'e', 'r', ' ', 'v', 'a', 'l', 'u', 'e', ' ', 'i', 's', ' ',
    ]);
    reveal_strlit("Action counter has been reset to 0");
    assert("Action counter has been reset to 0"@ =~= seq![
        'A', 'c', 't', 'i', 'o', 'n', ' ', 'c', 'o', 'u', 'n', 't', 'e', 'r', ' ', 'h', 'a', 's',
        ' ', 'b', 'e', 'e', 'n', ' ', 'r', 'e', 's', 'e', 't', ' ', 't', 'o', ' ', '0',
    ]);
}

/// What the system would not do is told by what it was: the name of the application, the link and
/// the reason; and a counter that could not be kept is told as a fault of the settings.
pub proof fn law_failures_name_what_failed(p: ActionPlan, detail: Seq<char>, e: ActionError)
    requires
        p.is_failure(detail, e),
    ensures
        e is Settings <==> !p.is_counted(),
        e matches ActionError::Settings(t) ==> t@ == detail,
        !(e is Settings) ==> e is Execute,
        p matches ActionPlan::LaunchApp { app_name, done } ==> (e matches ActionError::Execute(t)
            && occurs_in(t@, app_name@)),
        p matches ActionPlan::DraftEmail { url, done } ==> (e matches ActionError::Execute(t)
            && occurs_in(t@, detail)),
        p matches ActionPlan::OpenUrl { url, done } ==> (e matches ActionError::Execute(t)
            && occurs_in(t@, url@) && occurs_in(t@, detail)),
{
    let none = Seq::<char>::empty();
    if let ActionError::Execute(t) = e {
        match p {
            ActionPlan::LaunchApp { app_name, done } => {
                law_occurs_in(
                    t@,
                    "Failed to launch app '"@,
                    app_name@,
                    "'. Check if it is installed."@,
                );
            },
            ActionPlan::DraftEmail { url, done } => {
                let a = "Failed to open mail client draft: "@;
                law_occurs_in(t@, a, detail, none);
                assert(t@ =~= a + detail + none);
            },
            ActionPlan::OpenUrl { url, done } => {
                let a = "Failed to open URL '"@;
                law_occurs_in(t@, a, url@, "': "@ + detail);
                assert(t@ =~= a + url@ + ("': "@ + detail));
                law_occurs_in(t@, a + url@ + "': "@, detail, none);
                assert(t@ =~= a + url@ + "': "@ + detail + none);
            },
            _ => {},
        }
    }
}

/// An answer that cannot be read is asked for once more, and only that; what was asked for is settled
/// by the first answer that can be read.
pub proof fn law_only_the_unreadable_is_asked_again(c: Classify, round: Round)
    ensures
        c.after(round) == Classify::AskAgain <==> c == Classify::Ask && round == Round::Unreadable,
        c.after(round) != Classify::Ask,
        c == Classify::Ask || c == Classify::AskAgain ==> {
            &&& c.after(round) == Classify::Accept <==> round == Round::Read
            &&& c.after(round) == Classify::GiveUp <==> round == Round::NoAnswer
        },
        c.after(round) == Classify::Reject <==> c == Classify::Reject || (c == Classify::AskAgain
            && round == Round::Unreadable),
        c == Classify::Accept || c == Classify::GiveUp || c == Classify::Reject ==> c.after(round)
            == c,
{
}

/// The classifier is told every template of the user, by id, name and phrases, in their order, between
/// the rules it is always told; and where there is none it is told so.
pub proof fn law_every_template_is_told(
    t: Seq<FormatTemplate>,
    x: FormatTemplate,
    phrases: Seq<Seq<char>>,
)
    requires
        phrases.len() > t.len(),
    ensures
        template_line(x.id@, x.name@, phrases[t.len() as int]) == seq![
            '\n', '-', ' ', 'i', 'd', '=', '\'',
        ] + x.id@ + seq![
            '\'', ' ', 'n', 'a', 'm', 'e', '=', '\'',
        ]
            + x.name@ + seq![
                '\'', ' ', 't', 'r', 'i', 'g', 'g', 'e', 'r', '_', 'p', 'h', 'r', 'a', 's', 'e',
                's', '=',
            ] + phrases[t.len() as int],
        template_lines(t.push(x), phrases) == template_lines(t, phrases) + template_line(
            x.id@,
            x.name@,
            phrases[t.len() as int],
        ),
        template_lines(Seq::empty(), phrases).len() == 0,
        t.len() > 0 ==> occurs_in(action_prompt(t, phrases), template_lines(t, phrases)),
        begins_with(action_prompt(t, phrases), ACTION_SYSTEM_PROMPT_BASE@),
        action_prompt(t, phrases).skip(
            action_prompt(t, phrases).len() - ACTION_SYSTEM_PROMPT_TAIL@.len(),
        ) == ACTION_SYSTEM_PROMPT_TAIL@,
        t.len() == 0 ==> occurs_in(action_prompt(t, phrases), seq![
            '(', 'n', 'o', 'n', 'e', ' ', 'c', 'o', 'n', 'f', 'i', 'g', 'u', 'r', 'e', 'd',
        ]),
{
    reveal_strlit("\n- id='");
    assert("\n- id='"@ =~= seq!['\n', '-', ' ', 'i', 'd', '=', '\'']);
    reveal_strlit("' name='");
    assert("' name='"@ =~= seq!['\'', ' ', 'n', 'a', 'm', 'e', '=', '\'']);
    reveal_strlit("' trigger_phrases=");
    assert("' trigger_phrases="@ =~= seq![
        '\'', ' ', 't', 'r', 'i', 'g', 'g', 'e', 'r', '_', 'p', 'h', 'r', 'a', 's', 'e', 's', '=',
    ]);
    assert(t.push(x).drop_last() =~= t);
    let p = action_prompt(t, phrases);
    let base = ACTION_SYSTEM_PROMPT_BASE@;
    let tail = ACTION_SYSTEM_PROMPT_TAIL@;
    assert(p.take(base.len() as int) =~= base);
    assert(p.skip(p.len() - tail.len()) =~= tail);
    if t.len() > 0 {
        let head = "\n\nAvailable format templates:"@;
        law_occurs_in(p, base + head, template_lines(t, phrases), tail);
        assert(p =~= base + head + template_lines(t, phrases) + tail);
    } else {
        let none =
            "\n\nAvailable format templates: (none configured — do not classify as format_text)"@;
        reveal_strlit(
            "\n\nAvailable format templates: (none configured — do not classify as format_text)",
        );
        let front = none.take(30);
        let back = none.skip(46);
        let said = seq![
            '(', 'n', 'o', 'n', 'e', ' ', 'c', 'o', 'n', 'f', 'i', 'g', 'u', 'r', 'e', 'd',
        ];
        assert(none =~= front + said + back);
        assert(p =~= base + front + said + (back + tail));
        law_occurs_in(p, base + front, said, back + tail);
    }
}

/// Asking again repeats what was dictated and says what was wrong with the answer.
pub proof fn law_asking_again_repeats_the_question(transcript: Seq<char>, problem: Seq<char>)
    ensures
        begins_with(retry_text(transcript, problem), transcript),
        occurs_in(retry_text(transcript, problem), problem),
{
    let r = retry_text(transcript, problem);
    let m = "\n\n(Your previous response failed to parse: "@;
    let e =
        ". Respond ONLY with a single JSON object matching the action schema. No prose, no code fences.)"@;
    assert(r.take(transcript.len() as int) =~= transcript);
    law_occurs_in(r, transcript + m, problem, e);
}

/// An error is told by where it arose, in front of what is known of it.
pub proof fn law_errors_tell_where_they_arose(e: ActionError)
    ensures
        e matches ActionError::Llm(d) ==> e.text() == seq![
            'l', 'l', 'm', ' ', 'e', 'r', 'r', 'o', 'r', ':', ' ',
        ] + d@,
        e matches ActionError::Parse(d) ==> e.text() == seq![
            'j', 's', 'o', 'n', ' ', 'p', 'a', 'r', 's', 'i', 'n', 'g', ' ', 'f', 'a', 'i', 'l',
            'e', 'd', ':', ' ',
        ] + d@,
        e matches ActionError::Execute(d) ==> e.text() == seq![
            'e', 'x', 'e', 'c', 'u', 't', 'i', 'o', 'n', ' ', 'f', 'a', 'i', 'l', 'e', 'd', ':',
            ' ',
        ] + d@,
        e matches ActionError::Settings(d) ==> e.text() == seq![
            's', 'e', 't', 't', 'i', 'n', 'g', 's', ' ', 'e', 'r', 'r', 'o', 'r', ':', ' ',
        ] + d@,
{
    reveal_strlit("llm error: ");
    assert("llm error: "@ =~= seq!['l', 'l', 'm', ' ', 'e', 'r', 'r', 'o', 'r', ':', ' ']);
    reveal_strlit("json parsing failed: ");
    assert("json parsing failed: "@ =~= seq![
        'j', 's', 'o', 'n', ' ', 'p', 'a', 'r', 's', 'i', 'n', 'g', ' ', 'f', 'a', 'i', 'l', 'e',
        'd', ':', ' ',
    ]);
    reveal_strlit("execution failed: ");
    assert("execution failed: "@ =~= seq![
        'e', 'x', 'e', 'c', 'u', 't', 'i', 'o', 'n', ' ', 'f', 'a', 'i', 'l', 'e', 'd', ':', ' ',
    ]);
    reveal_strlit("settings error: ");
    assert("settings error: "@ =~= seq![
        's', 'e', 't', 't', 'i', 'n', 'g', 's', ' ', 'e', 'r', 'r', 'o', 'r', ':', ' ',
    ]);
}

/// The classifier has room for an eighth of its context in its answer, formatting for a quarter.
pub proof fn law_answers_fit_their_context()
    ensures
        ACTION_CONTEXT == 8 * ACTION_MAX_TOKENS,
        FORMAT_CONTEXT == 4 * FORMAT_MAX_TOKENS,
        FORMAT_CONTEXT == 2 * ACTION_CONTEXT,
        ACTION_MAX_TOKENS == 256,
{
}

/// The first and the last place of a sign are told by what stands before and behind: nothing of it.
pub proof fn law_first_and_last_places(a: Seq<char>, c: char, b: Seq<char>, k: int)
    ensures
        !a.contains(c) ==> (is_first(a + seq![c] + b, c, k) <==> k == a.len()),
        !b.contains(c) ==> (is_last(a + seq![c] + b, c, k) <==> k == a.len()),
{
    let s = a + seq![c] + b;
    let n: int = a.len() as int;
    assert(s[n] == c);
    if !a.contains(c) {
        assert forall|i: int| 0 <= i < n implies #[trigger] s[i] != c by {
            assert(s[i] == a[i]);
            if a[i] == c {
                assert(a.contains(c));
            }
        }
    }
    if !b.contains(c) {
        assert forall|i: int| n < i < s.len() implies #[trigger] s[i] != c by {
            assert(s[i] == b[i - n - 1]);
            if b[i - n - 1] == c {
                assert(b.contains(c));
            }
        }
    }
}

} // verus!
