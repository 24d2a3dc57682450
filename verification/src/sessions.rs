//! Transcripts of coding sessions: files of JSON lines, one message to a line.
use vstd::prelude::*;
use vstd::string::*;

use crate::json::{json_tree, parse_json, trees, Json, JsonTree};
use crate::order::{before, comes_before, lemma_before_total};
use crate::paths::{
    dot_at, extension, extension_of, file_stem, is_last_dot, is_plain_name,
    law_name_is_stem_and_extension, law_name_is_the_last_part, place, placed, stem_of,
};
use crate::search::{first_chars, law_replaced_signs, replace, replaced, take_chars};
use crate::split::{join, joined, lines, lines_of};
use crate::text::{
    chars_of, glue, is_ascii_alnum, opt_str, opt_text, same, same_opt, texts,
};

verus! {

/// What is shown of a session in a list.
#[derive(Debug)]
pub struct ClaudeSessionSummary {
    pub session_id: String,
    pub preview: String,
    pub message_count: usize,
    pub timestamp: String,
}

/// A summary as plain values.
pub struct SummaryText {
    pub session_id: Seq<char>,
    pub preview: Seq<char>,
    pub message_count: nat,
    pub timestamp: Seq<char>,
}

impl View for ClaudeSessionSummary {
    type V = SummaryText;

    open spec fn view(&self) -> SummaryText {
        SummaryText {
            session_id: self.session_id@,
            preview: self.preview@,
            message_count: self.message_count as nat,
            timestamp: self.timestamp@,
        }
    }
}

/// Summaries as plain values.
pub open spec fn summary_texts(v: Seq<ClaudeSessionSummary>) -> Seq<SummaryText> {
    v.map_values(|s: ClaudeSessionSummary| s@)
}

/// A message of a session.
#[derive(Debug)]
pub struct ClaudeSessionMessage {
    pub role: String,
    pub content: String,
    pub timestamp: String,
}

// ----- where sessions are -----

/// Where the sessions of a working directory are, below the folder of the tool that keeps them.
pub open spec fn sessions_place(store: Seq<char>, cwd: Seq<char>) -> Seq<char> {
    placed(placed(placed(store, "projects"@), replaced(cwd, "/"@, "-"@)), ".sessions"@)
}

/// Where the sessions of a working directory are, below the folder of the tool that keeps them: the
/// directory's path, with dashes for slashes, names the folder.
pub fn sessions_dir_for(store: &str, cwd: &str) -> (r: String)
    ensures
        r@ == sessions_place(store@, cwd@),
{
    proof {
        reveal_strlit("/");
    }
    let encoded = replace(cwd, "/", "-");
    let projects = place(store, "projects");
    let own = place(projects.as_str(), encoded.as_str());
    place(own.as_str(), ".sessions")
}

/// A name with a dash for every character that is neither an ASCII letter nor a digit.
pub open spec fn dashed(s: Seq<char>) -> Seq<char> {
    s.map_values(
        |c: char|
            if is_ascii_alnum(c) {
                c
            } else {
                '-'
            },
    )
}

fn dash(s: &str) -> (r: String)
    ensures
        r@ == dashed(s@),
{
    let v = chars_of(s);
    let mut out = String::new();
    let mut i: usize = 0;
    while i < v.len()
        invariant
            i <= v@.len(),
            out@ == dashed(v@).take(i as int),
        decreases v@.len() - i,
    {
        let c = v[i];
        let plain = ('a' <= c && c <= 'z') || ('A' <= c && c <= 'Z') || ('0' <= c && c <= '9');
        if plain {
            out.push(c);
        } else {
            out.push('-');
        }
        assert(dashed(v@).take(i + 1) == dashed(v@).take(i as int).push(dashed(v@)[i as int]));
        i = i + 1;
    }
    assert(dashed(v@).take(i as int) == dashed(v@));
    out
}

/// Whether a project's folder is named after a working directory. Whichever signs the tool writes
/// as dashes, all but letters and digits are read as one.
pub fn is_project_of(folder_name: &str, cwd: &str) -> (r: bool)
    ensures
        r == (dashed(folder_name@) == dashed(cwd@)),
{
    let a = dash(folder_name);
    let b = dash(cwd);
    same(a.as_str(), b.as_str())
}

/// The id of the session that a file holds; only files that end in `.jsonl` hold one.
pub open spec fn session_in(path: Seq<char>) -> Option<Seq<char>> {
    if extension_of(path) == Some("jsonl"@) {
        match stem_of(path) {
            Some(s) if s.len() > 0 => Some(s),
            _ => None,
        }
    } else {
        None
    }
}

/// The id of the session that a file holds.
pub fn session_id_of(path: &str) -> (r: Option<String>)
    ensures
        opt_text(r) == session_in(path@),
{
    match extension(path) {
        Some(e) => if same(e.as_str(), "jsonl") {
            match file_stem(path) {
                Some(s) => if s.as_str().is_empty() {
                    None
                } else {
                    Some(s)
                },
                None => None,
            }
        } else {
            None
        },
        None => None,
    }
}

/// The name of the file that holds a session.
pub fn session_file_name(session_id: &str) -> (r: String)
    ensures
        r@ == session_id@ + ".jsonl"@,
{
    glue(session_id, ".jsonl")
}

/// A folder's name and a directory's path have the same signs in the same places: letters and digits
/// as they are, and a dash for each other sign.
pub proof fn law_dashes_stand_for_signs(s: Seq<char>, i: int)
    requires
        0 <= i < s.len(),
    ensures
        dashed(s).len() == s.len(),
        is_ascii_alnum(s[i]) ==> dashed(s)[i] == s[i],
        !is_ascii_alnum(s[i]) ==> dashed(s)[i] == '-',
        dashed(dashed(s)) == dashed(s),
{
    assert(dashed(dashed(s)) =~= dashed(s));
}

/// The sessions of a directory are in a folder that is named after it, with a dash for each slash,
/// among the projects of the tool that keeps them.
pub proof fn law_sessions_are_kept_by_directory(store: Seq<char>, cwd: Seq<char>)
    requires
        store.len() > 0,
        store.last() != '/',
        cwd.len() > 0,
    ensures
        sessions_place(store, cwd) == store + seq![
            '/', 'p', 'r', 'o', 'j', 'e', 'c', 't', 's', '/',
        ] + cwd.map_values(
            |c: char|
                if c == '/' {
                    '-'
                } else {
                    c
                },
        ) + seq!['/', '.', 's', 'e', 's', 's', 'i', 'o', 'n', 's'],
{
    reveal_strlit("projects");
    assert("projects"@ =~= seq!['p', 'r', 'o', 'j', 'e', 'c', 't', 's']);
    reveal_strlit("/");
    assert("/"@ =~= seq!['/']);
    reveal_strlit("-");
    assert("-"@ =~= seq!['-']);
    reveal_strlit(".sessions");
    assert(".sessions"@ =~= seq!['.', 's', 'e', 's', 's', 'i', 'o', 'n', 's']);
    let enc = replaced(cwd, "/"@, "-"@);
    let named = cwd.map_values(
        |c: char|
            if c == '/' {
                '-'
            } else {
                c
            },
    );
    law_replaced_signs(cwd, '/', '-');
    assert(enc =~= named);
    let a = placed(store, "projects"@);
    assert(a =~= store + seq!['/', 'p', 'r', 'o', 'j', 'e', 'c', 't', 's']);
    assert(a.last() == 's');
    assert(enc[0] != '/');
    let b = placed(a, enc);
    assert(b =~= a + "/"@ + enc);
    assert(b.last() == enc.last());
    assert(enc.last() != '/') by {
        assert(enc[enc.len() - 1] == enc.last());
    }
    assert(sessions_place(store, cwd) =~= store + seq![
        '/', 'p', 'r', 'o', 'j', 'e', 'c', 't', 's', '/',
    ] + named + seq![
        '/', '.', 's', 'e', 's', 's', 'i', 'o', 'n', 's',
    ]);
}

/// A session is in the file that is named after it and ends in `.jsonl`; no other file holds one.
pub proof fn law_session_is_named_by_its_file(id: Seq<char>, name: Seq<char>)
    requires
        is_plain_name(name),
    ensures
        id.len() > 0 && name == id + seq!['.', 'j', 's', 'o', 'n', 'l'] ==> session_in(name) == Some(id),
        session_in(name) == Some(id) ==> name == id + seq!['.', 'j', 's', 'o', 'n', 'l'],
{
    reveal_strlit("jsonl");
    assert("jsonl"@ =~= seq!['j', 's', 'o', 'n', 'l']);
    reveal_strlit(".jsonl");
    assert(".jsonl"@ =~= seq!['.', 'j', 's', 'o', 'n', 'l']);
    let ext = "jsonl"@;
    if id.len() > 0 && name == id + seq!['.', 'j', 's', 'o', 'n', 'l'] {
        assert(name =~= id + seq!['.'] + ext);
        assert(!ext.contains('.')) by {
            if ext.contains('.') {
                let i = choose|i: int| 0 <= i < ext.len() && ext[i] == '.';
                assert(ext[i] == '.');
            }
        }
        law_name_is_stem_and_extension(name, name, id, ext);
    }
    if session_in(name) == Some(id) {
        law_name_is_the_last_part(name, name);
        let k = dot_at(name)->0;
        let d = choose|d: int| is_last_dot(name, d) && d > 0;
        assert(is_last_dot(name, k));
        assert(name.skip(k + 1) == ext);
        assert(name.take(k) == id);
        assert(name =~= name.take(k) + seq![name[k]] + name.skip(k + 1));
        assert(name =~= id + seq!['.', 'j', 's', 'o', 'n', 'l']);
    }
}

// ----- reading messages -----

/// The text of one part of a message, where it is a text.
pub open spec fn part_text(t: JsonTree) -> Option<Seq<char>> {
    if t.member_text("type"@) == Some("text"@) {
        t.member_text("text"@)
    } else {
        None
    }
}

/// The texts among the parts of a message.
pub open spec fn part_texts(s: Seq<JsonTree>) -> Seq<Seq<char>>
    decreases s.len(),
{
    if s.len() == 0 {
        Seq::empty()
    } else {
        match part_text(s.last()) {
            Some(t) => part_texts(s.drop_last()).push(t),
            None => part_texts(s.drop_last()),
        }
    }
}

/// The text of some content: the content itself where it is a text, its text parts with `sep`
/// between them where it is a list, nothing otherwise.
pub open spec fn content_text(content: JsonTree, sep: Seq<char>) -> Seq<char> {
    match content {
        JsonTree::Text(s) => s,
        JsonTree::List(parts) => joined(part_texts(parts), sep),
        _ => Seq::empty(),
    }
}

fn collect_part_texts(parts: &Vec<Json>) -> (r: Vec<String>)
    ensures
        texts(r@) == part_texts(trees(parts@)),
{
    let ghost all = trees(parts@);
    let mut out: Vec<String> = Vec::new();
    let mut i: usize = 0;
    assert(texts(out@) == part_texts(all.take(0)));
    while i < parts.len()
        invariant
            i <= parts@.len(),
            all == trees(parts@),
            texts(out@) == part_texts(all.take(i as int)),
        decreases parts@.len() - i,
    {
        proof {
            assert(all.take(i + 1).drop_last() == all.take(i as int));
            assert(all.take(i + 1).last() == parts@[i as int]@);
        }
        if same_opt(parts[i].get_text("type"), Some("text")) {
            if let Some(t) = parts[i].get_text("text") {
                let ghost was = texts(out@);
                out.push(t.to_owned());
                assert(texts(out@) == was.push(t@));
            }
        }
        i = i + 1;
    }
    assert(all.take(i as int) == all);
    out
}

fn extract_text(content: &Json, sep: &str) -> (r: String)
    ensures
        r@ == content_text(content@, sep@),
{
    match content {
        Json::Text(s) => s.clone(),
        Json::List(parts) => {
            assert(content@->List_0 == trees(parts@));
            let found = collect_part_texts(parts);
            join(&found, sep)
        },
        _ => String::new(),
    }
}

/// A message as plain texts: who spoke, what, and when.
pub open spec fn message_of(t: JsonTree) -> (Seq<char>, Seq<char>, Seq<char>) {
    let role = match t.member_text("role"@) {
        Some(r) => r,
        None => "unknown"@,
    };
    let content = match t.member("content"@) {
        Some(c) => content_text(c, "\n"@),
        None => Seq::empty(),
    };
    let timestamp = match t.member_text("timestamp"@) {
        Some(x) => x,
        None => Seq::empty(),
    };
    (role, content, timestamp)
}

/// The documents that lines hold; a line that is no JSON holds none.
pub open spec fn documents(l: Seq<Seq<char>>) -> Seq<JsonTree>
    decreases l.len(),
{
    if l.len() == 0 {
        Seq::empty()
    } else {
        match json_tree(l.last()) {
            Some(t) => documents(l.drop_last()).push(t),
            None => documents(l.drop_last()),
        }
    }
}

/// The messages in documents: those that say anything.
pub open spec fn messages_in(docs: Seq<JsonTree>) -> Seq<(Seq<char>, Seq<char>, Seq<char>)>
    decreases docs.len(),
{
    if docs.len() == 0 {
        Seq::empty()
    } else {
        let m = message_of(docs.last());
        if m.1.len() > 0 {
            messages_in(docs.drop_last()).push(m)
        } else {
            messages_in(docs.drop_last())
        }
    }
}

/// Messages as plain texts.
pub open spec fn message_texts(v: Seq<ClaudeSessionMessage>) -> Seq<
    (Seq<char>, Seq<char>, Seq<char>),
> {
    v.map_values(|m: ClaudeSessionMessage| (m.role@, m.content@, m.timestamp@))
}

/// The documents in the lines of a file.
pub fn parse_lines(l: &Vec<String>) -> (r: Vec<Json>)
    ensures
        trees(r@) == documents(texts(l@)),
{
    let ghost all = texts(l@);
    let mut out: Vec<Json> = Vec::new();
    let mut i: usize = 0;
    assert(trees(out@) == documents(all.take(0)));
    while i < l.len()
        invariant
            i <= l@.len(),
            all == texts(l@),
            trees(out@) == documents(all.take(i as int)),
        decreases l@.len() - i,
    {
        proof {
            assert(all.take(i + 1).drop_last() == all.take(i as int));
            assert(all.take(i + 1).last() == l@[i as int]@);
        }
        if let Some(j) = parse_json(l[i].as_str()) {
            let ghost was = trees(out@);
            out.push(j);
            assert(trees(out@) == was.push(j@));
        }
        i = i + 1;
    }
    assert(all.take(i as int) == all);
    out
}

fn text_or(o: Option<&str>, other: &str) -> (r: String)
    ensures
        r@ == (match opt_str(o) {
            Some(s) => s,
            None => other@,
        }),
{
    match o {
        Some(s) => s.to_owned(),
        None => other.to_owned(),
    }
}

/// The messages in documents: those that say anything.
pub fn read_messages(docs: &Vec<Json>) -> (r: Vec<ClaudeSessionMessage>)
    ensures
        message_texts(r@) == messages_in(trees(docs@)),
{
    proof {
        reveal_strlit("");
    }
    let ghost all = trees(docs@);
    let mut out: Vec<ClaudeSessionMessage> = Vec::new();
    let mut i: usize = 0;
    assert(message_texts(out@) == messages_in(all.take(0)));
    while i < docs.len()
        invariant
            i <= docs@.len(),
            all == trees(docs@),
            ""@ == Seq::<char>::empty(),
            message_texts(out@) == messages_in(all.take(i as int)),
        decreases docs@.len() - i,
    {
        proof {
            assert(all.take(i + 1).drop_last() == all.take(i as int));
            assert(all.take(i + 1).last() == docs@[i as int]@);
        }
        let role = text_or(docs[i].get_text("role"), "unknown");
        let timestamp = text_or(docs[i].get_text("timestamp"), "");
        let content = match docs[i].get("content") {
            Some(c) => extract_text(c, "\n"),
            None => String::new(),
        };
        if !content.as_str().is_empty() {
            let ghost was = message_texts(out@);
            out.push(ClaudeSessionMessage { role, content, timestamp });
            assert(message_texts(out@) == was.push((role@, content@, timestamp@)));
        }
        i = i + 1;
    }
    assert(all.take(i as int) == all);
    out
}

/// The messages of a session, from the text of its file.
pub fn load_claude_session(content: &str) -> (r: Vec<ClaudeSessionMessage>)
    ensures
        message_texts(r@) == messages_in(documents(lines_of(content@))),
{
    let l = lines(content);
    read_messages(&parse_lines(&l))
}

/// What a document says: the text under `content`, or the texts of its parts on lines of their own.
pub open spec fn said_in(d: JsonTree) -> Seq<char> {
    match d.member(seq!['c', 'o', 'n', 't', 'e', 'n', 't']) {
        Some(c) => content_text(c, seq!['\n']),
        None => Seq::empty(),
    }
}

/// Every document that says something is a message, in its place, whoever says it; a document that
/// says nothing is none. A message has the document's own role and time, the role being `unknown`
/// and the time empty where the document names none.
pub proof fn law_every_text_is_a_message(docs: Seq<JsonTree>, d: JsonTree)
    ensures
        messages_in(Seq::empty()).len() == 0,
        said_in(d).len() == 0 ==> messages_in(docs.push(d)) == messages_in(docs),
        said_in(d).len() > 0 ==> {
            let m = messages_in(docs.push(d));
            &&& m.len() == messages_in(docs).len() + 1
            &&& m.drop_last() == messages_in(docs)
            &&& m.last().1 == said_in(d)
            &&& d.member_text(seq!['r', 'o', 'l', 'e']) matches Some(r) ==> m.last().0 == r
            &&& d.member_text(seq!['r', 'o', 'l', 'e']) is None ==> m.last().0 == seq!['u', 'n', 'k', 'n', 'o', 'w', 'n']
            &&& d.member_text(seq![
                't', 'i', 'm', 'e', 's', 't', 'a', 'm', 'p',
            ]) matches Some(t) ==> m.last().2 == t
            &&& d.member_text(seq![
                't', 'i', 'm', 'e', 's', 't', 'a', 'm', 'p',
            ]) is None ==> m.last().2.len() == 0
        },
{
    reveal_strlit("content");
    assert("content"@ =~= seq!['c', 'o', 'n', 't', 'e', 'n', 't']);
    reveal_strlit("role");
    assert("role"@ =~= seq!['r', 'o', 'l', 'e']);
    reveal_strlit("unknown");
    assert("unknown"@ =~= seq!['u', 'n', 'k', 'n', 'o', 'w', 'n']);
    reveal_strlit("timestamp");
    assert("timestamp"@ =~= seq!['t', 'i', 'm', 'e', 's', 't', 'a', 'm', 'p']);
    reveal_strlit("\n");
    assert("\n"@ =~= seq!['\n']);
    assert(docs.push(d).drop_last() == docs);
    assert(messages_in(docs).push(message_of(d)).drop_last() == messages_in(docs));
}

/// There are as many messages as documents that say something.
pub proof fn law_messages_are_counted(docs: Seq<JsonTree>)
    ensures
        messages_in(docs).len() == docs.filter(|d: JsonTree| said_in(d).len() > 0).len(),
    decreases docs.len(),
{
    reveal(Seq::filter);
    if docs.len() > 0 {
        law_messages_are_counted(docs.drop_last());
        law_every_text_is_a_message(docs.drop_last(), docs.last());
        assert(docs.drop_last().push(docs.last()) == docs);
    }
}

/// Whether a document is a message depends on its content alone, and so does what the message says.
pub proof fn law_role_decides_nothing(docs: Seq<JsonTree>, a: JsonTree, b: JsonTree)
    requires
        a.member(seq!['c', 'o', 'n', 't', 'e', 'n', 't']) == b.member(seq!['c', 'o', 'n', 't', 'e', 'n', 't']),
    ensures
        messages_in(docs.push(a)).len() == messages_in(docs.push(b)).len(),
        messages_in(docs.push(a)).len() > messages_in(docs).len() ==> messages_in(
            docs.push(a),
        ).last().1 == messages_in(docs.push(b)).last().1,
{
    law_every_text_is_a_message(docs, a);
    law_every_text_is_a_message(docs, b);
}

/// The text of a content is the content where it is a text. Of a list, every part of the type `text`
/// gives its text, in order, with the separator between two; parts of other types give nothing, and
/// so does any other content.
pub proof fn law_content_is_its_texts(s: Seq<char>, parts: Seq<JsonTree>, p: JsonTree, sep: Seq<char>)
    ensures
        content_text(JsonTree::Text(s), sep) == s,
        content_text(JsonTree::List(Seq::empty()), sep).len() == 0,
        ({
            let is_text = p.member_text(seq!['t', 'y', 'p', 'e']) == Some(seq!['t', 'e', 'x', 't']) && p.member_text(seq!['t', 'e', 'x', 't']) is Some;
            let before = content_text(JsonTree::List(parts), sep);
            content_text(JsonTree::List(parts.push(p)), sep) == (if !is_text {
                before
            } else if part_texts(parts).len() == 0 {
                p.member_text(seq!['t', 'e', 'x', 't'])->0
            } else {
                before + sep + p.member_text(seq!['t', 'e', 'x', 't'])->0
            })
        }),
        p matches JsonTree::Text(t) || p is List || content_text(p, sep).len() == 0,
{
    reveal_strlit("type");
    assert("type"@ =~= seq!['t', 'y', 'p', 'e']);
    reveal_strlit("text");
    assert("text"@ =~= seq!['t', 'e', 'x', 't']);
    assert(parts.push(p).drop_last() == parts);
    if let Some(t) = part_text(p) {
        let all = part_texts(parts).push(t);
        assert(all.drop_last() == part_texts(parts));
        assert(all.last() == t);
    }
}

/// Every line that is JSON is a document, in its place; a line that is not is passed over.
pub proof fn law_every_line_is_read(l: Seq<Seq<char>>, line: Seq<char>)
    ensures
        documents(Seq::empty()).len() == 0,
        json_tree(line) matches Some(t) ==> documents(l.push(line)) == documents(l).push(t),
        json_tree(line) is None ==> documents(l.push(line)) == documents(l),
{
    assert(l.push(line).drop_last() == l);
}

// ----- summaries -----

/// The first timestamp that is not empty.
pub open spec fn first_timestamp(docs: Seq<JsonTree>) -> Seq<char>
    decreases docs.len(),
{
    if docs.len() == 0 {
        Seq::empty()
    } else {
        match docs[0].member_text("timestamp"@) {
            Some(t) if t.len() > 0 => t,
            _ => first_timestamp(docs.drop_first()),
        }
    }
}

/// What the user says in a document, shortened to a hundred characters.
pub open spec fn user_text(t: JsonTree) -> Seq<char> {
    let role = t.member_text("role"@);
    if role == Some("human"@) || role == Some("user"@) {
        match t.member("content"@) {
            Some(c) => first_chars(content_text(c, " "@), 100),
            None => Seq::empty(),
        }
    } else {
        Seq::empty()
    }
}

/// The first thing that the user says.
pub open spec fn first_user_text(docs: Seq<JsonTree>) -> Seq<char>
    decreases docs.len(),
{
    if docs.len() == 0 {
        Seq::empty()
    } else if user_text(docs[0]).len() > 0 {
        user_text(docs[0])
    } else {
        first_user_text(docs.drop_first())
    }
}

fn extract_user_text(j: &Json) -> (r: String)
    ensures
        r@ == user_text(j@),
{
    let role = j.get_text("role");
    if same_opt(role, Some("human")) || same_opt(role, Some("user")) {
        match j.get("content") {
            Some(c) => {
                let t = extract_text(c, " ");
                take_chars(t.as_str(), 100)
            },
            None => String::new(),
        }
    } else {
        String::new()
    }
}

/// The preview and the timestamp of a session, from its documents.
pub fn preview_and_timestamp(docs: &Vec<Json>) -> (r: (String, String))
    ensures
        r.0@ == first_user_text(trees(docs@)),
        r.1@ == first_timestamp(trees(docs@)),
{
    let ghost all = trees(docs@);
    let mut preview = String::new();
    let mut timestamp = String::new();
    let mut i: usize = 0;
    assert(all.skip(0) == all);
    while i < docs.len() && (preview.as_str().is_empty() || timestamp.as_str().is_empty())
        invariant
            i <= docs@.len(),
            all == trees(docs@),
            preview@.len() == 0 ==> first_user_text(all) == first_user_text(all.skip(i as int)),
            preview@.len() > 0 ==> first_user_text(all) == preview@,
            timestamp@.len() == 0 ==> first_timestamp(all) == first_timestamp(all.skip(i as int)),
            timestamp@.len() > 0 ==> first_timestamp(all) == timestamp@,
        decreases docs@.len() - i,
    {
        proof {
            assert(all.skip(i as int)[0] == docs@[i as int]@);
            assert(all.skip(i as int).drop_first() == all.skip(i + 1));
        }
        if timestamp.as_str().is_empty() {
            if let Some(t) = docs[i].get_text("timestamp") {
                timestamp = t.to_owned();
            }
        }
        if preview.as_str().is_empty() {
            preview = extract_user_text(&docs[i]);
        }
        i = i + 1;
    }
    proof {
        if i == docs@.len() {
            assert(all.skip(i as int).len() == 0);
        }
    }
    (preview, timestamp)
}

/// What the user says is the content of a document whose role is `human` or `user`, its parts with
/// spaces between them, cut off behind a hundred characters. Documents of other roles do not count.
pub proof fn law_user_speaks_for_themselves(d: JsonTree)
    ensures
        d.member_text(seq!['r', 'o', 'l', 'e']) != Some(seq!['h', 'u', 'm', 'a', 'n']) && d.member_text(seq!['r', 'o', 'l', 'e']) != Some(seq!['u', 's', 'e', 'r'])
            ==> user_text(d).len() == 0,
        (d.member_text(seq!['r', 'o', 'l', 'e']) == Some(seq!['h', 'u', 'm', 'a', 'n']) || d.member_text(seq!['r', 'o', 'l', 'e']) == Some(seq!['u', 's', 'e', 'r']))
            ==> (d.member(seq!['c', 'o', 'n', 't', 'e', 'n', 't']) matches Some(c) ==> {
            let whole = content_text(c, seq![' ']);
            &&& user_text(d).is_prefix_of(whole)
            &&& user_text(d).len() == 100 || user_text(d) == whole
            &&& user_text(d).len() <= 100
        }),
        d.member(seq!['c', 'o', 'n', 't', 'e', 'n', 't']) is None ==> user_text(d).len() == 0,
{
    reveal_strlit("role");
    assert("role"@ =~= seq!['r', 'o', 'l', 'e']);
    reveal_strlit("human");
    assert("human"@ =~= seq!['h', 'u', 'm', 'a', 'n']);
    reveal_strlit("user");
    assert("user"@ =~= seq!['u', 's', 'e', 'r']);
    reveal_strlit("content");
    assert("content"@ =~= seq!['c', 'o', 'n', 't', 'e', 'n', 't']);
    reveal_strlit(" ");
    assert(" "@ =~= seq![' ']);
}

/// The preview is what the user says first, and the time is the first that is given: documents
/// before it without one, and whatever comes behind it, make no difference.
pub proof fn law_first_of_each_is_shown(docs: Seq<JsonTree>, k: int)
    requires
        0 <= k <= docs.len(),
    ensures
        (forall|j: int| 0 <= j < k ==> user_text(#[trigger] docs[j]).len() == 0) ==> {
            &&& k == docs.len() ==> first_user_text(docs).len() == 0
            &&& k < docs.len() && user_text(docs[k]).len() > 0 ==> first_user_text(docs)
                == user_text(docs[k])
        },
        (forall|j: int|
            0 <= j < k ==> ((#[trigger] docs[j]).member_text(seq![
                't', 'i', 'm', 'e', 's', 't', 'a', 'm', 'p',
            ]) matches Some(t)
                ==> t.len() == 0)) ==> {
            &&& k == docs.len() ==> first_timestamp(docs).len() == 0
            &&& k < docs.len() ==> (docs[k].member_text(seq![
                't', 'i', 'm', 'e', 's', 't', 'a', 'm', 'p',
            ]) matches Some(t) ==> (t.len()
                > 0 ==> first_timestamp(docs) == t))
        },
    decreases docs.len(),
{
    reveal_strlit("timestamp");
    assert("timestamp"@ =~= seq!['t', 'i', 'm', 'e', 's', 't', 'a', 'm', 'p']);
    if docs.len() > 0 && k > 0 {
        let rest = docs.drop_first();
        assert forall|j: int| 0 <= j < k - 1 implies rest[j] == #[trigger] docs[j + 1] by {}
        law_first_of_each_is_shown(rest, k - 1);
        if forall|j: int| 0 <= j < k ==> user_text(#[trigger] docs[j]).len() == 0 {
            assert(user_text(docs[0]).len() == 0);
            assert forall|j: int| 0 <= j < k - 1 implies user_text(#[trigger] rest[j]).len() == 0 by {
                assert(rest[j] == docs[j + 1]);
            }
        }
        if forall|j: int|
            0 <= j < k ==> ((#[trigger] docs[j]).member_text(seq![
                't', 'i', 'm', 'e', 's', 't', 'a', 'm', 'p',
            ]) matches Some(t)
                ==> t.len() == 0) {
            assert(docs[0].member_text(seq![
                't', 'i', 'm', 'e', 's', 't', 'a', 'm', 'p',
            ]) matches Some(t) ==> t.len() == 0);
            assert forall|j: int| 0 <= j < k - 1 implies ((#[trigger] rest[j]).member_text(
                seq!['t', 'i', 'm', 'e', 's', 't', 'a', 'm', 'p'],
            ) matches Some(t) ==> t.len() == 0) by {
                assert(rest[j] == docs[j + 1]);
            }
        }
    }
}

/// The summary of a session, from the text of its file; a file without lines has none.
pub open spec fn summary_of(session_id: Seq<char>, content: Seq<char>) -> Option<SummaryText> {
    let docs = documents(lines_of(content));
    if lines_of(content).len() == 0 {
        None
    } else {
        Some(
            SummaryText {
                session_id,
                preview: first_user_text(docs),
                message_count: lines_of(content).len(),
                timestamp: first_timestamp(docs),
            },
        )
    }
}

/// The summary of a session, from the text of its file; a file without lines has none.
pub fn summarize_session(session_id: String, content: &str) -> (r: Option<ClaudeSessionSummary>)
    ensures
        match r {
            Some(s) => summary_of(session_id@, content@) == Some(s@),
            None => summary_of(session_id@, content@) is None,
        },
{
    let l = lines(content);
    assert(texts(l@).len() == l@.len());
    if l.len() == 0 {
        return None;
    }
    let docs = parse_lines(&l);
    let (preview, timestamp) = preview_and_timestamp(&docs);
    Some(ClaudeSessionSummary { session_id, preview, message_count: l.len(), timestamp })
}

/// A session is shown under its own id, counted by the lines of its file, readable or not, and it is
/// shown exactly where its file has a line.
pub proof fn law_summary_counts_lines(session_id: Seq<char>, content: Seq<char>)
    ensures
        summary_of(session_id, content) is None <==> lines_of(content).len() == 0,
        summary_of(session_id, content) matches Some(s) ==> {
            &&& s.session_id == session_id
            &&& s.message_count == lines_of(content).len()
            &&& s.message_count >= documents(lines_of(content)).len()
            &&& s.preview == first_user_text(documents(lines_of(content)))
            &&& s.timestamp == first_timestamp(documents(lines_of(content)))
            &&& s.preview.len() <= 100
        },
{
    lemma_documents_len(lines_of(content));
    lemma_preview_len(documents(lines_of(content)));
}

proof fn lemma_documents_len(l: Seq<Seq<char>>)
    ensures
        documents(l).len() <= l.len(),
    decreases l.len(),
{
    if l.len() > 0 {
        lemma_documents_len(l.drop_last());
    }
}

proof fn lemma_preview_len(docs: Seq<JsonTree>)
    ensures
        first_user_text(docs).len() <= 100,
    decreases docs.len(),
{
    if docs.len() > 0 {
        lemma_preview_len(docs.drop_first());
    }
}

// ----- the order of sessions -----

/// Whether later sessions come first.
pub open spec fn newest_first(v: Seq<SummaryText>) -> bool {
    forall|i: int, j: int|
        0 <= i < j < v.len() ==> !before(
            (#[trigger] v[i]).timestamp,
            (#[trigger] v[j]).timestamp,
        )
}

/// The sessions of one moment, in their order.
pub open spec fn at_moment(v: Seq<SummaryText>, t: Seq<char>) -> Seq<SummaryText> {
    v.filter(is_at(t))
}

/// Tells the sessions of one moment.
pub open spec fn is_at(t: Seq<char>) -> spec_fn(SummaryText) -> bool {
    |s: SummaryText| s.timestamp == t
}

proof fn lemma_none_at(v: Seq<SummaryText>, t: Seq<char>)
    requires
        forall|i: int| 0 <= i < v.len() ==> (#[trigger] v[i]).timestamp != t,
    ensures
        at_moment(v, t).len() == 0,
    decreases v.len(),
{
    reveal(Seq::filter);
    if v.len() > 0 {
        lemma_none_at(v.drop_last(), t);
        assert(v.last() == v[v.len() - 1]);
    }
}

proof fn lemma_at_insert(
    v: Seq<SummaryText>,
    k: int,
    x: SummaryText,
    t: Seq<char>,
)
    requires
        0 <= k <= v.len(),
        forall|i: int| k <= i < v.len() ==> (#[trigger] v[i]).timestamp != x.timestamp,
    ensures
        at_moment(v.insert(k, x), t) == (if x.timestamp == t {
            at_moment(v, t).push(x)
        } else {
            at_moment(v, t)
        }),
{
    let keep = is_at(t);
    let a = v.take(k);
    let b = v.skip(k);
    assert(v == a + b);
    assert(v.insert(k, x) == a.push(x) + b);
    Seq::filter_distributes_over_add(a, b, keep);
    Seq::filter_distributes_over_add(a.push(x), b, keep);
    assert(a.push(x).drop_last() == a);
    reveal(Seq::filter);
    if x.timestamp == t {
        assert forall|i: int| 0 <= i < b.len() implies (#[trigger] b[i]).timestamp != t by {
            assert(b[i] == v[k + i]);
        }
        lemma_none_at(b, t);
        assert(keep(x) && a.push(x).last() == x);
        assert(a.push(x).filter(keep) == a.filter(keep).push(x));
        assert(at_moment(v.insert(k, x), t) == a.filter(keep).push(x) + b.filter(keep));
        assert(at_moment(v.insert(k, x), t) =~= at_moment(v, t).push(x));
    } else {
        assert(!keep(x) && a.push(x).last() == x);
        assert(a.push(x).filter(keep) == a.filter(keep));
    }
}

/// Puts a session in its place: behind all that are as new, before the first that is older.
fn insert_newest_first(list: &mut Vec<ClaudeSessionSummary>, x: ClaudeSessionSummary)
    requires
        newest_first(summary_texts(old(list)@)),
    ensures
        newest_first(summary_texts(final(list)@)),
        forall|t: Seq<char>| #[trigger]
            at_moment(summary_texts(final(list)@), t) == (if x@.timestamp == t {
                at_moment(summary_texts(old(list)@), t).push(x@)
            } else {
                at_moment(summary_texts(old(list)@), t)
            }),
{
    let ghost was = summary_texts(list@);
    let mut k: usize = 0;
    while k < list.len() && !comes_before(list[k].timestamp.as_str(), x.timestamp.as_str())
        invariant
            k <= list@.len(),
            summary_texts(list@) == was,
            forall|i: int| 0 <= i < k ==> !before((#[trigger] was[i]).timestamp, x@.timestamp),
        decreases list@.len() - k,
    {
        assert(was[k as int] == list@[k as int]@);
        k = k + 1;
    }
    proof {
        if k < list@.len() {
            assert(was[k as int] == list@[k as int]@);
        }
        assert forall|i: int| k <= i < was.len() implies before(
            (#[trigger] was[i]).timestamp,
            x@.timestamp,
        ) by {
            if i > k {
                let p = was[k as int].timestamp;
                let q = was[i].timestamp;
                assert(!before(p, q));
                crate::order::lemma_before_total(p, q);
                if p != q {
                    crate::order::lemma_before_transitive(q, p, x@.timestamp);
                }
            }
        }
        assert forall|i: int| k <= i < was.len() implies (#[trigger] was[i]).timestamp
            != x@.timestamp by {
            crate::order::lemma_before_irreflexive(x@.timestamp);
        }
        assert forall|t: Seq<char>| #[trigger]
            at_moment(was.insert(k as int, x@), t) == (if x@.timestamp == t {
                at_moment(was, t).push(x@)
            } else {
                at_moment(was, t)
            }) by {
            lemma_at_insert(was, k as int, x@, t);
        }
    }
    let ghost shown = x@;
    list.insert(k, x);
    proof {
        let now = summary_texts(list@);
        assert(now == was.insert(k as int, shown));
        assert forall|i: int, j: int| 0 <= i < j < now.len() implies !before(
            (#[trigger] now[i]).timestamp,
            (#[trigger] now[j]).timestamp,
        ) by {
            if j < k {
                assert(now[i] == was[i] && now[j] == was[j]);
            } else if j == k {
                assert(now[i] == was[i]);
            } else if i == k {
                assert(now[j] == was[j - 1]);
                crate::order::lemma_before_asymmetric(was[j - 1].timestamp, shown.timestamp);
            } else if i < k {
                assert(now[i] == was[i] && now[j] == was[j - 1]);
            } else {
                assert(now[i] == was[i - 1] && now[j] == was[j - 1]);
            }
        }
    }
}

/// Whether `r` is `list` sorted with the newest first: sessions of the same moment keep their
/// order, and none is lost or added.
pub open spec fn is_newest_first_of(r: Seq<SummaryText>, list: Seq<SummaryText>) -> bool {
    &&& newest_first(r)
    &&& forall|t: Seq<char>| #[trigger] at_moment(r, t) == at_moment(list, t)
}

/// Sorts sessions with the newest first. Sessions of the same moment keep their order, and none is
/// lost or added.
pub fn sort_newest_first(list: Vec<ClaudeSessionSummary>) -> (r: Vec<ClaudeSessionSummary>)
    ensures
        is_newest_first_of(summary_texts(r@), summary_texts(list@)),
{
    let ghost all = summary_texts(list@);
    let mut rest = list;
    let mut out: Vec<ClaudeSessionSummary> = Vec::new();
    let ghost mut n: int = 0;
    proof {
        reveal(Seq::filter);
        assert(all.skip(0) == all);
    }
    while rest.len() > 0
        invariant
            0 <= n <= all.len(),
            summary_texts(rest@) == all.skip(n),
            newest_first(summary_texts(out@)),
            forall|t: Seq<char>| #[trigger]
                at_moment(summary_texts(out@), t) == at_moment(all.take(n), t),
        decreases rest@.len(),
    {
        let ghost was = summary_texts(out@);
        let ghost before_it = summary_texts(rest@);
        let x = rest.remove(0);
        proof {
            assert(before_it.len() > 0);
            assert(all.skip(n).len() == all.len() - n);
            assert(before_it[0] == x@);
            assert(all.skip(n)[0] == all[n]);
            assert(summary_texts(rest@) == before_it.skip(1));
            assert(summary_texts(rest@) == all.skip(n + 1));
        }
        insert_newest_first(&mut out, x);
        proof {
            let upto = all.take(n + 1);
            assert(upto.drop_last() == all.take(n));
            assert(upto.last() == all[n]);
            assert forall|t: Seq<char>| #[trigger]
                at_moment(summary_texts(out@), t) == at_moment(upto, t) by {
                reveal(Seq::filter);
                assert(at_moment(was, t) == at_moment(all.take(n), t));
            }
            n = n + 1;
        }
    }
    assert(all.skip(n).len() == summary_texts(rest@).len());
    assert(all.take(n) == all);
    out
}

// ----- listing sessions -----

/// A file of a sessions folder: its name, and its text where it could be read.
pub struct SessionFile {
    pub name: String,
    pub content: Option<String>,
}

/// The summary of what a file holds. There is none where its name does not end in `.jsonl`, where
/// it could not be read, and where it has no lines.
pub open spec fn summary_in(name: Seq<char>, content: Option<Seq<char>>) -> Option<SummaryText> {
    match (session_in(name), content) {
        (Some(id), Some(text)) => summary_of(id, text),
        _ => None,
    }
}

/// The summaries of what files hold, in the files' order.
pub open spec fn summaries_in(files: Seq<SessionFile>) -> Seq<SummaryText>
    decreases files.len(),
{
    if files.len() == 0 {
        Seq::empty()
    } else {
        match summary_in(files.last().name@, opt_text(files.last().content)) {
            Some(s) => summaries_in(files.drop_last()).push(s),
            None => summaries_in(files.drop_last()),
        }
    }
}

/// The sessions in the files of a folder, the newest first. Sessions of the same moment stand in
/// the order in which the files are given.
pub fn list_claude_sessions(files: &Vec<SessionFile>) -> (r: Vec<ClaudeSessionSummary>)
    ensures
        is_newest_first_of(summary_texts(r@), summaries_in(files@)),
{
    let ghost all = files@;
    let mut found: Vec<ClaudeSessionSummary> = Vec::new();
    let mut i: usize = 0;
    assert(summary_texts(found@) == summaries_in(all.take(0)));
    while i < files.len()
        invariant
            i <= files@.len(),
            all == files@,
            summary_texts(found@) == summaries_in(all.take(i as int)),
        decreases files@.len() - i,
    {
        proof {
            assert(all.take(i + 1).drop_last() == all.take(i as int));
            assert(all.take(i + 1).last() == all[i as int]);
        }
        let file = &files[i];
        if let Some(id) = session_id_of(file.name.as_str()) {
            if let Some(text) = &file.content {
                if let Some(s) = summarize_session(id, text.as_str()) {
                    let ghost was = summary_texts(found@);
                    let ghost shown = s@;
                    found.push(s);
                    assert(summary_texts(found@) == was.push(shown));
                }
            }
        }
        i = i + 1;
    }
    assert(all.take(i as int) == all);
    sort_newest_first(found)
}

/// Of two sessions the later one is listed first, and none is lost, added or changed.
pub proof fn law_later_sessions_come_first(
    r: Seq<SummaryText>,
    list: Seq<SummaryText>,
    i: int,
    j: int,
    s: SummaryText,
)
    requires
        is_newest_first_of(r, list),
        0 <= i < j < r.len(),
    ensures
        r[i].timestamp == r[j].timestamp || before(r[j].timestamp, r[i].timestamp),
        r.contains(s) <==> list.contains(s),
{
    lemma_before_total(r[i].timestamp, r[j].timestamp);
    let keep = is_at(s.timestamp);
    assert(at_moment(r, s.timestamp) == at_moment(list, s.timestamp));
    lemma_kept_at_moment(r, s);
    lemma_kept_at_moment(list, s);
}

proof fn lemma_kept_at_moment(v: Seq<SummaryText>, s: SummaryText)
    ensures
        v.contains(s) <==> at_moment(v, s.timestamp).contains(s),
{
    let keep = is_at(s.timestamp);
    if v.contains(s) {
        let i = choose|i: int| 0 <= i < v.len() && v[i] == s;
        v.lemma_filter_contains(keep, i);
    }
    if at_moment(v, s.timestamp).contains(s) {
        let k = choose|k: int|
            0 <= k < at_moment(v, s.timestamp).len() && at_moment(v, s.timestamp)[k] == s;
        lemma_filter_comes_from(v, keep, k);
    }
}

proof fn lemma_filter_comes_from(v: Seq<SummaryText>, keep: spec_fn(SummaryText) -> bool, k: int)
    requires
        0 <= k < v.filter(keep).len(),
    ensures
        v.contains(v.filter(keep)[k]),
    decreases v.len(),
{
    reveal(Seq::filter);
    if v.len() > 0 {
        let front = v.drop_last();
        if k < front.filter(keep).len() {
            lemma_filter_comes_from(front, keep, k);
            let i = choose|i: int| 0 <= i < front.len() && front[i] == front.filter(keep)[k];
            assert(v[i] == v.filter(keep)[k]);
        } else {
            assert(v[v.len() - 1] == v.filter(keep)[k]);
        }
    }
}

/// Every file that holds a session and could be read is listed, in its place, unless it has no lines;
/// no other file is.
pub proof fn law_every_session_is_listed(files: Seq<SessionFile>, f: SessionFile)
    ensures
        summaries_in(Seq::empty()).len() == 0,
        session_in(f.name@) is None || f.content is None ==> summaries_in(files.push(f))
            == summaries_in(files),
        session_in(f.name@) is Some && f.content is Some ==> {
            let s = summary_of(session_in(f.name@)->0, f.content->0@);
            &&& s is None ==> summaries_in(files.push(f)) == summaries_in(files)
            &&& s matches Some(x) ==> summaries_in(files.push(f)) == summaries_in(files).push(x)
        },
{
    assert(files.push(f).drop_last() =~= files);
}

} // verus!
