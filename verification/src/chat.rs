//! Chatting about what was captured: which words are searched for, what the model is told, and
//! what is shown as the sources of its answer.
use vstd::prelude::*;
use vstd::string::*;
use vstd::utf8::*;

use crate::items::ItemKind;
use crate::search::{
    between_bytes, first_chars, kept, law_bytes_are_those_of_the_encoding,
    law_occurs_in, law_slice_is_what_stands_between, lemma_kept, occurs_in, slice_bytes, take_chars,
};
use crate::split::{join, joined, split_whitespace, words};
use crate::text::{
    byte_len, chars_of, glue3, holds_text, is_alnum, is_alphanumeric, opt_text, same, texts,
};

verus! {

// ----- what is searched for -----

/// A word without everything that is neither a letter nor a digit.
pub open spec fn bare(w: Seq<char>) -> Seq<char> {
    kept(w, |c: char| is_alnum(c))
}

/// The keywords among words, given the bare form of each: the bare forms of the words that have
/// four characters at least, before and after.
pub open spec fn keywords(w: Seq<Seq<char>>, bare_words: Seq<Seq<char>>) -> Seq<Seq<char>>
    decreases w.len(),
{
    if w.len() == 0 {
        Seq::empty()
    } else {
        let so_far = keywords(w.drop_last(), bare_words);
        let b = bare_words[w.len() - 1];
        if w.last().len() >= 4 && b.len() >= 4 {
            so_far.push(b)
        } else {
            so_far
        }
    }
}

/// The first of some texts, six at most.
pub open spec fn first_six(s: Seq<Seq<char>>) -> Seq<Seq<char>> {
    if s.len() <= 6 {
        s
    } else {
        s.take(6)
    }
}

/// Texts in quotes.
pub open spec fn quoted(s: Seq<Seq<char>>) -> Seq<Seq<char>> {
    s.map_values(|t: Seq<char>| "\""@ + t + "\""@)
}

/// The search for any of the keywords among words.
pub open spec fn query_of(w: Seq<Seq<char>>, bare_words: Seq<Seq<char>>) -> Seq<char> {
    joined(quoted(first_six(keywords(w, bare_words))), " OR "@)
}

/// The bare forms of words.
pub open spec fn bare_words(w: Seq<Seq<char>>) -> Seq<Seq<char>> {
    w.map_values(|x: Seq<char>| bare(x))
}

/// The search for any of the keywords among words, given the bare form of each.
pub fn query_from(w: &Vec<String>, bare_forms: &Vec<String>) -> (r: String)
    requires
        w@.len() == bare_forms@.len(),
    ensures
        r@ == query_of(texts(w@), texts(bare_forms@)),
{
    let ghost all = texts(w@);
    let ghost forms = texts(bare_forms@);
    let mut out: Vec<String> = Vec::new();
    let mut i: usize = 0;
    proof {
        assert(texts(out@) == quoted(first_six(keywords(all.take(0), forms))));
    }
    while i < w.len()
        invariant
            i <= w@.len() == bare_forms@.len(),
            all == texts(w@),
            forms == texts(bare_forms@),
            texts(out@) == quoted(first_six(keywords(all.take(i as int), forms))),
        decreases w@.len() - i,
    {
        let ghost so_far = keywords(all.take(i as int), forms);
        proof {
            assert(all.take(i + 1).drop_last() == all.take(i as int));
            assert(all.take(i + 1).last() == w@[i as int]@);
            assert(forms[i as int] == bare_forms@[i as int]@);
        }
        let long = chars_of(w[i].as_str()).len() >= 4;
        if long && chars_of(bare_forms[i].as_str()).len() >= 4 {
            if out.len() < 6 {
                let ghost was = texts(out@);
                let q = glue3("\"", bare_forms[i].as_str(), "\"");
                out.push(q);
                proof {
                    assert(texts(out@) == was.push(q@));
                    let now = so_far.push(forms[i as int]);
                    assert(first_six(now) == now);
                    assert(quoted(now) == quoted(so_far).push(q@));
                }
            } else {
                proof {
                    let now = so_far.push(forms[i as int]);
                    assert(texts(out@).len() == first_six(so_far).len());
                    assert(first_six(now) == first_six(so_far));
                }
            }
        }
        i = i + 1;
    }
    assert(all.take(i as int) == all);
    join(&out, " OR ")
}

/// A word without everything that is neither a letter nor a digit; no quote is left in it.
fn make_bare(w: &str) -> (r: String)
    ensures
        r@ == bare(w@),
        !r@.contains('"'),
{
    let v = chars_of(w);
    let ghost keep = |c: char| is_alnum(c);
    let mut out = String::new();
    let mut i: usize = 0;
    assert(v@.take(0).len() == 0);
    while i < v.len()
        invariant
            i <= v@.len(),
            keep == (|c: char| is_alnum(c)),
            out@ == kept(v@.take(i as int), keep),
            forall|k: int| 0 <= k < out@.len() ==> #[trigger] out@[k] != '"',
        decreases v@.len() - i,
    {
        proof {
            assert(v@.take(i + 1).drop_last() == v@.take(i as int));
            assert(keep(v@[i as int]) == is_alnum(v@[i as int]));
        }
        if is_alphanumeric(v[i]) {
            assert(v@[i as int] != '"');
            out.push(v[i]);
        }
        i = i + 1;
    }
    assert(v@.take(i as int) == v@);
    out
}

/// The search for the keywords of a message: its longer words, bare, each in quotes, six at most,
/// any of which may match. It is empty where there are none. No keyword holds a quote, so the
/// search means what it says whatever the message is.
pub fn build_rag_query(message: &str) -> (r: String)
    ensures
        r@ == query_of(words(message@), bare_words(words(message@))),
        forall|k: int|
            0 <= k < words(message@).len() ==> !(#[trigger] bare_words(
                words(message@),
            )[k]).contains('"'),
{
    let w = split_whitespace(message);
    let mut forms: Vec<String> = Vec::new();
    let mut i: usize = 0;
    while i < w.len()
        invariant
            i <= w@.len(),
            forms@.len() == i,
            forall|k: int|
                0 <= k < i ==> (#[trigger] forms@[k])@ == bare(w@[k]@) && !forms@[k]@.contains(
                    '"',
                ),
        decreases w@.len() - i,
    {
        forms.push(make_bare(w[i].as_str()));
        i = i + 1;
    }
    proof {
        assert(texts(forms@) == bare_words(texts(w@)));
        assert forall|k: int| 0 <= k < words(message@).len() implies !(#[trigger] bare_words(
            words(message@),
        )[k]).contains('"') by {
            assert(bare_words(words(message@))[k] == forms@[k]@);
        }
    }
    query_from(&w, &forms)
}

proof fn lemma_keyword(w: Seq<Seq<char>>, k: int)
    requires
        0 <= k < keywords(w, bare_words(w)).len(),
    ensures
        ({
            let b = keywords(w, bare_words(w))[k];
            b.len() >= 4 && forall|i: int| 0 <= i < b.len() ==> is_alnum(#[trigger] b[i])
        }),
    decreases w.len(),
{
    let t = w.drop_last();
    assert(keywords(t, bare_words(t)) == keywords(t, bare_words(w))) by {
        lemma_keywords_prefix(t, bare_words(t), bare_words(w));
    }
    if k < keywords(t, bare_words(t)).len() {
        lemma_keyword(t, k);
    } else {
        let keep = |c: char| is_alnum(c);
        lemma_kept(w.last(), keep);
        let b = bare(w.last());
        assert forall|i: int| 0 <= i < b.len() implies is_alnum(#[trigger] b[i]) by {
            assert(keep(b[i]));
        }
    }
}

proof fn lemma_keywords_prefix(w: Seq<Seq<char>>, a: Seq<Seq<char>>, b: Seq<Seq<char>>)
    requires
        w.len() <= a.len(),
        w.len() <= b.len(),
        forall|i: int| 0 <= i < w.len() ==> #[trigger] a[i] == b[i],
    ensures
        keywords(w, a) == keywords(w, b),
    decreases w.len(),
{
    if w.len() > 0 {
        lemma_keywords_prefix(w.drop_last(), a, b);
        assert(a[w.len() - 1] == b[w.len() - 1]);
    }
}

/// A search is for six keywords at most, each of four letters and digits at least.
pub proof fn law_keywords_are_plain(w: Seq<Seq<char>>, k: int)
    requires
        0 <= k < first_six(keywords(w, bare_words(w))).len(),
    ensures
        first_six(keywords(w, bare_words(w))).len() <= 6,
        first_six(keywords(w, bare_words(w)))[k].len() >= 4,
        forall|i: int|
            0 <= i < first_six(keywords(w, bare_words(w)))[k].len() ==> is_alnum(
                #[trigger] first_six(keywords(w, bare_words(w)))[k][i],
            ),
{
    lemma_keyword(w, k);
}

/// How a search grows with one word more: a word of four characters, and of four letters and digits,
/// is searched for as well while there are fewer than six, in quotes and behind ` OR ` where it is
/// not the first. Any other word changes nothing.
pub proof fn law_query_grows_by_a_word(w: Seq<Seq<char>>, x: Seq<char>)
    ensures
        query_of(Seq::empty(), bare_words(Seq::empty())) == Seq::<char>::empty(),
        ({
            let n: nat = keywords(w, bare_words(w)).len();
            let before = query_of(w, bare_words(w));
            query_of(w.push(x), bare_words(w.push(x))) == (if x.len() < 4 || bare(x).len() < 4 || n
                >= 6 {
                before
            } else if n == 0 {
                seq!['"'] + bare(x) + seq!['"']
            } else {
                before + seq![' ', 'O', 'R', ' '] + seq!['"'] + bare(x) + seq!['"']
            })
        }),
        keywords(w.push(x), bare_words(w.push(x))).len() == keywords(w, bare_words(w)).len() + (
        if x.len() < 4 || bare(x).len() < 4 {
            0int
        } else {
            1
        }),
{
    reveal_strlit(" OR ");
    reveal_strlit("\"");
    assert(" OR "@ =~= seq![' ', 'O', 'R', ' ']);
    assert("\""@ =~= seq!['"']);
    let none = Seq::<Seq<char>>::empty();
    assert(quoted(first_six(keywords(none, bare_words(none)))).len() == 0);
    let so_far = keywords(w, bare_words(w));
    let longer = w.push(x);
    let forms = bare_words(longer);
    assert(longer.drop_last() == w);
    assert(forms[longer.len() - 1] == bare(x));
    lemma_keywords_prefix(w, forms, bare_words(w));
    if x.len() >= 4 && bare(x).len() >= 4 {
        let now = so_far.push(bare(x));
        assert(keywords(longer, forms) == now);
        if so_far.len() < 6 {
            let q = "\""@ + bare(x) + "\""@;
            assert(first_six(now) == now);
            assert(quoted(now) == quoted(so_far).push(q));
            assert(quoted(now).drop_last() == quoted(so_far));
            assert(quoted(now).last() == q);
            if so_far.len() == 0 {
                assert(quoted(now)[0] == q);
            }
            assert(query_of(w, bare_words(w)) + " OR "@ + q =~= query_of(w, bare_words(w)) + seq![
                ' ',
                'O',
                'R',
                ' ',
            ] + seq!['"'] + bare(x) + seq!['"']);
        } else {
            assert(first_six(now) == first_six(so_far));
        }
    }
}

/// A word keeps its letters and digits, in their order, and loses everything else.
pub proof fn law_bare_keeps_letters_and_digits(a: Seq<char>, c: char)
    ensures
        bare(Seq::empty()) == Seq::<char>::empty(),
        bare(a.push(c)) == (if is_alnum(c) {
            bare(a).push(c)
        } else {
            bare(a)
        }),
{
    assert(a.push(c).drop_last() == a);
}

// ----- what the model is told -----

/// The name of a chat that nobody has named.
pub const UNNAMED_CHAT: &'static str = "New Chat";

/// A chat in a list.
#[derive(Debug)]
pub struct ChatEntry {
    pub id: String,
    pub name: String,
}

/// Whether the first chat with that id still has no name of its own.
pub open spec fn is_unnamed(list: Seq<ChatEntry>, id: Seq<char>) -> bool
    decreases list.len(),
{
    if list.len() == 0 {
        false
    } else if list[0].id@ == id {
        list[0].name@ == UNNAMED_CHAT@
    } else {
        is_unnamed(list.drop_first(), id)
    }
}

/// Whether a chat still has no name of its own.
pub fn needs_name(list: &Vec<ChatEntry>, id: &str) -> (r: bool)
    ensures
        r == is_unnamed(list@, id@),
{
    let mut i: usize = 0;
    assert(list@.skip(0) == list@);
    while i < list.len()
        invariant
            i <= list@.len(),
            is_unnamed(list@, id@) == is_unnamed(list@.skip(i as int), id@),
        decreases list@.len() - i,
    {
        assert(list@.skip(i as int)[0] == list@[i as int]);
        assert(list@.skip(i as int).drop_first() == list@.skip(i + 1));
        if same(list[i].id.as_str(), id) {
            return same(list[i].name.as_str(), UNNAMED_CHAT);
        }
        i = i + 1;
    }
    false
}

/// Whether a chat needs a name is decided by the first entry with its id: it does exactly where that
/// is called `New Chat`. A chat that is not listed needs none.
pub proof fn law_first_entry_decides(list: Seq<ChatEntry>, id: Seq<char>, k: int)
    requires
        0 <= k <= list.len(),
        forall|j: int| 0 <= j < k ==> (#[trigger] list[j]).id@ != id,
    ensures
        k == list.len() ==> !is_unnamed(list, id),
        k < list.len() && list[k].id@ == id ==> (is_unnamed(list, id) <==> list[k].name@
            == seq!['N', 'e', 'w', ' ', 'C', 'h', 'a', 't']),
    decreases list.len(),
{
    reveal_strlit("New Chat");
    assert("New Chat"@ =~= seq!['N', 'e', 'w', ' ', 'C', 'h', 'a', 't']);
    if list.len() > 0 && k > 0 {
        let rest = list.drop_first();
        assert(list[0].id@ != id);
        assert forall|j: int| 0 <= j < k - 1 implies (#[trigger] rest[j]).id@ != id by {
            assert(rest[j] == list[j + 1]);
        }
        law_first_entry_decides(rest, id, k - 1);
    }
}

/// The name that a chat gets from a message: its first fifty characters.
pub open spec fn named_after(message: Seq<char>) -> Seq<char> {
    first_chars(message, 50)
}

/// A chat is named after the beginning of its first message, all of it where it has no more than
/// fifty characters.
pub proof fn law_name_is_the_beginning(message: Seq<char>, more: Seq<char>)
    ensures
        message.len() <= 50 ==> named_after(message) == message,
        message.len() == 50 ==> named_after(message + more) == message,
{
    assert((message + more).take(message.len() as int) =~= message);
    assert(message + Seq::<char>::empty() =~= message);
    if more.len() == 0 {
        assert(message + more =~= message);
    }
}

/// The name that a chat gets from its first message.
pub fn auto_name(message: &str) -> (r: String)
    ensures
        r@ == named_after(message@),
{
    take_chars(message, 50)
}

/// The sum of some numbers.
pub open spec fn total(s: Seq<usize>) -> nat
    decreases s.len(),
{
    if s.len() == 0 {
        0
    } else {
        total(s.drop_last()) + s.last() as nat
    }
}

/// How many tokens are left for the notes: what the history leaves of the whole, but no less than
/// the least.
pub open spec fn notes_budget(whole: nat, history: nat, least: nat) -> nat {
    let left = if history < whole {
        (whole - history) as nat
    } else {
        0
    };
    if left < least {
        least
    } else {
        left
    }
}

/// The notes get what the history leaves, or the least where that is more, and never anything else;
/// the history counts with all its messages.
pub proof fn law_notes_get_what_is_left(
    whole: nat,
    a: Seq<usize>,
    b: Seq<usize>,
    x: usize,
    least: nat,
)
    ensures
        notes_budget(whole, total(a), least) >= least,
        notes_budget(whole, total(a), least) + total(a) >= whole,
        notes_budget(whole, total(a), least) == least || notes_budget(whole, total(a), least) + total(
            a,
        ) == whole,
        total(a + b) == total(a) + total(b),
        total(seq![x]) == x,
        total(Seq::empty()) == 0,
    decreases b.len(),
{
    assert(seq![x].drop_last() =~= Seq::<usize>::empty());
    assert(total(Seq::<usize>::empty()) == 0);
    if b.len() == 0 {
        assert(a + b =~= a);
    } else {
        law_notes_get_what_is_left(whole, a, b.drop_last(), x, least);
        assert((a + b).drop_last() =~= a + b.drop_last());
        assert((a + b).last() == b.last());
    }
}

proof fn lemma_total_prefix(s: Seq<usize>, k: int)
    requires
        0 <= k <= s.len(),
    ensures
        total(s.take(k)) <= total(s),
    decreases s.len() - k,
{
    if k < s.len() {
        lemma_total_prefix(s, k + 1);
        assert(s.take(k + 1).drop_last() == s.take(k));
    } else {
        assert(s.take(k) == s);
    }
}

/// How many tokens are left for the notes, given the tokens of each message of the history.
pub fn chunk_budget(whole: usize, history_tokens: &Vec<usize>, least: usize) -> (r: usize)
    requires
        total(history_tokens@) <= usize::MAX,
    ensures
        r == notes_budget(whole as nat, total(history_tokens@), least as nat),
{
    let mut sum: usize = 0;
    let mut i: usize = 0;
    assert(history_tokens@.take(0).len() == 0);
    while i < history_tokens.len()
        invariant
            i <= history_tokens@.len(),
            total(history_tokens@) <= usize::MAX,
            sum == total(history_tokens@.take(i as int)),
        decreases history_tokens@.len() - i,
    {
        proof {
            assert(history_tokens@.take(i + 1).drop_last() == history_tokens@.take(i as int));
            lemma_total_prefix(history_tokens@, i + 1);
        }
        sum = sum + history_tokens[i];
        i = i + 1;
    }
    assert(history_tokens@.take(i as int) == history_tokens@);
    let left: usize = if sum < whole {
        whole - sum
    } else {
        0
    };
    if left < least {
        least
    } else {
        left
    }
}

/// One message of a chat.
#[derive(Debug)]
pub struct ChatMessage {
    pub role: String,
    pub content: String,
}

/// What was said before the last message.
pub open spec fn before_last(messages: Seq<ChatMessage>) -> Seq<ChatMessage> {
    if messages.len() == 0 {
        messages
    } else {
        messages.drop_last()
    }
}

/// A question that follows some messages is answered in the light of just those.
pub proof fn law_history_is_without_the_question(
    messages: Seq<ChatMessage>,
    question: ChatMessage,
)
    ensures
        before_last(messages.push(question)) == messages,
        before_last(Seq::empty()).len() == 0,
{
    assert(messages.push(question).drop_last() =~= messages);
}

/// What was said before the last message, which is the one to be answered.
pub fn earlier_messages(messages: Vec<ChatMessage>) -> (r: Vec<ChatMessage>)
    ensures
        r@ == before_last(messages@),
{
    let mut rest = messages;
    rest.pop();
    rest
}

/// A passage that was found.
#[derive(Debug)]
pub struct ContextChunk {
    pub item_id: String,
    pub date: String,
    pub kind: String,
    pub content: String,
}

/// A source of an answer, as it is shown.
#[derive(Debug)]
pub struct ContextSource {
    pub date: String,
    pub kind: String,
    pub content: String,
}

/// An answer with its sources.
#[derive(Debug)]
pub struct ChatReply {
    pub reply: String,
    pub sources: Vec<ContextSource>,
}

/// The answer where there is no model.
pub fn reply_without_model() -> (r: ChatReply)
    ensures
        r.reply@
            == "No local AI model is loaded. Please download one in Settings → AI Model."@,
        r.sources@.len() == 0,
{
    ChatReply {
        reply: "No local AI model is loaded. Please download one in Settings → AI Model.".to_owned(),
        sources: Vec::new(),
    }
}

/// The day of a moment that is written in full: its first ten bytes, or all of it where it has
/// fewer.
pub open spec fn day_of(captured_at: Seq<char>) -> Option<Seq<char>> {
    if encode_utf8(captured_at).len() < 10 {
        between_bytes(captured_at, 0, encode_utf8(captured_at).len() as int)
    } else {
        between_bytes(captured_at, 0, 10)
    }
}

/// The day of a moment that is written in full; `None` where a character straddles its end.
pub fn item_day(captured_at: &str) -> (r: Option<String>)
    ensures
        opt_text(r) == day_of(captured_at@),
{
    let n = byte_len(captured_at);
    if n < 10 {
        slice_bytes(captured_at, 0, n)
    } else {
        slice_bytes(captured_at, 0, 10)
    }
}

/// The day of a moment is written in its first ten places: `2026-01-31` of `2026-01-31T10:00:00Z`.
pub proof fn law_day_is_in_the_first_ten_places(day: Seq<char>, rest: Seq<char>)
    requires
        is_ascii_chars(day),
    ensures
        day.len() == 10 ==> day_of(day + rest) == Some(day),
        day.len() < 10 ==> day_of(day) == Some(day),
{
    let none = Seq::<char>::empty();
    is_ascii_chars_encode_utf8(day);
    law_slice_is_what_stands_between(none, day, rest);
    law_slice_is_what_stands_between(none, day, none);
    assert(none + day + rest =~= day + rest);
    assert(none + day =~= day);
    assert(none + day + none =~= day);
    if day.len() == 10 {
        law_bytes_are_those_of_the_encoding(day, rest, day + rest, 10);
        lemma_encoding_grows(day, rest);
    }
}

proof fn lemma_encoding_grows(a: Seq<char>, b: Seq<char>)
    ensures
        encode_utf8(a + b).len() >= encode_utf8(a).len(),
    decreases a.len(),
{
    if a.len() > 0 {
        lemma_encoding_grows(a.drop_first(), b);
        assert((a + b).drop_first() =~= a.drop_first() + b);
        assert((a + b)[0] == a[0]);
    }
}

/// An item that a search has found.
#[derive(Debug)]
pub struct FoundItem {
    pub id: String,
    pub kind: Option<ItemKind>,
    pub captured_at: String,
    pub content: String,
}

/// What passages are chosen from.
#[derive(Debug)]
pub struct PassageSource {
    pub item_id: String,
    pub date: String,
    pub kind: String,
    pub content: String,
}

/// The name of an item's kind; an item of no kind passes for a note.
pub open spec fn shown_kind(kind: Option<ItemKind>) -> Seq<char> {
    match kind {
        Some(k) => k.name(),
        None => "note"@,
    }
}

/// Whether `r` is what passages are chosen from in an item.
pub open spec fn is_passage_source(r: Option<PassageSource>, item: FoundItem) -> bool {
    match r {
        Some(s) => {
            &&& s.item_id == item.id
            &&& day_of(item.captured_at@) == Some(s.date@)
            &&& s.kind@ == shown_kind(item.kind)
            &&& s.content == item.content
        },
        None => day_of(item.captured_at@) is None,
    }
}

/// A passage keeps the id and the whole text of its item; it is dated by the item's day, and called
/// after its kind, or `note` where it has none.
pub proof fn law_passage_keeps_its_item(
    r: Option<PassageSource>,
    item: FoundItem,
    day: Seq<char>,
    rest: Seq<char>,
)
    requires
        is_passage_source(r, item),
        item.captured_at@ == day + rest,
        is_ascii_chars(day),
        day.len() == 10,
    ensures
        r matches Some(s) && s.date@ == day && s.content@ == item.content@ && s.item_id@ == item.id@
            && (item.kind is None ==> s.kind@ == seq!['n', 'o', 't', 'e']) && (item.kind matches Some(k)
            ==> s.kind@ == k.name()),
{
    reveal_strlit("note");
    assert("note"@ =~= seq!['n', 'o', 't', 'e']);
    law_day_is_in_the_first_ten_places(day, rest);
}

/// What passages are chosen from in an item: its text, under its day and the name of its kind.
/// `None` where a character straddles the end of the day.
pub fn passage_source(item: FoundItem) -> (r: Option<PassageSource>)
    ensures
        is_passage_source(r, item),
{
    let kind = match item.kind {
        Some(k) => k.as_str().to_owned(),
        None => "note".to_owned(),
    };
    match item_day(item.captured_at.as_str()) {
        Some(date) => Some(
            PassageSource { item_id: item.id, date, kind, content: item.content },
        ),
        None => None,
    }
}

/// The items that passages come from, each once, in the order in which they first come.
pub open spec fn items_of(c: Seq<ContextChunk>) -> Seq<Seq<char>>
    decreases c.len(),
{
    if c.len() == 0 {
        Seq::empty()
    } else {
        let so_far = items_of(c.drop_last());
        if so_far.contains(c.last().item_id@) {
            so_far
        } else {
            so_far.push(c.last().item_id@)
        }
    }
}

/// An item is listed with its first passage, behind the items before it, and later passages of it
/// change nothing.
pub proof fn law_items_come_with_their_first_passage(c: Seq<ContextChunk>, x: ContextChunk)
    ensures
        (exists|i: int| 0 <= i < c.len() && (#[trigger] c[i]).item_id@ == x.item_id@) ==> items_of(
            c.push(x),
        ) == items_of(c),
        (forall|i: int| 0 <= i < c.len() ==> (#[trigger] c[i]).item_id@ != x.item_id@) ==> items_of(
            c.push(x),
        ) == items_of(c).push(x.item_id@),
{
    assert(c.push(x).drop_last() =~= c);
    lemma_items(c);
}

/// The items that contributed to an answer, each once.
pub fn linked_items(chunks: &Vec<ContextChunk>) -> (r: Vec<String>)
    ensures
        texts(r@) == items_of(chunks@),
{
    let mut out: Vec<String> = Vec::new();
    let mut i: usize = 0;
    assert(texts(out@) == items_of(chunks@.take(0)));
    while i < chunks.len()
        invariant
            i <= chunks@.len(),
            texts(out@) == items_of(chunks@.take(i as int)),
        decreases chunks@.len() - i,
    {
        assert(chunks@.take(i + 1).drop_last() == chunks@.take(i as int));
        if !holds_text(&out, chunks[i].item_id.as_str()) {
            let ghost was = texts(out@);
            out.push(chunks[i].item_id.clone());
            assert(texts(out@) == was.push(chunks@[i as int].item_id@));
        }
        i = i + 1;
    }
    assert(chunks@.take(i as int) == chunks@);
    out
}

/// The contents of the passages of one item.
pub open spec fn contents_of(c: Seq<ContextChunk>, id: Seq<char>) -> Seq<Seq<char>>
    decreases c.len(),
{
    if c.len() == 0 {
        Seq::empty()
    } else if c.last().item_id@ == id {
        contents_of(c.drop_last(), id).push(c.last().content@)
    } else {
        contents_of(c.drop_last(), id)
    }
}

/// The first passage of one item.
pub open spec fn first_of_item(c: Seq<ContextChunk>, id: Seq<char>) -> ContextChunk
    decreases c.len(),
{
    if c.len() == 0 || c[0].item_id@ == id {
        c[0]
    } else {
        first_of_item(c.drop_first(), id)
    }
}

/// A source as plain texts.
pub open spec fn source_texts(v: Seq<ContextSource>) -> Seq<(Seq<char>, Seq<char>, Seq<char>)> {
    v.map_values(|s: ContextSource| (s.date@, s.kind@, s.content@))
}

/// The source that one item makes: the day and kind of its first passage, and all its passages.
pub open spec fn source_of(c: Seq<ContextChunk>, id: Seq<char>) -> (
    Seq<char>,
    Seq<char>,
    Seq<char>,
) {
    let first = first_of_item(c, id);
    (first.date@, first.kind@, joined(contents_of(c, id), "\n…\n"@))
}

fn collect_contents(chunks: &Vec<ContextChunk>, id: &str) -> (r: Vec<String>)
    ensures
        texts(r@) == contents_of(chunks@, id@),
{
    let mut out: Vec<String> = Vec::new();
    let mut i: usize = 0;
    assert(texts(out@) == contents_of(chunks@.take(0), id@));
    while i < chunks.len()
        invariant
            i <= chunks@.len(),
            texts(out@) == contents_of(chunks@.take(i as int), id@),
        decreases chunks@.len() - i,
    {
        assert(chunks@.take(i + 1).drop_last() == chunks@.take(i as int));
        if same(chunks[i].item_id.as_str(), id) {
            let ghost was = texts(out@);
            out.push(chunks[i].content.clone());
            assert(texts(out@) == was.push(chunks@[i as int].content@));
        }
        i = i + 1;
    }
    assert(chunks@.take(i as int) == chunks@);
    out
}

proof fn lemma_first_is(c: Seq<ContextChunk>, k: int)
    requires
        0 <= k < c.len(),
        !items_of(c.take(k)).contains(c[k].item_id@),
    ensures
        first_of_item(c, c[k].item_id@) == c[k],
    decreases k,
{
    let id = c[k].item_id@;
    lemma_items(c.take(k));
    if k > 0 {
        assert(c.take(k)[0] == c[0]);
        assert(items_of(c.take(k)).contains(c[0].item_id@));
        let t = c.drop_first();
        assert(t[k - 1] == c[k]);
        lemma_items(t.take(k - 1));
        if items_of(t.take(k - 1)).contains(id) {
            let i = choose|i: int|
                0 <= i < t.take(k - 1).len() && (#[trigger] t.take(k - 1)[i]).item_id@ == id;
            assert(c.take(k)[i + 1].item_id@ == id);
        }
        lemma_first_is(t, k - 1);
    }
}

proof fn lemma_items(c: Seq<ContextChunk>)
    ensures
        items_of(c).no_duplicates(),
        forall|id: Seq<char>| #[trigger]
            items_of(c).contains(id) <==> exists|i: int|
                0 <= i < c.len() && (#[trigger] c[i]).item_id@ == id,
    decreases c.len(),
{
    if c.len() > 0 {
        let front = c.drop_last();
        lemma_items(front);
        let a = items_of(front);
        let b = items_of(c);
        assert forall|id: Seq<char>| #[trigger] b.contains(id) <==> exists|i: int|
            0 <= i < c.len() && (#[trigger] c[i]).item_id@ == id by {
            if b.contains(id) {
                if a.contains(id) {
                    let i = choose|i: int| 0 <= i < front.len() && (#[trigger] front[i]).item_id@ == id;
                    assert(c[i] == front[i]);
                } else {
                    let k = choose|k: int| 0 <= k < b.len() && b[k] == id;
                    if k < a.len() {
                        assert(a[k] == id);
                    }
                    assert(c[c.len() - 1].item_id@ == id);
                }
            }
            if exists|i: int| 0 <= i < c.len() && (#[trigger] c[i]).item_id@ == id {
                let i = choose|i: int| 0 <= i < c.len() && (#[trigger] c[i]).item_id@ == id;
                if i < front.len() {
                    assert(front[i].item_id@ == id);
                    assert(a.contains(id));
                    let k = choose|k: int| 0 <= k < a.len() && a[k] == id;
                    assert(b[k] == id);
                } else if !a.contains(id) {
                    assert(b[b.len() - 1] == id);
                }
            }
        }
    }
}

/// The sources of an answer: one for each item that contributed, in order.
pub open spec fn sources_of(c: Seq<ContextChunk>) -> Seq<(Seq<char>, Seq<char>, Seq<char>)> {
    items_of(c).map_values(|id: Seq<char>| source_of(c, id))
}

/// The sources of an answer: one for each item that contributed, with all its passages.
pub fn context_sources(chunks: &Vec<ContextChunk>) -> (r: Vec<ContextSource>)
    ensures
        source_texts(r@) == sources_of(chunks@),
{
    let ghost c = chunks@;
    let mut seen: Vec<String> = Vec::new();
    let mut out: Vec<ContextSource> = Vec::new();
    let mut i: usize = 0;
    proof {
        assert(texts(seen@) == items_of(c.take(0)));
        assert(source_texts(out@) == texts(seen@).map_values(|id: Seq<char>| source_of(c, id)));
    }
    while i < chunks.len()
        invariant
            i <= chunks@.len(),
            c == chunks@,
            texts(seen@) == items_of(c.take(i as int)),
            out@.len() == seen@.len(),
            forall|k: int|
                0 <= k < out@.len() ==> source_texts(out@)[k] == source_of(
                    c,
                    (#[trigger] seen@[k])@,
                ),
        decreases chunks@.len() - i,
    {
        assert(c.take(i + 1).drop_last() == c.take(i as int));
        if !holds_text(&seen, chunks[i].item_id.as_str()) {
            proof {
                lemma_first_is(c, i as int);
            }
            let ghost was = texts(seen@);
            let ghost outs = source_texts(out@);
            let parts = collect_contents(chunks, chunks[i].item_id.as_str());
            let content = join(&parts, "\n…\n");
            seen.push(chunks[i].item_id.clone());
            out.push(
                ContextSource { date: chunks[i].date.clone(), kind: chunks[i].kind.clone(), content },
            );
            proof {
                assert(texts(seen@) == was.push(c[i as int].item_id@));
                assert(source_texts(out@) == outs.push(source_of(c, c[i as int].item_id@)));
            }
        }
        i = i + 1;
    }
    proof {
        assert(c.take(i as int) == c);
        assert forall|k: int| 0 <= k < out@.len() implies source_texts(out@)[k] == sources_of(c)[k] by {
            assert(items_of(c)[k] == seen@[k]@);
        }
        assert(source_texts(out@) == sources_of(c));
    }
    out
}

/// There is one source for each item that contributed a passage, and none for any other.
pub proof fn law_one_source_for_each_item(c: Seq<ContextChunk>)
    ensures
        sources_of(c).len() == items_of(c).len(),
        items_of(c).no_duplicates(),
        forall|id: Seq<char>| #[trigger]
            items_of(c).contains(id) <==> exists|i: int|
                0 <= i < c.len() && (#[trigger] c[i]).item_id@ == id,
{
    lemma_items(c);
}

/// A source has the day and the kind of the first passage of its item, and the texts of all its
/// passages in their order, with an ellipsis on a line of its own between two.
pub proof fn law_source_has_all_passages(c: Seq<ContextChunk>, x: ContextChunk, k: int, id: Seq<char>)
    requires
        0 <= k < c.len(),
        c[k].item_id@ == id,
        forall|j: int| 0 <= j < k ==> (#[trigger] c[j]).item_id@ != id,
    ensures
        ({
            let (date, kind, content) = source_of(c, id);
            let (date2, kind2, content2) = source_of(c.push(x), id);
            &&& date == c[k].date@ && kind == c[k].kind@
            &&& date2 == date && kind2 == kind
            &&& content2 == (if x.item_id@ == id {
                content + seq!['\n', '…', '\n'] + x.content@
            } else {
                content
            })
            &&& k == c.len() - 1 ==> content == c[k].content@
        }),
{
    reveal_strlit("\n…\n");
    assert("\n…\n"@ =~= seq!['\n', '…', '\n']);
    lemma_first_at_place(c, k, id);
    assert(c.push(x)[k] == c[k]);
    assert forall|j: int| 0 <= j < k implies (#[trigger] c.push(x)[j]).item_id@ != id by {
        assert(c.push(x)[j] == c[j]);
    }
    lemma_first_at_place(c.push(x), k, id);
    assert(c.push(x).drop_last() =~= c);
    lemma_contents_len(c, k, id);
    if x.item_id@ == id {
        let all = contents_of(c, id).push(x.content@);
        assert(all.drop_last() =~= contents_of(c, id));
        assert(all.last() == x.content@);
    }
    if k == c.len() - 1 {
        lemma_no_contents(c.drop_last(), id);
        assert(contents_of(c, id)[0] == c[k].content@);
    }
}

proof fn lemma_first_at_place(c: Seq<ContextChunk>, k: int, id: Seq<char>)
    requires
        0 <= k < c.len(),
        c[k].item_id@ == id,
        forall|j: int| 0 <= j < k ==> (#[trigger] c[j]).item_id@ != id,
    ensures
        first_of_item(c, id) == c[k],
    decreases k,
{
    if k > 0 {
        let rest = c.drop_first();
        assert(c[0].item_id@ != id);
        assert forall|j: int| 0 <= j < k - 1 implies (#[trigger] rest[j]).item_id@ != id by {
            assert(rest[j] == c[j + 1]);
        }
        lemma_first_at_place(rest, k - 1, id);
    }
}

proof fn lemma_contents_len(c: Seq<ContextChunk>, k: int, id: Seq<char>)
    requires
        0 <= k < c.len(),
        c[k].item_id@ == id,
    ensures
        contents_of(c, id).len() > 0,
    decreases c.len(),
{
    if k < c.len() - 1 {
        assert(c.drop_last()[k] == c[k]);
        lemma_contents_len(c.drop_last(), k, id);
    }
}

proof fn lemma_no_contents(c: Seq<ContextChunk>, id: Seq<char>)
    requires
        forall|j: int| 0 <= j < c.len() ==> (#[trigger] c[j]).item_id@ != id,
    ensures
        contents_of(c, id).len() == 0,
    decreases c.len(),
{
    if c.len() > 0 {
        assert(c[c.len() - 1].item_id@ != id);
        lemma_no_contents(c.drop_last(), id);
    }
}

/// A passage as the model sees it.
pub open spec fn context_line(c: ContextChunk) -> Seq<char> {
    "["@ + c.date@ + "] ("@ + c.kind@ + "): "@ + c.content@
}

/// The model sees a passage with its day in brackets and its kind in parentheses before its text.
pub proof fn law_passage_is_shown_with_its_day(c: ContextChunk)
    ensures
        context_line(c) == seq!['['] + c.date@ + seq![']', ' ', '('] + c.kind@ + seq![')', ':', ' '] + c.content@,
{
    reveal_strlit("[");
    assert("["@ =~= seq!['[']);
    reveal_strlit("] (");
    assert("] ("@ =~= seq![']', ' ', '(']);
    reveal_strlit("): ");
    assert("): "@ =~= seq![')', ':', ' ']);
}

/// What the model is told. Where nothing was found it is told not to make anything up, and that
/// nothing was captured in the time that was asked for, where one was.
pub open spec fn system_prompt(c: Seq<ContextChunk>, today: Seq<char>, dated: bool) -> Seq<char> {
    if c.len() == 0 {
        "You are a helpful assistant built into Echo Scribe, a voice note and task capture app. Today is "@
            + today + ". No relevant notes were found for this question."@ + (if dated {
            " No captures were found for the requested time period — do not guess or invent content."@
        } else {
            ""@
        })
            + " Do not invent or fabricate any captures or activities. If the user is asking what they did or said, tell them no matching captures were found."@
    } else {
        "You are a helpful assistant built into Echo Scribe. Today is "@ + today
            + ". Here are the user's relevant notes and captures:\n\n---\n"@ + joined(
            c.map_values(|x: ContextChunk| context_line(x)),
            "\n"@,
        )
            + "\n---\n\nAnswer based only on these notes. Do not invent or add content beyond what is shown above. If the notes don't address the question, say so explicitly."@
    }
}

/// What the model is told about the passages that were found; `dated` says whether the question
/// names a time.
pub fn chat_system_prompt(chunks: &Vec<ContextChunk>, today: &str, dated: bool) -> (r: String)
    ensures
        r@ == system_prompt(chunks@, today@, dated),
{
    if chunks.len() == 0 {
        let mut s = glue3(
            "You are a helpful assistant built into Echo Scribe, a voice note and task capture app. Today is ",
            today,
            ". No relevant notes were found for this question.",
        );
        if dated {
            s.append(
                " No captures were found for the requested time period — do not guess or invent content.",
            );
        } else {
            s.append("");
        }
        s.append(
            " Do not invent or fabricate any captures or activities. If the user is asking what they did or said, tell them no matching captures were found.",
        );
        s
    } else {
        let mut lines: Vec<String> = Vec::new();
        let mut i: usize = 0;
        while i < chunks.len()
            invariant
                i <= chunks@.len(),
                lines@.len() == i,
                forall|k: int| 0 <= k < i ==> (#[trigger] lines@[k])@ == context_line(chunks@[k]),
            decreases chunks@.len() - i,
        {
            let mut line = glue3("[", chunks[i].date.as_str(), "] (");
            line.append(chunks[i].kind.as_str());
            line.append("): ");
            line.append(chunks[i].content.as_str());
            lines.push(line);
            i = i + 1;
        }
        assert(texts(lines@) == chunks@.map_values(|x: ContextChunk| context_line(x)));
        let mut s = glue3(
            "You are a helpful assistant built into Echo Scribe. Today is ",
            today,
            ". Here are the user's relevant notes and captures:\n\n---\n",
        );
        let context = join(&lines, "\n");
        s.append(context.as_str());
        s.append(
            "\n---\n\nAnswer based only on these notes. Do not invent or add content beyond what is shown above. If the notes don't address the question, say so explicitly.",
        );
        s
    }
}

/// The model is told the day it is, and every passage that was found, one to a line, in their order.
/// Where none was found it is told more exactly where the question names a time; where some were
/// found that makes no difference.
pub proof fn law_model_is_told_what_was_found(
    c: Seq<ContextChunk>,
    i: int,
    today: Seq<char>,
    dated: bool,
)
    ensures
        occurs_in(system_prompt(c, today, dated), today),
        c.len() > 0 ==> system_prompt(c, today, true) == system_prompt(c, today, false),
        c.len() == 0 ==> system_prompt(c, today, true).len() > system_prompt(c, today, false).len(),
        c.len() > 0 ==> occurs_in(
            system_prompt(c, today, dated),
            joined(c.map_values(|x: ContextChunk| context_line(x)), seq!['\n']),
        ),
        0 <= i < c.len() ==> occurs_in(system_prompt(c, today, dated), context_line(c[i])),
{
    reveal_strlit("\n");
    assert("\n"@ =~= seq!['\n']);
    let p = system_prompt(c, today, dated);
    let lines = c.map_values(|x: ContextChunk| context_line(x));
    let all = joined(lines, "\n"@);
    if c.len() == 0 {
        let head =
            "You are a helpful assistant built into Echo Scribe, a voice note and task capture app. Today is "@;
        let tail = p.skip((head.len() + today.len()) as int);
        law_occurs_in(p, head, today, tail);
        assert(p =~= head + today + tail);
        reveal_strlit("");
        reveal_strlit(
            " No captures were found for the requested time period — do not guess or invent content.",
        );
        assert(
        " No captures were found for the requested time period — do not guess or invent content."@.len()
            > 0);
    } else {
        let head = "You are a helpful assistant built into Echo Scribe. Today is "@;
        let mid = ". Here are the user's relevant notes and captures:\n\n---\n"@;
        let rest = p.skip((head.len() + today.len()) as int);
        law_occurs_in(p, head, today, rest);
        assert(p =~= head + today + rest);
        let a = head + today + mid;
        let b = p.skip((a.len() + all.len()) as int);
        assert(p =~= a + all + b);
        law_occurs_in(p, a, all, b);
        if 0 <= i < c.len() {
            lemma_line_occurs(lines, i, "\n"@);
            law_occurs_in(all, all, lines[i], all);
            let (x, y) = choose|x: Seq<char>, y: Seq<char>| all == #[trigger] (x + lines[i] + y);
            law_occurs_in(p, a + x, lines[i], y + b);
            assert(p =~= a + x + lines[i] + (y + b));
        }
    }
}

proof fn lemma_line_occurs(list: Seq<Seq<char>>, i: int, sep: Seq<char>)
    requires
        0 <= i < list.len(),
    ensures
        occurs_in(joined(list, sep), list[i]),
    decreases list.len(),
{
    let all = joined(list, sep);
    let none = Seq::<char>::empty();
    if list.len() == 1 {
        law_occurs_in(all, none, list[i], none);
        assert(none + list[i] + none =~= all);
    } else if i == list.len() - 1 {
        let a = joined(list.drop_last(), sep) + sep;
        law_occurs_in(all, a, list[i], none);
        assert(a + list[i] + none =~= all);
    } else {
        let front = list.drop_last();
        lemma_line_occurs(front, i, sep);
        let f = joined(front, sep);
        law_occurs_in(f, none, list[i], none);
        let (x, y) = choose|x: Seq<char>, y: Seq<char>| f == #[trigger] (x + front[i] + y);
        law_occurs_in(all, x, list[i], y + sep + list.last());
        assert(x + list[i] + (y + sep + list.last()) =~= all);
    }
}

// ----- the course of a turn -----

/// One piece of work of a turn.
#[derive(Clone, Copy, PartialEq, Eq, Structural, Debug)]
pub enum TurnStep {
    CheckModel,
    StoreQuestion,
    /// Succeeds where the chat has no name of its own.
    CheckName,
    Search,
    Generate,
    StoreReply,
    Touch,
    Rename,
    Finished(TurnEnd),
}

/// How a turn ends.
#[derive(Clone, Copy, PartialEq, Eq, Structural, Debug)]
pub enum TurnEnd {
    Answered,
    /// There is no model; the user is told so in place of an answer.
    NoModel,
    Failed,
}

/// A turn under way.
#[derive(Clone, Copy, PartialEq, Eq, Structural, Debug)]
pub struct Turn {
    pub step: TurnStep,
    /// The chat has no name of its own.
    pub unnamed: bool,
    /// The message holds words to search for.
    pub searchable: bool,
}

impl Turn {
    /// A turn that has not begun.
    pub open spec fn begun(searchable: bool) -> Turn {
        Turn { step: TurnStep::CheckModel, unnamed: false, searchable }
    }

    /// A turn that has not begun.
    pub fn start(searchable: bool) -> (r: Turn)
        ensures
            r == Turn::begun(searchable),
    {
        Turn { step: TurnStep::CheckModel, unnamed: false, searchable }
    }

    /// The turn after the current step succeeded or failed. Neither searching nor naming the chat
    /// can fail it.
    pub open spec fn after(self, ok: bool) -> Turn {
        let failed = TurnStep::Finished(TurnEnd::Failed);
        let step = match self.step {
            TurnStep::CheckModel => if ok {
                TurnStep::StoreQuestion
            } else {
                TurnStep::Finished(TurnEnd::NoModel)
            },
            TurnStep::StoreQuestion => if ok {
                TurnStep::CheckName
            } else {
                failed
            },
            TurnStep::CheckName => if self.searchable {
                TurnStep::Search
            } else {
                TurnStep::Generate
            },
            TurnStep::Search => TurnStep::Generate,
            TurnStep::Generate => if ok {
                TurnStep::StoreReply
            } else {
                failed
            },
            TurnStep::StoreReply => if ok {
                TurnStep::Touch
            } else {
                failed
            },
            TurnStep::Touch => if !ok {
                failed
            } else if self.unnamed {
                TurnStep::Rename
            } else {
                TurnStep::Finished(TurnEnd::Answered)
            },
            TurnStep::Rename => TurnStep::Finished(TurnEnd::Answered),
            TurnStep::Finished(end) => TurnStep::Finished(end),
        };
        let unnamed = if self.step == TurnStep::CheckName {
            ok
        } else {
            self.unnamed
        };
        Turn { step, unnamed, searchable: self.searchable }
    }

    /// Takes in whether the current step succeeded.
    pub fn advance(self, ok: bool) -> (r: Turn)
        ensures
            r == self.after(ok),
    {
        let step = match (self.step, ok) {
            (TurnStep::CheckModel, true) => TurnStep::StoreQuestion,
            (TurnStep::CheckModel, false) => TurnStep::Finished(TurnEnd::NoModel),
            (TurnStep::StoreQuestion, true) => TurnStep::CheckName,
            (TurnStep::CheckName, _) => if self.searchable {
                TurnStep::Search
            } else {
                TurnStep::Generate
            },
            (TurnStep::Search, _) => TurnStep::Generate,
            (TurnStep::Generate, true) => TurnStep::StoreReply,
            (TurnStep::StoreReply, true) => TurnStep::Touch,
            (TurnStep::Touch, true) => if self.unnamed {
                TurnStep::Rename
            } else {
                TurnStep::Finished(TurnEnd::Answered)
            },
            (TurnStep::Rename, _) => TurnStep::Finished(TurnEnd::Answered),
            (TurnStep::Finished(end), _) => TurnStep::Finished(end),
            (_, false) => TurnStep::Finished(TurnEnd::Failed),
        };
        let unnamed = match self.step {
            TurnStep::CheckName => ok,
            _ => self.unnamed,
        };
        Turn { step, unnamed, searchable: self.searchable }
    }

    /// Where `n` steps lead when each succeeds or fails as `answers` says.
    pub open spec fn run(self, answers: spec_fn(TurnStep) -> bool, n: nat) -> Turn
        decreases n,
    {
        if n == 0 || self.step is Finished {
            self
        } else {
            self.after(answers(self.step)).run(answers, (n - 1) as nat)
        }
    }
}

/// Eight steps always finish a turn. It is answered exactly where there is a model, it answers,
/// and question and answer are stored; without a model nothing is stored at all.
pub proof fn law_turn_ends(searchable: bool, answers: spec_fn(TurnStep) -> bool)
    ensures
        ({
            let t = Turn::begun(searchable).run(answers, 8);
            &&& t.step is Finished
            &&& t.step == TurnStep::Finished(TurnEnd::NoModel) <==> !answers(TurnStep::CheckModel)
            &&& t.step == TurnStep::Finished(TurnEnd::Answered) <==> answers(TurnStep::CheckModel)
                && answers(TurnStep::StoreQuestion) && answers(TurnStep::Generate) && answers(
                TurnStep::StoreReply,
            ) && answers(TurnStep::Touch)
        }),
{
    reveal_with_fuel(Turn::run, 9);
}

/// A chat that has a name keeps it: a turn that was answered is followed by a renaming exactly
/// where the chat had no name of its own.
pub proof fn law_named_chats_keep_their_names(searchable: bool, answers: spec_fn(TurnStep) -> bool)
    requires
        answers(TurnStep::CheckModel),
        answers(TurnStep::StoreQuestion),
        answers(TurnStep::Generate),
        answers(TurnStep::StoreReply),
        answers(TurnStep::Touch),
    ensures
        ({
            let n: nat = if searchable {
                7
            } else {
                6
            };
            let t = Turn::begun(searchable).run(answers, n);
            t.step == (if answers(TurnStep::CheckName) {
                TurnStep::Rename
            } else {
                TurnStep::Finished(TurnEnd::Answered)
            })
        }),
{
    reveal_with_fuel(Turn::run, 9);
}

/// How the steps of a turn hang together: each is reached only from the one before it, and only
/// where that succeeded, if it can fail at all. The search is left out where there is nothing to
/// search for, and the chat is renamed only where it was found to have no name.
pub proof fn law_steps_of_a_turn(t: Turn, ok: bool)
    ensures
        t.after(ok).step == TurnStep::StoreQuestion <==> t.step == TurnStep::CheckModel && ok,
        t.after(ok).step == TurnStep::CheckName <==> t.step == TurnStep::StoreQuestion && ok,
        t.after(ok).step == TurnStep::Search <==> t.step == TurnStep::CheckName && t.searchable,
        t.after(ok).step == TurnStep::Generate <==> t.step == TurnStep::Search || (t.step
            == TurnStep::CheckName && !t.searchable),
        t.after(ok).step == TurnStep::StoreReply <==> t.step == TurnStep::Generate && ok,
        t.after(ok).step == TurnStep::Touch <==> t.step == TurnStep::StoreReply && ok,
        t.after(ok).step == TurnStep::Rename <==> t.step == TurnStep::Touch && ok && t.unnamed,
        t.after(ok).step != TurnStep::CheckModel,
        t.step is Finished ==> t.after(ok) == t,
        !(t.step is Finished) ==> {
            &&& t.after(ok).step == TurnStep::Finished(TurnEnd::NoModel) <==> t.step
                == TurnStep::CheckModel && !ok
            &&& t.after(ok).step == TurnStep::Finished(TurnEnd::Failed) <==> !ok && (t.step
                == TurnStep::StoreQuestion || t.step == TurnStep::Generate || t.step
                == TurnStep::StoreReply || t.step == TurnStep::Touch)
        },
        t.after(ok).searchable == t.searchable,
        t.step == TurnStep::CheckName ==> t.after(ok).unnamed == ok,
        t.step != TurnStep::CheckName ==> t.after(ok).unnamed == t.unnamed,
{
}

} // verus!
