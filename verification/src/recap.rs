//! Daily recaps, as they are handed to the page that shows them.
use vstd::prelude::*;
use vstd::string::*;

use crate::json::{json_tree, parse_json, trees, Json, JsonTree};
use crate::text::texts;

verus! {

/// What became of a day's recap.
#[derive(Clone, Copy, PartialEq, Eq, Structural, Debug)]
pub enum SummaryStatus {
    Generated,
    SkippedEmpty,
    Failed,
}

/// A day's recap as it is stored.
#[derive(Debug)]
pub struct DailySummaryRow {
    pub date: String,
    pub generated_at: String,
    pub status: SummaryStatus,
    pub narrative: String,
    pub sections_json: String,
    pub source_meeting_ids_json: String,
    pub source_item_ids_json: String,
    pub model_version: String,
}

/// A day's recap as it is shown.
pub struct DailySummaryDto {
    pub date: String,
    pub generated_at: String,
    pub status: String,
    pub narrative: String,
    pub sections: Json,
    pub source_meeting_ids: Vec<String>,
    pub source_item_ids: Vec<String>,
    pub model_version: String,
}

/// The word for what became of a recap.
pub open spec fn status_word(s: SummaryStatus) -> Seq<char> {
    match s {
        SummaryStatus::Generated => "generated"@,
        SummaryStatus::SkippedEmpty => "skipped_empty"@,
        SummaryStatus::Failed => "failed"@,
    }
}

/// The document in a text; an empty record where the text is no JSON.
pub open spec fn document_or_empty(text: Seq<char>) -> JsonTree {
    match json_tree(text) {
        Some(t) => t,
        None => JsonTree::Record(Seq::empty()),
    }
}

/// Whether every item of a list is a text.
pub open spec fn all_texts(s: Seq<JsonTree>) -> bool {
    forall|i: int| 0 <= i < s.len() ==> (#[trigger] s[i]).text() is Some
}

/// The texts that a document lists; none where it is anything but a list of texts.
pub open spec fn listed(doc: Option<JsonTree>) -> Seq<Seq<char>> {
    match doc {
        Some(JsonTree::List(s)) => if all_texts(s) {
            s.map_values(|t: JsonTree| t.text()->0)
        } else {
            Seq::empty()
        },
        _ => Seq::empty(),
    }
}

/// The texts that a document lists; none where it is anything but a list of texts.
pub fn list_of_texts(doc: &Option<Json>) -> (r: Vec<String>)
    ensures
        texts(r@) == listed(
            match doc {
                Some(j) => Some(j@),
                None => None,
            },
        ),
{
    let mut out: Vec<String> = Vec::new();
    assert(texts(out@) == Seq::<Seq<char>>::empty());
    if let Some(j) = doc {
        if let Json::List(v) = j {
            let ghost s = j@->List_0;
            assert(s == trees(v@));
            let mut i: usize = 0;
            while i < v.len()
                invariant
                    i <= v@.len(),
                    s == trees(v@),
                    doc == Some(*j),
                    j@ == JsonTree::List(s),
                    out@.len() == i,
                    forall|k: int| 0 <= k < i ==> s[k].text() == Some((#[trigger] out@[k])@),
                decreases v@.len() - i,
            {
                assert(s[i as int] == v@[i as int]@);
                match v[i].as_text() {
                    Some(t) => {
                        out.push(t.to_owned());
                    },
                    None => {
                        assert(!all_texts(s));
                        let none: Vec<String> = Vec::new();
                        assert(texts(none@) == Seq::<Seq<char>>::empty());
                        return none;
                    },
                }
                i = i + 1;
            }
            proof {
                assert forall|k: int| 0 <= k < s.len() implies (#[trigger] s[k]).text() is Some by {
                    assert(s[k].text() == Some(out@[k]@));
                }
                assert(texts(out@) == s.map_values(|t: JsonTree| t.text()->0));
            }
        }
    }
    out
}

/// Whether `r` is a recap as it is handed to the page.
pub open spec fn is_dto_of(r: DailySummaryDto, row: DailySummaryRow) -> bool {
    &&& r.date == row.date
    &&& r.generated_at == row.generated_at
    &&& r.status@ == status_word(row.status)
    &&& r.narrative == row.narrative
    &&& r.sections@ == document_or_empty(row.sections_json@)
    &&& texts(r.source_meeting_ids@) == listed(json_tree(row.source_meeting_ids_json@))
    &&& texts(r.source_item_ids@) == listed(json_tree(row.source_item_ids_json@))
    &&& r.model_version == row.model_version
}

/// A day's recap as it is shown. What cannot be read of it is shown as empty.
pub fn to_dto(row: DailySummaryRow) -> (r: DailySummaryDto)
    ensures
        is_dto_of(r, row),
{
    let status = match row.status {
        SummaryStatus::Generated => "generated",
        SummaryStatus::SkippedEmpty => "skipped_empty",
        SummaryStatus::Failed => "failed",
    };
    let sections = match parse_json(row.sections_json.as_str()) {
        Some(j) => j,
        None => {
            let j = Json::Record(Vec::new());
            assert(j@->Record_0 =~= Seq::<(Seq<char>, JsonTree)>::empty());
            j
        },
    };
    let meetings = parse_json(row.source_meeting_ids_json.as_str());
    let items = parse_json(row.source_item_ids_json.as_str());
    DailySummaryDto {
        date: row.date,
        generated_at: row.generated_at,
        status: status.to_owned(),
        narrative: row.narrative,
        sections,
        source_meeting_ids: list_of_texts(&meetings),
        source_item_ids: list_of_texts(&items),
        model_version: row.model_version,
    }
}

/// The words for what became of a recap.
pub proof fn law_statuses_in_words()
    ensures
        status_word(SummaryStatus::Generated) == seq!['g', 'e', 'n', 'e', 'r', 'a', 't', 'e', 'd'],
        status_word(SummaryStatus::SkippedEmpty) == seq![
            's', 'k', 'i', 'p', 'p', 'e', 'd', '_', 'e', 'm', 'p', 't', 'y',
        ],
        status_word(SummaryStatus::Failed) == seq!['f', 'a', 'i', 'l', 'e', 'd'],
{
    reveal_strlit("generated");
    assert("generated"@ =~= seq!['g', 'e', 'n', 'e', 'r', 'a', 't', 'e', 'd']);
    reveal_strlit("skipped_empty");
    assert("skipped_empty"@ =~= seq![
        's', 'k', 'i', 'p', 'p', 'e', 'd', '_', 'e', 'm', 'p', 't', 'y',
    ]);
    reveal_strlit("failed");
    assert("failed"@ =~= seq!['f', 'a', 'i', 'l', 'e', 'd']);
}

/// A document that is a list of texts gives these texts, in order; one that is anything else, or has
/// anything else among them, gives none.
pub proof fn law_lists_of_texts(s: Seq<JsonTree>, i: int, t: JsonTree)
    ensures
        listed(None).len() == 0,
        !(t is List) ==> listed(Some(t)).len() == 0,
        0 <= i < s.len() && !(s[i] is Text) ==> listed(Some(JsonTree::List(s))).len() == 0,
        (forall|k: int| 0 <= k < s.len() ==> #[trigger] s[k] is Text) ==> {
            &&& listed(Some(JsonTree::List(s))).len() == s.len()
            &&& 0 <= i < s.len() ==> s[i] == JsonTree::Text(listed(Some(JsonTree::List(s)))[i])
        },
{
    if 0 <= i < s.len() && !(s[i] is Text) {
        assert(s[i].text() is None);
        assert(!all_texts(s));
    }
    if forall|k: int| 0 <= k < s.len() ==> #[trigger] s[k] is Text {
        assert forall|k: int| 0 <= k < s.len() implies (#[trigger] s[k]).text() is Some by {
            assert(s[k] is Text);
        }
        assert(all_texts(s));
    }
}

/// A recap is handed on whole: its texts as they are, its sections as they are written, an empty
/// record where they cannot be read, and the meetings and the items each from their own list.
pub proof fn law_recap_is_handed_on_whole(
    r: DailySummaryDto,
    row: DailySummaryRow,
    meetings: Seq<JsonTree>,
    items: Seq<JsonTree>,
)
    requires
        is_dto_of(r, row),
    ensures
        (r.date@, r.generated_at@) == (row.date@, row.generated_at@),
        (r.narrative@, r.model_version@) == (row.narrative@, row.model_version@),
        r.status@ == seq![
            'g', 'e', 'n', 'e', 'r', 'a', 't', 'e', 'd',
        ] <==> row.status == SummaryStatus::Generated,
        r.status@ == seq!['f', 'a', 'i', 'l', 'e', 'd'] <==> row.status == SummaryStatus::Failed,
        json_tree(row.sections_json@) matches Some(t) ==> r.sections@ == t,
        json_tree(row.sections_json@) is None ==> r.sections@ == JsonTree::Record(Seq::empty()),
        json_tree(row.source_meeting_ids_json@) == Some(JsonTree::List(meetings)) ==> texts(
            r.source_meeting_ids@,
        ) == listed(Some(JsonTree::List(meetings))),
        json_tree(row.source_item_ids_json@) == Some(JsonTree::List(items)) ==> texts(
            r.source_item_ids@,
        ) == listed(Some(JsonTree::List(items))),
{
    reveal_strlit("generated");
    assert("generated"@ =~= seq!['g', 'e', 'n', 'e', 'r', 'a', 't', 'e', 'd']);
    reveal_strlit("skipped_empty");
    assert("skipped_empty"@ =~= seq![
        's', 'k', 'i', 'p', 'p', 'e', 'd', '_', 'e', 'm', 'p', 't', 'y',
    ]);
    reveal_strlit("failed");
    assert("failed"@ =~= seq!['f', 'a', 'i', 'l', 'e', 'd']);
    assert("generated"@[0] == 'g' && "skipped_empty"@[0] == 's' && "failed"@[0] == 'f');
}

} // verus!
