//! The list of exports that a recording carries: a JSON array with one record for each quality
//! that was exported.
//!
//! Recording an export replaces the earlier one of the same quality and leaves all others as they
//! were, so the rendered video and the rendered GIF of a recording stand beside each other.
use vstd::prelude::*;
use vstd::string::*;

use crate::json::{
    json_text, json_tree, member_of, parse_json, print_json, trees, Json, JsonTree, MAX_DEPTH,
};
use crate::order::before;
use crate::text::{opt_text, same_opt, texts};

verus! {

/// The entries that an exports text holds: those of a JSON array, none of any other text.
pub open spec fn entries(exports: Seq<char>) -> Seq<JsonTree> {
    match json_tree(exports) {
        Some(t) => match t.items() {
            Some(s) => s,
            None => Seq::empty(),
        },
        None => Seq::empty(),
    }
}

/// Whether an entry is one of `quality`.
pub open spec fn is_of(t: JsonTree, quality: Seq<char>) -> bool {
    t.member_text("quality"@) == Some(quality)
}

/// The entries of other qualities, in their order.
pub open spec fn others(s: Seq<JsonTree>, quality: Seq<char>) -> Seq<JsonTree> {
    s.filter(|t: JsonTree| !is_of(t, quality))
}

/// The entry for one export.
pub open spec fn export_entry(quality: Seq<char>, path: Seq<char>, size: u64) -> JsonTree {
    JsonTree::Record(
        seq![
            ("path"@, JsonTree::Text(path)),
            ("quality"@, JsonTree::Text(quality)),
            ("size"@, JsonTree::Unsigned(size)),
        ],
    )
}

/// The entries once an export is recorded: those of other qualities, and the new one last.
pub open spec fn merged(s: Seq<JsonTree>, quality: Seq<char>, path: Seq<char>, size: u64) -> Seq<
    JsonTree,
> {
    others(s, quality).push(export_entry(quality, path, size))
}

/// The path in each entry that has one, in order.
pub open spec fn paths_in(s: Seq<JsonTree>) -> Seq<Seq<char>>
    decreases s.len(),
{
    if s.len() == 0 {
        Seq::empty()
    } else {
        match s.last().member_text("path"@) {
            Some(p) => paths_in(s.drop_last()).push(p),
            None => paths_in(s.drop_last()),
        }
    }
}

/// The first entry of `quality`.
pub open spec fn first_of(s: Seq<JsonTree>, quality: Seq<char>) -> Option<JsonTree>
    decreases s.len(),
{
    if s.len() == 0 {
        None
    } else if is_of(s[0], quality) {
        Some(s[0])
    } else {
        first_of(s.drop_first(), quality)
    }
}

/// The path in the first entry of `quality`, where that entry has one.
pub open spec fn path_of(s: Seq<JsonTree>, quality: Seq<char>) -> Option<Seq<char>> {
    match first_of(s, quality) {
        Some(t) => t.member_text("path"@),
        None => None,
    }
}

proof fn lemma_drop_unwanted(s: Seq<JsonTree>, i: int, quality: Seq<char>)
    requires
        0 <= i < s.len(),
        is_of(s[i], quality),
    ensures
        others(s.remove(i), quality) == others(s, quality),
{
    let keep = |t: JsonTree| !is_of(t, quality);
    let a = s.take(i);
    let b = s.skip(i + 1);
    assert(s == a.push(s[i]) + b);
    assert(s.remove(i) == a + b);
    Seq::filter_distributes_over_add(a.push(s[i]), b, keep);
    Seq::filter_distributes_over_add(a, b, keep);
    assert(a.push(s[i]).filter(keep) == a.filter(keep)) by {
        reveal(Seq::filter);
        assert(a.push(s[i]).drop_last() == a);
    }
}

proof fn lemma_all_wanted(s: Seq<JsonTree>, quality: Seq<char>)
    requires
        forall|k: int| 0 <= k < s.len() ==> !is_of(#[trigger] s[k], quality),
    ensures
        others(s, quality) == s,
    decreases s.len(),
{
    let keep = |t: JsonTree| !is_of(t, quality);
    reveal(Seq::filter);
    if s.len() > 0 {
        lemma_all_wanted(s.drop_last(), quality);
        assert(s == s.drop_last().push(s.last()));
    }
}

/// Records an export among `list`: the entry of the same quality, if there is one, gives way.
pub fn merge_export(list: Vec<Json>, quality: &str, path: &str, size: u64) -> (r: Vec<Json>)
    ensures
        trees(r@) == merged(trees(list@), quality@, path@, size),
{
    let mut list = list;
    let ghost before_all = trees(list@);
    let mut i: usize = 0;
    while i < list.len()
        invariant
            i <= list@.len(),
            others(trees(list@), quality@) == others(before_all, quality@),
            forall|k: int| 0 <= k < i ==> !is_of(#[trigger] trees(list@)[k], quality@),
        decreases list@.len() - i,
    {
        let found = list[i].get_text("quality");
        let unwanted = same_opt(found, Some(quality));
        assert(trees(list@)[i as int] == list@[i as int]@);
        if unwanted {
            let ghost was = list@;
            proof {
                lemma_drop_unwanted(trees(was), i as int, quality@);
            }
            list.remove(i);
            assert(trees(list@) == trees(was).remove(i as int));
        } else {
            i = i + 1;
        }
    }
    proof {
        lemma_all_wanted(trees(list@), quality@);
    }
    let ghost rest = list@;
    let mut fields: Vec<(String, Json)> = Vec::new();
    fields.push(("path".to_owned(), Json::Text(path.to_owned())));
    fields.push(("quality".to_owned(), Json::Text(quality.to_owned())));
    fields.push(("size".to_owned(), Json::Unsigned(size)));
    let entry = Json::Record(fields);
    assert(entry@->Record_0 == export_entry(quality@, path@, size)->Record_0) by {
        reveal_with_fuel(Json::tree, 3);
    }
    list.push(entry);
    assert(trees(list@) == trees(rest).push(entry@));
    list
}

/// The entries that an exports text holds.
pub fn parse_exports(exports: &str) -> (r: Vec<Json>)
    ensures
        trees(r@) == entries(exports@),
        JsonTree::List(trees(r@)).orderly(MAX_DEPTH as nat),
{
    match parse_json(exports) {
        Some(Json::List(v)) => {
            assert(trees(v@) == Json::List(v)@->List_0);
            v
        },
        _ => {
            let v: Vec<Json> = Vec::new();
            assert(trees(v@) == Seq::<JsonTree>::empty());
            v
        },
    }
}

/// The exports text once an export is recorded in it. A text that holds no JSON array counts as
/// one without entries. What was recorded is read back: where the earlier entries hold no number
/// but integers, the new text holds exactly the merged entries.
pub fn exports_with(existing: &str, quality: &str, path: &str, size: u64) -> (r: String)
    ensures
        r@ == json_text(JsonTree::List(merged(entries(existing@), quality@, path@, size))),
        JsonTree::List(entries(existing@)).integral(MAX_DEPTH as nat) ==> entries(r@) == merged(
            entries(existing@),
            quality@,
            path@,
            size,
        ),
{
    let parsed = parse_exports(existing);
    proof {
        lemma_merged_prints_whole(trees(parsed@), quality@, path@, size);
    }
    let list = merge_export(parsed, quality, path, size);
    let doc = Json::List(list);
    assert(doc@->List_0 == trees(list@));
    print_json(&doc)
}

/// The path in each entry that has one, in order.
pub fn paths_of(list: &Vec<Json>) -> (r: Vec<String>)
    ensures
        texts(r@) == paths_in(trees(list@)),
{
    let mut out: Vec<String> = Vec::new();
    let mut i: usize = 0;
    assert(texts(out@) == paths_in(trees(list@).take(0)));
    while i < list.len()
        invariant
            i <= list@.len(),
            texts(out@) == paths_in(trees(list@).take(i as int)),
        decreases list@.len() - i,
    {
        let ghost upto = trees(list@).take(i + 1);
        assert(upto.drop_last() == trees(list@).take(i as int));
        assert(upto.last() == list@[i as int]@);
        if let Some(p) = list[i].get_text("path") {
            let ghost was = out@;
            out.push(p.to_owned());
            assert(texts(out@) == texts(was).push(p@));
        }
        i = i + 1;
    }
    assert(trees(list@).take(i as int) == trees(list@));
    out
}

/// The file paths that an exports text records. A text that holds no JSON array records none.
pub fn export_paths(exports_json: &str) -> (r: Vec<String>)
    ensures
        texts(r@) == paths_in(entries(exports_json@)),
{
    paths_of(&parse_exports(exports_json))
}

/// The path in the first entry of `quality`, where that entry has one.
pub fn path_of_quality(list: &Vec<Json>, quality: &str) -> (r: Option<String>)
    ensures
        opt_text(r) == path_of(trees(list@), quality@),
{
    let mut i: usize = 0;
    assert(trees(list@).skip(0) == trees(list@));
    while i < list.len()
        invariant
            i <= list@.len(),
            first_of(trees(list@), quality@) == first_of(trees(list@).skip(i as int), quality@),
        decreases list@.len() - i,
    {
        let ghost rest = trees(list@).skip(i as int);
        assert(rest[0] == list@[i as int]@);
        assert(rest.drop_first() == trees(list@).skip(i + 1));
        if same_opt(list[i].get_text("quality"), Some(quality)) {
            return match list[i].get_text("path") {
                Some(p) => Some(p.to_owned()),
                None => None,
            };
        }
        i = i + 1;
    }
    None
}

/// Where the edited video of a recording is, as its exports text records it.
pub fn rendered_path(exports: &str) -> (r: Option<String>)
    ensures
        opt_text(r) == path_of(entries(exports@), "rendered"@),
{
    path_of_quality(&parse_exports(exports), "rendered")
}

// ----- laws -----

proof fn lemma_entry_fields(quality: Seq<char>, path: Seq<char>, size: u64)
    ensures
        export_entry(quality, path, size).member_text("quality"@) == Some(quality),
        export_entry(quality, path, size).member_text("path"@) == Some(path),
        export_entry(quality, path, size).orderly(1),
        export_entry(quality, path, size).integral(1),
{
    reveal_strlit("quality");
    reveal_strlit("path");
    reveal_strlit("size");
    reveal_with_fuel(member_of, 4);
    reveal_with_fuel(before, 2);
    assert("path"@[0] == 'p' && "quality"@[0] == 'q' && "size"@[0] == 's');
    let s = export_entry(quality, path, size)->Record_0;
    assert(s.drop_first()[0] == s[1]);
    assert(s[0].0 != s[1].0);
    reveal_with_fuel(JsonTree::orderly, 2);
    reveal_with_fuel(JsonTree::integral, 2);
}

proof fn lemma_first_of_others(s: Seq<JsonTree>, quality: Seq<char>, e: JsonTree)
    requires
        is_of(e, quality),
        forall|k: int| 0 <= k < s.len() ==> !is_of(#[trigger] s[k], quality),
    ensures
        first_of(s.push(e), quality) == Some(e),
    decreases s.len(),
{
    if s.len() > 0 {
        assert(s.push(e).drop_first() == s.drop_first().push(e));
        lemma_first_of_others(s.drop_first(), quality, e);
    } else {
        assert(s.push(e)[0] == e);
    }
}

/// Recording an export replaces, and never duplicates: exactly one entry of that quality is left,
/// the last one, and it leads to the recorded path.
pub proof fn law_export_replaces(s: Seq<JsonTree>, quality: Seq<char>, path: Seq<char>, size: u64)
    ensures
        ({
            let m = merged(s, quality, path, size);
            &&& m.last() == export_entry(quality, path, size)
            &&& forall|k: int|
                0 <= k < m.len() ==> (is_of(#[trigger] m[k], quality) <==> k == m.len() - 1)
            &&& path_of(m, quality) == Some(path)
        }),
{
    let keep = |t: JsonTree| !is_of(t, quality);
    lemma_entry_fields(quality, path, size);
    let o = others(s, quality);
    assert forall|k: int| 0 <= k < o.len() implies !is_of(#[trigger] o[k], quality) by {
        s.lemma_filter_pred(keep, k);
    }
    lemma_first_of_others(o, quality, export_entry(quality, path, size));
}

/// Recording an export of one quality leaves the entries of every other quality as they were: the
/// rendered GIF never displaces the rendered video.
pub proof fn law_export_keeps_other_qualities(
    s: Seq<JsonTree>,
    quality: Seq<char>,
    path: Seq<char>,
    size: u64,
    other: Seq<char>,
)
    requires
        other != quality,
    ensures
        path_of(merged(s, quality, path, size), other) == path_of(s, other),
        first_of(merged(s, quality, path, size), other) == first_of(s, other),
{
    lemma_entry_fields(quality, path, size);
    lemma_first_of_kept(s, quality, other);
    lemma_first_of_push(others(s, quality), export_entry(quality, path, size), other);
}

proof fn lemma_first_of_push(s: Seq<JsonTree>, e: JsonTree, other: Seq<char>)
    requires
        !is_of(e, other),
    ensures
        first_of(s.push(e), other) == first_of(s, other),
    decreases s.len(),
{
    if s.len() > 0 {
        assert(s.push(e).drop_first() == s.drop_first().push(e));
        lemma_first_of_push(s.drop_first(), e, other);
    } else {
        assert(s.push(e).drop_first() == s);
        assert(s.push(e)[0] == e);
    }
}

proof fn lemma_first_of_kept(s: Seq<JsonTree>, quality: Seq<char>, other: Seq<char>)
    requires
        other != quality,
    ensures
        first_of(others(s, quality), other) == first_of(s, other),
    decreases s.len(),
{
    let keep = |t: JsonTree| !is_of(t, quality);
    reveal(Seq::filter);
    if s.len() > 0 {
        let head = seq![s[0]];
        let tail = s.drop_first();
        assert(s == head + tail);
        Seq::filter_distributes_over_add(head, tail, keep);
        lemma_first_of_kept(tail, quality, other);
        assert(head.drop_last() == Seq::<JsonTree>::empty());
        if is_of(s[0], quality) {
            assert(!keep(head.last()));
            assert(head.filter(keep) == head.drop_last().filter(keep));
            assert(others(s, quality) == others(tail, quality));
        } else {
            assert(head.filter(keep) == head);
            assert(others(s, quality)[0] == s[0]);
            assert(others(s, quality).drop_first() == others(tail, quality));
        }
    }
}

proof fn lemma_integral_deeper(t: JsonTree, d: nat)
    requires
        t.integral(d),
    ensures
        t.integral(d + 1),
    decreases d,
{
    match t {
        JsonTree::List(s) => {
            assert forall|i: int| 0 <= i < s.len() implies (#[trigger] s[i]).integral(d) by {
                lemma_integral_deeper(s[i], (d - 1) as nat);
            }
        },
        JsonTree::Record(s) => {
            assert forall|i: int| 0 <= i < s.len() implies (#[trigger] s[i]).1.integral(d) by {
                lemma_integral_deeper(s[i].1, (d - 1) as nat);
            }
        },
        _ => {},
    }
}

proof fn lemma_orderly_deeper(t: JsonTree, d: nat)
    requires
        t.orderly(d),
    ensures
        t.orderly(d + 1),
    decreases d,
{
    match t {
        JsonTree::List(s) => {
            assert forall|i: int| 0 <= i < s.len() implies (#[trigger] s[i]).orderly(d) by {
                lemma_orderly_deeper(s[i], (d - 1) as nat);
            }
        },
        JsonTree::Record(s) => {
            assert forall|i: int| 0 <= i < s.len() implies (#[trigger] s[i]).1.orderly(d) by {
                lemma_orderly_deeper(s[i].1, (d - 1) as nat);
            }
        },
        _ => {},
    }
}

proof fn lemma_shallow_anywhere(t: JsonTree, d: nat)
    requires
        t.orderly(1),
        t.integral(1),
        d >= 1,
    ensures
        t.orderly(d),
        t.integral(d),
    decreases d,
{
    if d > 1 {
        lemma_shallow_anywhere(t, (d - 1) as nat);
        lemma_orderly_deeper(t, (d - 1) as nat);
        lemma_integral_deeper(t, (d - 1) as nat);
    }
}

proof fn lemma_merged_prints_whole(
    s: Seq<JsonTree>,
    quality: Seq<char>,
    path: Seq<char>,
    size: u64,
)
    requires
        JsonTree::List(s).orderly(MAX_DEPTH as nat),
    ensures
        JsonTree::List(merged(s, quality, path, size)).orderly(MAX_DEPTH as nat),
        JsonTree::List(s).integral(MAX_DEPTH as nat) ==> JsonTree::List(
            merged(s, quality, path, size),
        ).integral(MAX_DEPTH as nat),
{
    let d = (MAX_DEPTH - 1) as nat;
    let m = merged(s, quality, path, size);
    let o = others(s, quality);
    lemma_entry_fields(quality, path, size);
    lemma_shallow_anywhere(export_entry(quality, path, size), d);
    let doc = JsonTree::List(s);
    assert forall|k: int| 0 <= k < m.len() implies (#[trigger] m[k]).orderly(d) by {
        if k < o.len() {
            lemma_filter_from(s, |t: JsonTree| !is_of(t, quality), k);
            let j = choose|j: int| 0 <= j < s.len() && s[j] == o[k];
            assert(doc->List_0[j].orderly(d));
        }
    }
    if JsonTree::List(s).integral(MAX_DEPTH as nat) {
        assert forall|k: int| 0 <= k < m.len() implies (#[trigger] m[k]).integral(d) by {
            if k < o.len() {
                lemma_filter_from(s, |t: JsonTree| !is_of(t, quality), k);
                let j = choose|j: int| 0 <= j < s.len() && s[j] == o[k];
                assert(doc->List_0[j].integral(d));
            }
        }
    }
}

proof fn lemma_filter_from(s: Seq<JsonTree>, keep: spec_fn(JsonTree) -> bool, k: int)
    requires
        0 <= k < s.filter(keep).len(),
    ensures
        exists|j: int| 0 <= j < s.len() && s[j] == s.filter(keep)[k],
    decreases s.len(),
{
    reveal(Seq::filter);
    let f = s.drop_last().filter(keep);
    if k < f.len() {
        lemma_filter_from(s.drop_last(), keep, k);
        let j = choose|j: int| 0 <= j < s.drop_last().len() && s.drop_last()[j] == f[k];
        assert(s[j] == s.filter(keep)[k]);
    } else {
        assert(s[s.len() - 1] == s.filter(keep)[k]);
    }
}

/// An entry tells its quality, its path and its size under these names, and can be read as such.
pub proof fn law_entry_tells_its_parts(quality: Seq<char>, path: Seq<char>, size: u64)
    ensures
        export_entry(quality, path, size).member_text(seq!['q', 'u', 'a', 'l', 'i', 't', 'y']) == Some(quality),
        export_entry(quality, path, size).member_text(seq!['p', 'a', 't', 'h']) == Some(path),
        export_entry(quality, path, size).member(seq!['s', 'i', 'z', 'e']) == Some(JsonTree::Unsigned(size)),
        forall|t: JsonTree|
            #[trigger] is_of(t, quality) <==> t.member_text(seq!['q', 'u', 'a', 'l', 'i', 't', 'y'])
                == Some(quality),
{
    reveal_strlit("quality");
    assert("quality"@ =~= seq!['q', 'u', 'a', 'l', 'i', 't', 'y']);
    reveal_strlit("path");
    assert("path"@ =~= seq!['p', 'a', 't', 'h']);
    reveal_strlit("size");
    assert("size"@ =~= seq!['s', 'i', 'z', 'e']);
    let e = seq![
        ("path"@, JsonTree::Text(path)),
        ("quality"@, JsonTree::Text(quality)),
        ("size"@, JsonTree::Unsigned(size)),
    ];
    assert("path"@.len() == 4 && "quality"@.len() == 7 && "size"@.len() == 4);
    assert("path"@[0] != "size"@[0]);
    reveal_with_fuel(member_of, 4);
    assert(e.drop_first()[0] == e[1]);
    assert(e.drop_first().drop_first()[0] == e[2]);
    assert(member_of(e, "quality"@) == Some(JsonTree::Text(quality)));
    assert(member_of(e, "path"@) == Some(JsonTree::Text(path)));
    assert(member_of(e, "size"@) == Some(JsonTree::Unsigned(size)));
}

/// Every entry of another quality stays, in its place; an entry of the same quality goes.
pub proof fn law_other_entries_stay(s: Seq<JsonTree>, t: JsonTree, quality: Seq<char>)
    ensures
        others(Seq::empty(), quality).len() == 0,
        t.member_text(seq!['q', 'u', 'a', 'l', 'i', 't', 'y']) == Some(quality) ==> others(s.push(t), quality) == others(
            s,
            quality,
        ),
        t.member_text(seq!['q', 'u', 'a', 'l', 'i', 't', 'y']) != Some(quality) ==> others(s.push(t), quality) == others(
            s,
            quality,
        ).push(t),
{
    reveal_strlit("quality");
    assert("quality"@ =~= seq!['q', 'u', 'a', 'l', 'i', 't', 'y']);
    reveal(Seq::filter);
    assert(s.push(t).drop_last() =~= s);
}

/// Every entry with a path gives it, in its place; an entry without one gives nothing.
pub proof fn law_every_path_is_listed(s: Seq<JsonTree>, t: JsonTree)
    ensures
        paths_in(Seq::empty()).len() == 0,
        t.member_text(seq!['p', 'a', 't', 'h']) matches Some(p) ==> paths_in(s.push(t)) == paths_in(s).push(p),
        t.member_text(seq!['p', 'a', 't', 'h']) is None ==> paths_in(s.push(t)) == paths_in(s),
{
    reveal_strlit("path");
    assert("path"@ =~= seq!['p', 'a', 't', 'h']);
    assert(s.push(t).drop_last() =~= s);
}

/// The path of a quality is that of its first entry, and there is none where it has no entry.
pub proof fn law_first_entry_has_the_path(s: Seq<JsonTree>, quality: Seq<char>, k: int)
    requires
        0 <= k <= s.len(),
        forall|j: int| 0 <= j < k ==> (#[trigger] s[j]).member_text(seq!['q', 'u', 'a', 'l', 'i', 't', 'y']) != Some(quality),
    ensures
        k == s.len() ==> path_of(s, quality) is None && first_of(s, quality) is None,
        k < s.len() && s[k].member_text(seq!['q', 'u', 'a', 'l', 'i', 't', 'y']) == Some(quality) ==> path_of(s, quality)
            == s[k].member_text(seq!['p', 'a', 't', 'h']) && first_of(s, quality) == Some(s[k]),
    decreases s.len(),
{
    reveal_strlit("quality");
    assert("quality"@ =~= seq!['q', 'u', 'a', 'l', 'i', 't', 'y']);
    reveal_strlit("path");
    assert("path"@ =~= seq!['p', 'a', 't', 'h']);
    if s.len() > 0 && k > 0 {
        let rest = s.drop_first();
        assert(s[0].member_text("quality"@) != Some(quality));
        assert forall|j: int| 0 <= j < k - 1 implies (#[trigger] rest[j]).member_text(
            "quality"@,
        ) != Some(quality) by {
            assert(rest[j] == s[j + 1]);
        }
        law_first_entry_has_the_path(rest, quality, k - 1);
    }
}

/// The entries of an exports text are the items of the array that it is; any other text has none.
pub proof fn law_entries_are_those_of_the_array(exports: Seq<char>, s: Seq<JsonTree>)
    ensures
        json_tree(exports) == Some(JsonTree::List(s)) ==> entries(exports) == s,
        json_tree(exports) is None || !(json_tree(exports)->0 is List) ==> entries(exports).len()
            == 0,
{
}

} // verus!
