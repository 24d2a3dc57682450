//! File paths as texts, with `/` between their parts: where a system has another sign, its paths are
//! handed over with slashes.
//!
//! Nothing here looks at the disk. Empty parts and `.` name nothing; `..` is kept as it stands.
use vstd::prelude::*;
use vstd::string::*;

use crate::search::{begins_with, last_position_of};
use crate::split::{first_at, joined, lemma_first_at, lemma_first_at_is};
use crate::text::{chars_of, glue, glue3, opt_text, same, text_of, texts};

verus! {

/// The parts of `s` between the `c`s: one more than there are `c`s.
pub open spec fn pieces(s: Seq<char>, c: char) -> Seq<Seq<char>>
    decreases s.len(),
{
    let k = first_at(s, c);
    if k >= s.len() {
        seq![s]
    } else {
        proof {
            lemma_first_at(s, c);
        }
        seq![s.take(k)] + pieces(s.skip(k + 1), c)
    }
}

/// The parts of `s` between the `c`s.
pub fn split_on(s: &str, c: char) -> (r: Vec<String>)
    ensures
        texts(r@) == pieces(s@, c),
{
    let v: Vec<char> = chars_of(s);
    let n: usize = v.len();
    let mut out: Vec<String> = Vec::new();
    let mut from: usize = 0;
    let mut i: usize = 0;
    proof {
        assert(v@.skip(0) == v@);
        assert(texts(out@) + pieces(v@, c) == pieces(s@, c));
    }
    while i < n
        invariant
            from <= i <= n == v@.len(),
            texts(out@) + pieces(v@.skip(from as int), c) == pieces(s@, c),
            forall|k: int| from <= k < i ==> #[trigger] v@[k] != c,
        decreases n - i,
    {
        if v[i] == c {
            let ghost here = v@.skip(from as int);
            let ghost was = texts(out@);
            proof {
                lemma_first_at_is(here, c, i - from);
                assert(here.take(i - from) == v@.subrange(from as int, i as int));
                assert(here.skip(i - from + 1) == v@.skip(i + 1));
            }
            let w = text_of(&v, from, i);
            out.push(w);
            from = i + 1;
            proof {
                assert(texts(out@) == was.push(w@));
                assert(was + (seq![w@] + pieces(v@.skip(from as int), c)) == was.push(w@) + pieces(
                    v@.skip(from as int),
                    c,
                ));
            }
        }
        i = i + 1;
    }
    let ghost here = v@.skip(from as int);
    let ghost was = texts(out@);
    proof {
        lemma_first_at_is(here, c, n - from);
        assert(here == v@.subrange(from as int, n as int));
    }
    let w = text_of(&v, from, n);
    out.push(w);
    assert(texts(out@) == was.push(w@));
    assert(was + seq![w@] == was.push(w@));
    out
}

/// Whether a part of a path names nothing.
pub open spec fn is_void(part: Seq<char>) -> bool {
    part.len() == 0 || part == "."@
}

fn void(part: &str) -> (r: bool)
    ensures
        r == is_void(part@),
{
    part.is_empty() || same(part, ".")
}

/// The last name among the parts of a path; none where `..` comes last.
pub open spec fn last_name(parts: Seq<Seq<char>>) -> Option<Seq<char>>
    decreases parts.len(),
{
    if parts.len() == 0 {
        None
    } else if is_void(parts.last()) {
        last_name(parts.drop_last())
    } else if parts.last() == ".."@ {
        None
    } else {
        Some(parts.last())
    }
}

/// The name of the file or folder that a path leads to.
pub open spec fn name_of(path: Seq<char>) -> Option<Seq<char>> {
    last_name(pieces(path, '/'))
}

/// The name of the file or folder that a path leads to.
pub fn file_name(path: &str) -> (r: Option<String>)
    ensures
        opt_text(r) == name_of(path@),
{
    let parts = split_on(path, '/');
    let ghost all = texts(parts@);
    let mut n: usize = parts.len();
    assert(all.take(n as int) == all);
    while n > 0
        invariant
            n <= parts@.len(),
            all == texts(parts@),
            all == pieces(path@, '/'),
            last_name(all) == last_name(all.take(n as int)),
        decreases n,
    {
        let ghost here = all.take(n as int);
        assert(here.last() == parts@[n - 1]@);
        assert(here.drop_last() == all.take(n - 1));
        let part = parts[n - 1].as_str();
        if !void(part) {
            if same(part, "..") {
                return None;
            }
            return Some(part.to_owned());
        }
        n = n - 1;
    }
    None
}

/// Where the last dot of a name parts it, if it does: a dot in front does not.
pub open spec fn dot_at(name: Seq<char>) -> Option<int> {
    if exists|k: int| is_last_dot(name, k) && k > 0 {
        Some(choose|k: int| is_last_dot(name, k) && k > 0)
    } else {
        None
    }
}

/// Whether the last dot of a name is at `k`.
pub open spec fn is_last_dot(name: Seq<char>, k: int) -> bool {
    &&& 0 <= k < name.len()
    &&& name[k] == '.'
    &&& forall|j: int| k < j < name.len() ==> #[trigger] name[j] != '.'
}

/// What stands before the last dot of a path's name; the whole name where no dot parts it.
pub open spec fn stem_of(path: Seq<char>) -> Option<Seq<char>> {
    match name_of(path) {
        Some(n) => match dot_at(n) {
            Some(k) => Some(n.take(k)),
            None => Some(n),
        },
        None => None,
    }
}

/// What stands behind the last dot of a path's name.
pub open spec fn extension_of(path: Seq<char>) -> Option<Seq<char>> {
    match name_of(path) {
        Some(n) => match dot_at(n) {
            Some(k) => Some(n.skip(k + 1)),
            None => None,
        },
        None => None,
    }
}

fn find_dot(v: &Vec<char>) -> (r: Option<usize>)
    ensures
        match r {
            Some(k) => dot_at(v@) == Some(k as int) && 0 < k < v@.len(),
            None => dot_at(v@) is None,
        },
{
    match last_position_of(v, '.') {
        Some(k) => {
            assert(is_last_dot(v@, k as int));
            if k > 0 {
                Some(k)
            } else {
                None
            }
        },
        None => None,
    }
}

/// What stands before the last dot of a path's name.
pub fn file_stem(path: &str) -> (r: Option<String>)
    ensures
        opt_text(r) == stem_of(path@),
{
    match file_name(path) {
        Some(n) => {
            let v = chars_of(n.as_str());
            match find_dot(&v) {
                Some(k) => {
                    assert(v@.subrange(0, k as int) == v@.take(k as int));
                    Some(text_of(&v, 0, k))
                },
                None => Some(n),
            }
        },
        None => None,
    }
}

/// What stands behind the last dot of a path's name.
pub fn extension(path: &str) -> (r: Option<String>)
    ensures
        opt_text(r) == extension_of(path@),
{
    match file_name(path) {
        Some(n) => {
            let v = chars_of(n.as_str());
            let end: usize = v.len();
            match find_dot(&v) {
                Some(k) => {
                    assert(v@.subrange(k + 1, v@.len() as int) == v@.skip(k + 1));
                    Some(text_of(&v, k + 1, end))
                },
                None => None,
            }
        },
        None => None,
    }
}

/// The path of `name` in the folder `dir`; `name` itself where it starts at the root.
pub open spec fn placed(dir: Seq<char>, name: Seq<char>) -> Seq<char> {
    if name.len() > 0 && name[0] == '/' {
        name
    } else if dir.len() == 0 || dir.last() == '/' {
        dir + name
    } else {
        dir + "/"@ + name
    }
}

/// The path of `name` in the folder `dir`.
pub fn place(dir: &str, name: &str) -> (r: String)
    ensures
        r@ == placed(dir@, name@),
{
    let d = chars_of(dir);
    let n = chars_of(name);
    if n.len() > 0 && n[0] == '/' {
        name.to_owned()
    } else if d.len() == 0 || d[d.len() - 1] == '/' {
        glue(dir, name)
    } else {
        glue3(dir, "/", name)
    }
}

/// What a path leads through: `/` first where it starts at the root, then the parts that name
/// something. A path that begins with `.` keeps it.
pub open spec fn components(path: Seq<char>) -> Seq<Seq<char>> {
    let parts = pieces(path, '/');
    let lead = if parts[0].len() == 0 && parts.len() > 1 {
        seq!["/"@]
    } else if parts[0] == "."@ {
        seq!["."@]
    } else {
        Seq::empty()
    };
    lead + parts.filter(|p: Seq<char>| !is_void(p))
}

fn parse_components(path: &str) -> (r: Vec<String>)
    ensures
        texts(r@) == components(path@),
{
    let parts = split_on(path, '/');
    let ghost all = texts(parts@);
    let mut out: Vec<String> = Vec::new();
    proof {
        assert(all == pieces(path@, '/'));
        assert(all.len() > 0);
        assert(all[0] == parts@[0]@);
    }
    if parts[0].as_str().is_empty() && parts.len() > 1 {
        out.push("/".to_owned());
    } else if same(parts[0].as_str(), ".") {
        out.push(".".to_owned());
    }
    let ghost lead = texts(out@);
    let ghost keep = |p: Seq<char>| !is_void(p);
    let mut i: usize = 0;
    proof {
        reveal(Seq::filter);
        assert(all.take(0).filter(keep) == Seq::<Seq<char>>::empty());
        assert(lead + all.take(0).filter(keep) == texts(out@));
    }
    while i < parts.len()
        invariant
            i <= parts@.len(),
            all == texts(parts@),
            keep == (|p: Seq<char>| !is_void(p)),
            texts(out@) == lead + all.take(i as int).filter(keep),
        decreases parts@.len() - i,
    {
        let ghost upto = all.take(i + 1);
        proof {
            reveal(Seq::filter);
            assert(upto.drop_last() == all.take(i as int));
            assert(upto.last() == parts@[i as int]@);
        }
        if !void(parts[i].as_str()) {
            let ghost was = texts(out@);
            out.push(parts[i].clone());
            assert(texts(out@) == was.push(parts@[i as int]@));
        }
        i = i + 1;
    }
    assert(all.take(i as int) == all);
    assert(texts(out@) == components(path@));
    out
}

/// Whether a path leads through everything that `dir` leads through, and so into it.
pub open spec fn lies_in(path: Seq<char>, dir: Seq<char>) -> bool {
    components(dir).is_prefix_of(components(path))
}

/// Whether a path leads into the folder `dir`, part by part.
pub fn is_within(path: &str, dir: &str) -> (r: bool)
    ensures
        r == lies_in(path@, dir@),
{
    let p = parse_components(path);
    let d = parse_components(dir);
    if d.len() > p.len() {
        return false;
    }
    let mut i: usize = 0;
    while i < d.len()
        invariant
            i <= d@.len() <= p@.len(),
            texts(p@) == components(path@),
            texts(d@) == components(dir@),
            forall|k: int| 0 <= k < i ==> texts(d@)[k] == #[trigger] texts(p@)[k],
        decreases d@.len() - i,
    {
        if !same(p[i].as_str(), d[i].as_str()) {
            assert(texts(p@)[i as int] != texts(d@)[i as int]);
            return false;
        }
        assert(texts(p@)[i as int] == texts(d@)[i as int]);
        i = i + 1;
    }
    assert(texts(p@).take(d@.len() as int) == texts(d@));
    true
}

/// Whether two paths lead through the same.
pub open spec fn agree(a: Seq<char>, b: Seq<char>) -> bool {
    components(a) == components(b)
}

/// Whether two paths lead through the same, however they are spelled.
pub fn same_path(a: &str, b: &str) -> (r: bool)
    ensures
        r == agree(a@, b@),
{
    let there = is_within(a, b);
    let back = is_within(b, a);
    assert(there && back ==> components(a@) =~= components(b@));
    assert(components(a@).take(components(a@).len() as int) == components(a@));
    there && back
}

/// Whether a path leads to something that stands directly in `dir`.
pub open spec fn is_child(path: Seq<char>, dir: Seq<char>) -> bool {
    let c = components(path);
    c.len() > 0 && c.last() != "/"@ && c.drop_last() == components(dir)
}

/// Whether a path leads to something that stands directly in `dir`.
pub fn is_child_of(path: &str, dir: &str) -> (r: bool)
    ensures
        r == is_child(path@, dir@),
{
    let p = parse_components(path);
    let d = parse_components(dir);
    let n: usize = p.len();
    assert(components(path@).len() == n && components(dir@).len() == d@.len());
    if n == 0 || d.len() != n - 1 {
        return false;
    }
    assert(components(path@).last() == p@[n - 1]@);
    if same(p[n - 1].as_str(), "/") {
        return false;
    }
    let ghost front = components(path@).drop_last();
    let mut i: usize = 0;
    while i < d.len()
        invariant
            i <= d@.len() == n - 1,
            n == p@.len(),
            front == components(path@).drop_last(),
            texts(p@) == components(path@),
            texts(d@) == components(dir@),
            forall|k: int| 0 <= k < i ==> texts(d@)[k] == #[trigger] front[k],
        decreases d@.len() - i,
    {
        assert(front[i as int] == p@[i as int]@);
        assert(texts(d@)[i as int] == d@[i as int]@);
        if !same(p[i].as_str(), d[i].as_str()) {
            return false;
        }
        i = i + 1;
    }
    assert(front == texts(d@));
    true
}

/// A first text in front of others, joined.
pub proof fn lemma_joined_front(first: Seq<char>, rest: Seq<Seq<char>>, sep: Seq<char>)
    requires
        rest.len() > 0,
    ensures
        joined(seq![first] + rest, sep) == first + sep + joined(rest, sep),
    decreases rest.len(),
{
    let all = seq![first] + rest;
    if rest.len() == 1 {
        assert(all.drop_last() == seq![first]);
        assert(joined(seq![first], sep) == first);
        assert(all.last() == rest[0]);
    } else {
        lemma_joined_front(first, rest.drop_last(), sep);
        assert(all.drop_last() == seq![first] + rest.drop_last());
        assert(all.last() == rest.last());
        assert(first + sep + joined(rest.drop_last(), sep) + sep + rest.last() == first + sep + (
        joined(rest.drop_last(), sep) + sep + rest.last()));
    }
}

/// The parts of a text, joined again, are the text.
pub proof fn law_pieces_join_back(s: Seq<char>, c: char)
    ensures
        pieces(s, c).len() > 0,
        joined(pieces(s, c), seq![c]) == s,
    decreases s.len(),
{
    let k = first_at(s, c);
    lemma_first_at(s, c);
    if k < s.len() {
        let rest = s.skip(k + 1);
        law_pieces_join_back(rest, c);
        lemma_joined_front(s.take(k), pieces(rest, c), seq![c]);
        assert(s == s.take(k) + seq![c] + rest);
    }
}

/// The texts up to some index, joined, begin what all of them give.
pub proof fn lemma_joined_take(list: Seq<Seq<char>>, n: int, sep: Seq<char>)
    requires
        0 < n <= list.len(),
    ensures
        begins_with(joined(list, sep), joined(list.take(n), sep)),
    decreases list.len() - n,
{
    if n == list.len() {
        assert(list.take(n) == list);
        assert(joined(list, sep).take(joined(list, sep).len() as int) == joined(list, sep));
    } else {
        lemma_joined_take(list.drop_last(), n, sep);
        assert(list.drop_last().take(n) == list.take(n));
        let whole = joined(list, sep);
        let part = joined(list.drop_last(), sep);
        let p = joined(list.take(n), sep);
        assert(whole.take(p.len() as int) == part.take(p.len() as int));
    }
}

/// What stands before and behind a sign is cut on its own, and a text without the sign is one piece.
pub proof fn law_pieces_are_cut_at_the_sign(a: Seq<char>, b: Seq<char>, c: char)
    ensures
        !a.contains(c) ==> pieces(a, c) == seq![a],
        pieces(a + seq![c] + b, c) == pieces(a, c) + pieces(b, c),
    decreases a.len(),
{
    lemma_first_at(a, c);
    let k = first_at(a, c);
    let s = a + seq![c] + b;
    assert forall|i: int| 0 <= i < k implies #[trigger] s[i] != c by {
        assert(s[i] == a[i]);
    }
    lemma_first_at_is(s, c, k);
    assert(s.take(k) =~= a.take(k));
    if k >= a.len() {
        assert(a.take(k) =~= a);
        assert(s.skip(k + 1) =~= b);
    } else {
        law_pieces_are_cut_at_the_sign(a.skip(k + 1), b, c);
        assert(s.skip(k + 1) =~= a.skip(k + 1) + seq![c] + b);
        assert(seq![a.take(k)] + (pieces(a.skip(k + 1), c) + pieces(b, c)) =~= pieces(a, c) + pieces(
            b,
            c,
        ));
    }
}

/// Whether a text can be the name of a file: it is not empty, not `.` or `..`, and has no slash.
pub open spec fn is_plain_name(name: Seq<char>) -> bool {
    &&& name.len() > 0
    &&& name != seq!['.']
    &&& name != seq!['.', '.']
    &&& !name.contains('/')
}

/// A file is called as the last part of its path; slashes behind it make no difference.
pub proof fn law_name_is_the_last_part(dir: Seq<char>, name: Seq<char>)
    requires
        is_plain_name(name),
    ensures
        name_of(name) == Some(name),
        name_of(dir + seq!['/'] + name) == Some(name),
        name_of(dir + seq!['/']) == name_of(dir),
        name_of(dir + seq!['/', '.', '.']) is None,
{
    reveal_strlit(".");
    assert("."@ =~= seq!['.']);
    reveal_strlit("..");
    assert(".."@ =~= seq!['.', '.']);
    let none = Seq::<char>::empty();
    law_pieces_are_cut_at_the_sign(name, none, '/');
    law_pieces_are_cut_at_the_sign(dir, name, '/');
    let parts = pieces(dir, '/') + pieces(name, '/');
    assert(parts.last() == name);
    assert(seq![name].last() == name);
    law_pieces_are_cut_at_the_sign(dir, none, '/');
    law_pieces_are_cut_at_the_sign(none, none, '/');
    assert(dir + seq!['/'] + none =~= dir + seq!['/']);
    let more = pieces(dir, '/') + pieces(none, '/');
    assert(more.last() == none);
    assert(more.drop_last() =~= pieces(dir, '/'));
    let up = seq!['.', '.'];
    law_pieces_are_cut_at_the_sign(dir, up, '/');
    law_pieces_are_cut_at_the_sign(up, none, '/');
    assert(dir + seq!['/'] + up =~= dir + seq!['/', '.', '.']);
    assert((pieces(dir, '/') + pieces(up, '/')).last() == up);
    assert(".."@.len() == 2 && "."@.len() == 1);
}

/// The extension of a name is what stands behind its last dot, and the stem what stands before it.
/// A name without a dot, or with one at its beginning only, is all stem.
pub proof fn law_name_is_stem_and_extension(
    dir: Seq<char>,
    name: Seq<char>,
    stem: Seq<char>,
    ext: Seq<char>,
)
    requires
        is_plain_name(name),
    ensures
        name == stem + seq!['.'] + ext && stem.len() > 0 && !ext.contains('.') ==> {
            &&& stem_of(dir + seq!['/'] + name) == Some(stem)
            &&& extension_of(dir + seq!['/'] + name) == Some(ext)
            &&& stem_of(name) == Some(stem)
            &&& extension_of(name) == Some(ext)
        },
        (forall|i: int| 0 < i < name.len() ==> #[trigger] name[i] != '.') ==> {
            &&& stem_of(dir + seq!['/'] + name) == Some(name)
            &&& extension_of(dir + seq!['/'] + name) is None
            &&& stem_of(name) == Some(name)
            &&& extension_of(name) is None
        },
{
    law_name_is_the_last_part(dir, name);
    if name == stem + seq!['.'] + ext && stem.len() > 0 && !ext.contains('.') {
        let k: int = stem.len() as int;
        assert(is_last_dot(name, k)) by {
            assert forall|j: int| k < j < name.len() implies #[trigger] name[j] != '.' by {
                assert(name[j] == ext[j - k - 1]);
                if name[j] == '.' {
                    assert(ext.contains('.'));
                }
            }
        }
        let d = choose|d: int| is_last_dot(name, d) && d > 0;
        assert(is_last_dot(name, d) && d > 0);
        assert(d == k);
        assert(name.take(k) =~= stem);
        assert(name.skip(k + 1) =~= ext);
    }
}

proof fn lemma_parts_filter(a: Seq<Seq<char>>, name: Seq<char>)
    requires
        !is_void(name),
    ensures
        (a + seq![name]).filter(|p: Seq<char>| !is_void(p)) == a.filter(
            |p: Seq<char>| !is_void(p),
        ).push(name),
{
    let keep = |p: Seq<char>| !is_void(p);
    assert((a + seq![name]).drop_last() =~= a);
    assert((a + seq![name]).last() == name);
    reveal(Seq::filter);
}

/// What is placed in a folder is its child, and lies in it and in every folder that the folder lies
/// in; the folder is found again by taking the last part away.
pub proof fn law_placed_is_a_child(dir: Seq<char>, name: Seq<char>, outer: Seq<char>)
    requires
        dir.len() > 0,
        is_plain_name(name),
    ensures
        components(placed(dir, name)) == components(dir).push(name),
        is_child(placed(dir, name), dir),
        lies_in(placed(dir, name), dir),
        lies_in(dir, outer) ==> lies_in(placed(dir, name), outer),
        name_of(placed(dir, name)) == Some(name),
        dir.last() != '/' ==> placed(dir, name) == dir + seq!['/'] + name,
        dir.last() == '/' ==> placed(dir, name) == dir + name,
{
    reveal_strlit("/");
    assert("/"@ =~= seq!['/']);
    reveal_strlit(".");
    assert("."@ =~= seq!['.']);
    let none = Seq::<char>::empty();
    let keep = |p: Seq<char>| !is_void(p);
    assert(name[0] != '/') by {
        if name[0] == '/' {
            assert(name.contains('/'));
        }
    }
    law_pieces_are_cut_at_the_sign(name, none, '/');
    law_pieces_join_back(dir, '/');
    let all = placed(dir, name);
    if dir.last() == '/' {
        let front = dir.drop_last();
        assert(front + seq!['/'] + none =~= dir);
        assert(front + seq!['/'] + name =~= all);
        law_pieces_are_cut_at_the_sign(front, none, '/');
        law_pieces_are_cut_at_the_sign(front, name, '/');
        law_pieces_are_cut_at_the_sign(none, none, '/');
        law_pieces_join_back(front, '/');
        let f = pieces(front, '/');
        lemma_parts_filter(f, name);
        assert((f + seq![none]).filter(keep) == f.filter(keep)) by {
            assert((f + seq![none]).drop_last() =~= f);
            assert((f + seq![none]).last() == none);
            reveal(Seq::filter);
        }
        assert(components(all) =~= components(dir).push(name));
        law_name_is_the_last_part(front, name);
    } else {
        law_pieces_are_cut_at_the_sign(dir, name, '/');
        let f = pieces(dir, '/');
        lemma_parts_filter(f, name);
        assert(f.len() == 1 ==> f[0] == dir) by {
            if f.len() == 1 {
                assert(joined(f, seq!['/']) == f[0]);
            }
        }
        assert(components(all) =~= components(dir).push(name));
        law_name_is_the_last_part(dir, name);
    }
    assert(components(all).drop_last() =~= components(dir));
}

/// An absolute name stays where it is, whatever the folder.
pub proof fn law_absolute_names_stay(dir: Seq<char>, name: Seq<char>)
    requires
        name.len() > 0,
        name[0] == '/',
    ensures
        placed(dir, name) == name,
{
}

/// Two paths agree exactly where each lies in the other, and what lies in a folder below another
/// lies in that one too.
pub proof fn law_lying_in(a: Seq<char>, b: Seq<char>, c: Seq<char>)
    ensures
        lies_in(a, a),
        agree(a, b) <==> lies_in(a, b) && lies_in(b, a),
        lies_in(a, b) && lies_in(b, c) ==> lies_in(a, c),
        is_child(a, b) ==> lies_in(a, b) && !lies_in(b, a),
{
    let x = components(a);
    let y = components(b);
    if lies_in(a, b) && lies_in(b, a) {
        assert(x =~= y);
    }
    if lies_in(a, b) && lies_in(b, c) {
        let z = components(c);
        assert(z.len() <= y.len() <= x.len());
        assert(z =~= x.take(z.len() as int)) by {
            assert forall|i: int| 0 <= i < z.len() implies z[i] == x[i] by {
                assert(z[i] == y[i] && y[i] == x[i]);
            }
        }
    }
    if is_child(a, b) {
        assert(y =~= x.take(y.len() as int));
    }
}

proof fn lemma_void_end(f: Seq<Seq<char>>, part: Seq<char>)
    requires
        is_void(part),
    ensures
        (f + seq![part]).filter(|p: Seq<char>| !is_void(p)) == f.filter(|p: Seq<char>| !is_void(p)),
{
    let keep = |p: Seq<char>| !is_void(p);
    assert((f + seq![part]).drop_last() =~= f);
    assert((f + seq![part]).last() == part);
    reveal(Seq::filter);
}

proof fn lemma_part_behind(dir: Seq<char>, part: Seq<char>)
    requires
        dir.len() > 0,
        !part.contains('/'),
    ensures
        components(dir + seq!['/'] + part) == (if is_void(part) {
            components(dir)
        } else {
            components(dir).push(part)
        }),
{
    let f = pieces(dir, '/');
    law_pieces_join_back(dir, '/');
    assert(f.len() == 1 ==> f[0] == dir) by {
        if f.len() == 1 {
            assert(joined(f, seq!['/']) == f[0]);
        }
    }
    law_pieces_are_cut_at_the_sign(part, part, '/');
    law_pieces_are_cut_at_the_sign(dir, part, '/');
    assert((f + seq![part])[0] == f[0]);
    if is_void(part) {
        lemma_void_end(f, part);
        assert(components(dir + seq!['/'] + part) =~= components(dir));
    } else {
        lemma_parts_filter(f, part);
        assert(components(dir + seq!['/'] + part) =~= components(dir).push(part));
    }
}

proof fn lemma_plain_components(name: Seq<char>)
    requires
        is_plain_name(name),
    ensures
        components(name) == seq![name],
        components(seq!['/'] + name) == seq![seq!['/'], name],
        components(seq!['.', '/'] + name) == seq![seq!['.'], name],
{
    reveal_strlit("/");
    assert("/"@ =~= seq!['/']);
    reveal_strlit(".");
    assert("."@ =~= seq!['.']);
    let none = Seq::<char>::empty();
    let keep = |p: Seq<char>| !is_void(p);
    law_pieces_are_cut_at_the_sign(name, none, '/');
    law_pieces_are_cut_at_the_sign(none, none, '/');
    law_pieces_are_cut_at_the_sign(none, name, '/');
    assert(none + seq!['/'] + name =~= seq!['/'] + name);
    lemma_parts_filter(Seq::empty(), name);
    lemma_parts_filter(seq![none], name);
    lemma_void_end(Seq::empty(), none);
    assert(Seq::<Seq<char>>::empty().filter(keep).len() == 0) by {
        reveal(Seq::filter);
    }
    assert(Seq::<Seq<char>>::empty() + seq![none] =~= seq![none]);
    assert(Seq::<Seq<char>>::empty() + seq![name] =~= seq![name]);
    assert(components(name) =~= seq![name]);
    assert(components(seq!['/'] + name) =~= seq![seq!['/'], name]);
    let dot = seq!['.'];
    law_pieces_are_cut_at_the_sign(dot, name, '/');
    assert(dot + seq!['/'] + name =~= seq!['.', '/'] + name);
    lemma_parts_filter(seq![dot], name);
    lemma_void_end(Seq::empty(), dot);
    assert(Seq::<Seq<char>>::empty() + seq![dot] =~= seq![dot]);
    assert(components(seq!['.', '/'] + name) =~= seq![dot, name]);
}

/// Empty parts and `.` name nothing and `..` is a part like any other; a path that begins with a slash
/// begins at the root.
pub proof fn law_void_parts_name_nothing(dir: Seq<char>, name: Seq<char>)
    requires
        dir.len() > 0,
        is_plain_name(name),
    ensures
        components(dir + seq!['/']) == components(dir),
        components(dir + seq!['/', '.']) == components(dir),
        components(dir + seq!['/', '.', '.']) == components(dir).push(seq!['.', '.']),
        components(name) == seq![name],
        components(seq!['/'] + name) == seq![seq!['/'], name],
        components(seq!['.', '/'] + name) == seq![seq!['.'], name],
{
    reveal_strlit(".");
    assert("."@ =~= seq!['.']);
    let none = Seq::<char>::empty();
    let dot = seq!['.'];
    let up = seq!['.', '.'];
    lemma_part_behind(dir, none);
    lemma_part_behind(dir, dot);
    lemma_part_behind(dir, up);
    lemma_plain_components(name);
    assert(dir + seq!['/'] + none =~= dir + seq!['/']);
    assert(dir + seq!['/'] + dot =~= dir + seq!['/', '.']);
    assert(dir + seq!['/'] + up =~= dir + seq!['/', '.', '.']);
    assert(up.len() != dot.len());
}

} // verus!
