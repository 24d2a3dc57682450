//! Removing the application: what goes to the Trash, in which order, and how Finder is told.
use vstd::prelude::*;
use vstd::string::*;

use crate::paths::{law_pieces_join_back, lemma_joined_take, pieces, place, placed, split_on};
use crate::search::begins_with;
use crate::split::{join, joined, trim, trimmed};
use crate::text::{chars_of, glue3, opt_str, opt_text, same, texts};

verus! {

// ----- what is removed -----

/// The parts of a path up to its innermost `Echo Scribe.app`.
pub open spec fn bundle_parts(parts: Seq<Seq<char>>) -> Option<Seq<Seq<char>>>
    decreases parts.len(),
{
    if parts.len() == 0 {
        None
    } else if parts.last() == "Echo Scribe.app"@ {
        Some(parts)
    } else {
        bundle_parts(parts.drop_last())
    }
}

/// The application bundle that a path leads into.
pub open spec fn bundle_of(executable: Seq<char>) -> Option<Seq<char>> {
    match bundle_parts(pieces(executable, '/')) {
        Some(parts) => Some(joined(parts, "/"@)),
        None => None,
    }
}

/// The innermost `Echo Scribe.app` that the executable's path leads through.
pub fn containing_app_bundle(executable: &str) -> (r: Option<String>)
    ensures
        opt_text(r) == bundle_of(executable@),
{
    let mut parts = split_on(executable, '/');
    let ghost all = texts(parts@);
    while parts.len() > 0
        invariant
            all == pieces(executable@, '/'),
            bundle_parts(all) == bundle_parts(texts(parts@)),
        decreases parts@.len(),
    {
        let ghost here = texts(parts@);
        let n: usize = parts.len();
        assert(here.last() == parts@[n - 1]@);
        if same(parts[n - 1].as_str(), "Echo Scribe.app") {
            return Some(join(&parts, "/"));
        }
        parts.truncate(n - 1);
        assert(texts(parts@) == here.drop_last());
    }
    None
}

proof fn lemma_bundle_parts(parts: Seq<Seq<char>>)
    requires
        bundle_parts(parts) is Some,
    ensures
        0 < bundle_parts(parts)->0.len() <= parts.len(),
        bundle_parts(parts)->0 == parts.take(bundle_parts(parts)->0.len() as int),
        bundle_parts(parts)->0.last() == "Echo Scribe.app"@,
    decreases parts.len(),
{
    if parts.last() == "Echo Scribe.app"@ {
        assert(parts.take(parts.len() as int) == parts);
    } else {
        lemma_bundle_parts(parts.drop_last());
        let n = bundle_parts(parts)->0.len() as int;
        assert(parts.drop_last().take(n) == parts.take(n));
    }
}

/// A bundle that is found is where the executable is: its path begins the executable's.
pub proof fn law_bundle_holds_executable(executable: Seq<char>)
    requires
        bundle_of(executable) is Some,
    ensures
        begins_with(executable, bundle_of(executable)->0),
{
    let parts = pieces(executable, '/');
    reveal_strlit("/");
    assert("/"@ == seq!['/']);
    law_pieces_join_back(executable, '/');
    lemma_bundle_parts(parts);
    lemma_joined_take(parts, bundle_parts(parts)->0.len() as int, "/"@);
}

/// Where the application keeps data, from the home folder on.
pub open spec fn data_locations() -> Seq<Seq<char>> {
    seq![
        "Library/Application Support/EchoScribe"@,
        "Library/Application Support/Echo Scribe"@,
        "Library/Application Support/com.echoscribe.app"@,
        "Library/Caches/com.echoscribe.app"@,
        "Library/Caches/echo-scribe"@,
        "Library/Preferences/com.echoscribe.app.plist"@,
        "Library/Preferences/EchoScribe.plist"@,
        "Library/Logs/EchoScribe"@,
        "Library/WebKit/com.echoscribe.app"@,
        "Library/WebKit/echo-scribe"@,
        "Library/HTTPStorages/com.echoscribe.app"@,
        "Library/HTTPStorages/EchoScribe"@,
        "Library/Saved Application State/com.echoscribe.app.savedState"@,
        "Library/LaunchAgents/Echo Scribe.plist"@,
        "EchoScribe"@,
    ]
}

/// The paths of the data locations in a home folder.
pub open spec fn data_paths(home: Seq<char>) -> Seq<Seq<char>> {
    data_locations().map_values(|l: Seq<char>| placed(home, l))
}

/// The paths where the application keeps data.
pub fn uninstall_data_paths(home: &str) -> (r: Vec<String>)
    ensures
        texts(r@) == data_paths(home@),
{
    let mut v: Vec<String> = Vec::new();
    v.push(place(home, "Library/Application Support/EchoScribe"));
    v.push(place(home, "Library/Application Support/Echo Scribe"));
    v.push(place(home, "Library/Application Support/com.echoscribe.app"));
    v.push(place(home, "Library/Caches/com.echoscribe.app"));
    v.push(place(home, "Library/Caches/echo-scribe"));
    v.push(place(home, "Library/Preferences/com.echoscribe.app.plist"));
    v.push(place(home, "Library/Preferences/EchoScribe.plist"));
    v.push(place(home, "Library/Logs/EchoScribe"));
    v.push(place(home, "Library/WebKit/com.echoscribe.app"));
    v.push(place(home, "Library/WebKit/echo-scribe"));
    v.push(place(home, "Library/HTTPStorages/com.echoscribe.app"));
    v.push(place(home, "Library/HTTPStorages/EchoScribe"));
    v.push(place(home, "Library/Saved Application State/com.echoscribe.app.savedState"));
    v.push(place(home, "Library/LaunchAgents/Echo Scribe.plist"));
    v.push(place(home, "EchoScribe"));
    assert(texts(v@) == data_paths(home@));
    v
}

/// Why the application cannot be removed.
#[derive(Clone, Copy, PartialEq, Eq, Structural, Debug)]
pub enum UninstallProblem {
    NotBundled,
    NoHome,
}

impl UninstallProblem {
    /// What the user is told.
    pub open spec fn text(self) -> Seq<char> {
        match self {
            UninstallProblem::NotBundled =>
                "Uninstall is only available when Echo Scribe is running from its app bundle."@,
            UninstallProblem::NoHome => "could not locate your home folder"@,
        }
    }

    /// What the user is told.
    pub fn message(&self) -> (r: String)
        ensures
            r@ == self.text(),
    {
        match self {
            UninstallProblem::NotBundled =>
                "Uninstall is only available when Echo Scribe is running from its app bundle.".to_owned(),
            UninstallProblem::NoHome => "could not locate your home folder".to_owned(),
        }
    }
}

/// Whether `r` is what is removed, in order.
pub open spec fn is_removal(
    r: Result<Vec<String>, UninstallProblem>,
    executable: Seq<char>,
    delete_data: bool,
    home: Option<Seq<char>>,
) -> bool {
    match r {
        Ok(v) => {
            &&& bundle_of(executable) is Some
            &&& delete_data ==> home is Some && texts(v@) == data_paths(home->0).push(
                bundle_of(executable)->0,
            )
            &&& !delete_data ==> texts(v@) == seq![bundle_of(executable)->0]
        },
        Err(UninstallProblem::NotBundled) => bundle_of(executable) is None,
        Err(UninstallProblem::NoHome) => bundle_of(executable) is Some && delete_data
            && home is None,
    }
}

/// The application itself goes last. Data goes only where that is asked for, all of it, and nothing
/// but data and the application goes at all. Without a bundle nothing can be removed, and without a
/// home no data.
pub proof fn law_application_goes_last(
    r: Result<Vec<String>, UninstallProblem>,
    executable: Seq<char>,
    delete_data: bool,
    home: Option<Seq<char>>,
    i: int,
)
    requires
        is_removal(r, executable, delete_data, home),
    ensures
        r is Ok <==> bundle_of(executable) is Some && (delete_data ==> home is Some),
        r matches Ok(v) ==> {
            &&& v@.len() == (if delete_data {
                data_locations().len() + 1
            } else {
                1
            })
            &&& texts(v@).last() == bundle_of(executable)->0
            &&& 0 <= i < v@.len() - 1 ==> texts(v@)[i] == placed(home->0, data_locations()[i])
        },
        r == Err::<Vec<String>, UninstallProblem>(UninstallProblem::NotBundled) <==> bundle_of(
            executable,
        ) is None,
{
    if let Ok(v) = r {
        assert(texts(v@).len() == v@.len());
        if delete_data {
            assert(data_paths(home->0).len() == data_locations().len());
        }
    }
}

/// What goes to the Trash: the data, where it is to go too, and the bundle last, so that the
/// application stays when Finder refuses anything before it.
pub fn uninstall_paths(executable: &str, delete_data: bool, home: Option<&str>) -> (r: Result<
    Vec<String>,
    UninstallProblem,
>)
    ensures
        is_removal(r, executable@, delete_data, opt_str(home)),
{
    let bundle = match containing_app_bundle(executable) {
        Some(b) => b,
        None => {
            return Err(UninstallProblem::NotBundled);
        },
    };
    let mut v: Vec<String> = Vec::new();
    if delete_data {
        match home {
            Some(h) => {
                v = uninstall_data_paths(h);
            },
            None => {
                return Err(UninstallProblem::NoHome);
            },
        }
    }
    let ghost data = texts(v@);
    v.push(bundle);
    assert(texts(v@) == data.push(bundle@));
    assert(!delete_data ==> data =~= Seq::<Seq<char>>::empty());
    Ok(v)
}

// ----- how Finder is told -----

/// A character as it stands in an AppleScript literal.
pub open spec fn escaped_char(c: char) -> Seq<char> {
    if c == '\\' || c == '"' {
        seq!['\\', c]
    } else {
        seq![c]
    }
}

/// A text as it stands in an AppleScript literal: quotes and backslashes get one in front.
pub open spec fn escaped(s: Seq<char>) -> Seq<char>
    decreases s.len(),
{
    if s.len() == 0 {
        Seq::empty()
    } else {
        escaped(s.drop_last()) + escaped_char(s.last())
    }
}

/// A text as it stands in an AppleScript literal.
pub fn applescript_string(value: &str) -> (r: String)
    ensures
        r@ == escaped(value@),
{
    let v = chars_of(value);
    let mut out = String::new();
    let mut i: usize = 0;
    assert(v@.take(0).len() == 0);
    while i < v.len()
        invariant
            i <= v@.len(),
            out@ == escaped(v@.take(i as int)),
        decreases v@.len() - i,
    {
        proof {
            assert(v@.take(i + 1).drop_last() == v@.take(i as int));
        }
        if v[i] == '\\' || v[i] == '"' {
            out.push('\\');
        }
        out.push(v[i]);
        assert(out@ == escaped(v@.take(i + 1)));
        i = i + 1;
    }
    assert(v@.take(i as int) == v@);
    out
}

/// What AppleScript reads from inside a literal: the text up to the closing quote, and what
/// follows that quote.
pub open spec fn read_literal(s: Seq<char>) -> Option<(Seq<char>, Seq<char>)>
    decreases s.len(),
{
    if s.len() == 0 {
        None
    } else if s[0] == '"' {
        Some((Seq::empty(), s.skip(1)))
    } else if s[0] == '\\' {
        if s.len() < 2 {
            None
        } else {
            match read_literal(s.skip(2)) {
                Some(r) => Some((seq![s[1]] + r.0, r.1)),
                None => None,
            }
        }
    } else {
        match read_literal(s.skip(1)) {
            Some(r) => Some((seq![s[0]] + r.0, r.1)),
            None => None,
        }
    }
}

proof fn lemma_escaped_front(s: Seq<char>)
    requires
        s.len() > 0,
    ensures
        escaped(s) == escaped_char(s[0]) + escaped(s.skip(1)),
    decreases s.len(),
{
    if s.len() == 1 {
        assert(s.drop_last() == Seq::<char>::empty());
        assert(s.skip(1) == Seq::<char>::empty());
    } else {
        lemma_escaped_front(s.drop_last());
        assert(s.drop_last().skip(1) == s.skip(1).drop_last());
        assert(s.skip(1).last() == s.last());
        assert(escaped_char(s[0]) + escaped(s.skip(1).drop_last()) + escaped_char(s.last())
            == escaped_char(s[0]) + (escaped(s.skip(1).drop_last()) + escaped_char(s.last())));
    }
}

/// An escaped text between quotes is read as the text itself, and the literal ends at its closing
/// quote and nowhere before: no path can break out of its literal.
pub proof fn law_literal_reads_back(s: Seq<char>, rest: Seq<char>)
    ensures
        read_literal(escaped(s) + seq!['"'] + rest) == Some((s, rest)),
    decreases s.len(),
{
    let all = escaped(s) + seq!['"'] + rest;
    if s.len() == 0 {
        assert(all.skip(1) == rest);
        assert(s == Seq::<char>::empty());
    } else {
        lemma_escaped_front(s);
        let tail = escaped(s.skip(1)) + seq!['"'] + rest;
        law_literal_reads_back(s.skip(1), rest);
        assert(all == escaped_char(s[0]) + tail);
        if s[0] == '\\' || s[0] == '"' {
            assert(all.skip(2) == tail);
        } else {
            assert(all.skip(1) == tail);
        }
        assert(seq![s[0]] + s.skip(1) == s);
    }
}

/// The line that has Finder delete one path.
pub open spec fn delete_line(path: Seq<char>) -> Seq<char> {
    "delete POSIX file \""@ + escaped(path) + "\"\n"@
}

/// The lines that have Finder delete some paths.
pub open spec fn delete_lines(paths: Seq<Seq<char>>) -> Seq<char>
    decreases paths.len(),
{
    if paths.len() == 0 {
        Seq::empty()
    } else {
        delete_lines(paths.drop_last()) + delete_line(paths.last())
    }
}

/// The script that moves paths to the Trash.
pub open spec fn script_of(paths: Seq<Seq<char>>) -> Seq<char> {
    "with timeout of 3600 seconds\ntell application \"Finder\"\n"@ + delete_lines(paths)
        + "end tell\nend timeout"@
}

/// The script that moves the paths to the Trash, one after the other.
pub fn trash_script(paths: &Vec<String>) -> (r: String)
    ensures
        r@ == script_of(texts(paths@)),
{
    let mut script = "with timeout of 3600 seconds\ntell application \"Finder\"\n".to_owned();
    let ghost head = script@;
    let ghost all = texts(paths@);
    let mut i: usize = 0;
    assert(head + delete_lines(all.take(0)) == head);
    while i < paths.len()
        invariant
            i <= paths@.len(),
            all == texts(paths@),
            script@ == head + delete_lines(all.take(i as int)),
        decreases paths@.len() - i,
    {
        let e = applescript_string(paths[i].as_str());
        let line = glue3("delete POSIX file \"", e.as_str(), "\"\n");
        script.append(line.as_str());
        proof {
            let upto = all.take(i + 1);
            assert(upto.drop_last() == all.take(i as int));
            assert(upto.last() == paths@[i as int]@);
            assert(head + delete_lines(upto) == head + delete_lines(all.take(i as int)) + line@);
        }
        i = i + 1;
    }
    assert(all.take(i as int) == all);
    script.append("end tell\nend timeout");
    script
}

/// What the user is told when Finder refused, from what it printed.
pub fn trash_failure(stderr: &str) -> (r: String)
    ensures
        r@ == "Finder could not move Echo Scribe to the Trash: "@ + trimmed(stderr@),
{
    let t = trim(stderr);
    crate::text::glue("Finder could not move Echo Scribe to the Trash: ", t.as_str())
}

// ----- permissions -----

/// The permissions that the application ever asks for.
pub open spec fn permission_services() -> Seq<Seq<char>> {
    seq!["Microphone"@, "Accessibility"@, "ScreenCapture"@, "Camera"@, "AppleEvents"@]
}

/// The permissions that the application ever asks for. A reset covers all of them.
pub fn tcc_reset_services() -> (r: Vec<String>)
    ensures
        texts(r@) == permission_services(),
{
    let mut v: Vec<String> = Vec::new();
    v.push("Microphone".to_owned());
    v.push("Accessibility".to_owned());
    v.push("ScreenCapture".to_owned());
    v.push("Camera".to_owned());
    v.push("AppleEvents".to_owned());
    assert(texts(v@) == permission_services());
    v
}

/// What resetting one permission came to.
#[derive(Clone, Copy, PartialEq, Eq, Structural, Debug)]
pub enum ResetRun {
    Reset,
    NotStarted,
    Refused,
}

/// What follows the reset of the permission at `at` among `total`: the next one, the end, or the
/// failure of this one.
#[derive(Clone, Copy, PartialEq, Eq, Structural, Debug)]
pub enum ResetNext {
    Reset(usize),
    Quit,
    Fail,
}

/// What follows giving back the permission at a place.
pub open spec fn next_reset(at: usize, total: usize, run: ResetRun) -> ResetNext {
    if run != ResetRun::Reset {
        ResetNext::Fail
    } else if at + 1 < total {
        ResetNext::Reset((at + 1) as usize)
    } else {
        ResetNext::Quit
    }
}

/// Goes on to the next permission after one was reset; the first that was not ends it all.
pub fn after_reset(at: usize, total: usize, run: ResetRun) -> (r: ResetNext)
    requires
        at < total,
    ensures
        r == next_reset(at, total, run),
{
    if run != ResetRun::Reset {
        ResetNext::Fail
    } else if at < total - 1 {
        ResetNext::Reset(at + 1)
    } else {
        ResetNext::Quit
    }
}

/// What the user is told when the reset tool did not start.
pub fn reset_not_started(service: &str, error: &str) -> (r: String)
    ensures
        r@ == "failed to run tccutil for "@ + service@ + ": "@ + error@,
{
    let mut s = glue3("failed to run tccutil for ", service, ": ");
    s.append(error);
    s
}

/// What the user is told when the reset tool refused.
pub fn reset_refused(service: &str, status: &str, stderr: &str) -> (r: String)
    ensures
        r@ == "tccutil reset "@ + service@ + " failed: "@ + status@ + " (stderr: "@ + trimmed(
            stderr@,
        ) + ")"@,
{
    let mut s = glue3("tccutil reset ", service, " failed: ");
    s.append(status);
    s.append(" (stderr: ");
    let t = trim(stderr);
    s.append(t.as_str());
    s.append(")");
    s
}

/// Everything that the application keeps below a home, place by place.
pub proof fn law_data_is_kept_in_these_places()
    ensures
        data_locations().len() == 15,
        data_locations()[0] == seq![
            'L', 'i', 'b', 'r', 'a', 'r', 'y', '/', 'A', 'p', 'p', 'l', 'i', 'c', 'a', 't', 'i',
            'o', 'n', ' ', 'S', 'u', 'p', 'p', 'o', 'r', 't', '/', 'E', 'c', 'h', 'o', 'S', 'c',
            'r', 'i', 'b', 'e',
        ],
        data_locations()[1] == seq![
            'L', 'i', 'b', 'r', 'a', 'r', 'y', '/', 'A', 'p', 'p', 'l', 'i', 'c', 'a', 't', 'i',
            'o', 'n', ' ', 'S', 'u', 'p', 'p', 'o', 'r', 't', '/', 'E', 'c', 'h', 'o', ' ', 'S',
            'c', 'r', 'i', 'b', 'e',
        ],
        data_locations()[2] == seq![
            'L', 'i', 'b', 'r', 'a', 'r', 'y', '/', 'A', 'p', 'p', 'l', 'i', 'c', 'a', 't', 'i',
            'o', 'n', ' ', 'S', 'u', 'p', 'p', 'o', 'r', 't', '/', 'c', 'o', 'm', '.', 'e', 'c',
            'h', 'o', 's', 'c', 'r', 'i', 'b', 'e', '.', 'a', 'p', 'p',
        ],
        data_locations()[3] == seq![
            'L', 'i', 'b', 'r', 'a', 'r', 'y', '/', 'C', 'a', 'c', 'h', 'e', 's', '/', 'c', 'o',
            'm', '.', 'e', 'c', 'h', 'o', 's', 'c', 'r', 'i', 'b', 'e', '.', 'a', 'p', 'p',
        ],
        data_locations()[4] == seq![
            'L', 'i', 'b', 'r', 'a', 'r', 'y', '/', 'C', 'a', 'c', 'h', 'e', 's', '/', 'e', 'c',
            'h', 'o', '-', 's', 'c', 'r', 'i', 'b', 'e',
        ],
        data_locations()[5] == seq![
            'L', 'i', 'b', 'r', 'a', 'r', 'y', '/', 'P', 'r', 'e', 'f', 'e', 'r', 'e', 'n', 'c',
            'e', 's', '/', 'c', 'o', 'm', '.', 'e', 'c', 'h', 'o', 's', 'c', 'r', 'i', 'b', 'e',
            '.', 'a', 'p', 'p', '.', 'p', 'l', 'i', 's', 't',
        ],
        data_locations()[6] == seq![
            'L', 'i', 'b', 'r', 'a', 'r', 'y', '/', 'P', 'r', 'e', 'f', 'e', 'r', 'e', 'n', 'c',
            'e', 's', '/', 'E', 'c', 'h', 'o', 'S', 'c', 'r', 'i', 'b', 'e', '.', 'p', 'l', 'i',
            's', 't',
        ],
        data_locations()[7] == seq![
            'L', 'i', 'b', 'r', 'a', 'r', 'y', '/', 'L', 'o', 'g', 's', '/', 'E', 'c', 'h', 'o',
            'S', 'c', 'r', 'i', 'b', 'e',
        ],
        data_locations()[8] == seq![
            'L', 'i', 'b', 'r', 'a', 'r', 'y', '/', 'W', 'e', 'b', 'K', 'i', 't', '/', 'c', 'o',
            'm', '.', 'e', 'c', 'h', 'o', 's', 'c', 'r', 'i', 'b', 'e', '.', 'a', 'p', 'p',
        ],
        data_locations()[9] == seq![
            'L', 'i', 'b', 'r', 'a', 'r', 'y', '/', 'W', 'e', 'b', 'K', 'i', 't', '/', 'e', 'c',
            'h', 'o', '-', 's', 'c', 'r', 'i', 'b', 'e',
        ],
        data_locations()[10] == seq![
            'L', 'i', 'b', 'r', 'a', 'r', 'y', '/', 'H', 'T', 'T', 'P', 'S', 't', 'o', 'r', 'a',
            'g', 'e', 's', '/', 'c', 'o', 'm', '.', 'e', 'c', 'h', 'o', 's', 'c', 'r', 'i', 'b',
            'e', '.', 'a', 'p', 'p',
        ],
        data_locations()[11] == seq![
            'L', 'i', 'b', 'r', 'a', 'r', 'y', '/', 'H', 'T', 'T', 'P', 'S', 't', 'o', 'r', 'a',
            'g', 'e', 's', '/', 'E', 'c', 'h', 'o', 'S', 'c', 'r', 'i', 'b', 'e',
        ],
        data_locations()[12] == seq![
            'L', 'i', 'b', 'r', 'a', 'r', 'y', '/', 'S', 'a', 'v', 'e', 'd', ' ', 'A', 'p', 'p',
            'l', 'i', 'c', 'a', 't', 'i', 'o', 'n', ' ', 'S', 't', 'a', 't', 'e', '/', 'c', 'o',
            'm', '.', 'e', 'c', 'h', 'o', 's', 'c', 'r', 'i', 'b', 'e', '.', 'a', 'p', 'p', '.',
            's', 'a', 'v', 'e', 'd', 'S', 't', 'a', 't', 'e',
        ],
        data_locations()[13] == seq![
            'L', 'i', 'b', 'r', 'a', 'r', 'y', '/', 'L', 'a', 'u', 'n', 'c', 'h', 'A', 'g', 'e',
            'n', 't', 's', '/', 'E', 'c', 'h', 'o', ' ', 'S', 'c', 'r', 'i', 'b', 'e', '.', 'p',
            'l', 'i', 's', 't',
        ],
        data_locations()[14] == seq!['E', 'c', 'h', 'o', 'S', 'c', 'r', 'i', 'b', 'e'],
{
    reveal_strlit("Library/Application Support/EchoScribe");
    assert("Library/Application Support/EchoScribe"@ =~= seq![
        'L', 'i', 'b', 'r', 'a', 'r', 'y', '/', 'A', 'p', 'p', 'l', 'i', 'c', 'a', 't', 'i', 'o',
        'n', ' ', 'S', 'u', 'p', 'p', 'o', 'r', 't', '/', 'E', 'c', 'h', 'o', 'S', 'c', 'r', 'i',
        'b', 'e',
    ]);
    reveal_strlit("Library/Application Support/Echo Scribe");
    assert("Library/Application Support/Echo Scribe"@ =~= seq![
        'L', 'i', 'b', 'r', 'a', 'r', 'y', '/', 'A', 'p', 'p', 'l', 'i', 'c', 'a', 't', 'i', 'o',
        'n', ' ', 'S', 'u', 'p', 'p', 'o', 'r', 't', '/', 'E', 'c', 'h', 'o', ' ', 'S', 'c', 'r',
        'i', 'b', 'e',
    ]);
    reveal_strlit("Library/Application Support/com.echoscribe.app");
    assert("Library/Application Support/com.echoscribe.app"@ =~= seq![
        'L', 'i', 'b', 'r', 'a', 'r', 'y', '/', 'A', 'p', 'p', 'l', 'i', 'c', 'a', 't', 'i', 'o',
        'n', ' ', 'S', 'u', 'p', 'p', 'o', 'r', 't', '/', 'c', 'o', 'm', '.', 'e', 'c', 'h', 'o',
        's', 'c', 'r', 'i', 'b', 'e', '.', 'a', 'p', 'p',
    ]);
    reveal_strlit("Library/Caches/com.echoscribe.app");
    assert("Library/Caches/com.echoscribe.app"@ =~= seq![
        'L', 'i', 'b', 'r', 'a', 'r', 'y', '/', 'C', 'a', 'c', 'h', 'e', 's', '/', 'c', 'o', 'm',
        '.', 'e', 'c', 'h', 'o', 's', 'c', 'r', 'i', 'b', 'e', '.', 'a', 'p', 'p',
    ]);
    reveal_strlit("Library/Caches/echo-scribe");
    assert("Library/Caches/echo-scribe"@ =~= seq![
        'L', 'i', 'b', 'r', 'a', 'r', 'y', '/', 'C', 'a', 'c', 'h', 'e', 's', '/', 'e', 'c', 'h',
        'o', '-', 's', 'c', 'r', 'i', 'b', 'e',
    ]);
    reveal_strlit("Library/Preferences/com.echoscribe.app.plist");
    assert("Library/Preferences/com.echoscribe.app.plist"@ =~= seq![
        'L', 'i', 'b', 'r', 'a', 'r', 'y', '/', 'P', 'r', 'e', 'f', 'e', 'r', 'e', 'n', 'c', 'e',
        's', '/', 'c', 'o', 'm', '.', 'e', 'c', 'h', 'o', 's', 'c', 'r', 'i', 'b', 'e', '.', 'a',
        'p', 'p', '.', 'p', 'l', 'i', 's', 't',
    ]);
    reveal_strlit("Library/Preferences/EchoScribe.plist");
    assert("Library/Preferences/EchoScribe.plist"@ =~= seq![
        'L', 'i', 'b', 'r', 'a', 'r', 'y', '/', 'P', 'r', 'e', 'f', 'e', 'r', 'e', 'n', 'c', 'e',
        's', '/', 'E', 'c', 'h', 'o', 'S', 'c', 'r', 'i', 'b', 'e', '.', 'p', 'l', 'i', 's', 't',
    ]);
    reveal_strlit("Library/Logs/EchoScribe");
    assert("Library/Logs/EchoScribe"@ =~= seq![
        'L', 'i', 'b', 'r', 'a', 'r', 'y', '/', 'L', 'o', 'g', 's', '/', 'E', 'c', 'h', 'o', 'S',
        'c', 'r', 'i', 'b', 'e',
    ]);
    reveal_strlit("Library/WebKit/com.echoscribe.app");
    assert("Library/WebKit/com.echoscribe.app"@ =~= seq![
        'L', 'i', 'b', 'r', 'a', 'r', 'y', '/', 'W', 'e', 'b', 'K', 'i', 't', '/', 'c', 'o', 'm',
        '.', 'e', 'c', 'h', 'o', 's', 'c', 'r', 'i', 'b', 'e', '.', 'a', 'p', 'p',
    ]);
    reveal_strlit("Library/WebKit/echo-scribe");
    assert("Library/WebKit/echo-scribe"@ =~= seq![
        'L', 'i', 'b', 'r', 'a', 'r', 'y', '/', 'W', 'e', 'b', 'K', 'i', 't', '/', 'e', 'c', 'h',
        'o', '-', 's', 'c', 'r', 'i', 'b', 'e',
    ]);
    reveal_strlit("Library/HTTPStorages/com.echoscribe.app");
    assert("Library/HTTPStorages/com.echoscribe.app"@ =~= seq![
        'L', 'i', 'b', 'r', 'a', 'r', 'y', '/', 'H', 'T', 'T', 'P', 'S', 't', 'o', 'r', 'a', 'g',
        'e', 's', '/', 'c', 'o', 'm', '.', 'e', 'c', 'h', 'o', 's', 'c', 'r', 'i', 'b', 'e', '.',
        'a', 'p', 'p',
    ]);
    reveal_strlit("Library/HTTPStorages/EchoScribe");
    assert("Library/HTTPStorages/EchoScribe"@ =~= seq![
        'L', 'i', 'b', 'r', 'a', 'r', 'y', '/', 'H', 'T', 'T', 'P', 'S', 't', 'o', 'r', 'a', 'g',
        'e', 's', '/', 'E', 'c', 'h', 'o', 'S', 'c', 'r', 'i', 'b', 'e',
    ]);
    reveal_strlit("Library/Saved Application State/com.echoscribe.app.savedState");
    assert("Library/Saved Application State/com.echoscribe.app.savedState"@ =~= seq![
        'L', 'i', 'b', 'r', 'a', 'r', 'y', '/', 'S', 'a', 'v', 'e', 'd', ' ', 'A', 'p', 'p', 'l',
        'i', 'c', 'a', 't', 'i', 'o', 'n', ' ', 'S', 't', 'a', 't', 'e', '/', 'c', 'o', 'm', '.',
        'e', 'c', 'h', 'o', 's', 'c', 'r', 'i', 'b', 'e', '.', 'a', 'p', 'p', '.', 's', 'a', 'v',
        'e', 'd', 'S', 't', 'a', 't', 'e',
    ]);
    reveal_strlit("Library/LaunchAgents/Echo Scribe.plist");
    assert("Library/LaunchAgents/Echo Scribe.plist"@ =~= seq![
        'L', 'i', 'b', 'r', 'a', 'r', 'y', '/', 'L', 'a', 'u', 'n', 'c', 'h', 'A', 'g', 'e', 'n',
        't', 's', '/', 'E', 'c', 'h', 'o', ' ', 'S', 'c', 'r', 'i', 'b', 'e', '.', 'p', 'l', 'i',
        's', 't',
    ]);
    reveal_strlit("EchoScribe");
    assert("EchoScribe"@ =~= seq!['E', 'c', 'h', 'o', 'S', 'c', 'r', 'i', 'b', 'e']);
}

/// The permissions that the application asks for, each of which is given back.
pub proof fn law_every_permission_is_given_back()
    ensures
        permission_services() == seq![
            seq!['M', 'i', 'c', 'r', 'o', 'p', 'h', 'o', 'n', 'e'],
            seq!['A', 'c', 'c', 'e', 's', 's', 'i', 'b', 'i', 'l', 'i', 't', 'y'],
            seq!['S', 'c', 'r', 'e', 'e', 'n', 'C', 'a', 'p', 't', 'u', 'r', 'e'],
            seq!['C', 'a', 'm', 'e', 'r', 'a'],
            seq!['A', 'p', 'p', 'l', 'e', 'E', 'v', 'e', 'n', 't', 's'],
        ],
{
    reveal_strlit("Microphone");
    assert("Microphone"@ =~= seq!['M', 'i', 'c', 'r', 'o', 'p', 'h', 'o', 'n', 'e']);
    reveal_strlit("Accessibility");
    assert("Accessibility"@ =~= seq![
        'A', 'c', 'c', 'e', 's', 's', 'i', 'b', 'i', 'l', 'i', 't', 'y',
    ]);
    reveal_strlit("ScreenCapture");
    assert("ScreenCapture"@ =~= seq![
        'S', 'c', 'r', 'e', 'e', 'n', 'C', 'a', 'p', 't', 'u', 'r', 'e',
    ]);
    reveal_strlit("Camera");
    assert("Camera"@ =~= seq!['C', 'a', 'm', 'e', 'r', 'a']);
    reveal_strlit("AppleEvents");
    assert("AppleEvents"@ =~= seq!['A', 'p', 'p', 'l', 'e', 'E', 'v', 'e', 'n', 't', 's']);
}

/// The bundle is the innermost folder called `Echo Scribe.app` on the way to the executable, and there
/// is one exactly where a folder on that way is called so.
pub proof fn law_bundle_is_the_innermost(parts: Seq<Seq<char>>, k: int)
    requires
        -1 <= k < parts.len(),
        forall|j: int| k < j < parts.len() ==> #[trigger] parts[j] != seq![
            'E', 'c', 'h', 'o', ' ', 'S', 'c', 'r', 'i', 'b', 'e', '.', 'a', 'p', 'p',
        ],
    ensures
        k == -1 ==> bundle_parts(parts) is None,
        k >= 0 && parts[k] == seq![
            'E', 'c', 'h', 'o', ' ', 'S', 'c', 'r', 'i', 'b', 'e', '.', 'a', 'p', 'p',
        ] ==> bundle_parts(parts) == Some(parts.take(k + 1)),
    decreases parts.len(),
{
    reveal_strlit("Echo Scribe.app");
    assert("Echo Scribe.app"@ =~= seq![
        'E', 'c', 'h', 'o', ' ', 'S', 'c', 'r', 'i', 'b', 'e', '.', 'a', 'p', 'p',
    ]);
    if parts.len() > 0 {
        if k == parts.len() - 1 {
            assert(parts.take(k + 1) =~= parts);
        } else {
            let front = parts.drop_last();
            assert(parts[parts.len() - 1] != "Echo Scribe.app"@);
            assert forall|j: int| k < j < front.len() implies #[trigger] front[j] != seq![
                'E', 'c', 'h', 'o', ' ', 'S', 'c', 'r', 'i', 'b', 'e', '.', 'a', 'p', 'p',
            ] by {
                assert(front[j] == parts[j]);
            }
            law_bundle_is_the_innermost(front, k);
            assert(front.take(k + 1) =~= parts.take(k + 1));
        }
    }
}

/// Finder is told to delete each path, one to a line and in order, in quotes that nothing in the path
/// can end, and is given an hour.
pub proof fn law_script_deletes_every_path(paths: Seq<Seq<char>>, p: Seq<char>)
    ensures
        delete_lines(Seq::empty()).len() == 0,
        delete_lines(paths.push(p)) == delete_lines(paths) + seq![
            'd', 'e', 'l', 'e', 't', 'e', ' ', 'P', 'O', 'S', 'I', 'X', ' ', 'f', 'i', 'l', 'e',
            ' ', '"',
        ] + escaped(p)
            + seq!['"', '\n'],
        script_of(paths) == seq![
            'w', 'i', 't', 'h', ' ', 't', 'i', 'm', 'e', 'o', 'u', 't', ' ', 'o', 'f', ' ', '3',
            '6', '0', '0', ' ', 's', 'e', 'c', 'o', 'n', 'd', 's', '\n', 't', 'e', 'l', 'l', ' ',
            'a', 'p', 'p', 'l', 'i', 'c', 'a', 't', 'i', 'o', 'n', ' ', '"', 'F', 'i', 'n', 'd',
            'e', 'r', '"', '\n',
        ]
            + delete_lines(paths) + seq![
                'e', 'n', 'd', ' ', 't', 'e', 'l', 'l', '\n', 'e', 'n', 'd', ' ', 't', 'i', 'm',
                'e', 'o', 'u', 't',
            ],
{
    reveal_strlit("delete POSIX file \"");
    assert("delete POSIX file \""@ =~= seq![
        'd', 'e', 'l', 'e', 't', 'e', ' ', 'P', 'O', 'S', 'I', 'X', ' ', 'f', 'i', 'l', 'e', ' ',
        '"',
    ]);
    reveal_strlit("\"\n");
    assert("\"\n"@ =~= seq!['"', '\n']);
    reveal_strlit("with timeout of 3600 seconds\ntell application \"Finder\"\n");
    assert("with timeout of 3600 seconds\ntell application \"Finder\"\n"@ =~= seq![
        'w', 'i', 't', 'h', ' ', 't', 'i', 'm', 'e', 'o', 'u', 't', ' ', 'o', 'f', ' ', '3', '6',
        '0', '0', ' ', 's', 'e', 'c', 'o', 'n', 'd', 's', '\n', 't', 'e', 'l', 'l', ' ', 'a', 'p',
        'p', 'l', 'i', 'c', 'a', 't', 'i', 'o', 'n', ' ', '"', 'F', 'i', 'n', 'd', 'e', 'r', '"',
        '\n',
    ]);
    reveal_strlit("end tell\nend timeout");
    assert("end tell\nend timeout"@ =~= seq![
        'e', 'n', 'd', ' ', 't', 'e', 'l', 'l', '\n', 'e', 'n', 'd', ' ', 't', 'i', 'm', 'e', 'o',
        'u', 't',
    ]);
    assert(paths.push(p).drop_last() =~= paths);
    assert(delete_lines(paths.push(p)) =~= delete_lines(paths) + seq![
        'd', 'e', 'l', 'e', 't', 'e', ' ', 'P', 'O', 'S', 'I', 'X', ' ', 'f', 'i', 'l', 'e', ' ',
        '"',
    ] + escaped(p)
        + seq!['"', '\n']);
}

/// Permissions are given back one after the other; the application quits once the last was, and stops
/// at the first that was not.
pub proof fn law_permissions_in_turn(at: usize, total: usize, run: ResetRun)
    requires
        at < total,
    ensures
        next_reset(at, total, run) == ResetNext::Fail <==> run == ResetRun::NotStarted || run
            == ResetRun::Refused,
        next_reset(at, total, run) == ResetNext::Quit <==> run == ResetRun::Reset && at == total - 1,
        next_reset(at, total, run) matches ResetNext::Reset(k) ==> k == at + 1 && k < total,
{
}

/// Why the application cannot be removed, in words.
pub proof fn law_uninstall_problems_in_words()
    ensures
        UninstallProblem::NotBundled.text()
            == seq![
                'U', 'n', 'i', 'n', 's', 't', 'a', 'l', 'l', ' ', 'i', 's', ' ', 'o', 'n', 'l',
                'y', ' ', 'a', 'v', 'a', 'i', 'l', 'a', 'b', 'l', 'e', ' ', 'w', 'h', 'e', 'n',
                ' ', 'E', 'c', 'h', 'o', ' ', 'S', 'c', 'r', 'i', 'b', 'e', ' ', 'i', 's', ' ',
                'r', 'u', 'n', 'n', 'i', 'n', 'g', ' ', 'f', 'r', 'o', 'm', ' ', 'i', 't', 's',
                ' ', 'a', 'p', 'p', ' ', 'b', 'u', 'n', 'd', 'l', 'e', '.',
            ],
        UninstallProblem::NoHome.text() == seq![
            'c', 'o', 'u', 'l', 'd', ' ', 'n', 'o', 't', ' ', 'l', 'o', 'c', 'a', 't', 'e', ' ',
            'y', 'o', 'u', 'r', ' ', 'h', 'o', 'm', 'e', ' ', 'f', 'o', 'l', 'd', 'e', 'r',
        ],
{
    reveal_strlit("Uninstall is only available when Echo Scribe is running from its app bundle.");
    assert("Uninstall is only available when Echo Scribe is running from its app bundle."@ =~= seq![
        'U', 'n', 'i', 'n', 's', 't', 'a', 'l', 'l', ' ', 'i', 's', ' ', 'o', 'n', 'l', 'y', ' ',
        'a', 'v', 'a', 'i', 'l', 'a', 'b', 'l', 'e', ' ', 'w', 'h', 'e', 'n', ' ', 'E', 'c', 'h',
        'o', ' ', 'S', 'c', 'r', 'i', 'b', 'e', ' ', 'i', 's', ' ', 'r', 'u', 'n', 'n', 'i', 'n',
        'g', ' ', 'f', 'r', 'o', 'm', ' ', 'i', 't', 's', ' ', 'a', 'p', 'p', ' ', 'b', 'u', 'n',
        'd', 'l', 'e', '.',
    ]);
    reveal_strlit("could not locate your home folder");
    assert("could not locate your home folder"@ =~= seq![
        'c', 'o', 'u', 'l', 'd', ' ', 'n', 'o', 't', ' ', 'l', 'o', 'c', 'a', 't', 'e', ' ', 'y',
        'o', 'u', 'r', ' ', 'h', 'o', 'm', 'e', ' ', 'f', 'o', 'l', 'd', 'e', 'r',
    ]);
}

} // verus!
