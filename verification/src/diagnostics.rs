//! Reading back the log.
use vstd::prelude::*;
use vstd::string::*;

use crate::calendar::{is_date_at, utc_date, Date};
use crate::paths::{place, placed};
use crate::split::{join_from, joined, lines, lines_of};
use crate::text::glue;

verus! {

/// How many lines of the log are read where so many are asked for.
pub open spec fn line_limit(asked: Option<usize>) -> int {
    match asked {
        None => 200,
        Some(n) => if n < 2000 {
            n as int
        } else {
            2000
        },
    }
}

/// As many lines are read as are asked for, two thousand at most, and two hundred where nothing is
/// asked for.
pub proof fn law_line_limit(asked: usize)
    ensures
        line_limit(Some(asked)) <= asked,
        line_limit(Some(asked)) <= 2000,
        line_limit(Some(asked)) == asked || line_limit(Some(asked)) == 2000,
        line_limit(None) == 200,
{
}

/// How many lines of the log are shown: what is asked for, two hundred where nothing is, and never
/// more than two thousand.
pub fn log_line_limit(asked: Option<usize>) -> (r: usize)
    ensures
        r == line_limit(asked),
{
    let n: usize = match asked {
        Some(n) => n,
        None => 200,
    };
    if n < 2000 {
        n
    } else {
        2000
    }
}

/// The last `n` of some texts, or all where there are fewer.
pub open spec fn last_ones(s: Seq<Seq<char>>, n: int) -> Seq<Seq<char>> {
    if s.len() <= n {
        s
    } else {
        s.skip(s.len() - n)
    }
}

/// The last lines of a text.
pub fn tail_lines(content: &str, max_lines: usize) -> (r: String)
    ensures
        r@ == joined(last_ones(lines_of(content@), max_lines as int), "\n"@),
{
    let l = lines(content);
    let n: usize = l.len();
    assert(crate::text::texts(l@).len() == n);
    let start: usize = if n <= max_lines {
        0
    } else {
        n - max_lines
    };
    assert(crate::text::texts(l@).skip(start as int) == last_ones(
        lines_of(content@),
        max_lines as int,
    ));
    join_from(&l, start, "\n")
}

/// The log of a day.
pub open spec fn dated_log(dir: Seq<char>, day: Seq<char>) -> Seq<char> {
    placed(dir, "echo-scribe.log."@ + day)
}

/// The current log.
pub open spec fn running_log(dir: Seq<char>) -> Seq<char> {
    placed(dir, "echo-scribe.log"@)
}

/// The log of a day is called as the current one, with the day behind a dot.
pub proof fn law_logs_are_called_by_their_day(dir: Seq<char>, day: Seq<char>)
    requires
        dir.len() > 0,
        dir.last() != '/',
    ensures
        running_log(dir) == dir + seq![
            '/', 'e', 'c', 'h', 'o', '-', 's', 'c', 'r', 'i', 'b', 'e', '.', 'l', 'o', 'g',
        ],
        dated_log(dir, day) == running_log(dir) + seq!['.'] + day,
{
    reveal_strlit("echo-scribe.log.");
    assert("echo-scribe.log."@ =~= seq![
        'e', 'c', 'h', 'o', '-', 's', 'c', 'r', 'i', 'b', 'e', '.', 'l', 'o', 'g', '.',
    ]);
    reveal_strlit("echo-scribe.log");
    assert("echo-scribe.log"@ =~= seq![
        'e', 'c', 'h', 'o', '-', 's', 'c', 'r', 'i', 'b', 'e', '.', 'l', 'o', 'g',
    ]);
    reveal_strlit("/");
    assert("/"@ =~= seq!['/']);
    assert(running_log(dir) =~= dir + seq![
        '/', 'e', 'c', 'h', 'o', '-', 's', 'c', 'r', 'i', 'b', 'e', '.', 'l', 'o', 'g',
    ]);
    assert(dated_log(dir, day) =~= running_log(dir) + seq!['.'] + day);
}

/// Where the log of a day is, in its folder.
pub fn log_file_of(dir: &str, secs: u64) -> (r: String)
    ensures
        exists|d: Date| #[trigger]
            is_date_at(d, secs as int) && r@ == dated_log(dir@, d.text()),
{
    let d = utc_date(secs);
    let date = d.to_text();
    let name = glue("echo-scribe.log.", date.as_str());
    place(dir, name.as_str())
}

/// Where the log is that has not rolled yet.
pub fn current_log_file(dir: &str) -> (r: String)
    ensures
        r@ == running_log(dir@),
{
    place(dir, "echo-scribe.log")
}

/// Which of the two logs is shown.
#[derive(Clone, Copy, PartialEq, Eq, Structural, Debug)]
pub enum LogChoice {
    OfToday,
    Current,
    Nothing,
}

/// Which log is read.
pub open spec fn log_choice(today_exists: bool, current_exists: bool) -> LogChoice {
    if today_exists {
        LogChoice::OfToday
    } else if current_exists {
        LogChoice::Current
    } else {
        LogChoice::Nothing
    }
}

/// Which log is shown: today's where it is there, else the one that has not rolled yet.
pub fn choose_log(today_exists: bool, current_exists: bool) -> (r: LogChoice)
    ensures
        r == log_choice(today_exists, current_exists),
{
    if today_exists {
        LogChoice::OfToday
    } else if current_exists {
        LogChoice::Current
    } else {
        LogChoice::Nothing
    }
}

/// The systems that keep their logs in different places.
#[derive(Clone, Copy, PartialEq, Eq, Structural, Debug)]
pub enum HostSystem {
    Mac,
    Other,
}

/// Where logs are kept: below the home folder on a Mac, below the folder for local data elsewhere,
/// and in the folder for temporary files where `base` is not known.
pub open spec fn log_folder(host: HostSystem, base: Option<Seq<char>>, temp: Seq<char>) -> Seq<
    char,
> {
    match base {
        Some(b) => match host {
            HostSystem::Mac => placed(b, "Library/Logs/EchoScribe"@),
            HostSystem::Other => placed(placed(b, "EchoScribe"@), "logs"@),
        },
        None => temp,
    }
}

/// Where logs are kept.
pub fn log_dir(host: HostSystem, base: Option<&str>, temp: &str) -> (r: String)
    ensures
        r@ == log_folder(host, crate::text::opt_str(base), temp@),
{
    match base {
        Some(b) => match host {
            HostSystem::Mac => place(b, "Library/Logs/EchoScribe"),
            HostSystem::Other => {
                let d = place(b, "EchoScribe");
                place(d.as_str(), "logs")
            },
        },
        None => temp.to_owned(),
    }
}

/// The tail of a log is its last lines, as many as asked for or all there are, one to a line.
pub proof fn law_tail_is_the_end(a: Seq<Seq<char>>, b: Seq<Seq<char>>)
    ensures
        last_ones(a + b, b.len() as int) == b,
        last_ones(b, (a.len() + b.len()) as int) == b,
{
    assert((a + b).skip(a.len() as int) =~= b);
    if a.len() == 0 {
        assert(a + b =~= b);
    }
}

/// The log of today is read where there is one, else the current one, else nothing.
pub proof fn law_log_of_today_comes_first(today: bool, current: bool)
    ensures
        log_choice(today, current) == LogChoice::OfToday <==> today,
        log_choice(today, current) == LogChoice::Nothing <==> !today && !current,
{
}

/// Logs stand in the library of a Mac's home, elsewhere in the application's own folder, and in the
/// temporary folder where there is no home.
pub proof fn law_logs_have_their_folder(base: Seq<char>, temp: Seq<char>)
    requires
        base.len() > 0,
        base.last() != '/',
    ensures
        log_folder(HostSystem::Mac, Some(base), temp) == base + seq![
            '/', 'L', 'i', 'b', 'r', 'a', 'r', 'y', '/', 'L', 'o', 'g', 's', '/', 'E', 'c', 'h',
            'o', 'S', 'c', 'r', 'i', 'b', 'e',
        ],
        log_folder(HostSystem::Other, Some(base), temp) == base + seq![
            '/', 'E', 'c', 'h', 'o', 'S', 'c', 'r', 'i', 'b', 'e', '/', 'l', 'o', 'g', 's',
        ],
        log_folder(HostSystem::Mac, None, temp) == temp,
        log_folder(HostSystem::Other, None, temp) == temp,
{
    reveal_strlit("Library/Logs/EchoScribe");
    assert("Library/Logs/EchoScribe"@ =~= seq![
        'L', 'i', 'b', 'r', 'a', 'r', 'y', '/', 'L', 'o', 'g', 's', '/', 'E', 'c', 'h', 'o', 'S',
        'c', 'r', 'i', 'b', 'e',
    ]);
    reveal_strlit("EchoScribe");
    assert("EchoScribe"@ =~= seq!['E', 'c', 'h', 'o', 'S', 'c', 'r', 'i', 'b', 'e']);
    reveal_strlit("logs");
    assert("logs"@ =~= seq!['l', 'o', 'g', 's']);
    reveal_strlit("/");
    assert("/"@ =~= seq!['/']);
    assert(log_folder(HostSystem::Mac, Some(base), temp) =~= base + seq![
        '/', 'L', 'i', 'b', 'r', 'a', 'r', 'y', '/', 'L', 'o', 'g', 's', '/', 'E', 'c', 'h', 'o',
        'S', 'c', 'r', 'i', 'b', 'e',
    ]);
    let own = placed(base, "EchoScribe"@);
    assert(own =~= base + seq!['/', 'E', 'c', 'h', 'o', 'S', 'c', 'r', 'i', 'b', 'e']);
    assert(own.last() == 'e');
    assert(log_folder(HostSystem::Other, Some(base), temp) =~= base + seq![
        '/', 'E', 'c', 'h', 'o', 'S', 'c', 'r', 'i', 'b', 'e', '/', 'l', 'o', 'g', 's',
    ]);
}

} // verus!
