//! Pasting a text at the cursor, and finding out what is selected, by way of the clipboard.
//!
//! Both borrow the user's clipboard and give it back. [`Paste`] and [`Probe`] decide the steps;
//! whoever drives them touches the clipboard and the keyboard and reports back.
use vstd::prelude::*;
use vstd::string::*;
use vstd::utf8::*;

use crate::split::{joined, trim, trimmed};
use crate::text::{byte_len, glue, opt_str, opt_text, same, same_opt, texts};

verus! {

// ----- errors -----

/// Why a text could not be pasted.
#[derive(Debug)]
pub enum PasteError {
    Clipboard(String),
    Keystroke(String),
    Init(String),
}

impl PasteError {
    /// The error in words.
    pub open spec fn text(self) -> Seq<char> {
        match self {
            PasteError::Clipboard(e) => "failed to set clipboard: "@ + e@,
            PasteError::Keystroke(e) => "failed to synthesize keystroke: "@ + e@,
            PasteError::Init(e) => "failed to initialize enigo: "@ + e@,
        }
    }

    /// The error in words.
    pub fn message(&self) -> (r: String)
        ensures
            r@ == self.text(),
    {
        match self {
            PasteError::Clipboard(e) => glue("failed to set clipboard: ", e.as_str()),
            PasteError::Keystroke(e) => glue("failed to synthesize keystroke: ", e.as_str()),
            PasteError::Init(e) => glue("failed to initialize enigo: ", e.as_str()),
        }
    }
}

// ----- pasting -----

/// The shortest time, in milliseconds, before the clipboard is given back.
pub const RESTORE_DELAY_BASE_MS: u64 = 300;

/// The longest time, in milliseconds, before the clipboard is given back.
pub const RESTORE_DELAY_MAX_MS: u64 = 1500;

/// The time for a text of that many bytes: one millisecond for every three beyond the first
/// hundred on top of the shortest time, up to the longest.
pub open spec fn restore_delay(text_len: nat) -> int {
    let extra = if text_len > 100 {
        (text_len - 100) / 3
    } else {
        0
    };
    if RESTORE_DELAY_BASE_MS + extra <= RESTORE_DELAY_MAX_MS {
        RESTORE_DELAY_BASE_MS + extra
    } else {
        RESTORE_DELAY_MAX_MS as int
    }
}

/// How long, in milliseconds, the pasting application is given before the clipboard is restored,
/// where the text has `text_len` bytes.
pub fn restore_delay_ms(text_len: usize) -> (r: u64)
    ensures
        r == restore_delay(text_len as nat),
        RESTORE_DELAY_BASE_MS <= r <= RESTORE_DELAY_MAX_MS,
{
    let extra: u64 = if text_len > 100 {
        ((text_len - 100) as u64) / 3
    } else {
        0
    };
    if extra <= RESTORE_DELAY_MAX_MS - RESTORE_DELAY_BASE_MS {
        RESTORE_DELAY_BASE_MS + extra
    } else {
        RESTORE_DELAY_MAX_MS
    }
}

/// How long, in milliseconds, the application that a text is pasted into is given before the
/// clipboard is restored.
pub fn restore_wait(text: &str) -> (r: u64)
    ensures
        r == restore_delay(encode_utf8(text@).len()),
        RESTORE_DELAY_BASE_MS <= r <= RESTORE_DELAY_MAX_MS,
{
    restore_delay_ms(byte_len(text))
}

/// A longer text is never given less time.
pub proof fn law_delay_grows(a: nat, b: nat)
    requires
        a <= b,
    ensures
        restore_delay(a) <= restore_delay(b),
{
}

/// One piece of work.
#[derive(Clone, Copy, PartialEq, Eq, Structural, Debug)]
pub enum PasteStep {
    OpenClipboard,
    /// Fails where the clipboard holds no text.
    ReadOld,
    WriteText,
    PressPaste,
    /// Wait that many milliseconds, then put the old text back.
    Restore { wait_ms: u64 },
    Finished(PasteEnd),
}

/// How it ends.
#[derive(Clone, Copy, PartialEq, Eq, Structural, Debug)]
pub enum PasteEnd {
    Pasted,
    ClipboardFailed,
    KeystrokeFailed,
}

/// A paste under way.
#[derive(Clone, Copy, PartialEq, Eq, Structural, Debug)]
pub struct Paste {
    pub step: PasteStep,
    /// The user's text was read and is to be put back.
    pub saved: bool,
    /// How long, in milliseconds, the application is given before it is put back.
    pub wait_ms: u64,
}

impl Paste {
    /// A paste that has not begun.
    pub open spec fn begun(wait_ms: u64) -> Paste {
        Paste { step: PasteStep::OpenClipboard, saved: false, wait_ms }
    }

    /// A paste of a text that has not begun. The longer the text, the longer the wait.
    pub fn start(text: &str) -> (r: Paste)
        ensures
            r == Paste::begun(r.wait_ms),
            r.wait_ms == restore_delay(encode_utf8(text@).len()),
    {
        Paste { step: PasteStep::OpenClipboard, saved: false, wait_ms: restore_wait(text) }
    }

    /// The paste after the current step succeeded or failed.
    pub open spec fn after(self, ok: bool) -> Paste {
        match self.step {
            PasteStep::OpenClipboard => if ok {
                Paste { step: PasteStep::ReadOld, saved: false, ..self }
            } else {
                Paste { step: PasteStep::Finished(PasteEnd::ClipboardFailed), saved: false, ..self }
            },
            PasteStep::ReadOld => Paste { step: PasteStep::WriteText, saved: ok, ..self },
            PasteStep::WriteText => if ok {
                Paste { step: PasteStep::PressPaste, ..self }
            } else {
                Paste { step: PasteStep::Finished(PasteEnd::ClipboardFailed), ..self }
            },
            PasteStep::PressPaste => if !ok {
                Paste { step: PasteStep::Finished(PasteEnd::KeystrokeFailed), ..self }
            } else if self.saved {
                Paste { step: PasteStep::Restore { wait_ms: self.wait_ms }, ..self }
            } else {
                Paste { step: PasteStep::Finished(PasteEnd::Pasted), ..self }
            },
            PasteStep::Restore { .. } => Paste {
                step: PasteStep::Finished(PasteEnd::Pasted),
                ..self
            },
            PasteStep::Finished(_) => self,
        }
    }

    /// Takes in whether the current step succeeded.
    pub fn advance(self, ok: bool) -> (r: Paste)
        ensures
            r == self.after(ok),
    {
        let saved = match self.step {
            PasteStep::OpenClipboard => false,
            PasteStep::ReadOld => ok,
            _ => self.saved,
        };
        let step = match (self.step, ok) {
            (PasteStep::OpenClipboard, true) => PasteStep::ReadOld,
            (PasteStep::OpenClipboard, false) => PasteStep::Finished(PasteEnd::ClipboardFailed),
            (PasteStep::ReadOld, _) => PasteStep::WriteText,
            (PasteStep::WriteText, true) => PasteStep::PressPaste,
            (PasteStep::WriteText, false) => PasteStep::Finished(PasteEnd::ClipboardFailed),
            (PasteStep::PressPaste, true) => if self.saved {
                PasteStep::Restore { wait_ms: self.wait_ms }
            } else {
                PasteStep::Finished(PasteEnd::Pasted)
            },
            (PasteStep::PressPaste, false) => PasteStep::Finished(PasteEnd::KeystrokeFailed),
            (PasteStep::Restore { .. }, _) => PasteStep::Finished(PasteEnd::Pasted),
            (PasteStep::Finished(end), _) => PasteStep::Finished(end),
        };
        Paste { step, saved, wait_ms: self.wait_ms }
    }

    /// Where `n` steps lead when each succeeds or fails as `answers` says.
    pub open spec fn run(self, answers: spec_fn(PasteStep) -> bool, n: nat) -> Paste
        decreases n,
    {
        if n == 0 || self.step is Finished {
            self
        } else {
            self.after(answers(self.step)).run(answers, (n - 1) as nat)
        }
    }
}

/// Five steps always finish a paste. It succeeds exactly where the clipboard opens, takes the text
/// and the keys are pressed; neither reading the old text nor putting it back can fail it.
pub proof fn law_paste_ends(wait_ms: u64, answers: spec_fn(PasteStep) -> bool)
    ensures
        ({
            let p = Paste::begun(wait_ms).run(answers, 5);
            &&& p.step is Finished
            &&& p.step == PasteStep::Finished(PasteEnd::Pasted) <==> answers(
                PasteStep::OpenClipboard,
            ) && answers(PasteStep::WriteText) && answers(PasteStep::PressPaste)
        }),
{
    reveal_with_fuel(Paste::run, 6);
}

/// A text that was read before a successful paste is put back. In this order, the old text is read,
/// the new one is written, the keys are pressed once, and after the wait that the text calls for
/// the old one is written; whether that last write succeeds, the paste has.
pub proof fn law_old_text_is_put_back(wait_ms: u64, answers: spec_fn(PasteStep) -> bool)
    requires
        answers(PasteStep::OpenClipboard),
        answers(PasteStep::ReadOld),
        answers(PasteStep::WriteText),
        answers(PasteStep::PressPaste),
    ensures
        Paste::begun(wait_ms).run(answers, 1).step == PasteStep::ReadOld,
        Paste::begun(wait_ms).run(answers, 2).step == PasteStep::WriteText,
        Paste::begun(wait_ms).run(answers, 3).step == PasteStep::PressPaste,
        Paste::begun(wait_ms).run(answers, 4).step == (PasteStep::Restore { wait_ms }),
        Paste::begun(wait_ms).run(answers, 5).step == PasteStep::Finished(PasteEnd::Pasted),
{
    reveal_with_fuel(Paste::run, 6);
}

// ----- what is selected -----

/// What is selected, where copying it changed the clipboard.
pub open spec fn selection_by_change(before: Option<Seq<char>>, after: Option<Seq<char>>) -> Option<
    Seq<char>,
> {
    match after {
        Some(a) if a.len() > 0 && before != Some(a) => Some(a),
        _ => None,
    }
}

/// Something is selected exactly where copying put a text on the clipboard that was not there before,
/// and then it is that text.
pub proof fn law_selection_changes_the_clipboard(
    before: Option<Seq<char>>,
    after: Option<Seq<char>>,
)
    ensures
        selection_by_change(before, after) is Some ==> selection_by_change(before, after) == after
            && after != before,
        selection_by_change(before, after) is None <==> after is None || after == before
            || after->0.len() == 0,
{
}

/// The selection, as the clipboard before and after a copy shows it: a new text that is not empty.
pub fn selection_from_clipboard_delta(before: Option<&str>, after: Option<&str>) -> (r: Option<
    String,
>)
    ensures
        opt_text(r) == selection_by_change(opt_str(before), opt_str(after)),
{
    match after {
        Some(a) => if !a.is_empty() && !same_opt(Some(a), before) {
            Some(a.to_owned())
        } else {
            None
        },
        None => None,
    }
}

/// The text that is put on the clipboard before a copy, to tell whether anything was copied.
pub const COPY_SENTINEL: &'static str = "\u{200B}echo-scribe-copy-probe\u{200B}";

/// The selection, where the clipboard held the sentinel before the copy.
pub open spec fn selection_after_probe(after: Option<Seq<char>>) -> Option<Seq<char>> {
    match after {
        Some(a) if a.len() > 0 && a != COPY_SENTINEL@ => Some(a),
        _ => None,
    }
}

/// The selection, where the clipboard held the sentinel before the copy: whatever has taken its
/// place and is not empty.
pub fn selection_from_sentinel(after: Option<&str>) -> (r: Option<String>)
    ensures
        opt_text(r) == selection_after_probe(opt_str(after)),
{
    match after {
        Some(a) => if !a.is_empty() && !same(a, COPY_SENTINEL) {
            Some(a.to_owned())
        } else {
            None
        },
        None => None,
    }
}

/// What is put on the clipboard after a probe: what was there, or nothing where that could not be
/// read.
pub fn text_to_restore(before: Option<&str>) -> (r: String)
    ensures
        r@ == (match opt_str(before) {
            Some(b) => b,
            None => Seq::empty(),
        }),
{
    match before {
        Some(b) => b.to_owned(),
        None => String::new(),
    }
}

/// One piece of work.
#[derive(Clone, Copy, PartialEq, Eq, Structural, Debug)]
pub enum ProbeStep {
    OpenClipboard,
    ReadOld,
    WriteSentinel,
    PressCopy,
    ReadNew,
    /// Put the old text back; `found` says whether the new one was read.
    Restore { found: bool },
    /// `found` says whether the new text is to be looked at.
    Finished { found: bool },
}

/// A probe under way. `marked` says that the sentinel is on the clipboard.
#[derive(Clone, Copy, PartialEq, Eq, Structural, Debug)]
pub struct Probe {
    pub step: ProbeStep,
    pub marked: bool,
}

impl Probe {
    /// A probe that has not begun.
    pub open spec fn begun() -> Probe {
        Probe { step: ProbeStep::OpenClipboard, marked: false }
    }

    /// A probe that has not begun.
    pub fn start() -> (r: Probe)
        ensures
            r == Probe::begun(),
    {
        Probe { step: ProbeStep::OpenClipboard, marked: false }
    }

    /// The probe after the current step succeeded or failed.
    pub open spec fn after(self, ok: bool) -> Probe {
        let step = match self.step {
            ProbeStep::OpenClipboard => if ok {
                ProbeStep::ReadOld
            } else {
                ProbeStep::Finished { found: false }
            },
            ProbeStep::ReadOld => ProbeStep::WriteSentinel,
            ProbeStep::WriteSentinel => if ok {
                ProbeStep::PressCopy
            } else {
                ProbeStep::Finished { found: false }
            },
            ProbeStep::PressCopy => if ok {
                ProbeStep::ReadNew
            } else {
                ProbeStep::Restore { found: false }
            },
            ProbeStep::ReadNew => ProbeStep::Restore { found: ok },
            ProbeStep::Restore { found } => ProbeStep::Finished { found },
            ProbeStep::Finished { found } => ProbeStep::Finished { found },
        };
        let marked = match self.step {
            ProbeStep::WriteSentinel => ok,
            ProbeStep::Restore { found } => false,
            _ => self.marked,
        };
        Probe { step, marked }
    }

    /// Takes in whether the current step succeeded. A failure to put the old text back is not one
    /// of the probe.
    pub fn advance(self, ok: bool) -> (r: Probe)
        ensures
            r == self.after(ok),
    {
        let step = match (self.step, ok) {
            (ProbeStep::OpenClipboard, true) => ProbeStep::ReadOld,
            (ProbeStep::OpenClipboard, false) => ProbeStep::Finished { found: false },
            (ProbeStep::ReadOld, _) => ProbeStep::WriteSentinel,
            (ProbeStep::WriteSentinel, true) => ProbeStep::PressCopy,
            (ProbeStep::WriteSentinel, false) => ProbeStep::Finished { found: false },
            (ProbeStep::PressCopy, true) => ProbeStep::ReadNew,
            (ProbeStep::PressCopy, false) => ProbeStep::Restore { found: false },
            (ProbeStep::ReadNew, _) => ProbeStep::Restore { found: ok },
            (ProbeStep::Restore { found }, _) => ProbeStep::Finished { found },
            (ProbeStep::Finished { found }, _) => ProbeStep::Finished { found },
        };
        let marked = match self.step {
            ProbeStep::WriteSentinel => ok,
            ProbeStep::Restore { found: _ } => false,
            _ => self.marked,
        };
        Probe { step, marked }
    }

    /// Where `n` steps lead when each succeeds or fails as `answers` says.
    pub open spec fn run(self, answers: spec_fn(ProbeStep) -> bool, n: nat) -> Probe
        decreases n,
    {
        if n == 0 || self.step is Finished {
            self
        } else {
            self.after(answers(self.step)).run(answers, (n - 1) as nat)
        }
    }
}

/// Six steps always finish a probe, and however it went the sentinel was cleared off the clipboard
/// again. A text is looked at only where the sentinel was written, the copy pressed and the
/// clipboard read.
pub proof fn law_sentinel_is_cleared(answers: spec_fn(ProbeStep) -> bool)
    ensures
        ({
            let p = Probe::begun().run(answers, 6);
            &&& p.step is Finished
            &&& !p.marked
            &&& p.step == ProbeStep::Finished { found: true } <==> answers(
                ProbeStep::OpenClipboard,
            ) && answers(ProbeStep::WriteSentinel) && answers(ProbeStep::PressCopy) && answers(
                ProbeStep::ReadNew,
            )
        }),
{
    reveal_with_fuel(Probe::run, 7);
}

/// Where nothing was copied, nothing is taken for a selection: neither the untouched sentinel nor
/// an empty or unreadable clipboard.
pub proof fn law_untouched_sentinel_is_no_selection()
    ensures
        selection_after_probe(Some(COPY_SENTINEL@)) is None,
        selection_after_probe(Some(Seq::empty())) is None,
        selection_after_probe(None) is None,
{
}

// ----- selections in parts -----

/// The milliseconds that reading a selection may take.
pub const SELECTION_DEADLINE_MS: u64 = 600;

/// The parts that are not empty.
pub open spec fn filled(parts: Seq<Seq<char>>) -> Seq<Seq<char>> {
    parts.filter(|p: Seq<char>| p.len() > 0)
}

/// The selection that several parts make up: those that are not empty, one to a line; nothing
/// where only white space is selected.
pub open spec fn selection_of(parts: Seq<Seq<char>>) -> Option<Seq<char>> {
    let all = joined(filled(parts), "\n"@);
    if trimmed(all).len() == 0 {
        None
    } else {
        Some(all)
    }
}

/// The selection that several parts make up.
pub fn join_selection(parts: &Vec<String>) -> (r: Option<String>)
    ensures
        opt_text(r) == selection_of(texts(parts@)),
{
    let ghost keep = |p: Seq<char>| p.len() > 0;
    let ghost all = texts(parts@);
    let mut out = String::new();
    let mut any = false;
    let mut i: usize = 0;
    proof {
        reveal(Seq::filter);
        assert(all.take(0).filter(keep) == Seq::<Seq<char>>::empty());
    }
    while i < parts.len()
        invariant
            i <= parts@.len(),
            all == texts(parts@),
            keep == (|p: Seq<char>| p.len() > 0),
            out@ == joined(all.take(i as int).filter(keep), "\n"@),
            any == (all.take(i as int).filter(keep).len() > 0),
        decreases parts@.len() - i,
    {
        proof {
            reveal(Seq::filter);
            assert(all.take(i + 1).drop_last() == all.take(i as int));
            assert(all.take(i + 1).last() == parts@[i as int]@);
        }
        if !parts[i].as_str().is_empty() {
            let ghost f = all.take(i as int).filter(keep);
            if any {
                out.append("\n");
            }
            out.append(parts[i].as_str());
            proof {
                let g = f.push(parts@[i as int]@);
                assert(all.take(i + 1).filter(keep) == g);
                assert(g.drop_last() == f);
                assert(g.last() == parts@[i as int]@);
            }
            any = true;
        }
        i = i + 1;
    }
    assert(all.take(i as int) == all);
    let t = trim(out.as_str());
    if t.as_str().is_empty() {
        None
    } else {
        Some(out)
    }
}

/// The clipboard is given back after 300 ms for a text of a hundred bytes, a millisecond later for
/// every three bytes more, and after 1500 ms at the latest.
pub proof fn law_delay_is_bounded(n: nat)
    ensures
        n <= 100 ==> restore_delay(n) == 300,
        restore_delay(n) < 1500 && n >= 100 ==> restore_delay(n + 3) == restore_delay(n) + 1,
        300 <= restore_delay(n) <= 1500,
        n >= 3700 ==> restore_delay(n) == 1500,
        100 <= n < 3700 ==> restore_delay(n) < 1500,
{
}

/// How the steps of a paste hang together: the clipboard is opened and read, the text is written, the
/// keys are pressed, each only where what came before it succeeded, but for the reading, which may
/// fail. The old text is put back exactly where it was read.
pub proof fn law_steps_of_a_paste(p: Paste, ok: bool)
    ensures
        p.after(ok).wait_ms == p.wait_ms,
        p.step is Finished ==> p.after(ok) == p,
        p.after(ok).step != PasteStep::OpenClipboard,
        p.after(ok).step == PasteStep::ReadOld <==> p.step == PasteStep::OpenClipboard && ok,
        p.after(ok).step == PasteStep::WriteText <==> p.step == PasteStep::ReadOld,
        p.after(ok).step == PasteStep::PressPaste <==> p.step == PasteStep::WriteText && ok,
        p.after(ok).step is Restore <==> p.step == PasteStep::PressPaste && ok && p.saved,
        p.after(ok).step matches PasteStep::Restore { wait_ms } ==> wait_ms == p.wait_ms,
        p.step == PasteStep::ReadOld ==> p.after(ok).saved == ok,
        p.step == PasteStep::WriteText || p.step == PasteStep::PressPaste ==> p.after(ok).saved
            == p.saved,
        !(p.step is Finished) ==> {
            &&& p.after(ok).step == PasteStep::Finished(PasteEnd::Pasted) <==> p.step is Restore || (
            p.step == PasteStep::PressPaste && ok && !p.saved)
            &&& p.after(ok).step == PasteStep::Finished(PasteEnd::KeystrokeFailed) <==> p.step
                == PasteStep::PressPaste && !ok
            &&& p.after(ok).step == PasteStep::Finished(PasteEnd::ClipboardFailed) <==> !ok && (p.step
                == PasteStep::OpenClipboard || p.step == PasteStep::WriteText)
        },
{
}

/// How the steps of a probe hang together: the mark is written before the keys are pressed, and
/// wherever it was written the clipboard is put back; a selection is found only in what was read
/// after the keys were pressed.
pub proof fn law_steps_of_a_probe(p: Probe, ok: bool, found: bool)
    ensures
        p.step is Finished ==> p.after(ok).step == p.step,
        p.after(ok).step != ProbeStep::OpenClipboard,
        p.after(ok).step == ProbeStep::ReadOld <==> p.step == ProbeStep::OpenClipboard && ok,
        p.after(ok).step == ProbeStep::WriteSentinel <==> p.step == ProbeStep::ReadOld,
        p.after(ok).step == ProbeStep::PressCopy <==> p.step == ProbeStep::WriteSentinel && ok,
        p.after(ok).step == ProbeStep::ReadNew <==> p.step == ProbeStep::PressCopy && ok,
        p.after(ok).step == (ProbeStep::Restore { found: true }) <==> p.step == ProbeStep::ReadNew
            && ok,
        p.after(ok).step == (ProbeStep::Restore { found: false }) <==> !ok && (p.step
            == ProbeStep::ReadNew || p.step == ProbeStep::PressCopy),
        p.step == (ProbeStep::Restore { found }) ==> p.after(ok).step == (ProbeStep::Finished {
            found,
        }) && !p.after(ok).marked,
        p.step == ProbeStep::WriteSentinel ==> p.after(ok).marked == ok,
{
}

/// A selection is what the clipboard holds once the keys were pressed, unless it is empty or still
/// the mark; the mark is told from any text by the signs around it.
pub proof fn law_selection_is_what_was_copied(a: Seq<char>)
    ensures
        COPY_SENTINEL@ == seq![
            '\u{200b}', 'e', 'c', 'h', 'o', '-', 's', 'c', 'r', 'i', 'b', 'e', '-', 'c', 'o', 'p',
            'y', '-', 'p', 'r', 'o', 'b', 'e', '\u{200b}',
        ],
        a.len() > 0 && !a.contains('\u{200b}') ==> selection_after_probe(Some(a)) == Some(a),
        selection_after_probe(Some(a)) matches Some(t) ==> t == a,
{
    reveal_strlit("\u{200B}echo-scribe-copy-probe\u{200B}");
    assert(COPY_SENTINEL@ =~= seq![
        '\u{200b}', 'e', 'c', 'h', 'o', '-', 's', 'c', 'r', 'i', 'b', 'e', '-', 'c', 'o', 'p', 'y',
        '-', 'p', 'r', 'o', 'b', 'e', '\u{200b}',
    ]);
    if a == COPY_SENTINEL@ {
        assert(a[0] == '\u{200b}');
        assert(a.contains('\u{200b}'));
    }
}

/// A selection in parts is their texts on lines of their own, empty parts left out, and nothing where
/// all of it is white space.
pub proof fn law_parts_of_a_selection(parts: Seq<Seq<char>>, p: Seq<char>)
    ensures
        filled(parts.push(p)) == (if p.len() > 0 {
            filled(parts).push(p)
        } else {
            filled(parts)
        }),
        selection_of(parts) matches Some(t) ==> t == joined(filled(parts), seq!['\n']) && trimmed(
            t,
        ).len() > 0,
        selection_of(parts) is None <==> trimmed(joined(filled(parts), seq!['\n'])).len() == 0,
        filled(Seq::empty()).len() == 0,
{
    reveal_strlit("\n");
    assert("\n"@ =~= seq!['\n']);
    reveal(Seq::filter);
    assert(parts.push(p).drop_last() =~= parts);
}

/// An error is told by what was tried, in front of what is known of it.
pub proof fn law_paste_errors_tell_what_was_tried(e: PasteError)
    ensures
        e matches PasteError::Clipboard(d) ==> e.text() == seq![
            'f', 'a', 'i', 'l', 'e', 'd', ' ', 't', 'o', ' ', 's', 'e', 't', ' ', 'c', 'l', 'i',
            'p', 'b', 'o', 'a', 'r', 'd', ':', ' ',
        ] + d@,
        e matches PasteError::Keystroke(d) ==> e.text() == seq![
            'f', 'a', 'i', 'l', 'e', 'd', ' ', 't', 'o', ' ', 's', 'y', 'n', 't', 'h', 'e', 's',
            'i', 'z', 'e', ' ', 'k', 'e', 'y', 's', 't', 'r', 'o', 'k', 'e', ':', ' ',
        ] + d@,
        e matches PasteError::Init(d) ==> e.text() == seq![
            'f', 'a', 'i', 'l', 'e', 'd', ' ', 't', 'o', ' ', 'i', 'n', 'i', 't', 'i', 'a', 'l',
            'i', 'z', 'e', ' ', 'e', 'n', 'i', 'g', 'o', ':', ' ',
        ] + d@,
{
    reveal_strlit("failed to set clipboard: ");
    assert("failed to set clipboard: "@ =~= seq![
        'f', 'a', 'i', 'l', 'e', 'd', ' ', 't', 'o', ' ', 's', 'e', 't', ' ', 'c', 'l', 'i', 'p',
        'b', 'o', 'a', 'r', 'd', ':', ' ',
    ]);
    reveal_strlit("failed to synthesize keystroke: ");
    assert("failed to synthesize keystroke: "@ =~= seq![
        'f', 'a', 'i', 'l', 'e', 'd', ' ', 't', 'o', ' ', 's', 'y', 'n', 't', 'h', 'e', 's', 'i',
        'z', 'e', ' ', 'k', 'e', 'y', 's', 't', 'r', 'o', 'k', 'e', ':', ' ',
    ]);
    reveal_strlit("failed to initialize enigo: ");
    assert("failed to initialize enigo: "@ =~= seq![
        'f', 'a', 'i', 'l', 'e', 'd', ' ', 't', 'o', ' ', 'i', 'n', 'i', 't', 'i', 'a', 'l', 'i',
        'z', 'e', ' ', 'e', 'n', 'i', 'g', 'o', ':', ' ',
    ]);
}

} // verus!
