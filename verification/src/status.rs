//! The status bar: a bounded ring of status messages and the counters the
//! bar renders after a build finishes.

use vstd::prelude::*;

use crate::bytes::{byte_lit, clone_bytes, fmt_usize, fmt_usize_spec};
use crate::event::{BuildEvent, ExitInfo};
use crate::style::{SpanModel, TextColor, TextSpan, TextStyle};
use vstd::string::StringSliceAdditionalSpecFns;

verus! {

/// How many messages the status bar remembers.
pub const STATUS_BAR_BUF: usize = 15;

/// How many parts one status message may hold.
pub const STATUS_MSG_PARTS: usize = 10;

/// How many bytes one part may hold.
pub const STATUS_MSG_LEN: usize = 100;

/// One styled part of a status message, at most [`STATUS_MSG_LEN`] bytes.
#[derive(Clone, Debug, PartialEq)]
pub struct StatusPart {
    pub text: Vec<u8>,
    pub style: TextStyle,
}

impl View for StatusPart {
    type V = SpanModel;

    open spec fn view(&self) -> SpanModel {
        SpanModel { text: self.text@, style: self.style }
    }
}

impl StatusPart {
    /// The part stays within its byte budget.
    pub open spec fn wf(self) -> bool {
        self.text@.len() <= STATUS_MSG_LEN
    }

    /// Build a part, truncating the text to the byte budget.
    pub fn new(text: Vec<u8>, style: TextStyle) -> (r: Self)
        ensures
            r.wf(),
            r@.style == style,
            r@.text == (if text@.len() <= STATUS_MSG_LEN {
                text@
            } else {
                text@.take(STATUS_MSG_LEN as int)
            }),
    {
        if text.len() <= STATUS_MSG_LEN {
            StatusPart { text, style }
        } else {
            let t = crate::bytes::subvec(&text, 0, STATUS_MSG_LEN);
            StatusPart { text: t, style }
        }
    }

    /// A deep copy.
    pub fn duplicate(&self) -> (r: Self)
        ensures
            r@ == self@,
            r.wf() == self.wf(),
    {
        StatusPart { text: clone_bytes(&self.text), style: self.style }
    }
}

/// One status message: at most [`STATUS_MSG_PARTS`] styled parts.
#[derive(Clone, Debug, PartialEq)]
pub struct StatusMessage {
    pub parts: Vec<StatusPart>,
}

impl StatusMessage {
    /// The message stays within its part budget and every part within its
    /// byte budget.
    pub open spec fn wf(self) -> bool {
        &&& self.parts@.len() <= STATUS_MSG_PARTS
        &&& forall|i: int| 0 <= i < self.parts@.len() ==> (#[trigger] self.parts@[i]).wf()
    }

    /// Build a message, keeping at most the first [`STATUS_MSG_PARTS`]
    /// parts.
    pub fn new(parts: Vec<StatusPart>) -> (r: Self)
        requires
            forall|i: int| 0 <= i < parts@.len() ==> (#[trigger] parts@[i]).wf(),
        ensures
            r.wf(),
            r.parts@.len() == (if parts@.len() <= STATUS_MSG_PARTS {
                parts@.len() as int
            } else {
                STATUS_MSG_PARTS as int
            }),
            forall|i: int| 0 <= i < r.parts@.len() ==> #[trigger] r.parts@[i] == parts@[i],
    {
        let mut parts = parts;
        if parts.len() <= STATUS_MSG_PARTS {
            StatusMessage { parts }
        } else {
            parts.truncate(STATUS_MSG_PARTS);
            StatusMessage { parts }
        }
    }

    /// The parts as styled spans.
    pub fn spans(&self) -> (r: Vec<TextSpan>)
        ensures
            r@.len() == self.parts@.len(),
            forall|i: int| 0 <= i < r@.len() ==> (#[trigger] r@[i])@ == self.parts@[i]@,
    {
        let mut r: Vec<TextSpan> = Vec::new();
        let n = self.parts.len();
        let mut i: usize = 0;
        while i < n
            invariant
                0 <= i <= n == self.parts@.len(),
                r@.len() == i,
                forall|j: int| 0 <= j < i ==> (#[trigger] r@[j])@ == self.parts@[j]@,
            decreases n - i,
        {
            let p = self.parts[i].duplicate();
            r.push(TextSpan { text: p.text, style: p.style });
            i = i + 1;
        }
        r
    }

    /// The part at an index.
    pub fn part_at(&self, i: usize) -> (r: Option<&StatusPart>)
        ensures
            i < self.parts@.len() ==> r == Some(&self.parts@[i as int]),
            i >= self.parts@.len() ==> r is None,
    {
        if i < self.parts.len() {
            Some(&self.parts[i])
        } else {
            None
        }
    }

    /// A deep copy.
    pub fn duplicate(&self) -> (r: Self)
        ensures
            r.parts@.len() == self.parts@.len(),
            forall|i: int|
                0 <= i < r.parts@.len() ==> (#[trigger] r.parts@[i])@ == self.parts@[i]@
                    && r.parts@[i].wf() == self.parts@[i].wf(),
    {
        let mut parts: Vec<StatusPart> = Vec::new();
        let n = self.parts.len();
        let mut i: usize = 0;
        while i < n
            invariant
                0 <= i <= n == self.parts@.len(),
                parts@.len() == i,
                forall|j: int|
                    0 <= j < i ==> (#[trigger] parts@[j])@ == self.parts@[j]@ && parts@[j].wf()
                        == self.parts@[j].wf(),
            decreases n - i,
        {
            let p = self.parts[i].duplicate();
            parts.push(p);
            i = i + 1;
        }
        StatusMessage { parts }
    }
}

/// The count text of the finished-build message: `no <what>s` when the
/// count is zero, else the count, a space and `<what>(s)`.
pub open spec fn count_text(n: int, what: Seq<u8>) -> Seq<u8> {
    if n == 0 {
        ("no ").spec_bytes() + what + ("s").spec_bytes()
    } else {
        fmt_usize_spec(n) + seq![32u8] + what + ("(s)").spec_bytes()
    }
}

/// A part's text after the byte budget is applied.
pub open spec fn clip(s: Seq<u8>) -> Seq<u8> {
    if s.len() <= STATUS_MSG_LEN {
        s
    } else {
        s.take(STATUS_MSG_LEN as int)
    }
}

/// What the running-build message says.
pub open spec fn started_message_ok(m: StatusMessage) -> bool {
    &&& m.parts@.len() == 2
    &&& m.parts@[0]@.text == clip(("Build ").spec_bytes())
    &&& m.parts@[1]@.text == clip(("running").spec_bytes())
}

/// What the finished-build message says, given the bar's counters and the
/// build's exit summary.
pub open spec fn finished_message_ok(
    m: StatusMessage,
    errors: int,
    warnings: int,
    notes: int,
    prepared: int,
    output: int,
    exit: ExitInfo,
) -> bool {
    &&& m.parts@.len() == 10
    &&& m.parts@[0]@.text == clip(("Build ").spec_bytes())
    &&& m.parts@[1]@.text == clip(("finished").spec_bytes())
    &&& m.parts@[2]@.text == clip(
        if exit.success {
            (" ok").spec_bytes()
        } else {
            (" failed").spec_bytes()
        },
    )
    &&& m.parts@[4]@.text == clip(count_text(errors, ("error").spec_bytes()))
    &&& m.parts@[6]@.text == clip(count_text(warnings, ("warning").spec_bytes()))
    &&& m.parts@[8]@.text == clip(count_text(notes, ("note").spec_bytes()))
    &&& m.parts@[9]@.text == clip(
        fmt_usize_spec(prepared) + ("/").spec_bytes() + fmt_usize_spec(output) + (
        " line(s)").spec_bytes(),
    )
}

/// The status bar state: a bounded ring of messages, the write cursor and
/// the counters shown after a build finishes.
#[derive(Clone, Debug, PartialEq)]
pub struct StatusBar {
    pub messages: Vec<Option<StatusMessage>>,
    pub cursor: usize,
    pub num_errors: usize,
    pub num_warnings: usize,
    pub num_notes: usize,
    pub num_output_lines: usize,
    pub num_prepared_lines: usize,
}

impl StatusBar {
    /// The ring has its fixed size and the cursor stays inside it.
    pub open spec fn wf(self) -> bool {
        self.messages@.len() == STATUS_BAR_BUF && self.cursor < STATUS_BAR_BUF
    }

    /// An empty bar.
    pub fn new() -> (r: Self)
        ensures
            r.wf(),
            r.cursor == 0,
            forall|i: int| 0 <= i < r.messages@.len() ==> (#[trigger] r.messages@[i]) is None,
            r.num_errors == 0 && r.num_warnings == 0 && r.num_notes == 0,
            r.num_output_lines == 0 && r.num_prepared_lines == 0,
    {
        let mut messages: Vec<Option<StatusMessage>> = Vec::new();
        let mut i: usize = 0;
        while i < STATUS_BAR_BUF
            invariant
                0 <= i <= STATUS_BAR_BUF,
                messages@.len() == i,
                forall|j: int| 0 <= j < i ==> (#[trigger] messages@[j]) is None,
            decreases STATUS_BAR_BUF - i,
        {
            messages.push(None);
            i = i + 1;
        }
        StatusBar {
            messages,
            cursor: 0,
            num_errors: 0,
            num_warnings: 0,
            num_notes: 0,
            num_output_lines: 0,
            num_prepared_lines: 0,
        }
    }

    /// Store a message: while the ring has room the cursor advances;
    /// afterwards the ring rotates one slot and the newest message
    /// overwrites the cursor slot.
    pub fn push_message(&mut self, message: StatusMessage)
        requires
            old(self).wf(),
        ensures
            final(self).wf(),
            final(self).messages@[final(self).cursor as int] is Some || final(self).messages@[old(
                self,
            ).cursor as int] == Some(message),
            final(self).messages@[old(self).cursor as int] == Some(message),
            final(self).num_errors == old(self).num_errors,
            final(self).num_warnings == old(self).num_warnings,
            final(self).num_notes == old(self).num_notes,
            final(self).num_output_lines == old(self).num_output_lines,
            final(self).num_prepared_lines == old(self).num_prepared_lines,
    {
        // rotate the ring one slot to the right
        match self.messages.pop() {
            Some(last) => {
                self.messages.insert(0, last);
            },
            None => {},
        }
        self.messages.set(self.cursor, Some(message));
        if self.cursor < STATUS_BAR_BUF - 1 {
            self.cursor = self.cursor + 1;
        }
    }

    /// The bar with a message stored.
    pub fn with_message(self, msg: StatusMessage) -> (r: Self)
        requires
            self.wf(),
        ensures
            r.wf(),
            r.messages@[self.cursor as int] == Some(msg),
            r.num_errors == self.num_errors,
            r.num_warnings == self.num_warnings,
            r.num_notes == self.num_notes,
            r.num_output_lines == self.num_output_lines,
            r.num_prepared_lines == self.num_prepared_lines,
    {
        let mut s = self;
        s.push_message(msg);
        s
    }

    /// The bar with the message for a build event stored: a started or
    /// finished event puts its message in the cursor slot, an error event
    /// changes nothing.
    pub fn with_event(self, evt: BuildEvent) -> (r: Self)
        requires
            self.wf(),
        ensures
            r.wf(),
            r.num_errors == self.num_errors,
            r.num_warnings == self.num_warnings,
            r.num_notes == self.num_notes,
            r.num_output_lines == self.num_output_lines,
            r.num_prepared_lines == self.num_prepared_lines,
            evt matches BuildEvent::BuildError(_) ==> r == self,
            evt == BuildEvent::BuildStarted ==> (r.messages@[self.cursor as int] matches Some(m)
                && started_message_ok(m)),
            evt matches BuildEvent::BuildFinished(exit) ==> (r.messages@[self.cursor as int]
                matches Some(m) && finished_message_ok(
                m,
                self.num_errors as int,
                self.num_warnings as int,
                self.num_notes as int,
                self.num_prepared_lines as int,
                self.num_output_lines as int,
                exit,
            )),
    {
        match evt {
            BuildEvent::BuildError(_) => self,
            BuildEvent::BuildStarted => {
                let msg = self.transform_build_started();
                self.with_message(msg)
            },
            BuildEvent::BuildFinished(exit) => {
                let msg = self.transform_build_finished(exit);
                self.with_message(msg)
            },
        }
    }

    /// The bar with the error count replaced.
    pub fn with_num_errors(self, n: usize) -> (r: Self)
        ensures
            r == (StatusBar { num_errors: n, ..self }),
    {
        StatusBar { num_errors: n, ..self }
    }

    /// The bar with the note count replaced.
    pub fn with_num_notes(self, n: usize) -> (r: Self)
        ensures
            r == (StatusBar { num_notes: n, ..self }),
    {
        StatusBar { num_notes: n, ..self }
    }

    /// The bar with the warning count replaced.
    pub fn with_num_warnings(self, n: usize) -> (r: Self)
        ensures
            r == (StatusBar { num_warnings: n, ..self }),
    {
        StatusBar { num_warnings: n, ..self }
    }

    /// The bar with the received-line count replaced.
    pub fn with_num_output_lines(self, n: usize) -> (r: Self)
        ensures
            r == (StatusBar { num_output_lines: n, ..self }),
    {
        StatusBar { num_output_lines: n, ..self }
    }

    /// The bar with the prepared-line count replaced.
    pub fn with_num_prepared_lines(self, n: usize) -> (r: Self)
        ensures
            r == (StatusBar { num_prepared_lines: n, ..self }),
    {
        StatusBar { num_prepared_lines: n, ..self }
    }

    /// The running-build message.
    pub fn transform_build_started(&self) -> (r: StatusMessage)
        ensures
            r.wf(),
            started_message_ok(r),
    {
        let mut parts: Vec<StatusPart> = Vec::new();
        parts.push(StatusPart::new(byte_lit("Build "), TextStyle::plain()));
        parts.push(
            StatusPart::new(
                byte_lit("running"),
                TextStyle { fg: TextColor::Gray, bg: TextColor::Unset, bold: false, dim: false },
            ),
        );
        StatusMessage::new(parts)
    }

    /// The finished-build message: the verdict, then the error, warning,
    /// note and line counters, separated by bars.
    pub fn transform_build_finished(&self, exit: ExitInfo) -> (r: StatusMessage)
        ensures
            r.wf(),
            finished_message_ok(
                r,
                self.num_errors as int,
                self.num_warnings as int,
                self.num_notes as int,
                self.num_prepared_lines as int,
                self.num_output_lines as int,
                exit,
            ),
    {
        let sep = TextStyle::plain();
        let mut parts: Vec<StatusPart> = Vec::new();
        parts.push(StatusPart::new(byte_lit("Build "), sep));
        parts.push(StatusPart::new(byte_lit("finished"), TextStyle::bold(TextColor::Unset)));
        if exit.success {
            parts.push(StatusPart::new(byte_lit(" ok"), TextStyle::bold(TextColor::Green)));
        } else {
            parts.push(StatusPart::new(byte_lit(" failed"), TextStyle::bold(TextColor::Red)));
        }
        parts.push(StatusPart::new(byte_lit(" | "), sep));
        let ghost ev = ("error").spec_bytes();
        let errs = Self::count_part(self.num_errors, byte_lit("error"), TextColor::Red);
        proof {
            assert(errs@.text == clip(count_text(self.num_errors as int, ev)));
        }
        parts.push(errs);
        parts.push(StatusPart::new(byte_lit(" | "), sep));
        parts.push(Self::count_part(self.num_warnings, byte_lit("warning"), TextColor::Yellow));
        parts.push(StatusPart::new(byte_lit(" | "), sep));
        parts.push(Self::count_part(self.num_notes, byte_lit("note"), TextColor::Blue));
        let mut lines = fmt_usize(self.num_prepared_lines);
        let mut slash = byte_lit("/");
        let mut total = fmt_usize(self.num_output_lines);
        let mut suffix = byte_lit(" line(s)");
        lines.append(&mut slash);
        lines.append(&mut total);
        lines.append(&mut suffix);
        parts.push(StatusPart::new(lines, TextStyle::dimmed()));
        StatusMessage::new(parts)
    }

    /// One counter part: `no <what>s` dimmed when zero, else the count in
    /// the given colour.
    fn count_part(n: usize, what: Vec<u8>, color: TextColor) -> (r: StatusPart)
        ensures
            r.wf(),
            r@.text == clip(count_text(n as int, what@)),
            r@.style == (if n == 0 {
                TextStyle::dim_spec()
            } else {
                TextStyle { fg: color, bg: TextColor::Unset, bold: false, dim: false }
            }),
    {
        if n == 0 {
            let mut text = byte_lit("no ");
            let mut w = what;
            text.append(&mut w);
            let mut s = byte_lit("s");
            text.append(&mut s);
            StatusPart::new(text, TextStyle::dimmed())
        } else {
            let mut text = fmt_usize(n);
            text.push(32);
            let mut w = what;
            text.append(&mut w);
            let mut s = byte_lit("(s)");
            text.append(&mut s);
            StatusPart::new(
                text,
                TextStyle { fg: color, bg: TextColor::Unset, bold: false, dim: false },
            )
        }
    }

    /// The most recent message at or before the cursor, if any.
    pub fn last_message(&self) -> (r: Option<&StatusMessage>)
        requires
            self.wf(),
        ensures
            match r {
                Some(m) => exists|i: int|
                    0 <= i <= self.cursor && self.messages@[i] == Some(*m) && forall|j: int|
                        i < j <= self.cursor ==> self.messages@[j] is None,
                None => forall|j: int| 0 <= j <= self.cursor ==> self.messages@[j] is None,
            },
    {
        let mut i: usize = self.cursor + 1;
        while i > 0
            invariant
                0 <= i <= self.cursor + 1,
                self.cursor < self.messages@.len(),
                forall|j: int| i <= j <= self.cursor ==> self.messages@[j] is None,
            decreases i,
        {
            i = i - 1;
            match &self.messages[i] {
                Some(m) => {
                    return Some(m);
                },
                None => {},
            }
        }
        None
    }
}

} // verus!
