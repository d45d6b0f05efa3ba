//! Decisions of the interactive viewer: which pane has focus, how a key
//! press changes the view, the manual-metadata form, and list scrolling.
//! Drawing and terminal I/O are left to the application around the library.
use crate::disassemble::{
    disassemble_manual, insns_view, parse_arch, parse_endian, parse_hex,
    spec_disassemble_manual, spec_parse_arch, spec_parse_endian, spec_parse_hex, Insn, ManualMeta,
};
use crate::text::{
    chars_of, decimal, pad_left, pad_right, pop_char, push_char, push_chars, push_decimal,
    push_left_padded, push_padded, push_str,
    trim, trim_chars,
};
use crate::disassemble::{lower_hex, push_lower_hex};
use crate::metadata::{select, tagged_view};
use vstd::prelude::*;

verus! {

/// The four panes of the viewer.
#[derive(Debug, Clone, Copy, PartialEq, Eq, Structural)]
pub enum Pane {
    Disasm,
    Files,
    Strings,
    Entropy,
}

impl Pane {
    pub open spec fn spec_next(self) -> Pane {
        match self {
            Pane::Disasm => Pane::Files,
            Pane::Files => Pane::Strings,
            Pane::Strings => Pane::Entropy,
            Pane::Entropy => Pane::Disasm,
        }
    }

    /// The pane that Tab moves the focus to.
    pub fn next(self) -> (r: Pane)
        ensures
            r == self.spec_next(),
    {
        match self {
            Pane::Disasm => Pane::Files,
            Pane::Files => Pane::Strings,
            Pane::Strings => Pane::Entropy,
            Pane::Entropy => Pane::Disasm,
        }
    }
}

/// Pressing Tab four times brings the focus back where it started, having
/// visited every pane on the way.
pub proof fn law_focus_cycle(p: Pane)
    ensures
        p.spec_next().spec_next().spec_next().spec_next() == p,
        p.spec_next() != p,
        p.spec_next().spec_next() != p,
        p.spec_next().spec_next().spec_next() != p,
{
}

/// `x` clamped to `lo..=hi`.
pub open spec fn clamp(x: int, lo: int, hi: int) -> int {
    if x < lo {
        lo
    } else if x > hi {
        hi
    } else {
        x
    }
}

/// A moved selection always lands on a row of the list.
pub proof fn law_step_in_range(current: int, delta: int, len: int)
    requires
        len > 0,
    ensures
        0 <= clamp(current + delta, 0, len - 1) < len,
{
}

/// Moves a selection index by `delta`, clamped to `[0, len - 1]`. Returns
/// `None` for an empty list; no selection counts as the first row.
pub fn step(current: Option<usize>, delta: isize, len: usize) -> (r: Option<usize>)
    requires
        len <= isize::MAX,
        current.unwrap_or(0) <= isize::MAX,
        isize::MIN <= current.unwrap_or(0) + delta <= isize::MAX,
    ensures
        len == 0 ==> r is None,
        len > 0 ==> r == Some(clamp(current.unwrap_or(0) + delta, 0, len - 1) as usize),
{
    if len == 0 {
        return None;
    }
    let cur = match current {
        Some(c) => c as isize,
        None => 0,
    };
    let target = cur + delta;
    let last = len as isize - 1;
    let next = if target < 0 {
        0
    } else if target > last {
        last
    } else {
        target
    };
    Some(next as usize)
}

/// The row a list selects first: its first row, if it has one.
pub fn first_row(len: usize) -> (r: Option<usize>)
    ensures
        r == if len > 0 {
            Some(0usize)
        } else {
            None
        },
{
    if len > 0 {
        Some(0)
    } else {
        None
    }
}

/// Number of fields in the manual-metadata form: architecture, endianness,
/// base address, offset.
pub open spec fn field_count() -> int {
    4
}

/// State of the manual-metadata entry form shown in the disassembly pane
/// when automatic detection fails.
pub struct DisasmForm {
    values: Vec<String>,
    active: usize,
    error: Option<String>,
}

/// Mathematical form of the form: field texts, active field, error message.
pub type FormView = (Seq<Seq<char>>, int, Option<Seq<char>>);

pub open spec fn opt_text(o: Option<String>) -> Option<Seq<char>> {
    match o {
        Some(s) => Some(s@),
        None => None,
    }
}

impl View for DisasmForm {
    type V = FormView;

    closed spec fn view(&self) -> FormView {
        (self.values@.map_values(|s: String| s@), self.active as int, opt_text(self.error))
    }
}

impl DisasmForm {
    #[verifier::type_invariant]
    spec fn well_formed(self) -> bool {
        self.values@.len() == field_count() && self.active < field_count()
    }

    /// A fresh form: empty architecture and endianness, base address and
    /// offset preset to 0 (the right guess for a raw blob loaded at the start
    /// of memory), first field active, no error.
    pub fn new() -> (r: DisasmForm)
        ensures
            r@ == (seq![Seq::<char>::empty(), Seq::<char>::empty(), seq!['0'], seq!['0']], 0int, None::<Seq<char>>),
    {
        let mut values: Vec<String> = Vec::new();
        values.push(String::new());
        values.push(String::new());
        let mut zero = String::new();
        push_char(&mut zero, '0');
        values.push(zero.clone());
        values.push(zero);
        let r = DisasmForm { values, active: 0, error: None };
        assert(r@.0 =~= seq![Seq::<char>::empty(), Seq::<char>::empty(), seq!['0'], seq!['0']]);
        r
    }

    /// The text of each field.
    pub fn values(&self) -> (r: &Vec<String>)
        ensures
            r@.map_values(|s: String| s@) == self@.0,
            r@.len() == field_count(),
    {
        proof {
            use_type_invariant(self);
        }
        &self.values
    }

    /// Index of the field being edited.
    pub fn active(&self) -> (r: usize)
        ensures
            r == self@.1,
            r < field_count(),
    {
        proof {
            use_type_invariant(self);
        }
        self.active
    }

    /// The parse error shown under the fields, if any.
    pub fn error(&self) -> (r: &Option<String>)
        ensures
            opt_text(*r) == self@.2,
    {
        &self.error
    }

    fn set_error(&mut self, msg: String)
        ensures
            final(self)@ == (old(self)@.0, old(self)@.1, Some(msg@)),
    {
        proof {
            use_type_invariant(&*self);
        }
        self.error = Some(msg);
    }
}

/// The label of each form field.
pub open spec fn field_label(i: int) -> Seq<char> {
    if i == 0 {
        "Architecture"@
    } else if i == 1 {
        "Endianness"@
    } else if i == 2 {
        "Base address (hex)"@
    } else {
        "Offset (hex)"@
    }
}

fn field_label_text(i: usize) -> (r: &'static str)
    ensures
        r@ == field_label(i as int),
{
    if i == 0 {
        "Architecture"
    } else if i == 1 {
        "Endianness"
    } else if i == 2 {
        "Base address (hex)"
    } else {
        "Offset (hex)"
    }
}

/// How a form field is shown: a marker ("▶ " on the active field, two
/// spaces elsewhere) and the label padded to 20 columns, then the field's
/// text with a "_" cursor on the active field.
pub open spec fn spec_form_line(f: FormView, i: int) -> (Seq<char>, Seq<char>) {
    let active = i == f.1;
    (
        (if active { "▶ "@ } else { "  "@ }) + pad_right(field_label(i), 20),
        f.0[i] + (if active { "_"@ } else { Seq::<char>::empty() }),
    )
}

/// The text of each form field's line, in field order.
pub fn form_line_texts(form: &DisasmForm) -> (r: Vec<(String, String)>)
    ensures
        r@.len() == field_count(),
        forall|i: int|
            0 <= i < field_count() ==> (#[trigger] r@[i].0@, r@[i].1@) == spec_form_line(form@, i),
{
    let values = form.values();
    let active = form.active();
    let mut out: Vec<(String, String)> = Vec::new();
    let mut i: usize = 0;
    while i < 4
        invariant
            i <= 4,
            out@.len() == i,
            values@.len() == field_count(),
            values@.map_values(|s: String| s@) == form@.0,
            active == form@.1,
            forall|k: int| 0 <= k < i ==> (#[trigger] out@[k].0@, out@[k].1@) == spec_form_line(form@, k),
        decreases 4 - i,
    {
        let mut head = String::new();
        let mut text = values[i].clone();
        assert(text@ == form@.0[i as int]);
        if i == active {
            push_str(&mut head, "▶ ");
            push_str(&mut text, "_");
        } else {
            push_str(&mut head, "  ");
        }
        push_padded(&mut head, field_label_text(i), 20);
        assert((head@, text@) == spec_form_line(form@, i as int));
        out.push((head, text));
        i = i + 1;
    }
    out
}

/// The line shown under the fields for a parse error.
pub open spec fn spec_form_error_line(f: FormView) -> Option<Seq<char>> {
    match f.2 {
        Some(e) => Some("✗ "@ + e),
        None => None,
    }
}

/// The error line under the fields, if the form has an error.
pub fn form_error_line(form: &DisasmForm) -> (r: Option<String>)
    ensures
        opt_text(r) == spec_form_error_line(form@),
{
    match form.error() {
        Some(e) => {
            let mut line = String::new();
            push_str(&mut line, "✗ ");
            push_str(&mut line, e.as_str());
            Some(line)
        },
        None => None,
    }
}

/// A key press, as far as the viewer distinguishes keys.
#[derive(Debug, Clone, Copy, PartialEq, Eq, Structural)]
pub enum Key {
    Char(char),
    Esc,
    Tab,
    Up,
    Down,
    PageUp,
    PageDown,
    Enter,
    Backspace,
    Other,
}

/// What the application must do after a key press.
#[derive(Debug, Clone, Copy, PartialEq, Eq, Structural)]
pub enum Command {
    /// Nothing beyond the state change.
    Nothing,
    /// Move the selection of the focused pane by this many rows.
    Scroll(isize),
    /// Carve the found signatures out of the image.
    Extract,
    /// Run the disassembler with the metadata in the form.
    SubmitForm,
}

/// How a key edits the open form: Tab/Down and Up move between fields
/// (wrapping around), Backspace deletes the last character of the active
/// field, a character is appended to it; other keys change nothing.
pub open spec fn spec_form_edit(f: FormView, key: Key) -> FormView {
    match key {
        Key::Tab | Key::Down => (f.0, (f.1 + 1) % field_count(), f.2),
        Key::Up => (f.0, (f.1 + field_count() - 1) % field_count(), f.2),
        Key::Backspace => (
            f.0.update(
                f.1,
                if f.0[f.1].len() > 0 {
                    f.0[f.1].drop_last()
                } else {
                    f.0[f.1]
                },
            ),
            f.1,
            f.2,
        ),
        Key::Char(c) => (f.0.update(f.1, f.0[f.1].push(c)), f.1, f.2),
        _ => f,
    }
}

/// `values` with entry `i` replaced by `s`.
fn replaced(values: &Vec<String>, i: usize, s: String) -> (r: Vec<String>)
    requires
        i < values@.len(),
    ensures
        r@.len() == values@.len(),
        r@.map_values(|x: String| x@) == values@.map_values(|x: String| x@).update(i as int, s@),
{
    let mut out: Vec<String> = Vec::new();
    let mut k: usize = 0;
    while k < values.len()
        invariant
            k <= values@.len(),
            i < values@.len(),
            out@.len() == k,
            forall|j: int| 0 <= j < k ==> (#[trigger] out@[j])@ == (if j == i {
                s@
            } else {
                values@[j]@
            }),
        decreases values@.len() - k,
    {
        if k == i {
            out.push(s.clone());
        } else {
            out.push(values[k].clone());
        }
        k = k + 1;
    }
    assert(out@.map_values(|x: String| x@) =~= values@.map_values(|x: String| x@).update(
        i as int,
        s@,
    ));
    out
}

impl DisasmForm {
    /// Applies a key that edits the form (see `spec_form_edit`).
    pub fn edit(&mut self, key: Key)
        ensures
            final(self)@ == spec_form_edit(old(self)@, key),
    {
        proof {
            use_type_invariant(&*self);
        }
        let i = self.active;
        match key {
            Key::Tab | Key::Down => {
                self.active = (self.active + 1) % 4;
            },
            Key::Up => {
                self.active = (self.active + 3) % 4;
            },
            Key::Backspace => {
                let mut s = self.values[i].clone();
                let _ = pop_char(&mut s);
                self.values = replaced(&self.values, i, s);
            },
            Key::Char(c) => {
                let mut s = self.values[i].clone();
                push_char(&mut s, c);
                self.values = replaced(&self.values, i, s);
            },
            _ => {},
        }
    }
}

/// Moving down and then up through the fields returns to the same field.
pub proof fn law_field_navigation(f: FormView)
    requires
        0 <= f.1 < field_count(),
    ensures
        spec_form_edit(spec_form_edit(f, Key::Tab), Key::Up) == f,
        spec_form_edit(spec_form_edit(f, Key::Up), Key::Down) == f,
        0 <= spec_form_edit(f, Key::Tab).1 < field_count(),
        0 <= spec_form_edit(f, Key::Up).1 < field_count(),
{
}

/// Typing a character and deleting it restores the form.
pub proof fn law_type_then_delete(f: FormView, c: char)
    requires
        0 <= f.1 < f.0.len(),
    ensures
        spec_form_edit(spec_form_edit(f, Key::Char(c)), Key::Backspace) == f,
{
    assert(f.0[f.1].push(c).drop_last() =~= f.0[f.1]);
    assert(f.0.update(f.1, f.0[f.1].push(c)).update(f.1, f.0[f.1]) =~= f.0);
}

/// Help line shown when nothing else is reported.
pub open spec fn default_status() -> Seq<char> {
    "[Tab] switch pane   [↑/↓] scroll   [e] extract   [m] disasm metadata   [q] quit"@
}

/// Shown when the form is asked for away from the disassembly pane.
pub open spec fn focus_disasm_status() -> Seq<char> {
    "Focus the Disassembly pane (Tab) before entering metadata."@
}

/// Shown while the form is open.
pub open spec fn form_status() -> Seq<char> {
    "Manual metadata: type values · [Tab]/[↑↓] field · [Enter] run · [Esc] cancel"@
}

/// The viewer's state: focus, the manual-metadata form, the status line,
/// and the disassembly listing with its error and selected row. The other
/// analysis results and their selections are kept by the application.
pub struct ViewState {
    pub focus: Pane,
    /// When `Some`, the disassembly pane is in manual-metadata entry mode and
    /// captures keystrokes for the form.
    pub form: Option<DisasmForm>,
    pub should_quit: bool,
    pub status: String,
    /// The disassembly listing shown in the disassembly pane.
    pub disasm: Vec<Insn>,
    /// Why the last disassembly failed, if it did.
    pub disasm_err: Option<String>,
    /// The selected row of the listing.
    pub disasm_selected: Option<usize>,
}

pub open spec fn form_view(f: Option<DisasmForm>) -> Option<FormView> {
    match f {
        Some(x) => Some(x@),
        None => None,
    }
}

impl ViewState {
    /// The start-up state: disassembly pane focused, no form, help line, and
    /// the start-up disassembly with its first row selected (if it has one).
    pub fn new(disasm: Vec<Insn>, disasm_err: Option<String>) -> (r: ViewState)
        ensures
            r.focus == Pane::Disasm,
            r.form is None,
            !r.should_quit,
            r.status@ == default_status(),
            r.disasm == disasm,
            r.disasm_err == disasm_err,
            r.disasm_selected == if disasm@.len() > 0 {
                Some(0usize)
            } else {
                None
            },
    {
        let disasm_selected = first_row(disasm.len());
        ViewState {
            focus: Pane::Disasm,
            form: None,
            should_quit: false,
            status: "[Tab] switch pane   [↑/↓] scroll   [e] extract   [m] disasm metadata   [q] quit".to_owned(),
            disasm,
            disasm_err,
            disasm_selected,
        }
    }

    /// Reacts to a key press. While the form is open it owns the keyboard:
    /// Esc closes it, Enter submits it, every other key edits it. Otherwise
    /// `q`/Esc quit, Tab moves the focus, arrows, `j`/`k` and page keys
    /// scroll, `e` extracts and `m` opens the form (only from the
    /// disassembly pane).
    pub fn handle_key(&mut self, key: Key) -> (r: Command)
        ensures
            final(self).disasm == old(self).disasm,
            final(self).disasm_err == old(self).disasm_err,
            final(self).disasm_selected == old(self).disasm_selected,
            old(self).form is Some ==> match key {
                Key::Esc => {
                    &&& final(self).form is None
                    &&& final(self).status@ == default_status()
                    &&& final(self).focus == old(self).focus
                    &&& final(self).should_quit == old(self).should_quit
                    &&& r == Command::Nothing
                },
                Key::Enter => {
                    &&& form_view(final(self).form) == form_view(old(self).form)
                    &&& final(self).status@ == old(self).status@
                    &&& final(self).focus == old(self).focus
                    &&& final(self).should_quit == old(self).should_quit
                    &&& r == Command::SubmitForm
                },
                _ => {
                    &&& final(self).form is Some
                    &&& form_view(final(self).form) == Some(
                        spec_form_edit(form_view(old(self).form).unwrap(), key),
                    )
                    &&& final(self).status@ == old(self).status@
                    &&& final(self).focus == old(self).focus
                    &&& final(self).should_quit == old(self).should_quit
                    &&& r == Command::Nothing
                },
            },
            old(self).form is None ==> {
                &&& final(self).should_quit == (old(self).should_quit || key == Key::Esc || key
                    == Key::Char('q'))
                &&& final(self).focus == if key == Key::Tab {
                    old(self).focus.spec_next()
                } else {
                    old(self).focus
                }
                &&& r == match key {
                    Key::Down | Key::Char('j') => Command::Scroll(1),
                    Key::Up | Key::Char('k') => Command::Scroll(-1isize),
                    Key::PageDown => Command::Scroll(10),
                    Key::PageUp => Command::Scroll(-10isize),
                    Key::Char('e') => Command::Extract,
                    _ => Command::Nothing,
                }
                &&& if key == Key::Char('m') {
                    if old(self).focus == Pane::Disasm {
                        &&& form_view(final(self).form) == Some(
                            (
                                seq![Seq::<char>::empty(), Seq::<char>::empty(), seq!['0'], seq!['0']],
                                0int,
                                None::<Seq<char>>,
                            ),
                        )
                        &&& final(self).status@ == form_status()
                    } else {
                        &&& final(self).form is None
                        &&& final(self).status@ == focus_disasm_status()
                    }
                } else {
                    &&& final(self).form is None
                    &&& final(self).status@ == old(self).status@
                }
            },
    {
        if self.form.is_some() {
            match key {
                Key::Esc => {
                    self.form = None;
                    self.status = "[Tab] switch pane   [↑/↓] scroll   [e] extract   [m] disasm metadata   [q] quit".to_owned();
                    return Command::Nothing;
                },
                Key::Enter => {
                    return Command::SubmitForm;
                },
                _ => {
                    let mut f = self.form.take().unwrap();
                    f.edit(key);
                    self.form = Some(f);
                    return Command::Nothing;
                },
            }
        }
        match key {
            Key::Char('q') | Key::Esc => {
                self.should_quit = true;
                Command::Nothing
            },
            Key::Tab => {
                self.focus = self.focus.next();
                Command::Nothing
            },
            Key::Down | Key::Char('j') => Command::Scroll(1),
            Key::Up | Key::Char('k') => Command::Scroll(-1isize),
            Key::PageDown => Command::Scroll(10),
            Key::PageUp => Command::Scroll(-10isize),
            Key::Char('e') => Command::Extract,
            Key::Char('m') => {
                if self.focus != Pane::Disasm {
                    self.status = "Focus the Disassembly pane (Tab) before entering metadata.".to_owned();
                } else {
                    self.form = Some(DisasmForm::new());
                    self.status = "Manual metadata: type values · [Tab]/[↑↓] field · [Enter] run · [Esc] cancel".to_owned();
                }
                Command::Nothing
            },
            _ => Command::Nothing,
        }
    }
}


/// Message for an unknown architecture keyword.
pub open spec fn unknown_arch_msg(field: Seq<char>) -> Seq<char> {
    "unknown architecture: '"@ + trim(field) + "'"@
}

pub open spec fn bad_endian_msg() -> Seq<char> {
    "endianness must be 'little'/'le' or 'big'/'be'"@
}

pub open spec fn bad_base_msg() -> Seq<char> {
    "base address must be a hex number (e.g. 0x80000000)"@
}

pub open spec fn bad_offset_msg() -> Seq<char> {
    "offset must be a hex number"@
}

/// Mathematical form of manual metadata.
pub open spec fn meta_view(m: ManualMeta) -> (crate::disassemble::Arch, crate::disassemble::Endian, u64, usize) {
    (m.arch, m.endian, m.base_addr, m.offset)
}

/// The form's four fields as metadata, or the message for the first field
/// that does not parse. An offset left blank means 0.
pub open spec fn spec_parse_form(v: Seq<Seq<char>>) -> Result<
    (crate::disassemble::Arch, crate::disassemble::Endian, u64, usize),
    Seq<char>,
> {
    match spec_parse_arch(v[0]) {
        None => Err(unknown_arch_msg(v[0])),
        Some(a) => match spec_parse_endian(v[1]) {
            None => Err(bad_endian_msg()),
            Some(e) => match spec_parse_hex(v[2]) {
                None => Err(bad_base_msg()),
                Some(b) => if trim(v[3]).len() == 0 {
                    Ok((a, e, b, 0usize))
                } else {
                    match spec_parse_hex(v[3]) {
                        None => Err(bad_offset_msg()),
                        Some(o) => Ok((a, e, b, o as usize)),
                    }
                },
            },
        },
    }
}

pub open spec fn meta_result_view(r: Result<ManualMeta, String>) -> Result<
    (crate::disassemble::Arch, crate::disassemble::Endian, u64, usize),
    Seq<char>,
> {
    match r {
        Ok(m) => Ok(meta_view(m)),
        Err(e) => Err(e@),
    }
}

/// Turns the form's fields into `ManualMeta`, reporting the first bad field.
pub fn parse_form(form: &DisasmForm) -> (r: Result<ManualMeta, String>)
    ensures
        meta_result_view(r) == spec_parse_form(form@.0),
{
    let values = form.values();
    assert(values@[0]@ == form@.0[0] && values@[1]@ == form@.0[1] && values@[2]@ == form@.0[2]
        && values@[3]@ == form@.0[3]);
    let arch = match parse_arch(values[0].as_str()) {
        Some(a) => a,
        None => {
            let mut msg = String::new();
            push_str(&mut msg, "unknown architecture: '");
            push_chars(&mut msg, &trim_chars(&chars_of(values[0].as_str())));
            push_str(&mut msg, "'");
            assert(msg@ =~= unknown_arch_msg(form@.0[0]));
            return Err(msg);
        },
    };
    let endian = match parse_endian(values[1].as_str()) {
        Some(e) => e,
        None => return Err("endianness must be 'little'/'le' or 'big'/'be'".to_owned()),
    };
    let base_addr = match parse_hex(values[2].as_str()) {
        Some(b) => b,
        None => return Err("base address must be a hex number (e.g. 0x80000000)".to_owned()),
    };
    let offset = if trim_chars(&chars_of(values[3].as_str())).len() == 0 {
        0
    } else {
        match parse_hex(values[3].as_str()) {
            Some(o) => o as usize,
            None => return Err("offset must be a hex number".to_owned()),
        }
    };
    Ok(ManualMeta { arch, endian, base_addr, offset })
}

/// Status after a successful manual disassembly of `n` instructions.
pub open spec fn disassembled_status(n: nat) -> Seq<char> {
    "Disassembled "@ + decimal(n) + " instruction(s) from manual metadata."@
}

/// Status after a failed manual disassembly.
pub open spec fn failed_status(e: Seq<char>) -> Seq<char> {
    "Disassembly failed: "@ + e + "  —  press [m] to try new data"@
}

/// The metadata that a parsed form stands for.
pub open spec fn meta_of(t: (crate::disassemble::Arch, crate::disassemble::Endian, u64, usize)) -> ManualMeta {
    ManualMeta { arch: t.0, endian: t.1, base_addr: t.2, offset: t.3 }
}

impl ViewState {
    /// Validates the open form and, if it parses, runs the disassembler with
    /// the user-supplied metadata. A parse error stays in the form. A
    /// successful disassembly replaces the listing, clears the error and
    /// selects the first row; a failed one keeps the listing and records the
    /// error. Either closes the form and is reported in the status line.
    /// Without an open form nothing happens. Returns whether a new listing
    /// was installed.
    pub fn submit_form(&mut self, firmware: &[u8]) -> (r: bool)
        ensures
            final(self).focus == old(self).focus,
            final(self).should_quit == old(self).should_quit,
            old(self).form is None ==> {
                &&& !r
                &&& final(self).form is None
                &&& final(self).status@ == old(self).status@
                &&& final(self).disasm == old(self).disasm
                &&& final(self).disasm_err == old(self).disasm_err
                &&& final(self).disasm_selected == old(self).disasm_selected
            },
            old(self).form is Some ==> {
                let f = form_view(old(self).form).unwrap();
                match spec_parse_form(f.0) {
                    Err(msg) => {
                        &&& !r
                        &&& form_view(final(self).form) == Some((f.0, f.1, Some(msg)))
                        &&& final(self).status@ == old(self).status@
                        &&& final(self).disasm == old(self).disasm
                        &&& final(self).disasm_err == old(self).disasm_err
                        &&& final(self).disasm_selected == old(self).disasm_selected
                    },
                    Ok(t) => {
                        &&& final(self).form is None
                        &&& match spec_disassemble_manual(firmware@, meta_of(t)) {
                            Ok(rows) => {
                                &&& r
                                &&& insns_view(final(self).disasm@) == rows
                                &&& final(self).disasm_err is None
                                &&& final(self).disasm_selected == Some(0usize)
                                &&& final(self).status@ == disassembled_status(rows.len())
                            },
                            Err(m) => {
                                &&& !r
                                &&& final(self).disasm == old(self).disasm
                                &&& opt_text(final(self).disasm_err) == Some(m)
                                &&& final(self).disasm_selected == old(self).disasm_selected
                                &&& final(self).status@ == failed_status(m)
                            },
                        }
                    },
                }
            },
    {
        let meta = match &self.form {
            None => return false,
            Some(f) => parse_form(f),
        };
        let meta = match meta {
            Ok(m) => m,
            Err(msg) => {
                let mut f = self.form.take().unwrap();
                f.set_error(msg);
                self.form = Some(f);
                return false;
            },
        };
        let result = disassemble_manual(firmware, &meta);
        self.form = None;
        match result {
            Ok(d) => {
                let mut st = String::new();
                push_str(&mut st, "Disassembled ");
                push_decimal(&mut st, d.len() as u64);
                push_str(&mut st, " instruction(s) from manual metadata.");
                assert(st@ =~= disassembled_status(d@.len()));
                self.status = st;
                self.disasm = d;
                self.disasm_err = None;
                self.disasm_selected = Some(0);
                true
            },
            Err(e) => {
                let mut st = String::new();
                push_str(&mut st, "Disassembly failed: ");
                push_str(&mut st, e.as_str());
                push_str(&mut st, "  —  press [m] to try new data");
                assert(st@ =~= failed_status(e@));
                self.status = st;
                self.disasm_err = Some(e);
                false
            },
        }
    }
}

/// How many of the tagged strings are flagged important.
pub fn count_important(strings: &Vec<(String, u64, bool)>) -> (r: usize)
    ensures
        r == select(tagged_view(strings@), true).len(),
{
    let mut n: usize = 0;
    let mut i: usize = 0;
    while i < strings.len()
        invariant
            i <= strings@.len(),
            n == select(tagged_view(strings@.take(i as int)), true).len(),
            n <= i,
        decreases strings@.len() - i,
    {
        let ghost t = tagged_view(strings@.take(i + 1));
        assert(t.drop_last() =~= tagged_view(strings@.take(i as int)));
        assert(t.last() == (strings@[i as int].0@, strings@[i as int].1, strings@[i as int].2));
        if strings[i].2 {
            n = n + 1;
        }
        i = i + 1;
    }
    assert(strings@.take(strings@.len() as int) =~= strings@);
    n
}

/// Title of the strings pane: the count of important strings when there
/// are any.
pub open spec fn spec_strings_title(important: nat) -> Seq<char> {
    if important > 0 {
        "Strings Found  (★ "@ + decimal(important) + " of interest, shown first)"@
    } else {
        "Strings Found"@
    }
}

pub fn strings_title(important: usize) -> (r: String)
    ensures
        r@ == spec_strings_title(important as nat),
{
    if important > 0 {
        let mut t = String::new();
        push_str(&mut t, "Strings Found  (★ ");
        push_decimal(&mut t, important as u64);
        push_str(&mut t, " of interest, shown first)");
        t
    } else {
        "Strings Found".to_owned()
    }
}

/// A row of the strings pane: a star for an important string, the offset
/// as at least eight hex digits, and the text.
pub open spec fn spec_string_row(text: Seq<char>, offset: u64, important: bool) -> Seq<char> {
    (if important { "★ "@ } else { "  "@ }) + "0x"@ + pad_left(lower_hex(offset as nat), 8, '0') + "  "@
        + text
}

pub fn string_row(text: &String, offset: u64, important: bool) -> (r: String)
    ensures
        r@ == spec_string_row(text@, offset, important),
{
    let mut row = String::new();
    if important {
        push_str(&mut row, "★ ");
    } else {
        push_str(&mut row, "  ");
    }
    push_str(&mut row, "0x");
    let mut hex = String::new();
    push_lower_hex(&mut hex, offset);
    let digits = chars_of(hex.as_str());
    push_left_padded(&mut row, &digits, 8, '0');
    push_str(&mut row, "  ");
    push_str(&mut row, text.as_str());
    row
}

/// Status line after an extraction request: `None` when there were no
/// signatures to extract, otherwise the number of items carved out or the
/// extractor's error message.
pub open spec fn spec_extraction_status(outcome: Option<Result<usize, String>>) -> Seq<char> {
    match outcome {
        None => "No signatures available to extract."@,
        Some(Ok(n)) => if n == 0 {
            "Extraction ran, but nothing was carved out."@
        } else {
            "Extracted "@ + decimal(n as nat) + " item(s) into ./extracted"@
        },
        Some(Err(e)) => "Extraction failed: "@ + e@,
    }
}

pub fn extraction_status(outcome: Option<Result<usize, String>>) -> (r: String)
    ensures
        r@ == spec_extraction_status(outcome),
{
    match outcome {
        None => "No signatures available to extract.".to_owned(),
        Some(Ok(n)) => {
            if n == 0 {
                "Extraction ran, but nothing was carved out.".to_owned()
            } else {
                let mut st = String::new();
                push_str(&mut st, "Extracted ");
                push_decimal(&mut st, n as u64);
                push_str(&mut st, " item(s) into ./extracted");
                assert(st@ =~= spec_extraction_status(outcome));
                st
            }
        },
        Some(Err(e)) => {
            let mut st = String::new();
            push_str(&mut st, "Extraction failed: ");
            push_str(&mut st, e.as_str());
            assert(st@ =~= spec_extraction_status(outcome));
            st
        },
    }
}

} // verus!
