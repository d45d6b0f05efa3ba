use fwx::ui::{count_important, first_row, string_row, strings_title};
use fwx::ui::{
    extraction_status, form_error_line, form_line_texts, parse_form, step, Command, DisasmForm, Key,
    Pane, ViewState,
};
use fwx::disassemble::{Arch, Endian};

#[test]
fn step_clamps() {
    assert_eq!(step(None, 1, 0), None);
    assert_eq!(step(None, 1, 5), Some(1));
    assert_eq!(step(Some(4), 1, 5), Some(4));
    assert_eq!(step(Some(2), -10, 5), Some(0));
    assert_eq!(step(Some(2), 10, 5), Some(4));
    assert_eq!(step(Some(9), 0, 5), Some(4));
}

#[test]
fn focus_cycles() {
    let mut p = Pane::Disasm;
    let mut seen = vec![p];
    for _ in 0..4 {
        p = p.next();
        seen.push(p);
    }
    assert_eq!(seen, vec![Pane::Disasm, Pane::Files, Pane::Strings, Pane::Entropy, Pane::Disasm]);
}

fn typed(form: &mut DisasmForm, s: &str) {
    for c in s.chars() {
        form.edit(Key::Char(c));
    }
}

#[test]
fn form_editing() {
    let mut f = DisasmForm::new();
    assert_eq!(f.values(), &vec!["".to_string(), "".to_string(), "0".to_string(), "0".to_string()]);
    assert_eq!(f.active(), 0);
    typed(&mut f, "armx");
    f.edit(Key::Backspace);
    f.edit(Key::Up);
    assert_eq!(f.active(), 3);
    f.edit(Key::Tab);
    f.edit(Key::Down);
    assert_eq!(f.active(), 1);
    typed(&mut f, "be");
    assert_eq!(f.values()[0], "arm");
    assert_eq!(f.values()[1], "be");
    let meta = parse_form(&f).unwrap();
    assert_eq!(meta.arch, Arch::Arm);
    assert_eq!(meta.endian, Endian::Big);
    assert_eq!(meta.base_addr, 0);
    assert_eq!(meta.offset, 0);
}

#[test]
fn form_errors() {
    let mut f = DisasmForm::new();
    typed(&mut f, " z80 ");
    assert_eq!(parse_form(&f).err().unwrap(), "unknown architecture: 'z80'");
    let mut g = DisasmForm::new();
    typed(&mut g, "mips");
    assert_eq!(parse_form(&g).err().unwrap(), "endianness must be 'little'/'le' or 'big'/'be'");
    g.edit(Key::Tab);
    typed(&mut g, "le");
    g.edit(Key::Tab);
    g.edit(Key::Backspace);
    assert_eq!(
        parse_form(&g).err().unwrap(),
        "base address must be a hex number (e.g. 0x80000000)"
    );
    typed(&mut g, "0x80000000");
    g.edit(Key::Tab);
    g.edit(Key::Backspace);
    g.edit(Key::Backspace);
    let m = parse_form(&g).unwrap();
    assert_eq!((m.base_addr, m.offset), (0x8000_0000, 0));
    typed(&mut g, "zz");
    assert_eq!(parse_form(&g).err().unwrap(), "offset must be a hex number");
}

#[test]
fn keys_drive_the_view() {
    let mut v = ViewState::new(Vec::new(), None);
    assert_eq!(v.status, "[Tab] switch pane   [↑/↓] scroll   [e] extract   [m] disasm metadata   [q] quit");
    assert_eq!(v.handle_key(Key::Char('j')), Command::Scroll(1));
    assert_eq!(v.handle_key(Key::PageUp), Command::Scroll(-10));
    assert_eq!(v.handle_key(Key::Char('e')), Command::Extract);
    assert_eq!(v.handle_key(Key::Tab), Command::Nothing);
    assert_eq!(v.focus, Pane::Files);
    v.handle_key(Key::Char('m'));
    assert!(v.form.is_none());
    assert_eq!(v.status, "Focus the Disassembly pane (Tab) before entering metadata.");
    for _ in 0..3 {
        v.handle_key(Key::Tab);
    }
    v.handle_key(Key::Char('m'));
    assert!(v.form.is_some());
    // the form owns the keyboard: 'q' is typed, not a quit
    assert_eq!(v.handle_key(Key::Char('q')), Command::Nothing);
    assert!(!v.should_quit);
    assert_eq!(v.form.as_ref().unwrap().values()[0], "q");
    assert_eq!(v.handle_key(Key::Enter), Command::SubmitForm);
    v.handle_key(Key::Esc);
    assert!(v.form.is_none());
    v.handle_key(Key::Char('q'));
    assert!(v.should_quit);
}

#[test]
fn submitting_the_form() {
    let fw = [0x90u8, 0xc3];
    let mut v = ViewState::new(Vec::new(), Some("no object file".to_string()));
    assert_eq!(v.disasm_selected, None);
    assert!(!v.submit_form(&fw));
    v.handle_key(Key::Char('m'));
    for c in "nope".chars() {
        v.handle_key(Key::Char(c));
    }
    assert!(!v.submit_form(&fw));
    assert_eq!(v.form.as_ref().unwrap().error().as_deref(), Some("unknown architecture: 'nope'"));
    assert_eq!(
        form_error_line(v.form.as_ref().unwrap()).as_deref(),
        Some("✗ unknown architecture: 'nope'")
    );
    assert_eq!(v.disasm_err.as_deref(), Some("no object file"));
    for _ in 0..4 {
        v.handle_key(Key::Backspace);
    }
    for c in "x64".chars() {
        v.handle_key(Key::Char(c));
    }
    v.handle_key(Key::Tab);
    v.handle_key(Key::Char('l'));
    assert!(v.submit_form(&fw));
    assert_eq!(
        v.disasm,
        vec![
            (0, "90".to_string(), "nop".to_string(), String::new()),
            (1, "c3".to_string(), "ret".to_string(), String::new()),
        ]
    );
    assert_eq!(v.disasm_err, None);
    assert_eq!(v.disasm_selected, Some(0));
    assert!(v.form.is_none());
    assert_eq!(v.status, "Disassembled 2 instruction(s) from manual metadata.");
    v.disasm_selected = step(v.disasm_selected, 1, v.disasm.len());
    v.handle_key(Key::Char('m'));
    for c in "x64".chars() {
        v.handle_key(Key::Char(c));
    }
    v.handle_key(Key::Tab);
    v.handle_key(Key::Char('l'));
    v.handle_key(Key::Tab);
    v.handle_key(Key::Tab);
    v.handle_key(Key::Char('9'));
    assert!(!v.submit_form(&fw));
    assert_eq!(v.disasm_err.as_deref(), Some("offset 0x9 is past the end of the file"));
    assert_eq!(v.disasm.len(), 2);
    assert_eq!(v.disasm_selected, Some(1));
    assert!(v.form.is_none());
    assert_eq!(
        v.status,
        "Disassembly failed: offset 0x9 is past the end of the file  —  press [m] to try new data"
    );
}

#[test]
fn base_address_reaches_the_listing() {
    let fw = [0u8, 0x90, 0xc3];
    let mut v = ViewState::new(Vec::new(), None);
    v.handle_key(Key::Char('m'));
    for c in "x86_64".chars() {
        v.handle_key(Key::Char(c));
    }
    v.handle_key(Key::Tab);
    v.handle_key(Key::Char('l'));
    v.handle_key(Key::Tab);
    v.handle_key(Key::Backspace);
    for c in "0x8000".chars() {
        v.handle_key(Key::Char(c));
    }
    v.handle_key(Key::Tab);
    v.handle_key(Key::Backspace);
    v.handle_key(Key::Char('1'));
    assert!(v.submit_form(&fw));
    assert_eq!(v.disasm[0], (0x8000, "90".to_string(), "nop".to_string(), String::new()));
    assert_eq!(v.disasm[1].0, 0x8001);
}

#[test]
fn start_up_selection() {
    let rows = vec![(0x10u64, "90".to_string(), "nop".to_string(), String::new())];
    let v = ViewState::new(rows.clone(), None);
    assert_eq!(v.disasm, rows);
    assert_eq!(v.disasm_selected, Some(0));
    assert_eq!(v.focus, Pane::Disasm);
}

#[test]
fn form_lines_mark_the_active_field() {
    let mut f = DisasmForm::new();
    let lines = form_line_texts(&f);
    assert_eq!(lines.len(), 4);
    assert_eq!(lines[0], ("▶ Architecture        ".to_string(), "_".to_string()));
    assert_eq!(lines[1], ("  Endianness          ".to_string(), String::new()));
    assert_eq!(lines[2], ("  Base address (hex)  ".to_string(), "0".to_string()));
    assert_eq!(lines[3], ("  Offset (hex)        ".to_string(), "0".to_string()));
    assert_eq!(form_error_line(&f), None);
    f.edit(Key::Char('z'));
    f.edit(Key::Tab);
    let lines = form_line_texts(&f);
    assert_eq!(lines[0], ("  Architecture        ".to_string(), "z".to_string()));
    assert_eq!(lines[1], ("▶ Endianness          ".to_string(), "_".to_string()));
}

#[test]
fn extraction_messages() {
    assert_eq!(extraction_status(None), "No signatures available to extract.");
    assert_eq!(extraction_status(Some(Ok(0))), "Extraction ran, but nothing was carved out.");
    assert_eq!(extraction_status(Some(Ok(12))), "Extracted 12 item(s) into ./extracted");
    assert_eq!(
        extraction_status(Some(Err("disk full".to_string()))),
        "Extraction failed: disk full"
    );
}

#[test]
fn strings_pane_text() {
    let tagged = vec![
        ("linux".to_string(), 0x10u64, true),
        ("abcd".to_string(), 0x20, false),
        ("passwd".to_string(), 0x1_2345_6789, true),
    ];
    assert_eq!(count_important(&tagged), 2);
    assert_eq!(strings_title(2), "Strings Found  (★ 2 of interest, shown first)");
    assert_eq!(strings_title(0), "Strings Found");
    assert_eq!(string_row(&tagged[0].0, tagged[0].1, true), "★ 0x00000010  linux");
    assert_eq!(string_row(&tagged[1].0, tagged[1].1, false), "  0x00000020  abcd");
    assert_eq!(string_row(&tagged[2].0, tagged[2].1, true), "★ 0x123456789  passwd");
    assert_eq!(first_row(0), None);
    assert_eq!(first_row(3), Some(0));
}
