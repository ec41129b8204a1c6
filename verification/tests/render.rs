use srcloc::render::render_excerpt;
use srcloc::{FileTable, Loc, Span};

#[test]
fn show_span_test() {
    let mut table = FileTable::new();
    let f = table.add_file(
        "sample.txt",
        "foo\nwhatever, that's just like, your opinion, man\nbaz\n".to_string(),
    );

    let l = Loc::new(Span::new(4, 12), f);
    assert_eq!(
        table.get_line(l).unwrap(),
        [
            "  2 |whatever, that's just like, your opinion, man",
            "     ^^^^^^^^",
        ]
        .join("\n"),
    );
}

#[test]
fn first_word_of_first_line() {
    let mut table = FileTable::new();
    let f = table.add_file("sample.txt", "foo\nbar\n".to_string());
    let rendered = table.get_line(Loc::new(Span::new(0, 3), f)).unwrap();
    assert_eq!(rendered, "  1 |foo\n     ^^^");
}

#[test]
fn absent_span_renders_nothing() {
    let mut table = FileTable::new();
    let file = table.add_file("a.txt", "foo\nbar\n".to_string());
    let line = table.add_repl_line("baz".to_string());
    let empty = table.add_file("empty.txt", String::new());
    assert_eq!(table.get_line(Loc::new(Span::empty(), file)), None);
    assert_eq!(table.get_line(Loc::new(Span::empty(), line)), None);
    assert_eq!(table.get_line(Loc::new(Span::empty(), empty)), None);
    assert_eq!(table.get_line(Loc::new(Span::new(0, u32::MAX), file)), None);
    assert_eq!(table.get_line(Loc::new(Span::new(u32::MAX, 1), file)), None);
}

#[test]
fn absent_span_renders_nothing_even_for_a_foreign_handle() {
    let mut big = FileTable::new();
    let _a = big.add_file("a", String::new());
    let foreign = big.add_file("b", String::new());
    let small = FileTable::new();
    assert_eq!(small.get_line(Loc::new(Span::empty(), foreign)), None);
}

#[test]
fn span_in_the_middle_of_a_line() {
    let mut table = FileTable::new();
    let f = table.add_file("a.txt", "let x = 1;\nlet yy = x + 2;\n".to_string());
    let rendered = table.get_line(Loc::new(Span::new(15, 17), f)).unwrap();
    assert_eq!(rendered, "  2 |let yy = x + 2;\n         ^^");
}

#[test]
fn last_line_without_a_line_break() {
    let mut table = FileTable::new();
    let f = table.add_file("a.txt", "one\ntwo\nthree".to_string());
    let rendered = table.get_line(Loc::new(Span::new(8, 13), f)).unwrap();
    assert_eq!(rendered, "  3 |three\n     ^^^^^");
}

#[test]
fn empty_span_shows_the_line_and_no_caret() {
    let mut table = FileTable::new();
    let f = table.add_file("a.txt", "one\ntwo\n".to_string());
    let rendered = table.get_line(Loc::new(Span::new(5, 5), f)).unwrap();
    assert_eq!(rendered, "  2 |two\n      ");
}

#[test]
fn empty_text() {
    let mut table = FileTable::new();
    let f = table.add_file("a.txt", String::new());
    let rendered = table.get_line(Loc::new(Span::new(0, 0), f)).unwrap();
    assert_eq!(rendered, "  1 |\n     ");
}

#[test]
fn span_on_a_line_break_belongs_to_the_line_it_ends() {
    let mut table = FileTable::new();
    let f = table.add_file("a.txt", "ab\ncd\n".to_string());
    let rendered = table.get_line(Loc::new(Span::new(2, 3), f)).unwrap();
    assert_eq!(rendered, "  1 |ab\ncd\n       ^");
    let at_break = table.get_line(Loc::new(Span::new(2, 2), f)).unwrap();
    assert_eq!(at_break, "  1 |ab\n       ");
}

#[test]
fn span_beyond_the_text_is_padded_from_the_last_line() {
    let mut table = FileTable::new();
    let f = table.add_file("a.txt", "ab\ncd".to_string());
    let rendered = table.get_line(Loc::new(Span::new(7, 9), f)).unwrap();
    assert_eq!(rendered, "  2 |cd\n         ^^");
}

#[test]
fn span_across_a_line_break_shows_both_lines_as_one() {
    let mut table = FileTable::new();
    let f = table.add_file("a.txt", "ab\ncd\nef\n".to_string());
    let rendered = table.get_line(Loc::new(Span::new(1, 4), f)).unwrap();
    assert_eq!(rendered, "  1 |ab\ncd\n      ^^^");
}

#[test]
fn inverted_span_inside_one_line_has_no_caret() {
    let mut table = FileTable::new();
    let f = table.add_file("a.txt", "abc\ndef".to_string());
    let rendered = table.get_line(Loc::new(Span::new(6, 5), f)).unwrap();
    assert_eq!(rendered, "  2 |def\n       ");
}

#[test]
fn offsets_count_bytes_not_characters() {
    let mut table = FileTable::new();
    let f = table.add_file("a.txt", "\u{e9}\n\u{fc}x = 1\n".to_string());
    let rendered = table.get_line(Loc::new(Span::new(5, 6), f)).unwrap();
    assert_eq!(rendered, "  2 |\u{fc}x = 1\n       ^");
    let wide = table.get_line(Loc::new(Span::new(3, 5), f)).unwrap();
    assert_eq!(wide, "  2 |\u{fc}x = 1\n     ^^");
}

#[test]
fn repl_line_adds_its_number_to_the_line_number() {
    let mut table = FileTable::new();
    let first = table.add_repl_line("a = 1\n".to_string());
    let _file = table.add_file("lib.txt", "x\n".to_string());
    let second = table.add_repl_line("b = 2\n".to_string());
    let third = table.add_repl_line("c =\n  3\n".to_string());
    assert_eq!(
        table.get_line(Loc::new(Span::new(0, 1), first)).unwrap(),
        "  1 |a = 1\n     ^"
    );
    assert_eq!(
        table.get_line(Loc::new(Span::new(4, 5), second)).unwrap(),
        "  2 |b = 2\n         ^"
    );
    assert_eq!(
        table.get_line(Loc::new(Span::new(6, 7), third)).unwrap(),
        "  4 |  3\n       ^"
    );
}

#[test]
fn line_numbers_of_two_and_three_digits() {
    let mut table = FileTable::new();
    let mut text = String::new();
    let mut n: u32 = 0;
    while n < 120 {
        text.push_str("x\n");
        n += 1;
    }
    let f = table.add_file("long.txt", text);
    assert_eq!(
        table.get_line(Loc::new(Span::new(16, 17), f)).unwrap(),
        "  9 |x\n     ^"
    );
    assert_eq!(
        table.get_line(Loc::new(Span::new(18, 19), f)).unwrap(),
        " 10 |x\n     ^"
    );
    assert_eq!(
        table.get_line(Loc::new(Span::new(196, 197), f)).unwrap(),
        " 99 |x\n     ^"
    );
    assert_eq!(
        table.get_line(Loc::new(Span::new(198, 199), f)).unwrap(),
        "100 |x\n     ^"
    );
}

#[test]
fn line_number_of_four_digits_widens_the_margin_only() {
    let mut table = FileTable::new();
    let mut last = table.add_repl_line("first".to_string());
    let mut n: u32 = 1;
    while n < 1234 {
        last = table.add_repl_line("y = 0".to_string());
        n += 1;
    }
    assert_eq!(
        table.get_line(Loc::new(Span::new(4, 5), last)).unwrap(),
        "1234 |y = 0\n         ^"
    );
}

#[test]
fn render_excerpt_adds_the_offset() {
    assert_eq!(
        render_excerpt("foo\nbar\n", 0, Span::new(4, 7)),
        "  2 |bar\n     ^^^"
    );
    assert_eq!(
        render_excerpt("foo\nbar\n", 40, Span::new(4, 7)),
        " 42 |bar\n     ^^^"
    );
    assert_eq!(
        render_excerpt("foo\nbar\n", u32::MAX, Span::new(4, 7)),
        "4294967297 |bar\n     ^^^"
    );
}
