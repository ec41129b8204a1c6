use srcloc::{FileTable, Loc, Located, Span};

#[test]
fn absent_span_is_not_present() {
    let span = Span::empty();
    assert!(!span.is_present());
    assert_eq!(span.start, u32::MAX);
    assert_eq!(span.end, u32::MAX);
}

#[test]
fn span_of_two_ordinary_offsets_is_present() {
    assert!(Span::new(0, 0).is_present());
    assert!(Span::new(4, 12).is_present());
    assert!(Span::new(12, 4).is_present());
    assert!(Span::new(u32::MAX - 1, u32::MAX - 1).is_present());
}

#[test]
fn span_with_one_reserved_bound_is_not_present() {
    assert!(!Span::new(5, u32::MAX).is_present());
    assert!(!Span::new(u32::MAX, 5).is_present());
    assert!(!Span::new(u32::MAX, u32::MAX).is_present());
}

#[test]
fn span_new_keeps_its_bounds() {
    let span = Span::new(7, 3);
    assert_eq!(span.start, 7);
    assert_eq!(span.end, 3);
}

#[test]
fn loc_new_keeps_span_and_file() {
    let mut table = FileTable::new();
    let _first = table.add_file("a", String::new());
    let second = table.add_file("b", String::new());
    let loc = Loc::new(Span::new(1, 2), second);
    assert_eq!(loc.span.start, 1);
    assert_eq!(loc.span.end, 2);
    assert_eq!(loc.file, second);
}

#[test]
fn located_new_keeps_item_and_place() {
    let mut table = FileTable::new();
    let file = table.add_repl_line("let x".to_string());
    let located = Located::new("x".to_string(), file, Span::new(4, 5));
    assert_eq!(located.item, "x");
    assert_eq!(located.loc.file, file);
    assert_eq!(located.loc.span.start, 4);
    assert_eq!(located.loc.span.end, 5);
}

#[test]
fn map_changes_the_item_and_keeps_the_place() {
    let mut table = FileTable::new();
    let _other = table.add_file("a", String::new());
    let file = table.add_file("b", "21".to_string());
    let located = Located::new(21u32, file, Span::new(0, 2));
    let doubled = located.map(|n| n * 2);
    assert_eq!(doubled.item, 42);
    assert_eq!(doubled.loc.file, file);
    assert_eq!(doubled.loc.span.start, 0);
    assert_eq!(doubled.loc.span.end, 2);
    assert_eq!(located.item, 21);
}

#[test]
fn map_works_on_a_clone_and_may_change_the_type() {
    let mut table = FileTable::new();
    let file = table.add_file("a", "name".to_string());
    let located = Located::new("name".to_string(), file, Span::empty());
    let length = located.map(|text| text.len());
    assert_eq!(length.item, 4);
    assert!(!length.loc.span.is_present());
    assert_eq!(length.loc.file, file);
    assert_eq!(located.item, "name");
}

#[test]
fn located_copies_with_its_item() {
    let mut table = FileTable::new();
    let file = table.add_file("a", "7".to_string());
    let located = Located::new(7u8, file, Span::new(0, 1));
    let copy = located;
    let clone = located.clone();
    assert_eq!(copy.item, 7);
    assert_eq!(clone.item, 7);
    assert_eq!(clone.loc.file, located.loc.file);
    assert_eq!(copy.loc.span.end, 1);
    let loc = located.loc;
    let again = loc;
    assert_eq!(again.span.start, loc.span.start);
    let span = loc.span;
    let same = span;
    assert_eq!(same.end, span.end);
}
