use csv2md::{deliver, Delivery};

#[test]
fn no_destination_prints_with_a_line_break() {
    match deliver("", "| a |\n|---|\n".to_string()) {
        Delivery::Print(text) => assert_eq!(text, "| a |\n|---|\n\n"),
        other => panic!("unexpected delivery: {:?}", other),
    }
}

#[test]
fn empty_text_without_destination_prints_the_line_break_alone() {
    match deliver("", String::new()) {
        Delivery::Print(text) => assert_eq!(text, "\n"),
        other => panic!("unexpected delivery: {:?}", other),
    }
}

#[test]
fn a_destination_receives_the_text_unchanged() {
    match deliver("out/table.md", "| a |\n|---|\n".to_string()) {
        Delivery::Store { path, content } => {
            assert_eq!(path, "out/table.md");
            assert_eq!(content, "| a |\n|---|\n");
        }
        other => panic!("unexpected delivery: {:?}", other),
    }
}

#[test]
fn a_destination_receives_even_empty_text() {
    match deliver("t.md", String::new()) {
        Delivery::Store { path, content } => {
            assert_eq!(path, "t.md");
            assert_eq!(content, "");
        }
        other => panic!("unexpected delivery: {:?}", other),
    }
}
