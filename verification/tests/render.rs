use csv2md::{first_col, first_row, print_data, sep_row, vec_to_string};

fn row(fields: &[&str]) -> Vec<String> {
    fields.iter().map(|f| f.to_string()).collect()
}

#[test]
fn first_row_is_index_zero() {
    assert!(first_row(0));
    assert!(!first_row(1));
    assert!(!first_row(usize::MAX));
}

#[test]
fn first_col_is_index_zero() {
    assert!(first_col(0));
    assert!(!first_col(1));
    assert!(!first_col(7));
}

#[test]
fn sep_row_draws_one_run_per_column() {
    assert_eq!(sep_row(vec![7, 5]), "|-------|-----|");
    assert_eq!(sep_row(vec![1]), "|-|");
    assert_eq!(sep_row(vec![3, 0, 2]), "|---||--|");
}

#[test]
fn sep_row_without_columns_is_a_single_bar() {
    assert_eq!(sep_row(vec![]), "|");
}

#[test]
fn sep_row_holds_only_bars_and_dashes() {
    let widths = vec![4, 9, 2, 6];
    let line = sep_row(widths.clone());
    assert!(line.chars().all(|c| c == '|' || c == '-'));
    let runs: Vec<usize> = line.split('|').map(|run| run.len()).collect();
    assert_eq!(runs, vec![0, 4, 9, 2, 6, 0]);
    assert_eq!(line.chars().count(), widths.iter().sum::<usize>() + widths.len() + 1);
}

#[test]
fn print_data_lays_out_the_example_table() {
    let data = vec![row(&["name", "age"]), row(&["Alice", "30"]), row(&["Bob", "7"])];
    let lines = print_data(data, vec![7, 5]);
    assert_eq!(
        lines,
        vec!["| name  | age |", "|-------|-----|", "| Alice | 30  |", "| Bob   | 7   |"]
    );
}

#[test]
fn print_data_of_an_empty_table_has_no_lines() {
    assert_eq!(print_data(vec![], vec![]), Vec::<String>::new());
    assert_eq!(print_data(vec![], vec![3, 4]), Vec::<String>::new());
}

#[test]
fn print_data_of_a_header_alone_ends_with_the_separator() {
    let lines = print_data(vec![row(&["id"])], vec![4]);
    assert_eq!(lines, vec!["| id |", "|----|"]);
}

#[test]
fn print_data_pads_to_wider_columns() {
    let lines = print_data(vec![row(&["a", "b"]), row(&["", "cd"])], vec![5, 4]);
    assert_eq!(lines, vec!["| a   | b  |", "|-----|----|", "|     | cd |"]);
}

#[test]
fn print_data_does_not_cut_a_field_longer_than_its_column() {
    let lines = print_data(vec![row(&["abcdef", "x"])], vec![3, 3]);
    assert_eq!(lines, vec!["| abcdef| x |", "|---|---|"]);
    let lines = print_data(vec![row(&["ab"])], vec![3]);
    assert_eq!(lines, vec!["| ab|", "|---|"]);
    let lines = print_data(vec![row(&["ab"])], vec![0]);
    assert_eq!(lines, vec!["| ab|", "||"]);
}

#[test]
fn print_data_counts_characters_not_bytes() {
    let lines = print_data(vec![row(&["café"]), row(&["tea"])], vec![6]);
    assert_eq!(lines, vec!["| café |", "|------|", "| tea  |"]);
    assert_eq!(lines[0].chars().count(), 8);
    assert_eq!(lines[2].chars().count(), 8);
    assert_eq!("café".len(), 5);
}

#[test]
fn print_data_of_rows_without_fields() {
    let lines = print_data(vec![row(&[]), row(&[])], vec![]);
    assert_eq!(lines, vec!["", "|", ""]);
}

#[test]
fn print_data_keeps_bars_and_breaks_inside_fields() {
    let lines = print_data(vec![row(&["a|b"]), row(&["x\ny"])], vec![5]);
    assert_eq!(lines, vec!["| a|b |", "|-----|", "| x\ny |"]);
}

#[test]
fn vec_to_string_ends_every_line_with_a_break() {
    assert_eq!(vec_to_string(row(&["a", "bc"])), "a\nbc\n");
    assert_eq!(vec_to_string(row(&["only"])), "only\n");
    assert_eq!(vec_to_string(row(&["", ""])), "\n\n");
}

#[test]
fn vec_to_string_of_nothing_is_empty() {
    assert_eq!(vec_to_string(vec![]), "");
}

#[test]
fn rendered_lines_share_one_length() {
    let data = vec![
        row(&["city", "country", "pop"]),
        row(&["Boston", "United States", "4628910"]),
        row(&["Zürich", "Schweiz", ""]),
    ];
    let widths = vec![8, 15, 9];
    let lines = print_data(data, widths.clone());
    assert_eq!(lines.len(), 4);
    let expected = widths.iter().sum::<usize>() + widths.len() + 1;
    for line in &lines {
        assert_eq!(line.chars().count(), expected);
    }
}
