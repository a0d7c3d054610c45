use chat::transform::{
    lowercase, no_spaces, render_csv, slugify, split_command, uppercase, CommandReadingError,
    CsvTable, StrTransformError, StrTransformMessage, StrTransformOperation,
};
use std::str::FromStr;

#[test]
fn case_changes() {
    assert_eq!(lowercase("HeLLo Ä\n").unwrap(), "hello ä\n");
    assert_eq!(uppercase("HeLLo ä\n").unwrap(), "HELLO Ä\n");
}

#[test]
fn spaces_removed() {
    assert_eq!(no_spaces(" a b  c \n").unwrap(), "abc\n");
    assert_eq!(no_spaces("").unwrap(), "");
}

#[test]
fn slug_keeps_newline() {
    assert_eq!(slugify("Hello World!\n").unwrap(), "hello-world\n");
    assert_eq!(slugify("No Newline").unwrap(), "No Newline");
}

#[test]
fn operation_names() {
    assert_eq!(StrTransformOperation::from_str("no-spaces"), Ok(StrTransformOperation::NoSpaces));
    assert_eq!(StrTransformOperation::parse("csv"), Ok(StrTransformOperation::Csv));
    assert_eq!(StrTransformOperation::parse("slugify"), Ok(StrTransformOperation::Slugify));
    assert_eq!(StrTransformOperation::parse("Lowercase"), Err(StrTransformError::InvalidTransform));
    let m = StrTransformMessage::new(StrTransformOperation::Uppercase, "abc".to_string());
    assert_eq!(m.operation.perform(&m.args).unwrap(), "ABC");
}

#[test]
fn command_lines() {
    assert_eq!(
        split_command("lowercase Some Text\n"),
        Ok(("lowercase".to_string(), "Some Text\n".to_string()))
    );
    assert_eq!(split_command("csv\n"), Err(CommandReadingError::InvalidInput));
}

#[test]
fn csv_table_rendering() {
    let out = render_csv("a,bb\n1,2\n333,4\n").unwrap();
    let rule = "-".repeat(12);
    let expected = format!("{rule}\n|   a | bb |\n{rule}\n|   1 |  2 |\n| 333 |  4 |\n{rule}\n");
    assert_eq!(out, expected);
    assert_eq!(StrTransformOperation::Csv.perform("a,bb\n1,2\n333,4\n").unwrap(), expected);
}

#[test]
fn csv_errors() {
    assert_eq!(render_csv("a,b\n1,2,3\n"), Err(StrTransformError::MalformedCsv));
    let mut table = CsvTable::new(vec!["x".to_string(), "y".to_string()]);
    assert_eq!(table.append(vec!["1".to_string()]), Err(StrTransformError::RecordSizeMismatch));
    assert_eq!(table.append(vec!["10".to_string(), "2".to_string()]), Ok(()));
    assert_eq!(table.render(), "----------\n|  x | y |\n----------\n| 10 | 2 |\n----------\n");
}
