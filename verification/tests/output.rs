use env2bws::output::{check_extension, on_existing_file, OutputError};

#[test]
fn name_without_extension_gets_json_appended() {
    assert_eq!(check_extension(None), Ok(true));
}

#[test]
fn json_extension_is_kept() {
    assert_eq!(check_extension(Some("json")), Ok(false));
}

#[test]
fn other_extensions_are_refused() {
    for ext in ["txt", "", "JSON", "Json", "jso", "jsonl", "json ", " json", "env", "j", "nosj"] {
        assert_eq!(check_extension(Some(ext)), Err(OutputError::WrongExtension), "{:?}", ext);
    }
}

#[test]
fn existing_file_is_replaced_only_when_forced() {
    assert_eq!(on_existing_file(true), Ok(()));
    assert_eq!(on_existing_file(false), Err(OutputError::AlreadyExists));
}

#[test]
fn messages_say_what_to_do() {
    assert_eq!(OutputError::WrongExtension.message(), "Output file must have .json extension");
    assert_eq!(
        OutputError::AlreadyExists.message(),
        "File already exists at the current location. Try selecting a different output file or re-running with --force-overwrite"
    );
}
