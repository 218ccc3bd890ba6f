use path_validators::{path_output_dir, path_readable_file, Rejection};

#[test]
fn validators_path_output_dir_basic_functionality() {
    // A directory that can be written to
    assert!(path_output_dir(true, true).is_ok());
    // A file, whether or not it can be written to
    assert!(path_output_dir(false, true).is_err());
    assert!(path_output_dir(false, false).is_err());
    // A directory that cannot be written to
    assert!(path_output_dir(true, false).is_err());
}

#[test]
fn validators_path_readable_file_basic_functionality() {
    // A file that could be opened
    assert!(path_readable_file(false, Ok(())).is_ok());
    // A directory, which opens but is no file
    assert!(path_readable_file(true, Ok(())).is_err());
    // A file that the user may not read, a missing path, an empty path
    assert!(path_readable_file(false, Err("Permission denied (os error 13)".to_string())).is_err());
    assert!(path_readable_file(false, Err("No such file or directory (os error 2)".to_string())).is_err());
    // A directory that the user may not read
    assert!(path_readable_file(true, Err("Permission denied (os error 13)".to_string())).is_err());
}

#[test]
fn output_dir_rejections_name_what_is_wrong() {
    assert_eq!(path_output_dir(true, true), Ok(()));
    assert_eq!(path_output_dir(true, false), Err(Rejection::NotWritable));
    assert_eq!(path_output_dir(false, true), Err(Rejection::NotDirectory));
    assert_eq!(path_output_dir(false, false), Err(Rejection::NotDirectory));
}

#[test]
fn readable_file_rejections_name_what_is_wrong() {
    assert_eq!(path_readable_file(false, Ok(())), Ok(()));
    assert_eq!(path_readable_file(true, Ok(())), Err(Rejection::IsDirectory));
    assert_eq!(
        path_readable_file(true, Err("Permission denied (os error 13)".to_string())),
        Err(Rejection::IsDirectory)
    );
    assert_eq!(
        path_readable_file(false, Err("No such file or directory (os error 2)".to_string())),
        Err(Rejection::Unreadable { cause: "No such file or directory (os error 2)".to_string() })
    );
}

#[test]
fn the_message_of_the_system_is_kept_word_for_word() {
    let message = "Too many levels of symbolic links (os error 40)";
    match path_readable_file(false, Err(message.to_string())) {
        Err(rejection) => assert_eq!(rejection.reason(), message),
        Ok(()) => panic!("a path that could not be opened was accepted"),
    }
}
