use path_validators::{filename_valid_portable, Rejection};

const VALID_FILENAMES: &[&str] = &[
    "-", // stdin/stdout
    "test1", "te st", ".test", // regular, space, and leading period
    "lpt", "lpt0", "lpt10", // close to reserved names, but not reserved
];

const PATHS_WITH_NATIVE_SEPARATORS: &[&str] = &["re/lative", "/ab/solute"];

const PATHS_WITH_FOREIGN_SEPARATORS: &[&str] = &[
    "relative\\win32",
    "C:\\absolute\\win32",
    "\\drive\\relative\\win32",
    "\\\\unc\\path\\for\\win32",
    "Classic Mac HD:Folder Name:File",
];

const INVALID_PORTABLE_FILENAMES: &[&str] = &[
    "test\x03", "test\x07", "test\x08", "test\x0B", "test\x7f", // control characters
    "\"test\"", "<testsss", "testsss>", "testsss|", "testsss*", "testsss?", "?estsss",
    "ends with space ", "ends_with_period.",
    "CON", "Con", "coN", "cOn", "CoN", "con", "lpt1", "com9", // reserved names
    "con.txt", "lpt1.dat", // reserved whatever the extension
    "", "\0",
];

#[test]
fn validators_filename_valid_portable_accepts_valid_names() {
    for path in VALID_FILENAMES {
        assert!(filename_valid_portable(path.as_bytes()).is_ok(), "{:?}", path);
    }
}

#[test]
fn validators_filename_valid_portable_refuses_path_separators() {
    for path in PATHS_WITH_NATIVE_SEPARATORS {
        assert!(filename_valid_portable(path.as_bytes()).is_err(), "{:?}", path);
    }
    for path in PATHS_WITH_FOREIGN_SEPARATORS {
        assert!(filename_valid_portable(path.as_bytes()).is_err(), "{:?}", path);
    }
}

#[test]
fn validators_filename_valid_portable_refuses_invalid_characters() {
    for fname in INVALID_PORTABLE_FILENAMES {
        assert!(filename_valid_portable(fname.as_bytes()).is_err(), "{:?}", fname);
    }
}

#[test]
fn filename_valid_portable_refuses_empty_strings() {
    assert!(filename_valid_portable("".as_bytes()).is_err());
}

#[test]
fn validators_filename_valid_portable_enforces_length_limits() {
    // 256 characters
    assert!(filename_valid_portable(&[b'X'; 256]).is_err());

    // 255 characters (maximum for NTFS, ext2/3/4, and a lot of others)
    assert!(filename_valid_portable(&[b'X'; 255]).is_ok());
}

#[test]
fn filename_valid_portable_refuses_non_utf8_bytes() {
    assert!(filename_valid_portable(b"\xff").is_err());
}

#[test]
fn each_rule_reports_its_own_rejection() {
    assert_eq!(filename_valid_portable(b"a\0b"), Err(Rejection::NulByte));
    assert_eq!(
        filename_valid_portable(&[b'X'; 256]),
        Err(Rejection::NameTooLong { len: 256 })
    );
    assert_eq!(filename_valid_portable(b""), Err(Rejection::NameEmpty));
    assert_eq!(filename_valid_portable(b"caf\xe9"), Err(Rejection::NotText));
    assert_eq!(
        filename_valid_portable(b"notes "),
        Err(Rejection::TrailingSpaceOrPeriod)
    );
    assert_eq!(
        filename_valid_portable(b"notes."),
        Err(Rejection::TrailingSpaceOrPeriod)
    );
    assert_eq!(
        filename_valid_portable(b"what?"),
        Err(Rejection::ForbiddenCharacter)
    );
    assert_eq!(
        filename_valid_portable(b"tab\there"),
        Err(Rejection::ForbiddenCharacter)
    );
    assert_eq!(filename_valid_portable(b"a/b"), Err(Rejection::PathSeparator));
    assert_eq!(filename_valid_portable(b"a\\b"), Err(Rejection::PathSeparator));
    assert_eq!(filename_valid_portable(b"a:b"), Err(Rejection::PathSeparator));
    assert_eq!(filename_valid_portable(b"nul"), Err(Rejection::ReservedName));
    assert_eq!(filename_valid_portable(b"report.txt"), Ok(()));
}

#[test]
fn the_first_broken_rule_is_the_one_reported() {
    // A NUL byte comes before everything else, the length included.
    let mut long_with_nul = vec![b'X'; 300];
    long_with_nul[17] = 0;
    assert_eq!(filename_valid_portable(&long_with_nul), Err(Rejection::NulByte));
    assert_eq!(filename_valid_portable(b"\0\xff"), Err(Rejection::NulByte));
    assert_eq!(filename_valid_portable(b"\0 "), Err(Rejection::NulByte));

    // Length comes before text, text before the last character.
    let mut long_not_text = vec![b'X'; 256];
    long_not_text[0] = 0xff;
    assert_eq!(
        filename_valid_portable(&long_not_text),
        Err(Rejection::NameTooLong { len: 256 })
    );
    assert_eq!(filename_valid_portable(b"\xff."), Err(Rejection::NotText));

    // The last character comes before the characters within.
    assert_eq!(
        filename_valid_portable(b"a*b."),
        Err(Rejection::TrailingSpaceOrPeriod)
    );
    assert_eq!(
        filename_valid_portable(b"a/b "),
        Err(Rejection::TrailingSpaceOrPeriod)
    );

    // Forbidden characters come before separators, wherever each stands.
    assert_eq!(
        filename_valid_portable(b"a/b*c"),
        Err(Rejection::ForbiddenCharacter)
    );
    assert_eq!(
        filename_valid_portable(b"a*b/c"),
        Err(Rejection::ForbiddenCharacter)
    );

    // Separators come before reserved names.
    assert_eq!(filename_valid_portable(b"con:1"), Err(Rejection::PathSeparator));
}

#[test]
fn control_characters_are_refused_at_both_ends_of_the_range() {
    assert_eq!(
        filename_valid_portable(b"a\x01b"),
        Err(Rejection::ForbiddenCharacter)
    );
    assert_eq!(
        filename_valid_portable(b"a\x1fb"),
        Err(Rejection::ForbiddenCharacter)
    );
    assert_eq!(
        filename_valid_portable(b"a\x7fb"),
        Err(Rejection::ForbiddenCharacter)
    );
    // 0x20 is the space, 0x7e the tilde: the neighbours are fine.
    assert_eq!(filename_valid_portable(b"a b"), Ok(()));
    assert_eq!(filename_valid_portable(b"a~b"), Ok(()));
}

#[test]
fn every_reserved_punctuation_mark_is_refused() {
    for mark in ["\"", "*", "<", ">", "?", "|"] {
        let name = format!("a{}b", mark);
        assert_eq!(
            filename_valid_portable(name.as_bytes()),
            Err(Rejection::ForbiddenCharacter),
            "{:?}",
            name
        );
    }
}

#[test]
fn every_reserved_name_is_refused() {
    let reserved = [
        "AUX", "CON", "NUL", "PRN", "COM1", "COM2", "COM3", "COM4", "COM5", "COM6", "COM7",
        "COM8", "COM9", "LPT1", "LPT2", "LPT3", "LPT4", "LPT5", "LPT6", "LPT7", "LPT8", "LPT9",
        "CLOCK$", "$IDLE$", "CONFIG$", "KEYBD$", "LST", "SCREEN$",
    ];
    for name in reserved {
        assert_eq!(
            filename_valid_portable(name.as_bytes()),
            Err(Rejection::ReservedName),
            "{:?}",
            name
        );
        let lower = name.to_lowercase();
        assert_eq!(
            filename_valid_portable(lower.as_bytes()),
            Err(Rejection::ReservedName),
            "{:?}",
            lower
        );
        let with_extension = format!("{}.tar", lower);
        assert_eq!(
            filename_valid_portable(with_extension.as_bytes()),
            Err(Rejection::ReservedName),
            "{:?}",
            with_extension
        );
    }
}

#[test]
fn reserved_names_are_refused_whatever_the_case_and_extension() {
    for name in ["CON", "Con", "coN", "LPT1", "con.txt", "lpt1.dat"] {
        assert_eq!(
            filename_valid_portable(name.as_bytes()),
            Err(Rejection::ReservedName),
            "{:?}",
            name
        );
    }
}

#[test]
fn only_the_last_extension_is_taken_off_the_stem() {
    // The stem of `con.tar.gz` is `con.tar`, which is not reserved.
    assert_eq!(filename_valid_portable(b"con.tar.gz"), Ok(()));
    // A leading period starts no extension: the stem of `.con` is `.con`.
    assert_eq!(filename_valid_portable(b".con"), Ok(()));
    // The stem of `.con.txt` is `.con`.
    assert_eq!(filename_valid_portable(b".con.txt"), Ok(()));
    // The stem of `aux.c` is `aux`.
    assert_eq!(filename_valid_portable(b"aux.c"), Err(Rejection::ReservedName));
    assert_eq!(filename_valid_portable(b"console"), Ok(()));
    assert_eq!(filename_valid_portable(b"com0"), Ok(()));
}

#[test]
fn upper_case_follows_unicode() {
    // The long s has the upper case `S`, so this stem becomes `LST`.
    assert_eq!(
        filename_valid_portable("l\u{17f}t".as_bytes()),
        Err(Rejection::ReservedName)
    );
    // Text beyond ASCII is welcome where it spells no reserved name.
    assert_eq!(filename_valid_portable("caf\u{e9}.txt".as_bytes()), Ok(()));
    assert_eq!(filename_valid_portable("\u{65e5}\u{672c}\u{8a9e}".as_bytes()), Ok(()));
}

#[test]
fn malformed_text_is_refused() {
    // A continuation byte alone, a sequence cut short, an overlong form and
    // a surrogate are all outside UTF-8.
    assert_eq!(filename_valid_portable(b"a\x80"), Err(Rejection::NotText));
    assert_eq!(filename_valid_portable(b"a\xe6\x97"), Err(Rejection::NotText));
    assert_eq!(filename_valid_portable(b"a\xc0\xaf"), Err(Rejection::NotText));
    assert_eq!(filename_valid_portable(b"a\xed\xa0\x80"), Err(Rejection::NotText));
}

#[test]
fn a_name_of_any_length_up_to_the_limit_is_accepted() {
    for len in [1usize, 2, 8, 100, 254, 255] {
        let name = vec![b'n'; len];
        assert_eq!(filename_valid_portable(&name), Ok(()), "{}", len);
    }
    // The limit counts bytes, not characters: 128 two-byte characters are
    // 256 bytes.
    let wide = "\u{e9}".repeat(128);
    assert_eq!(
        filename_valid_portable(wide.as_bytes()),
        Err(Rejection::NameTooLong { len: 256 })
    );
}
