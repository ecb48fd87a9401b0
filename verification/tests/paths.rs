use find_winpe_profile_path::path::{
    attributes_found, join_entry, validate, validate_relative_path, PathError,
    INVALID_FILE_ATTRIBUTES,
};
use find_winpe_profile_path::text::{
    chars_of, comes_before, find, join, same_text, separator, skip_separators, stands_at, text_of,
    to_ascii_lowercase, to_backslashes,
};

#[test]
fn validates_only_root_relative_paths() {
    for path in ["WinPE", "WinPE\\Version.txt", "directory/file"] {
        assert!(validate_relative_path(path).is_ok());
    }
    for path in [
        "",
        "\\WinPE",
        "/WinPE",
        "C:\\WinPE",
        "WinPE\\..\\x",
        "WinPE\\\\x",
        ".",
    ] {
        assert!(validate_relative_path(path).is_err());
    }
}

#[test]
fn tells_rooted_paths_from_bad_components() {
    for path in ["", "\\", "/", "\\WinPE", "/WinPE", "\\\\server\\share", "C:", "C:\\WinPE", "a/b:c", "../x:"] {
        assert_eq!(validate_relative_path(path), Err(PathError::NotRelative), "{path}");
    }
    for path in [
        ".", "..", "a/", "a\\", "a//b", "a\\/b", "./a", "../a", "a/.", "a\\..", "a/./b", "a\\..\\b",
    ] {
        assert_eq!(validate_relative_path(path), Err(PathError::BadComponent), "{path}");
    }
    for path in ["a", "...", ".a", "a.", "..a", "a/b\\c", "a b/c", "\u{76ee}\u{5f55}/\u{1f4be}"] {
        assert_eq!(validate_relative_path(path), Ok(()), "{path}");
        assert_eq!(validate(&chars_of(path)), Ok(()), "{path}");
    }
}

#[test]
fn path_errors_have_messages() {
    assert_eq!(PathError::NotRelative.message(), "path must be relative to a volume root");
    assert_eq!(
        PathError::BadComponent.message(),
        "path must not contain empty, '.' or '..' components"
    );
}

#[test]
fn accepted_components_never_climb() {
    for path in ["a/b/c", "WinPE\\Version.txt", "x"] {
        assert_eq!(validate_relative_path(path), Ok(()));
        let mut level: i32 = 0;
        for component in path.split(['\\', '/']) {
            if component == ".." {
                level -= 1;
            } else if component != "." && !component.is_empty() {
                level += 1;
            }
            assert!(level >= 1);
        }
    }
}

#[test]
fn entries_are_joined_with_backslashes() {
    assert_eq!(join_entry("F:\\", "WinPE"), "F:\\WinPE");
    assert_eq!(join_entry("F:\\", "WinPE/a\\b/c"), "F:\\WinPE\\a\\b\\c");
    assert_eq!(validate_relative_path("WinPE\\a\\b\\c"), Ok(()));
    let once = text_of(&to_backslashes(&chars_of("a/b")));
    let twice = text_of(&to_backslashes(&chars_of(&once)));
    assert_eq!(once, "a\\b");
    assert_eq!(twice, once);
}

#[test]
fn texts_are_rewritten_as_std_does() {
    for text in ["", "/", "//a/b", "\\/a", "a", "\u{e9}/\u{c9}Z", "\\DEVICE\\HardDisk0"] {
        let chars = chars_of(text);
        assert_eq!(text_of(&chars), text);
        assert_eq!(text_of(&to_backslashes(&chars)), text.replace('/', "\\"));
        assert_eq!(text_of(&to_ascii_lowercase(&chars)), text.to_ascii_lowercase());
        assert_eq!(
            text_of(skip_separators(&chars)),
            text.trim_start_matches(['/', '\\'])
        );
    }
    assert!(separator('/') && separator('\\') && !separator(':'));
}

#[test]
fn texts_are_compared_as_std_does() {
    let texts = ["", "A:\\", "B:\\", "AA", "a", "\u{e9}", "\u{ffff}", "\u{10000}"];
    for a in texts {
        for b in texts {
            assert_eq!(same_text(a, b), a == b);
            assert_eq!(comes_before(&chars_of(a), &chars_of(b)), a < b);
            assert_eq!(join(a, b), format!("{a}{b}"));
        }
    }
}

#[test]
fn patterns_are_found_at_their_first_position() {
    let text = chars_of("12\\partition3\\partition4");
    let pattern = chars_of("\\partition");
    assert_eq!(find(&text, &pattern), Some(2));
    assert!(stands_at(&text, &pattern, 13));
    assert!(!stands_at(&text, &pattern, 0));
    assert_eq!(find(&chars_of("\\partitio"), &pattern), None);
    assert_eq!(find(&chars_of("xxxxxxxxxxxxxxx"), &pattern), None);
    assert_eq!(find(&text, &[]), Some(0));
    assert_eq!(find(&[], &[]), Some(0));
}

#[test]
fn joined_paths_are_accepted_where_both_parts_are() {
    let parts = ["", "a", ".", "..", "a/b", "/a", "a/", "c:", "a\\..", "..."];
    for first in parts {
        for second in parts {
            for separator in ['/', '\\'] {
                assert_eq!(
                    validate_relative_path(&format!("{first}{separator}{second}")).is_ok(),
                    validate_relative_path(first).is_ok()
                        && validate_relative_path(second).is_ok(),
                    "{first}{separator}{second}"
                );
            }
        }
    }
}

#[test]
fn attributes_say_whether_there_is_something() {
    assert_eq!(
        INVALID_FILE_ATTRIBUTES,
        windows::Win32::Storage::FileSystem::INVALID_FILE_ATTRIBUTES
    );
    assert!(!attributes_found(INVALID_FILE_ATTRIBUTES));
    assert!(attributes_found(0));
    assert!(attributes_found(0x10));
}
