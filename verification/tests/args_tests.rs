use solana_tools::args::{allowed_files, allowed_threads, allowed_times, check_list_file, split_duration};

#[test]
fn allowed_threads_accepts_counts_within_cores() {
    assert_eq!(allowed_threads("4", 8), Ok(4));
    assert_eq!(allowed_threads("8", 8), Ok(8));
    assert_eq!(allowed_threads("+1", 2), Ok(1));
}

#[test]
fn allowed_threads_rejects_too_many_workers() {
    assert_eq!(
        allowed_threads("9", 8),
        Err("You specified 9 workers, but your machine only has 8 cores".to_string())
    );
}

#[test]
fn allowed_threads_rejects_text_that_is_no_integer() {
    assert_eq!(allowed_threads("x", 8), Err("x is not a valid integer".to_string()));
    assert_eq!(allowed_threads("-2", 8), Err("-2 is not a valid integer".to_string()));
    assert_eq!(allowed_threads("", 8), Err(" is not a valid integer".to_string()));
}

#[test]
fn allowed_files_accepts_existing_lst_files() {
    assert_eq!(allowed_files("tokens.lst", true), Ok("tokens.lst".to_string()));
    assert_eq!(allowed_files("some/dir/tokens.lst", true), Ok("some/dir/tokens.lst".to_string()));
}

#[test]
fn allowed_files_rejects_missing_files() {
    assert_eq!(
        allowed_files("tokens.lst", false),
        Err("This file does not exist or could not be opened".to_string())
    );
}

#[test]
fn allowed_files_rejects_other_extensions() {
    assert_eq!(
        allowed_files("tokens.txt", true),
        Err("You attached a .txt file, not a .lst file".to_string())
    );
    assert_eq!(
        allowed_files("tokens", true),
        Err("You attached a .<no extension> file, not a .lst file".to_string())
    );
    assert_eq!(
        allowed_files(".lst", true),
        Err("You attached a .<no extension> file, not a .lst file".to_string())
    );
    assert_eq!(allowed_files("a.", true), Err("You attached a . file, not a .lst file".to_string()));
    assert_eq!(
        allowed_files("tokens.lst.bak", true),
        Err("You attached a .bak file, not a .lst file".to_string())
    );
}

#[test]
fn check_list_file_decides_from_the_extension() {
    assert_eq!(check_list_file("x", true, Some("lst".to_string())), Ok("x".to_string()));
    assert_eq!(
        check_list_file("x", true, None),
        Err("You attached a .<no extension> file, not a .lst file".to_string())
    );
    assert_eq!(
        check_list_file("x.lst", false, Some("lst".to_string())),
        Err("This file does not exist or could not be opened".to_string())
    );
}

#[test]
fn split_duration_separates_the_unit() {
    assert_eq!(split_duration("15m"), ("15", 'm'));
    assert_eq!(split_duration("2.5h"), ("2.5", 'h'));
    assert_eq!(split_duration("é7"), ("é", '7'));
}

#[test]
fn allowed_times_accepts_minutes_and_hours() {
    assert_eq!(allowed_times("30m", true), Ok("30m".to_string()));
    assert_eq!(allowed_times("24h", true), Ok("24h".to_string()));
}

#[test]
fn allowed_times_rejects_bad_numbers_and_units() {
    assert_eq!(allowed_times("abcm", false), Err("'abcm' isn't a valid float".to_string()));
    assert_eq!(
        allowed_times("15s", true),
        Err("'s' is an invalid suffix, only 'm' or 'h' are permitted".to_string())
    );
}

#[test]
fn allowed_files_reads_the_file_name_of_paths_with_directories() {
    assert_eq!(allowed_files("/tmp/lists/tokens.lst", true), Ok("/tmp/lists/tokens.lst".to_string()));
    assert_eq!(allowed_files("./x.lst", true), Ok("./x.lst".to_string()));
    assert_eq!(allowed_files("a/./b.lst/", true), Ok("a/./b.lst/".to_string()));
    assert_eq!(
        allowed_files("dir/t.txt", true),
        Err("You attached a .txt file, not a .lst file".to_string())
    );
    assert_eq!(
        allowed_files("dir/t.LST", true),
        Err("You attached a .LST file, not a .lst file".to_string())
    );
    assert_eq!(
        allowed_files("dir.lst/file", true),
        Err("You attached a .<no extension> file, not a .lst file".to_string())
    );
    assert_eq!(
        allowed_files("a/..", true),
        Err("You attached a .<no extension> file, not a .lst file".to_string())
    );
}

#[test]
fn allowed_files_of_the_root_has_no_extension() {
    assert_eq!(allowed_files("/", true), Err("You attached a .<no extension> file, not a .lst file".to_string()));
}

#[test]
fn allowed_files_agrees_with_path_extension() {
    for p in ["a/b.c", "a/.b", "a/b.", ".", "..", "a//b.lst", "x.y.z", "/a.b/c.d/"] {
        let expected_ok = std::path::Path::new(p).extension().and_then(|e| e.to_str()) == Some("lst");
        assert_eq!(allowed_files(p, true).is_ok(), expected_ok, "{}", p);
    }
}

#[test]
fn allowed_files_with_a_colon() {
    assert_eq!(
        allowed_files("a:b.lst", false),
        Err("This file does not exist or could not be opened".to_string())
    );
    let existing = allowed_files("a:b.lst", true);
    assert_ne!(existing, Err("This file does not exist or could not be opened".to_string()));
    let lst = std::path::Path::new("a:b.lst").extension().and_then(|e| e.to_str()) == Some("lst");
    assert_eq!(existing.is_ok(), lst);
}
