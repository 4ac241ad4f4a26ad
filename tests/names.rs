use runall::{default_names, fixup_names, resolve_names, split_commas_exec, NameCountError};

fn strings(v: &[&str]) -> Vec<String> {
    v.iter().map(|s| s.to_string()).collect()
}

#[test]
fn default_names_count_from_one() {
    assert_eq!(default_names(3), strings(&["cmd-1", "cmd-2", "cmd-3"]));
    assert_eq!(default_names(0), Vec::<String>::new());
}

#[test]
fn default_names_past_nine() {
    let names = default_names(12);
    assert_eq!(names[9], "cmd-10");
    assert_eq!(names[11], "cmd-12");
}

#[test]
fn split_commas_pieces() {
    assert_eq!(split_commas_exec("a,b,c"), strings(&["a", "b", "c"]));
    assert_eq!(split_commas_exec("abc"), strings(&["abc"]));
    assert_eq!(split_commas_exec(""), strings(&[""]));
    assert_eq!(split_commas_exec("a,,b,"), strings(&["a", "", "b", ""]));
    assert_eq!(split_commas_exec("é,ü"), strings(&["é", "ü"]));
}

#[test]
fn fixup_keeps_matching_list() {
    let mut names = strings(&["x,y", "z"]);
    assert_eq!(fixup_names(&mut names, 2), Ok(()));
    assert_eq!(names, strings(&["x,y", "z"]));
}

#[test]
fn fixup_splits_single_name() {
    let mut names = strings(&["a,b,c"]);
    assert_eq!(fixup_names(&mut names, 3), Ok(()));
    assert_eq!(names, strings(&["a", "b", "c"]));
}

#[test]
fn fixup_single_name_for_single_command_is_kept_whole() {
    let mut names = strings(&["a,b"]);
    assert_eq!(fixup_names(&mut names, 1), Ok(()));
    assert_eq!(names, strings(&["a,b"]));
}

#[test]
fn fixup_split_with_wrong_count_fails() {
    let mut names = strings(&["a,b"]);
    assert_eq!(
        fixup_names(&mut names, 3),
        Err(NameCountError { expected: 3, got: 2 })
    );
    assert_eq!(names, strings(&["a,b"]));
}

#[test]
fn fixup_list_with_wrong_count_fails() {
    let mut names = strings(&["a", "b"]);
    assert_eq!(
        fixup_names(&mut names, 3),
        Err(NameCountError { expected: 3, got: 2 })
    );
    let mut none: Vec<String> = Vec::new();
    assert_eq!(
        fixup_names(&mut none, 2),
        Err(NameCountError { expected: 2, got: 0 })
    );
}

#[test]
fn name_count_error_message() {
    let e = NameCountError { expected: 3, got: 12 };
    assert_eq!(e.message(), "expected 3 names, got 12");
}

#[test]
fn resolve_without_names_gives_defaults() {
    assert_eq!(resolve_names(None, 2), Ok(strings(&["cmd-1", "cmd-2"])));
}

#[test]
fn resolve_with_names() {
    assert_eq!(
        resolve_names(Some(strings(&["web,db"])), 2),
        Ok(strings(&["web", "db"]))
    );
    assert_eq!(
        resolve_names(Some(strings(&["a", "b", "c", "d"])), 2),
        Err(NameCountError { expected: 2, got: 4 })
    );
}
