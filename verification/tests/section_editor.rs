use google_hosts_manager::section::{
    find_section, remove_section, upsert_section, MalformedSection,
};

const BEGIN: &str = "# BEGIN GoogleHosts IPV4";
const END: &str = "# END GoogleHosts IPV4";

fn lines(text: &[&str]) -> Vec<String> {
    text.iter().map(|line| line.to_string()).collect()
}

#[test]
fn find_section_returns_both_positions() {
    let file = lines(&["a", BEGIN, "old1", END, "z"]);
    assert_eq!(find_section(&file, BEGIN, END), Some((1, 3)));
}

#[test]
fn find_section_on_empty_file_finds_nothing() {
    let file: Vec<String> = Vec::new();
    assert_eq!(find_section(&file, BEGIN, END), None);
}

#[test]
fn find_section_needs_the_start_marker() {
    let file = lines(&["a", END, "z"]);
    assert_eq!(find_section(&file, BEGIN, END), None);
}

#[test]
fn find_section_needs_the_end_marker() {
    let file = lines(&["a", BEGIN, "z"]);
    assert_eq!(find_section(&file, BEGIN, END), None);
}

#[test]
fn find_section_reports_reversed_markers_as_found() {
    let file = lines(&[END, "x", BEGIN]);
    assert_eq!(find_section(&file, BEGIN, END), Some((2, 0)));
}

#[test]
fn find_section_takes_the_first_of_repeated_markers() {
    let file = lines(&["a", BEGIN, "b", BEGIN, END, "c", END]);
    assert_eq!(find_section(&file, BEGIN, END), Some((1, 4)));
}

#[test]
fn find_section_searches_the_end_marker_from_the_top() {
    let file = lines(&[END, BEGIN, "x", END]);
    assert_eq!(find_section(&file, BEGIN, END), Some((1, 0)));
}

#[test]
fn find_section_matches_whole_lines_only() {
    let file = lines(&[
        " # BEGIN GoogleHosts IPV4",
        "# BEGIN GoogleHosts IPV4 ",
        "# begin googlehosts ipv4",
        "# END GoogleHosts IPV4\t",
    ]);
    assert_eq!(find_section(&file, BEGIN, END), None);
}

#[test]
fn find_section_with_identical_markers_finds_one_line_twice() {
    let file = lines(&["a", "mark", "b", "mark"]);
    assert_eq!(find_section(&file, "mark", "mark"), Some((1, 1)));
}

#[test]
fn upsert_replaces_the_body_of_an_existing_section() {
    let file = lines(&["a", BEGIN, "old1", END, "z"]);
    let body = lines(&["new1", "new2"]);
    assert_eq!(
        upsert_section(file, BEGIN, END, &body),
        Ok(lines(&["a", BEGIN, "new1", "new2", END, "z"]))
    );
}

#[test]
fn upsert_appends_a_section_to_a_file_without_one() {
    let file = lines(&["a", "z"]);
    let body = lines(&["new1", "new2"]);
    assert_eq!(
        upsert_section(file, BEGIN, END, &body),
        Ok(lines(&["a", "z", BEGIN, "new1", "new2", END]))
    );
}

#[test]
fn upsert_into_an_empty_file() {
    let body = lines(&["1.2.3.4 example.com"]);
    assert_eq!(
        upsert_section(Vec::new(), BEGIN, END, &body),
        Ok(lines(&[BEGIN, "1.2.3.4 example.com", END]))
    );
}

#[test]
fn upsert_with_an_empty_body_empties_the_section() {
    let file = lines(&["a", BEGIN, "old1", "old2", END, "z"]);
    assert_eq!(
        upsert_section(file, BEGIN, END, &[]),
        Ok(lines(&["a", BEGIN, END, "z"]))
    );
}

#[test]
fn upsert_with_an_empty_body_appends_bare_markers() {
    let file = lines(&["a"]);
    assert_eq!(upsert_section(file, BEGIN, END, &[]), Ok(lines(&["a", BEGIN, END])));
}

#[test]
fn upsert_fills_an_empty_section() {
    let file = lines(&[BEGIN, END]);
    let body = lines(&["x", "y", "z"]);
    assert_eq!(
        upsert_section(file, BEGIN, END, &body),
        Ok(lines(&[BEGIN, "x", "y", "z", END]))
    );
}

#[test]
fn upsert_moves_the_end_marker_behind_the_new_body() {
    let file = lines(&["a", "b", BEGIN, "old", END, "z"]);
    let body = lines(&["n1", "n2", "n3"]);
    let out = upsert_section(file, BEGIN, END, &body).unwrap();
    assert_eq!(out.len(), 8);
    assert_eq!(find_section(&out, BEGIN, END), Some((2, 2 + 1 + 3)));
}

#[test]
fn upsert_keeps_the_lines_around_the_section() {
    let file = lines(&["before1", "before2", BEGIN, "o1", "o2", "o3", END, "after1", "after2"]);
    let body = lines(&["n"]);
    let out = upsert_section(file.clone(), BEGIN, END, &body).unwrap();
    assert_eq!(out[..3], file[..3]);
    assert_eq!(out[3], "n");
    assert_eq!(out[4..], file[6..]);
}

#[test]
fn upsert_appends_where_only_the_start_marker_stands() {
    let file = lines(&["a", BEGIN, "b"]);
    let body = lines(&["n"]);
    assert_eq!(
        upsert_section(file, BEGIN, END, &body),
        Ok(lines(&["a", BEGIN, "b", BEGIN, "n", END]))
    );
}

#[test]
fn upsert_appends_where_only_the_end_marker_stands() {
    let file = lines(&["a", END, "b"]);
    let body = lines(&["n"]);
    assert_eq!(
        upsert_section(file, BEGIN, END, &body),
        Ok(lines(&["a", END, "b", BEGIN, "n", END]))
    );
}

#[test]
fn upsert_rejects_reversed_markers() {
    let file = lines(&["a", END, "x", BEGIN, "z"]);
    let body = lines(&["n"]);
    assert_eq!(
        upsert_section(file, BEGIN, END, &body),
        Err(MalformedSection { start_index: 3, end_index: 1 })
    );
}

#[test]
fn upsert_rejects_an_end_marker_that_precedes_the_section() {
    let file = lines(&[END, BEGIN, "x", END]);
    let body = lines(&["n"]);
    assert_eq!(
        upsert_section(file, BEGIN, END, &body),
        Err(MalformedSection { start_index: 1, end_index: 0 })
    );
}

#[test]
fn upsert_rejects_identical_markers_that_are_found() {
    let file = lines(&["a", "mark", "b"]);
    let body = lines(&["n"]);
    assert_eq!(
        upsert_section(file, "mark", "mark", &body),
        Err(MalformedSection { start_index: 1, end_index: 1 })
    );
}

#[test]
fn upsert_twice_equals_upsert_once() {
    let body = lines(&["new1", "new2"]);
    let fresh = lines(&["a", "z"]);
    let once = upsert_section(fresh, BEGIN, END, &body).unwrap();
    let twice = upsert_section(once.clone(), BEGIN, END, &body).unwrap();
    assert_eq!(twice, once);

    let existing = lines(&["a", BEGIN, "old1", END, "z"]);
    let once = upsert_section(existing, BEGIN, END, &body).unwrap();
    let twice = upsert_section(once.clone(), BEGIN, END, &body).unwrap();
    assert_eq!(twice, once);
}

#[test]
fn upsert_twice_differs_where_the_body_holds_the_end_marker() {
    let body = lines(&[END]);
    let once = upsert_section(Vec::new(), BEGIN, END, &body).unwrap();
    assert_eq!(once, lines(&[BEGIN, END, END]));
    let twice = upsert_section(once, BEGIN, END, &body).unwrap();
    assert_eq!(twice, lines(&[BEGIN, END, END, END]));
}

#[test]
fn upsert_twice_differs_where_only_the_start_marker_stood() {
    let once = upsert_section(lines(&[BEGIN]), BEGIN, END, &[]).unwrap();
    assert_eq!(once, lines(&[BEGIN, BEGIN, END]));
    let twice = upsert_section(once, BEGIN, END, &[]).unwrap();
    assert_eq!(twice, lines(&[BEGIN, END]));
}

#[test]
fn upsert_then_find_gives_back_the_body() {
    let fresh = lines(&["a", "b", "c"]);
    let body = lines(&["new1", "new2"]);
    let out = upsert_section(fresh, BEGIN, END, &body).unwrap();
    let (start, end) = find_section(&out, BEGIN, END).unwrap();
    assert_eq!((start, end), (3, 6));
    assert_eq!(out[start + 1..end], body[..]);
}

#[test]
fn remove_deletes_markers_and_body() {
    let file = lines(&["a", BEGIN, "old1", "old2", END, "z"]);
    assert_eq!(remove_section(file, BEGIN, END), Ok(lines(&["a", "z"])));
}

#[test]
fn remove_of_an_empty_section_deletes_both_markers() {
    let file = lines(&[BEGIN, END]);
    assert_eq!(remove_section(file, BEGIN, END), Ok(Vec::new()));
}

#[test]
fn remove_at_the_end_of_the_file() {
    let file = lines(&["a", "b", BEGIN, "x", END]);
    assert_eq!(remove_section(file, BEGIN, END), Ok(lines(&["a", "b"])));
}

#[test]
fn remove_without_a_section_changes_nothing() {
    let file = lines(&["a", "b", "c"]);
    assert_eq!(remove_section(file.clone(), BEGIN, END), Ok(file));
}

#[test]
fn remove_on_an_empty_file_changes_nothing() {
    assert_eq!(remove_section(Vec::new(), BEGIN, END), Ok(Vec::new()));
}

#[test]
fn remove_with_one_marker_missing_changes_nothing() {
    let only_start = lines(&["a", BEGIN, "b"]);
    assert_eq!(remove_section(only_start.clone(), BEGIN, END), Ok(only_start));
    let only_end = lines(&["a", END, "b"]);
    assert_eq!(remove_section(only_end.clone(), BEGIN, END), Ok(only_end));
}

#[test]
fn remove_rejects_reversed_markers() {
    let file = lines(&["a", END, "x", BEGIN, "z"]);
    assert_eq!(
        remove_section(file, BEGIN, END),
        Err(MalformedSection { start_index: 3, end_index: 1 })
    );
}

#[test]
fn remove_rejects_an_end_marker_right_before_the_start_marker() {
    let file = lines(&["a", END, BEGIN, "z"]);
    assert_eq!(
        remove_section(file, BEGIN, END),
        Err(MalformedSection { start_index: 2, end_index: 1 })
    );
}

#[test]
fn remove_with_identical_markers_deletes_the_one_line() {
    let file = lines(&["a", "mark", "b", "mark"]);
    assert_eq!(remove_section(file, "mark", "mark"), Ok(lines(&["a", "b", "mark"])));
}

#[test]
fn remove_takes_the_first_end_marker() {
    let file = lines(&["a", BEGIN, "x", END, "y", END, "z"]);
    assert_eq!(remove_section(file, BEGIN, END), Ok(lines(&["a", "y", END, "z"])));
}

#[test]
fn remove_undoes_upsert_on_a_fresh_file() {
    let fresh = lines(&["127.0.0.1 localhost", "", "::1 localhost"]);
    let body = lines(&["new1", "new2"]);
    let with_section = upsert_section(fresh.clone(), BEGIN, END, &body).unwrap();
    assert_eq!(with_section.len(), fresh.len() + 2 + body.len());
    assert_eq!(remove_section(with_section, BEGIN, END), Ok(fresh));
}

#[test]
fn remove_does_not_undo_upsert_where_the_body_holds_the_end_marker() {
    let body = lines(&["x", END, "y"]);
    let with_section = upsert_section(lines(&["a"]), BEGIN, END, &body).unwrap();
    assert_eq!(remove_section(with_section, BEGIN, END), Ok(lines(&["a", "y", END])));
}

#[test]
fn lines_are_kept_in_order_with_duplicates() {
    let file = lines(&["dup", "dup", BEGIN, "dup", END, "dup"]);
    let body = lines(&["dup", "dup"]);
    assert_eq!(
        upsert_section(file, BEGIN, END, &body),
        Ok(lines(&["dup", "dup", BEGIN, "dup", "dup", END, "dup"]))
    );
}
