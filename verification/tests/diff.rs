use slam::diff::{
    draw_changes, generate_diff, parse_hunk_header, patch_is_readable,
    reconstruct_files_from_unified_diff, try_reconstruct, LineChange, Tag,
};

#[test]
fn a_diff_shows_the_lines_around_what_changed() {
    colored::control::set_override(false);
    let old = "a\nb\nc\nd\ne\n";
    let new = "a\nb\nC\nd\ne\n";
    assert_eq!(
        generate_diff(old, new, 1),
        "    2 | b\n-   3 | c\n+   3 | C\n    4 | d\n"
    );
    assert_eq!(
        generate_diff(old, new, 2),
        "    1 | a\n    2 | b\n-   3 | c\n+   3 | C\n    4 | d\n    5 | e\n"
    );
    assert_eq!(generate_diff(old, new, 0), "-   3 | c\n+   3 | C\n");
    assert_eq!(generate_diff(old, old, 1), "");
}

#[test]
fn a_diff_against_nothing_shows_every_line_as_deleted() {
    colored::control::set_override(false);
    assert_eq!(generate_diff("a \r\n\nb", "", 1), "-   1 | a \n-   2 | \n-   3 | b\n");
    assert_eq!(generate_diff("", "", 1), "");
}

#[test]
fn a_diff_trims_the_ends_of_lines() {
    colored::control::set_override(false);
    assert_eq!(generate_diff("", "x  \ny\t\n", 1), "+   1 | x\n+   2 | y\n");
}

#[test]
fn changes_are_drawn_with_their_numbers() {
    colored::control::set_override(false);
    let change = |tag: Tag, old: Option<usize>, new: Option<usize>, text: &str| LineChange {
        tag,
        old_index: old,
        new_index: new,
        text: text.to_string(),
    };
    let changes = vec![
        change(Tag::Equal, Some(8), Some(7), "same\n"),
        change(Tag::Delete, Some(9), None, "old \n"),
        change(Tag::Insert, None, Some(8), "new"),
    ];
    assert_eq!(draw_changes(&changes), "    9 | same\n-  10 | old\n+   9 | new\n");
    assert_eq!(draw_changes(&vec![]), "");
}

#[test]
fn large_line_numbers_take_the_room_they_need() {
    colored::control::set_override(false);
    let old = "l\n".repeat(12345);
    let new = format!("{}end\n", old);
    let shown = generate_diff(&old, &new, 1);
    assert_eq!(shown, " 12345 | l\n+12346 | end\n");
}

#[test]
fn hunk_headers() {
    let header = |line: &str| parse_hunk_header(line);
    let pair = |a: &str, b: &str| Some((a.to_string(), b.to_string()));
    assert_eq!(header("@@ -1,2 +3,4 @@"), pair("1", "3"));
    assert_eq!(header("@@ -10 +20 @@ fn main() {"), pair("10", "20"));
    assert_eq!(header("@@ -1,2 +3 @@"), pair("1", "3"));
    assert_eq!(header("@@ -١ +3 @@"), pair("١", "3"));
    assert_eq!(header("@@ -1, +3 @@"), None);
    assert_eq!(header("@@ - +3 @@"), None);
    assert_eq!(header(" @@ -1 +3 @@"), None);
    assert_eq!(header("@@ -1 +3"), None);
    assert_eq!(header(""), None);
}

const PATCH: &str = "diff --git a/f b/f
index 1..2 100644
--- a/f
+++ b/f
@@ -2,3 +2,2 @@
 two
-three
 four
diff --git a/g b/g
new file mode 100644
--- /dev/null
+++ b/g
@@ -0,0 +1 @@
+only
";

#[test]
fn files_are_rebuilt_from_a_patch() {
    assert!(patch_is_readable(PATCH));
    let file = |name: &str, old: &str, new: &str| {
        (name.to_string(), old.to_string(), new.to_string())
    };
    assert_eq!(
        reconstruct_files_from_unified_diff(PATCH),
        vec![file("f", "\ntwo\nthree\nfour", "\ntwo\nfour"), file("g", "", "only")]
    );
    assert_eq!(try_reconstruct(PATCH), Some(reconstruct_files_from_unified_diff(PATCH)));
    assert_eq!(reconstruct_files_from_unified_diff(""), vec![]);
    assert_eq!(reconstruct_files_from_unified_diff("+x\n-y\n z\n"), vec![]);
}

#[test]
fn hunks_stand_where_their_headers_say() {
    let patch = "+++ b/f\n@@ -3 +5 @@\n-x\n+y\n@@ -1 +1 @@\n z\n";
    assert_eq!(
        reconstruct_files_from_unified_diff(patch),
        vec![("f".to_string(), "\n\nx\nz".to_string(), "\n\n\n\ny\nz".to_string())]
    );
}

#[test]
fn numbers_that_do_not_fit_make_a_patch_unreadable() {
    let patch = "+++ b/f\n@@ -99999999999999999999999999 +1 @@\n";
    assert!(!patch_is_readable(patch));
    assert_eq!(try_reconstruct(patch), None);
    assert!(!patch_is_readable("@@ -١ +1 @@\n"));
}
