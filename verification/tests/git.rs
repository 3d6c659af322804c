//! What is read from git and asked of it: files, worktrees, messages.

use lazygitrs::config::appearance::{appearance, detect, parse_colorfgbg, Appearance};
use lazygitrs::config::theme::{builtin_look, builtin_theme_ids};
use lazygitrs::git::ai_commit::{
    after_diff, after_poll, begin_generation, generate_commit_message, generated_message,
    strip_markdown_fences, AiCommitError, AiCommitStep,
};
use lazygitrs::git::file::{
    parse_hunk_counts, parse_numstat_z, parse_status_codes, unquote_porcelain_path, DiscardStep,
};
use lazygitrs::git::GitCommands;
use lazygitrs::model::FileStatus;
use lazygitrs::os::editor::{expand, shell_quote};
use lazygitrs::pathmap::PathMap;

fn git() -> GitCommands {
    GitCommands { repo_path: "/repo".to_string() }
}

#[test]
fn colorfgbg_dark_backgrounds_are_detected() {
    for value in ["15;0", "default;0", "7;0;0", "15;6", "15;8"] {
        assert_eq!(parse_colorfgbg(value), Some(Appearance::Dark), "{value}");
    }
}

#[test]
fn colorfgbg_light_backgrounds_are_detected() {
    for value in ["0;15", "0;7", "0;0;15"] {
        assert_eq!(parse_colorfgbg(value), Some(Appearance::Light), "{value}");
    }
}

#[test]
fn colorfgbg_garbage_yields_no_opinion() {
    for value in ["", "nonsense", "15;rgb:ffff", "0;999"] {
        assert_eq!(parse_colorfgbg(value), None, "{value}");
    }
}

#[test]
fn builtin_theme_ids_resolve_to_distinct_themes() {
    let ids = builtin_theme_ids();
    assert_eq!(ids, ["system", "default", "default-light"]);

    let light = builtin_look(&ids[2], Appearance::Dark);
    assert_eq!(light, Appearance::Light);
    assert_ne!(light, builtin_look(&ids[1], Appearance::Light));
    assert_eq!(builtin_look(&ids[0], Appearance::Light), Appearance::Light);
    assert_eq!(builtin_look("gone", Appearance::Light), Appearance::Dark);
}

#[test]
fn the_terminal_is_believed_before_its_environment() {
    assert_eq!(detect(None, Some(Appearance::Light), Some("15;0")), Appearance::Light);
    assert_eq!(detect(None, None, Some("0;15")), Appearance::Light);
    assert_eq!(detect(None, None, Some("nonsense")), Appearance::Dark);
    assert_eq!(detect(None, None, None), Appearance::Dark);
    assert_eq!(detect(Some(Appearance::Dark), Some(Appearance::Light), None), Appearance::Dark);
    assert_eq!(appearance(None), Appearance::Dark);
    assert_eq!(appearance(Some(Appearance::Light)), Appearance::Light);
}

#[test]
fn test_strip_markdown_fences_plain() {
    assert_eq!(strip_markdown_fences("fix: update login"), "fix: update login");
}

#[test]
fn test_strip_markdown_fences_with_fences() {
    let input = "Here's a commit message:\n\n```\nfeat: add user auth\n\nAdded JWT-based authentication.\n```\n";
    assert_eq!(
        strip_markdown_fences(input),
        "feat: add user auth\n\nAdded JWT-based authentication."
    );
}

#[test]
fn test_strip_single_backticks() {
    assert_eq!(strip_markdown_fences("`feat: blah blah blah`"), "feat: blah blah blah");
}

#[test]
fn test_strip_single_backticks_first_line_only() {
    let input = "`feat: something something`\n\nother content of the commit here stuff\nblah blah blah";
    assert_eq!(
        strip_markdown_fences(input),
        "feat: something something\n\nother content of the commit here stuff\nblah blah blah"
    );
}

#[test]
fn test_strip_markdown_fences_with_language() {
    let input = "```text\nfix: resolve race condition\n```";
    assert_eq!(strip_markdown_fences(input), "fix: resolve race condition");
}

#[test]
fn a_message_is_generated_step_by_step() {
    assert!(matches!(begin_generation(""), AiCommitStep::Fail(AiCommitError::NotConfigured)));
    assert!(matches!(begin_generation("gen"), AiCommitStep::RunDiff));
    assert!(matches!(
        after_diff("gen", false, "", false),
        AiCommitStep::Fail(AiCommitError::DiffFailed)
    ));
    assert!(matches!(
        after_diff("gen", true, " \n", false),
        AiCommitStep::Fail(AiCommitError::NothingStaged)
    ));
    match after_diff("gen", true, "diff text", false) {
        AiCommitStep::RunGenerator { command, input } => {
            assert_eq!(command, "gen");
            assert!(input.contains("diff text"));
        }
        other => panic!("not run: {other:?}"),
    }
    assert!(matches!(after_poll(true, None), AiCommitStep::Kill));
    assert!(matches!(after_poll(false, None), AiCommitStep::Wait { .. }));
    assert!(matches!(after_poll(false, Some(true)), AiCommitStep::ReadOutput { success: true }));
    assert_eq!(generated_message(true, "`feat: x`\n", "").unwrap(), "feat: x");
    let err = generated_message(false, "", "no key").unwrap_err();
    assert!(err.message().contains("no key"));
    assert_eq!(generate_commit_message(Ok(Some("m".to_string()))).unwrap(), "m");
    assert!(matches!(generate_commit_message(Ok(None)), Err(AiCommitError::Cancelled)));
}

#[test]
fn parses_numstat_for_regular_renamed_and_binary_files() {
    let output = "3\t2\tsrc/lib.rs\0".to_string()
        + "1\t0\t\0src/old name.rs\0src/new name.rs\0"
        + "-\t-\timage.png\0";

    let stats = parse_numstat_z(&output);

    assert_eq!(stats.get("src/lib.rs"), Some(&(3, 2)));
    assert_eq!(stats.get("src/new name.rs"), Some(&(1, 0)));
    assert!(!stats.contains_key("image.png"));
}

#[test]
fn counts_hunks_for_modified_renamed_and_deleted_files() {
    let output = "--- src/lib.rs\n+++ src/lib.rs\n@@ -1 +1 @@\n@@ -8 +8 @@\n--- old.rs\n+++ new.rs\n@@ -2 +2 @@\n--- removed.rs\n+++ /dev/null\n@@ -1 +0,0 @@\n";

    let counts = parse_hunk_counts(output);

    assert_eq!(counts.get("src/lib.rs"), Some(&2));
    assert_eq!(counts.get("new.rs"), Some(&1));
    assert_eq!(counts.get("removed.rs"), Some(&1));
}

#[test]
fn quoted_paths_are_read_as_git_wrote_them() {
    assert_eq!(unquote_porcelain_path("plain.txt"), "plain.txt");
    assert_eq!(unquote_porcelain_path("\"with\\\"quote.txt\""), "with\"quote.txt");
    assert_eq!(unquote_porcelain_path("\"\\303\\241.txt\""), "\u{e1}.txt");
    assert_eq!(unquote_porcelain_path("\"tab\\there\""), "tab\there");
    assert_eq!(unquote_porcelain_path("\"\\377\""), "\"\\377\"");
}

#[test]
fn status_codes_tell_what_is_staged() {
    assert_eq!(parse_status_codes('?', '?'), (false, true, false, FileStatus::Untracked));
    assert_eq!(parse_status_codes('A', 'M'), (true, true, true, FileStatus::Added));
    assert_eq!(parse_status_codes(' ', 'D'), (false, true, true, FileStatus::Deleted));
    assert_eq!(parse_status_codes('U', 'D'), (false, true, true, FileStatus::Unmerged));
    assert_eq!(parse_status_codes('T', ' '), (true, false, true, FileStatus::Modified));
}

#[test]
fn files_are_loaded_with_their_counts() {
    let status = " M src/lib.rs\n?? new.txt\nR  old.rs -> moved.rs\n";
    let mut contents: PathMap<String> = PathMap::new();
    contents.insert("new.txt".to_string(), "one\ntwo\n".to_string());
    let files = git().load_files(
        status,
        Some("3\t2\tsrc/lib.rs\0"),
        Some("--- src/lib.rs\n+++ src/lib.rs\n@@ -1 +1 @@\n"),
        &contents,
    );
    assert_eq!(files.len(), 3);
    let lib = files.iter().find(|f| f.name == "src/lib.rs").unwrap();
    assert_eq!((lib.additions, lib.deletions, lib.hunk_count), (3, 2, 1));
    assert!(lib.has_unstaged_changes && !lib.has_staged_changes);
    let new = files.iter().find(|f| f.name == "new.txt").unwrap();
    assert_eq!(new.additions, 2);
    assert!(!new.is_tracked);
    let moved = files.iter().find(|f| f.status == FileStatus::Renamed).unwrap();
    assert_eq!(moved.current_path(), "moved.rs");
}

#[test]
fn staging_asks_git_for_exactly_the_paths() {
    assert_eq!(git().stage_file("a b"), ["--literal-pathspecs", "add", "--", "a b"]);
    assert!(git().stage_files(&Vec::new()).is_none());
    assert_eq!(
        git().stage_files(&vec!["a".to_string(), "b".to_string()]).unwrap(),
        ["--literal-pathspecs", "add", "--", "a", "b"]
    );
    assert!(git().unstage_file("a").contains(&"a".to_string()));
    assert!(git().stage_all().contains(&"add".to_string()));
    assert!(matches!(git().discard_file("n", true).step, DiscardStep::Delete { .. }));
    assert!(matches!(git().discard_file("n", false).step, DiscardStep::Checkout { .. }));
}

#[test]
fn an_ignored_path_gets_a_line_of_its_own() {
    assert_eq!(git().ignore_file("", "a.log"), "a.log\n");
    assert_eq!(git().ignore_file("x", "a.log"), "x\na.log\n");
    assert_eq!(git().ignore_file("x\n", "a.log"), "x\na.log\n");
}

#[test]
fn the_first_worktree_is_the_main_one() {
    let listing = "worktree /repo\nHEAD aaaa\nbranch refs/heads/main\n\nworktree /other\nHEAD bbbb\ndetached\n\n";
    let trees = git().load_worktrees(Some(listing));
    assert_eq!(trees.len(), 2);
    assert!(trees[0].is_main && trees[0].is_current);
    assert_eq!(trees[0].branch, "main");
    assert!(!trees[1].is_main && !trees[1].is_current);
    assert!(git().load_worktrees(None).is_empty());
}

#[test]
fn an_existing_branch_gets_a_worktree() {
    assert_eq!(
        git().create_worktree_existing_branch(
            "/tmp/lazygitrs existing branch worktree",
            "existing-worktree-branch"
        ),
        [
            "worktree",
            "add",
            "/tmp/lazygitrs existing branch worktree",
            "existing-worktree-branch"
        ]
    );
}

#[test]
fn a_new_branch_needs_no_base() {
    assert_eq!(
        git().create_worktree_new_branch("/tmp/w", "worktree-no-base", None),
        ["worktree", "add", "-b", "worktree-no-base", "/tmp/w"]
    );
}

#[test]
fn a_new_branch_starts_at_its_base() {
    assert_eq!(
        git().create_worktree_new_branch("/tmp/w", "worktree-from-base", Some("base-ref")),
        ["worktree", "add", "-b", "worktree-from-base", "/tmp/w", "base-ref"]
    );
}

#[test]
fn a_blank_base_is_no_base() {
    assert_eq!(
        git().create_worktree_new_branch("/tmp/path with spaces", "worktree-spaces", Some("   ")),
        ["worktree", "add", "-b", "worktree-spaces", "/tmp/path with spaces"]
    );
}

#[test]
fn shell_quote_wraps_plain_path() {
    assert_eq!(shell_quote("/tmp/a.rs"), "'/tmp/a.rs'");
}

#[test]
fn shell_quote_preserves_spaces() {
    assert_eq!(shell_quote("/my repo/a b.rs"), "'/my repo/a b.rs'");
}

#[test]
fn shell_quote_escapes_embedded_single_quote() {
    // Closing quote, an escaped literal quote, then reopening.
    assert_eq!(shell_quote("/tmp/don't.rs"), "'/tmp/don'\\''t.rs'");
}

#[test]
fn shell_quote_handles_empty_and_non_ascii() {
    assert_eq!(shell_quote(""), "''");
    assert_eq!(shell_quote("/tmp/тест.rs"), "'/tmp/тест.rs'");
}

#[test]
fn expand_substitutes_all_placeholders() {
    assert_eq!(
        expand(
            "code --goto -- {{filename}}:{{line}}:{{column}}",
            "/tmp/a.rs",
            Some(12),
            5,
        ),
        "code --goto -- '/tmp/a.rs':12:5"
    );
}

#[test]
fn expand_substitutes_filename_more_than_once() {
    assert_eq!(
        expand("cp {{filename}} {{filename}}.bak", "/tmp/a.rs", None, 1),
        "cp '/tmp/a.rs' '/tmp/a.rs'.bak"
    );
}

#[test]
fn expand_leaves_no_placeholder_when_line_is_unknown() {
    let out = expand("vim +{{line}} -- {{filename}}", "/tmp/a.rs", None, 1);
    assert_eq!(out, "vim +1 -- '/tmp/a.rs'");
    assert!(!out.contains("{{"), "placeholder leaked: {out}");
}

#[test]
fn expand_passes_through_template_without_placeholders() {
    assert_eq!(expand("true", "/tmp/a.rs", None, 1), "true");
}

#[test]
fn quotes_and_columns_are_written_out() {
    assert_eq!(shell_quote("a'b'c"), "'a'\\''b'\\''c'");
    assert_eq!(expand("{{column}}", "/x", None, 42), "42");
}

#[test]
fn no_placeholder_is_left_behind_nested_ones() {
    let out = expand("{{file{{line}}name}} {{filename}} {{li{{column}}ne}}", "/a{b}", Some(3), 4);
    assert_eq!(out, "{{file3name}} '/a{b}' {{li4ne}}");
    for p in ["{{filename}}", "{{line}}", "{{column}}"] {
        assert!(!out.contains(p));
    }
    assert_eq!(
        expand("{{line}}:{{filename}}", "/a", None, 1),
        expand("{{line}}:{{filename}}", "/a", Some(1), 1)
    );
}

#[test]
fn a_placeholder_in_a_path_is_expanded_too() {
    assert_eq!(expand("vi {{filename}}", "/a{{line}}", Some(7), 1), "vi '/a7'");
    assert_eq!(expand("vi {{filename}}", "/a{{filename}}", Some(7), 1), "vi '/a{{filename}}'");
}

#[test]
fn a_path_map_keeps_the_last_value() {
    let mut m: PathMap<usize> = PathMap::new();
    m.insert("a".to_string(), 1);
    m.insert("a".to_string(), 2);
    m.insert("b".to_string(), 3);
    assert_eq!(m.get("a"), Some(&2));
    assert_eq!(m.get("b"), Some(&3));
    assert_eq!(m.get("c"), None);
}

#[test]
fn every_quoted_byte_is_read_back() {
    assert_eq!(
        unquote_porcelain_path("\"\\a\\b\\t\\n\\v\\f\\r\\\"\\\\\\001\\177\\303\\251 x\""),
        "\u{7}\u{8}\t\n\u{b}\u{c}\r\"\\\u{1}\u{7f}\u{e9} x"
    );
}
