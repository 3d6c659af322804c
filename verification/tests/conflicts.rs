//! Conflicts of merges: the markers in a file, the stages of the index, and resolving.

use lazygitrs::git::conflict_task::{
    unmerged_stages, ConflictError, ConflictStep, Outcome, Reply, ReplyKind, Request,
};
use lazygitrs::git::merge_conflict::{
    contains_conflict_markers, head_lines, parse_text_conflict_blocks, parse_text_conflict_segments,
    resolve_markers_with_both, resolve_text_conflict_blocks, split_stage_text_regions,
    stage_text_regions, tail_lines, ConflictStageContent, MarkerError, ResolveChoice, Stage,
    TextConflictSegment,
};
use lazygitrs::git::GitCommands;
use lazygitrs::text::{concat_range, split_inclusive_lines};

/// A repository with one file in conflict, as far as the calls on it can tell.
struct Repo {
    base: Option<String>,
    ours: Option<String>,
    theirs: Option<String>,
    worktree: Option<String>,
    unmerged: bool,
    asked: Vec<String>,
}

impl Repo {
    fn new(base: &str, ours: Option<&str>, theirs: Option<&str>, worktree: &str) -> Repo {
        Repo {
            base: Some(base.to_string()),
            ours: ours.map(|s| s.to_string()),
            theirs: theirs.map(|s| s.to_string()),
            worktree: Some(worktree.to_string()),
            unmerged: true,
            asked: Vec::new(),
        }
    }

    fn with_text_conflict() -> Repo {
        Repo::new(
            "before\nbase\nafter\n",
            Some("before\ncurrent\nafter\n"),
            Some("before\nincoming\nafter\n"),
            "before\n<<<<<<< HEAD\ncurrent\n=======\nincoming\n>>>>>>> incoming\nafter\n",
        )
    }

    fn with_two_text_conflicts() -> Repo {
        Repo::new(
            "a\nbase1\nb\nbase2\nc\n",
            Some("a\ncurrent1\nb\ncurrent2\nc\n"),
            Some("a\nincoming1\nb\nincoming2\nc\n"),
            "a\n<<<<<<< HEAD\ncurrent1\n=======\nincoming1\n>>>>>>> incoming\nb\n<<<<<<< HEAD\ncurrent2\n=======\nincoming2\n>>>>>>> incoming\nc\n",
        )
    }

    fn with_delete_modify_conflict(deleted_on_current: bool) -> Repo {
        if deleted_on_current {
            Repo::new("base\n", None, Some("incoming\n"), "incoming\n")
        } else {
            Repo::new("base\n", Some("current\n"), None, "current\n")
        }
    }

    fn listing(&self) -> String {
        let mut out = String::new();
        if self.unmerged {
            for (n, side) in [(1, &self.base), (2, &self.ours), (3, &self.theirs)] {
                if side.is_some() {
                    out.push_str(&format!("100644 0123abcd {n}\tfile.txt\n"));
                }
            }
        }
        out
    }

    fn answer(&mut self, request: Request) -> Reply {
        match request {
            Request::Git { args } => {
                self.asked.push(args.join(" "));
                let mut text = String::new();
                if args[0] == "ls-files" {
                    assert_eq!(args, ["ls-files", "-u", "--", "file.txt"]);
                    text = self.listing();
                } else if args[0] == "checkout-index" {
                    self.worktree = match args[2].as_str() {
                        "--stage=2" => self.ours.clone(),
                        "--stage=3" => self.theirs.clone(),
                        other => panic!("unexpected stage {other}"),
                    };
                } else if args[0] == "rm" {
                    self.worktree = None;
                    self.unmerged = false;
                } else {
                    assert_eq!(args, ["--literal-pathspecs", "add", "--", "file.txt"]);
                    self.unmerged = false;
                }
                reply(ReplyKind::Success, &text)
            }
            Request::Show { object } => {
                let side = match object.as_str() {
                    ":1:file.txt" => &self.base,
                    ":2:file.txt" => &self.ours,
                    ":3:file.txt" => &self.theirs,
                    other => panic!("unexpected object {other}"),
                };
                Reply {
                    kind: ReplyKind::Success,
                    text: String::new(),
                    bytes: side.clone().unwrap().into_bytes(),
                }
            }
            Request::ReadFile => match &self.worktree {
                Some(text) => reply(ReplyKind::Success, text),
                None => reply(ReplyKind::Failure, ""),
            },
            Request::WriteFile { contents } => {
                self.worktree = Some(contents);
                reply(ReplyKind::Success, "")
            }
        }
    }

    fn run(&mut self, first: ConflictStep) -> Result<Outcome, ConflictError> {
        let mut step = first;
        loop {
            match step {
                ConflictStep::Ask { request, task } => {
                    let answer = self.answer(request);
                    step = task.step(answer);
                }
                ConflictStep::Finish { outcome } => return outcome,
            }
        }
    }

    fn file_text(&self) -> &str {
        self.worktree.as_deref().unwrap()
    }
}

fn reply(kind: ReplyKind, text: &str) -> Reply {
    Reply { kind, text: text.to_string(), bytes: Vec::new() }
}

fn git() -> GitCommands {
    GitCommands { repo_path: "/repo".to_string() }
}

fn first_task(step: ConflictStep) -> (Request, lazygitrs::git::conflict_task::ConflictTask) {
    match step {
        ConflictStep::Ask { request, task } => (request, task),
        ConflictStep::Finish { outcome } => panic!("finished at once: {outcome:?}"),
    }
}

fn failure(step: ConflictStep) -> String {
    match step {
        ConflictStep::Finish { outcome: Err(e) } => e.message("file.txt"),
        other => panic!("no failure: {other:?}"),
    }
}

#[test]
fn loads_conflict_stages() {
    let mut repo = Repo::with_text_conflict();
    let outcome = repo.run(git().conflict_stages("file.txt")).unwrap();
    match outcome {
        Outcome::Stages { content } => {
            assert_eq!(content.base.as_deref(), Some(b"before\nbase\nafter\n".as_slice()));
            assert_eq!(content.ours.as_deref(), Some(b"before\ncurrent\nafter\n".as_slice()));
            assert_eq!(content.theirs.as_deref(), Some(b"before\nincoming\nafter\n".as_slice()));
        }
        other => panic!("not the stages: {other:?}"),
    }
    assert!(git().has_unmerged_entries(&repo.listing()));
    assert_eq!(git().unmerged_args(), ["ls-files", "-u"]);
    assert_eq!(git().unmerged_paths(&repo.listing()), vec!["file.txt"]);
}

#[test]
fn resolves_content_conflict_with_ours() {
    let mut repo = Repo::with_text_conflict();
    repo.run(git().resolve_conflict("file.txt", ResolveChoice::Ours)).unwrap();
    assert_eq!(repo.file_text(), "before\ncurrent\nafter\n");
    assert!(!git().has_unmerged_entries(&repo.listing()));
}

#[test]
fn resolves_content_conflict_with_theirs() {
    let mut repo = Repo::with_text_conflict();
    repo.run(git().resolve_conflict("file.txt", ResolveChoice::Theirs)).unwrap();
    assert_eq!(repo.file_text(), "before\nincoming\nafter\n");
    assert!(!git().has_unmerged_entries(&repo.listing()));
}

#[test]
fn resolves_content_conflict_with_both() {
    let mut repo = Repo::with_text_conflict();
    repo.run(git().resolve_conflict("file.txt", ResolveChoice::Both)).unwrap();
    assert_eq!(repo.file_text(), "before\ncurrent\nincoming\nafter\n");
    assert!(!repo.file_text().contains("<<<<<<<"));
    assert!(!git().has_unmerged_entries(&repo.listing()));
}

#[test]
fn parses_diff3_conflict_blocks_with_base_sections() {
    let blocks = parse_text_conflict_blocks(
        "start\n<<<<<<< ours\ncurrent\n||||||| base\nbase\n=======\nincoming\n>>>>>>> theirs\nend\n",
    )
    .unwrap();

    assert_eq!(blocks.len(), 1);
    assert_eq!(blocks[0].ours, "current\n");
    assert_eq!(blocks[0].base.as_deref(), Some("base\n"));
    assert_eq!(blocks[0].theirs, "incoming\n");
}

#[test]
fn conflict_blocks_include_nearby_context_for_display() {
    let blocks = parse_text_conflict_blocks(
        "keep-1\nkeep-2\nkeep-3\nkeep-4\n<<<<<<< ours\ncurrent\n=======\nincoming\n>>>>>>> theirs\nafter-1\nafter-2\nafter-3\nafter-4\n",
    )
    .unwrap();

    assert_eq!(blocks.len(), 1);
    assert_eq!(blocks[0].context_before, "keep-2\nkeep-3\nkeep-4\n");
    assert_eq!(blocks[0].context_after, "after-1\nafter-2\nafter-3\n");
}

#[test]
fn resolves_conflict_blocks_with_independent_choices() {
    let resolved = resolve_text_conflict_blocks(
        "a\n<<<<<<< ours\no1\n=======\nt1\n>>>>>>> theirs\nb\n<<<<<<< ours\no2\n=======\nt2\n>>>>>>> theirs\nc\n",
        &[ResolveChoice::Theirs, ResolveChoice::Both],
    )
    .unwrap();

    assert_eq!(resolved, "a\nt1\nb\no2\nt2\nc\n");
}

#[test]
fn per_block_resolution_rejects_choice_count_mismatch() {
    let err = resolve_text_conflict_blocks("<<<<<<< ours\no\n=======\nt\n>>>>>>> theirs\n", &[])
        .unwrap_err();

    assert!(err.message().contains("choice count"));
    assert_eq!(err, MarkerError::ChoiceCountMismatch { got: 0, expected: 1 });
}

#[test]
fn resolves_real_file_with_per_block_choices() {
    let mut repo = Repo::with_two_text_conflicts();
    let blocks = parse_text_conflict_blocks(repo.file_text()).unwrap();
    assert_eq!(blocks.len(), 2);

    repo.run(
        git().resolve_conflict_blocks(
            "file.txt",
            vec![ResolveChoice::Theirs, ResolveChoice::Both],
        ),
    )
    .unwrap();

    assert_eq!(repo.file_text(), "a\nincoming1\nb\ncurrent2\nincoming2\nc\n");
    assert!(!git().has_unmerged_entries(&repo.listing()));
}

#[test]
fn conflict_blocks_fall_back_to_stages_when_worktree_has_no_markers() {
    let mut repo = Repo::with_text_conflict();
    repo.worktree = Some("manual edit without markers\n".to_string());

    let blocks = match repo.run(git().conflict_blocks("file.txt")).unwrap() {
        Outcome::Blocks { blocks } => blocks,
        other => panic!("no blocks: {other:?}"),
    };

    assert_eq!(blocks.len(), 1);
    assert_eq!(blocks[0].context_before, "before\n");
    assert_eq!(blocks[0].base.as_deref(), Some("base\n"));
    assert_eq!(blocks[0].ours, "current\n");
    assert_eq!(blocks[0].theirs, "incoming\n");
    assert_eq!(blocks[0].context_after, "after\n");
}

#[test]
fn resolves_stage_fallback_block_when_worktree_has_no_markers() {
    let mut repo = Repo::with_text_conflict();
    repo.worktree = Some("manual edit without markers\n".to_string());

    repo.run(git().resolve_conflict_blocks("file.txt", vec![ResolveChoice::Theirs])).unwrap();

    assert_eq!(repo.file_text(), "before\nincoming\nafter\n");
    assert!(!git().has_unmerged_entries(&repo.listing()));
}

#[test]
fn stage_fallback_both_keeps_shared_context_once() {
    let mut repo = Repo::with_text_conflict();
    repo.worktree = Some("manual edit without markers\n".to_string());

    repo.run(git().resolve_conflict_blocks("file.txt", vec![ResolveChoice::Both])).unwrap();

    assert_eq!(repo.file_text(), "before\ncurrent\nincoming\nafter\n");
    assert!(!git().has_unmerged_entries(&repo.listing()));
}

#[test]
fn mark_resolved_rejects_remaining_markers() {
    let mut repo = Repo::with_text_conflict();

    let err = repo.run(git().mark_conflict_resolved("file.txt")).unwrap_err();

    assert!(err.message("file.txt").contains("conflict markers"));
    assert!(git().has_unmerged_entries(&repo.listing()));
}

#[test]
fn resolves_deleted_by_us_conflict_with_ours_deletion() {
    let mut repo = Repo::with_delete_modify_conflict(true);
    match repo.run(git().conflict_stages("file.txt")).unwrap() {
        Outcome::Stages { content } => {
            assert!(content.ours.is_none());
            assert_eq!(content.theirs.as_deref(), Some(b"incoming\n".as_slice()));
        }
        other => panic!("not the stages: {other:?}"),
    }

    repo.run(git().resolve_conflict("file.txt", ResolveChoice::Ours)).unwrap();

    assert!(repo.worktree.is_none());
    assert!(!git().has_unmerged_entries(&repo.listing()));
}

#[test]
fn resolves_deleted_by_them_conflict_with_theirs_deletion() {
    let mut repo = Repo::with_delete_modify_conflict(false);
    match repo.run(git().conflict_stages("file.txt")).unwrap() {
        Outcome::Stages { content } => {
            assert_eq!(content.ours.as_deref(), Some(b"current\n".as_slice()));
            assert!(content.theirs.is_none());
        }
        other => panic!("not the stages: {other:?}"),
    }

    repo.run(git().resolve_conflict("file.txt", ResolveChoice::Theirs)).unwrap();

    assert!(repo.worktree.is_none());
    assert!(!git().has_unmerged_entries(&repo.listing()));
}

#[test]
fn both_rejects_delete_modify_conflicts() {
    let mut repo = Repo::with_delete_modify_conflict(true);

    let err = repo.run(git().resolve_conflict("file.txt", ResolveChoice::Both)).unwrap_err();

    assert!(err.message("file.txt").contains("one side deleted"));
    assert!(git().has_unmerged_entries(&repo.listing()));
}

/// The side is checked out from the index, so its mode comes with it, and the text is
/// never written by hand.
#[test]
fn a_side_is_checked_out_from_the_index() {
    let mut repo = Repo::with_text_conflict();
    repo.run(git().resolve_conflict("file.txt", ResolveChoice::Ours)).unwrap();
    assert_eq!(
        repo.asked,
        [
            "ls-files -u -- file.txt",
            "checkout-index --force --stage=2 -- file.txt",
            "--literal-pathspecs add -- file.txt",
            "ls-files -u -- file.txt",
        ]
    );
}

#[test]
fn segments_rebuild_around_the_markers() {
    let segments = parse_text_conflict_segments(
        "top\n<<<<<<< ours\nx\n=======\ny\n>>>>>>> theirs\nbottom\n",
    )
    .unwrap();
    assert_eq!(segments.len(), 3);
    assert_eq!(segments[0], TextConflictSegment::Context("top\n".to_string()));
    assert_eq!(segments[2], TextConflictSegment::Context("bottom\n".to_string()));
    match &segments[1] {
        TextConflictSegment::Conflict(b) => {
            assert_eq!((b.index, b.ours.as_str(), b.theirs.as_str()), (0, "x\n", "y\n"));
        }
        other => panic!("no conflict: {other:?}"),
    }
}

#[test]
fn malformed_and_missing_markers_are_told_apart() {
    assert_eq!(
        parse_text_conflict_blocks("<<<<<<< ours\nx\n=======\ny\n").unwrap_err(),
        MarkerError::Malformed
    );
    assert!(parse_text_conflict_blocks("plain\n").unwrap().is_empty());
    assert_eq!(
        resolve_text_conflict_blocks("plain\n", &[]).unwrap_err(),
        MarkerError::NoMarkers
    );
    assert_eq!(
        resolve_markers_with_both("a\n<<<<<<< o\nx\n=======\ny\n>>>>>>> t\nb\n").unwrap(),
        "a\nx\ny\nb\n"
    );
    assert!(contains_conflict_markers("a\n<<<<<<< o\n"));
    assert!(!contains_conflict_markers("a\n<<<<<< o\n"));
}

#[test]
fn context_is_cut_at_whole_lines() {
    assert_eq!(head_lines("a\nb\nc\nd\n", 3), "a\nb\nc\n");
    assert_eq!(tail_lines("a\nb\nc\nd\n", 3), "b\nc\nd\n");
    assert_eq!(tail_lines("a\nb", 3), "a\nb");
    assert_eq!(head_lines("", 3), "");
}

#[test]
fn regions_rebuild_every_version_of_a_file() {
    let r = split_stage_text_regions("p\nb\ns\n", "p\no\ns\n", "p\nt\ns\n");
    assert_eq!(r.prefix, "p\n");
    assert_eq!(r.suffix, "s\n");
    assert_eq!(format!("{}{}{}", r.prefix, r.ours, r.suffix), "p\no\ns\n");
    assert_eq!(format!("{}{}{}", r.prefix, r.theirs, r.suffix), "p\nt\ns\n");
    assert_eq!(format!("{}{}{}", r.prefix, r.base.unwrap(), r.suffix), "p\nb\ns\n");
}

#[test]
fn a_stage_that_is_no_text_is_named() {
    let stages = ConflictStageContent {
        base: None,
        ours: Some(vec![0xff, 0xfe]),
        theirs: Some(b"t\n".to_vec()),
    };
    let err = stage_text_regions(stages).unwrap_err();
    assert_eq!(err.stage, Stage::Ours);
    assert_eq!(err.cause, "invalid utf-8 sequence of 1 bytes from index 0");
    assert_eq!(Stage::Ours.not_text_message(), "ours stage is not UTF-8 text");
}

#[test]
fn stages_are_read_from_the_listing() {
    let s = unmerged_stages("100644 aa 1\tf\n100644 bb 3\tf\n");
    assert!(s.any && s.base && !s.ours && s.theirs);
    let none = unmerged_stages("");
    assert!(!none.any);
}

#[test]
fn every_failure_of_a_call_has_its_words() {
    let ask = |choice| first_task(git().resolve_conflict("file.txt", choice)).1;
    let both = "100644 a 2\tfile.txt\n100644 b 3\tfile.txt\n";
    assert_eq!(
        failure(ask(ResolveChoice::Ours).step(reply(ReplyKind::Success, ""))),
        "no unmerged entries found for file.txt"
    );
    assert_eq!(
        failure(ask(ResolveChoice::Ours).step(reply(ReplyKind::Failure, "boom"))),
        "boom"
    );
    let (_, side) = first_task(ask(ResolveChoice::Ours).step(reply(ReplyKind::Success, both)));
    assert_eq!(
        failure(side.step(reply(ReplyKind::Failure, ""))),
        "failed to check out stage 2 for file.txt"
    );
    let only_theirs = "100644 b 3\tfile.txt\n";
    let (request, gone) =
        first_task(ask(ResolveChoice::Ours).step(reply(ReplyKind::Success, only_theirs)));
    assert!(matches!(request, Request::Git { ref args } if args[0] == "rm"));
    assert_eq!(
        failure(gone.step(reply(ReplyKind::Failure, ""))),
        "failed to stage deletion for file.txt"
    );
    let (_, text) = first_task(ask(ResolveChoice::Both).step(reply(ReplyKind::Success, both)));
    assert_eq!(
        failure(text.step(reply(ReplyKind::Failure, ""))),
        "failed to read conflicted file file.txt"
    );
    let marked = "<<<<<<< o\nx\n=======\ny\n>>>>>>> t\n";
    let write = || {
        let (_, text) = first_task(ask(ResolveChoice::Both).step(reply(ReplyKind::Success, both)));
        first_task(text.step(reply(ReplyKind::Success, marked))).1
    };
    assert_eq!(
        failure(write().step(reply(ReplyKind::Failure, ""))),
        "failed to write resolved file file.txt"
    );
    assert_eq!(
        failure(write().step(reply(ReplyKind::NotStarted, ""))),
        "failed to create parent directory for file.txt"
    );
    let (_, mark) = first_task(write().step(reply(ReplyKind::Success, "")));
    let (_, add) = first_task(mark.step(reply(ReplyKind::Success, "x\ny\n")));
    let (_, check) = first_task(add.step(reply(ReplyKind::Success, "")));
    assert_eq!(
        failure(check.step(reply(ReplyKind::Success, both))),
        "resolution did not clear unmerged entries for file.txt"
    );
    let stages = || {
        let (_, task) = first_task(git().conflict_stages("file.txt"));
        first_task(task.step(reply(ReplyKind::Success, both))).1
    };
    assert_eq!(
        failure(stages().step(reply(ReplyKind::Failure, " bad object \n"))),
        "failed to read stage 2 for file.txt: bad object"
    );
    assert_eq!(
        failure(stages().step(reply(ReplyKind::NotStarted, ""))),
        "failed to read stage 2 for file.txt"
    );
}

#[test]
fn the_cause_of_a_failure_is_told() {
    let ask = |choice| first_task(git().resolve_conflict("file.txt", choice)).1;
    let both = "100644 a 2\tfile.txt\n100644 b 3\tfile.txt\n";
    let (_, side) = first_task(ask(ResolveChoice::Ours).step(reply(ReplyKind::Success, both)));
    assert_eq!(
        failure(side.step(reply(ReplyKind::Failure, "no index"))),
        "failed to check out stage 2 for file.txt: no index"
    );
    let only_theirs = "100644 b 3\tfile.txt\n";
    let (_, gone) =
        first_task(ask(ResolveChoice::Ours).step(reply(ReplyKind::Success, only_theirs)));
    assert_eq!(
        failure(gone.step(reply(ReplyKind::Failure, "locked"))),
        "failed to stage deletion for file.txt: locked"
    );
    let (_, text) = first_task(ask(ResolveChoice::Both).step(reply(ReplyKind::Success, both)));
    assert_eq!(
        failure(text.step(reply(ReplyKind::Failure, "no such file"))),
        "failed to read conflicted file file.txt: no such file"
    );
    let write = || {
        let (_, text) = first_task(ask(ResolveChoice::Both).step(reply(ReplyKind::Success, both)));
        let marked = "<<<<<<< o\nx\n=======\ny\n>>>>>>> t\n";
        first_task(text.step(reply(ReplyKind::Success, marked))).1
    };
    assert_eq!(
        failure(write().step(reply(ReplyKind::Failure, "disk full"))),
        "failed to write resolved file file.txt: disk full"
    );
    assert_eq!(
        failure(write().step(reply(ReplyKind::NotStarted, "denied"))),
        "failed to create parent directory for file.txt: denied"
    );
    let (_, task) = first_task(git().conflict_stages("file.txt"));
    let (_, stage) = first_task(task.step(reply(ReplyKind::Success, both)));
    assert_eq!(
        failure(stage.step(reply(ReplyKind::NotStarted, "no git"))),
        "failed to read stage 2 for file.txt: no git"
    );
    let (_, text) = first_task(git().conflict_blocks("file.txt"));
    let (_, list) = first_task(text.step(reply(ReplyKind::Success, "plain\n")));
    let (_, ours) = first_task(list.step(reply(ReplyKind::Success, both)));
    let bytes = Reply { kind: ReplyKind::Success, text: String::new(), bytes: vec![0xff] };
    let (_, theirs) = first_task(ours.step(bytes));
    assert_eq!(
        failure(theirs.step(reply(ReplyKind::Success, ""))),
        "failed to build stage-backed conflict block for file.txt: ours stage is not UTF-8 text: \
         invalid utf-8 sequence of 1 bytes from index 0"
    );
}

#[test]
fn unchanged_parts_are_kept_apart() {
    let text = "a\nb\n<<<<<<< x\no\n=======\nt\n>>>>>>> z\n<<<<<<< x\n=======\n>>>>>>> z\nc";
    let segments = parse_text_conflict_segments(text).unwrap();
    let unchanged: Vec<bool> =
        segments.iter().map(|s| matches!(s, TextConflictSegment::Context(_))).collect();
    assert_eq!(unchanged, [true, false, false, true]);
    assert_eq!(segments[0], TextConflictSegment::Context("a\nb\n".to_string()));
    assert_eq!(segments[3], TextConflictSegment::Context("c".to_string()));
}

#[test]
fn what_was_written_is_read_back() {
    let text = |base: &str| {
        format!("1\n2\n3\n4\n<<<<<<< x\no1\no2\n{base}=======\nt\n>>>>>>> z\n5\n6\n7\n8")
    };
    let blocks = parse_text_conflict_blocks(&text("||||||| y\nb\n")).unwrap();
    assert_eq!(blocks.len(), 1);
    assert_eq!(blocks[0].index, 0);
    assert_eq!(blocks[0].context_before, "2\n3\n4\n");
    assert_eq!(blocks[0].base.as_deref(), Some("b\n"));
    assert_eq!(blocks[0].ours, "o1\no2\n");
    assert_eq!(blocks[0].theirs, "t\n");
    assert_eq!(blocks[0].context_after, "5\n6\n7\n");
    let blocks = parse_text_conflict_blocks(&text("")).unwrap();
    assert_eq!(blocks[0].base, None);
    let empty = "<<<<<<< x\n||||||| y\n=======\n>>>>>>> z";
    let blocks = parse_text_conflict_blocks(empty).unwrap();
    assert_eq!(blocks[0].base.as_deref(), Some(""));
    assert_eq!((blocks[0].ours.as_str(), blocks[0].theirs.as_str()), ("", ""));
}

#[test]
fn segments_between_their_markers_are_the_text() {
    let text = "a\n<<<<<<< x\no\n=======\nt\n>>>>>>> y\n<<<<<<< p\n||||||| q\nb\n=======\n>>>>>>> r\nz";
    let marks = [
        ("<<<<<<< x\n", "", "=======\n", ">>>>>>> y\n"),
        ("<<<<<<< p\n", "||||||| q\n", "=======\n", ">>>>>>> r\n"),
    ];
    let mut out = String::new();
    let mut k = 0;
    for s in parse_text_conflict_segments(text).unwrap() {
        match s {
            TextConflictSegment::Context(c) => out.push_str(&c),
            TextConflictSegment::Conflict(b) => {
                let m = marks[k];
                k += 1;
                let base = b.base.unwrap_or_default();
                out.push_str(&[m.0, &b.ours, m.1, &base, m.2, &b.theirs, m.3].concat());
            }
        }
    }
    assert_eq!(out, text);
}

#[test]
fn a_resolved_text_is_not_resolved_again() {
    let text = "a\n<<<<<<< x\no\n||||||| b\nb\n=======\nt\n>>>>>>> y\nz\n";
    for choice in [ResolveChoice::Ours, ResolveChoice::Theirs, ResolveChoice::Both] {
        let resolved = resolve_text_conflict_blocks(text, &[choice]).unwrap();
        assert!(!resolved.contains("<<<<<<<"));
        assert_eq!(
            resolve_text_conflict_blocks(&resolved, &[choice]).unwrap_err(),
            MarkerError::NoMarkers
        );
    }
    let nested = "<<<<<<< x\n<<<<<<< inner\n=======\nt\n>>>>>>> y\n";
    assert_eq!(
        resolve_text_conflict_blocks(nested, &[ResolveChoice::Ours]).unwrap(),
        "<<<<<<< inner\n"
    );
    assert_eq!(resolve_text_conflict_blocks(nested, &[ResolveChoice::Theirs]).unwrap(), "t\n");
}

#[test]
fn lines_are_cut_and_put_together_again() {
    let text: Vec<char> = "one\n\ntwo\r\nthree".chars().collect();
    let lines = split_inclusive_lines(&text);
    let cut: Vec<String> = lines.iter().map(|l| l.iter().collect()).collect();
    assert_eq!(cut, ["one\n", "\n", "two\r\n", "three"]);
    assert_eq!(concat_range(&lines, 0, lines.len()), "one\n\ntwo\r\nthree");
    let again: Vec<char> = concat_range(&lines, 1, 3).chars().collect();
    assert_eq!(split_inclusive_lines(&again), lines[1..3].to_vec());
}
