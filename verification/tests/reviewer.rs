use dispatch::reviewer::{
    check_material, copy_paths, copy_review_file, decode_path, detect_identical_moves,
    display_patch, executable_place, file_arguments, file_pair, header_paths, index_patch,
    may_leave, pair_contents, preview, preview_at, resolve_executable, review_entries, safe_path,
    sensitive_path, trusted_preference_file, variables_to_hide, verify_review, ChangeEntry,
    ChangeKind, ExecutablePlace, FoundKind, HashCheck, Held, PairTree, Place, ReviewCopy,
    ReviewInput, ReviewerKind, ReviewerPreference, Side, WaitMode, MAX_PREFERENCE, MAX_PREVIEW,
};

const ODD: &str = "-- odd λ name.txt";

/// A retained patch of a changed file, a binary one, a deleted one and one that moved.
fn retained() -> Vec<u8> {
    let same = "4".repeat(40);
    let none = "0".repeat(40);
    format!(
        "diff --git \"a/-- odd \\316\\273 name.txt\" \"b/-- odd \\316\\273 name.txt\"\nindex {}..{} 100644\n--- \"a/-- odd \\316\\273 name.txt\"\n+++ \"b/-- odd \\316\\273 name.txt\"\n@@ -1 +1 @@\n-radius = 20\n+radius = 40\ndiff --git a/deleted.txt b/deleted.txt\ndeleted file mode 100644\nindex {}..{none}\n--- a/deleted.txt\n+++ /dev/null\n@@ -1 +0,0 @@\n-remove\ndiff --git a/image.bin b/image.bin\nindex {}..{} 100644\nGIT binary patch\nliteral 4\nabcd\ndiff --git a/new name.txt b/new name.txt\nnew file mode 100644\nindex {none}..{same}\n--- /dev/null\n+++ b/new name.txt\n@@ -0,0 +1 @@\n+identical\ndiff --git a/old name.txt b/old name.txt\ndeleted file mode 100644\nindex {same}..{none}\n--- a/old name.txt\n+++ /dev/null\n@@ -1 +0,0 @@\n-identical\n",
        "1".repeat(40),
        "2".repeat(40),
        "3".repeat(40),
        "5".repeat(40),
        "6".repeat(40)
    )
    .into_bytes()
}

fn held(path: &str, bytes: &[u8]) -> Held {
    Held { path: path.as_bytes().to_vec(), bytes: bytes.to_vec() }
}

fn baseline() -> Vec<Held> {
    vec![
        held(ODD, b"radius = 20\n"),
        held("old name.txt", b"identical\n"),
        held("deleted.txt", b"remove\n"),
        held("image.bin", &[0, 1, 2, 3]),
    ]
}

fn patched() -> Vec<Held> {
    vec![
        held(ODD, b"radius = 40\n"),
        held("new name.txt", b"identical\n"),
        held("image.bin", &[0, 4, 5, 6]),
    ]
}

fn position(entries: &[ChangeEntry], test: fn(&ChangeEntry) -> bool) -> usize {
    entries.iter().position(test).unwrap()
}

fn contents(entries: &Vec<ChangeEntry>, index: usize) -> (Vec<u8>, Vec<u8>) {
    let plan = file_pair(entries, index).unwrap();
    pair_contents(&plan, &baseline(), Some(&patched())).unwrap().unwrap()
}

#[test]
fn pairs_come_from_frozen_baseline_and_authoritative_patch_not_edited_candidate() {
    let entries = review_entries(&retained()).unwrap();
    assert_eq!(entries.len(), 4);
    assert!(entries.iter().any(|entry| entry.kind == ChangeKind::Renamed));
    let index = entries.iter().position(|entry| entry.path == ODD.as_bytes()).unwrap();
    let plan = file_pair(&entries, index).unwrap();
    let path = ODD.as_bytes().to_vec();
    assert_eq!(plan.before, Side::Read { tree: PairTree::Baseline, path: path.clone() });
    assert_eq!(plan.after, Side::Read { tree: PairTree::Patched, path });
    let names: Vec<&[u8]> = plan.staged.iter().map(|p| p.as_slice()).collect();
    assert!(names.contains(&ODD.as_bytes()) && names.contains(&&b"old name.txt"[..]));
    assert!(!names.contains(&&b".env"[..]) && !names.contains(&&b".git"[..]));
    let (before, after) = contents(&entries, index);
    assert_eq!(before, b"radius = 20\n");
    assert_eq!(after, b"radius = 40\n");
    assert_eq!(
        pair_contents(&plan, &baseline(), None),
        Err("the retained patch could not be reconstructed safely; use built-in inspection"
            .to_string())
    );
    let check = |expected: &str, actual: &str| HashCheck {
        expected: expected.into(),
        actual: Some(actual.into()),
    };
    let sound = vec![check("patch", "patch")];
    let edited = vec![check("radius = 40", "discarded review edit")];
    assert!(verify_review(&sound, &edited).unwrap().copies_changed);
    assert!(verify_review(&vec![check("patch", "tampered")], &edited).is_err());
}

#[test]
fn file_pair_rename_delete_and_binary_preserve_full_content() {
    let patch = retained();
    let entries = review_entries(&patch).unwrap();
    let rename = position(&entries, |e| e.kind == ChangeKind::Renamed);
    let shown = preview(&entries[rename], &patch, 0, MAX_PREVIEW);
    assert!(shown.text.contains("old name.txt") && shown.text.contains("new name.txt"));
    assert_eq!(preview_at(&entries, rename, &patch, 0, MAX_PREVIEW), Ok(shown));
    assert_eq!(
        preview_at(&entries, entries.len(), &patch, 0, MAX_PREVIEW),
        Err("no selected change".to_string())
    );
    let pair = contents(&entries, rename);
    assert_eq!(pair.0, pair.1);
    assert_eq!(pair.0, b"identical\n");
    let deleted = position(&entries, |e| e.kind == ChangeKind::Deleted);
    let pair = contents(&entries, deleted);
    assert_eq!(pair.0, b"remove\n");
    assert!(pair.1.is_empty());
    let binary = position(&entries, |e| e.binary);
    let pair = contents(&entries, binary);
    assert_eq!(pair.0, [0, 1, 2, 3]);
    assert_eq!(pair.1, [0, 4, 5, 6]);
}

#[test]
fn copies_keep_the_name_of_the_file_in_a_directory_of_their_own() {
    let entries = review_entries(&retained()).unwrap();
    let index = position(&entries, |e| e.kind == ChangeKind::Renamed);
    let plan = file_pair(&entries, index).unwrap();
    assert_eq!(plan.name, b"new name.txt");
    let root = b"/review".to_vec();
    let place = |side: &str| format!("/review/file-{index}/{side}/new name.txt").into_bytes();
    assert_eq!(copy_paths(&root, &plan), (place("before"), place("after")));
    assert_eq!(
        file_arguments(ReviewInput::Pair, &root, Some(&plan)),
        [place("before"), place("after")]
    );
    assert_eq!(
        file_arguments(ReviewInput::PatchArgument, &root, Some(&plan)),
        [b"/review/review-only.patch".to_vec()]
    );
    assert!(file_arguments(ReviewInput::PatchOnStdin, &root, None).is_empty());
    let hidden = variables_to_hide();
    assert_eq!(hidden.len(), 16);
    assert_eq!((hidden[0].as_str(), hidden[15].as_str()), ("LESSOPEN", "EXINIT"));
    assert!(hidden.contains(&"GIT_EXTERNAL_DIFF".to_string()));
}

#[test]
fn permission_only_and_generated_hint_remain_reviewable() {
    let patch = "diff --git a/run.sh b/run.sh\nold mode 100644\nnew mode 100755\ndiff --git a/Cargo.lock b/Cargo.lock\n--- a/Cargo.lock\n+++ b/Cargo.lock\n@@ -1 +1 @@\n-before\n+after\n";
    let entries = index_patch(&patch.as_bytes().to_vec()).unwrap();
    assert_eq!(entries.len(), 2);
    assert_eq!(entries[0].category(), "permissions");
    assert_eq!(entries[1].category(), "generated?");
    assert_eq!(entries[1].additions, Some(1));
}

#[test]
fn index_is_bounded_and_keeps_every_long_line_and_file() {
    let mut patch = String::new();
    for i in 0..150 {
        patch.push_str(&format!(
            "diff --git a/file{i} b/file{i}\n--- a/file{i}\n+++ b/file{i}\n@@ -1 +1 @@\n-old\n+new\n"
        ));
    }
    patch.push_str(&format!(
        "diff --git a/long b/long\n--- a/long\n+++ b/long\n@@ -1 +1 @@\n-old\n+{}\n",
        "x".repeat(3_000_000)
    ));
    let entries = index_patch(&patch.as_bytes().to_vec()).unwrap();
    assert_eq!(entries.len(), 151);
    assert!(entries.last().unwrap().bytes > 3_000_000);
    assert!(entries
        .iter()
        .all(|entry| entry.additions == Some(1) && entry.deletions == Some(1)));
    assert_eq!(entries.iter().map(|entry| entry.bytes).sum::<u64>(), patch.len() as u64);
}

#[test]
fn index_understands_binary_rename_deletion_and_quoted_names() {
    let patch = b"diff --git a/old name b/new name\nsimilarity index 100%\nrename from old name\nrename to new name\ndiff --git \"a/-- \\316\\273\\tfile\" \"b/-- \\316\\273\\tfile\"\ndeleted file mode 100644\n--- a/x\n+++ /dev/null\n@@ -1 +0,0 @@\n-old\ndiff --git a/bin b/bin\nGIT binary patch\nliteral 4\nabcd\n".to_vec();
    let entries = index_patch(&patch).unwrap();
    assert_eq!(entries[0].kind, ChangeKind::Renamed);
    assert_eq!(entries[0].previous_path.as_deref(), Some(&b"old name"[..]));
    assert_eq!(entries[1].path, "-- λ\tfile".as_bytes());
    assert_eq!(entries[1].kind, ChangeKind::Deleted);
    assert!(entries[2].binary);
    assert_eq!(entries[2].additions, None);
    assert!(index_patch(&b"diff --git a/../escape b/../escape\n".to_vec()).is_err());
    assert!(index_patch(&b"diff --git a/.git/config b/.git/config\n".to_vec()).is_err());
}

#[test]
fn controls_are_escaped_in_full_external_display_copy_without_line_truncation() {
    let mut bytes = vec![b'x'; 8191];
    bytes.extend_from_slice("λ\u{009b}\u{202e}".as_bytes());
    bytes.extend_from_slice(b"\x1b]52;clipboard\x07\n\t\xff");
    bytes.extend_from_slice(&vec![b'y'; 300_000]);
    let display = display_patch(&bytes);
    assert!(display.contains("λ\\u{9b}\\u{202e}\\u{1b}]52;clipboard\\u{7}\n\t\\xff"));
    assert!(display.ends_with(&"y".repeat(300_000)));
    assert!(!display.contains('\x1b'));
}

#[test]
fn preference_argv_and_wait_contracts_do_not_assume_directory_diff_or_shell() {
    let preference = ReviewerPreference {
        kind: ReviewerKind::Code,
        executable: Some("/opt/fake viewer λ".into()),
        args: vec!["literal $(touch nope)".into()],
        wait: WaitMode::Process,
    };
    let launch = preference.command("fake viewer λ", "fake viewer λ", "", true, false).unwrap();
    assert_eq!(&launch.args[..3], &["literal $(touch nope)", "--wait", "--diff"]);
    assert_eq!(launch.input, ReviewInput::Pair);
    let entries = review_entries(&retained()).unwrap();
    let index = position(&entries, |e| e.kind == ChangeKind::Modified && !e.binary);
    let plan = file_pair(&entries, index).unwrap();
    let files = file_arguments(launch.input, &b"/tmp/review".to_vec(), Some(&plan));
    assert_eq!(files.len(), 2);
    for file in &files {
        assert_eq!(file[0], b'/');
        assert!(file.ends_with(format!("/{ODD}").as_bytes()));
    }
    assert_eq!(launch.wait, WaitMode::Process);
    assert!(!launch.terminal);
    assert!(preference.command("fake viewer λ", "fake viewer λ", "", false, false).is_err());
    let unknown =
        ReviewerPreference::editor_hint("'some editor' 'literal;$(touch nope)'").unwrap();
    assert_eq!(unknown.kind, ReviewerKind::Editor);
    assert_eq!(unknown.wait, WaitMode::ExplicitReturn);
    assert_eq!(unknown.args, ["literal;$(touch nope)"]);
    assert_eq!(unknown.executable.as_deref(), Some("some editor"));
    let nvim = ReviewerPreference {
        kind: ReviewerKind::Nvim,
        executable: Some("/opt/fake viewer λ".into()),
        args: vec![],
        wait: WaitMode::ExplicitReturn,
    };
    let launch = nvim.command("fake viewer λ", "fake viewer λ", "", true, false).unwrap();
    assert_eq!(launch.args[..6], ["-R", "-n", "-d", "-i", "NONE", "--"]);
    assert!(launch.terminal);
    assert_eq!(launch.wait, WaitMode::Process);
    let shell = ReviewerPreference {
        kind: ReviewerKind::Editor,
        executable: Some("/bin/sh".into()),
        args: vec!["-c".into(), "touch should-never-run".into()],
        wait: WaitMode::Process,
    };
    assert!(shell.command("sh", "dash", "", true, false).is_err());
    assert!(shell.command("viewer", "Bash", "", true, false).is_err());
}

#[test]
fn authentication_paths_never_leave() {
    for path in
        [".env", ".aws/credentials", ".git/hooks/post-checkout", ".codex/auth.json", "id_rsa"]
    {
        assert!(sensitive_path(&path.as_bytes().to_vec()), "{path}");
    }
    assert!(!sensitive_path(&b"src/main.rs".to_vec()));
    let patch = b"diff --git a/.env b/.env\n--- a/.env\n+++ b/.env\n@@ -1 +1 @@\n-a\n+b\n".to_vec();
    let entries = index_patch(&patch).unwrap();
    assert_eq!(
        may_leave(&entries),
        Err("this change set includes authentication or tool configuration paths; use built-in inspection"
            .to_string())
    );
    assert_eq!(may_leave(&vec![]), Ok(()));
}

#[test]
fn hints_and_executables_are_refused_with_their_reason() {
    assert_eq!(
        ReviewerPreference::editor_hint("'open"),
        Err("editor hint is not valid quoted arguments".to_string())
    );
    assert_eq!(ReviewerPreference::editor_hint("  "), Err("empty editor hint".to_string()));
    assert_eq!(
        ReviewerPreference::editor_hint("/usr/bin/nvim -u NONE").unwrap().kind,
        ReviewerKind::Nvim
    );
    assert_eq!(ReviewerPreference::from_tool("vscode").unwrap().program(), "code");
    assert_eq!(ReviewerPreference::from_tool("meld"), None);
    let delta = ReviewerPreference { kind: ReviewerKind::Delta, ..ReviewerPreference::pager() };
    assert_eq!(delta.effective(true).unwrap().kind, ReviewerKind::Pager);
    assert_eq!(delta.effective(false), None);
    assert_eq!(
        delta.command("delta", "delta", "less -R", false, true).unwrap().args,
        ["--no-gitconfig", "--navigate", "--paging=always", "--pager", "less -R", "--light"]
    );
    assert_eq!(executable_place("/usr/bin/less"), Ok(ExecutablePlace::AtPath));
    assert_eq!(executable_place("less"), Ok(ExecutablePlace::InSearchPath));
    assert!(executable_place("./less").is_err());
    assert!(executable_place("bin/less").is_err());
    assert!(executable_place("-c").is_err());
    assert!(executable_place("").is_err());
}

#[test]
fn paths_of_headers_are_decoded_and_kept_safe() {
    assert_eq!(
        header_paths(&b"a/one two b/one two".to_vec()),
        Ok((b"one two".to_vec(), b"one two".to_vec()))
    );
    assert_eq!(decode_path(&b"\"a\\303\\251\\\\\"".to_vec()), Ok("aé\\".as_bytes().to_vec()));
    assert!(decode_path(&b"\"open".to_vec()).is_err());
    assert!(safe_path(&b"src/lib.rs".to_vec()).is_ok());
    assert!(safe_path(&b"/etc/passwd".to_vec()).is_err());
    assert!(safe_path(&b"a/../b".to_vec()).is_err());
}

#[test]
fn identical_moves_are_joined_and_previews_cover_the_change() {
    let blob = "0123456789012345678901234567890123456789";
    let none = "0000000000000000000000000000000000000000";
    let patch = format!(
        "diff --git a/old b/old\ndeleted file mode 100644\nindex {blob}..{none}\n--- a/old\n+++ /dev/null\n@@ -1 +0,0 @@\n-x\ndiff --git a/new b/new\nnew file mode 100644\nindex {none}..{blob}\n--- /dev/null\n+++ b/new\n@@ -0,0 +1 @@\n+x\n"
    )
    .into_bytes();
    let mut entries = index_patch(&patch).unwrap();
    assert_eq!(entries.len(), 2);
    detect_identical_moves(&mut entries);
    assert_eq!(entries.len(), 1);
    assert_eq!(entries[0].kind, ChangeKind::Renamed);
    assert_eq!(entries[0].previous_path.as_deref(), Some(&b"old"[..]));
    assert_eq!(entries[0].bytes, patch.len() as u64);
    assert_eq!(review_entries(&patch).unwrap(), entries);
    let first = preview(&entries[0], &patch, 0, 40);
    assert!(first.truncated);
    let second = preview(&entries[0], &patch, first.next_offset, 4096);
    assert!(!second.truncated);
    let both = format!("{}{}", first.text, second.text);
    assert_eq!(both.len(), patch.len());
}

#[test]
fn changed_evidence_is_refused_and_changed_copies_are_told() {
    let check = |expected: &str, actual: Option<&str>| HashCheck {
        expected: expected.into(),
        actual: actual.map(str::to_owned),
    };
    let sound = vec![check("a", Some("a"))];
    assert!(!verify_review(&sound, &sound).unwrap().copies_changed);
    assert!(verify_review(&sound, &vec![check("a", Some("b"))]).unwrap().copies_changed);
    assert!(verify_review(&sound, &vec![check("a", None)]).unwrap().copies_changed);
    assert!(verify_review(&vec![check("a", Some("b"))], &sound).is_err());
}

#[test]
fn a_viewer_is_found_in_a_fixed_order() {
    let find = |tool, core, visual, editor| {
        ReviewerPreference::discover(None, tool, core, visual, editor).unwrap()
    };
    assert_eq!(find(Some("vscode"), Some("vim"), None, None).kind, ReviewerKind::Code);
    assert_eq!(
        find(Some("meld"), Some("ed -p"), Some("vi"), None).executable.as_deref(),
        Some("ed")
    );
    assert_eq!(find(None, None, Some("nvim"), Some("nano")).kind, ReviewerKind::Nvim);
    assert_eq!(find(None, None, None, Some("nano")).executable.as_deref(), Some("nano"));
    assert_eq!(find(None, None, None, None), ReviewerPreference::pager());
    let stored = ReviewerPreference { kind: ReviewerKind::Delta, ..ReviewerPreference::pager() };
    assert_eq!(
        ReviewerPreference::discover(Some(stored.clone()), Some("code"), None, None, None),
        Ok(stored)
    );
    assert_eq!(trusted_preference_file(FoundKind::File, true, 0o600, 10), Ok(()));
    let refused = |kind, owned, mode, bytes| {
        trusted_preference_file(kind, owned, mode, bytes).unwrap_err()
    };
    assert_eq!(
        refused(FoundKind::Symlink, true, 0o600, 10),
        "viewer preference must be a regular user file"
    );
    assert_eq!(
        refused(FoundKind::File, true, 0o620, 10),
        "viewer preference must be owned by you and not writable by others"
    );
    assert_eq!(
        refused(FoundKind::File, true, 0o600, MAX_PREFERENCE + 1),
        "viewer preference is too large"
    );
}

#[test]
fn found_programs_are_absolute() {
    let place = |path: &str, is_file| Place { path: path.into(), is_file };
    let places = vec![place("bin/less", true), place("/no/less", false), place("/bin/less", true)];
    assert_eq!(resolve_executable("less", false, &places), Ok("/bin/less".to_string()));
    assert_eq!(
        resolve_executable("less", false, &vec![]),
        Err("viewer less is unavailable; use built-in inspection".to_string())
    );
    assert_eq!(resolve_executable("/bin/less", true, &vec![]), Ok("/bin/less".to_string()));
    assert_eq!(
        resolve_executable("/bin/less", false, &vec![]),
        Err("configured viewer is unavailable".to_string())
    );
}

#[test]
fn copies_never_follow_links() {
    let copy = |kinds: Vec<FoundKind>, absent| {
        copy_review_file(&b"dir/file".to_vec(), &kinds, absent)
    };
    assert_eq!(copy(vec![FoundKind::Directory, FoundKind::File], false), Ok(ReviewCopy::Contents));
    assert_eq!(
        copy(vec![FoundKind::Directory, FoundKind::Symlink], false),
        Ok(ReviewCopy::LinkText)
    );
    assert_eq!(copy(vec![FoundKind::Symlink, FoundKind::File], true), Ok(ReviewCopy::Empty));
    assert_eq!(
        copy(vec![FoundKind::Symlink, FoundKind::File], false),
        Err("review path traverses a symlink or non-directory".to_string())
    );
    assert!(copy(vec![FoundKind::Directory, FoundKind::Other], false).is_err());
    assert!(copy_review_file(&b"../x".to_vec(), &vec![FoundKind::File], false).is_err());
    assert_eq!(check_material("b", "b", "p", "p"), Ok(()));
    assert_eq!(
        check_material("b", "c", "p", "p"),
        Err("the frozen baseline changed; review is unavailable".to_string())
    );
    assert_eq!(
        check_material("b", "b", "p", "q"),
        Err("the candidate patch changed during indexing".to_string())
    );
}

#[test]
fn a_pair_is_what_the_change_starts_and_ends_with() {
    let patch = b"diff --git a/old b/new\nsimilarity index 100%\nrename from old\nrename to new\ndiff --git a/gone b/gone\ndeleted file mode 100644\n--- a/gone\n+++ /dev/null\n@@ -1 +0,0 @@\n-x\n".to_vec();
    let entries = index_patch(&patch).unwrap();
    let moved = file_pair(&entries, 0).unwrap();
    assert_eq!(moved.before, Side::Read { tree: PairTree::Baseline, path: b"old".to_vec() });
    assert_eq!(moved.after, Side::Read { tree: PairTree::Patched, path: b"new".to_vec() });
    assert_eq!((moved.directory.as_str(), &moved.name[..]), ("file-0", &b"new"[..]));
    assert_eq!(file_pair(&entries, 1).unwrap().after, Side::Empty);
    assert_eq!(file_pair(&entries, 2), Err("no selected change".to_string()));
    let secret = index_patch(&b"diff --git a/.env b/.env\n".to_vec()).unwrap();
    assert!(file_pair(&secret, 0).is_err());
}
