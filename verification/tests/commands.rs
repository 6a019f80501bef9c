use gatomic::diff::load::{count_hunks_in_output, hunk_counts_command, load_file_diff_command};
use gatomic::git::command::{context_arg, GitCommand};
use gatomic::git::commit::{
    branch_base_from_probe, branch_base_probe, branch_commits_command, commit_fixup_command,
    commit_template_command, commit_with_message_command, commits_range, files_changed_command,
    last_n_commits_command, parse_files_changed, staged_diff_command, template_path, touches,
};
use gatomic::git::numstat::{head_numstat_command, parse_numstat_map};
use gatomic::git::repo::{repo_root, stage_path_command, unstage_path_command};
use gatomic::git::status::{parse_porcelain_status, status_command, FileStatusKind};
use gatomic::text_map::TextMap;
use gatomic::tui::triage_screen::{numstat_command, numstat_of_output, parse_numstat_line};

fn args(cmd: &GitCommand) -> Vec<&str> {
    cmd.args.iter().map(|s| s.as_str()).collect()
}

#[test]
fn fixup_command_names_the_target_commit() {
    let cmd = commit_fixup_command("abc123");
    assert_eq!(args(&cmd), vec!["commit", "--fixup", "abc123"]);
    assert_eq!(cmd.allowed_exit_codes, vec![0]);
    assert!(cmd.stdin.is_none());
}

#[test]
fn files_changed_command_asks_for_every_sha_at_once() {
    assert!(files_changed_command(&Vec::new()).is_none());
    let shas = vec!["aaa".to_string(), "bbb".to_string()];
    let cmd = files_changed_command(&shas).unwrap();
    assert_eq!(
        args(&cmd),
        vec!["show", "--no-color", "--name-only", "--format=\u{1}%h", "aaa", "bbb"]
    );
}

#[test]
fn log_commands_use_the_one_line_format() {
    let cmd = last_n_commits_command(30);
    assert_eq!(
        args(&cmd),
        vec!["log", "-n", "30", "--date=short", "--format=%h\u{1}%ad\u{1}%an\u{1}%s", "HEAD"]
    );
    let branch = branch_commits_command(Some("origin/main"));
    assert_eq!(args(&branch)[3], "origin/main..HEAD");
    assert_eq!(commits_range(None), "HEAD");
    assert_eq!(commits_range(Some("up")), "up..HEAD");
}

#[test]
fn branch_base_probes_come_in_order_and_stop() {
    assert_eq!(
        args(&branch_base_probe(0).unwrap()),
        vec!["rev-parse", "--abbrev-ref", "--symbolic-full-name", "@{u}"]
    );
    assert_eq!(args(&branch_base_probe(1).unwrap()), vec!["rev-parse", "--abbrev-ref", "origin/HEAD"]);
    assert_eq!(args(&branch_base_probe(2).unwrap())[3], "origin/main");
    assert_eq!(args(&branch_base_probe(3).unwrap())[3], "origin/master");
    assert!(branch_base_probe(4).is_none());
}

#[test]
fn branch_base_answers() {
    assert_eq!(branch_base_from_probe(0, true, "  origin/feature \n"), Some("origin/feature".to_string()));
    assert_eq!(branch_base_from_probe(1, true, "\n"), None);
    assert_eq!(branch_base_from_probe(0, false, "origin/x"), None);
    assert_eq!(branch_base_from_probe(2, true, ""), Some("origin/main".to_string()));
    assert_eq!(branch_base_from_probe(3, true, ""), Some("origin/master".to_string()));
    assert_eq!(branch_base_from_probe(4, true, "x"), None);
}

#[test]
fn exit_codes_allowed_by_each_command() {
    let unstage = unstage_path_command("a.txt");
    assert_eq!(args(&unstage), vec!["reset", "-q", "--", "a.txt"]);
    assert!(unstage.exit_code_allowed(0));
    assert!(unstage.exit_code_allowed(1));
    assert!(!unstage.exit_code_allowed(2));
    let stage = stage_path_command("a.txt");
    assert_eq!(args(&stage), vec!["add", "--", "a.txt"]);
    assert!(!stage.exit_code_allowed(1));
    assert!(!stage.exit_code_allowed(-1));
}

#[test]
fn diff_commands_for_tracked_and_untracked_files() {
    assert_eq!(context_arg(3), "-U3");
    assert_eq!(context_arg(10), "-U10");
    let versioned = load_file_diff_command("f.txt", &FileStatusKind::Modified, 3, "/dev/null");
    assert_eq!(args(&versioned), vec!["diff", "HEAD", "--no-color", "-U3", "--", "f.txt"]);
    assert!(!versioned.exit_code_allowed(1));
    let untracked = load_file_diff_command("n.txt", &FileStatusKind::Untracked, 5, "/dev/null");
    assert_eq!(
        args(&untracked),
        vec!["diff", "--no-color", "--no-index", "-U5", "--", "/dev/null", "n.txt"]
    );
    assert!(untracked.exit_code_allowed(1));
    assert_eq!(args(&hunk_counts_command(0)), vec!["diff", "HEAD", "--no-color", "-U0"]);
}

#[test]
fn other_commands() {
    assert_eq!(args(&status_command()), vec!["status", "--porcelain=v1", "-z"]);
    assert_eq!(args(&staged_diff_command()), vec!["diff", "--cached", "--no-color"]);
    assert_eq!(args(&head_numstat_command()), vec!["diff", "HEAD", "--no-color", "--numstat"]);
    assert_eq!(args(&numstat_command("a b")), vec!["diff", "--no-color", "--numstat", "--", "a b"]);
    let template = commit_template_command();
    assert!(template.exit_code_allowed(1));
    let commit = commit_with_message_command("msg\n");
    assert_eq!(args(&commit), vec!["commit", "--cleanup=strip", "-F", "-"]);
    assert_eq!(commit.stdin.as_deref(), Some("msg\n"));
}

#[test]
fn repo_root_and_template_paths() {
    assert_eq!(repo_root("/home/u/repo\n"), "/home/u/repo");
    assert_eq!(template_path("\n", Some("/home/u")), None);
    assert_eq!(template_path("~/.gitmessage\n", Some("/home/u")), Some("/home/u/.gitmessage".to_string()));
    assert_eq!(template_path("~/.gitmessage\n", None), Some("~/.gitmessage".to_string()));
    assert_eq!(template_path("/etc/msg\n", Some("/home/u")), Some("/etc/msg".to_string()));
}

#[test]
fn files_changed_output_maps_each_sha_to_its_paths() {
    let raw = "\u{1}abc\n\na.txt\nb.txt\n\u{1}def\n\nc.txt\n";
    let map = parse_files_changed(raw);
    let abc = "abc".to_string();
    let def = "def".to_string();
    assert_eq!(map.get(&abc).unwrap(), &vec!["a.txt".to_string(), "b.txt".to_string()]);
    assert_eq!(map.get(&def).unwrap(), &vec!["c.txt".to_string()]);
    assert!(touches(&map, &abc, &"b.txt".to_string()));
    assert!(!touches(&map, &def, &"b.txt".to_string()));
    assert!(!touches(&map, &"zzz".to_string(), &"a.txt".to_string()));
}

#[test]
fn hunk_counts_by_display_path() {
    let raw = "diff --git a/a.txt b/a.txt\n--- a/a.txt\n+++ b/a.txt\n@@ -1 +1 @@\n-a\n+A\n@@ -9 +9 @@\n-x\n+X\ndiff --git a/b.txt b/b.txt\ndeleted file mode 100644\n--- a/b.txt\n+++ /dev/null\n@@ -1 +0,0 @@\n-b\n";
    let counts = count_hunks_in_output(raw).unwrap();
    assert_eq!(counts.get(&"a.txt".to_string()), Some(&2));
    assert_eq!(counts.get(&"b.txt".to_string()), Some(&1));
    assert_eq!(counts.get(&"c.txt".to_string()), None);
}

#[test]
fn numstat_lines_and_maps() {
    let line: Vec<char> = "3\t1\ta.txt".chars().collect();
    assert_eq!(parse_numstat_line(&line), Some((3, 1)));
    let binary: Vec<char> = "-\t-\timg.png".chars().collect();
    assert_eq!(parse_numstat_line(&binary), None);
    assert_eq!(numstat_of_output("12\t0\tf.rs\n"), (12, 0));
    assert_eq!(numstat_of_output(""), (0, 0));
    assert_eq!(numstat_of_output("-\t-\tx.bin\n"), (0, 0));
    let map = parse_numstat_map("3\t1\ta.txt\n-\t-\timg.png\n7\t2\tdir/b.rs\n");
    assert_eq!(map.get(&"a.txt".to_string()), Some(&(3, 1)));
    assert_eq!(map.get(&"dir/b.rs".to_string()), Some(&(7, 2)));
    assert_eq!(map.get(&"img.png".to_string()), None);
}

#[test]
fn text_map_insert_replaces_and_get_reads_back() {
    let mut m: TextMap<u32> = TextMap::new();
    let k = "k".to_string();
    assert!(!m.contains_key(&k));
    m.insert(k.clone(), 1);
    assert_eq!(m.get(&k), Some(&1));
    m.insert(k.clone(), 2);
    assert_eq!(m.get(&k), Some(&2));
    assert!(m.contains_key(&k));
}

#[test]
fn porcelain_record_with_a_two_byte_first_character() {
    let entries = parse_porcelain_status("\u{e9}a.txt\0 M b.txt\0x\0");
    assert_eq!(entries.len(), 2);
    assert_eq!(entries[0].path, "a.txt");
    assert_eq!(entries[1].path, "b.txt");
    assert_eq!(entries[1].kind, FileStatusKind::Modified);
}

#[test]
fn porcelain_deleted_conflicted_and_copied() {
    let entries = parse_porcelain_status(" D gone.txt\0UU both.txt\0C  new.txt\0old.txt\0");
    assert_eq!(entries[0].kind, FileStatusKind::Deleted);
    assert_eq!(entries[1].kind, FileStatusKind::Conflicted);
    assert_eq!(entries[2].kind, FileStatusKind::Renamed);
    assert_eq!(entries[2].old_path.as_deref(), Some("old.txt"));
    assert_eq!(entries.len(), 3);
}
