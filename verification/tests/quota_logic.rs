use quota_update::changelog::{
    batch_final_point, checkpoint_due, plan_batch, run_settings, state_update_due, EntryStep, RunSettings,
    DEFAULT_BATCH_SIZE, DEFAULT_CHECKPOINT_MS,
};
use quota_update::marfs::{
    get_marfs_file_mode, get_streamid_key, is_quota_file_path, ns_key, ns_map_from_table, Ftag,
    NsEntry, NsInodeMap,
};
use quota_update::quota::{
    decide_quota, is_directory_mode, quota_action, quota_target, quota_xattr_name, quota_xattr_present,
    quota_xattr_value, stat_step, InodeMismatch, QuotaAction, QuotaFailure, QuotaTarget, StatStep,
    UnreadableXattrList,
};
use quota_update::scoutwrap::{
    c_string_prefix, fill_walk_entries, ino_path_result, is_zero_entry, parse_xattr_list,
    ScoutwrapInoPath, ScoutwrapWalkInodes, ScoutwrapWalkInodesEntry, STR_BUF_SIZE,
};
use quota_update::state_file::{
    format_state, parse_state, starting_point, state_file_paths, SavedState, StateFileError,
};

fn point(major: u64, ino: u64, minor: u32) -> ScoutwrapWalkInodesEntry {
    ScoutwrapWalkInodesEntry { major, ino, minor }
}

#[test]
fn state_file_text() {
    assert_eq!(format_state(&point(12, 345, 6)), "12\n345\n6");
    assert_eq!(format_state(&point(0, 0, 0)), "0\n0\n0");
}

#[test]
fn state_file_round_trip() {
    for p in [point(12, 345, 6), point(0, 1, 0), point(i64::MAX as u64, i64::MAX as u64, u32::MAX)] {
        let saved = parse_state(&format_state(&p)).unwrap();
        assert_eq!(starting_point(&saved), p);
    }
}

#[test]
fn state_file_too_large_major_does_not_read_back() {
    let p = point(i64::MAX as u64 + 1, 5, 5);
    assert_eq!(parse_state(&format_state(&p)), Err(StateFileError::InvalidInteger));
}

#[test]
fn state_file_lines_are_trimmed() {
    assert_eq!(
        parse_state(" 5 \n\t6\r\n7\n"),
        Ok(SavedState { major: 5, ino: 6, minor: 7 })
    );
    assert_eq!(parse_state("1\n2\n3\nextra"), Ok(SavedState { major: 1, ino: 2, minor: 3 }));
}

#[test]
fn state_file_errors() {
    assert_eq!(parse_state(""), Err(StateFileError::InvalidInteger));
    assert_eq!(parse_state("abc"), Err(StateFileError::InvalidInteger));
    assert_eq!(parse_state("5"), Err(StateFileError::MissingLine));
    assert_eq!(parse_state("5\n6"), Err(StateFileError::MissingLine));
    assert_eq!(parse_state("5\nx\n"), Err(StateFileError::InvalidInteger));
    assert_eq!(parse_state("5\n6\n"), Err(StateFileError::InvalidInteger));
}

#[test]
fn negative_saved_state_wraps_like_as() {
    let saved = SavedState { major: -1, ino: 2, minor: 4294967297 };
    assert_eq!(starting_point(&saved), point(u64::MAX, 2, 1));
}

#[test]
fn state_file_path_defaults() {
    let (a, b) = state_file_paths(None);
    assert_eq!((a.as_str(), b.as_str()), (".state", ".state.swp"));
    let (a, b) = state_file_paths(Some(String::from("/var/qu/state")));
    assert_eq!((a.as_str(), b.as_str()), ("/var/qu/state", "/var/qu/state.swp"));
}

#[test]
fn settings_defaults() {
    assert_eq!(
        run_settings(None, None, None, None, None),
        RunSettings {
            checkpoint_ms: 60000,
            batch_size: 65536,
            state_verbose: true,
            loop_verbose: false,
            quota_update_verbose: true,
        }
    );
    assert_eq!(
        run_settings(Some(5), Some(10), Some(false), Some(true), Some(false)),
        RunSettings {
            checkpoint_ms: 5,
            batch_size: 10,
            state_verbose: false,
            loop_verbose: true,
            quota_update_verbose: false,
        }
    );
    assert_eq!((DEFAULT_CHECKPOINT_MS, DEFAULT_BATCH_SIZE), (60000, 65536));
}

#[test]
fn walk_drops_unfilled_slots() {
    let req = ScoutwrapWalkInodes {
        first: point(3, 4, 5),
        last: point(u64::MAX, u64::MAX, u32::MAX),
        entries_vec: Vec::new(),
        nr_entries: 4,
        index: 1,
    };
    let raw = vec![point(1, 2, 3), point(0, 0, 0), point(0, 9, 0), point(0, 0, 0)];
    let got = fill_walk_entries(req, &raw);
    assert_eq!(got.entries_vec, vec![point(1, 2, 3), point(0, 9, 0)]);
    assert_eq!(got.first, point(3, 4, 5));
    assert_eq!((got.nr_entries, got.index), (4, 1));
    assert!(is_zero_entry(&point(0, 0, 0)));
    assert!(!is_zero_entry(&point(0, 0, 1)));
}

#[test]
fn full_batch_stops_at_last_inode() {
    let entries = vec![point(1, 10, 0), point(1, 1, 0), point(2, 11, 0), point(3, 12, 0)];
    let plan = plan_batch(&entries, 4, &point(1, 10, 0));
    assert!(!plan.last_batch);
    assert_eq!(plan.steps, vec![EntryStep::AlreadyProcessed, EntryStep::RootDirectory, EntryStep::Visit]);
    assert_eq!(plan.next_first, Some(point(3, 12, 0)));
}

#[test]
fn full_batch_stops_early_on_same_inode() {
    let entries = vec![point(1, 10, 0), point(2, 12, 0), point(2, 11, 0), point(3, 12, 0)];
    let plan = plan_batch(&entries, 4, &point(0, 0, 0));
    assert_eq!(plan.steps, vec![EntryStep::Visit]);
    assert_eq!(plan.next_first, Some(point(3, 12, 0)));
}

#[test]
fn last_batch_handles_every_entry() {
    let entries = vec![point(1, 10, 0), point(3, 10, 0)];
    let plan = plan_batch(&entries, 4, &point(0, 0, 0));
    assert!(plan.last_batch);
    assert_eq!(plan.steps, vec![EntryStep::Visit, EntryStep::Visit]);
    assert_eq!(plan.next_first, None);
    let empty = plan_batch(&Vec::new(), 4, &point(0, 0, 0));
    assert!(empty.last_batch && empty.steps.is_empty() && empty.next_first.is_none());
}

#[test]
fn checkpoints() {
    assert!(checkpoint_due(true, 0, 0, 60000));
    assert!(!checkpoint_due(false, 60_000_000_000, 0, 60000));
    assert!(checkpoint_due(false, 60_000_000_001, 0, 60000));
    assert!(!checkpoint_due(false, 70_000_000_000, 10_000_000_000, 60000));
    assert!(state_update_due(5, 4));
    assert!(!state_update_due(4, 4));
    assert!(!state_update_due(0, 4));
    assert!(!state_update_due(u64::MAX, -1));
}

#[test]
fn quota_xattr_names_and_values() {
    assert_eq!(quota_xattr_name(42), "scoutfs.hide.totl.acct.123.0.42");
    assert_eq!(quota_xattr_name(0), "scoutfs.hide.totl.acct.123.0.0");
    assert_eq!(quota_xattr_value(1048576), "1048576");
}

#[test]
fn xattr_presence() {
    let name = quota_xattr_name(9);
    let list = vec![String::from("scoutfs.hide.other"), name.clone()];
    assert_eq!(quota_xattr_present(&list, &name), Ok(true));
    let with_error = vec![String::from("error: failed to parse slice into utf8"), name.clone()];
    assert_eq!(quota_xattr_present(&with_error, &name), Ok(true));
    let unreadable = vec![String::from("error: failed to parse slice into utf8")];
    assert_eq!(quota_xattr_present(&unreadable, &name), Err(UnreadableXattrList));
    assert_eq!(quota_xattr_present(&vec![String::from("scoutfs.hide.x")], &name), Ok(false));
    assert_eq!(quota_xattr_present(&Vec::new(), &name), Ok(false));
}

#[test]
fn quota_rule() {
    let comp = String::from("COMP");
    let init = String::from("INIT");
    assert_eq!(quota_action(false, &comp, 2), QuotaAction::Add);
    assert_eq!(quota_action(false, &comp, 1), QuotaAction::Unchanged);
    assert_eq!(quota_action(false, &comp, 3), QuotaAction::Unchanged);
    assert_eq!(quota_action(false, &init, 2), QuotaAction::Unchanged);
    assert_eq!(quota_action(true, &comp, 1), QuotaAction::Remove);
    assert_eq!(quota_action(true, &init, 0), QuotaAction::Remove);
    assert_eq!(quota_action(true, &comp, 2), QuotaAction::Unchanged);
}

#[test]
fn quota_rule_is_idempotent() {
    for mode in ["COMP", "INIT", ""] {
        let mode = String::from(mode);
        for exists in [false, true] {
            for nlink in 0..4u64 {
                let first = quota_action(exists, &mode, nlink);
                let after = match first {
                    QuotaAction::Add => true,
                    QuotaAction::Remove => false,
                    QuotaAction::Unchanged => exists,
                };
                assert_eq!(quota_action(after, &mode, nlink), QuotaAction::Unchanged);
            }
        }
    }
}

#[test]
fn directories() {
    assert!(is_directory_mode(0o040755));
    assert!(!is_directory_mode(0o100644));
    assert!(!is_directory_mode(0o120777));
    assert!(is_directory_mode(0o140755));
}

#[test]
fn marfs_file_modes() {
    assert_eq!(get_marfs_file_mode("ver.0_1/ctag.x/COMP|..."), Ok(String::from("COMP")));
    assert_eq!(get_marfs_file_mode("INIT and COMP"), Ok(String::from("INIT")));
    assert_eq!(get_marfs_file_mode("nothing here"), Ok(String::new()));
}

#[test]
fn streamid_keys() {
    let tag = |s: &str| Ftag { bytes: 0, streamid: String::from(s) };
    assert_eq!(get_streamid_key(&tag("repo1#ns1#ns2#stream7")), Ok(String::from("repo1#ns1#ns2")));
    assert_eq!(get_streamid_key(&tag("repo1##stream")), Ok(String::from("repo1#")));
    assert_eq!(
        get_streamid_key(&tag("repo1#stream")),
        Err(String::from("incorrect vec1 length during streamid parsing"))
    );
    assert!(get_streamid_key(&tag("")).is_err());
}

#[test]
fn quota_file_paths() {
    assert!(is_quota_file_path("ns1/MDAL_datasize"));
    assert!(!is_quota_file_path("ns1/data"));
}

#[test]
fn namespace_map() {
    let mut m: NsInodeMap = NsInodeMap::new();
    assert_eq!(m.get("a"), None);
    m.insert(String::from("a"), 5);
    m.insert(String::from("b"), 6);
    m.insert(String::from("a"), 7);
    assert_eq!(m.get("a"), Some(&7));
    assert_eq!(m.get("b"), Some(&6));
    assert_eq!(m.get("c"), None);
}

#[test]
fn namespace_table() {
    assert_eq!(ns_key(&String::from("repo/ns1/ns2")), "repo#ns1#ns2");
    let slot = |k: &str, ino: u64| NsEntry { ns_key: String::from(k), ino };
    let table = vec![slot("r/a", 10), slot("r/b", 11), slot("r/a", 12), slot("", 0), slot("r/c", 13)];
    let m = ns_map_from_table(&table);
    assert_eq!(m.get("r#a").copied(), Some(12));
    assert_eq!(m.get("r#b").copied(), Some(11));
    assert_eq!(m.get("r#c").copied(), None);
    assert_eq!(m.get("r/a").copied(), None);
}

#[test]
fn ino_path_answers() {
    let arg = ScoutwrapInoPath { ino: 77, dir_ino: 0, dir_pos: 0, result_ptr: 0, result_bytes: STR_BUF_SIZE };
    let res = ino_path_result(&arg, 5, 9, b"ns1/file.dat\0garbage").unwrap();
    assert_eq!((res.ino, res.dir_ino, res.dir_pos, res.path_bytes), (77, 5, 9, 512));
    assert_eq!(res.path, "ns1/file.dat");
    assert!(ino_path_result(&arg, 5, 9, &[0x66, 0xff, 0]).is_none());
    let big = ScoutwrapInoPath { result_bytes: 70000, ..arg };
    assert_eq!(ino_path_result(&big, 0, 0, b"p").unwrap().path_bytes, 70000u32 as u16);
    assert_eq!(c_string_prefix(b"abc"), b"abc".to_vec());
    assert_eq!(c_string_prefix(b"\0abc"), Vec::<u8>::new());
}

#[test]
fn xattr_list_buffer() {
    let buf = b"scoutfs.hide.a\0scoutfs.hide.totl.acct.123.0.4\0\0\0";
    assert_eq!(
        parse_xattr_list(buf),
        vec![String::from("scoutfs.hide.a"), String::from("scoutfs.hide.totl.acct.123.0.4")]
    );
    assert_eq!(
        parse_xattr_list(&[0x61, 0, 0xff, 0xfe, 0]),
        vec![String::from("a"), String::from("error: failed to parse slice into utf8")]
    );
    assert!(parse_xattr_list(&[]).is_empty());
    assert!(parse_xattr_list(&[0, 0, 0]).is_empty());
}

#[test]
fn no_state_file_starts_at_zero() {
    assert_eq!(starting_point(&SavedState { major: 0, ino: 0, minor: 0 }), point(0, 0, 0));
}

#[test]
fn streamid_key_drops_only_the_last_part() {
    let streamid = "repo1#ns1#ns2#stream-id.7";
    let key = get_streamid_key(&Ftag { bytes: 0, streamid: String::from(streamid) }).unwrap();
    let last = streamid.split('#').last().unwrap();
    assert_eq!(format!("{key}#{last}"), streamid);
}

#[test]
fn quota_targets() {
    let mut m: NsInodeMap = NsInodeMap::new();
    m.insert(String::from("repo1#ns1"), 4242);
    let ok = quota_target(&Ftag { bytes: 10, streamid: String::from("repo1#ns1#s") }, &m);
    assert_eq!(
        ok,
        Ok(QuotaTarget {
            streamid_key: String::from("repo1#ns1"),
            ns_ino: 4242,
            xattr_name: String::from("scoutfs.hide.totl.acct.123.0.4242"),
        })
    );
    let unknown = quota_target(&Ftag { bytes: 10, streamid: String::from("repo1#ns2#s") }, &m);
    assert_eq!(unknown, Err(QuotaFailure::UnknownNamespace(String::from("repo1#ns2"))));
    let short = quota_target(&Ftag { bytes: 10, streamid: String::from("repo1#s") }, &m);
    assert_eq!(
        short,
        Err(QuotaFailure::StreamidKey(String::from("incorrect vec1 length during streamid parsing")))
    );
}

#[test]
fn quota_decisions() {
    let target = QuotaTarget {
        streamid_key: String::from("r#n"),
        ns_ino: 7,
        xattr_name: quota_xattr_name(7),
    };
    let none: Vec<String> = Vec::new();
    let has = vec![quota_xattr_name(7)];
    let broken = vec![String::from("error: failed to parse slice into utf8")];
    assert_eq!(decide_quota(&target, &none, "x/COMP/y", 2), Ok(QuotaAction::Add));
    assert_eq!(decide_quota(&target, &none, "x/INIT/y", 2), Ok(QuotaAction::Unchanged));
    assert_eq!(decide_quota(&target, &has, "x/COMP/y", 2), Ok(QuotaAction::Unchanged));
    assert_eq!(decide_quota(&target, &has, "x/COMP/y", 1), Ok(QuotaAction::Remove));
    assert_eq!(decide_quota(&target, &broken, "x/COMP/y", 2), Err(QuotaFailure::UnreadableXattrList));
}

#[test]
fn stat_steps() {
    assert_eq!(stat_step(5, 5, 0o100644), Ok(StatStep::AccountFile));
    assert_eq!(stat_step(5, 5, 0o040755), Ok(StatStep::SkipDirectory));
    assert_eq!(stat_step(5, 6, 0o100644), Err(InodeMismatch));
}

#[test]
fn each_namespace_has_its_own_xattr() {
    let names: Vec<String> = [0u64, 4, 42, 420, 4242, u64::MAX].iter().map(|i| quota_xattr_name(*i)).collect();
    for (i, a) in names.iter().enumerate() {
        for (j, b) in names.iter().enumerate() {
            assert_eq!(i == j, a == b);
        }
    }
}

#[test]
fn quota_value_reads_back_as_the_size() {
    for bytes in [0usize, 1, 4096, 1 << 40] {
        assert_eq!(quota_xattr_value(bytes).parse::<usize>(), Ok(bytes));
    }
}

#[test]
fn final_point_of_a_batch() {
    let entries = vec![point(1, 10, 0), point(1, 1, 0), point(2, 11, 0), point(3, 12, 0)];
    let prev = point(9, 9, 9);
    let plan = plan_batch(&entries, 4, &point(1, 10, 0));
    assert_eq!(batch_final_point(&entries, &plan.steps, prev), point(2, 11, 0));
    let only_start = vec![EntryStep::AlreadyProcessed];
    assert_eq!(batch_final_point(&entries, &only_start, prev), prev);
    let root_then_start = vec![EntryStep::Visit, EntryStep::RootDirectory, EntryStep::AlreadyProcessed];
    assert_eq!(batch_final_point(&entries, &root_then_start, prev), point(1, 1, 0));
    assert_eq!(batch_final_point(&entries, &Vec::new(), prev), prev);
}
