use twitch_clips::finalize::{
    conclude, final_name, fresh_number, least_free, number_taken, plan_renames, settle,
    FailedRename, FilesystemError, RenameStep, MAX_DRAWS, MAX_ENTRIES,
};

fn finalize_names(names: &[&str]) -> Vec<String> {
    names.iter().map(|n| n.to_string()).collect()
}

fn finalize_number_of(name: &str) -> u32 {
    let stem = name.strip_suffix(".mp4").expect("the video extension");
    assert!(!stem.is_empty());
    assert!(stem.chars().all(|c| c.is_ascii_digit()));
    assert!(stem == "0" || !stem.starts_with('0'));
    stem.parse::<u32>().expect("a number that fits")
}

fn finalize_check_plan(entries: &[String], plan: &[RenameStep]) {
    assert_eq!(plan.len(), entries.len());
    for i in 0..plan.len() {
        assert_eq!(plan[i].from, entries[i]);
        finalize_number_of(&plan[i].to);
        assert!(!entries.contains(&plan[i].to));
        for j in i + 1..plan.len() {
            assert_ne!(plan[i].to, plan[j].to);
        }
    }
}

#[test]
fn final_name_is_the_number_with_the_video_extension() {
    assert_eq!(final_name(0), "0.mp4");
    assert_eq!(final_name(7), "7.mp4");
    assert_eq!(final_name(1203), "1203.mp4");
    assert_eq!(final_name(u32::MAX), "4294967295.mp4");
}

#[test]
fn limits_are_what_they_are() {
    assert_eq!(MAX_DRAWS, 16);
    assert_eq!(MAX_ENTRIES, 2147483647);
}

#[test]
fn a_chosen_number_is_taken() {
    let chosen: Vec<u32> = vec![5, 9, 4000000000];
    let entries: Vec<String> = Vec::new();
    assert!(number_taken(5, &chosen, &entries));
    assert!(number_taken(9, &chosen, &entries));
    assert!(number_taken(4000000000, &chosen, &entries));
    assert!(!number_taken(0, &chosen, &entries));
    assert!(!number_taken(6, &chosen, &entries));
}

#[test]
fn a_number_whose_name_is_in_the_directory_is_taken() {
    let chosen: Vec<u32> = Vec::new();
    let entries = finalize_names(&["17.mp4", "clip.mp4", "0042.mp4", "8.mkv", "9"]);
    assert!(number_taken(17, &chosen, &entries));
    assert!(!number_taken(42, &chosen, &entries));
    assert!(!number_taken(8, &chosen, &entries));
    assert!(!number_taken(9, &chosen, &entries));
    assert!(!number_taken(1, &chosen, &entries));
}

#[test]
fn nothing_is_taken_at_the_start() {
    assert!(!number_taken(0, &Vec::new(), &Vec::new()));
    assert!(!number_taken(u32::MAX, &Vec::new(), &Vec::new()));
}

#[test]
fn least_free_is_zero_when_nothing_is_taken() {
    assert_eq!(least_free(&Vec::new(), &Vec::new()), Some(0));
}

#[test]
fn least_free_passes_over_what_is_taken() {
    let chosen: Vec<u32> = vec![1, 0, 4];
    let entries = finalize_names(&["2.mp4", "x.mp4", "5.mp4"]);
    assert_eq!(least_free(&chosen, &entries), Some(3));
    let more: Vec<u32> = vec![1, 0, 4, 3];
    assert_eq!(least_free(&more, &entries), Some(6));
}

#[test]
fn settle_takes_the_first_draw_when_it_is_free() {
    let draws: Vec<u32> = vec![31337, 5, 6];
    assert_eq!(settle(&draws, &vec![5, 6], &finalize_names(&["7.mp4"])), Some(31337));
}

#[test]
fn settle_passes_over_draws_that_collide() {
    let chosen: Vec<u32> = vec![5, 9];
    let entries = finalize_names(&["12.mp4", "staged.mp4"]);
    assert_eq!(settle(&vec![5, 7, 8], &chosen, &entries), Some(7));
    assert_eq!(settle(&vec![9, 5, 12, 5, 40], &chosen, &entries), Some(40));
    assert_eq!(settle(&vec![12, 12, 3], &chosen, &entries), Some(3));
}

#[test]
fn settle_falls_back_to_the_least_free_number() {
    let chosen: Vec<u32> = vec![0, 1, 5];
    let entries = finalize_names(&["2.mp4"]);
    assert_eq!(settle(&vec![5, 5, 1, 2], &chosen, &entries), Some(3));
    assert_eq!(settle(&Vec::new(), &chosen, &entries), Some(3));
    assert_eq!(settle(&Vec::new(), &Vec::new(), &Vec::new()), Some(0));
}

#[test]
fn fresh_number_is_never_taken() {
    let chosen: Vec<u32> = (0..500).collect();
    let entries: Vec<String> = (500..700).map(|n: u32| format!("{}.mp4", n)).collect();
    for _ in 0..50 {
        let n = fresh_number(&chosen, &entries).unwrap();
        assert!(n >= 700);
        assert!(!number_taken(n, &chosen, &entries));
    }
}

#[test]
fn fresh_numbers_differ_from_draw_to_draw() {
    let mut seen: Vec<u32> = Vec::new();
    for _ in 0..64 {
        seen.push(fresh_number(&Vec::new(), &Vec::new()).unwrap());
    }
    seen.sort();
    seen.dedup();
    assert!(seen.len() > 1);
}

#[test]
fn plan_of_an_empty_directory_is_empty_every_time() {
    assert_eq!(plan_renames(Vec::new()), Some(Vec::new()));
    assert_eq!(plan_renames(Vec::new()), Some(Vec::new()));
    assert_eq!(conclude(Vec::new()), Ok(0));
    assert_eq!(conclude(Vec::new()), Ok(0));
}

#[test]
fn plan_renames_each_entry_to_a_name_of_its_own() {
    let entries: Vec<String> = (0..200).map(|i| format!("clip{}.mp4", i)).collect();
    let plan = plan_renames(entries.clone()).unwrap();
    finalize_check_plan(&entries, &plan);
}

#[test]
fn plan_of_one_entry_has_one_step() {
    let entries = finalize_names(&["AwkwardHelplessSalamander.mp4"]);
    let plan = plan_renames(entries.clone()).unwrap();
    assert_eq!(plan.len(), 1);
    assert_eq!(plan[0].from, "AwkwardHelplessSalamander.mp4");
    finalize_check_plan(&entries, &plan);
}

#[test]
fn plan_keeps_clear_of_names_already_in_the_directory() {
    let first: Vec<String> = (0..150).map(|i| format!("staged{}.mp4", i)).collect();
    let once = plan_renames(first.clone()).unwrap();
    finalize_check_plan(&first, &once);
    let renamed: Vec<String> = once.iter().map(|s| s.to.clone()).collect();
    let twice = plan_renames(renamed.clone()).unwrap();
    finalize_check_plan(&renamed, &twice);
}

#[test]
fn conclude_counts_the_renames_when_none_failed() {
    let attempts: Vec<(RenameStep, Result<(), String>)> = (0..4)
        .map(|i| (RenameStep { from: format!("f{}", i), to: final_name(i) }, Ok(())))
        .collect();
    assert_eq!(conclude(attempts), Ok(4));
}

#[test]
fn conclude_lists_every_failure_and_keeps_the_successes() {
    let attempts: Vec<(RenameStep, Result<(), String>)> = vec![
        (RenameStep { from: "a".to_string(), to: "1.mp4".to_string() }, Ok(())),
        (
            RenameStep { from: "b".to_string(), to: "2.mp4".to_string() },
            Err("permission denied".to_string()),
        ),
        (RenameStep { from: "c".to_string(), to: "3.mp4".to_string() }, Ok(())),
        (RenameStep { from: "d".to_string(), to: "4.mp4".to_string() }, Err("busy".to_string())),
        (RenameStep { from: "e".to_string(), to: "5.mp4".to_string() }, Ok(())),
    ];
    assert_eq!(
        conclude(attempts),
        Err(FilesystemError {
            renamed: 3,
            failed: vec![
                FailedRename {
                    from: "b".to_string(),
                    to: "2.mp4".to_string(),
                    reason: "permission denied".to_string(),
                },
                FailedRename {
                    from: "d".to_string(),
                    to: "4.mp4".to_string(),
                    reason: "busy".to_string(),
                },
            ],
        })
    );
}

#[test]
fn conclude_fails_when_every_rename_failed() {
    let attempts: Vec<(RenameStep, Result<(), String>)> = vec![(
        RenameStep { from: "a".to_string(), to: "1.mp4".to_string() },
        Err("read-only file system".to_string()),
    )];
    match conclude(attempts) {
        Err(e) => {
            assert_eq!(e.renamed, 0);
            assert_eq!(e.failed.len(), 1);
            assert_eq!(e.failed[0].reason, "read-only file system");
        }
        Ok(n) => panic!("expected a failure, got {} renames", n),
    }
}
