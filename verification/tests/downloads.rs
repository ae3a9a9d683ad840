use twitch_clips::utils::api::TwitchClip;
use twitch_clips::utils::vidproc::{
    collect_outcomes, plan_downloads, staged_template, DownloadOutcome, DownloadTask,
    IntegrityError,
};

fn downloads_clip(id: &str) -> TwitchClip {
    TwitchClip {
        id: id.to_string(),
        url: format!("https://clips.twitch.tv/{}", id),
        embed_url: String::new(),
        broadcaster_id: String::new(),
        broadcaster_name: String::new(),
        creator_id: String::new(),
        creator_name: String::new(),
        video_id: String::new(),
        game_id: String::new(),
        language: String::new(),
        title: String::new(),
        view_count: 0,
        created_at: String::new(),
        thumbnail_url: String::new(),
        duration_bits: 0,
        vod_offset_bits: None,
        is_featured: false,
    }
}

fn downloads_tasks(n: usize) -> Vec<DownloadTask> {
    let batch: Vec<TwitchClip> = (0..n).map(|i| downloads_clip(&format!("c{}", i))).collect();
    plan_downloads(&batch, "./tmp/").unwrap()
}

#[test]
fn plan_names_one_task_for_each_clip() {
    let batch = vec![downloads_clip("alpha"), downloads_clip("beta"), downloads_clip("gamma")];
    let tasks = plan_downloads(&batch, "./staging/").unwrap();
    assert_eq!(
        tasks,
        vec![
            DownloadTask {
                clip_id: "alpha".to_string(),
                url: "https://clips.twitch.tv/alpha".to_string(),
                staging_dir: "./staging/".to_string(),
                output_template: "alpha.%(ext)s".to_string(),
            },
            DownloadTask {
                clip_id: "beta".to_string(),
                url: "https://clips.twitch.tv/beta".to_string(),
                staging_dir: "./staging/".to_string(),
                output_template: "beta.%(ext)s".to_string(),
            },
            DownloadTask {
                clip_id: "gamma".to_string(),
                url: "https://clips.twitch.tv/gamma".to_string(),
                staging_dir: "./staging/".to_string(),
                output_template: "gamma.%(ext)s".to_string(),
            },
        ]
    );
}

#[test]
fn plan_of_an_empty_batch_is_empty() {
    assert_eq!(plan_downloads(&Vec::new(), "./tmp/"), Ok(Vec::new()));
}

#[test]
fn plan_refuses_a_batch_with_a_repeated_id() {
    let batch = vec![downloads_clip("a"), downloads_clip("b"), downloads_clip("a")];
    assert_eq!(plan_downloads(&batch, "./tmp/"), Err(IntegrityError { first: 0, second: 2 }));
}

#[test]
fn plan_gives_every_task_its_own_name() {
    let tasks = downloads_tasks(120);
    for i in 0..tasks.len() {
        for j in i + 1..tasks.len() {
            assert_ne!(tasks[i].clip_id, tasks[j].clip_id);
            assert_ne!(tasks[i].output_template, tasks[j].output_template);
        }
    }
}

#[test]
fn staged_file_is_named_after_the_clip() {
    assert_eq!(staged_template("AwkwardHelplessSalamander"), "AwkwardHelplessSalamander.%(ext)s");
    assert_eq!(staged_template(""), ".%(ext)s");
}

#[test]
fn every_task_gets_one_outcome() {
    let tasks = downloads_tasks(5);
    let results: Vec<Result<(), String>> = vec![Ok(()), Ok(()), Ok(()), Ok(()), Ok(())];
    let report = collect_outcomes(&tasks, results).unwrap();
    assert_eq!(report.outcomes.len(), 5);
    assert!(report.outcomes.iter().all(|o| *o == DownloadOutcome::Succeeded));
    assert_eq!(report.succeeded, 5);
    assert_eq!(report.failed, 0);
}

#[test]
fn a_failure_leaves_the_other_outcomes_alone() {
    let tasks = downloads_tasks(6);
    for k in 0..6 {
        let mut results: Vec<Result<(), String>> = vec![Ok(()); 6];
        results[k] = Err(format!("clip {} is gone", k));
        let report = collect_outcomes(&tasks, results).unwrap();
        assert_eq!(report.outcomes.len(), 6);
        for i in 0..6 {
            if i == k {
                assert_eq!(report.outcomes[i], DownloadOutcome::Failed(format!("clip {} is gone", k)));
            } else {
                assert_eq!(report.outcomes[i], DownloadOutcome::Succeeded);
            }
        }
        assert_eq!(report.succeeded, 5);
        assert_eq!(report.failed, 1);
    }
}

#[test]
fn failures_are_counted_apart_from_successes() {
    let tasks = downloads_tasks(4);
    let results: Vec<Result<(), String>> =
        vec![Err("timeout".to_string()), Ok(()), Err("http 404".to_string()), Err(String::new())];
    let report = collect_outcomes(&tasks, results).unwrap();
    assert_eq!(
        report.outcomes,
        vec![
            DownloadOutcome::Failed("timeout".to_string()),
            DownloadOutcome::Succeeded,
            DownloadOutcome::Failed("http 404".to_string()),
            DownloadOutcome::Failed(String::new()),
        ]
    );
    assert_eq!(report.succeeded, 1);
    assert_eq!(report.failed, 3);
}

#[test]
fn report_of_no_task_is_empty() {
    let report = collect_outcomes(&Vec::new(), Vec::new()).unwrap();
    assert!(report.outcomes.is_empty());
    assert_eq!(report.succeeded, 0);
    assert_eq!(report.failed, 0);
}

#[test]
fn there_is_no_report_unless_each_task_has_a_result() {
    let tasks = downloads_tasks(3);
    assert_eq!(collect_outcomes(&tasks, vec![Ok(()), Ok(())]), None);
    assert_eq!(collect_outcomes(&tasks, vec![Ok(()), Ok(()), Ok(()), Ok(())]), None);
    assert_eq!(collect_outcomes(&tasks, Vec::new()), None);
    assert_eq!(collect_outcomes(&Vec::new(), vec![Ok(())]), None);
}
