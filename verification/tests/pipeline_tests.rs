use ottobangumi::cycle::{update_rss, Action, Cycle, Event, Phase, Reason, SETTLING_SECONDS};
use ottobangumi::database::Bangumi;
use ottobangumi::downloader::{DownloadFileEntry, DownloaderError};
use ottobangumi::mikan::mikan_rss::{RssBangumi, RssEpisode};
use ottobangumi::pipeline::{
    contains_text, holds_excluded, make_job, plan, should_skip, Job, Settings,
};
use ottobangumi::title_parser::{ParseError, ParseResult, TitleGrammar};

fn episode(title: &str, hash: &str) -> RssEpisode {
    let url = if hash.is_empty() {
        String::new()
    } else {
        format!("https://host/Download/2024/{}.torrent", hash)
    };
    RssEpisode {
        title: title.to_string(),
        link: "link".to_string(),
        description: "description".to_string(),
        torrent_url: url,
        torrent_hash: hash.to_string(),
    }
}

fn feed(items: Vec<RssEpisode>) -> RssBangumi {
    RssBangumi {
        title: "Name".to_string(),
        link: "l".to_string(),
        description: "d".to_string(),
        items,
    }
}

fn series_without(downloaded: &[&str], excluded: &[&str]) -> Bangumi {
    Bangumi {
        id: 42,
        title: "Series".to_string(),
        weekday: 1,
        poster_url: "p".to_string(),
        downloaded: downloaded.iter().map(|h| h.to_string()).collect(),
        rss_url: "r".to_string(),
        enabled: true,
        not_contains: excluded.iter().map(|w| w.to_string()).collect(),
    }
}

fn series(downloaded: &[&str]) -> Bangumi {
    series_without(downloaded, &[])
}

fn settings(users: &[u64]) -> Settings {
    Settings { tmp_dir: "tmp".to_string(), lib_dir: "/lib".to_string(), user_ids: users.to_vec() }
}

fn file(name: &str, size: u64) -> DownloadFileEntry {
    DownloadFileEntry { name: name.to_string(), size }
}

fn show(action: &Action) -> String {
    format!("{:?}", action)
}

fn expect(cycle: Cycle, event: Event, action: &str, phase: Phase) -> Cycle {
    let (cycle, got) = cycle.advance(event);
    assert_eq!(show(&got), action);
    assert_eq!(cycle.phase(), phase);
    cycle
}

#[test]
fn text_search_agrees_with_std() {
    let texts = ["", "a", "abc", "aab", "名字 720p", "[Tag] Name - 01"];
    let parts = ["", "a", "ab", "b", "720", "名字 ", "Name - 02", "abcd"];
    for text in texts {
        for part in parts {
            assert_eq!(contains_text(text, part), text.contains(part), "{:?} in {:?}", part, text);
        }
    }
}

#[test]
fn skip_rule() {
    let excluded = vec!["720".to_string(), "HEVC".to_string()];
    let fetched = vec!["h1".to_string()];
    assert!(holds_excluded("Name 720p", &excluded));
    assert!(!holds_excluded("Name 1080p", &excluded));
    assert!(!holds_excluded("Name", &vec![]));
    assert!(holds_excluded("Name", &vec!["".to_string()]));
    assert!(should_skip(&episode("Name 720p - 01", "h2"), &excluded, &fetched));
    assert!(should_skip(&episode("Name - 01", ""), &excluded, &fetched));
    assert!(should_skip(&episode("Name - 01", "h1"), &excluded, &fetched));
    assert!(!should_skip(&episode("Name - 01", "h2"), &excluded, &fetched));
}

#[test]
fn job_paths_and_names() {
    let parsed = ParseResult {
        title_zh: "x".to_string(),
        title_en: String::new(),
        title_jp: String::new(),
        season: 2,
        episode: 13,
        fansub: "Tag".to_string(),
    };
    let job = make_job(3, &episode("t", "abc"), &parsed, "Series", "tmp", "/lib");
    assert_eq!(
        job,
        Job {
            entry: 3,
            feed_hash: "abc".to_string(),
            torrent_url: "https://host/Download/2024/abc.torrent".to_string(),
            torrent_path: "tmp/abc.torrent".to_string(),
            save_dir: "/lib/Series/Season 2".to_string(),
            save_name: "Series S02E13".to_string(),
        }
    );
    let parsed = ParseResult { season: 12, episode: 123, ..parsed };
    let job = make_job(0, &episode("t", "abc"), &parsed, "名", "t/", "");
    assert_eq!(job.torrent_path, "t//abc.torrent");
    assert_eq!(job.save_dir, "/名/Season 12");
    assert_eq!(job.save_name, "名 S12E123");
}

#[test]
fn oldest_entry_is_planned_first() {
    let grammar = TitleGrammar::new().unwrap();
    let items = vec![
        episode("[Tag] Name - 03", "h3"),
        episode("[Tag] Name - 02", "h2"),
        episode("[Tag] Name - 01", "h1"),
    ];
    let (jobs, broken) = plan(&grammar, &series(&[]), "tmp", "/lib", &feed(items));
    assert_eq!(broken, None);
    let names: Vec<&str> = jobs.iter().map(|j| j.save_name.as_str()).collect();
    assert_eq!(names, vec!["Series S01E01", "Series S01E02", "Series S01E03"]);
    let entries: Vec<usize> = jobs.iter().map(|j| j.entry).collect();
    assert_eq!(entries, vec![2, 1, 0]);
}

#[test]
fn entries_fetched_excluded_or_without_hash_are_passed_over() {
    let grammar = TitleGrammar::new().unwrap();
    let items = vec![
        episode("[Tag] Name - 05", "h5"),
        episode("[Tag] Name - 04 720p", "h4"),
        episode("[Tag] Name - 03", ""),
        episode("[Tag] Name - 02", "h2"),
        episode("[Tag] Name - 02v2", "h2"),
        episode("[Tag] Name - 01", "h1"),
    ];
    let record = series_without(&["h1"], &["720p"]);
    let (jobs, broken) = plan(&grammar, &record, "tmp", "/lib", &feed(items));
    assert_eq!(broken, None);
    let hashes: Vec<&str> = jobs.iter().map(|j| j.feed_hash.as_str()).collect();
    assert_eq!(hashes, vec!["h2", "h5"]);
    let entries: Vec<usize> = jobs.iter().map(|j| j.entry).collect();
    assert_eq!(entries, vec![4, 0]);
}

#[test]
fn unreadable_title_ends_the_queue() {
    let grammar = TitleGrammar::new().unwrap();
    let items = vec![
        episode("[Tag] Name - 03", "h3"),
        episode("no marker", "h2"),
        episode("[Tag] Name - 01", "h1"),
        episode("unreadable but fetched", "h0"),
    ];
    let (jobs, broken) = plan(&grammar, &series(&["h0"]), "tmp", "/lib", &feed(items));
    assert_eq!(broken, Some(ParseError::InvalidInput));
    let hashes: Vec<&str> = jobs.iter().map(|j| j.feed_hash.as_str()).collect();
    assert_eq!(hashes, vec!["h1"]);
}

#[test]
fn replayed_entry_asks_nothing_of_the_engine() {
    let grammar = TitleGrammar::new().unwrap();
    let items = vec![episode("[Tag] Name - 01", "h1")];
    let cycle = update_rss(&grammar, &series(&["h1"]), &settings(&[1]), &feed(items));
    assert_eq!(cycle.job_count(), 0);
    let cycle = expect(cycle, Event::Start, "Finish", Phase::Finished);
    let cycle = expect(cycle, Event::Done, "Finish", Phase::Finished);
    assert!(cycle.is_over());
    assert_eq!(cycle.recorded_count(), 0);
}

#[test]
fn one_job_runs_step_by_step() {
    let grammar = TitleGrammar::new().unwrap();
    let items = vec![episode("[Tag] Name S02 - 07", "feedhash")];
    let cycle = update_rss(&grammar, &series(&[]), &settings(&[11, 22]), &feed(items));
    assert_eq!(cycle.phase(), Phase::Ready);
    assert_eq!(cycle.job_count(), 1);
    assert_eq!(cycle.job(0).unwrap().save_name, "Series S02E07");
    assert!(cycle.job(1).is_none());
    let cycle = expect(
        cycle,
        Event::Start,
        r#"Fetch { url: "https://host/Download/2024/feedhash.torrent", path: "tmp/feedhash.torrent" }"#,
        Phase::Fetching,
    );
    let cycle = expect(
        cycle,
        Event::Identified("jobid".to_string()),
        r#"Submit { path: "tmp/feedhash.torrent" }"#,
        Phase::Submitting,
    );
    let cycle = expect(
        cycle,
        Event::Done,
        &format!("Settle {{ seconds: {} }}", SETTLING_SECONDS),
        Phase::Settling,
    );
    let cycle = expect(
        cycle,
        Event::Done,
        r#"Relocate { job_id: "jobid", dir: "/lib/Series/Season 2" }"#,
        Phase::Relocating,
    );
    let cycle = expect(cycle, Event::Done, r#"ListFiles { job_id: "jobid" }"#, Phase::Listing);
    let files = vec![file("v.ass", 1), file("v.mkv", 9), file("w.txt", 2)];
    let cycle = expect(
        cycle,
        Event::Listed(files),
        r#"RenameFile { job_id: "jobid", path: "v.mkv", new_name: "Series S02E07.mkv" }"#,
        Phase::Renaming,
    );
    let cycle = expect(
        cycle,
        Event::Done,
        r#"RenameFile { job_id: "jobid", path: "v.ass", new_name: "Series S02E07.ass" }"#,
        Phase::Renaming,
    );
    let cycle = expect(
        cycle,
        Event::Done,
        r#"RenameJob { job_id: "jobid", name: "Series S02E07" }"#,
        Phase::Naming,
    );
    assert_eq!(cycle.recorded_count(), 0);
    let cycle = expect(
        cycle,
        Event::Done,
        r#"Record { series: 42, hash: "feedhash" }"#,
        Phase::Recording,
    );
    assert!(!cycle.has_recorded("feedhash"));
    let cycle = expect(
        cycle,
        Event::Done,
        r#"Notify { recipient: 11, text: "Series S02E07 updated." }"#,
        Phase::Notifying,
    );
    assert!(cycle.has_recorded("feedhash"));
    assert_eq!(cycle.position(), 0);
    let cycle = expect(
        cycle,
        Event::Done,
        r#"Notify { recipient: 22, text: "Series S02E07 updated." }"#,
        Phase::Notifying,
    );
    let cycle = expect(cycle, Event::Done, "Finish", Phase::Finished);
    assert_eq!(cycle.position(), 1);
    assert_eq!(cycle.recorded_count(), 1);
    assert!(cycle.is_over());
}

#[test]
fn jobs_follow_each_other_and_a_broken_queue_aborts_at_the_end() {
    let grammar = TitleGrammar::new().unwrap();
    let items = vec![
        episode("unreadable", "h3"),
        episode("[Tag] Name - 02", "h2"),
        episode("[Tag] Name - 01", "h1"),
    ];
    let mut cycle = update_rss(&grammar, &series(&[]), &settings(&[]), &feed(items));
    assert_eq!(cycle.job_count(), 2);
    let mut fetched: Vec<String> = Vec::new();
    let (next, mut action) = cycle.advance(Event::Start);
    cycle = next;
    let mut steps = 0;
    loop {
        steps += 1;
        assert!(steps < 100);
        let event = match &action {
            Action::Fetch { url, .. } => {
                fetched.push(url.clone());
                Event::Identified(format!("id{}", fetched.len()))
            }
            Action::ListFiles { .. } => Event::Listed(vec![file("a.mkv", 1)]),
            Action::Finish => break,
            Action::Abort(_) => break,
            _ => Event::Done,
        };
        let (next, following) = cycle.advance(event);
        cycle = next;
        action = following;
    }
    assert_eq!(
        fetched,
        vec![
            "https://host/Download/2024/h1.torrent".to_string(),
            "https://host/Download/2024/h2.torrent".to_string(),
        ]
    );
    assert!(matches!(action, Action::Abort(Reason::Title(ParseError::InvalidInput))));
    assert_eq!(cycle.phase(), Phase::Aborted);
    assert_eq!(cycle.position(), 2);
    assert!(cycle.has_recorded("h1"));
    assert!(cycle.has_recorded("h2"));
    assert!(!cycle.has_recorded("h3"));
}

#[test]
fn failure_outside_aborts_without_record() {
    let grammar = TitleGrammar::new().unwrap();
    let phases_before_failure = 9;
    for fail_at in 0..phases_before_failure {
        let items = vec![episode("[Tag] Name - 02", "h2"), episode("[Tag] Name - 01", "h1")];
        let mut cycle = update_rss(&grammar, &series(&[]), &settings(&[5]), &feed(items));
        let (next, mut action) = cycle.advance(Event::Start);
        cycle = next;
        for step in 0..=fail_at {
            let event = if step == fail_at {
                Event::Failed
            } else {
                match &action {
                    Action::Fetch { .. } => Event::Identified("id".to_string()),
                    Action::ListFiles { .. } => Event::Listed(vec![file("a.mkv", 1)]),
                    _ => Event::Done,
                }
            };
            let (next, following) = cycle.advance(event);
            cycle = next;
            action = following;
        }
        assert!(matches!(action, Action::Abort(Reason::Outside)), "step {}", fail_at);
        assert_eq!(cycle.phase(), Phase::Aborted);
        assert_eq!(cycle.position(), 0);
        assert_eq!(cycle.recorded_count(), if fail_at == 8 { 1 } else { 0 });
        let (cycle, action) = cycle.advance(Event::Done);
        assert!(matches!(action, Action::Abort(Reason::Unexpected)));
        assert_eq!(cycle.phase(), Phase::Aborted);
    }
}

#[test]
fn files_that_cannot_be_told_apart_abort() {
    let grammar = TitleGrammar::new().unwrap();
    let items = vec![episode("[Tag] Name - 01", "h1")];
    let cycle = update_rss(&grammar, &series(&[]), &settings(&[5]), &feed(items));
    let (cycle, _) = cycle.advance(Event::Start);
    let (cycle, _) = cycle.advance(Event::Identified("id".to_string()));
    let (cycle, _) = cycle.advance(Event::Done);
    let (cycle, _) = cycle.advance(Event::Done);
    let (cycle, action) = cycle.advance(Event::Done);
    assert!(matches!(action, Action::ListFiles { .. }));
    let (empty, action) = cycle.clone().advance(Event::Listed(vec![]));
    assert!(matches!(action, Action::Abort(Reason::Files(DownloaderError::NoFileToRename))));
    assert_eq!(empty.phase(), Phase::Aborted);
    let (unnamed, action) = cycle.advance(Event::Listed(vec![file("video", 1)]));
    match action {
        Action::Abort(Reason::Files(DownloaderError::FileNameError { name })) => {
            assert_eq!(name, "video")
        }
        other => panic!("{:?}", other),
    }
    assert_eq!(unnamed.recorded_count(), 0);
}

#[test]
fn event_that_answers_nothing_aborts() {
    let cycle = Cycle::new(1, vec![], vec![], None);
    let (cycle, action) = cycle.advance(Event::Done);
    assert!(matches!(action, Action::Abort(Reason::Unexpected)));
    assert_eq!(cycle.phase(), Phase::Aborted);
    let grammar = TitleGrammar::new().unwrap();
    let items = vec![episode("[Tag] Name - 01", "h1")];
    let cycle = update_rss(&grammar, &series(&[]), &settings(&[]), &feed(items));
    let (cycle, _) = cycle.advance(Event::Start);
    let (cycle, action) = cycle.advance(Event::Done);
    assert!(matches!(action, Action::Abort(Reason::Unexpected)));
    assert_eq!(cycle.phase(), Phase::Aborted);
}

#[test]
fn excluded_words_of_the_record_decide() {
    let grammar = TitleGrammar::new().unwrap();
    let items = || {
        vec![
            episode("[Tag] Name - 03", "h3"),
            episode("[Tag] Name - 02 left out", "h2"),
            episode("[Tag] Name - 01", "h1"),
        ]
    };
    let cycle = update_rss(&grammar, &series(&[]), &settings(&[]), &feed(items()));
    assert_eq!(cycle.job_count(), 3);
    let record = series_without(&[], &["HEVC", "left out"]);
    let cycle = update_rss(&grammar, &record, &settings(&[]), &feed(items()));
    assert_eq!(cycle.job_count(), 2);
    assert_eq!(cycle.job(0).unwrap().feed_hash, "h1");
    assert_eq!(cycle.job(1).unwrap().feed_hash, "h3");
    let record = series_without(&[], &[""]);
    let cycle = update_rss(&grammar, &record, &settings(&[]), &feed(items()));
    assert_eq!(cycle.job_count(), 0);
}
