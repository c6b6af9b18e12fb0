use eustress_engine::moderation::{
    class_count, class_histogram, dedup_signals, hierarchy_depth, is_default_name, is_script_extension,
    is_skipped_directory, push_asset, push_string, script_head, script_language, start_capture_job,
    summarize_classes, script_entries, CaptureFrame, CaptureStep, ScriptFile, Signals, MAX_ASSET_NAMES,
    MAX_SCRIPT_BYTES_EACH, MAX_STRINGS,
};
use eustress_engine::signals::{scan_signals, url_cuts_are_clean};

fn strings(v: &[&str]) -> Vec<String> {
    v.iter().map(|s| s.to_string()).collect()
}

#[test]
fn default_names_are_recognized() {
    assert!(is_default_name("Part", "Part"));
    assert!(is_default_name("Part (12)", "Part"));
    assert!(is_default_name("MeshPart 3", "MeshPart"));
    assert!(is_default_name("", "Part"));
    assert!(!is_default_name("Harbor crane", "Part"));
    assert!(!is_default_name("Partition wall", "Part"));
}

#[test]
fn signals_find_links_contacts_and_phones_but_not_coordinates() {
    let mut s = Signals::new();
    let text = "join https://example.com/x?y=1 or discord.gg/abc12 mail me ann.lee+x@mail.example.org call +1 (520) 555-0142 at 12.5, 300.25, 7";
    assert!(url_cuts_are_clean(text));
    scan_signals(text, &mut s);
    assert_eq!(s.urls, vec!["https://example.com/x?y=1"]);
    assert_eq!(s.discord_invites, vec!["discord.gg/abc12"]);
    assert_eq!(s.emails, vec!["ann.lee+x@mail.example.org"]);
    assert_eq!(s.phones, vec!["+1 (520) 555-0142"]);
    let mut none = Signals::new();
    scan_signals("position 1234.5 6789.0 and hash 0123456789abcdef", &mut none);
    assert!(none.phones.is_empty());
    assert!(none.urls.is_empty());
}

#[test]
fn short_links_and_short_domains_are_not_signals() {
    let mut s = Signals::new();
    scan_signals("see http://a.b and x@y.c or bob@mail.org now, not al@mail.org.", &mut s);
    assert!(s.urls.is_empty());
    assert_eq!(s.emails, vec!["bob@mail.org"]);
}

#[test]
fn invites_match_in_any_case_and_are_capped() {
    let mut s = Signals::new();
    let long = format!("Discord.GG/{}", "a".repeat(80));
    scan_signals(&long, &mut s);
    assert_eq!(s.discord_invites.len(), 1);
    assert_eq!(s.discord_invites[0].chars().count(), 60);
    assert!(s.discord_invites[0].starts_with("Discord.GG/"));
}

#[test]
fn long_links_are_cut_at_two_hundred_bytes() {
    let mut s = Signals::new();
    let url = format!("https://{}", "x".repeat(300));
    scan_signals(&url, &mut s);
    assert_eq!(s.urls.len(), 1);
    assert_eq!(s.urls[0].len(), 200);
}

#[test]
fn a_cut_inside_a_character_is_detected() {
    let url = format!("https://{}é", "x".repeat(191));
    assert!(!url_cuts_are_clean(&url));
    let fine = format!("https://{}", "é".repeat(96));
    assert!(url_cuts_are_clean(&fine));
}

#[test]
fn phone_runs_need_a_separator_and_ten_to_fifteen_digits() {
    let mut s = Signals::new();
    scan_signals("520-555-0142 and 12-34 and 5205550142", &mut s);
    assert_eq!(s.phones, vec!["520-555-0142"]);
}

#[test]
fn signal_lists_keep_first_occurrences_up_to_fifty() {
    let mut s = Signals::new();
    s.urls = strings(&["a", "b", "a", "c", "b"]);
    for i in 0..60 {
        s.emails.push(format!("e{i}"));
    }
    dedup_signals(&mut s);
    assert_eq!(s.urls, vec!["a", "b", "c"]);
    assert_eq!(s.emails.len(), 50);
    assert_eq!(s.emails[49], "e49");
}

#[test]
fn visible_strings_are_trimmed_clipped_and_unique() {
    let mut out: Vec<String> = Vec::new();
    push_string(&mut out, "  Welcome  ");
    push_string(&mut out, "Welcome");
    push_string(&mut out, "   ");
    push_string(&mut out, &"y".repeat(300));
    assert_eq!(out.len(), 2);
    assert_eq!(out[0], "Welcome");
    assert_eq!(out[1].chars().count(), 240);
    let mut full: Vec<String> = (0..MAX_STRINGS).map(|i| format!("s{i}")).collect();
    push_string(&mut full, "new");
    assert_eq!(full.len(), MAX_STRINGS);
}

#[test]
fn asset_names_are_trimmed_and_unique() {
    let mut out: Vec<String> = Vec::new();
    push_asset(&mut out, " rbxasset://boom.ogg ");
    push_asset(&mut out, "rbxasset://boom.ogg");
    assert_eq!(out, vec!["rbxasset://boom.ogg"]);
    let mut full: Vec<String> = (0..MAX_ASSET_NAMES).map(|i| format!("a{i}")).collect();
    push_asset(&mut full, "more");
    assert_eq!(full.len(), MAX_ASSET_NAMES);
}

#[test]
fn histogram_orders_by_count_then_name() {
    let classes = strings(&["Part", "Model", "Part", "Sound", "Model", "Part", "Decal"]);
    let h = class_histogram(&classes);
    let view: Vec<(String, usize)> = h.iter().map(|c| (c.class_name.clone(), c.count)).collect();
    assert_eq!(
        view,
        vec![
            ("Part".to_string(), 3),
            ("Model".to_string(), 2),
            ("Decal".to_string(), 1),
            ("Sound".to_string(), 1)
        ]
    );
    assert_eq!(class_count(&h, "Sound"), 1);
    assert_eq!(class_count(&h, "SpawnLocation"), 0);
}

#[test]
fn summary_counts_before_the_cut() {
    let mut classes: Vec<String> = Vec::new();
    for i in 0..30 {
        classes.push(format!("Class{i:02}"));
    }
    classes.push("SpawnLocation".to_string());
    classes.push("SpawnLocation".to_string());
    let s = summarize_classes(&classes);
    assert_eq!(s.class_histogram.len(), 24);
    assert_eq!(s.spawn_count, 2);
    assert_eq!(s.class_histogram[0].class_name, "SpawnLocation");
    assert_eq!(s.sound_count, 0);
}

#[test]
fn hierarchy_depth_walks_to_the_root_and_caps_cycles() {
    assert_eq!(hierarchy_depth(&vec![]), 0);
    assert_eq!(hierarchy_depth(&vec![(2, 1), (3, 2), (4, 3)]), 3);
    assert_eq!(hierarchy_depth(&vec![(1, 2), (2, 1)]), 65);
}

#[test]
fn script_heads_are_cut_at_a_line_break() {
    let (head, cut) = script_head("line one\nline two\nline three", 12);
    assert_eq!(head, "line one");
    assert!(cut);
    let (whole, cut) = script_head("short", 12);
    assert_eq!(whole, "short");
    assert!(!cut);
    let (nobreak, _) = script_head("abcdefghijklmnop", 4);
    assert_eq!(nobreak, "abcd");
}

#[test]
fn script_files_and_skipped_directories() {
    assert_eq!(script_language("lua"), "luau");
    assert_eq!(script_language("rn"), "rune");
    assert!(is_script_extension("rune"));
    assert!(!is_script_extension("txt"));
    assert!(is_skipped_directory(".git"));
    assert!(!is_skipped_directory("Workspace"));
}

#[test]
fn capture_job_shoots_each_pose_once_then_finishes() {
    assert!(start_capture_job(0, true).is_none());
    assert!(start_capture_job(4, false).is_none());
    let mut job = start_capture_job(2, true).unwrap();
    assert_eq!(
        job.drive_publish_captures(false, None, true),
        CaptureFrame { landed: None, step: CaptureStep::Capture(0) }
    );
    assert_eq!(job.drive_publish_captures(false, None, true).step, CaptureStep::Wait);
    assert_eq!(job.drive_publish_captures(false, Some(100), true).step, CaptureStep::Wait);
    assert_eq!(
        job.drive_publish_captures(false, Some(100), true),
        CaptureFrame { landed: Some(0), step: CaptureStep::Capture(1) }
    );
    job.drive_publish_captures(false, Some(7), true);
    assert_eq!(
        job.drive_publish_captures(false, Some(7), true),
        CaptureFrame { landed: Some(1), step: CaptureStep::Finish }
    );
    let mut late = start_capture_job(3, true).unwrap();
    assert_eq!(late.drive_publish_captures(true, None, true).step, CaptureStep::Finish);
}

fn script(path: &str, ext: &str, source: &str) -> ScriptFile {
    ScriptFile { path: path.to_string(), extension: ext.to_string(), bytes: source.len(), source: source.to_string() }
}

#[test]
fn script_entries_count_lines_and_tag_languages() {
    let e = script_entries(vec![
        script("a.lua", "lua", "x\ny\n"),
        script("b.rn", "rn", "a\r\nb"),
        script("c.luau", "luau", ""),
        script("d.rune", "rune", "\n\n"),
    ]);
    assert_eq!(e.len(), 4);
    assert_eq!((e[0].path.as_str(), e[0].language.as_str(), e[0].lines, e[0].truncated), ("a.lua", "luau", 2, false));
    assert_eq!(e[0].source, "x\ny\n");
    assert_eq!((e[1].language.as_str(), e[1].lines), ("rune", 2));
    assert_eq!((e[2].language.as_str(), e[2].lines), ("luau", 0));
    assert_eq!(e[3].lines, 2);
}

#[test]
fn long_scripts_are_cut_at_a_line_break() {
    let long = format!("{}\n{}", "a".repeat(100), "b".repeat(MAX_SCRIPT_BYTES_EACH));
    let e = script_entries(vec![script("s.lua", "lua", &long)]);
    assert!(e[0].truncated);
    assert_eq!(e[0].source, "a".repeat(100));
    assert_eq!(e[0].bytes, long.len());
    assert_eq!(e[0].lines, 2);
}

#[test]
fn the_total_script_budget_stops_the_list() {
    let big = "a".repeat(MAX_SCRIPT_BYTES_EACH + 10);
    let files: Vec<ScriptFile> = (0..16).map(|i| script(&format!("{i:02}.rn"), "rn", &big)).collect();
    let e = script_entries(files);
    assert_eq!(e.len(), 14);
    assert_eq!(e[12].source.len(), MAX_SCRIPT_BYTES_EACH);
    assert_eq!(e[13].source.len(), 4096);
    assert!(e.iter().all(|s| s.truncated));
    let multibyte = "é".repeat(MAX_SCRIPT_BYTES_EACH);
    let wide: Vec<ScriptFile> = (0..20).map(|i| script(&format!("{i:02}.rn"), "rn", &multibyte)).collect();
    let w = script_entries(wide);
    assert_eq!(w.len(), 7);
    assert_eq!(w[6].source.chars().count(), MAX_SCRIPT_BYTES_EACH);
    assert!(!w[6].truncated);
}
