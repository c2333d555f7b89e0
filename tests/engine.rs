use magma_mirror::channel::{
    catalog_url, ChannelAction, ChannelEvent, ChannelSync, Inventory, SyncError, Version as Channel,
};
use magma_mirror::fetch::{classify_response, is_not_found_body, SlotPool};
use magma_mirror::names::{folder_contains_file_name, get_name};
use magma_mirror::plan::{
    collect_prunes, download_link, matches_stale_record, plan_channel, split_versions, ArtifactKind,
    ChannelPlan,
};
use magma_mirror::versions::Version;

const NOT_FOUND: &[u8] = br#"{"message":"404 Project Not Found"}"#;

fn record(tag: &str) -> Version {
    Version::new(
        format!("Magma {}", tag),
        tag.to_string(),
        "2023-01-01T00:00:00Z".to_string(),
        format!("https://host/dl/{}/server/{}-server.jar", tag, tag),
        format!("https://host/dl/{}/installer/{}-installer.jar", tag, tag),
        format!("https://git/commit/{}", tag),
        false,
    )
}

fn shared_record(tag: &str) -> Version {
    let link = format!("https://host/dl/{}/{}.jar", tag, tag);
    Version::new(
        tag.to_string(),
        tag.to_string(),
        String::new(),
        link.clone(),
        link,
        String::new(),
        true,
    )
}

fn strings(names: &[&str]) -> Vec<String> {
    names.iter().map(|s| s.to_string()).collect()
}

fn server_name(tag: &str) -> String {
    format!("{}-server.jar", tag)
}

fn installer_name(tag: &str) -> String {
    format!("{}-installer.jar", tag)
}

fn download_names(plan: &ChannelPlan, kind: ArtifactKind) -> Vec<String> {
    plan.downloads.iter().filter(|t| t.kind == kind).map(|t| t.file_name.clone()).collect()
}

fn prune_names(plan: &ChannelPlan, kind: ArtifactKind) -> Vec<String> {
    plan.prunes.iter().filter(|t| t.kind == kind).map(|t| t.file_name.clone()).collect()
}

fn apply(names: &[String], plan: &ChannelPlan, kind: ArtifactKind) -> Vec<String> {
    let mut out: Vec<String> = names
        .iter()
        .filter(|n| !plan.prunes.iter().any(|p| p.kind == kind && &p.file_name == *n))
        .cloned()
        .collect();
    out.extend(download_names(plan, kind));
    out
}

#[test]
fn version_new_and_getters() {
    let v = Version::new(
        "n".to_string(),
        "t".to_string(),
        "c".to_string(),
        "l".to_string(),
        "i".to_string(),
        "g".to_string(),
        true,
    );
    assert_eq!(v.get_name(), "n");
    assert_eq!(v.get_tag_name(), "t");
    assert_eq!(v.get_created_at(), "c");
    assert_eq!(v.get_link(), "l");
    assert_eq!(v.get_installer_link(), "i");
    assert_eq!(v.get_git_commit_url(), "g");
    assert_eq!(*v.get_archived(), true);
}

#[test]
fn name_is_last_path_segment() {
    assert_eq!(get_name(&"https://host/a/b/file-1.jar".to_string()), "file-1.jar");
    assert_eq!(get_name(&"plain.jar".to_string()), "plain.jar");
    assert_eq!(get_name(&"https://host/dir/".to_string()), "");
    assert_eq!(get_name(&String::new()), "");
    assert_eq!(get_name(&"/x".to_string()), "x");
}

#[test]
fn folder_lookup_finds_first_match() {
    let folder = strings(&["a.jar", "b.jar", "b.jar"]);
    assert_eq!(folder_contains_file_name(&folder, &"b.jar".to_string()), Some(1));
    assert_eq!(folder_contains_file_name(&folder, &"a.jar".to_string()), Some(0));
    assert_eq!(folder_contains_file_name(&folder, &"c.jar".to_string()), None);
    assert_eq!(folder_contains_file_name(&Vec::new(), &"a.jar".to_string()), None);
}

#[test]
fn split_with_zero_cap_keeps_all() {
    let (keep, stale) = split_versions(vec![record("A"), record("B"), record("C")], 0);
    assert_eq!(keep.len(), 3);
    assert!(stale.is_empty());
}

#[test]
fn split_with_large_cap_keeps_all() {
    let (keep, stale) = split_versions(vec![record("A"), record("B")], 2);
    assert_eq!(keep.len(), 2);
    assert!(stale.is_empty());
    let (keep, stale) = split_versions(vec![record("A")], 5);
    assert_eq!(keep.len(), 1);
    assert!(stale.is_empty());
}

#[test]
fn split_is_a_prefix_partition() {
    let (keep, stale) = split_versions(vec![record("A"), record("B"), record("C"), record("D")], 2);
    let kept: Vec<&str> = keep.iter().map(|v| v.get_tag_name().as_str()).collect();
    let old: Vec<&str> = stale.iter().map(|v| v.get_tag_name().as_str()).collect();
    assert_eq!(kept, vec!["A", "B"]);
    assert_eq!(old, vec!["C", "D"]);
}

#[test]
fn split_of_empty_catalog() {
    let (keep, stale) = split_versions(Vec::new(), 3);
    assert!(keep.is_empty());
    assert!(stale.is_empty());
}

#[test]
fn fresh_directories_fetch_both_artifacts() {
    let plan = plan_channel(vec![record("A"), record("B")], 0, &Vec::new(), &Vec::new());
    assert_eq!(download_names(&plan, ArtifactKind::Server), vec![server_name("A"), server_name("B")]);
    assert_eq!(
        download_names(&plan, ArtifactKind::Installer),
        vec![installer_name("A"), installer_name("B")]
    );
    assert_eq!(plan.downloads[0].url, "https://host/dl/A/server/A-server.jar");
    assert_eq!(plan.downloads[1].url, "https://host/dl/A/installer/A-installer.jar");
    assert!(plan.prunes.is_empty());
}

#[test]
fn stale_present_and_kept_absent() {
    let server = strings(&["B-server.jar", "other.jar"]);
    let installer = strings(&["B-installer.jar"]);
    let plan = plan_channel(vec![record("A"), record("B")], 1, &server, &installer);
    assert_eq!(prune_names(&plan, ArtifactKind::Server), vec![server_name("B")]);
    assert_eq!(prune_names(&plan, ArtifactKind::Installer), vec![installer_name("B")]);
    assert_eq!(download_names(&plan, ArtifactKind::Server), vec![server_name("A")]);
    assert_eq!(download_names(&plan, ArtifactKind::Installer), vec![installer_name("A")]);
}

#[test]
fn cap_two_with_kept_files_on_disk_does_nothing() {
    let server = strings(&["A-server.jar", "B-server.jar"]);
    let installer = strings(&["A-installer.jar", "B-installer.jar"]);
    let catalog = vec![record("A"), record("B"), record("C"), record("D")];
    let plan = plan_channel(catalog, 2, &server, &installer);
    assert!(plan.downloads.is_empty());
    assert!(plan.prunes.is_empty());
}

#[test]
fn unrelated_file_is_left_untouched() {
    let server = strings(&["Z.jar"]);
    let installer = strings(&["Z.jar"]);
    let plan = plan_channel(vec![record("A"), record("B")], 2, &server, &installer);
    assert!(plan.prunes.is_empty());
    assert_eq!(plan.downloads.len(), 4);
    assert!(plan.downloads.iter().all(|t| t.file_name != "Z.jar"));
}

#[test]
fn unrelated_file_survives_pruning_of_stale_records() {
    let server = strings(&["Z.jar", "C-server.jar"]);
    let plan = plan_channel(vec![record("A"), record("B"), record("C")], 2, &server, &Vec::new());
    assert_eq!(prune_names(&plan, ArtifactKind::Server), vec![server_name("C")]);
}

#[test]
fn shared_url_gives_one_download() {
    let plan = plan_channel(vec![shared_record("S")], 0, &Vec::new(), &Vec::new());
    assert_eq!(plan.downloads.len(), 1);
    assert_eq!(plan.downloads[0].kind, ArtifactKind::Server);
    assert_eq!(plan.downloads[0].file_name, "S.jar");
    let present = strings(&["S.jar"]);
    let plan = plan_channel(vec![shared_record("S")], 0, &present, &Vec::new());
    assert!(plan.downloads.is_empty());
}

#[test]
fn second_run_issues_nothing() {
    let server = strings(&["C-server.jar", "A-server.jar", "junk.txt"]);
    let installer = strings(&["D-installer.jar"]);
    let catalog = || vec![record("A"), shared_record("B"), record("C"), record("D")];
    let first = plan_channel(catalog(), 2, &server, &installer);
    assert!(!first.downloads.is_empty());
    assert!(!first.prunes.is_empty());
    let server2 = apply(&server, &first, ArtifactKind::Server);
    let installer2 = apply(&installer, &first, ArtifactKind::Installer);
    let second = plan_channel(catalog(), 2, &server2, &installer2);
    assert!(second.downloads.is_empty());
    assert!(second.prunes.is_empty());
}

#[test]
fn download_link_skips_present_file() {
    let mut tasks = Vec::new();
    let folder = strings(&["x.jar"]);
    download_link(&folder, ArtifactKind::Server, &"https://h/x.jar".to_string(), &mut tasks);
    assert!(tasks.is_empty());
    download_link(&folder, ArtifactKind::Installer, &"https://h/y.jar".to_string(), &mut tasks);
    assert_eq!(tasks.len(), 1);
    assert_eq!(tasks[0].url, "https://h/y.jar");
    assert_eq!(tasks[0].file_name, "y.jar");
    assert_eq!(tasks[0].kind, ArtifactKind::Installer);
}

#[test]
fn stale_matching_by_kind() {
    let stale = vec![record("C")];
    assert!(matches_stale_record(&stale, ArtifactKind::Server, &server_name("C")));
    assert!(!matches_stale_record(&stale, ArtifactKind::Server, &installer_name("C")));
    assert!(matches_stale_record(&stale, ArtifactKind::Installer, &installer_name("C")));
    let mut prunes = Vec::new();
    collect_prunes(&strings(&["C-server.jar", "A-server.jar"]), &stale, ArtifactKind::Server, &mut prunes);
    assert_eq!(prunes.len(), 1);
    assert_eq!(prunes[0].file_name, "C-server.jar");
}

#[test]
fn ok_response_keeps_body() {
    assert_eq!(classify_response(200, b"abc".to_vec()), Some(b"abc".to_vec()));
    assert_eq!(classify_response(200, NOT_FOUND.to_vec()), Some(NOT_FOUND.to_vec()));
    assert_eq!(classify_response(200, Vec::new()), Some(Vec::new()));
}

#[test]
fn sentinel_not_found_is_empty_success() {
    assert_eq!(classify_response(404, NOT_FOUND.to_vec()), Some(Vec::new()));
    assert!(is_not_found_body(NOT_FOUND));
}

#[test]
fn other_failures_are_retried() {
    assert_eq!(classify_response(404, b"not here".to_vec()), None);
    assert_eq!(classify_response(404, Vec::new()), None);
    let mut longer = NOT_FOUND.to_vec();
    longer.push(b'\n');
    assert_eq!(classify_response(404, longer.clone()), None);
    assert!(!is_not_found_body(&longer));
    assert_eq!(classify_response(500, NOT_FOUND.to_vec()), None);
    assert_eq!(classify_response(429, b"slow down".to_vec()), None);
    assert_eq!(classify_response(302, Vec::new()), None);
}

#[test]
fn slot_pool_admits_up_to_capacity() {
    let mut pool = SlotPool::new(2);
    assert_eq!(pool.capacity(), 2);
    assert!(pool.try_acquire());
    assert!(pool.try_acquire());
    assert!(!pool.try_acquire());
    assert_eq!(pool.in_flight(), 2);
    assert!(pool.release());
    assert_eq!(pool.in_flight(), 1);
    assert!(pool.try_acquire());
    assert!(pool.release());
    assert!(pool.release());
    assert!(!pool.release());
    assert_eq!(pool.in_flight(), 0);
}

#[test]
fn slot_pool_bound_holds_over_interleavings() {
    let mut pool = SlotPool::new(5);
    let mut held = 0usize;
    let mut peak = 0usize;
    let mut seed: u32 = 12345;
    for _ in 0..1000 {
        seed = seed.wrapping_mul(1103515245).wrapping_add(12345);
        if (seed >> 16) % 3 != 0 {
            if pool.try_acquire() {
                held += 1;
            }
        } else if pool.release() {
            held -= 1;
        }
        assert_eq!(pool.in_flight(), held);
        assert!(pool.in_flight() <= 5);
        peak = peak.max(held);
    }
    assert_eq!(peak, 5);
}

#[test]
fn channel_labels_and_urls() {
    assert_eq!(Channel::V1_12_2.to_string(), "1.12.2");
    assert_eq!(Channel::V1_16_5.to_string(), "1.16.5");
    assert_eq!(Channel::V1_18_2.to_string(), "1.18.2");
    assert_eq!(Channel::V1_19_3.to_string(), "1.19.3");
    assert_eq!(Channel::V1_20_1.to_string(), "1.20.1");
    assert_eq!(catalog_url(Channel::V1_20_1), "https://api.magmafoundation.org/api/v2/1.20.1");
}

#[test]
fn channel_run_to_completion() {
    let (mut sync, action) = ChannelSync::new(1);
    assert!(matches!(action, ChannelAction::FetchCatalog));
    let action = sync.handle(ChannelEvent::Catalog(Ok(vec![record("A"), record("B")])));
    assert!(matches!(action, ChannelAction::ScanInventory));
    let inventory = Inventory { server: strings(&["B-server.jar"]), installer: Vec::new() };
    match sync.handle(ChannelEvent::Inventory(Ok(inventory))) {
        ChannelAction::RunTasks(plan) => {
            assert_eq!(plan.downloads.len(), 2);
            assert_eq!(prune_names(&plan, ArtifactKind::Server), vec![server_name("B")]);
        }
        _ => panic!("expected tasks"),
    }
    assert!(!sync.is_done());
    let action = sync.handle(ChannelEvent::TasksFinished(3));
    assert!(matches!(action, ChannelAction::Finished(Ok(()))));
    assert!(sync.is_done());
}

#[test]
fn malformed_catalog_fails_channel_only() {
    let (mut broken, _) = ChannelSync::new(2);
    let (mut healthy, _) = ChannelSync::new(2);
    let action = broken.handle(ChannelEvent::Catalog(Err(SyncError::Decode)));
    assert!(matches!(action, ChannelAction::Finished(Err(SyncError::Decode))));
    assert!(broken.is_done());
    let late = Inventory { server: Vec::new(), installer: Vec::new() };
    assert!(matches!(broken.handle(ChannelEvent::Inventory(Ok(late))), ChannelAction::Ignored));
    let action = healthy.handle(ChannelEvent::Catalog(Ok(vec![record("A")])));
    assert!(matches!(action, ChannelAction::ScanInventory));
    let inventory = Inventory { server: Vec::new(), installer: Vec::new() };
    assert!(matches!(
        healthy.handle(ChannelEvent::Inventory(Ok(inventory))),
        ChannelAction::RunTasks(_)
    ));
    assert!(matches!(healthy.handle(ChannelEvent::TasksFinished(0)), ChannelAction::Finished(Ok(()))));
}

#[test]
fn transport_and_directory_failures_end_the_run() {
    let (mut sync, _) = ChannelSync::new(0);
    assert!(matches!(
        sync.handle(ChannelEvent::Catalog(Err(SyncError::Transport))),
        ChannelAction::Finished(Err(SyncError::Transport))
    ));
    let (mut sync, _) = ChannelSync::new(0);
    sync.handle(ChannelEvent::Catalog(Ok(Vec::new())));
    assert!(matches!(
        sync.handle(ChannelEvent::Inventory(Err(SyncError::Io))),
        ChannelAction::Finished(Err(SyncError::Io))
    ));
    assert!(sync.is_done());
}

#[test]
fn out_of_order_event_is_ignored() {
    let (mut sync, _) = ChannelSync::new(0);
    assert!(matches!(sync.handle(ChannelEvent::TasksFinished(0)), ChannelAction::Ignored));
    assert!(matches!(sync.handle(ChannelEvent::Catalog(Ok(Vec::new()))), ChannelAction::ScanInventory));
}
