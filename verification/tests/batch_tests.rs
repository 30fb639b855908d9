use pulsedcm::batch::{count_outcomes, jobs_handling, plan_batch, pool_size};
use pulsedcm::cli::{interpret_yes_no, CliCommand};

#[test]
fn pool_size_auto_is_min_of_capacity_and_files() {
    assert_eq!(pool_size(0, 10, 4), 4);
    assert_eq!(pool_size(0, 2, 8), 2);
    assert_eq!(pool_size(0, 0, 8), 0);
    assert_eq!(pool_size(3, 100, 1), 3);
}

#[test]
fn pool_size_never_zero_for_nonempty_batch() {
    for n in 1..6usize {
        assert!(pool_size(0, n, 1) >= 1);
        assert!(pool_size(0, n, 16) >= 1);
    }
}

#[test]
fn jobs_defaulting() {
    assert_eq!(jobs_handling(None, 5), 1);
    assert_eq!(jobs_handling(Some(2), 5), 2);
    let auto = jobs_handling(Some(0), 3);
    assert!(auto >= 1 && auto <= 3);
    assert_eq!(jobs_handling(Some(0), 1), 1);
}

#[test]
fn dry_batch_previews_first_and_writes_rest() {
    let files = vec!["a.dcm".to_string(), "b.dcm".to_string(), "c.dcm".to_string()];
    let plan = plan_batch(&files, true);
    assert_eq!(plan.preview, Some("a.dcm".to_string()));
    assert_eq!(plan.writes, vec!["b.dcm".to_string(), "c.dcm".to_string()]);
    assert!(!plan.writes.contains(&"a.dcm".to_string()));
}

#[test]
fn real_batch_writes_everything() {
    let files = vec!["a.dcm".to_string(), "b.dcm".to_string()];
    let plan = plan_batch(&files, false);
    assert_eq!(plan.preview, None);
    assert_eq!(plan.writes, files);
}

#[test]
fn dry_batch_of_nothing_previews_nothing() {
    let plan = plan_batch(&Vec::new(), true);
    assert_eq!(plan.preview, None);
    assert!(plan.writes.is_empty());
}

#[test]
fn one_corrupt_file_among_two_valid_ones() {
    let outcomes = vec![false, true, true];
    assert_eq!(count_outcomes(&outcomes), (2, 1));
    let reordered = vec![true, true, false];
    assert_eq!(count_outcomes(&reordered), (2, 1));
}

#[test]
fn confirmation_replies() {
    assert!(interpret_yes_no("y\n"));
    assert!(interpret_yes_no(" YES "));
    assert!(interpret_yes_no("Yes"));
    assert!(!interpret_yes_no("no"));
    assert!(!interpret_yes_no(""));
    assert!(!interpret_yes_no("yess"));
}

#[test]
fn cli_command_binds_jobs_from_request() {
    let files = vec!["a.dcm".to_string(), "b.dcm".to_string()];
    let cmd = CliCommand::new("root", files.clone(), false, None);
    assert_eq!(cmd.jobs, 1);
    assert_eq!(cmd.files, files);
    assert_eq!(cmd.path, "root");
    let cmd = CliCommand::new("root", files.clone(), true, Some(7));
    assert_eq!(cmd.jobs, 7);
    assert!(cmd.verbose);
    let cmd = CliCommand::new("root", files, false, Some(0));
    assert!(cmd.jobs >= 1 && cmd.jobs <= 2);
}
