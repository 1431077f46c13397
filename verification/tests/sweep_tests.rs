use rmolder::{Action, DirectoryEntry, DirectoryUnreadable, Mode, RmOlder, Sweep};

/// A directory that exists only in the test: removing a path takes it out,
/// unless the path is among those that refuse to go.
struct Disk {
    files: Vec<(String, u64)>,
    stuck: Vec<String>,
    shown: Vec<String>,
}

impl Disk {
    fn new(files: &[(&str, u64)]) -> Disk {
        Disk {
            files: files.iter().map(|(path, modified)| (path.to_string(), *modified)).collect(),
            stuck: Vec::new(),
            shown: Vec::new(),
        }
    }

    fn listing(&self) -> Result<Vec<DirectoryEntry>, DirectoryUnreadable> {
        Ok(self
            .files
            .iter()
            .map(|(path, modified)| DirectoryEntry::new(path.clone(), *modified))
            .collect())
    }

    fn remove(&mut self, path: &str) -> bool {
        if self.stuck.iter().any(|stuck| stuck == path) {
            return false;
        }
        let before = self.files.len();
        self.files.retain(|(name, _)| name != path);
        self.files.len() < before
    }

    fn names(&self) -> Vec<&str> {
        self.files.iter().map(|(path, _)| path.as_str()).collect()
    }

    fn carry_out(&mut self, sweep: Sweep) -> (usize, usize) {
        let mut sweep = sweep;
        loop {
            let done = match sweep.next_action() {
                Action::Remove(path) => {
                    let path = path.to_string();
                    self.remove(&path)
                }
                Action::Report(path) => {
                    self.shown.push(path.to_string());
                    true
                }
                Action::Finished(count, total) => return (count, total),
            };
            sweep = sweep.record(done);
        }
    }
}

const NOW: u64 = 1_000_000;

#[test]
fn run_deletes_the_old_file_and_keeps_the_young_one() {
    let mut disk = Disk::new(&[("a", NOW - 5000), ("b", NOW - 10)]);
    let rmolder = RmOlder::new(".", 100);
    let sweep = rmolder.inner_run(disk.listing(), NOW, Mode::Delete);
    assert_eq!(disk.carry_out(sweep), (1, 2));
    assert_eq!(disk.names(), vec!["b"]);
}

#[test]
fn run_keeps_a_file_that_is_exactly_as_old_as_the_limit() {
    let mut disk = Disk::new(&[("a", NOW - 100)]);
    let rmolder = RmOlder::new(".", 100);
    let sweep = rmolder.inner_run(disk.listing(), NOW, Mode::Delete);
    assert_eq!(disk.carry_out(sweep), (0, 1));
    assert_eq!(disk.names(), vec!["a"]);
}

#[test]
fn run_deletes_a_file_one_second_older_than_the_limit() {
    let mut disk = Disk::new(&[("a", NOW - 101)]);
    let rmolder = RmOlder::new(".", 100);
    let sweep = rmolder.inner_run(disk.listing(), NOW, Mode::Delete);
    assert_eq!(disk.carry_out(sweep), (1, 1));
    assert!(disk.names().is_empty());
}

#[test]
fn run_on_an_empty_directory_counts_nothing() {
    for limit in [0, 1, 100, u64::MAX] {
        let mut disk = Disk::new(&[]);
        let rmolder = RmOlder::new(".", limit);
        let sweep = rmolder.inner_run(disk.listing(), NOW, Mode::Delete);
        assert_eq!(disk.carry_out(sweep), (0, 0));
        let sweep = rmolder.run(disk.listing());
        assert_eq!(disk.carry_out(sweep), (0, 0));
    }
}

#[test]
fn run_on_an_unreadable_directory_counts_nothing() {
    let mut disk = Disk::new(&[]);
    let rmolder = RmOlder::new("./no-such-directory", 100);
    let sweep = rmolder.run(Err(DirectoryUnreadable));
    assert_eq!(disk.carry_out(sweep), (0, 0));
    let sweep = rmolder.dry_run(Err(DirectoryUnreadable));
    assert_eq!(disk.carry_out(sweep), (0, 0));
    assert!(disk.shown.is_empty());
}

#[test]
fn a_removal_that_fails_is_not_counted_and_stops_nothing() {
    let mut disk = Disk::new(&[("a", 1), ("b", 2), ("c", NOW), ("d", 3)]);
    disk.stuck.push(String::from("b"));
    let rmolder = RmOlder::new(".", 100);
    let sweep = rmolder.inner_run(disk.listing(), NOW, Mode::Delete);
    assert_eq!(disk.carry_out(sweep), (2, 4));
    assert_eq!(disk.names(), vec!["b", "c"]);
}

#[test]
fn every_removal_failing_gives_zero_deleted() {
    let mut disk = Disk::new(&[("a", 1), ("b", 2)]);
    disk.stuck.push(String::from("a"));
    disk.stuck.push(String::from("b"));
    let rmolder = RmOlder::new(".", 100);
    let sweep = rmolder.inner_run(disk.listing(), NOW, Mode::Delete);
    assert_eq!(disk.carry_out(sweep), (0, 2));
    assert_eq!(disk.names(), vec!["a", "b"]);
}

#[test]
fn dry_run_shows_the_old_files_and_removes_none() {
    let mut disk = Disk::new(&[("a", NOW - 5000), ("b", NOW - 10), ("c", NOW - 101)]);
    let rmolder = RmOlder::new(".", 100);
    let sweep = rmolder.inner_run(disk.listing(), NOW, Mode::Report);
    assert_eq!(sweep.mode(), Mode::Report);
    assert_eq!(disk.carry_out(sweep), (2, 3));
    assert_eq!(disk.names(), vec!["a", "b", "c"]);
    assert_eq!(disk.shown, vec!["a", "c"]);
}

#[test]
fn dry_run_counts_an_entry_whatever_is_recorded_for_it() {
    let disk = Disk::new(&[("a", 1), ("b", 2)]);
    let rmolder = RmOlder::new(".", 100);
    let mut sweep = rmolder.inner_run(disk.listing(), NOW, Mode::Report);
    assert!(matches!(sweep.next_action(), Action::Report("a")));
    sweep = sweep.record(false);
    assert!(matches!(sweep.next_action(), Action::Report("b")));
    sweep = sweep.record(true);
    assert!(matches!(sweep.next_action(), Action::Finished(2, 2)));
}

#[test]
fn dry_run_by_the_clock_never_asks_for_a_removal() {
    let mut disk = Disk::new(&[("ancient", 0), ("older", 1), ("unborn", u64::MAX)]);
    let rmolder = RmOlder::new(".", 3600);
    let mut sweep = rmolder.dry_run(disk.listing());
    assert_eq!(sweep.mode(), Mode::Report);
    let mut steps = 0;
    loop {
        match sweep.next_action() {
            Action::Remove(_) => panic!("a dry run asked for a removal"),
            Action::Report(_) => steps += 1,
            Action::Finished(count, total) => {
                assert_eq!((count, total), (2, 3));
                break;
            }
        }
        sweep = sweep.record(true);
    }
    assert_eq!(steps, 2);
    let sweep = rmolder.dry_run(disk.listing());
    assert_eq!(disk.carry_out(sweep), (2, 3));
    assert_eq!(disk.names().len(), 3);
}

#[test]
fn run_by_the_clock_asks_for_the_old_files_only() {
    let mut disk = Disk::new(&[("ancient", 0), ("unborn", u64::MAX), ("older", 1)]);
    let rmolder = RmOlder::new(".", 3600);
    let sweep = rmolder.run(disk.listing());
    assert_eq!(sweep.mode(), Mode::Delete);
    assert_eq!(disk.carry_out(sweep), (2, 3));
    assert_eq!(disk.names(), vec!["unborn"]);
}

#[test]
fn a_second_run_deletes_nothing() {
    let mut disk = Disk::new(&[("a", NOW - 5000), ("b", NOW - 10), ("c", NOW - 101)]);
    let rmolder = RmOlder::new(".", 100);
    let sweep = rmolder.inner_run(disk.listing(), NOW, Mode::Delete);
    assert_eq!(disk.carry_out(sweep), (2, 3));
    let sweep = rmolder.inner_run(disk.listing(), NOW, Mode::Delete);
    assert_eq!(disk.carry_out(sweep), (0, 1));
    assert_eq!(disk.names(), vec!["b"]);
}

#[test]
fn a_second_run_deletes_what_has_grown_too_old_meanwhile() {
    let mut disk = Disk::new(&[("a", NOW - 5000), ("b", NOW - 95)]);
    let rmolder = RmOlder::new(".", 100);
    let sweep = rmolder.inner_run(disk.listing(), NOW, Mode::Delete);
    assert_eq!(disk.carry_out(sweep), (1, 2));
    let sweep = rmolder.inner_run(disk.listing(), NOW + 10, Mode::Delete);
    assert_eq!(disk.carry_out(sweep), (1, 1));
    assert!(disk.names().is_empty());
}

#[test]
fn the_counts_are_in_order_whatever_the_outcomes() {
    let files = [("a", 1u64), ("b", NOW), ("c", 2), ("d", 3), ("e", NOW - 100)];
    for pattern in 0..8u32 {
        for mode in [Mode::Delete, Mode::Report] {
            let disk = Disk::new(&files);
            let rmolder = RmOlder::new(".", 100);
            let mut sweep = rmolder.inner_run(disk.listing(), NOW, mode);
            let mut step = 0;
            let mut expected = 0;
            let (count, total) = loop {
                match sweep.next_action() {
                    Action::Finished(count, total) => break (count, total),
                    _ => {}
                }
                let done = pattern & (1 << step) != 0;
                if done || mode == Mode::Report {
                    expected += 1;
                }
                sweep = sweep.record(done);
                step += 1;
            };
            assert_eq!(step, 3);
            assert_eq!(count, expected);
            assert_eq!(total, 5);
            assert!(count <= total);
        }
    }
}

#[test]
fn a_finished_sweep_stays_finished() {
    let disk = Disk::new(&[("a", 1)]);
    let rmolder = RmOlder::new(".", 100);
    let mut sweep = rmolder.inner_run(disk.listing(), NOW, Mode::Delete);
    assert!(matches!(sweep.next_action(), Action::Remove("a")));
    sweep = sweep.record(true);
    assert!(matches!(sweep.next_action(), Action::Finished(1, 1)));
    sweep = sweep.record(true);
    sweep = sweep.record(false);
    assert!(matches!(sweep.next_action(), Action::Finished(1, 1)));
}
