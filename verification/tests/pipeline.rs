use sarchive::archiver::{Archiver, Arrival};
use sarchive::destination::{resolve, ArchiveTarget};
use sarchive::orchestrator::plan_watchers;
use sarchive::period::{LocalDate, Period};
use sarchive::shard::SHARD_COUNT;
use sarchive::watcher::{FsNotice, NoticeKind, WatchAction, WatchInput};

#[test]
fn script_in_shard_four_is_archived_under_its_month() {
    let mut watchers = plan_watchers(&b"/spool".to_vec(), SHARD_COUNT);
    let mut archiver = Archiver::new(false);
    let mut emitted = Vec::new();
    for watcher in watchers.iter_mut() {
        watcher.step(WatchInput::ArmSucceeded);
        let notice = FsNotice {
            kind: NoticeKind::FileCreated,
            path: b"/spool/shard.4/42/script.sh".to_vec(),
        };
        if let WatchAction::Emit(event) = watcher.step(WatchInput::Notice { notice, seen_at: 1744000000 }) {
            emitted.push(event);
        }
    }
    assert_eq!(emitted.len(), 1);
    let event = emitted.pop().unwrap();
    assert_eq!(event.shard_id, 4);
    let accepted = archiver.step(Arrival::Event(event)).unwrap();
    let april = LocalDate::from_calendar(2025, 4, 9).unwrap();
    let target = resolve(&b"/archive".to_vec(), Period::Monthly, &april, &accepted.script_path);
    assert_eq!(
        target,
        Ok(ArchiveTarget {
            directory: b"/archive/202504".to_vec(),
            file: b"/archive/202504/script.sh".to_vec(),
            staging: b"/archive/202504/script.sh.part".to_vec(),
        })
    );
}
