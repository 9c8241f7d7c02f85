use ludownloader::observer::DownloadObserver;
use ludownloader::state::State;

#[test]
fn track_and_get_state() {
    let mut observer = DownloadObserver::new();
    observer.track(1, State::Paused(0));
    assert!(matches!(observer.get_state(1), Some(State::Paused(0))));
    assert!(observer.get_state(2).is_none());
}

#[test]
fn bulk_state_snapshot() {
    let mut observer = DownloadObserver::new();
    for id in 0..20u128 {
        observer.track(id, State::Paused(0));
    }
    let all = observer.get_state_all();
    assert_eq!(all.len(), 20);
    for (_, state) in &all {
        assert!(matches!(state, State::Paused(0)));
    }
    let read = observer.read_state();
    assert_eq!(read.len(), 20);
}

#[test]
fn batch_overwrites_tracked_ids() {
    let mut observer = DownloadObserver::new();
    observer.track(1, State::Paused(0));
    observer.track(2, State::Paused(0));
    let batch = vec![
        (
            1,
            State::Running {
                bytes_downloaded: 10,
                bytes_per_second: 5,
            },
        ),
        (2, State::Complete),
    ];
    observer.update(&batch);
    assert!(matches!(
        observer.get_state(1),
        Some(State::Running {
            bytes_downloaded: 10,
            bytes_per_second: 5
        })
    ));
    assert!(matches!(observer.get_state(2), Some(State::Complete)));
}

#[test]
fn batch_last_writer_wins() {
    let mut observer = DownloadObserver::new();
    observer.track(1, State::Paused(0));
    let batch = vec![
        (
            1,
            State::Running {
                bytes_downloaded: 10,
                bytes_per_second: 5,
            },
        ),
        (1, State::Paused(10)),
    ];
    observer.update(&batch);
    assert!(matches!(observer.get_state(1), Some(State::Paused(10))));
}

#[test]
fn untracked_update_is_dropped() {
    let mut observer = DownloadObserver::new();
    observer.track(1, State::Paused(0));
    let batch = vec![(9, State::Complete)];
    observer.update(&batch);
    assert!(observer.get_state(9).is_none());
    assert!(matches!(observer.get_state(1), Some(State::Paused(0))));
}

#[test]
fn deleted_id_never_reinstalled() {
    let mut observer = DownloadObserver::new();
    observer.track(1, State::Paused(0));
    observer.untrack(1);
    let batch = vec![
        (
            1,
            State::Running {
                bytes_downloaded: 10,
                bytes_per_second: 5,
            },
        ),
        (1, State::Complete),
    ];
    observer.update(&batch);
    assert!(observer.get_state(1).is_none());
    assert_eq!(observer.get_state_all().len(), 0);
}
