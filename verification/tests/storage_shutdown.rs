use meta_service::errors::MetaError;
use meta_service::errors::ShutdownError;
use meta_service::shutdown::ShutdownSupervisor;
use meta_service::storage::Slot;
use meta_service::storage::Store;

#[test]
fn create_over_another_store_names_it() {
    assert_eq!(Store::create(Slot::Holds(7), 8), Err(MetaError::MetaStoreAlreadyExists(7)));
}

#[test]
fn open_on_empty_path_is_not_found() {
    assert_eq!(Store::open(Slot::Empty), Err(MetaError::MetaStoreNotFound));
}

#[test]
fn create_on_empty_path_and_open_after() {
    let s = Store::create(Slot::Empty, 8).unwrap();
    assert_eq!(s.id(), 8);
    assert_eq!(Store::open(Slot::Holds(8)), Ok(Store { id: 8 }));
    assert_eq!(Store::create(Slot::Holds(8), 8), Ok(Store { id: 8 }));
}

#[test]
fn unreadable_store_is_damaged() {
    assert_eq!(
        Store::open(Slot::Unreadable),
        Err(MetaError::MetaStoreDamaged("the store at this path cannot be read".to_string()))
    );
    assert!(matches!(Store::create(Slot::Unreadable, 1), Err(MetaError::MetaStoreDamaged(_))));
}

#[test]
fn supervisor_starts_open() {
    let s = ShutdownSupervisor::new();
    assert!(s.accepts_writes());
    assert!(s.accepts_reads());
}

#[test]
fn unsafe_storage_stops_writes_for_good() {
    let mut s = ShutdownSupervisor::new();
    s.on_unsafe_storage(ShutdownError::UnsafeStorageError, true);
    assert!(!s.accepts_writes());
    assert!(s.accepts_reads());
    s.on_unsafe_storage(ShutdownError::UnsafeStorageError, false);
    assert!(!s.accepts_writes());
    assert!(!s.accepts_reads());
    s.on_unsafe_storage(ShutdownError::UnsafeStorageError, true);
    assert!(!s.accepts_writes());
    assert!(!s.accepts_reads());
}
