use soksak_kit_sidecar_terminal::checkpoint::{
    claimed_generation, commit, committed_position, key_from_base64, ownership,
    write_claimed_generation, CheckpointError, CheckpointErrorKind, CheckpointStore, Commit,
    OpenedCheckpoint, Ownership, StoredPane,
};

fn key() -> [u8; 32] {
    [0x42; 32]
}

struct Pane<'a> {
    store: &'a CheckpointStore,
    window: &'a str,
    pane: &'a str,
    stored: StoredPane,
}

impl<'a> Pane<'a> {
    fn new(store: &'a CheckpointStore, window: &'a str, pane: &'a str) -> Self {
        Self { store, window, pane, stored: StoredPane { record: None, file: None } }
    }
    fn claim_generation(&mut self, generation: u64) {
        self.store
            .claim_generation(self.window, self.pane, generation, &mut self.stored)
            .unwrap();
    }
    fn write(&mut self, generation: u64, sequence: u64, paint: &[u8]) -> Result<(), CheckpointError> {
        self.store.write(self.window, self.pane, generation, sequence, paint, &mut self.stored)
    }
    fn read(&self) -> Result<OpenedCheckpoint, CheckpointError> {
        Ok(self.store.read(self.window, self.pane, &self.stored)?.expect("a checkpoint"))
    }
    fn remove(&mut self) -> bool {
        self.store.remove(self.window, self.pane, &mut self.stored).unwrap()
    }
}

fn store() -> CheckpointStore {
    CheckpointStore::new("/home", "soksak-sidecar-terminal-test", key()).unwrap()
}

#[test]
fn checkpoint_round_trip_never_writes_plaintext() {
    let store = store();
    let mut pane = Pane::new(&store, "window-a", "pane-a");
    pane.claim_generation(7);
    pane.write(7, 41, b"VISIBLE-SECRET-SCREEN").unwrap();
    let disk = pane.stored.file.as_ref().unwrap();
    assert!(!disk
        .windows(21)
        .any(|bytes| bytes == b"VISIBLE-SECRET-SCREEN"));
    let opened = pane.read().unwrap();
    assert_eq!(opened.generation, 7);
    assert_eq!(opened.sequence, 41);
    assert_eq!(opened.payload, b"VISIBLE-SECRET-SCREEN");
}

#[test]
fn corrupt_checkpoint_is_isolated_and_rejected() {
    let store = store();
    let mut first = Pane::new(&store, "window-a", "pane-a");
    let mut second = Pane::new(&store, "window-a", "pane-b");
    first.claim_generation(1);
    second.claim_generation(1);
    first.write(1, 2, b"screen-a").unwrap();
    second.write(1, 3, b"screen-b").unwrap();
    let disk = first.stored.file.as_mut().unwrap();
    let last = disk.len() - 1;
    disk[last] ^= 1;
    assert_eq!(first.read().unwrap_err(), CheckpointError::AuthenticationFailed);
    assert_eq!(second.read().unwrap().payload, b"screen-b");
}

#[test]
fn path_coordinates_cannot_escape_the_provider_directory() {
    let store = store();
    assert!(store.path("../window", "pane").is_err());
    assert!(store.path("window", "pane/child").is_err());
}

#[test]
fn key_environment_requires_exact_base64_key_material() {
    assert!(key_from_base64("not-base64").is_err());
    assert!(key_from_base64("c2hvcnQ=").is_err());
    let encoded = base64::Engine::encode(&base64::engine::general_purpose::STANDARD, [7u8; 32]);
    assert_eq!(key_from_base64(&encoded).unwrap(), [7u8; 32]);
}

#[test]
fn older_checkpoint_cannot_replace_a_newer_commit() {
    let store = store();
    let mut pane = Pane::new(&store, "window-a", "pane-a");
    pane.claim_generation(8);
    pane.write(8, 3, b"new-generation").unwrap();
    let stale = pane.write(7, 900, b"old-generation").unwrap_err();
    assert_eq!(stale.kind(), CheckpointErrorKind::PermissionDenied);
    pane.write(8, 2, b"old-sequence").unwrap();

    let opened = pane.read().unwrap();
    assert_eq!((opened.generation, opened.sequence), (8, 3));
    assert_eq!(opened.payload, b"new-generation");
}

#[test]
fn a_new_generation_is_selected_by_ownership_not_numeric_magnitude() {
    let store = store();
    let mut pane = Pane::new(&store, "window-a", "pane-a");
    pane.claim_generation(u64::MAX - 1);
    pane.write(u64::MAX - 1, 10, b"old-owner").unwrap();
    pane.claim_generation(7);
    pane.write(7, 1, b"new-owner").unwrap();
    let stale = pane.write(u64::MAX - 1, 11, b"late-old-owner").unwrap_err();
    assert_eq!(stale.kind(), CheckpointErrorKind::PermissionDenied);

    let opened = pane.read().unwrap();
    assert_eq!((opened.generation, opened.sequence), (7, 1));
    assert_eq!(opened.payload, b"new-owner");
}

#[test]
fn concurrent_checkpoint_commits_do_not_collide_or_regress() {
    const WRITERS: usize = 16;
    let store = store();
    let mut pane = Pane::new(&store, "window-a", "pane-a");
    pane.claim_generation(9);
    // The lock of a pane puts its writers in some order: here the odd ones first, each way around.
    let order = (0..WRITERS).filter(|n| n % 2 == 1).chain((0..WRITERS).rev());
    for sequence in order {
        let paint = vec![sequence as u8; 256 * 1024];
        pane.write(9, sequence as u64, &paint).unwrap();
    }
    let opened = pane.read().unwrap();
    assert_eq!(opened.sequence, (WRITERS - 1) as u64);
    assert_eq!(opened.payload[0], (WRITERS - 1) as u8);
}

#[test]
fn a_file_has_its_header() {
    let store = store();
    let file = store.seal_with("w", "p", 1, 2, [9; 12], b"hello").unwrap();
    assert_eq!(&file[..9], b"SKTERM01\x02");
    assert_eq!(&file[9..17], &1u64.to_be_bytes());
    assert_eq!(&file[17..25], &2u64.to_be_bytes());
    assert_eq!(&file[25..37], &[9; 12]);
    assert_eq!(file.len(), 37 + 5 + 16);
    assert_eq!(committed_position(Some(&file)), Some((1, 2)));
    assert_eq!(committed_position(Some(&file[..36])), None);
    assert_eq!(committed_position(None), None);
    assert_eq!(store.open("w", "p", b"short").unwrap_err(), CheckpointError::InvalidHeader);
    assert_eq!(
        store.open("w", "other", &file).unwrap_err(),
        CheckpointError::AuthenticationFailed,
        "a file is bound to its pane"
    );
    let other = CheckpointStore::new("/home", "soksak-sidecar-terminal-test", [1; 32]).unwrap();
    assert_eq!(other.open("w", "p", &file).unwrap_err(), CheckpointError::AuthenticationFailed);
    assert_ne!(
        store.seal("w", "p", 1, 2, b"hello").unwrap(),
        store.seal("w", "p", 1, 2, b"hello").unwrap(),
        "every file has a nonce of its own"
    );
}

#[test]
fn paths_are_digests_below_the_provider() {
    let store = store();
    // SHA-256 of "w", a zero byte and "p".
    let digest = "0a7574f6287906775c1f73de338af66f8a960ff8fa5ef6fca3cf70934048af09";
    let path = store.path("w", "p").unwrap();
    let directory = "/home/terminal-checkpoints/soksak-sidecar-terminal-test/";
    assert_eq!(path, format!("{directory}{digest}.checkpoint"));
    let locks = "/home/terminal-checkpoint-locks/soksak-sidecar-terminal-test/";
    assert_eq!(store.lock_path("w", "p").unwrap(), format!("{locks}{digest}.lock"));
    // SHA-256 of "abc".
    let content = "ba7816bf8f01cfea414140de5dae2223b00361a396177a9cb410ff61f20015ad";
    assert_eq!(
        store.temporary_path("w", "p", b"abc").unwrap(),
        format!("{directory}.{digest}.checkpoint.{content}.tmp")
    );
    assert_ne!(path, store.path("w", "q").unwrap());
    assert_eq!(store.directory(), "/home/terminal-checkpoints/soksak-sidecar-terminal-test");
    assert_eq!(
        store.lock_directory(),
        "/home/terminal-checkpoint-locks/soksak-sidecar-terminal-test"
    );
}

#[test]
fn owners_read_back() {
    assert_eq!(claimed_generation(&write_claimed_generation(Some(7))), Ok(Some(7)));
    assert_eq!(claimed_generation(&write_claimed_generation(None)), Ok(None));
    assert_eq!(claimed_generation(&[1, 2, 3]), Err(CheckpointError::InvalidOwner));
    assert_eq!(commit(Some(&[1]), None, 1, 1), Err(CheckpointError::InvalidOwner));
    let owned = write_claimed_generation(Some(2));
    assert_eq!(commit(Some(&owned), None, 1, 1), Err(CheckpointError::NotOwner));
    assert_eq!(commit(Some(&owned), None, 2, 1), Ok(Commit::Replace));
    assert_eq!(commit(Some(&[]), None, 1, 1), Err(CheckpointError::NotOwner));
    assert_eq!(ownership(Some(&owned)), Ok(Ownership::Generation(2)));
    assert_eq!(ownership(Some(&[])), Ok(Ownership::Nobody));
    assert_eq!(ownership(None), Ok(Ownership::Unrecorded));
    assert_eq!(ownership(Some(&[1])), Err(CheckpointError::InvalidOwner));
}

#[test]
fn every_error_says_what_it_is() {
    let messages = [
        (key_from_base64("!").unwrap_err(), "checkpoint key is not base64"),
        (key_from_base64("c2hvcnQ=").unwrap_err(), "checkpoint key has 5 bytes, expected 32"),
        (
            CheckpointStore::new("/home", "Not Valid", key()).err().unwrap(),
            "invalid provider name",
        ),
        (store().path("", "p").unwrap_err(), "invalid checkpoint coordinate"),
        (store().seal("w", "a\\b", 1, 1, b"").unwrap_err(), "invalid checkpoint coordinate"),
        (CheckpointError::Random("no source".into()), "no source"),
        (CheckpointError::EncryptionFailed, "checkpoint encryption failed"),
        (CheckpointError::InvalidHeader, "invalid checkpoint header"),
        (CheckpointError::AuthenticationFailed, "checkpoint authentication failed"),
        (CheckpointError::InvalidOwner, "invalid checkpoint generation owner"),
        (CheckpointError::NotOwner, "checkpoint generation does not own this pane"),
    ];
    for (error, message) in messages {
        assert_eq!(error.message(), message);
    }
}

#[test]
fn a_pane_without_a_record_takes_its_first_commit() {
    let store = store();
    let mut pane = Pane::new(&store, "window-a", "pane-a");
    pane.write(4, 20, b"first").unwrap();
    assert_eq!(pane.read().unwrap().payload, b"first");
    assert_eq!(pane.stored.record, Some(Vec::new()), "from now on there is a record");
    assert_eq!(pane.write(4, 21, b"later").unwrap_err(), CheckpointError::NotOwner);
    assert_eq!(pane.read().unwrap().payload, b"first");
    pane.claim_generation(4);
    pane.write(4, 21, b"later").unwrap();
    assert_eq!(pane.read().unwrap().payload, b"later");

    let file = store.seal("w", "p", 4, 20, b"").unwrap();
    assert_eq!(commit(None, None, 4, 20), Ok(Commit::Replace));
    assert_eq!(commit(None, Some(&file), 4, 20), Ok(Commit::Keep));
    assert_eq!(commit(None, Some(&file), 3, 900), Ok(Commit::Keep));
    assert_eq!(commit(None, Some(&file), 4, 21), Ok(Commit::Replace));
    assert_eq!(commit(None, Some(&file), 5, 0), Ok(Commit::Replace));
}

#[test]
fn a_retired_pane_takes_nothing_until_it_is_claimed() {
    let store = store();
    let mut pane = Pane::new(&store, "window-a", "pane-a");
    pane.claim_generation(4);
    pane.write(4, 20, b"archive").unwrap();
    assert!(pane.remove());
    assert_eq!(pane.write(4, 21, b"late").unwrap_err(), CheckpointError::NotOwner);
    assert_eq!(pane.write(5, 0, b"other").unwrap_err(), CheckpointError::NotOwner);
    assert_eq!(store.read("window-a", "pane-a", &pane.stored), Ok(None));
    assert!(!pane.remove(), "there is nothing left to remove");
    pane.claim_generation(4);
    pane.write(4, 1, b"again").unwrap();
    assert_eq!(pane.read().unwrap().payload, b"again");
}

#[test]
fn a_pane_that_was_never_written_reads_as_nothing() {
    let store = store();
    let mut stored = StoredPane { record: None, file: None };
    assert_eq!(store.read("w", "p", &stored), Ok(None));
    let refused = CheckpointError::InvalidCoordinate;
    assert_eq!(store.read("", "p", &stored).unwrap_err(), refused);
    assert_eq!(store.claim_generation("w", "", 1, &mut stored).unwrap_err(), refused);
    assert_eq!(store.write("w", "", 1, 1, b"", &mut stored).unwrap_err(), refused);
    assert_eq!(store.remove("w/x", "p", &mut stored).unwrap_err(), refused);
    assert_eq!(stored, StoredPane { record: None, file: None });
}

#[test]
fn a_changed_tag_is_refused() {
    let store = store();
    let file = store.seal_with("w", "p", 1, 2, [9; 12], b"hello").unwrap();
    assert_eq!(store.open("w", "p", &file).unwrap().payload, b"hello");
    for at in file.len() - 16..file.len() {
        let mut changed = file.clone();
        changed[at] ^= 0x80;
        assert_eq!(
            store.open("w", "p", &changed).unwrap_err(),
            CheckpointError::AuthenticationFailed
        );
    }
}
