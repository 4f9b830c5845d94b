//! Encrypted checkpoints of a terminal.
//!
//! A checkpoint file is a header, a nonce and a ciphertext. It is bound to its provider, window
//! and pane. It replaces the file of its pane only while its generation owns the pane, or nothing
//! was ever recorded of its owner, and only while its position is ahead.

use vstd::prelude::*;

use crate::bytes;
use crate::crypto;
use crate::frame::TerminalFrame;
use crate::paths;
use crate::text;

verus! {

/// The format the payload is stored in. A file of another format has an invalid header.
pub const VERSION: u8 = 2;

pub const NONCE_BYTES: usize = 12;

/// Magic, version, generation, sequence and nonce.
pub const HEADER_BYTES: usize = 37;

/// The environment variable that holds the key.
pub const KEY_ENV: &'static str = "SOKSAK_TERMINAL_CHECKPOINT_KEY";

/// Why a checkpoint operation was refused.
#[derive(Debug, PartialEq, Eq)]
pub enum CheckpointError {
    KeyNotBase64,
    KeyLength(usize),
    InvalidProvider,
    InvalidCoordinate,
    /// The random source failed, with its message.
    Random(String),
    EncryptionFailed,
    InvalidHeader,
    AuthenticationFailed,
    InvalidOwner,
    NotOwner,
}

/// The class of an error.
#[derive(Debug, Clone, Copy, PartialEq, Eq, Structural)]
pub enum CheckpointErrorKind {
    InvalidInput,
    InvalidData,
    PermissionDenied,
    Other,
}

impl CheckpointError {
    /// The class an error belongs to.
    pub open spec fn class(self) -> CheckpointErrorKind {
        match self {
            CheckpointError::KeyNotBase64 => CheckpointErrorKind::InvalidInput,
            CheckpointError::KeyLength(_) => CheckpointErrorKind::InvalidInput,
            CheckpointError::InvalidProvider => CheckpointErrorKind::InvalidInput,
            CheckpointError::InvalidCoordinate => CheckpointErrorKind::InvalidInput,
            CheckpointError::Random(_) => CheckpointErrorKind::Other,
            CheckpointError::EncryptionFailed => CheckpointErrorKind::Other,
            CheckpointError::InvalidHeader => CheckpointErrorKind::InvalidData,
            CheckpointError::AuthenticationFailed => CheckpointErrorKind::InvalidData,
            CheckpointError::InvalidOwner => CheckpointErrorKind::InvalidData,
            CheckpointError::NotOwner => CheckpointErrorKind::PermissionDenied,
        }
    }

    /// What an error says.
    pub open spec fn words(self) -> Seq<char> {
        match self {
            CheckpointError::KeyNotBase64 => "checkpoint key is not base64"@,
            CheckpointError::KeyLength(length) => "checkpoint key has "@ + text::decimal(
                length as nat,
            ) + " bytes, expected 32"@,
            CheckpointError::InvalidProvider => "invalid provider name"@,
            CheckpointError::InvalidCoordinate => "invalid checkpoint coordinate"@,
            CheckpointError::Random(message) => message@,
            CheckpointError::EncryptionFailed => "checkpoint encryption failed"@,
            CheckpointError::InvalidHeader => "invalid checkpoint header"@,
            CheckpointError::AuthenticationFailed => "checkpoint authentication failed"@,
            CheckpointError::InvalidOwner => "invalid checkpoint generation owner"@,
            CheckpointError::NotOwner => "checkpoint generation does not own this pane"@,
        }
    }

    /// The class this error belongs to.
    pub fn kind(&self) -> (kind: CheckpointErrorKind)
        ensures
            kind == self.class(),
    {
        match self {
            CheckpointError::KeyNotBase64 => CheckpointErrorKind::InvalidInput,
            CheckpointError::KeyLength(_) => CheckpointErrorKind::InvalidInput,
            CheckpointError::InvalidProvider => CheckpointErrorKind::InvalidInput,
            CheckpointError::InvalidCoordinate => CheckpointErrorKind::InvalidInput,
            CheckpointError::Random(_) => CheckpointErrorKind::Other,
            CheckpointError::EncryptionFailed => CheckpointErrorKind::Other,
            CheckpointError::InvalidHeader => CheckpointErrorKind::InvalidData,
            CheckpointError::AuthenticationFailed => CheckpointErrorKind::InvalidData,
            CheckpointError::InvalidOwner => CheckpointErrorKind::InvalidData,
            CheckpointError::NotOwner => CheckpointErrorKind::PermissionDenied,
        }
    }

    /// What this error says.
    pub fn message(&self) -> (message: String)
        ensures
            message@ == self.words(),
    {
        match self {
            CheckpointError::KeyNotBase64 => String::from_str("checkpoint key is not base64"),
            CheckpointError::KeyLength(length) => {
                let mut message = String::from_str("checkpoint key has ");
                message.push_str(text::decimal_text(*length as u64).as_str());
                message.push_str(" bytes, expected 32");
                message
            },
            CheckpointError::InvalidProvider => String::from_str("invalid provider name"),
            CheckpointError::InvalidCoordinate => String::from_str("invalid checkpoint coordinate"),
            CheckpointError::Random(message) => String::from_str(message.as_str()),
            CheckpointError::EncryptionFailed => String::from_str("checkpoint encryption failed"),
            CheckpointError::InvalidHeader => String::from_str("invalid checkpoint header"),
            CheckpointError::AuthenticationFailed => String::from_str(
                "checkpoint authentication failed",
            ),
            CheckpointError::InvalidOwner => String::from_str(
                "invalid checkpoint generation owner",
            ),
            CheckpointError::NotOwner => String::from_str(
                "checkpoint generation does not own this pane",
            ),
        }
    }
}

/// The key that decoded bytes are: 32 of them, and nothing else.
pub fn key_from_bytes(decoded: Option<Vec<u8>>) -> (key: Result<[u8; 32], CheckpointError>)
    ensures
        match crypto::bytes_in(decoded) {
            None => key == Err::<[u8; 32], CheckpointError>(CheckpointError::KeyNotBase64),
            Some(bytes) => if bytes.len() == 32 {
                key matches Ok(key) && key@ == bytes
            } else {
                key == Err::<[u8; 32], CheckpointError>(
                    CheckpointError::KeyLength(bytes.len() as usize),
                )
            },
        },
{
    match decoded {
        None => Err(CheckpointError::KeyNotBase64),
        Some(bytes) => {
            if bytes.len() != 32 {
                return Err(CheckpointError::KeyLength(bytes.len()));
            }
            let mut key = [0u8; 32];
            let mut i: usize = 0;
            while i < 32
                invariant
                    i <= 32,
                    bytes@.len() == 32,
                    forall|j: int| 0 <= j < i ==> key@[j] == bytes@[j],
                decreases 32 - i,
            {
                key[i] = bytes[i];
                i = i + 1;
            }
            assert(key@ =~= bytes@);
            Ok(key)
        },
    }
}

/// The key a base64 text spells.
pub fn key_from_base64(encoded: &str) -> (key: Result<[u8; 32], CheckpointError>)
    ensures
        match crypto::base64_decoded(encoded@) {
            None => key == Err::<[u8; 32], CheckpointError>(CheckpointError::KeyNotBase64),
            Some(bytes) => if bytes.len() == 32 {
                key matches Ok(key) && key@ == bytes
            } else {
                key == Err::<[u8; 32], CheckpointError>(
                    CheckpointError::KeyLength(bytes.len() as usize),
                )
            },
        },
{
    key_from_bytes(crypto::decode_base64(encoded))
}

/// A checkpoint read back, payload and all.
pub struct ArchivedCheckpoint {
    pub generation: u64,
    pub sequence: u64,
    pub paint: Vec<u8>,
    pub frame: TerminalFrame,
}

/// A checkpoint file opened: its position and the payload it protects.
#[derive(Debug, PartialEq, Eq)]
pub struct OpenedCheckpoint {
    pub generation: u64,
    pub sequence: u64,
    pub payload: Vec<u8>,
}

/// An opened checkpoint as a mathematical value.
#[verifier::ext_equal]
pub struct OpenedView {
    pub generation: u64,
    pub sequence: u64,
    pub payload: Seq<u8>,
}

impl View for OpenedCheckpoint {
    type V = OpenedView;

    open spec fn view(&self) -> OpenedView {
        OpenedView {
            generation: self.generation,
            sequence: self.sequence,
            payload: self.payload@,
        }
    }
}

/// A lower-case ASCII letter, a digit or a hyphen.
pub open spec fn is_name_char(c: char) -> bool {
    'a' <= c <= 'z' || '0' <= c <= '9' || c == '-'
}

/// A provider name: not empty, of lower-case letters, digits and hyphens.
pub open spec fn valid_name(name: Seq<char>) -> bool {
    name.len() > 0 && forall|i: int| 0 <= i < name.len() ==> is_name_char(#[trigger] name[i])
}

/// A window or pane: not empty, with no separator and no NUL.
pub open spec fn valid_coordinate(value: Seq<char>) -> bool {
    value.len() > 0 && forall|i: int|
        0 <= i < value.len() ==> #[trigger] value[i] != '/' && value[i] != '\\' && value[i] != '\0'
}

fn validate_name(name: &str) -> (valid: bool)
    ensures
        valid == valid_name(name@),
{
    let length: usize = name.unicode_len();
    let mut i: usize = 0;
    while i < length
        invariant
            i <= length == name@.len(),
            forall|j: int| 0 <= j < i ==> is_name_char(#[trigger] name@[j]),
        decreases length - i,
    {
        let c = name.get_char(i);
        if !(('a' <= c && c <= 'z') || ('0' <= c && c <= '9') || c == '-') {
            assert(!is_name_char(name@[i as int]));
            return false;
        }
        i = i + 1;
    }
    length > 0
}

fn validate_coordinate(value: &str) -> (valid: bool)
    ensures
        valid == valid_coordinate(value@),
{
    let length: usize = value.unicode_len();
    let mut i: usize = 0;
    while i < length
        invariant
            i <= length == value@.len(),
            forall|j: int|
                0 <= j < i ==> #[trigger] value@[j] != '/' && value@[j] != '\\' && value@[j] != '\0',
        decreases length - i,
    {
        let c = value.get_char(i);
        if c == '/' || c == '\\' || c == '\0' {
            assert(value@[i as int] == c);
            return false;
        }
        i = i + 1;
    }
    length > 0
}

/// The eight bytes every checkpoint file starts with.
pub open spec fn magic() -> Seq<u8> {
    seq![0x53u8, 0x4b, 0x54, 0x45, 0x52, 0x4d, 0x30, 0x31]
}

/// Whether a file starts like a checkpoint of this format.
pub open spec fn well_headed(file: Seq<u8>) -> bool {
    file.len() >= HEADER_BYTES && file.take(8) == magic() && file[8] == VERSION
}

/// The `(generation, sequence)` in a checkpoint's header.
pub open spec fn position_of(file: Seq<u8>) -> (u64, u64) {
    (bytes::number_at(file, 9, 8) as u64, bytes::number_at(file, 17, 8) as u64)
}

/// The position of the committed file, if there is one of this format.
pub open spec fn committed_position_of(file: Option<Seq<u8>>) -> Option<(u64, u64)> {
    match file {
        Some(file) => if well_headed(file) {
            Some(position_of(file))
        } else {
            None
        },
        None => None,
    }
}

/// A checkpoint file.
pub open spec fn checkpoint_file(
    generation: u64,
    sequence: u64,
    nonce: Seq<u8>,
    ciphertext: Seq<u8>,
) -> Seq<u8> {
    magic().push(VERSION) + bytes::big_endian(generation as nat, 8) + bytes::big_endian(
        sequence as nat,
        8,
    ) + nonce + ciphertext
}

/// What a checkpoint is bound to besides its key.
pub open spec fn binding(provider: Seq<char>, window: Seq<char>, pane: Seq<char>) -> Seq<u8> {
    text::utf8(
        "soksak/terminal-checkpoint/v2\0"@ + provider + "\0"@ + window + "\0"@ + pane,
    )
}

/// The name of a pane's checkpoint, without extension.
pub open spec fn pane_digest(window: Seq<char>, pane: Seq<char>) -> Seq<char> {
    text::hex(crypto::sha256(text::utf8(window + "\0"@ + pane)))
}

/// The outcome of opening a file, as a mathematical value.
pub open spec fn opened_view(checkpoint: Result<OpenedCheckpoint, CheckpointError>) -> Result<
    OpenedView,
    CheckpointError,
> {
    match checkpoint {
        Ok(checkpoint) => Ok(checkpoint@),
        Err(error) => Err(error),
    }
}

/// What opening a file gives.
pub open spec fn opened(key: Seq<u8>, associated: Seq<u8>, file: Seq<u8>) -> Result<
    OpenedView,
    CheckpointError,
> {
    if !well_headed(file) {
        Err(CheckpointError::InvalidHeader)
    } else if file.len() - HEADER_BYTES > crypto::MAX_PLAINTEXT + crypto::TAG_BYTES {
        Err(CheckpointError::AuthenticationFailed)
    } else {
        match crypto::aes_gcm_opened(
            key,
            file.subrange(25, HEADER_BYTES as int),
            associated,
            file.skip(HEADER_BYTES as int),
        ) {
            Some(payload) => Ok(
                OpenedView {
                    generation: position_of(file).0,
                    sequence: position_of(file).1,
                    payload,
                },
            ),
            None => Err(CheckpointError::AuthenticationFailed),
        }
    }
}

fn headed(file: &[u8]) -> (yes: bool)
    ensures
        yes == well_headed(file@),
{
    if file.len() < HEADER_BYTES {
        return false;
    }
    let yes = file[0] == 0x53 && file[1] == 0x4b && file[2] == 0x54 && file[3] == 0x45 && file[4]
        == 0x52 && file[5] == 0x4d && file[6] == 0x30 && file[7] == 0x31;
    proof {
        if yes {
            assert(file@.take(8) =~= magic());
        } else if file@.take(8) == magic() {
            assert forall|i: int| 0 <= i < 8 implies file@[i] == magic()[i] by {
                assert(file@.take(8)[i] == file@[i]);
            }
        }
    }
    yes && file[8] == VERSION
}

/// The bytes of a record or a file that may be absent.
pub open spec fn content(bytes: Option<&[u8]>) -> Option<Seq<u8>> {
    match bytes {
        Some(bytes) => Some(bytes@),
        None => None,
    }
}

/// The position of the committed file, if there is one of this format.
pub fn committed_position(file: Option<&[u8]>) -> (position: Option<(u64, u64)>)
    ensures
        position == committed_position_of(content(file)),
{
    match file {
        Some(file) => if headed(file) {
            Some((bytes::u64_at(file, 9), bytes::u64_at(file, 17)))
        } else {
            None
        },
        None => None,
    }
}

/// The bytes of an ownership record.
pub open spec fn claim_bytes(generation: Option<u64>) -> Seq<u8> {
    match generation {
        Some(generation) => bytes::big_endian(generation as nat, 8),
        None => Seq::empty(),
    }
}

/// The owner an ownership record names.
pub open spec fn claimed(record: Seq<u8>) -> Result<Option<u64>, CheckpointError> {
    if record.len() == 0 {
        Ok(None)
    } else if record.len() == 8 {
        Ok(Some(bytes::number(record) as u64))
    } else {
        Err(CheckpointError::InvalidOwner)
    }
}

/// The record that makes `generation` the owner, or nobody.
pub fn write_claimed_generation(generation: Option<u64>) -> (record: Vec<u8>)
    ensures
        record@ == claim_bytes(generation),
{
    let mut record: Vec<u8> = Vec::new();
    if let Some(generation) = generation {
        bytes::push_u64(&mut record, generation);
        assert(record@ =~= bytes::big_endian(generation as nat, 8));
    }
    record
}

/// The owner a record names.
pub fn claimed_generation(record: &[u8]) -> (owner: Result<Option<u64>, CheckpointError>)
    ensures
        owner == claimed(record@),
{
    if record.len() == 0 {
        Ok(None)
    } else if record.len() == 8 {
        assert(record@.subrange(0, 8) =~= record@);
        Ok(Some(bytes::u64_at(record, 0)))
    } else {
        Err(CheckpointError::InvalidOwner)
    }
}

/// The owner that was recorded is the owner that is read.
pub proof fn law_claim_reads_back(generation: Option<u64>)
    ensures
        claimed(claim_bytes(generation)) == Ok::<Option<u64>, CheckpointError>(generation),
{
    if let Some(n) = generation {
        bytes::lemma_u64_reads_back(n);
    }
}

/// What a commit comes to.
#[derive(Debug, Clone, Copy, PartialEq, Eq, Structural)]
pub enum Commit {
    /// The file replaces the committed one.
    Replace,
    /// The committed file is as far or further, and stays.
    Keep,
}

/// Who may commit to a pane.
#[derive(Debug, Clone, Copy, PartialEq, Eq, Structural)]
pub enum Ownership {
    /// There is no record: the pane was neither claimed nor retired nor written.
    Unrecorded,
    /// The record names nobody, as after the pane was retired.
    Nobody,
    Generation(u64),
}

/// Who may commit to a pane, by its ownership record.
pub open spec fn ownership_of(record: Option<Seq<u8>>) -> Result<Ownership, CheckpointError> {
    match record {
        None => Ok(Ownership::Unrecorded),
        Some(record) => match claimed(record) {
            Ok(Some(generation)) => Ok(Ownership::Generation(generation)),
            Ok(None) => Ok(Ownership::Nobody),
            Err(error) => Err(error),
        },
    }
}

/// Who may commit to a pane, by its ownership record.
pub fn ownership(record: Option<&[u8]>) -> (owner: Result<Ownership, CheckpointError>)
    ensures
        owner == ownership_of(content(record)),
{
    match record {
        None => Ok(Ownership::Unrecorded),
        Some(record) => match claimed_generation(record) {
            Ok(Some(generation)) => Ok(Ownership::Generation(generation)),
            Ok(None) => Ok(Ownership::Nobody),
            Err(error) => Err(error),
        },
    }
}

/// Whether a position is at or past another, by generation and then by sequence.
pub open spec fn at_or_past(position: (u64, u64), generation: u64, sequence: u64) -> bool {
    position.0 > generation || (position.0 == generation && position.1 >= sequence)
}

/// What a commit at `(generation, sequence)` comes to: refused where the record names another
/// generation or nobody, dropped when as much is committed already. For a generation that owns the
/// pane only its own commits count, whatever their numbers; without a record, positions are in
/// order.
pub open spec fn commit_of(
    owner: Ownership,
    committed: Option<(u64, u64)>,
    generation: u64,
    sequence: u64,
) -> Result<Commit, CheckpointError> {
    match owner {
        Ownership::Nobody => Err(CheckpointError::NotOwner),
        Ownership::Generation(owner) => if owner != generation {
            Err(CheckpointError::NotOwner)
        } else if committed matches Some(position) && position.0 == generation && position.1
            >= sequence {
            Ok(Commit::Keep)
        } else {
            Ok(Commit::Replace)
        },
        Ownership::Unrecorded => if committed matches Some(position) && at_or_past(
            position,
            generation,
            sequence,
        ) {
            Ok(Commit::Keep)
        } else {
            Ok(Commit::Replace)
        },
    }
}

/// What a commit comes to, from a pane's ownership record and its committed file.
pub open spec fn commit_to(
    record: Option<Seq<u8>>,
    file: Option<Seq<u8>>,
    generation: u64,
    sequence: u64,
) -> Result<Commit, CheckpointError> {
    match ownership_of(record) {
        Ok(owner) => commit_of(owner, committed_position_of(file), generation, sequence),
        Err(error) => Err(error),
    }
}

/// What a commit of a checkpoint at `(generation, sequence)` comes to, from the pane's ownership
/// record and its committed file, where they are there.
pub fn commit(record: Option<&[u8]>, file: Option<&[u8]>, generation: u64, sequence: u64) -> (
    commit: Result<Commit, CheckpointError>)
    ensures
        commit == commit_to(content(record), content(file), generation, sequence),
{
    let ahead = match committed_position(file) {
        Some(position) => position.0 != generation || position.1 < sequence,
        None => true,
    };
    match ownership(record) {
        Err(error) => Err(error),
        Ok(Ownership::Nobody) => Err(CheckpointError::NotOwner),
        Ok(Ownership::Generation(owner)) => if owner != generation {
            Err(CheckpointError::NotOwner)
        } else if ahead {
            Ok(Commit::Replace)
        } else {
            Ok(Commit::Keep)
        },
        Ok(Ownership::Unrecorded) => {
            let later = match committed_position(file) {
                Some(position) => position.0 > generation,
                None => false,
            };
            if ahead && !later {
                Ok(Commit::Replace)
            } else {
                Ok(Commit::Keep)
            }
        },
    }
}

/// The committed position after a commit.
pub open spec fn position_after(
    owner: Ownership,
    committed: Option<(u64, u64)>,
    generation: u64,
    sequence: u64,
) -> Option<(u64, u64)> {
    if commit_of(owner, committed, generation, sequence) == Ok::<Commit, CheckpointError>(
        Commit::Replace,
    ) {
        Some((generation, sequence))
    } else {
        committed
    }
}

/// Within a generation the committed sequence only grows, and only the generation that owns the
/// pane, or a later one where there is no record, can take the place of another. Whatever a
/// generation commits to a pane whose record does not name it, the position stays. What is
/// committed is at least as far as the owner's commit, or as any commit where there is no record.
pub proof fn law_position_only_advances(
    owner: Ownership,
    committed: Option<(u64, u64)>,
    generation: u64,
    sequence: u64,
)
    ensures
        ({
            let after = position_after(owner, committed, generation, sequence);
            let owned = owner == Ownership::Generation(generation);
            &&& !owned && !(owner is Unrecorded) ==> after == committed
            &&& committed matches Some(before) ==> (after matches Some(now) && (now.0 == before.0
                ==> now.1 >= before.1) && (now.0 != before.0 ==> owner == Ownership::Generation(
                now.0,
            ) || (owner is Unrecorded && now.0 > before.0)))
            &&& owned ==> (after matches Some(now) && now.0 == generation && now.1 >= sequence)
            &&& owner is Unrecorded ==> (after matches Some(now) && at_or_past(
                now,
                generation,
                sequence,
            ))
        }),
{
}

/// A commit is dropped where exactly as much or more is committed already: for its owner, in its own
/// generation; without a record, at its position. A generation that the record does not name is
/// refused, and everything else takes the place of what is committed.
pub proof fn law_commit_replaces_what_is_behind(
    owner: Ownership,
    committed: (u64, u64),
    generation: u64,
    sequence: u64,
)
    ensures
        commit_of(owner, None, generation, sequence) == Ok::<Commit, CheckpointError>(
            Commit::Replace,
        ) <==> owner == Ownership::Generation(generation) || owner == Ownership::Unrecorded,
        commit_of(Ownership::Generation(generation), Some(committed), generation, sequence) == Ok::<
            Commit,
            CheckpointError,
        >(
            if committed.0 == generation && committed.1 >= sequence {
                Commit::Keep
            } else {
                Commit::Replace
            },
        ),
        commit_of(Ownership::Unrecorded, Some(committed), generation, sequence) == Ok::<
            Commit,
            CheckpointError,
        >(
            if committed.0 > generation || committed.0 == generation && committed.1 >= sequence {
                Commit::Keep
            } else {
                Commit::Replace
            },
        ),
        owner != Ownership::Generation(generation) && owner != Ownership::Unrecorded ==> commit_of(
            owner,
            Some(committed),
            generation,
            sequence,
        ) == Err::<Commit, CheckpointError>(CheckpointError::NotOwner),
{
}

/// What is stored of one pane: its ownership record and its committed file, where they are there.
#[derive(Debug, PartialEq, Eq)]
pub struct StoredPane {
    pub record: Option<Vec<u8>>,
    pub file: Option<Vec<u8>>,
}

/// What is stored of one pane, as bytes.
#[verifier::ext_equal]
pub struct PaneView {
    pub record: Option<Seq<u8>>,
    pub file: Option<Seq<u8>>,
}

impl View for StoredPane {
    type V = PaneView;

    open spec fn view(&self) -> PaneView {
        PaneView {
            record: match self.record {
                Some(record) => Some(record@),
                None => None,
            },
            file: match self.file {
                Some(file) => Some(file@),
                None => None,
            },
        }
    }
}

/// A pane that `generation` has claimed. Its committed file stays.
pub open spec fn claimed_by(pane: PaneView, generation: u64) -> PaneView {
    PaneView { record: Some(claim_bytes(Some(generation))), ..pane }
}

/// A pane that was retired: nobody owns it, and nothing is committed.
pub open spec fn retired() -> PaneView {
    PaneView { record: Some(claim_bytes(None)), file: None }
}

/// A pane to which a file was handed for a commit at `(generation, sequence)`. It has a record from
/// then on.
pub open spec fn committed_to(
    pane: PaneView,
    file: Seq<u8>,
    generation: u64,
    sequence: u64,
) -> PaneView {
    PaneView {
        record: match pane.record {
            Some(record) => Some(record),
            None => Some(claim_bytes(None)),
        },
        file: if commit_to(pane.record, pane.file, generation, sequence) == Ok::<
            Commit,
            CheckpointError,
        >(Commit::Replace) {
            Some(file)
        } else {
            pane.file
        },
    }
}

impl StoredPane {
    /// Commits a sealed file at `(generation, sequence)`, unless as much is committed already.
    pub fn commit(&mut self, file: Vec<u8>, generation: u64, sequence: u64) -> (committed: Result<
        (),
        CheckpointError,
    >)
        ensures
            match commit_to(old(self)@.record, old(self)@.file, generation, sequence) {
                Ok(_) => committed is Ok && final(self)@ == committed_to(
                    old(self)@,
                    file@,
                    generation,
                    sequence,
                ),
                Err(error) => committed == Err::<(), CheckpointError>(error) && *final(self)
                    == *old(self),
            },
    {
        let record = match &self.record {
            Some(record) => Some(record.as_slice()),
            None => None,
        };
        let stored = match &self.file {
            Some(stored) => Some(stored.as_slice()),
            None => None,
        };
        match commit(record, stored, generation, sequence) {
            Err(error) => return Err(error),
            Ok(Commit::Replace) => {
                self.file = Some(file);
            },
            Ok(Commit::Keep) => {},
        }
        if self.record.is_none() {
            self.record = Some(write_claimed_generation(None));
        }
        Ok(())
    }
}

/// A retired pane takes no commit of any generation, not even of the one that owned it, until it is
/// claimed again. Then it takes those of the generation that claimed it, and of no other.
pub proof fn law_retired_pane_takes_nothing(generation: u64, sequence: u64, claiming: u64)
    ensures
        commit_to(retired().record, retired().file, generation, sequence) == Err::<
            Commit,
            CheckpointError,
        >(CheckpointError::NotOwner),
        commit_to(
            claimed_by(retired(), claiming).record,
            claimed_by(retired(), claiming).file,
            generation,
            sequence,
        ) == if generation == claiming {
            Ok::<Commit, CheckpointError>(Commit::Replace)
        } else {
            Err::<Commit, CheckpointError>(CheckpointError::NotOwner)
        },
{
    law_claim_reads_back(Some(claiming));
}

/// Where a provider keeps its checkpoints, and the key they are sealed with.
pub struct CheckpointStore {
    directory: String,
    lock_directory: String,
    provider: String,
    key: [u8; 32],
}

impl CheckpointStore {
    /// The directory of the checkpoint files.
    pub closed spec fn files(&self) -> Seq<char> {
        self.directory@
    }

    /// The directory of the ownership records.
    pub closed spec fn records(&self) -> Seq<char> {
        self.lock_directory@
    }

    /// The provider the checkpoints belong to.
    pub closed spec fn owner(&self) -> Seq<char> {
        self.provider@
    }

    /// The key the checkpoints are sealed with.
    pub closed spec fn secret(&self) -> Seq<u8> {
        self.key@
    }

    /// The store of `provider` below `home`.
    pub fn new(home: &str, provider: &str, key: [u8; 32]) -> (store: Result<Self, CheckpointError>)
        ensures
            match store {
                Ok(store) => {
                    &&& valid_name(provider@)
                    &&& store.owner() == provider@
                    &&& store.secret() == key@
                    &&& store.files() == paths::joined(
                        paths::joined(home@, "terminal-checkpoints"@),
                        provider@,
                    )
                    &&& store.records() == paths::joined(
                        paths::joined(home@, "terminal-checkpoint-locks"@),
                        provider@,
                    )
                },
                Err(error) => error == CheckpointError::InvalidProvider && !valid_name(provider@),
            },
    {
        if !validate_name(provider) {
            return Err(CheckpointError::InvalidProvider);
        }
        let files = paths::join(home, "terminal-checkpoints");
        let locks = paths::join(home, "terminal-checkpoint-locks");
        Ok(
            CheckpointStore {
                directory: paths::join(files.as_str(), provider),
                lock_directory: paths::join(locks.as_str(), provider),
                provider: String::from_str(provider),
                key,
            },
        )
    }

    /// The directory of the checkpoint files.
    pub fn directory(&self) -> (directory: &str)
        ensures
            directory@ == self.files(),
    {
        self.directory.as_str()
    }

    /// The directory of the ownership records.
    pub fn lock_directory(&self) -> (directory: &str)
        ensures
            directory@ == self.records(),
    {
        self.lock_directory.as_str()
    }

    fn name(window: &str, pane: &str, extension: &str) -> (name: String)
        ensures
            name@ == pane_digest(window@, pane@) + extension@,
    {
        let mut coordinate = String::from_str(window);
        coordinate.push_str("\0");
        coordinate.push_str(pane);
        let digest = crypto::digest(coordinate.as_str().as_bytes());
        let mut name = text::hex_text(vstd::array::array_as_slice(&digest));
        name.push_str(extension);
        name
    }

    /// The checkpoint file of a pane. A coordinate that could leave the provider's directory is
    /// refused.
    pub fn path(&self, window: &str, pane: &str) -> (path: Result<String, CheckpointError>)
        ensures
            match path {
                Ok(path) => {
                    &&& valid_coordinate(window@)
                    &&& valid_coordinate(pane@)
                    &&& path@ == paths::joined(
                        self.files(),
                        pane_digest(window@, pane@) + ".checkpoint"@,
                    )
                },
                Err(error) => error == CheckpointError::InvalidCoordinate && !(valid_coordinate(
                    window@,
                ) && valid_coordinate(pane@)),
            },
    {
        if !validate_coordinate(window) || !validate_coordinate(pane) {
            return Err(CheckpointError::InvalidCoordinate);
        }
        let name = Self::name(window, pane, ".checkpoint");
        Ok(paths::join(self.directory.as_str(), name.as_str()))
    }

    /// The ownership record of a pane.
    pub fn lock_path(&self, window: &str, pane: &str) -> (path: Result<String, CheckpointError>)
        ensures
            match path {
                Ok(path) => {
                    &&& valid_coordinate(window@)
                    &&& valid_coordinate(pane@)
                    &&& path@ == paths::joined(
                        self.records(),
                        pane_digest(window@, pane@) + ".lock"@,
                    )
                },
                Err(error) => error == CheckpointError::InvalidCoordinate && !(valid_coordinate(
                    window@,
                ) && valid_coordinate(pane@)),
            },
    {
        if !validate_coordinate(window) || !validate_coordinate(pane) {
            return Err(CheckpointError::InvalidCoordinate);
        }
        let name = Self::name(window, pane, ".lock");
        Ok(paths::join(self.lock_directory.as_str(), name.as_str()))
    }

    /// The file a checkpoint is written to before it takes the place of the committed one.
    pub fn temporary_path(&self, window: &str, pane: &str, file: &[u8]) -> (path: Result<
        String,
        CheckpointError,
    >)
        ensures
            match path {
                Ok(path) => {
                    &&& valid_coordinate(window@)
                    &&& valid_coordinate(pane@)
                    &&& path@ == paths::joined(
                        self.files(),
                        "."@ + (pane_digest(window@, pane@) + ".checkpoint"@) + "."@ + text::hex(
                            crypto::sha256(file@),
                        ) + ".tmp"@,
                    )
                },
                Err(error) => error == CheckpointError::InvalidCoordinate && !(valid_coordinate(
                    window@,
                ) && valid_coordinate(pane@)),
            },
    {
        if !validate_coordinate(window) || !validate_coordinate(pane) {
            return Err(CheckpointError::InvalidCoordinate);
        }
        let mut name = String::from_str(".");
        name.push_str(Self::name(window, pane, ".checkpoint").as_str());
        name.push_str(".");
        let digest = crypto::digest(file);
        name.push_str(text::hex_text(vstd::array::array_as_slice(&digest)).as_str());
        name.push_str(".tmp");
        Ok(paths::join(self.directory.as_str(), name.as_str()))
    }

    fn aad(&self, window: &str, pane: &str) -> (associated: Vec<u8>)
        ensures
            associated@ == binding(self.owner(), window@, pane@),
    {
        let mut bound = String::from_str("soksak/terminal-checkpoint/v2\0");
        bound.push_str(self.provider.as_str());
        bound.push_str("\0");
        bound.push_str(window);
        bound.push_str("\0");
        bound.push_str(pane);
        text::copy_bytes(bound.as_str().as_bytes())
    }

    /// Whether the cipher takes a payload of this length for this pane.
    pub open spec fn sealable(&self, window: Seq<char>, pane: Seq<char>, payload: Seq<u8>) -> bool {
        payload.len() <= crypto::MAX_PLAINTEXT && binding(self.owner(), window, pane).len()
            <= crypto::MAX_ASSOCIATED_DATA
    }

    /// The file that sealing a payload under `nonce` gives.
    pub open spec fn sealed(
        &self,
        window: Seq<char>,
        pane: Seq<char>,
        generation: u64,
        sequence: u64,
        nonce: Seq<u8>,
        payload: Seq<u8>,
    ) -> Seq<u8> {
        checkpoint_file(
            generation,
            sequence,
            nonce,
            crypto::aes_gcm_sealed(
                self.secret(),
                nonce,
                binding(self.owner(), window, pane),
                payload,
            ),
        )
    }

    /// The checkpoint file of a pane at `(generation, sequence)`, sealed under `nonce`. A payload
    /// longer than the cipher takes is refused.
    pub fn seal_with(
        &self,
        window: &str,
        pane: &str,
        generation: u64,
        sequence: u64,
        nonce: [u8; 12],
        payload: &[u8],
    ) -> (file: Result<Vec<u8>, CheckpointError>)
        ensures
            match file {
                Ok(file) => {
                    &&& valid_coordinate(window@)
                    &&& valid_coordinate(pane@)
                    &&& self.sealable(window@, pane@, payload@)
                    &&& file@.len() == HEADER_BYTES + payload@.len() + crypto::TAG_BYTES
                    &&& file@ == self.sealed(
                        window@,
                        pane@,
                        generation,
                        sequence,
                        nonce@,
                        payload@,
                    )
                },
                Err(error) => if valid_coordinate(window@) && valid_coordinate(pane@) {
                    error == CheckpointError::EncryptionFailed && !self.sealable(
                        window@,
                        pane@,
                        payload@,
                    )
                } else {
                    error == CheckpointError::InvalidCoordinate
                },
            },
    {
        if !validate_coordinate(window) || !validate_coordinate(pane) {
            return Err(CheckpointError::InvalidCoordinate);
        }
        let associated = self.aad(window, pane);
        if payload.len() as u64 > crypto::MAX_PLAINTEXT || associated.len() as u64
            > crypto::MAX_ASSOCIATED_DATA {
            return Err(CheckpointError::EncryptionFailed);
        }
        match crypto::encrypt(&self.key, &nonce, associated.as_slice(), payload) {
            None => Err(CheckpointError::EncryptionFailed),
            Some(ciphertext) => {
                let mut file: Vec<u8> = Vec::new();
                file.push(0x53);
                file.push(0x4b);
                file.push(0x54);
                file.push(0x45);
                file.push(0x52);
                file.push(0x4d);
                file.push(0x30);
                file.push(0x31);
                file.push(VERSION);
                assert(file@ =~= magic().push(VERSION));
                bytes::push_u64(&mut file, generation);
                bytes::push_u64(&mut file, sequence);
                text::push_bytes(&mut file, vstd::array::array_as_slice(&nonce));
                text::push_bytes(&mut file, ciphertext.as_slice());
                proof {
                    lemma_file_reads_back(generation, sequence, nonce@, ciphertext@);
                }
                Ok(file)
            },
        }
    }

    /// The checkpoint file of a pane at `(generation, sequence)`, sealed under a fresh random
    /// nonce. Which nonce it is depends on chance; whether sealing can succeed does not, but for a
    /// failure of the random source.
    pub fn seal(
        &self,
        window: &str,
        pane: &str,
        generation: u64,
        sequence: u64,
        payload: &[u8],
    ) -> (file: Result<Vec<u8>, CheckpointError>)
        ensures
            match file {
                Ok(file) => {
                    &&& valid_coordinate(window@)
                    &&& valid_coordinate(pane@)
                    &&& self.sealable(window@, pane@, payload@)
                    &&& file@.len() == HEADER_BYTES + payload@.len() + crypto::TAG_BYTES
                    &&& exists|nonce: Seq<u8>|
                        nonce.len() == NONCE_BYTES && file@ == #[trigger] self.sealed(
                            window@,
                            pane@,
                            generation,
                            sequence,
                            nonce,
                            payload@,
                        )
                },
                Err(CheckpointError::Random(_)) => valid_coordinate(window@) && valid_coordinate(
                    pane@,
                ),
                Err(error) => if valid_coordinate(window@) && valid_coordinate(pane@) {
                    error == CheckpointError::EncryptionFailed && !self.sealable(
                        window@,
                        pane@,
                        payload@,
                    )
                } else {
                    error == CheckpointError::InvalidCoordinate
                },
            },
    {
        if !validate_coordinate(window) || !validate_coordinate(pane) {
            return Err(CheckpointError::InvalidCoordinate);
        }
        match crypto::random_bytes(NONCE_BYTES) {
            Err(message) => Err(CheckpointError::Random(message)),
            Ok(random) => {
                let mut nonce = [0u8; 12];
                let mut i: usize = 0;
                while i < 12
                    invariant
                        i <= 12,
                        random@.len() == 12,
                    decreases 12 - i,
                {
                    nonce[i] = random[i];
                    i = i + 1;
                }
                let file = self.seal_with(window, pane, generation, sequence, nonce, payload);
                assert(nonce@.len() == NONCE_BYTES);
                file
            },
        }
    }

    /// Whether opening a file of a pane may give `result`: what its header and the cipher say of it.
    /// What was sealed for the same pane with the same key comes back with its position and payload;
    /// with another tag at its end it is refused.
    pub open spec fn opens(
        &self,
        window: Seq<char>,
        pane: Seq<char>,
        file: Seq<u8>,
        result: Result<OpenedView, CheckpointError>,
    ) -> bool {
        if valid_coordinate(window) && valid_coordinate(pane) {
            &&& result == opened(self.secret(), binding(self.owner(), window, pane), file)
            &&& forall|generation: u64, sequence: u64, nonce: Seq<u8>, payload: Seq<u8>|
                nonce.len() == NONCE_BYTES && self.sealable(window, pane, payload) && file.len()
                    == HEADER_BYTES + payload.len() + crypto::TAG_BYTES && file
                    == #[trigger] self.sealed(window, pane, generation, sequence, nonce, payload)
                    ==> result == Ok::<OpenedView, CheckpointError>(
                    OpenedView { generation, sequence, payload },
                )
            &&& forall|generation: u64, sequence: u64, nonce: Seq<u8>, payload: Seq<u8>|
                nonce.len() == NONCE_BYTES && self.sealable(window, pane, payload) && file.len()
                    == HEADER_BYTES + payload.len() + crypto::TAG_BYTES && crypto::other_tag(
                    #[trigger] self.sealed(window, pane, generation, sequence, nonce, payload),
                    file,
                ) ==> result == Err::<OpenedView, CheckpointError>(
                    CheckpointError::AuthenticationFailed,
                )
        } else {
            result == Err::<OpenedView, CheckpointError>(CheckpointError::InvalidCoordinate)
        }
    }

    /// Opens a checkpoint file of a pane.
    pub fn open(&self, window: &str, pane: &str, file: &[u8]) -> (checkpoint: Result<
        OpenedCheckpoint,
        CheckpointError,
    >)
        ensures
            self.opens(window@, pane@, file@, opened_view(checkpoint)),
    {
        if !validate_coordinate(window) || !validate_coordinate(pane) {
            return Err(CheckpointError::InvalidCoordinate);
        }
        if !headed(file) {
            proof {
                assert forall|generation: u64, sequence: u64, nonce: Seq<u8>, payload: Seq<u8>|
                    nonce.len() == NONCE_BYTES implies file@ != #[trigger] self.sealed(
                    window@,
                    pane@,
                    generation,
                    sequence,
                    nonce,
                    payload,
                ) by {
                    lemma_file_reads_back(
                        generation,
                        sequence,
                        nonce,
                        crypto::aes_gcm_sealed(
                            self.secret(),
                            nonce,
                            binding(self.owner(), window@, pane@),
                            payload,
                        ),
                    );
                }
                assert forall|generation: u64, sequence: u64, nonce: Seq<u8>, payload: Seq<u8>|
                    nonce.len() == NONCE_BYTES && file@.len() == HEADER_BYTES + payload.len()
                        + crypto::TAG_BYTES implies !crypto::other_tag(
                    #[trigger] self.sealed(
                        window@,
                        pane@,
                        generation,
                        sequence,
                        nonce,
                        payload,
                    ),
                    file@,
                ) by {
                    let sealed = self.sealed(
                        window@,
                        pane@,
                        generation,
                        sequence,
                        nonce,
                        payload,
                    );
                    let ciphertext = crypto::aes_gcm_sealed(
                        self.secret(),
                        nonce,
                        binding(self.owner(), window@, pane@),
                        payload,
                    );
                    lemma_file_reads_back(generation, sequence, nonce, ciphertext);
                    if crypto::other_tag(sealed, file@) {
                        lemma_same_head(sealed, file@);
                    }
                }
            }
            return Err(CheckpointError::InvalidHeader);
        }
        let length: usize = file.len();
        if (length - HEADER_BYTES) as u64 > crypto::MAX_PLAINTEXT + crypto::TAG_BYTES {
            return Err(CheckpointError::AuthenticationFailed);
        }
        let generation: u64 = bytes::u64_at(file, 9);
        let sequence: u64 = bytes::u64_at(file, 17);
        let mut nonce = [0u8; 12];
        let mut i: usize = 0;
        while i < 12
            invariant
                i <= 12,
                length == file@.len() >= HEADER_BYTES,
                forall|j: int| 0 <= j < i ==> nonce@[j] == file@[25 + j],
            decreases 12 - i,
        {
            nonce[i] = file[25 + i];
            i = i + 1;
        }
        let associated = self.aad(window, pane);
        let ciphertext = vstd::slice::slice_subrange(file, HEADER_BYTES, length);
        let message = crypto::decrypt(&self.key, &nonce, associated.as_slice(), ciphertext);
        proof {
            assert(nonce@ =~= file@.subrange(25, HEADER_BYTES as int));
            assert(ciphertext@ =~= file@.skip(HEADER_BYTES as int));
            assert forall|generation: u64, sequence: u64, nonce: Seq<u8>, payload: Seq<u8>|
                nonce.len() == NONCE_BYTES && self.sealable(window@, pane@, payload) && file@
                    == #[trigger] self.sealed(
                    window@,
                    pane@,
                    generation,
                    sequence,
                    nonce,
                    payload,
                ) implies crypto::bytes_in(message) == Some(payload) && position_of(file@) == (
                generation,
                sequence,
            ) by {
                lemma_file_reads_back(
                    generation,
                    sequence,
                    nonce,
                    crypto::aes_gcm_sealed(
                        self.secret(),
                        nonce,
                        binding(self.owner(), window@, pane@),
                        payload,
                    ),
                );
            }
            assert forall|generation: u64, sequence: u64, nonce: Seq<u8>, payload: Seq<u8>|
                nonce.len() == NONCE_BYTES && self.sealable(window@, pane@, payload) && file@.len()
                    == HEADER_BYTES + payload.len() + crypto::TAG_BYTES && crypto::other_tag(
                    #[trigger] self.sealed(
                        window@,
                        pane@,
                        generation,
                        sequence,
                        nonce,
                        payload,
                    ),
                    file@,
                ) implies message is None by {
                let sealed = self.sealed(window@, pane@, generation, sequence, nonce, payload);
                let body = crypto::aes_gcm_sealed(
                    self.secret(),
                    nonce,
                    binding(self.owner(), window@, pane@),
                    payload,
                );
                lemma_file_reads_back(generation, sequence, nonce, body);
                lemma_same_head(sealed, file@);
                assert(crypto::other_tag(body, ciphertext@));
            }
        }
        match message {
            Some(payload) => Ok(OpenedCheckpoint { generation, sequence, payload }),
            None => Err(CheckpointError::AuthenticationFailed),
        }
    }

    /// Claims a pane for a generation.
    pub fn claim_generation(
        &self,
        window: &str,
        pane: &str,
        generation: u64,
        stored: &mut StoredPane,
    ) -> (claimed: Result<(), CheckpointError>)
        ensures
            if valid_coordinate(window@) && valid_coordinate(pane@) {
                claimed is Ok && final(stored)@ == claimed_by(old(stored)@, generation)
            } else {
                claimed == Err::<(), CheckpointError>(CheckpointError::InvalidCoordinate)
                    && *final(stored) == *old(stored)
            },
    {
        if !validate_coordinate(window) || !validate_coordinate(pane) {
            return Err(CheckpointError::InvalidCoordinate);
        }
        stored.record = Some(write_claimed_generation(Some(generation)));
        Ok(())
    }

    /// Whether a pane that was `before` may be `after` a payload was written to it: the payload was
    /// sealed under some nonce, and the file committed.
    pub open spec fn writes(
        &self,
        window: Seq<char>,
        pane: Seq<char>,
        generation: u64,
        sequence: u64,
        payload: Seq<u8>,
        before: PaneView,
        after: PaneView,
    ) -> bool {
        &&& valid_coordinate(window)
        &&& valid_coordinate(pane)
        &&& self.sealable(window, pane, payload)
        &&& commit_to(before.record, before.file, generation, sequence) is Ok
        &&& exists|nonce: Seq<u8>, file: Seq<u8>|
            nonce.len() == NONCE_BYTES && file.len() == HEADER_BYTES + payload.len()
                + crypto::TAG_BYTES && file == #[trigger] self.sealed(
                window,
                pane,
                generation,
                sequence,
                nonce,
                payload,
            ) && after == #[trigger] committed_to(before, file, generation, sequence)
    }

    /// Seals a payload and commits it to a pane. Nothing is committed where it fails. Only a
    /// failure of the random source depends on chance.
    pub fn write(
        &self,
        window: &str,
        pane: &str,
        generation: u64,
        sequence: u64,
        payload: &[u8],
        stored: &mut StoredPane,
    ) -> (written: Result<(), CheckpointError>)
        ensures
            match written {
                Ok(()) => self.writes(
                    window@,
                    pane@,
                    generation,
                    sequence,
                    payload@,
                    old(stored)@,
                    final(stored)@,
                ),
                Err(error) => {
                    &&& *final(stored) == *old(stored)
                    &&& if !valid_coordinate(window@) || !valid_coordinate(pane@) {
                        error == CheckpointError::InvalidCoordinate
                    } else {
                        ||| error is Random
                        ||| error == CheckpointError::EncryptionFailed && !self.sealable(
                            window@,
                            pane@,
                            payload@,
                        )
                        ||| self.sealable(window@, pane@, payload@) && commit_to(
                            old(stored)@.record,
                            old(stored)@.file,
                            generation,
                            sequence,
                        ) == Err::<Commit, CheckpointError>(error)
                    }
                },
            },
    {
        match self.seal(window, pane, generation, sequence, payload) {
            Err(error) => Err(error),
            Ok(file) => {
                let ghost sealed = file@;
                let committed = stored.commit(file, generation, sequence);
                assert(committed is Ok ==> stored@ == committed_to(
                    old(stored)@,
                    sealed,
                    generation,
                    sequence,
                ));
                committed
            },
        }
    }

    /// Whether reading a pane may give `result`: nothing where no file is committed, and otherwise
    /// what opening the file gives.
    pub open spec fn reads(
        &self,
        window: Seq<char>,
        pane: Seq<char>,
        stored: PaneView,
        result: Result<Option<OpenedView>, CheckpointError>,
    ) -> bool {
        match stored.file {
            Some(file) => match result {
                Ok(Some(checkpoint)) => self.opens(window, pane, file, Ok(checkpoint)),
                Ok(None) => false,
                Err(error) => self.opens(window, pane, file, Err(error)),
            },
            None => if valid_coordinate(window) && valid_coordinate(pane) {
                result == Ok::<Option<OpenedView>, CheckpointError>(None)
            } else {
                result == Err::<Option<OpenedView>, CheckpointError>(
                    CheckpointError::InvalidCoordinate,
                )
            },
        }
    }

    /// Reads what is committed to a pane.
    pub fn read(&self, window: &str, pane: &str, stored: &StoredPane) -> (checkpoint: Result<
        Option<OpenedCheckpoint>,
        CheckpointError,
    >)
        ensures
            self.reads(window@, pane@, stored@, read_view(checkpoint)),
    {
        match &stored.file {
            Some(file) => match self.open(window, pane, file.as_slice()) {
                Ok(checkpoint) => Ok(Some(checkpoint)),
                Err(error) => Err(error),
            },
            None => if !validate_coordinate(window) || !validate_coordinate(pane) {
                Err(CheckpointError::InvalidCoordinate)
            } else {
                Ok(None)
            },
        }
    }

    /// Retires a pane, and says whether anything was committed to it.
    pub fn remove(&self, window: &str, pane: &str, stored: &mut StoredPane) -> (removed: Result<
        bool,
        CheckpointError,
    >)
        ensures
            if valid_coordinate(window@) && valid_coordinate(pane@) {
                removed == Ok::<bool, CheckpointError>(old(stored)@.file is Some) && final(stored)@
                    == retired()
            } else {
                removed == Err::<bool, CheckpointError>(CheckpointError::InvalidCoordinate)
                    && *final(stored) == *old(stored)
            },
    {
        if !validate_coordinate(window) || !validate_coordinate(pane) {
            return Err(CheckpointError::InvalidCoordinate);
        }
        let removed = stored.file.is_some();
        stored.record = Some(write_claimed_generation(None));
        stored.file = None;
        Ok(removed)
    }
}

/// The outcome of reading a pane, as a mathematical value.
pub open spec fn read_view(
    checkpoint: Result<Option<OpenedCheckpoint>, CheckpointError>,
) -> Result<Option<OpenedView>, CheckpointError> {
    match checkpoint {
        Ok(Some(checkpoint)) => Ok(Some(checkpoint@)),
        Ok(None) => Ok(None),
        Err(error) => Err(error),
    }
}

/// Files that differ in the tag alone have the same header, the same nonce, and ciphertexts that
/// differ in the tag alone.
proof fn lemma_same_head(sealed: Seq<u8>, file: Seq<u8>)
    requires
        crypto::other_tag(sealed, file),
        sealed.len() >= HEADER_BYTES + crypto::TAG_BYTES,
    ensures
        well_headed(file) == well_headed(sealed),
        file.subrange(25, HEADER_BYTES as int) == sealed.subrange(25, HEADER_BYTES as int),
        crypto::other_tag(sealed.skip(HEADER_BYTES as int), file.skip(HEADER_BYTES as int)),
{
    let kept = sealed.len() - crypto::TAG_BYTES;
    assert forall|i: int| 0 <= i < kept implies #[trigger] sealed[i] == file[i] by {
        assert(sealed.take(kept)[i] == file.take(kept)[i]);
    }
    assert(sealed.take(8) =~= file.take(8));
    assert(file.subrange(25, HEADER_BYTES as int) =~= sealed.subrange(25, HEADER_BYTES as int));
    let (a, b) = (sealed.skip(HEADER_BYTES as int), file.skip(HEADER_BYTES as int));
    assert(a.take(a.len() - crypto::TAG_BYTES) =~= b.take(b.len() - crypto::TAG_BYTES));
    if a == b {
        assert(sealed =~= file) by {
            assert forall|i: int| 0 <= i < sealed.len() implies sealed[i] == file[i] by {
                if i >= HEADER_BYTES {
                    assert(a[i - HEADER_BYTES] == b[i - HEADER_BYTES]);
                }
            }
        }
    }
}

/// What a generation writes to a pane that it has claimed, and to which nothing was committed, reads
/// back with its position and payload, and the generation still owns the pane.
pub proof fn law_written_checkpoint_reads_back(
    store: &CheckpointStore,
    window: Seq<char>,
    pane: Seq<char>,
    generation: u64,
    sequence: u64,
    payload: Seq<u8>,
    empty: PaneView,
    written: PaneView,
    read: Result<Option<OpenedView>, CheckpointError>,
)
    requires
        empty.file is None,
        store.writes(
            window,
            pane,
            generation,
            sequence,
            payload,
            claimed_by(empty, generation),
            written,
        ),
        store.reads(window, pane, written, read),
    ensures
        read == Ok::<Option<OpenedView>, CheckpointError>(
            Some(OpenedView { generation, sequence, payload }),
        ),
        committed_position_of(written.file) == Some((generation, sequence)),
        ownership_of(written.record) == Ok::<Ownership, CheckpointError>(
            Ownership::Generation(generation),
        ),
{
    law_claim_reads_back(Some(generation));
    let claimed = claimed_by(empty, generation);
    let (nonce, file) = choose|nonce: Seq<u8>, file: Seq<u8>|
        nonce.len() == NONCE_BYTES && file.len() == HEADER_BYTES + payload.len() + crypto::TAG_BYTES
            && file == #[trigger] store.sealed(window, pane, generation, sequence, nonce, payload)
            && written == #[trigger] committed_to(claimed, file, generation, sequence);
    assert(written.file == Some(file));
    lemma_file_reads_back(
        generation,
        sequence,
        nonce,
        crypto::aes_gcm_sealed(
            store.secret(),
            nonce,
            binding(store.owner(), window, pane),
            payload,
        ),
    );
}

/// A written checkpoint whose last byte was changed is refused, and so is one whose tag was changed
/// in any other way.
pub proof fn law_altered_checkpoint_is_refused(
    store: &CheckpointStore,
    window: Seq<char>,
    pane: Seq<char>,
    generation: u64,
    sequence: u64,
    payload: Seq<u8>,
    empty: PaneView,
    written: PaneView,
    altered: PaneView,
    byte: u8,
    read: Result<Option<OpenedView>, CheckpointError>,
)
    requires
        empty.file is None,
        store.writes(
            window,
            pane,
            generation,
            sequence,
            payload,
            claimed_by(empty, generation),
            written,
        ),
        ({
            let (file, other) = (written.file->0, altered.file->0);
            altered.file is Some && (crypto::other_tag(file, other) || (byte != file.last() && other
                == file.update(file.len() - 1, byte)))
        }),
        store.reads(window, pane, altered, read),
    ensures
        read == Err::<Option<OpenedView>, CheckpointError>(CheckpointError::AuthenticationFailed),
{
    law_claim_reads_back(Some(generation));
    let claimed = claimed_by(empty, generation);
    let (nonce, file) = choose|nonce: Seq<u8>, file: Seq<u8>|
        nonce.len() == NONCE_BYTES && file.len() == HEADER_BYTES + payload.len() + crypto::TAG_BYTES
            && file == #[trigger] store.sealed(window, pane, generation, sequence, nonce, payload)
            && written == #[trigger] committed_to(claimed, file, generation, sequence);
    assert(written.file == Some(file));
    let other = altered.file->0;
    if byte != file.last() && other == file.update(file.len() - 1, byte) {
        let kept = file.len() - crypto::TAG_BYTES;
        assert(other.take(kept) =~= file.take(kept));
        assert(other.last() != file.last());
    }
    assert(crypto::other_tag(file, other));
}

/// A pane to which nothing was written reads as nothing, and so does a retired one.
pub proof fn law_unwritten_pane_reads_as_nothing(
    store: &CheckpointStore,
    window: Seq<char>,
    pane: Seq<char>,
    stored: PaneView,
    read: Result<Option<OpenedView>, CheckpointError>,
)
    requires
        valid_coordinate(window),
        valid_coordinate(pane),
        stored.file is None || stored == retired(),
        store.reads(window, pane, stored, read),
    ensures
        read == Ok::<Option<OpenedView>, CheckpointError>(None),
{
}

proof fn lemma_file_reads_back(
    generation: u64,
    sequence: u64,
    nonce: Seq<u8>,
    ciphertext: Seq<u8>,
)
    requires
        nonce.len() == NONCE_BYTES,
    ensures
        ({
            let file = checkpoint_file(generation, sequence, nonce, ciphertext);
            &&& well_headed(file)
            &&& position_of(file) == (generation, sequence)
            &&& file.subrange(25, HEADER_BYTES as int) == nonce
            &&& file.skip(HEADER_BYTES as int) == ciphertext
            &&& file.len() == HEADER_BYTES + ciphertext.len()
        }),
{
    let file = checkpoint_file(generation, sequence, nonce, ciphertext);
    bytes::lemma_u64_reads_back(generation);
    bytes::lemma_u64_reads_back(sequence);
    assert(file.take(8) =~= magic());
    assert(file.subrange(9, 17) =~= bytes::big_endian(generation as nat, 8));
    assert(file.subrange(17, 25) =~= bytes::big_endian(sequence as nat, 8));
    assert(file.subrange(25, HEADER_BYTES as int) =~= nonce);
    assert(file.skip(HEADER_BYTES as int) =~= ciphertext);
}

} // verus!
