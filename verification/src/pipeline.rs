//! The fetch pipeline: a linear state machine from cache check to atomic
//! commit.  The machine takes events (what the surrounding I/O observed) and
//! answers with the next action to perform.  Every verification step runs
//! inside the machine, so a commit can only be requested after the download
//! digest, the registry signatures and any pinned integrity have all been
//! checked; any mismatch is fatal and the staging directory never reaches
//! the cache path.

use vstd::prelude::*;

use crate::errors::Error;
use crate::integrity::{computed_digest, expected_bytes, spec_selector_integrity};
use crate::registry::{assoc, spec_npm_integrity, NpmVersion, NpmVersionView};
use crate::signature::{pinned_keys, spec_all_sigs_ok, spec_is_default_host, RegistryConfig};
use crate::specifier::{Spec, SpecName, SpecView};

verus! {

/// Where the pipeline stands.
#[derive(Clone, Debug, PartialEq, Eq)]
pub enum FetchState {
    Start,
    CheckingCache,
    Staging,
    Downloading,
    Unpacking,
    LocatingRoot,
    ReadingBin,
    Committing,
    Done { cached: bool },
    Failed,
}

/// What the surrounding I/O observed.
#[derive(Debug)]
pub enum FetchEvent {
    Begin,
    CacheResult { hit: bool },
    StagingReady,
    Downloaded { bytes: Vec<u8> },
    DownloadFailed { status: u16 },
    Unpacked,
    RootLocated,
    BinRead { contents: Option<Vec<u8>> },
    Committed,
    IoFailed { message: String },
}

/// What the surrounding I/O must do next.
#[derive(Clone, Debug, PartialEq, Eq)]
pub enum FetchAction {
    CheckCache,
    CreateStaging,
    Download,
    Unpack,
    LocateRoot,
    ReadBin { path: String },
    Commit,
    Stop,
}

/// The downloaded bytes match the digest the registry pinned.
pub open spec fn download_digest_ok(v: NpmVersionView, b: Seq<u8>) -> bool {
    spec_npm_integrity(v) matches Ok(iv) && expected_bytes(iv) == computed_digest(iv, b)
}

/// The signature check holds (trivially, off the default registry host).
pub open spec fn signatures_ok(v: NpmVersionView, base: Seq<char>) -> bool {
    spec_is_default_host(base) ==> spec_all_sigs_ok(v, pinned_keys())
}

/// The specifier's pinned integrity holds of the right data: for the tool
/// with the historic file-hash quirk, of the unpacked executable; for the
/// others, of the whole archive.
pub open spec fn pinned_ok(
    sp: SpecView,
    bytes: Seq<u8>,
    bin: Option<Seq<u8>>,
) -> bool {
    match spec_selector_integrity(sp.version) {
        Ok(None) => true,
        Ok(Some(iv)) => if sp.name == SpecName::Yarn {
            bin matches Some(b) && expected_bytes(iv) == computed_digest(iv, b)
        } else {
            expected_bytes(iv) == computed_digest(iv, bytes)
        },
        Err(_) => false,
    }
}

/// Everything a commit requires.
pub open spec fn commit_allowed(
    sp: SpecView,
    v: NpmVersionView,
    base: Seq<char>,
    bytes: Seq<u8>,
    bin: Option<Seq<u8>>,
) -> bool {
    &&& download_digest_ok(v, bytes)
    &&& signatures_ok(v, base)
    &&& pinned_ok(sp, bytes, bin)
}

/// One fetch in progress: the specifier, the resolved version, the registry
/// in use, and the machine's state together with the data already verified.
pub struct FetchMachine {
    pub spec: Spec,
    pub version: NpmVersion,
    pub registry: RegistryConfig,
    pub state: FetchState,
    pub bytes: Option<Vec<u8>>,
    pub bin: Option<Vec<u8>>,
}

pub open spec fn bytes_view(b: Option<Vec<u8>>) -> Option<Seq<u8>> {
    match b {
        Some(v) => Some(v@),
        None => None,
    }
}

/// The machine's full transition relation: for every state and observation,
/// the action or error that must come back, and the state that must follow.
/// Success paths are forced — a pipeline that does nothing does not satisfy
/// this — and every integrity failure must report the offending values.
pub open spec fn step_transition(
    pre: FetchMachine,
    event: FetchEvent,
    post: FetchMachine,
    r: Result<FetchAction, Error>,
) -> bool {
    match (pre.state, event) {
        (FetchState::Start, FetchEvent::Begin) => r == Ok::<FetchAction, Error>(
            FetchAction::CheckCache,
        ) && post.state is CheckingCache,
        (FetchState::CheckingCache, FetchEvent::CacheResult { hit }) => if hit {
            r == Ok::<FetchAction, Error>(FetchAction::Stop) && post.state == (FetchState::Done {
                cached: true,
            })
        } else {
            r == Ok::<FetchAction, Error>(FetchAction::CreateStaging) && post.state is Staging
        },
        (FetchState::Staging, FetchEvent::StagingReady) => r == Ok::<FetchAction, Error>(
            FetchAction::Download,
        ) && post.state is Downloading,
        (FetchState::Downloading, FetchEvent::Downloaded { bytes }) => match spec_npm_integrity(
            pre.version@,
        ) {
            Err(_) => (r matches Err(e) && e is RegistryDecode) && post.state is Failed,
            Ok(iv) => if expected_bytes(iv) != computed_digest(iv, bytes@) {
                (r matches Err(e) && e matches Error::IntegrityMismatch { expected, actual }
                    && expected@ == crate::integrity::hex_encode(expected_bytes(iv)) && actual@
                    == crate::integrity::hex_encode(computed_digest(iv, bytes@))) && post.state
                    is Failed
            } else if signatures_ok(pre.version@, pre.registry.base@) {
                r == Ok::<FetchAction, Error>(FetchAction::Unpack) && post.state is Unpacking
                    && post.bytes == Some(bytes)
            } else {
                (r matches Err(e) && e matches Error::IntegrityMismatch { expected, actual }
                    && crate::signature::sig_failure_witness(pre.version@, expected@, actual@))
                    && post.state is Failed
            },
        },
        (FetchState::Downloading, FetchEvent::DownloadFailed { status }) => r == Err::<
            FetchAction,
            Error,
        >(Error::RegistryStatus { status }) && post.state is Failed,
        (FetchState::Unpacking, FetchEvent::Unpacked) => r == Ok::<FetchAction, Error>(
            FetchAction::LocateRoot,
        ) && post.state is LocatingRoot,
        (FetchState::LocatingRoot, FetchEvent::RootLocated) => match spec_selector_integrity(
            pre.spec@.version,
        ) {
            Err(_) => (r matches Err(e) && e is InvalidSpecifier) && post.state is Failed,
            Ok(None) => r == Ok::<FetchAction, Error>(FetchAction::Commit) && post.state
                is Committing,
            Ok(Some(iv)) => if pre.spec@.name == SpecName::Yarn {
                match assoc(pre.version@.bin, crate::specifier::yarn_chars()) {
                    Some(p) => (r matches Ok(a) && a matches FetchAction::ReadBin { path }
                        && path@ == p) && post.state is ReadingBin,
                    None => (r matches Err(e) && e is RegistryDecode) && post.state is Failed,
                }
            } else {
                pre.bytes matches Some(b) && if expected_bytes(iv) == computed_digest(iv, b@) {
                    r == Ok::<FetchAction, Error>(FetchAction::Commit) && post.state is Committing
                } else {
                    (r matches Err(e) && e matches Error::IntegrityMismatch { expected, actual }
                        && expected@ == crate::integrity::hex_encode(expected_bytes(iv))
                        && actual@ == crate::integrity::hex_encode(computed_digest(iv, b@)))
                        && post.state is Failed
                }
            },
        },
        (FetchState::ReadingBin, FetchEvent::BinRead { contents }) => match contents {
            None => (r matches Err(e) && e is CacheIo) && post.state is Failed,
            Some(c) => match spec_selector_integrity(pre.spec@.version) {
                Err(_) => (r matches Err(e) && e is InvalidSpecifier) && post.state is Failed,
                Ok(None) => r == Ok::<FetchAction, Error>(FetchAction::Commit) && post.state
                    is Committing,
                Ok(Some(iv)) => if expected_bytes(iv) == computed_digest(iv, c@) {
                    r == Ok::<FetchAction, Error>(FetchAction::Commit) && post.state is Committing
                        && post.bin == Some(c)
                } else {
                    (r matches Err(e) && e matches Error::IntegrityMismatch { expected, actual }
                        && expected@ == crate::integrity::hex_encode(expected_bytes(iv))
                        && actual@ == crate::integrity::hex_encode(computed_digest(iv, c@)))
                        && post.state is Failed
                },
            },
        },
        (FetchState::Committing, FetchEvent::Committed) => r == Ok::<FetchAction, Error>(
            FetchAction::Stop,
        ) && post.state == (FetchState::Done { cached: false }),
        (FetchState::Done { cached }, _) => r is Err && post.state == (FetchState::Done {
            cached,
        }),
        (_, FetchEvent::IoFailed { message }) => (r matches Err(e) && e matches Error::CacheIo {
            message: m,
        } && m@ == message@) && post.state is Failed,
        _ => r is Err && post.state is Failed,
    }
}


impl FetchMachine {
    /// The machine's invariant: whatever the state claims has been verified,
    /// has been.
    pub open spec fn inv(&self) -> bool {
        &&& (self.state is Unpacking || self.state is LocatingRoot || self.state is ReadingBin
            || self.state is Committing) ==> (self.bytes matches Some(b) && download_digest_ok(
            self.version@,
            b@,
        ) && signatures_ok(self.version@, self.registry.base@))
        &&& (self.state is ReadingBin ==> self.spec@.name == SpecName::Yarn)
        &&& (self.state is Committing ==> (self.bytes matches Some(b) && pinned_ok(
            self.spec@,
            b@,
            bytes_view(self.bin),
        )))
    }

    /// A fresh machine for one fetch.
    pub fn new(spec: Spec, version: NpmVersion, registry: RegistryConfig) -> (r: FetchMachine)
        ensures
            r.inv(),
            r.state is Start,
            r.spec@ == spec@,
            r.version@ == version@,
            r.registry.base@ == registry.base@,
    {
        FetchMachine { spec, version, registry, state: FetchState::Start, bytes: None, bin: None }
    }

    /// Feeds one observation in and decides the next action.  A commit is
    /// only ever requested with every check passed; any integrity failure
    /// answers with the error and moves to the terminal failed state, before
    /// anything could reach the canonical cache path.
    pub fn step(&mut self, event: FetchEvent) -> (r: Result<FetchAction, Error>)
        requires
            old(self).inv(),
        ensures
            final(self).inv(),
            final(self).spec@ == old(self).spec@,
            final(self).version@ == old(self).version@,
            final(self).registry.base@ == old(self).registry.base@,
            // the verified bytes only change when a download arrives
            !(event is Downloaded) ==> final(self).bytes == old(self).bytes,
            // a commit is only requested when everything checked out
            r == Ok::<FetchAction, Error>(FetchAction::Commit) ==> final(self).state
                is Committing && (final(self).bytes matches Some(b) && commit_allowed(
                final(self).spec@,
                final(self).version@,
                final(self).registry.base@,
                b@,
                bytes_view(final(self).bin),
            )),
            // every transition is forced, success paths included
            step_transition(*old(self), event, *final(self), r),
    {
        match (&self.state, event) {
            (FetchState::Start, FetchEvent::Begin) => {
                self.state = FetchState::CheckingCache;
                Ok(FetchAction::CheckCache)
            },
            (FetchState::CheckingCache, FetchEvent::CacheResult { hit }) => {
                if hit {
                    self.state = FetchState::Done { cached: true };
                    Ok(FetchAction::Stop)
                } else {
                    self.state = FetchState::Staging;
                    Ok(FetchAction::CreateStaging)
                }
            },
            (FetchState::Staging, FetchEvent::StagingReady) => {
                self.state = FetchState::Downloading;
                Ok(FetchAction::Download)
            },
            (FetchState::Downloading, FetchEvent::Downloaded { bytes }) => {
                match self.version.verify_integrity(bytes.as_slice()) {
                    Ok(()) => {},
                    Err(e) => {
                        self.state = FetchState::Failed;
                        return Err(e);
                    },
                }
                match self.version.verify_signature(&self.registry) {
                    Ok(()) => {},
                    Err(e) => {
                        self.state = FetchState::Failed;
                        return Err(e);
                    },
                }
                self.bytes = Some(bytes);
                self.state = FetchState::Unpacking;
                Ok(FetchAction::Unpack)
            },
            (FetchState::Downloading, FetchEvent::DownloadFailed { status }) => {
                self.state = FetchState::Failed;
                Err(Error::RegistryStatus { status })
            },
            (FetchState::Unpacking, FetchEvent::Unpacked) => {
                self.state = FetchState::LocatingRoot;
                Ok(FetchAction::LocateRoot)
            },
            (FetchState::LocatingRoot, FetchEvent::RootLocated) => {
                let pinned = match self.spec.version.integrity() {
                    Ok(p) => p,
                    Err(e) => {
                        self.state = FetchState::Failed;
                        return Err(e);
                    },
                };
                let is_yarn = match self.spec.name {
                    SpecName::Yarn => true,
                    _ => false,
                };
                if is_yarn && pinned.is_some() {
                    let path = match bin_path_of(&self.version) {
                        Some(p) => p,
                        None => {
                            self.state = FetchState::Failed;
                            return Err(Error::RegistryDecode);
                        },
                    };
                    self.state = FetchState::ReadingBin;
                    Ok(FetchAction::ReadBin { path })
                } else {
                    let verdict = match &self.bytes {
                        Some(b) => self.spec.verify_pinned(b.as_slice()),
                        None => Ok(()),
                    };
                    match verdict {
                        Ok(()) => {
                            self.bin = None;
                            self.state = FetchState::Committing;
                            proof {
                                if self.spec@.name == SpecName::Yarn {
                                    assert(spec_selector_integrity(self.spec@.version) matches Ok(
                                        o,
                                    ) && o is None);
                                }
                            }
                            Ok(FetchAction::Commit)
                        },
                        Err(e) => {
                            self.state = FetchState::Failed;
                            Err(e)
                        },
                    }
                }
            },
            (FetchState::ReadingBin, FetchEvent::BinRead { contents }) => {
                let contents = match contents {
                    Some(c) => c,
                    None => {
                        self.state = FetchState::Failed;
                        return Err(
                            Error::CacheIo {
                                message: String::from_str("could not read the unpacked executable"),
                            },
                        );
                    },
                };
                match self.spec.verify_pinned(contents.as_slice()) {
                    Ok(()) => {
                        self.bin = Some(contents);
                        self.state = FetchState::Committing;
                        Ok(FetchAction::Commit)
                    },
                    Err(e) => {
                        self.state = FetchState::Failed;
                        Err(e)
                    },
                }
            },
            (FetchState::Committing, FetchEvent::Committed) => {
                self.state = FetchState::Done { cached: false };
                Ok(FetchAction::Stop)
            },
            (FetchState::Done { cached }, _) => {
                let c = *cached;
                self.state = FetchState::Done { cached: c };
                Err(
                    Error::CacheIo {
                        message: String::from_str("the fetch already ended"),
                    },
                )
            },
            (_, FetchEvent::IoFailed { message }) => {
                self.state = FetchState::Failed;
                Err(Error::CacheIo { message })
            },
            _ => {
                self.state = FetchState::Failed;
                Err(
                    Error::CacheIo {
                        message: String::from_str("unexpected event for the pipeline state"),
                    },
                )
            },
        }
    }
}

/// The relative path of the tool's own executable inside the package, from
/// the version's entry-point map.
fn bin_path_of(v: &NpmVersion) -> (r: Option<String>)
    ensures
        r is Some <==> assoc(v@.bin, crate::specifier::yarn_chars()) is Some,
        r matches Some(p) ==> Some(p@) == assoc(v@.bin, crate::specifier::yarn_chars()),
{
    let key = crate::text::chars_to_string(crate::specifier::yarn_chars_vec().as_slice());
    let n = v.bin.len();
    let mut i: usize = 0;
    while i < n
        invariant
            0 <= i <= n,
            n == v.bin@.len(),
            key@ == crate::specifier::yarn_chars(),
            forall|k: int| 0 <= k < i ==> #[trigger] v@.bin[k].0 != crate::specifier::yarn_chars(),
        decreases n - i,
    {
        if crate::registry::chars_eq_str(v.bin[i].0.as_str(), key.as_str()) {
            proof {
                assert(v@.bin[i as int].0 == crate::specifier::yarn_chars());
                crate::registry::lemma_assoc_at(v@.bin, crate::specifier::yarn_chars(), i as int);
            }
            return Some(v.bin[i].1.clone());
        }
        i = i + 1;
    }
    proof {
        crate::registry::lemma_assoc_at(v@.bin, crate::specifier::yarn_chars(), n as int);
    }
    None
}

} // verus!
