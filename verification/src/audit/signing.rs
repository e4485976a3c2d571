//! Digests of exported entries, and the checks on a signed export.
//!
//! A batch of entries is serialized and hashed; the digest is signed with
//! ed25519 elsewhere. A verifier recomputes the digest from the entries, and
//! the host checks the signature against the digest and the signer's key.

use vstd::prelude::*;

use crate::audit::hashing::{sha256, sha256_of, MAX_HASH_INPUT};
use crate::audit::records::{AuditLog, AuditLogView};
use crate::base::bytes::{append_be, be_bytes, lemma_be_bytes_len, lemma_word_bytes, Word32};

verus! {

/// Sixty-four bytes: an ed25519 signature.
#[derive(Clone, Copy, Debug, PartialEq, Eq, Structural)]
pub struct Word64 {
    pub first: Word32,
    pub second: Word32,
}

/// A deterministically-ordered, signed export of audit log entries.
#[derive(Debug, PartialEq, Eq)]
pub struct SignedExport {
    /// The raw audit entries.
    pub entries: Vec<AuditLog>,
    /// SHA-256 digest of the serialized entries.
    pub digest: Word32,
    /// ed25519 signature over `digest`.
    pub signature: Word64,
    /// Ed25519 public key of the signer.
    pub signer: Word32,
}

/// What an export holds of one entry: its compact fields and its hash.
#[derive(Clone, Copy, Debug, PartialEq, Eq, Structural)]
pub struct EntryDigest {
    pub seq: u64,
    pub timestamp: u64,
    pub event_type: u32,
    pub permissions: u32,
    pub hash: Word32,
}

/// The compact fields of an entry.
pub open spec fn compact(e: AuditLogView) -> EntryDigest {
    EntryDigest {
        seq: e.seq,
        timestamp: e.timestamp,
        event_type: e.event_type.spec_code(),
        permissions: e.permissions,
        hash: e.hash,
    }
}

/// The bytes of one entry in an export, numbers most significant byte first.
pub open spec fn compact_bytes(c: EntryDigest) -> Seq<u8> {
    be_bytes(c.seq as nat, 8) + be_bytes(c.timestamp as nat, 8) + be_bytes(c.event_type as nat, 4)
        + be_bytes(c.permissions as nat, 4) + c.hash.bytes()
}

/// The bytes of the first `n` entries in an export.
pub open spec fn entries_bytes(entries: Seq<AuditLogView>, n: int) -> Seq<u8>
    decreases n,
{
    if n <= 0 {
        Seq::empty()
    } else {
        entries_bytes(entries, n - 1) + compact_bytes(compact(entries[n - 1]))
    }
}

/// The bytes of an export: the number of entries, then the entries.
pub open spec fn export_bytes(entries: Seq<AuditLogView>) -> Seq<u8> {
    be_bytes(entries.len(), 4) + entries_bytes(entries, entries.len() as int)
}

/// The views of a list of entries.
pub open spec fn views(entries: Seq<AuditLog>) -> Seq<AuditLogView> {
    entries.map_values(|e: AuditLog| e@)
}

/// An entry takes fifty-six bytes.
pub proof fn lemma_compact_len(c: EntryDigest)
    ensures
        compact_bytes(c).len() == 56,
{
    lemma_be_bytes_len(c.seq as nat, 8);
    lemma_be_bytes_len(c.timestamp as nat, 8);
    lemma_be_bytes_len(c.event_type as nat, 4);
    lemma_be_bytes_len(c.permissions as nat, 4);
    lemma_word_bytes(c.hash);
}

/// The entries of an export take fifty-six bytes each.
pub proof fn lemma_entries_len(entries: Seq<AuditLogView>, n: int)
    requires
        0 <= n <= entries.len(),
    ensures
        entries_bytes(entries, n).len() == 56 * n,
    decreases n,
{
    if n > 0 {
        lemma_entries_len(entries, n - 1);
        lemma_compact_len(compact(entries[n - 1]));
    }
}

/// Serialize a batch of audit log entries into a deterministic byte payload.
///
/// Layout (all big-endian): the number of entries (4 bytes), then per entry
/// `seq` (8), `timestamp` (8), `event_type` (4), `permissions` (4) and `hash` (32).
pub fn serialize_entries(entries: &Vec<AuditLog>) -> (r: Vec<u8>)
    requires
        entries@.len() <= u32::MAX,
    ensures
        r@ == export_bytes(views(entries@)),
        r@.len() == 4 + 56 * entries@.len(),
{
    let mut out: Vec<u8> = Vec::new();
    append_be(&mut out, entries.len() as u128, 4);
    let ghost head = out@;
    let ghost all = views(entries@);
    assert(head =~= be_bytes(all.len(), 4));
    let mut i: usize = 0;
    assert(out@ =~= head + entries_bytes(all, 0));
    while i < entries.len()
        invariant
            i <= entries@.len(),
            all == views(entries@),
            out@ == head + entries_bytes(all, i as int),
        decreases entries@.len() - i,
    {
        let e: &AuditLog = &entries[i];
        append_be(&mut out, e.seq as u128, 8);
        append_be(&mut out, e.timestamp as u128, 8);
        append_be(&mut out, e.event_type.code() as u128, 4);
        append_be(&mut out, e.permissions as u128, 4);
        append_be(&mut out, e.hash.hi, 16);
        append_be(&mut out, e.hash.lo, 16);
        i += 1;
        assert(out@ =~= head + entries_bytes(all, i as int));
    }
    proof {
        lemma_entries_len(all, all.len() as int);
        lemma_be_bytes_len(all.len(), 4);
    }
    out
}

/// The digest of an export.
pub open spec fn digest_of(entries: Seq<AuditLogView>) -> Word32 {
    Word32::of(sha256_of(export_bytes(entries)))
}

/// An export of this many entries can be hashed.
pub open spec fn exportable(n: nat) -> bool {
    4 + 56 * n <= MAX_HASH_INPUT
}

/// Compute the SHA-256 digest of a serialized entry payload.
///
/// This is the value that gets signed.
pub fn compute_digest(entries: &Vec<AuditLog>) -> (d: Word32)
    requires
        exportable(entries@.len()),
    ensures
        d == digest_of(views(entries@)),
{
    let payload: Vec<u8> = serialize_entries(entries);
    let digest: [u8; 32] = sha256(payload.as_slice());
    Word32::from_bytes(&digest)
}

/// Why an export is refused before its signature is looked at.
#[derive(Clone, Copy, Debug, PartialEq, Eq, Structural)]
pub enum ExportError {
    /// The signer's public key does not match the provided key.
    SignerMismatch,
    /// The digest is not that of the entries: they may have been tampered with.
    DigestMismatch,
}

/// A signature that the host must find valid.
#[derive(Clone, Copy, Debug, PartialEq, Eq, Structural)]
pub struct SignatureClaim {
    /// The key under which the signature must hold.
    pub public_key: Word32,
    /// The signed message.
    pub message: Word32,
    /// The signature.
    pub signature: Word64,
}

/// What the check of an export gives.
pub open spec fn export_check(
    entries: Seq<AuditLogView>,
    digest: Word32,
    signature: Word64,
    signer: Word32,
    public_key: Word32,
) -> Result<SignatureClaim, ExportError> {
    if signer != public_key {
        Err(ExportError::SignerMismatch)
    } else if digest != digest_of(entries) {
        Err(ExportError::DigestMismatch)
    } else {
        Ok(SignatureClaim { public_key, message: digest, signature })
    }
}

/// Verify a [`SignedExport`] against a known public key.
///
/// The public key must match `export.signer` and the digest must be that of
/// the entries. What is left to verify is the returned signature, under the
/// public key, over the digest.
pub fn verify_export(export: &SignedExport, public_key: Word32) -> (r: Result<
    SignatureClaim,
    ExportError,
>)
    requires
        exportable(export.entries@.len()),
    ensures
        r == export_check(
            views(export.entries@),
            export.digest,
            export.signature,
            export.signer,
            public_key,
        ),
{
    if export.signer != public_key {
        return Err(ExportError::SignerMismatch);
    }
    let expected: Word32 = compute_digest(&export.entries);
    if expected != export.digest {
        return Err(ExportError::DigestMismatch);
    }
    Ok(SignatureClaim { public_key, message: export.digest, signature: export.signature })
}

} // verus!
