//! The password vault: entries whose secrets are sealed under a key derived
//! from a master password that is never stored.

use vstd::prelude::*;
use vstd::string::StringSliceAdditionalSpecFns;
use vstd::utf8::{decode_utf8, encode_utf8, valid_utf8};
use crate::crypto::{
    aes_256_gcm_open, aes_256_gcm_seal, clock_now, decrypt, derive_key, encrypt, pbkdf2_hmac_sha256, random_bytes,
    utf8_text, CryptoError, GCM_MAX_LEN, NONCE_LEN, PBKDF2_ITERATIONS, SALT_LEN, SHA256_INPUT_LIMIT,
};
use crate::hex::{
    clock_bytes, clock_fallback_bytes, decode_from, format_uuid, from_hex, hex_decodable, hex_decoded, hex_of,
    hex_text_decodable, law_hex_roundtrip, slice_range, to_hex, uuid_text, HexError,
};
use crate::text::{append_str, chars_eq, chars_of, decimal, decimal_chars, string_of};

verus! {

/// A vault entry; the password is stored sealed, as hexadecimal text.
#[derive(Debug, Clone)]
pub struct VaultEntry {
    pub id: String,
    pub label: String,
    pub username: String,
    pub encrypted_password: String,
    pub nonce: String,
    pub url: Option<String>,
    pub notes: Option<String>,
    pub created_at: String,
    pub updated_at: String,
}

/// The vault file.
#[derive(Debug)]
pub struct Vault {
    pub version: u32,
    /// The key-derivation salt as hexadecimal text; empty until the first
    /// entry is added.
    pub salt: String,
    pub entries: Vec<VaultEntry>,
}

impl Default for Vault {
    fn default() -> (r: Vault)
        ensures
            r.version == 1,
            r.salt@.len() == 0,
            r.entries@.len() == 0,
    {
        Vault { version: 1, salt: String::new(), entries: Vec::new() }
    }
}

/// Why a vault operation failed.
#[derive(Debug, Clone, PartialEq, Eq)]
pub enum VaultError {
    /// A cryptographic step failed.
    Crypto(CryptoError),
    /// Stored hexadecimal text could not be decoded.
    Hex(HexError),
    /// No entry has the label; holds the label.
    NotFound(String),
    /// The decrypted password is not UTF-8 text.
    NotUtf8,
    /// The system clock reads a time before the Unix epoch.
    ClockBeforeEpoch,
}

/// The message shown to the user for an error.
pub open spec fn error_text(e: VaultError) -> Seq<char> {
    match e {
        VaultError::Crypto(CryptoError::RandomFailed) => "Failed to generate random bytes"@,
        VaultError::Crypto(CryptoError::InvalidNonceLength) => "Invalid nonce length"@,
        VaultError::Crypto(CryptoError::EncryptionFailed) => "Encryption failed"@,
        VaultError::Crypto(CryptoError::DecryptionFailed) => "Decryption failed — wrong master password?"@,
        VaultError::Hex(HexError::OddLength) => "Invalid hex string length"@,
        VaultError::Hex(HexError::InvalidDigit) => "Invalid hex"@,
        VaultError::NotFound(label) => "Entry '"@ + label@ + "' not found"@,
        VaultError::NotUtf8 => "Decrypted password is not valid UTF-8"@,
        VaultError::ClockBeforeEpoch => "System clock is set before the Unix epoch"@,
    }
}

impl VaultError {
    /// The message shown to the user for this error.
    pub fn message(&self) -> (r: String)
        ensures
            r@ == error_text(*self),
    {
        match self {
            VaultError::Crypto(CryptoError::RandomFailed) => String::from_str("Failed to generate random bytes"),
            VaultError::Crypto(CryptoError::InvalidNonceLength) => String::from_str("Invalid nonce length"),
            VaultError::Crypto(CryptoError::EncryptionFailed) => String::from_str("Encryption failed"),
            VaultError::Crypto(CryptoError::DecryptionFailed) => {
                String::from_str("Decryption failed — wrong master password?")
            },
            VaultError::Hex(HexError::OddLength) => String::from_str("Invalid hex string length"),
            VaultError::Hex(HexError::InvalidDigit) => String::from_str("Invalid hex"),
            VaultError::NotFound(label) => {
                let mut out: Vec<char> = Vec::new();
                append_str(&mut out, "Entry '");
                append_str(&mut out, label.as_str());
                append_str(&mut out, "' not found");
                string_of(&out)
            },
            VaultError::NotUtf8 => String::from_str("Decrypted password is not valid UTF-8"),
            VaultError::ClockBeforeEpoch => String::from_str("System clock is set before the Unix epoch"),
        }
    }
}

/// The index of the first entry, from `i` on, with the given label.
pub open spec fn label_index_from(entries: Seq<VaultEntry>, label: Seq<char>, i: int) -> Option<int>
    decreases entries.len() - i,
{
    if i < 0 || i >= entries.len() {
        None
    } else if entries[i].label@ == label {
        Some(i)
    } else {
        label_index_from(entries, label, i + 1)
    }
}

/// The index of the first entry with the given label.
pub open spec fn label_index(entries: Seq<VaultEntry>, label: Seq<char>) -> Option<int> {
    label_index_from(entries, label, 0)
}

/// The entries whose id differs from `id`, in their order.
pub open spec fn without_id(entries: Seq<VaultEntry>, id: Seq<char>) -> Seq<VaultEntry>
    decreases entries.len(),
{
    if entries.len() == 0 {
        Seq::empty()
    } else {
        let rest = without_id(entries.drop_last(), id);
        if entries.last().id@ == id {
            rest
        } else {
            rest.push(entries.last())
        }
    }
}

/// Some entry has the given id.
pub open spec fn has_id(entries: Seq<VaultEntry>, id: Seq<char>) -> bool {
    exists|i: int| 0 <= i < entries.len() && (#[trigger] entries[i]).id@ == id
}

proof fn lemma_label_index_from_bounds(entries: Seq<VaultEntry>, label: Seq<char>, i: int)
    ensures
        label_index_from(entries, label, i) matches Some(k) ==> i <= k < entries.len() && entries[k].label@ == label
            && forall|j: int| i <= j < k ==> (#[trigger] entries[j]).label@ != label,
        0 <= i && label_index_from(entries, label, i) is None ==> forall|j: int| i <= j < entries.len() ==> (#[trigger] entries[j]).label@ != label,
    decreases entries.len() - i,
{
    if i >= 0 && i < entries.len() {
        lemma_label_index_from_bounds(entries, label, i + 1);
    }
}

proof fn lemma_without_id_len(entries: Seq<VaultEntry>, id: Seq<char>)
    ensures
        without_id(entries, id).len() <= entries.len(),
        without_id(entries, id).len() < entries.len() <==> has_id(entries, id),
    decreases entries.len(),
{
    if entries.len() > 0 {
        let init = entries.drop_last();
        lemma_without_id_len(init, id);
        if has_id(init, id) {
            let k = choose|k: int| 0 <= k < init.len() && (#[trigger] init[k]).id@ == id;
            assert(entries[k] == init[k]);
        }
        if entries.last().id@ == id {
            assert(entries[entries.len() - 1].id@ == id);
        } else if has_id(entries, id) {
            let k = choose|k: int| 0 <= k < entries.len() && (#[trigger] entries[k]).id@ == id;
            assert(k < entries.len() - 1);
            assert(init[k] == entries[k]);
        }
    } else {
        assert(!has_id(entries, id));
    }
}

impl Vault {
    /// Adds an entry at the end.
    pub fn add(&mut self, entry: VaultEntry)
        ensures
            final(self).entries@ == old(self).entries@.push(entry),
            final(self).version == old(self).version,
            final(self).salt == old(self).salt,
    {
        self.entries.push(entry);
    }

    /// The first entry with the given label.
    pub fn find(&self, label: &str) -> (r: Option<&VaultEntry>)
        ensures
            match label_index(self.entries@, label@) {
                Some(i) => r == Some(&self.entries@[i]),
                None => r is None,
            },
    {
        let l = chars_of(label);
        let mut i: usize = 0;
        while i < self.entries.len()
            invariant
                0 <= i <= self.entries@.len(),
                l@ == label@,
                label_index(self.entries@, label@) == label_index_from(self.entries@, label@, i as int),
            decreases self.entries@.len() - i,
        {
            let e = &self.entries[i];
            let el = chars_of(e.label.as_str());
            if chars_eq(&el, &l) {
                return Some(e);
            }
            i = i + 1;
        }
        None
    }

    /// Removes every entry with the given id, keeping the others in order;
    /// tells whether any was removed.
    pub fn remove(&mut self, id: &str) -> (r: bool)
        ensures
            final(self).entries@ == without_id(old(self).entries@, id@),
            r == has_id(old(self).entries@, id@),
            final(self).version == old(self).version,
            final(self).salt == old(self).salt,
    {
        let want = chars_of(id);
        let ghost old_entries = self.entries@;
        let mut kept: Vec<VaultEntry> = Vec::new();
        let mut i: usize = 0;
        let n = self.entries.len();
        while i < n
            invariant
                n == self.entries@.len(),
                old_entries == self.entries@,
                0 <= i <= n,
                want@ == id@,
                kept@ == without_id(old_entries.take(i as int), id@),
            decreases n - i,
        {
            let e = &self.entries[i];
            let eid = chars_of(e.id.as_str());
            proof {
                assert(old_entries.take(i + 1).drop_last() =~= old_entries.take(i as int));
            }
            if !chars_eq(&eid, &want) {
                kept.push(e.clone_entry());
            }
            i = i + 1;
        }
        assert(old_entries.take(n as int) =~= old_entries);
        let removed = kept.len() < n;
        proof {
            lemma_without_id_len(old_entries, id@);
        }
        self.entries = kept;
        removed
    }
}

impl VaultEntry {
    /// A copy of the entry.
    pub fn clone_entry(&self) -> (r: VaultEntry)
        ensures
            r == *self,
    {
        VaultEntry {
            id: self.id.clone(),
            label: self.label.clone(),
            username: self.username.clone(),
            encrypted_password: self.encrypted_password.clone(),
            nonce: self.nonce.clone(),
            url: match &self.url {
                Some(u) => Some(u.clone()),
                None => None,
            },
            notes: match &self.notes {
                Some(u) => Some(u.clone()),
                None => None,
            },
            created_at: self.created_at.clone(),
            updated_at: self.updated_at.clone(),
        }
    }
}

/// Looking an entry up after adding one finds the earlier entry with that
/// label if there is one, and otherwise the added entry when it carries the
/// label.
pub proof fn law_find_after_add(entries: Seq<VaultEntry>, e: VaultEntry, label: Seq<char>)
    ensures
        label_index(entries.push(e), label) == match label_index(entries, label) {
            Some(i) => Some(i),
            None => if e.label@ == label {
                Some(entries.len() as int)
            } else {
                None
            },
        },
{
    lemma_label_index_from_bounds(entries, label, 0);
    lemma_label_index_from_bounds(entries.push(e), label, 0);
    let pushed = entries.push(e);
    match label_index(entries, label) {
        Some(i) => {
            assert(pushed[i] == entries[i]);
            match label_index(pushed, label) {
                Some(k) => {
                    if k < i {
                        assert(pushed[k] == entries[k]);
                    } else if k > i {
                    }
                },
                None => {},
            }
        },
        None => {
            match label_index(pushed, label) {
                Some(k) => {
                    if k < entries.len() {
                        assert(pushed[k] == entries[k]);
                    }
                },
                None => {
                    assert(pushed[entries.len() as int] == e);
                },
            }
        },
    }
}

/// After removing an id, no entry carries it, and removing it again
/// changes nothing.
pub proof fn law_remove_clears_id(entries: Seq<VaultEntry>, id: Seq<char>)
    ensures
        !has_id(without_id(entries, id), id),
        without_id(without_id(entries, id), id) == without_id(entries, id),
    decreases entries.len(),
{
    if entries.len() > 0 {
        law_remove_clears_id(entries.drop_last(), id);
        let rest = without_id(entries.drop_last(), id);
        if entries.last().id@ != id {
            let pushed = rest.push(entries.last());
            assert(pushed.drop_last() =~= rest);
            if has_id(pushed, id) {
                let k = choose|k: int| 0 <= k < pushed.len() && (#[trigger] pushed[k]).id@ == id;
                if k < rest.len() {
                    assert(pushed[k] == rest[k]);
                }
            }
        }
    } else {
        assert(!has_id(without_id(entries, id), id));
    }
}

/// The test that an entry's id differs from `id`.
pub open spec fn id_differs(id: Seq<char>) -> spec_fn(VaultEntry) -> bool {
    |e: VaultEntry| e.id@ != id
}

/// Removing an id keeps every entry with another id, in order: the entries
/// left are exactly those whose id differs.
pub proof fn law_remove_keeps_others(entries: Seq<VaultEntry>, id: Seq<char>)
    ensures
        without_id(entries, id) == entries.filter(id_differs(id)),
    decreases entries.len(),
{
    if entries.len() > 0 {
        law_remove_keeps_others(entries.drop_last(), id);
        reveal_with_fuel(Seq::filter, 1);
        assert(entries.drop_last().push(entries.last()) =~= entries);
        entries.drop_last().lemma_filter_push(entries.last(), id_differs(id));
    } else {
        assert(entries.filter(id_differs(id)) =~= Seq::<VaultEntry>::empty());
    }
}


/// The identifier made from what the random source and the clock gave: the
/// text of the first 16 random bytes; when randomness failed, the text of
/// the clock's bytes; when the clock also failed (it reads a time before
/// the epoch), `ClockBeforeEpoch`.
pub fn uuid_from(random: Result<Vec<u8>, CryptoError>, clock: Option<(u64, u32)>) -> (r: Result<String, VaultError>)
    requires
        random matches Ok(b) ==> b@.len() >= 16,
    ensures
        match random {
            Ok(b) => r matches Ok(s) && s@ == uuid_text(b@.take(16)),
            Err(_) => match clock {
                Some((secs, nanos)) => r matches Ok(s) && s@ == uuid_text(clock_bytes(secs, nanos)),
                None => r == Err::<String, VaultError>(VaultError::ClockBeforeEpoch),
            },
        },
{
    match random {
        Ok(b) => {
            let first = slice_range(&b, 0, 16);
            assert(first@ =~= b@.take(16));
            Ok(format_uuid(&first))
        },
        Err(_) => match clock {
            Some((secs, nanos)) => {
                let bytes = clock_fallback_bytes(secs, nanos);
                Ok(format_uuid(&bytes))
            },
            None => Err(VaultError::ClockBeforeEpoch),
        },
    }
}

/// A fresh identifier: the text of 16 random bytes, or of the clock's
/// reading when no randomness is at hand (the clock is read only then).
pub fn uuid() -> (r: Result<String, VaultError>)
    ensures
        r matches Ok(s) ==> exists|b: Seq<u8>| b.len() == 16 && s@ == uuid_text(b),
        r matches Err(e) ==> e == VaultError::ClockBeforeEpoch,
{
    let random = random_bytes(16);
    let clock = match random {
        Ok(_) => None,
        Err(_) => clock_now(),
    };
    let ghost given = random;
    let r = uuid_from(random, clock);
    proof {
        match given {
            Ok(b) => {
                assert(b@.take(16).len() == 16);
            },
            Err(_) => {},
        }
    }
    r
}

/// The current time as decimal seconds since the Unix epoch.
pub fn chrono_now() -> (r: Result<String, VaultError>)
    ensures
        r matches Ok(s) ==> exists|t: u64| s@ == decimal(t as nat),
        r matches Err(e) ==> e == VaultError::ClockBeforeEpoch,
{
    match clock_now() {
        Some((secs, _)) => {
            let d = decimal_chars(secs as u128);
            Ok(string_of(&d))
        },
        None => Err(VaultError::ClockBeforeEpoch),
    }
}

/// The key that a master password and salt give.
pub open spec fn vault_key(master: Seq<char>, salt: Seq<u8>) -> Seq<u8> {
    pbkdf2_hmac_sha256(PBKDF2_ITERATIONS as nat, salt, encode_utf8(master), 32)
}

/// The stored form of a password sealed under a key with a nonce.
pub open spec fn sealed_text(master: Seq<char>, salt: Seq<u8>, nonce: Seq<u8>, password: Seq<char>) -> Seq<char> {
    hex_of(aes_256_gcm_seal(vault_key(master, salt), nonce, encode_utf8(password)))
}

/// An entry holds `password` for `label`, sealed under the key of `master`
/// and `salt` with some 12-byte nonce.
pub open spec fn seals(e: VaultEntry, label: Seq<char>, password: Seq<char>, master: Seq<char>, salt: Seq<u8>) -> bool {
    &&& e.label@ == label
    &&& encode_utf8(password).len() <= GCM_MAX_LEN
    &&& exists|nonce: Seq<u8>| nonce.len() == NONCE_LEN && e.nonce@ == hex_of(nonce)
        && e.encrypted_password@ == #[trigger] sealed_text(master, salt, nonce, password)
}

/// Bounds under which key derivation accepts its inputs.
pub open spec fn derivable(master: Seq<char>, salt_len: nat) -> bool {
    salt_len + 68 < SHA256_INPUT_LIMIT && encode_utf8(master).len() < SHA256_INPUT_LIMIT
}

impl Vault {
    /// The salt: the stored one decoded, or, when none is stored yet, 32
    /// fresh random bytes, which are stored from then on.
    pub fn ensure_salt(&mut self) -> (r: Result<Vec<u8>, VaultError>)
        requires
            hex_text_decodable(old(self).salt@),
        ensures
            final(self).version == old(self).version,
            final(self).entries@ == old(self).entries@,
            old(self).salt@.len() > 0 ==> final(self).salt == old(self).salt && match hex_decoded(old(self).salt@) {
                Ok(v) => r matches Ok(w) && w@ == v,
                Err(e) => r == Err::<Vec<u8>, VaultError>(VaultError::Hex(e)),
            },
            old(self).salt@.len() == 0 ==> match r {
                Ok(w) => w@.len() == SALT_LEN && final(self).salt@ == hex_of(w@),
                Err(e) => e == VaultError::Crypto(CryptoError::RandomFailed) && final(self).salt == old(self).salt,
            },
            r matches Ok(w) ==> hex_decoded(final(self).salt@) == Ok::<Seq<u8>, HexError>(w@)
                && hex_text_decodable(final(self).salt@),
    {
        if self.salt.as_str().is_empty() {
            let s = match random_bytes(SALT_LEN) {
                Ok(s) => s,
                Err(e) => return Err(VaultError::Crypto(e)),
            };
            self.salt = to_hex(&s);
            proof {
                law_hex_roundtrip(s@);
            }
            Ok(s)
        } else {
            match from_hex(self.salt.as_str()) {
                Ok(v) => Ok(v),
                Err(e) => Err(VaultError::Hex(e)),
            }
        }
    }

    /// The stored salt, decoded.
    pub fn salt_bytes(&self) -> (r: Result<Vec<u8>, VaultError>)
        requires
            hex_text_decodable(self.salt@),
        ensures
            match hex_decoded(self.salt@) {
                Ok(v) => r matches Ok(w) && w@ == v,
                Err(e) => r == Err::<Vec<u8>, VaultError>(VaultError::Hex(e)),
            },
    {
        match from_hex(self.salt.as_str()) {
            Ok(v) => Ok(v),
            Err(e) => Err(VaultError::Hex(e)),
        }
    }

    /// Adds an entry holding `password` under `label`, sealed under the key
    /// derived from `master` and `salt`, with a fresh id and the current
    /// time (whole seconds since the epoch, in decimal, for both the creation
    /// and the update time); the username, URL and notes are left empty. It
    /// fails, leaving the entries as they were, only when the random source or
    /// the clock fails, or when the password is too long to seal.
    pub fn add_secret(&mut self, salt: &[u8], label: &str, password: &str, master: &str) -> (r: Result<(), VaultError>)
        requires
            derivable(master@, salt@.len()),
        ensures
            final(self).version == old(self).version,
            final(self).salt == old(self).salt,
            r is Err ==> final(self).entries@ == old(self).entries@,
            r matches Err(e) ==> e == VaultError::Crypto(CryptoError::RandomFailed)
                || e == VaultError::Crypto(CryptoError::EncryptionFailed) || e == VaultError::ClockBeforeEpoch,
            r == Err::<(), VaultError>(VaultError::Crypto(CryptoError::EncryptionFailed))
                ==> encode_utf8(password@).len() > GCM_MAX_LEN,
            encode_utf8(password@).len() > GCM_MAX_LEN ==> r is Err,
            r is Ok ==> final(self).entries@.len() == old(self).entries@.len() + 1
                && final(self).entries@.drop_last() == old(self).entries@
                && seals(final(self).entries@.last(), label@, password@, master@, salt@)
                && final(self).entries@.last().username@.len() == 0
                && final(self).entries@.last().url is None
                && final(self).entries@.last().notes is None
                && (exists|b: Seq<u8>| b.len() == 16 && final(self).entries@.last().id@ == uuid_text(b))
                && (exists|t: u64| final(self).entries@.last().created_at@ == decimal(t as nat))
                && (exists|t: u64| final(self).entries@.last().updated_at@ == decimal(t as nat)),
    {
        let key = derive_key(master.as_bytes(), salt);
        let (encrypted, nonce) = match encrypt(password.as_bytes(), &key) {
            Ok(p) => p,
            Err(e) => return Err(VaultError::Crypto(e)),
        };
        let id = uuid()?;
        let created_at = chrono_now()?;
        let updated_at = chrono_now()?;
        let entry = VaultEntry {
            id,
            label: String::from_str(label),
            username: String::new(),
            encrypted_password: to_hex(&encrypted),
            nonce: to_hex(&nonce),
            url: None,
            notes: None,
            created_at,
            updated_at,
        };
        proof {
            assert(entry.encrypted_password@ == sealed_text(master@, salt@, nonce@, password@));
        }
        let ghost before = self.entries@;
        self.add(entry);
        assert(self.entries@.drop_last() =~= before);
        Ok(())
    }

    /// Removes the entry found under `label` (and every entry sharing its id).
    pub fn remove_label(&mut self, label: &str) -> (r: Result<(), VaultError>)
        ensures
            final(self).version == old(self).version,
            final(self).salt == old(self).salt,
            match label_index(old(self).entries@, label@) {
                None => final(self).entries@ == old(self).entries@
                    && (r matches Err(VaultError::NotFound(l)) && l@ == label@),
                Some(i) => r is Ok && final(self).entries@ == without_id(old(self).entries@, old(self).entries@[i].id@),
            },
    {
        let id = match self.find(label) {
            Some(e) => e.id.clone(),
            None => return Err(VaultError::NotFound(String::from_str(label))),
        };
        self.remove(id.as_str());
        Ok(())
    }
}

/// Opens an entry's password with the key of `master` and `salt`:
/// decodes the sealed text and the nonce, opens, and reads the result as
/// UTF-8 text. What was sealed for `password` comes back as `password`.
pub fn open_entry(entry: &VaultEntry, salt: &[u8], master: &str) -> (r: Result<String, VaultError>)
    requires
        derivable(master@, salt@.len()),
        hex_text_decodable(entry.encrypted_password@),
        hex_text_decodable(entry.nonce@),
    ensures
        match (hex_decoded(entry.encrypted_password@), hex_decoded(entry.nonce@)) {
            (Err(e), _) => r == Err::<String, VaultError>(VaultError::Hex(e)),
            (Ok(_), Err(e)) => r == Err::<String, VaultError>(VaultError::Hex(e)),
            (Ok(c), Ok(n)) => if n.len() != NONCE_LEN {
                r == Err::<String, VaultError>(VaultError::Crypto(CryptoError::InvalidNonceLength))
            } else {
                match aes_256_gcm_open(vault_key(master@, salt@), n, c) {
                    None => r == Err::<String, VaultError>(VaultError::Crypto(CryptoError::DecryptionFailed)),
                    Some(p) => if valid_utf8(p) {
                        r matches Ok(s) && s@ == decode_utf8(p)
                    } else {
                        r == Err::<String, VaultError>(VaultError::NotUtf8)
                    },
                }
            },
        },
        forall|password: Seq<char>, nonce: Seq<u8>|
            nonce.len() == NONCE_LEN && entry.nonce@ == hex_of(nonce) && encode_utf8(password).len() <= GCM_MAX_LEN
            && entry.encrypted_password@ == #[trigger] sealed_text(master@, salt@, nonce, password)
            ==> (r matches Ok(s) && s@ == password),
{
    let key = derive_key(master.as_bytes(), salt);
    let r = match from_hex(entry.encrypted_password.as_str()) {
        Err(e) => Err(VaultError::Hex(e)),
        Ok(ct) => match from_hex(entry.nonce.as_str()) {
            Err(e) => Err(VaultError::Hex(e)),
            Ok(nonce) => match decrypt(&ct, &nonce, &key) {
                Err(e) => Err(VaultError::Crypto(e)),
                Ok(plain) => match utf8_text(plain) {
                    Some(s) => Ok(s),
                    None => Err(VaultError::NotUtf8),
                },
            },
        },
    };
    proof {
        assert forall|password: Seq<char>, n: Seq<u8>|
            n.len() == NONCE_LEN && entry.nonce@ == hex_of(n) && encode_utf8(password).len() <= GCM_MAX_LEN
            && entry.encrypted_password@ == #[trigger] sealed_text(master@, salt@, n, password)
            implies (r matches Ok(s) && s@ == password) by {
            law_hex_roundtrip(n);
            law_hex_roundtrip(aes_256_gcm_seal(vault_key(master@, salt@), n, encode_utf8(password)));
            vstd::utf8::encode_utf8_valid_utf8(password);
            vstd::utf8::encode_utf8_decode_utf8(password);
        }
    }
    r
}

/// An entry that seals a password holds hexadecimal text that decodes to
/// the nonce and the sealed bytes, so that opening it is defined.
pub proof fn law_sealed_entry_decodable(e: VaultEntry, label: Seq<char>, password: Seq<char>, master: Seq<char>, salt: Seq<u8>)
    requires
        seals(e, label, password, master, salt),
    ensures
        hex_text_decodable(e.encrypted_password@),
        hex_text_decodable(e.nonce@),
{
    let nonce = choose|nonce: Seq<u8>| nonce.len() == NONCE_LEN && e.nonce@ == hex_of(nonce)
        && e.encrypted_password@ == #[trigger] sealed_text(master, salt, nonce, password);
    law_hex_roundtrip(nonce);
    law_hex_roundtrip(aes_256_gcm_seal(vault_key(master, salt), nonce, encode_utf8(password)));
}

/// The rows listing the vault: each entry's label, username and URL.
pub open spec fn listing_rows(entries: Seq<VaultEntry>) -> Seq<Seq<char>> {
    if entries.len() == 0 {
        seq!["Vault is empty."@]
    } else {
        seq!["Vault entries:"@] + entries.map_values(|e: VaultEntry| listing_row(e))
    }
}

/// One row of the vault listing.
pub open spec fn listing_row(e: VaultEntry) -> Seq<char> {
    "  "@ + e.label@ + " — "@ + e.username@ + " ("@ + match e.url {
        Some(u) => u@,
        None => "no url"@,
    } + ")"@
}

fn listing_row_exec(e: &VaultEntry) -> (r: String)
    ensures
        r@ == listing_row(*e),
{
    let mut out: Vec<char> = Vec::new();
    append_str(&mut out, "  ");
    append_str(&mut out, e.label.as_str());
    append_str(&mut out, " — ");
    append_str(&mut out, e.username.as_str());
    append_str(&mut out, " (");
    match &e.url {
        Some(u) => append_str(&mut out, u.as_str()),
        None => append_str(&mut out, "no url"),
    }
    append_str(&mut out, ")");
    string_of(&out)
}

impl Vault {
    /// The rows printed when listing the vault.
    pub fn listing(&self) -> (r: Vec<String>)
        ensures
            r@.len() == listing_rows(self.entries@).len(),
            forall|i: int| 0 <= i < r@.len() ==> #[trigger] r@[i]@ == listing_rows(self.entries@)[i],
    {
        let mut out: Vec<String> = Vec::new();
        if self.entries.len() == 0 {
            out.push(String::from_str("Vault is empty."));
            return out;
        }
        out.push(String::from_str("Vault entries:"));
        let mut i: usize = 0;
        while i < self.entries.len()
            invariant
                0 <= i <= self.entries@.len(),
                self.entries@.len() > 0,
                out@.len() == i + 1,
                out@[0]@ == "Vault entries:"@,
                forall|k: int| 0 <= k < i ==> #[trigger] out@[k + 1]@ == listing_row(self.entries@[k]),
            decreases self.entries@.len() - i,
        {
            out.push(listing_row_exec(&self.entries[i]));
            i = i + 1;
        }
        proof {
            let want = listing_rows(self.entries@);
            assert forall|k: int| 0 <= k < out@.len() implies #[trigger] out@[k]@ == want[k] by {
                if k > 0 {
                    assert(out@[(k - 1) + 1]@ == listing_row(self.entries@[k - 1]));
                }
            }
        }
        out
    }
}

} // verus!
