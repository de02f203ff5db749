//! The key catalog: derives the listing of managed keys from the public-key
//! files found in the key store. Each public-key file is parsed; files
//! holding non-ASCII text (an openssh public key line is ASCII), files that
//! do not parse, and public keys whose private counterpart is missing, are
//! skipped — an unreadable stray file degrades to an omitted entry, never
//! to a failed listing.

use vstd::prelude::*;
use vstd::seq_lib::*;
use vstd::string::StrSliceExecFns;
use vstd::utf8::is_ascii_chars;

use crate::strutil::starts_with_sub;
use crate::strutil::str_eq;

verus! {

/// Whether openssh-formatted public key text parses as a public key.
pub uninterp spec fn pub_key_parses(content: Seq<char>) -> bool;

/// The key type identifier, in the form `ssh-<algorithm>` or
/// `ecdsa-sha2-<curve>`, of public key text that parses.
pub uninterp spec fn pub_key_type(content: Seq<char>) -> Seq<char>;

/// The base64-encoded SHA-256 fingerprint of public key text that parses.
pub uninterp spec fn pub_key_fingerprint(content: Seq<char>) -> Seq<char>;

/// Relies on openssh_keys::PublicKey: parse, keytype and fingerprint are
/// all functions of the key text alone — parse reads only its argument,
/// and the other two only the parsed structure. Only ASCII text may be
/// handed to parse: its fallback path, which strips a leading options or
/// hostname token, collects a character index and then slices the text by
/// bytes, so on non-ASCII text the slice can land mid-character and panic;
/// on ASCII text character and byte positions coincide.
#[verifier::external_body]
fn parse_public_key(content: &str) -> (r: Option<(String, String)>)
    requires
        is_ascii_chars(content@),
    ensures
        r.is_some() == pub_key_parses(content@),
        r.is_some() ==> r.unwrap().0@ == pub_key_type(content@) && r.unwrap().1@
            == pub_key_fingerprint(content@),
{
    match openssh_keys::PublicKey::parse(content) {
        Ok(key) => Some((key.keytype().to_string(), key.fingerprint())),
        Err(_) => None,
    }
}

/// The RFC 3339 rendering of a UTC timestamp, for the timestamps chrono
/// accepts.
pub uninterp spec fn rfc3339_of(secs: i64, nanos: u32) -> Option<Seq<char>>;

/// Relies on chrono::DateTime::<Utc>::from_timestamp and to_rfc3339: both
/// are functions of the timestamp alone, and from_timestamp accepts every
/// timestamp with a valid nanosecond part from the epoch up to the year
/// 9999.
#[verifier::external_body]
fn format_rfc3339(secs: i64, nanos: u32) -> (r: Option<String>)
    ensures
        r.is_some() == rfc3339_of(secs, nanos).is_some(),
        r.is_some() ==> r.unwrap()@ == rfc3339_of(secs, nanos).unwrap(),
        0 <= secs < 253402300800i64 && nanos < 1000000000 ==> r.is_some(),
{
    chrono::DateTime::<chrono::Utc>::from_timestamp(secs, nanos).map(|d| d.to_rfc3339())
}

/// One managed key as the listing reports it.
pub struct SSHKey {
    /// Base name of the key's files in the store.
    pub name: String,
    /// Base64-encoded SHA-256 fingerprint of the public key.
    pub fingerprint: String,
    /// Modification time of the private key file, RFC 3339, a proxy for
    /// when the key was last used.
    pub last_used: String,
    /// Short algorithm identifier, such as `rsa` or `ed25519`.
    pub key_type: String,
}

/// The mathematical content of an [`SSHKey`].
pub struct SSHKeyView {
    pub name: Seq<char>,
    pub fingerprint: Seq<char>,
    pub last_used: Seq<char>,
    pub key_type: Seq<char>,
}

impl View for SSHKey {
    type V = SSHKeyView;

    open spec fn view(&self) -> SSHKeyView {
        SSHKeyView {
            name: self.name@,
            fingerprint: self.fingerprint@,
            last_used: self.last_used@,
            key_type: self.key_type@,
        }
    }
}

/// A file modification time: seconds and nanoseconds since the epoch.
#[derive(Clone, Copy)]
pub struct FileTime {
    pub secs: i64,
    pub nanos: u32,
}

/// What the surrounding application reports about one file found in the
/// key store directory: its base name, its text, and the modification time
/// of the private counterpart when that counterpart exists.
pub struct PubFileRecord {
    /// Base name of the file inside the store directory.
    pub file_name: String,
    /// The file's text.
    pub content: String,
    /// Modification time of the private counterpart file, or `None` when
    /// no private counterpart exists or its metadata cannot be read.
    pub private_mtime: Option<FileTime>,
}

/// The mathematical content of a [`PubFileRecord`].
pub struct PubFileRecordView {
    pub file_name: Seq<char>,
    pub content: Seq<char>,
    pub private_mtime: Option<FileTime>,
}

impl View for PubFileRecord {
    type V = PubFileRecordView;

    open spec fn view(&self) -> PubFileRecordView {
        PubFileRecordView {
            file_name: self.file_name@,
            content: self.content@,
            private_mtime: self.private_mtime,
        }
    }
}

/// The base name of a public-key file without its `.pub` suffix, or `None`
/// for a file that is not named like a public key (the suffix alone does
/// not count: a key needs a non-empty name).
pub open spec fn pub_stem_spec(file_name: Seq<char>) -> Option<Seq<char>> {
    if file_name.len() > 4 && file_name.skip(file_name.len() - 4) == seq!['.', 'p', 'u', 'b'] {
        Some(file_name.take(file_name.len() - 4))
    } else {
        None
    }
}

/// Strips the `.pub` suffix from a public-key file name.
pub fn public_stem(file_name: &str) -> (r: Option<String>)
    ensures
        r.is_some() == pub_stem_spec(file_name@).is_some(),
        r.is_some() ==> r.unwrap()@ == pub_stem_spec(file_name@).unwrap(),
{
    let n = file_name.unicode_len();
    if n <= 4 {
        assert(pub_stem_spec(file_name@).is_none());
        return None;
    }
    if file_name.get_char(n - 4) == '.' && file_name.get_char(n - 3) == 'p' && file_name.get_char(
        n - 2,
    ) == 'u' && file_name.get_char(n - 1) == 'b' {
        assert(file_name@.skip(n as int - 4) =~= seq!['.', 'p', 'u', 'b']);
        Some(file_name.substring_char(0, n - 4).to_owned())
    } else {
        assert(file_name@.skip(n as int - 4) != seq!['.', 'p', 'u', 'b']) by {
            let suf = file_name@.skip(n as int - 4);
            assert(suf[0] == file_name@[n - 4]);
            assert(suf[1] == file_name@[n - 3]);
            assert(suf[2] == file_name@[n - 2]);
            assert(suf[3] == file_name@[n - 1]);
        }
        None
    }
}

/// The short algorithm identifier of an rfc4253 key type: `rsa`,
/// `ed25519`, `dsa`, or `ecdsa` for any curve; an unrecognized key type is
/// reported as it stands.
pub open spec fn short_type_spec(kt: Seq<char>) -> Seq<char> {
    if kt == "ssh-rsa"@ {
        "rsa"@
    } else if kt == "ssh-ed25519"@ {
        "ed25519"@
    } else if kt == "ssh-dss"@ {
        "dsa"@
    } else if kt.len() >= 11 && kt.take(11) == "ecdsa-sha2-"@ {
        "ecdsa"@
    } else {
        kt
    }
}

/// Maps an rfc4253 key type to its short algorithm identifier.
pub fn short_key_type(kt: &str) -> (r: String)
    ensures
        r@ == short_type_spec(kt@),
{
    if str_eq(kt, "ssh-rsa") {
        "rsa".to_owned()
    } else if str_eq(kt, "ssh-ed25519") {
        "ed25519".to_owned()
    } else if str_eq(kt, "ssh-dss") {
        "dsa".to_owned()
    } else if starts_with_sub(kt, "ecdsa-sha2-") {
        proof {
            reveal_strlit("ecdsa-sha2-");
        }
        "ecdsa".to_owned()
    } else {
        proof {
            reveal_strlit("ecdsa-sha2-");
        }
        kt.to_owned()
    }
}

/// The catalog entry derived from one file of the store, or `None` when
/// the file is not named like a public key, does not parse as one, or has
/// no readable private counterpart.
pub open spec fn catalog_entry_spec(rec: PubFileRecordView) -> Option<SSHKeyView> {
    match pub_stem_spec(rec.file_name) {
        None => None,
        Some(stem) => if !is_ascii_chars(rec.content) || !pub_key_parses(rec.content) {
            None
        } else {
            match rec.private_mtime {
                None => None,
                Some(t) => match rfc3339_of(t.secs, t.nanos) {
                    None => None,
                    Some(stamp) => Some(
                        SSHKeyView {
                            name: stem,
                            fingerprint: pub_key_fingerprint(rec.content),
                            last_used: stamp,
                            key_type: short_type_spec(pub_key_type(rec.content)),
                        },
                    ),
                },
            }
        },
    }
}

/// Derives the catalog entry of one store file, per [`catalog_entry_spec`].
pub fn catalog_entry(rec: &PubFileRecord) -> (r: Option<SSHKey>)
    ensures
        r.is_some() == catalog_entry_spec(rec@).is_some(),
        r.is_some() ==> r.unwrap()@ == catalog_entry_spec(rec@).unwrap(),
{
    let stem = match public_stem(rec.file_name.as_str()) {
        None => { return None },
        Some(stem) => stem,
    };
    if !rec.content.as_str().is_ascii() {
        return None;
    }
    let (keytype, fingerprint) = match parse_public_key(rec.content.as_str()) {
        None => { return None },
        Some(parsed) => parsed,
    };
    let time = match &rec.private_mtime {
        None => { return None },
        Some(t) => *t,
    };
    let stamp = match format_rfc3339(time.secs, time.nanos) {
        None => { return None },
        Some(stamp) => stamp,
    };
    Some(
        SSHKey {
            name: stem,
            fingerprint,
            last_used: stamp,
            key_type: short_key_type(keytype.as_str()),
        },
    )
}

/// A stray file whose text is not ASCII or does not parse as a public key
/// yields no catalog entry, whatever its name and timestamps; and a public
/// key without a private counterpart yields none either.
pub proof fn lemma_stray_files_skipped(rec: PubFileRecordView)
    ensures
        !is_ascii_chars(rec.content) ==> catalog_entry_spec(rec) is None,
        !pub_key_parses(rec.content) ==> catalog_entry_spec(rec) is None,
        rec.private_mtime is None ==> catalog_entry_spec(rec) is None,
{
}

/// The listing of a single record is that record's entry, or empty when it
/// yields none.
pub proof fn lemma_catalog_singleton(rec: PubFileRecordView)
    ensures
        catalog_spec(seq![rec]) == match catalog_entry_spec(rec) {
            Some(entry) => seq![entry],
            None => Seq::<SSHKeyView>::empty(),
        },
{
    Seq::lemma_filter_map_singleton(rec, |r: PubFileRecordView| catalog_entry_spec(r));
}

/// The whole listing: the entries of the records that yield one, in the
/// records' order.
pub open spec fn catalog_spec(records: Seq<PubFileRecordView>) -> Seq<SSHKeyView> {
    records.filter_map(|rec: PubFileRecordView| catalog_entry_spec(rec))
}

/// Derives the listing of managed keys from the store files the
/// application found. Records that yield no entry are skipped; the call
/// itself never fails.
pub fn build_catalog(records: &Vec<PubFileRecord>) -> (r: Vec<SSHKey>)
    ensures
        r@.map_values(|k: SSHKey| k@) == catalog_spec(
            records@.map_values(|rec: PubFileRecord| rec@),
        ),
{
    let ghost rv = records@.map_values(|rec: PubFileRecord| rec@);
    let ghost f = |rec: PubFileRecordView| catalog_entry_spec(rec);
    let mut r: Vec<SSHKey> = Vec::new();
    let mut i: usize = 0;
    proof {
        assert(rv.take(0).filter_map(f) =~= r@.map_values(|k: SSHKey| k@)) by {
            reveal_with_fuel(Seq::filter_map, 1);
            assert(rv.take(0) =~= Seq::<PubFileRecordView>::empty());
        }
    }
    while i < records.len()
        invariant
            rv == records@.map_values(|rec: PubFileRecord| rec@),
            f == |rec: PubFileRecordView| catalog_entry_spec(rec),
            0 <= i <= records@.len(),
            r@.map_values(|k: SSHKey| k@) == rv.take(i as int).filter_map(f),
        decreases records@.len() - i,
    {
        proof {
            rv.lemma_filter_map_take_succ(f, i as int);
        }
        match catalog_entry(&records[i]) {
            Some(entry) => {
                proof {
                    assert((r@.push(entry)).map_values(|k: SSHKey| k@) =~= r@.map_values(
                        |k: SSHKey| k@,
                    ) + seq![entry@]);
                }
                r.push(entry);
            },
            None => {
                proof {
                    assert(r@.map_values(|k: SSHKey| k@) =~= r@.map_values(|k: SSHKey| k@)
                        + Seq::<SSHKeyView>::empty());
                }
            },
        }
        i = i + 1;
    }
    proof {
        assert(rv.take(rv.len() as int) =~= rv);
    }
    r
}

} // verus!
