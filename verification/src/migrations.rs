//! Schema migrations: naming and checksums of migration files, the ledger of
//! applied migrations, and the decisions of a run, a baseline and a status
//! report.
use crate::text::{lex_le, lex_lt, owned, str_eq, str_lt};
use crate::timestamp::Timestamp;
use sha2::{Digest, Sha256};
use std::path::PathBuf;
use vstd::prelude::*;
use vstd::string::*;

verus! {

#[verifier::external_type_specification]
#[verifier::external_body]
pub struct ExPathBuf(PathBuf);

/// A migration file found on disk.
#[derive(Debug)]
pub struct MigrationFile {
    pub version: String,
    pub filename: String,
    pub checksum_sha256: String,
    pub path: PathBuf,
}

/// A row of the ledger of applied migrations.
#[derive(Debug)]
pub struct SchemaMigrationRecord {
    pub version: String,
    pub filename: String,
    pub checksum_sha256: String,
    pub applied_at: Timestamp,
    pub applied_by: Option<String>,
    pub execution_ms: Option<i64>,
    pub success: bool,
}

fn clone_opt_string(s: &Option<String>) -> (r: Option<String>)
    ensures
        r == *s,
{
    match s {
        Some(v) => Some(v.clone()),
        None => None,
    }
}

impl Clone for SchemaMigrationRecord {
    fn clone(&self) -> (r: Self)
        ensures
            r == *self,
    {
        SchemaMigrationRecord {
            version: self.version.clone(),
            filename: self.filename.clone(),
            checksum_sha256: self.checksum_sha256.clone(),
            applied_at: self.applied_at,
            applied_by: clone_opt_string(&self.applied_by),
            execution_ms: self.execution_ms,
            success: self.success,
        }
    }
}

/// A migration that was applied by a run.
#[derive(Debug)]
pub struct AppliedMigration {
    pub version: String,
    pub filename: String,
    pub execution_ms: i64,
}

/// A migration that was left alone (already applied, or recorded by a baseline).
#[derive(Debug)]
pub struct SkippedMigration {
    pub version: String,
    pub filename: String,
}

/// A ledger checksum that differs from the file's.
#[derive(Debug)]
pub struct ChecksumMismatch {
    pub version: String,
    pub filename: String,
    pub expected_sha256: String,
    pub actual_sha256: String,
}

/// What a run applied and skipped.
#[derive(Debug)]
pub struct MigrationRunReport {
    pub total_migrations: usize,
    pub applied: Vec<AppliedMigration>,
    pub skipped: Vec<SkippedMigration>,
}

/// What a baseline found and recorded.
#[derive(Debug)]
pub struct MigrationBaselineReport {
    pub target_version: String,
    pub dry_run: bool,
    pub total_considered: usize,
    pub already_applied: Vec<SkippedMigration>,
    pub recorded: Vec<SkippedMigration>,
    pub would_record: Vec<SkippedMigration>,
}

/// The state of the migrations against the ledger.
#[derive(Debug)]
pub struct MigrationStatusReport {
    pub total_migrations: usize,
    pub applied_count: usize,
    pub pending_count: usize,
    pub latest_applied: Option<SchemaMigrationRecord>,
    pub checksum_mismatches: Vec<ChecksumMismatch>,
    pub pending: Vec<MigrationFile>,
}

/// Settings of a migration run.
#[derive(Debug)]
pub struct MigrationRunConfig {
    pub migrations_dir: PathBuf,
    pub applied_by: Option<String>,
}

/// Settings of a baseline.
#[derive(Debug)]
pub struct MigrationBaselineConfig {
    pub migrations_dir: PathBuf,
    pub up_to: String,
    pub confirm_production_baseline: bool,
    pub dry_run: bool,
    pub applied_by: Option<String>,
}

/// Why a migration operation refused to go on.
#[derive(Debug)]
pub enum MigrationError {
    /// The file name has no `_` after its version.
    MissingVersionPrefix { filename: String },
    /// The part before the first `_` is not four ASCII digits.
    InvalidVersion { filename: String },
    /// Two files share a version.
    DuplicateVersion { version: String },
    /// The ledger's checksum differs from the file's.
    ChecksumMismatch { version: String, filename: String, ledger_sha256: String, file_sha256: String },
    /// A baseline was asked for without the explicit confirmation.
    BaselineNotConfirmed,
    /// No file has the baseline's target version.
    BaselineTargetMissing { target_version: String },
    /// The database has no tables besides the ledgers.
    BaselineEmptySchema,
    /// Required tables are missing, or no candidate table exists.
    BaselineUnexpectedSchema { missing_required: Vec<String>, has_candidate_table: bool },
    /// Tables exist that only later migrations than the target create.
    BaselineTargetTooLow { target_version: String, incompatible: Vec<String> },
}

/// The character is an ASCII digit.
pub open spec fn is_ascii_digit(c: char) -> bool {
    '0' <= c && c <= '9'
}

/// The index of the first `_` in the text, if any.
pub open spec fn first_underscore(s: Seq<char>) -> Option<int> {
    if exists|k: int| 0 <= k < s.len() && s[k] == '_' {
        Some(choose|k: int| 0 <= k < s.len() && s[k] == '_' && forall|j: int| 0 <= j < k ==> s[j] != '_')
    } else {
        None
    }
}

/// The version of a migration file name: the part before the first `_`, when that is
/// four ASCII digits.
pub open spec fn version_of(filename: Seq<char>) -> Option<Seq<char>> {
    match first_underscore(filename) {
        Some(k) => if k == 4 && forall|j: int| 0 <= j < 4 ==> is_ascii_digit(#[trigger] filename[j]) {
            Some(filename.take(4))
        } else {
            None
        },
        None => None,
    }
}

/// The version of a migration file name (`0001_create_users.sql` has `0001`).
pub fn parse_migration_version(filename: &str) -> (r: Result<String, MigrationError>)
    ensures
        r is Ok <==> version_of(filename@) is Some,
        r is Ok ==> r->Ok_0@ == version_of(filename@)->0,
        r is Err ==> (first_underscore(filename@) is None <==> r->Err_0 is MissingVersionPrefix),
        r is Err ==> (r->Err_0 is MissingVersionPrefix || r->Err_0 is InvalidVersion),
        r matches Err(MigrationError::MissingVersionPrefix { filename: g }) ==> g@ == filename@,
        r matches Err(MigrationError::InvalidVersion { filename: g }) ==> g@ == filename@,
{
    let n = filename.unicode_len();
    let mut k: usize = 0;
    while k < n && filename.get_char(k) != '_'
        invariant
            n == filename@.len(),
            k <= n,
            forall|j: int| 0 <= j < k ==> filename@[j] != '_',
        decreases n - k,
    {
        k = k + 1;
    }
    if k == n {
        proof {
            assert(!exists|j: int| 0 <= j < filename@.len() && filename@[j] == '_');
        }
        return Err(MigrationError::MissingVersionPrefix { filename: owned(filename) });
    }
    proof {
        assert(filename@[k as int] == '_');
        let w = choose|j: int| 0 <= j < filename@.len() && filename@[j] == '_' && forall|i: int| 0 <= i < j ==> filename@[i] != '_';
        assert(w == k);
        assert(first_underscore(filename@) == Some(k as int));
    }
    if k != 4 {
        return Err(MigrationError::InvalidVersion { filename: owned(filename) });
    }
    let mut j: usize = 0;
    while j < 4
        invariant
            n == filename@.len(),
            4 < n,
            j <= 4,
            first_underscore(filename@) == Some(4int),
            forall|i: int| 0 <= i < j ==> is_ascii_digit(#[trigger] filename@[i]),
        decreases 4 - j,
    {
        let c = filename.get_char(j);
        if !('0' <= c && c <= '9') {
            return Err(MigrationError::InvalidVersion { filename: owned(filename) });
        }
        j = j + 1;
    }
    let prefix = filename.substring_char(0, 4);
    Ok(prefix.to_owned())
}

/// What `Sha256::digest` returns for the bytes.
pub uninterp spec fn sha256_of(data: Seq<u8>) -> Seq<u8>;

/// Calls `Sha256::digest`; its result is named `sha256_of` and has the 32 bytes of a
/// SHA-256 digest.
#[verifier::external_body]
fn sha256_digest(data: &[u8]) -> (r: Vec<u8>)
    ensures
        r@ == sha256_of(data@),
        r@.len() == 32,
{
    Sha256::digest(data).to_vec()
}

/// The lower-case hexadecimal digit of a value below 16.
pub open spec fn hex_digit(d: int) -> char {
    if d == 0 { '0' } else if d == 1 { '1' } else if d == 2 { '2' } else if d == 3 { '3' }
    else if d == 4 { '4' } else if d == 5 { '5' } else if d == 6 { '6' } else if d == 7 { '7' }
    else if d == 8 { '8' } else if d == 9 { '9' } else if d == 10 { 'a' } else if d == 11 { 'b' }
    else if d == 12 { 'c' } else if d == 13 { 'd' } else if d == 14 { 'e' } else { 'f' }
}

/// Two lower-case hexadecimal digits per byte, most significant first.
pub open spec fn hex_of(bytes: Seq<u8>) -> Seq<char>
    decreases bytes.len(),
{
    if bytes.len() == 0 {
        Seq::empty()
    } else {
        let b = bytes.last() as int;
        hex_of(bytes.drop_last()).push(hex_digit(b / 16)).push(hex_digit(b % 16))
    }
}

fn hex_str(d: u8) -> (s: &'static str)
    requires
        d < 16,
    ensures
        s@ == seq![hex_digit(d as int)],
{
    proof {
        reveal_strlit("0");
        reveal_strlit("1");
        reveal_strlit("2");
        reveal_strlit("3");
        reveal_strlit("4");
        reveal_strlit("5");
        reveal_strlit("6");
        reveal_strlit("7");
        reveal_strlit("8");
        reveal_strlit("9");
        reveal_strlit("a");
        reveal_strlit("b");
        reveal_strlit("c");
        reveal_strlit("d");
        reveal_strlit("e");
        reveal_strlit("f");
    }
    let s = if d == 0 { "0" } else if d == 1 { "1" } else if d == 2 { "2" } else if d == 3 { "3" }
    else if d == 4 { "4" } else if d == 5 { "5" } else if d == 6 { "6" } else if d == 7 { "7" }
    else if d == 8 { "8" } else if d == 9 { "9" } else if d == 10 { "a" } else if d == 11 { "b" }
    else if d == 12 { "c" } else if d == 13 { "d" } else if d == 14 { "e" } else { "f" };
    proof {
        assert(s@ =~= seq![hex_digit(d as int)]);
    }
    s
}

/// The bytes in lower-case hexadecimal.
pub fn hex_encode(bytes: &[u8]) -> (s: String)
    ensures
        s@ == hex_of(bytes@),
{
    let mut s = String::new();
    let mut i: usize = 0;
    while i < bytes.len()
        invariant
            i <= bytes@.len(),
            s@ == hex_of(bytes@.take(i as int)),
        decreases bytes@.len() - i,
    {
        let b = bytes[i];
        s = s.concat(hex_str(b / 16));
        s = s.concat(hex_str(b % 16));
        proof {
            assert(bytes@.take(i as int + 1).drop_last() =~= bytes@.take(i as int));
            assert(s@ =~= hex_of(bytes@.take(i as int + 1)));
        }
        i = i + 1;
    }
    proof {
        assert(bytes@.take(bytes@.len() as int) =~= bytes@);
    }
    s
}

/// The SHA-256 digest of the contents in lower-case hexadecimal.
pub fn sha256_hex(contents: &[u8]) -> (s: String)
    ensures
        s@ == hex_of(sha256_of(contents@)),
        s@.len() == 64,
{
    let digest = sha256_digest(contents);
    let s = hex_encode(digest.as_slice());
    proof {
        lemma_hex_len(digest@);
    }
    s
}

proof fn lemma_hex_len(bytes: Seq<u8>)
    ensures
        hex_of(bytes).len() == 2 * bytes.len(),
    decreases bytes.len(),
{
    if bytes.len() > 0 {
        lemma_hex_len(bytes.drop_last());
    }
}

/// The ledger's checksum of a migration matches the file's.
pub fn verify_checksum(file: &MigrationFile, record: &SchemaMigrationRecord) -> (r: Result<(), MigrationError>)
    ensures
        r is Ok <==> record.checksum_sha256@ == file.checksum_sha256@,
        r is Err ==> r->Err_0 is ChecksumMismatch,
{
    if !str_eq(record.checksum_sha256.as_str(), file.checksum_sha256.as_str()) {
        return Err(
            MigrationError::ChecksumMismatch {
                version: file.version.clone(),
                filename: file.filename.clone(),
                ledger_sha256: record.checksum_sha256.clone(),
                file_sha256: file.checksum_sha256.clone(),
            },
        );
    }
    Ok(())
}


/// File `a` comes before file `b` in the stable order by file name.
pub open spec fn file_before(files: Seq<MigrationFile>, a: int, b: int) -> bool {
    lex_lt(files[a].filename@, files[b].filename@) || (files[a].filename@ == files[b].filename@ && a < b)
}

/// An earlier file (in name order) has the version of file `b`.
pub open spec fn repeats_version(files: Seq<MigrationFile>, b: int) -> bool {
    exists|a: int| 0 <= a < files.len() && a != b && files[a].version@ == files[b].version@ && file_before(files, a, b)
}

/// No two files share a version.
pub open spec fn versions_distinct(files: Seq<MigrationFile>) -> bool {
    forall|a: int, b: int| 0 <= a < b < files.len() ==> (#[trigger] files[a]).version@ != (#[trigger] files[b]).version@
}

/// The files are in non-decreasing order of file name.
pub open spec fn sorted_by_filename(files: Seq<MigrationFile>) -> bool {
    forall|a: int, b: int| 0 <= a < b < files.len() ==> lex_le((#[trigger] files[a]).filename@, (#[trigger] files[b]).filename@)
}

proof fn lemma_file_before_trans(files: Seq<MigrationFile>, a: int, b: int, c: int)
    requires
        0 <= a < files.len(),
        0 <= b < files.len(),
        0 <= c < files.len(),
        file_before(files, a, b),
        file_before(files, b, c),
    ensures
        file_before(files, a, c),
{
    if lex_lt(files[a].filename@, files[b].filename@) && lex_lt(files[b].filename@, files[c].filename@) {
        crate::text::lemma_lex_lt_trans(files[a].filename@, files[b].filename@, files[c].filename@);
    }
}

proof fn lemma_file_before_total(files: Seq<MigrationFile>, a: int, b: int)
    requires
        0 <= a < files.len(),
        0 <= b < files.len(),
        a != b,
    ensures
        file_before(files, a, b) != file_before(files, b, a),
{
    crate::text::lemma_lex_lt_trichotomy(files[a].filename@, files[b].filename@);
    crate::text::lemma_lex_lt_irrefl(files[a].filename@);
}

fn file_before_exec(files: &Vec<MigrationFile>, a: usize, b: usize) -> (r: bool)
    requires
        a < files@.len(),
        b < files@.len(),
    ensures
        r == file_before(files@, a as int, b as int),
{
    str_lt(files[a].filename.as_str(), files[b].filename.as_str()) || (str_eq(
        files[a].filename.as_str(),
        files[b].filename.as_str(),
    ) && a < b)
}

fn repeats_version_exec(files: &Vec<MigrationFile>, b: usize) -> (r: bool)
    requires
        b < files@.len(),
    ensures
        r == repeats_version(files@, b as int),
{
    let mut a: usize = 0;
    while a < files.len()
        invariant
            a <= files@.len(),
            b < files@.len(),
            forall|x: int| 0 <= x < a ==> !(x != b && (#[trigger] files@[x]).version@ == files@[b as int].version@ && file_before(files@, x, b as int)),
        decreases files@.len() - a,
    {
        if a != b && str_eq(files[a].version.as_str(), files[b].version.as_str()) && file_before_exec(files, a, b) {
            return true;
        }
        a = a + 1;
    }
    false
}

/// One entry of a migrations directory: its file name, its path and, for a migration
/// file, its contents.
#[derive(Debug)]
pub struct MigrationEntry {
    pub filename: String,
    pub path: PathBuf,
    pub contents: Vec<u8>,
}

/// The name is that of a migration file: it ends in `.sql` after at least one other
/// character (so that `.sql` is its extension).
pub open spec fn is_migration_file_name(name: Seq<char>) -> bool {
    &&& name.len() > 4
    &&& name[name.len() - 4] == '.'
    &&& name[name.len() - 3] == 's'
    &&& name[name.len() - 2] == 'q'
    &&& name[name.len() - 1] == 'l'
}

/// Whether the directory entry with this name is a migration file.
pub fn migration_file_name(name: &str) -> (b: bool)
    ensures
        b == is_migration_file_name(name@),
{
    let n = name.unicode_len();
    n > 4 && name.get_char(n - 4) == '.' && name.get_char(n - 3) == 's' && name.get_char(n - 2) == 'q'
        && name.get_char(n - 1) == 'l'
}

/// The entries that are migration files, in order.
pub open spec fn migration_entries(entries: Seq<MigrationEntry>) -> Seq<MigrationEntry>
    decreases entries.len(),
{
    if entries.len() == 0 {
        Seq::empty()
    } else {
        let rest = migration_entries(entries.drop_last());
        if is_migration_file_name(entries.last().filename@) {
            rest.push(entries.last())
        } else {
            rest
        }
    }
}

/// The file is the one built from the entry: same name and path, the version that the
/// name carries, and the lower-case hexadecimal SHA-256 of the contents, which is
/// sixty-four characters long.
pub open spec fn built_from(f: MigrationFile, e: MigrationEntry) -> bool {
    &&& f.filename@ == e.filename@
    &&& f.path == e.path
    &&& version_of(e.filename@) is Some
    &&& f.version@ == version_of(e.filename@)->0
    &&& f.checksum_sha256@ == hex_of(sha256_of(e.contents@))
    &&& f.checksum_sha256@.len() == 64
}

/// Every entry's name carries a version.
pub open spec fn all_versioned(es: Seq<MigrationEntry>) -> bool {
    forall|k: int| 0 <= k < es.len() ==> version_of((#[trigger] es[k]).filename@) is Some
}

/// No two entries' names carry the same version.
pub open spec fn entry_versions_distinct(es: Seq<MigrationEntry>) -> bool {
    forall|a: int, b: int|
        0 <= a < b < es.len() ==> version_of((#[trigger] es[a]).filename@) != version_of((#[trigger] es[b]).filename@)
}

/// `k` is the first entry whose name carries no version.
pub open spec fn first_unversioned(es: Seq<MigrationEntry>, k: int) -> bool {
    &&& 0 <= k < es.len()
    &&& version_of(es[k].filename@) is None
    &&& forall|j: int| 0 <= j < k ==> version_of((#[trigger] es[j]).filename@) is Some
}

proof fn lemma_versions_distinct_iff(files: Seq<MigrationFile>, es: Seq<MigrationEntry>)
    requires
        files.len() == es.len(),
        forall|k: int| 0 <= k < files.len() ==> built_from(#[trigger] files[k], es[k]),
    ensures
        versions_distinct(files) <==> entry_versions_distinct(es),
{
    if versions_distinct(files) {
        assert forall|a: int, b: int| 0 <= a < b < es.len() implies version_of((#[trigger] es[a]).filename@)
            != version_of((#[trigger] es[b]).filename@) by {
            assert(built_from(files[a], es[a]) && built_from(files[b], es[b]));
            assert(files[a].version@ != files[b].version@);
        }
    }
    if entry_versions_distinct(es) {
        assert forall|a: int, b: int| 0 <= a < b < files.len() implies (#[trigger] files[a]).version@
            != (#[trigger] files[b]).version@ by {
            assert(built_from(files[a], es[a]) && built_from(files[b], es[b]));
            assert(version_of(es[a].filename@) != version_of(es[b].filename@));
        }
    }
}

proof fn lemma_migration_entries_prefix(s: Seq<MigrationEntry>, m: int)
    requires
        0 <= m <= s.len(),
    ensures
        migration_entries(s.take(m)).len() <= migration_entries(s).len(),
        forall|j: int| 0 <= j < migration_entries(s.take(m)).len() ==> migration_entries(s)[j] == #[trigger] migration_entries(s.take(m))[j],
    decreases s.len(),
{
    if m == s.len() {
        assert(s.take(m) =~= s);
    } else {
        let d = s.drop_last();
        assert(s.take(m) =~= d.take(m));
        lemma_migration_entries_prefix(d, m);
    }
}

/// The migration files of a directory's entries: entries whose names do not end in
/// `.sql` are ignored; each other entry becomes a file with the version of its name and
/// the SHA-256 of its contents; the files come sorted by name. Refused at the first
/// `.sql` name without a four-digit version prefix, and when two files share a version.
pub fn migration_files_from_entries(entries: Vec<MigrationEntry>) -> (r: Result<Vec<MigrationFile>, MigrationError>)
    ensures
        ({
            let es = migration_entries(entries@);
            &&& r is Ok <==> all_versioned(es) && entry_versions_distinct(es)
            &&& r is Ok ==> sorted_by_filename(r->Ok_0@) && r->Ok_0@.len() == es.len() && exists|built: Seq<MigrationFile>|
                built.len() == es.len() && (forall|k: int| 0 <= k < es.len() ==> built_from(#[trigger] built[k], es[k]))
                    && r->Ok_0@.to_multiset() == built.to_multiset()
            &&& !all_versioned(es) ==> exists|k: int| first_unversioned(es, k) && (
                (r matches Err(MigrationError::MissingVersionPrefix { filename: g }) && g@ == es[k].filename@
                    && first_underscore(es[k].filename@) is None)
                || (r matches Err(MigrationError::InvalidVersion { filename: g }) && g@ == es[k].filename@
                    && first_underscore(es[k].filename@) is Some))
            &&& all_versioned(es) && !entry_versions_distinct(es) ==> r matches Err(MigrationError::DuplicateVersion { .. })
        }),
{
    let ghost orig = entries@;
    let total = entries.len();
    let mut rest = entries;
    let mut files: Vec<MigrationFile> = Vec::new();
    let mut i: usize = 0;
    proof {
        assert(orig.take(0) =~= Seq::<MigrationEntry>::empty());
    }
    while rest.len() > 0
        invariant
            orig == entries@,
            orig.len() == total,
            i + rest@.len() == orig.len(),
            rest@ == orig.skip(i as int),
            files@.len() == migration_entries(orig.take(i as int)).len(),
            all_versioned(migration_entries(orig.take(i as int))),
            forall|k: int| 0 <= k < files@.len() ==> built_from(#[trigger] files@[k], migration_entries(orig.take(i as int))[k]),
        decreases rest@.len(),
    {
        let ghost before = rest@;
        let e = rest.remove(0);
        let ghost prev = migration_entries(orig.take(i as int));
        proof {
            before.remove_ensures(0);
            assert(rest@ =~= orig.skip(i as int + 1));
            assert(orig.take(i as int + 1).drop_last() =~= orig.take(i as int));
            assert(orig.take(i as int + 1).last() == e);
        }
        if migration_file_name(e.filename.as_str()) {
            let version = match parse_migration_version(e.filename.as_str()) {
                Ok(v) => v,
                Err(err) => {
                    proof {
                        let es = migration_entries(orig);
                        lemma_migration_entries_prefix(orig, i as int + 1);
                        let k = prev.len() as int;
                        assert(migration_entries(orig.take(i as int + 1)) =~= prev.push(e));
                        assert(migration_entries(orig.take(i as int + 1))[k] == e);
                        assert(es[k] == e);
                        assert(first_unversioned(es, k)) by {
                            assert forall|j: int| 0 <= j < k implies version_of((#[trigger] es[j]).filename@) is Some by {
                                assert(migration_entries(orig.take(i as int + 1))[j] == prev[j]);
                                assert(es[j] == prev[j]);
                            }
                        }
                    }
                    return Err(err);
                },
            };
            let checksum_sha256 = sha256_hex(e.contents.as_slice());
            let f = MigrationFile { version, filename: e.filename, checksum_sha256, path: e.path };
            let ghost old_files = files@;
            files.push(f);
            proof {
                assert(migration_entries(orig.take(i as int + 1)) == prev.push(e));
                assert forall|k: int| 0 <= k < files@.len() implies built_from(#[trigger] files@[k], migration_entries(orig.take(i as int + 1))[k]) by {
                    if k < files@.len() - 1 {
                        assert(files@[k] == old_files[k]);
                        assert(built_from(old_files[k], prev[k]));
                    }
                }
                assert(all_versioned(prev.push(e))) by {
                    assert forall|k: int| 0 <= k < prev.len() + 1 implies version_of((#[trigger] prev.push(e)[k]).filename@) is Some by {
                        if k < prev.len() {
                            assert(prev.push(e)[k] == prev[k]);
                        }
                    }
                }
            }
        } else {
            proof {
                assert(migration_entries(orig.take(i as int + 1)) == prev);
            }
        }
        i = i + 1;
    }
    proof {
        assert(orig.take(orig.len() as int) =~= orig);
        lemma_versions_distinct_iff(files@, migration_entries(orig));
    }
    let ghost built = files@;
    let r = finalize_migration_files(files);
    proof {
        if r is Ok {
            assert(r->Ok_0@.to_multiset().len() == r->Ok_0@.len()) by {
                r->Ok_0@.to_multiset_ensures();
            }
            assert(built.to_multiset().len() == built.len()) by {
                built.to_multiset_ensures();
            }
        }
    }
    r
}

/// Sorts the files by name (stably) and refuses two files with one version, naming the
/// version of the first file, in name order, whose version an earlier file already has.
pub fn finalize_migration_files(files: Vec<MigrationFile>) -> (r: Result<Vec<MigrationFile>, MigrationError>)
    ensures
        r is Ok <==> versions_distinct(files@),
        r is Ok ==> r->Ok_0@.to_multiset() == files@.to_multiset() && sorted_by_filename(r->Ok_0@),
        r is Err ==> (r->Err_0 matches MigrationError::DuplicateVersion { version } && exists|b: int|
            0 <= b < files@.len() && repeats_version(files@, b) && files@[b].version@ == version@
                && forall|c: int| 0 <= c < files@.len() && repeats_version(files@, c) ==> !file_before(files@, c, b)),
{
    let mut best: Option<usize> = None;
    let mut b: usize = 0;
    while b < files.len()
        invariant
            b <= files@.len(),
            match best {
                Some(x) => x < b && repeats_version(files@, x as int) && forall|c: int|
                    0 <= c < b && repeats_version(files@, c) ==> !file_before(files@, c, x as int),
                None => forall|c: int| 0 <= c < b ==> !repeats_version(files@, c),
            },
        decreases files@.len() - b,
    {
        if repeats_version_exec(&files, b) {
            let take = match best {
                Some(x) => file_before_exec(&files, b, x),
                None => true,
            };
            if take {
                proof {
                    if let Some(x) = best {
                        assert forall|c: int| 0 <= c < b + 1 && repeats_version(files@, c) implies !file_before(files@, c, b as int) by {
                            if c == b {
                                crate::text::lemma_lex_lt_irrefl(files@[c].filename@);
                            }
                            if c < b && file_before(files@, c, b as int) {
                                lemma_file_before_trans(files@, c, b as int, x as int);
                            }
                        }
                    } else {
                        assert forall|c: int| 0 <= c < b + 1 && repeats_version(files@, c) implies !file_before(files@, c, b as int) by {
                            crate::text::lemma_lex_lt_irrefl(files@[c].filename@);
                        }
                    }
                }
                best = Some(b);
            } else {
                proof {
                    let x = best->0;
                    lemma_file_before_total(files@, b as int, x as int);
                }
            }
        }
        b = b + 1;
    }
    match best {
        Some(x) => {
            return Err(MigrationError::DuplicateVersion { version: files[x].version.clone() });
        },
        None => {},
    }
    proof {
        assert forall|a: int, c: int| 0 <= a < c < files@.len() implies (#[trigger] files@[a]).version@ != (#[trigger] files@[c]).version@ by {
            if files@[a].version@ == files@[c].version@ {
                lemma_file_before_total(files@, a, c);
                if !file_before(files@, a, c) {
                    assert(repeats_version(files@, a));
                } else {
                    assert(repeats_version(files@, c));
                }
            }
        }
    }
    Ok(sort_by_filename(files))
}

proof fn lemma_insert_to_multiset<A>(s: Seq<A>, pos: int, x: A)
    requires
        0 <= pos <= s.len(),
    ensures
        s.insert(pos, x).to_multiset() =~= s.to_multiset().insert(x),
{
    let a = s.subrange(0, pos);
    let b = s.subrange(pos, s.len() as int);
    assert(s =~= a + b);
    vstd::seq_lib::lemma_multiset_commutative(a, b);
    vstd::seq_lib::lemma_multiset_commutative(a.push(x), b);
    a.to_multiset_ensures();
}

fn sort_by_filename(files: Vec<MigrationFile>) -> (r: Vec<MigrationFile>)
    ensures
        r@.to_multiset() == files@.to_multiset(),
        sorted_by_filename(r@),
{
    let ghost orig = files@;
    let mut rest = files;
    let mut sorted: Vec<MigrationFile> = Vec::new();
    proof {
        assert(rest@ =~= orig.subrange(0, orig.len() as int));
        vstd::seq_lib::lemma_multiset_commutative(sorted@, rest@);
        assert(sorted@ + rest@ =~= orig);
    }
    while rest.len() > 0
        invariant
            sorted@.to_multiset().add(rest@.to_multiset()) == orig.to_multiset(),
            sorted_by_filename(sorted@),
        decreases rest@.len(),
    {
        let ghost before_rest = rest@;
        let f = rest.remove(0);
        proof {
            before_rest.remove_ensures(0);
            assert(before_rest =~= seq![f] + rest@);
            vstd::seq_lib::lemma_multiset_commutative(seq![f], rest@);
            seq![f].to_multiset_ensures();
            Seq::<MigrationFile>::empty().to_multiset_ensures();
            assert(seq![f] =~= Seq::<MigrationFile>::empty().push(f));
        }
        let mut pos: usize = 0;
        while pos < sorted.len() && !str_lt(f.filename.as_str(), sorted[pos].filename.as_str())
            invariant
                pos <= sorted@.len(),
                forall|k: int| 0 <= k < pos ==> !lex_lt(f.filename@, (#[trigger] sorted@[k]).filename@),
            decreases sorted@.len() - pos,
        {
            pos = pos + 1;
        }
        let ghost old_sorted = sorted@;
        sorted.insert(pos, f);
        proof {
            old_sorted.insert_ensures(pos as int, f);
            lemma_insert_to_multiset(old_sorted, pos as int, f);
            assert forall|a: int, b: int| 0 <= a < b < sorted@.len() implies lex_le((#[trigger] sorted@[a]).filename@, (#[trigger] sorted@[b]).filename@) by {
                if b < pos {
                    assert(sorted@[a] == old_sorted[a] && sorted@[b] == old_sorted[b]);
                } else if b == pos {
                    assert(sorted@[a] == old_sorted[a]);
                    crate::text::lemma_lex_lt_trichotomy(f.filename@, old_sorted[a].filename@);
                } else if a < pos {
                    assert(sorted@[a] == old_sorted[a] && sorted@[b] == old_sorted[b - 1]);
                    crate::text::lemma_lex_lt_trichotomy(f.filename@, old_sorted[a].filename@);
                    if pos < b - 1 {
                        assert(lex_le(old_sorted[pos as int].filename@, old_sorted[b - 1].filename@));
                    }
                    lemma_lex_le_chain(old_sorted[a].filename@, f.filename@, old_sorted[pos as int].filename@, old_sorted[b - 1].filename@, pos < b - 1);
                } else if a == pos {
                    assert(sorted@[b] == old_sorted[b - 1]);
                    if pos < b - 1 {
                        assert(lex_le(old_sorted[pos as int].filename@, old_sorted[b - 1].filename@));
                        if lex_lt(f.filename@, old_sorted[pos as int].filename@) && lex_lt(old_sorted[pos as int].filename@, old_sorted[b - 1].filename@) {
                            crate::text::lemma_lex_lt_trans(f.filename@, old_sorted[pos as int].filename@, old_sorted[b - 1].filename@);
                        }
                    }
                } else {
                    assert(sorted@[a] == old_sorted[a - 1] && sorted@[b] == old_sorted[b - 1]);
                }
            }
        }
    }
    proof {
        assert(rest@ =~= Seq::<MigrationFile>::empty());
        Seq::<MigrationFile>::empty().to_multiset_ensures();
    }
    sorted
}

proof fn lemma_lex_le_chain(a: Seq<char>, x: Seq<char>, p: Seq<char>, c: Seq<char>, has_p: bool)
    requires
        lex_le(a, x),
        has_p ==> lex_lt(x, p) && lex_le(p, c),
        !has_p ==> lex_lt(x, c),
    ensures
        lex_le(a, c),
{
    if has_p {
        if lex_lt(p, c) {
            crate::text::lemma_lex_lt_trans(x, p, c);
        }
    }
    if lex_lt(a, x) {
        crate::text::lemma_lex_lt_trans(a, x, c);
    }
}


/// The applied migrations by version, as the ledger table holds them.
#[derive(Debug)]
pub struct MigrationLedger {
    records: Vec<SchemaMigrationRecord>,
}

/// The ledger built by inserting the records in order, a later record replacing an
/// earlier one of the same version.
pub open spec fn ledger_of(records: Seq<SchemaMigrationRecord>) -> Map<Seq<char>, SchemaMigrationRecord>
    decreases records.len(),
{
    if records.len() == 0 {
        Map::empty()
    } else {
        ledger_of(records.drop_last()).insert(records.last().version@, records.last())
    }
}

impl View for MigrationLedger {
    type V = Map<Seq<char>, SchemaMigrationRecord>;

    closed spec fn view(&self) -> Map<Seq<char>, SchemaMigrationRecord> {
        Map::new(
            |v: Seq<char>| exists|k: int| 0 <= k < self.records@.len() && (#[trigger] self.records@[k]).version@ == v,
            |v: Seq<char>| self.records@[choose|k: int| 0 <= k < self.records@.len() && (#[trigger] self.records@[k]).version@ == v],
        )
    }
}

impl MigrationLedger {
    #[verifier::type_invariant]
    spec fn distinct_versions(self) -> bool {
        forall|a: int, b: int| 0 <= a < b < self.records@.len() ==> (#[trigger] self.records@[a]).version@ != (#[trigger] self.records@[b]).version@
    }

    /// The ledger of the given rows (by version; a later row replaces an earlier one).
    pub fn from_records(records: Vec<SchemaMigrationRecord>) -> (l: MigrationLedger)
        ensures
            l@ == ledger_of(records@),
    {
        let mut out: Vec<SchemaMigrationRecord> = Vec::new();
        let mut rest = records;
        let ghost orig = rest@;
        let n = rest.len();
        let mut i: usize = 0;
        proof {
            assert(orig.take(0) =~= Seq::<SchemaMigrationRecord>::empty());
            assert(ledger_of(orig.take(0)) =~= Map::<Seq<char>, SchemaMigrationRecord>::empty());
            assert(Self::map_of(out@) =~= Map::<Seq<char>, SchemaMigrationRecord>::empty());
        }
        while rest.len() > 0
            invariant
                orig.len() == n,
                i + rest@.len() == orig.len(),
                rest@ == orig.skip(i as int),
                forall|a: int, b: int| 0 <= a < b < out@.len() ==> (#[trigger] out@[a]).version@ != (#[trigger] out@[b]).version@,
                Self::map_of(out@) == ledger_of(orig.take(i as int)),
            decreases rest@.len(),
        {
            let ghost before = rest@;
            let r = rest.remove(0);
            proof {
                before.remove_ensures(0);
                assert(rest@ =~= orig.skip(i as int + 1));
                assert(orig.take(i as int + 1).drop_last() =~= orig.take(i as int));
                assert(orig.take(i as int + 1).last() == r);
            }
            let mut k: usize = 0;
            while k < out.len() && !str_eq(out[k].version.as_str(), r.version.as_str())
                invariant
                    k <= out@.len(),
                    forall|j: int| 0 <= j < k ==> (#[trigger] out@[j]).version@ != r.version@,
                decreases out@.len() - k,
            {
                k = k + 1;
            }
            let ghost old_out = out@;
            if k < out.len() {
                out.set(k, r);
                proof {
                    assert(Self::map_of(out@) =~= Self::map_of(old_out).insert(r.version@, r)) by {
                        assert forall|v: Seq<char>| #[trigger] Self::map_of(out@).contains_key(v) == Self::map_of(old_out).insert(r.version@, r).contains_key(v) by {
                            if Self::map_of(old_out).contains_key(v) {
                                let j = choose|j: int| 0 <= j < old_out.len() && (#[trigger] old_out[j]).version@ == v;
                                assert(out@[j].version@ == v);
                            }
                            if Self::map_of(out@).contains_key(v) {
                                let j = choose|j: int| 0 <= j < out@.len() && (#[trigger] out@[j]).version@ == v;
                                if j != k {
                                    assert(old_out[j].version@ == v);
                                }
                            }
                        }
                        assert forall|v: Seq<char>| #[trigger] Self::map_of(out@).contains_key(v) implies Self::map_of(out@)[v] == Self::map_of(old_out).insert(r.version@, r)[v] by {
                            let j = choose|j: int| 0 <= j < out@.len() && (#[trigger] out@[j]).version@ == v;
                            if v == r.version@ {
                                assert(j == k);
                            } else {
                                assert(old_out[j].version@ == v);
                                let j2 = choose|j2: int| 0 <= j2 < old_out.len() && (#[trigger] old_out[j2]).version@ == v;
                                assert(j2 == j);
                            }
                        }
                    }
                }
            } else {
                out.push(r);
                proof {
                    assert(Self::map_of(out@) =~= Self::map_of(old_out).insert(r.version@, r)) by {
                        assert forall|v: Seq<char>| #[trigger] Self::map_of(out@).contains_key(v) == Self::map_of(old_out).insert(r.version@, r).contains_key(v) by {
                            if Self::map_of(old_out).contains_key(v) {
                                let j = choose|j: int| 0 <= j < old_out.len() && (#[trigger] old_out[j]).version@ == v;
                                assert(out@[j].version@ == v);
                            }
                            if Self::map_of(out@).contains_key(v) {
                                let j = choose|j: int| 0 <= j < out@.len() && (#[trigger] out@[j]).version@ == v;
                                if j < old_out.len() {
                                    assert(old_out[j].version@ == v);
                                }
                            }
                            if v == r.version@ {
                                assert(out@[old_out.len() as int].version@ == v);
                            }
                        }
                        assert forall|v: Seq<char>| #[trigger] Self::map_of(out@).contains_key(v) implies Self::map_of(out@)[v] == Self::map_of(old_out).insert(r.version@, r)[v] by {
                            let j = choose|j: int| 0 <= j < out@.len() && (#[trigger] out@[j]).version@ == v;
                            if v == r.version@ {
                                assert(j == old_out.len());
                            } else {
                                assert(old_out[j].version@ == v);
                                let j2 = choose|j2: int| 0 <= j2 < old_out.len() && (#[trigger] old_out[j2]).version@ == v;
                                assert(j2 == j);
                            }
                        }
                    }
                }
            }
            i = i + 1;
        }
        proof {
            assert(orig.take(orig.len() as int) =~= orig);
        }
        let l = MigrationLedger { records: out };
        proof {
            assert(l@ =~= Self::map_of(out@));
        }
        l
    }

    /// The map that records with distinct versions make.
    pub open spec fn map_of(recs: Seq<SchemaMigrationRecord>) -> Map<Seq<char>, SchemaMigrationRecord> {
        Map::new(
            |v: Seq<char>| exists|k: int| 0 <= k < recs.len() && (#[trigger] recs[k]).version@ == v,
            |v: Seq<char>| recs[choose|k: int| 0 <= k < recs.len() && (#[trigger] recs[k]).version@ == v],
        )
    }

    /// The record of a version, if the ledger has one.
    pub fn get(&self, version: &str) -> (r: Option<&SchemaMigrationRecord>)
        ensures
            match r {
                Some(x) => self@.contains_key(version@) && *x == self@[version@],
                None => !self@.contains_key(version@),
            },
    {
        proof {
            use_type_invariant(self);
        }
        let mut k: usize = 0;
        while k < self.records.len()
            invariant
                self.distinct_versions(),
                k <= self.records@.len(),
                forall|j: int| 0 <= j < k ==> (#[trigger] self.records@[j]).version@ != version@,
            decreases self.records@.len() - k,
        {
            if str_eq(self.records[k].version.as_str(), version) {
                proof {
                    let j = choose|j: int| 0 <= j < self.records@.len() && (#[trigger] self.records@[j]).version@ == version@;
                    assert(j == k);
                }
                return Some(&self.records[k]);
            }
            k = k + 1;
        }
        None
    }

    /// The number of migrations in the ledger.
    pub fn len(&self) -> (n: usize)
        ensures
            n == self@.dom().len(),
    {
        proof {
            use_type_invariant(self);
            self.lemma_dom_len();
        }
        self.records.len()
    }

    proof fn lemma_dom_len(&self)
        requires
            self.distinct_versions(),
        ensures
            self@.dom().len() == self.records@.len(),
            self@.dom().finite(),
    {
        let vs = self.records@.map_values(|r: SchemaMigrationRecord| r.version@);
        assert(self@.dom() =~= vs.to_set()) by {
            assert forall|v: Seq<char>| self@.dom().contains(v) <==> vs.to_set().contains(v) by {
                if self@.dom().contains(v) {
                    let j = choose|j: int| 0 <= j < self.records@.len() && (#[trigger] self.records@[j]).version@ == v;
                    assert(vs[j] == v);
                }
                if vs.to_set().contains(v) {
                    let j = choose|j: int| 0 <= j < vs.len() && vs[j] == v;
                    assert(self.records@[j].version@ == v);
                }
            }
        }
        assert(vs.no_duplicates()) by {
            assert forall|a: int, b: int| 0 <= a < vs.len() && 0 <= b < vs.len() && a != b implies vs[a] != vs[b] by {
                if a < b {
                    assert(self.records@[a].version@ != self.records@[b].version@);
                } else {
                    assert(self.records@[b].version@ != self.records@[a].version@);
                }
            }
        }
        vs.unique_seq_to_set();
    }
}


/// What a run does with one migration file.
#[derive(Clone, Copy, Debug, PartialEq, Eq, Structural)]
pub enum MigrationStep {
    /// The ledger has it, with the same checksum: leave it.
    Skip,
    /// The ledger lacks it: execute and record it.
    Apply,
}

/// The steps of a run, in file order, and why it stopped early, if it did.
#[derive(Debug)]
pub struct MigrationRunPlan {
    pub steps: Vec<MigrationStep>,
    pub failure: Option<MigrationError>,
}

/// The version and file name of each file that the steps skip, in file order (the
/// `k`-th step is that of the `k`-th file).
pub open spec fn skipped_entries(files: Seq<MigrationFile>, steps: Seq<MigrationStep>) -> Seq<
    (Seq<char>, Seq<char>),
>
    decreases steps.len(),
{
    if steps.len() == 0 {
        Seq::empty()
    } else {
        let prev = skipped_entries(files, steps.drop_last());
        let f = files[steps.len() - 1];
        if steps.last() is Skip {
            prev.push((f.version@, f.filename@))
        } else {
            prev
        }
    }
}

/// What a run over `files` reports once it has applied `applied` following `plan`: the
/// plan's failure, if it stopped at one; otherwise every file counted, the applied
/// migrations, and the files that its steps skipped.
pub fn migration_run_outcome(
    files: &Vec<MigrationFile>,
    plan: MigrationRunPlan,
    applied: Vec<AppliedMigration>,
) -> (r: Result<MigrationRunReport, MigrationError>)
    requires
        plan.steps@.len() <= files@.len(),
    ensures
        r is Err <==> plan.failure is Some,
        r matches Err(e) ==> plan.failure == Some(e),
        r matches Ok(rep) ==> {
            &&& rep.total_migrations == files@.len()
            &&& rep.applied@ == applied@
            &&& rep.skipped@.map_values(|m: SkippedMigration| skipped_view(m)) == skipped_entries(
                files@,
                plan.steps@,
            )
        },
{
    if let Some(e) = plan.failure {
        return Err(e);
    }
    let steps = &plan.steps;
    let mut skipped: Vec<SkippedMigration> = Vec::new();
    let mut k: usize = 0;
    while k < steps.len()
        invariant
            k <= steps@.len(),
            steps@.len() <= files@.len(),
            skipped@.map_values(|m: SkippedMigration| skipped_view(m)) == skipped_entries(
                files@,
                steps@.take(k as int),
            ),
        decreases steps@.len() - k,
    {
        proof {
            assert(steps@.take(k as int + 1).drop_last() =~= steps@.take(k as int));
            assert(steps@.take(k as int + 1).last() == steps@[k as int]);
        }
        match steps[k] {
            MigrationStep::Skip => {
                let f = &files[k];
                let ghost before = skipped@;
                skipped.push(SkippedMigration { version: f.version.clone(), filename: f.filename.clone() });
                proof {
                    assert(skipped@.map_values(|m: SkippedMigration| skipped_view(m)) =~= before.map_values(
                        |m: SkippedMigration| skipped_view(m),
                    ).push((files@[k as int].version@, files@[k as int].filename@)));
                }
            },
            MigrationStep::Apply => {},
        }
        k = k + 1;
    }
    proof {
        assert(steps@.take(steps@.len() as int) =~= steps@);
    }
    Ok(MigrationRunReport { total_migrations: files.len(), applied, skipped })
}

/// The step for a file: skip what the ledger has, apply the rest.
pub open spec fn step_for(file: MigrationFile, ledger: Map<Seq<char>, SchemaMigrationRecord>) -> MigrationStep {
    if ledger.contains_key(file.version@) {
        MigrationStep::Skip
    } else {
        MigrationStep::Apply
    }
}

/// The ledger has the file's version with another checksum.
pub open spec fn checksum_differs(file: MigrationFile, ledger: Map<Seq<char>, SchemaMigrationRecord>) -> bool {
    ledger.contains_key(file.version@) && ledger[file.version@].checksum_sha256@ != file.checksum_sha256@
}

/// The plan of a run over the files (in name order): each file is skipped when the
/// ledger has it and applied otherwise, and the run stops at the first file whose
/// checksum differs from the ledger's.
pub fn plan_migration_run(files: &Vec<MigrationFile>, ledger: &MigrationLedger) -> (p: MigrationRunPlan)
    ensures
        p.steps@.len() <= files@.len(),
        forall|k: int| 0 <= k < p.steps@.len() ==> #[trigger] p.steps@[k] == step_for(files@[k], ledger@) && !checksum_differs(files@[k], ledger@),
        p.failure is None <==> p.steps@.len() == files@.len(),
        p.failure is Some ==> checksum_differs(files@[p.steps@.len() as int], ledger@) && p.failure->0 is ChecksumMismatch,
{
    let mut steps: Vec<MigrationStep> = Vec::new();
    let mut k: usize = 0;
    while k < files.len()
        invariant
            k <= files@.len(),
            steps@.len() == k,
            forall|j: int| 0 <= j < k ==> #[trigger] steps@[j] == step_for(files@[j], ledger@) && !checksum_differs(files@[j], ledger@),
        decreases files@.len() - k,
    {
        match ledger.get(files[k].version.as_str()) {
            Some(record) => {
                match verify_checksum(&files[k], record) {
                    Ok(()) => steps.push(MigrationStep::Skip),
                    Err(e) => {
                        return MigrationRunPlan { steps, failure: Some(e) };
                    },
                }
            },
            None => steps.push(MigrationStep::Apply),
        }
        k = k + 1;
    }
    MigrationRunPlan { steps, failure: None }
}

/// A baseline goes on only when explicitly confirmed.
pub fn baseline_confirmation(confirm_production_baseline: bool) -> (r: Result<(), MigrationError>)
    ensures
        r is Ok <==> confirm_production_baseline,
        r is Err ==> r->Err_0 is BaselineNotConfirmed,
{
    if !confirm_production_baseline {
        return Err(MigrationError::BaselineNotConfirmed);
    }
    Ok(())
}

/// The files whose version is at most `up_to`, in order.
pub open spec fn versions_up_to(files: Seq<MigrationFile>, up_to: Seq<char>) -> Seq<MigrationFile>
    decreases files.len(),
{
    if files.len() == 0 {
        Seq::empty()
    } else {
        let rest = versions_up_to(files.drop_last(), up_to);
        if lex_le(files.last().version@, up_to) {
            rest.push(files.last())
        } else {
            rest
        }
    }
}

/// The files a baseline up to `up_to` covers; refused when no file has that version.
pub fn select_baseline_files(files: Vec<MigrationFile>, up_to: &str) -> (r: Result<Vec<MigrationFile>, MigrationError>)
    ensures
        r is Ok <==> exists|k: int| 0 <= k < files@.len() && (#[trigger] files@[k]).version@ == up_to@,
        r is Ok ==> r->Ok_0@ == versions_up_to(files@, up_to@),
        r is Err ==> (r->Err_0 matches MigrationError::BaselineTargetMissing { target_version } && target_version@ == up_to@),
{
    let mut found = false;
    let mut k: usize = 0;
    while k < files.len()
        invariant
            k <= files@.len(),
            found <==> exists|j: int| 0 <= j < k && (#[trigger] files@[j]).version@ == up_to@,
        decreases files@.len() - k,
    {
        if str_eq(files[k].version.as_str(), up_to) {
            found = true;
        }
        k = k + 1;
    }
    if !found {
        return Err(MigrationError::BaselineTargetMissing { target_version: owned(up_to) });
    }
    let ghost orig = files@;
    let mut rest = files;
    let mut selected: Vec<MigrationFile> = Vec::new();
    let n = rest.len();
    let mut i: usize = 0;
    proof {
        assert(orig.take(0) =~= Seq::<MigrationFile>::empty());
    }
    while rest.len() > 0
        invariant
            orig.len() == n,
            i + rest@.len() == orig.len(),
            rest@ == orig.skip(i as int),
            selected@ == versions_up_to(orig.take(i as int), up_to@),
        decreases rest@.len(),
    {
        let ghost before = rest@;
        let f = rest.remove(0);
        proof {
            before.remove_ensures(0);
            assert(rest@ =~= orig.skip(i as int + 1));
            assert(orig.take(i as int + 1).drop_last() =~= orig.take(i as int));
            assert(orig.take(i as int + 1).last() == f);
        }
        if str_lt(f.version.as_str(), up_to) || str_eq(f.version.as_str(), up_to) {
            selected.push(f);
        }
        i = i + 1;
    }
    proof {
        assert(orig.take(orig.len() as int) =~= orig);
    }
    Ok(selected)
}

/// A migration's version and file name.
pub open spec fn skipped_view(m: SkippedMigration) -> (Seq<char>, Seq<char>) {
    (m.version@, m.filename@)
}

/// The version and file name of each file.
pub open spec fn file_names(files: Seq<MigrationFile>) -> Seq<(Seq<char>, Seq<char>)> {
    files.map_values(|f: MigrationFile| (f.version@, f.filename@))
}

/// The files that the ledger has (`in_ledger`) or lacks (`!in_ledger`), in order.
pub open spec fn files_where(files: Seq<MigrationFile>, ledger: Map<Seq<char>, SchemaMigrationRecord>, in_ledger: bool) -> Seq<MigrationFile>
    decreases files.len(),
{
    if files.len() == 0 {
        Seq::empty()
    } else {
        let rest = files_where(files.drop_last(), ledger, in_ledger);
        if ledger.contains_key(files.last().version@) == in_ledger {
            rest.push(files.last())
        } else {
            rest
        }
    }
}

/// The selected files that the ledger already has and those it still lacks; refused at
/// the first file whose checksum differs from the ledger's.
pub fn classify_baseline_files(selected: &Vec<MigrationFile>, ledger: &MigrationLedger) -> (r: Result<
    (Vec<SkippedMigration>, Vec<SkippedMigration>),
    MigrationError,
>)
    ensures
        r is Ok <==> forall|k: int| 0 <= k < selected@.len() ==> !checksum_differs(#[trigger] selected@[k], ledger@),
        r is Ok ==> r->Ok_0.0@.map_values(|m: SkippedMigration| skipped_view(m)) == file_names(files_where(selected@, ledger@, true))
            && r->Ok_0.1@.map_values(|m: SkippedMigration| skipped_view(m)) == file_names(files_where(selected@, ledger@, false)),
        r is Err ==> r->Err_0 is ChecksumMismatch,
{
    let mut already: Vec<SkippedMigration> = Vec::new();
    let mut to_record: Vec<SkippedMigration> = Vec::new();
    let mut k: usize = 0;
    while k < selected.len()
        invariant
            k <= selected@.len(),
            forall|j: int| 0 <= j < k ==> !checksum_differs(#[trigger] selected@[j], ledger@),
            already@.map_values(|m: SkippedMigration| skipped_view(m)) == file_names(files_where(selected@.take(k as int), ledger@, true)),
            to_record@.map_values(|m: SkippedMigration| skipped_view(m)) == file_names(files_where(selected@.take(k as int), ledger@, false)),
        decreases selected@.len() - k,
    {
        let f = &selected[k];
        proof {
            assert(selected@.take(k as int + 1).drop_last() =~= selected@.take(k as int));
            assert(selected@.take(k as int + 1).last() == *f);
        }
        let entry = SkippedMigration { version: f.version.clone(), filename: f.filename.clone() };
        match ledger.get(f.version.as_str()) {
            Some(record) => {
                match verify_checksum(f, record) {
                    Ok(()) => {
                        already.push(entry);
                    },
                    Err(e) => {
                        return Err(e);
                    },
                }
            },
            None => {
                to_record.push(entry);
            },
        }
        proof {
            let t = selected@.take(k as int + 1);
            let pt = files_where(selected@.take(k as int), ledger@, true);
            let pf = files_where(selected@.take(k as int), ledger@, false);
            if ledger@.contains_key(f.version@) {
                assert(files_where(t, ledger@, true) == pt.push(*f));
                assert(files_where(t, ledger@, false) == pf);
                assert(file_names(pt.push(*f)) =~= file_names(pt).push((f.version@, f.filename@)));
            } else {
                assert(files_where(t, ledger@, true) == pt);
                assert(files_where(t, ledger@, false) == pf.push(*f));
                assert(file_names(pf.push(*f)) =~= file_names(pf).push((f.version@, f.filename@)));
            }
            assert(already@.map_values(|m: SkippedMigration| skipped_view(m)) =~= file_names(files_where(selected@.take(k as int + 1), ledger@, true)));
            assert(to_record@.map_values(|m: SkippedMigration| skipped_view(m)) =~= file_names(files_where(selected@.take(k as int + 1), ledger@, false)));
        }
        k = k + 1;
    }
    proof {
        assert(selected@.take(selected@.len() as int) =~= selected@);
    }
    Ok((already, to_record))
}

/// The baseline report: a dry run lists what it would record; a real run what it recorded.
pub fn baseline_report(
    target_version: String,
    dry_run: bool,
    total_considered: usize,
    already_applied: Vec<SkippedMigration>,
    to_record: Vec<SkippedMigration>,
) -> (r: MigrationBaselineReport)
    ensures
        r.target_version@ == target_version@,
        r.dry_run == dry_run,
        r.total_considered == total_considered,
        r.already_applied@ == already_applied@,
        dry_run ==> r.recorded@.len() == 0 && r.would_record@ == to_record@,
        !dry_run ==> r.recorded@ == to_record@ && r.would_record@.len() == 0,
{
    if dry_run {
        MigrationBaselineReport {
            target_version,
            dry_run: true,
            total_considered,
            already_applied,
            recorded: Vec::new(),
            would_record: to_record,
        }
    } else {
        MigrationBaselineReport {
            target_version,
            dry_run: false,
            total_considered,
            already_applied,
            recorded: to_record,
            would_record: Vec::new(),
        }
    }
}

/// The files that the ledger lacks, in order.
fn files_missing_from(files: Vec<MigrationFile>, ledger: &MigrationLedger) -> (r: Vec<MigrationFile>)
    ensures
        r@ == files_where(files@, ledger@, false),
{
    let ghost orig = files@;
    let total = files.len();
    let mut rest = files;
    let mut missing: Vec<MigrationFile> = Vec::new();
    let mut i: usize = 0;
    proof {
        assert(orig.take(0) =~= Seq::<MigrationFile>::empty());
    }
    while rest.len() > 0
        invariant
            orig.len() == total,
            i + rest@.len() == orig.len(),
            rest@ == orig.skip(i as int),
            missing@ == files_where(orig.take(i as int), ledger@, false),
        decreases rest@.len(),
    {
        let ghost before = rest@;
        let f = rest.remove(0);
        proof {
            before.remove_ensures(0);
            assert(rest@ =~= orig.skip(i as int + 1));
            assert(orig.take(i as int + 1).drop_last() =~= orig.take(i as int));
            assert(orig.take(i as int + 1).last() == f);
        }
        let known = ledger.get(f.version.as_str()).is_some();
        if !known {
            missing.push(f);
        }
        i = i + 1;
    }
    proof {
        assert(orig.take(orig.len() as int) =~= orig);
    }
    missing
}

/// A baseline of the selected files against the ledger: its report, and the files that
/// it records (those the ledger lacks, in order). Every selected file is counted once,
/// as already applied or as recorded (or to be recorded, on a dry run). Refused at the
/// first file whose checksum differs from the ledger's.
pub fn plan_baseline(
    target_version: String,
    dry_run: bool,
    selected: Vec<MigrationFile>,
    ledger: &MigrationLedger,
) -> (r: Result<(MigrationBaselineReport, Vec<MigrationFile>), MigrationError>)
    ensures
        r is Ok <==> forall|k: int| 0 <= k < selected@.len() ==> !checksum_differs(#[trigger] selected@[k], ledger@),
        r is Err ==> r->Err_0 is ChecksumMismatch,
        r is Ok ==> ({
            let rep = r->Ok_0.0;
            let to_record = r->Ok_0.1;
            &&& rep.target_version@ == target_version@
            &&& rep.dry_run == dry_run
            &&& rep.total_considered == selected@.len()
            &&& rep.total_considered == rep.already_applied@.len() + rep.recorded@.len() + rep.would_record@.len()
            &&& rep.already_applied@.map_values(|m: SkippedMigration| skipped_view(m)) == file_names(files_where(selected@, ledger@, true))
            &&& to_record@ == files_where(selected@, ledger@, false)
            &&& dry_run ==> rep.recorded@.len() == 0 && rep.would_record@.map_values(|m: SkippedMigration| skipped_view(m)) == file_names(to_record@)
            &&& !dry_run ==> rep.would_record@.len() == 0 && rep.recorded@.map_values(|m: SkippedMigration| skipped_view(m)) == file_names(to_record@)
        }),
{
    let total = selected.len();
    let (already, to_record) = match classify_baseline_files(&selected, ledger) {
        Ok(lists) => lists,
        Err(e) => {
            return Err(e);
        },
    };
    proof {
        lemma_files_where_split(selected@, ledger@);
        assert(already@.len() == already@.map_values(|m: SkippedMigration| skipped_view(m)).len());
        assert(to_record@.len() == to_record@.map_values(|m: SkippedMigration| skipped_view(m)).len());
    }
    let files = files_missing_from(selected, ledger);
    let report = baseline_report(target_version, dry_run, total, already, to_record);
    Ok((report, files))
}


/// Tables that a database must have before a baseline.
pub open spec fn required_tables() -> Seq<Seq<char>> {
    seq![
        "scheduled_research_jobs"@,
        "derivatives_funding_rates"@,
        "candidate_review_events"@,
        "symbols"@,
        "market_ticks"@,
        "candles"@,
        "research_batches"@,
        "strategy_experiments"@,
    ]
}

/// Tables of which a database must have one before a baseline.
pub open spec fn candidate_tables() -> Seq<Seq<char>> {
    seq!["research_candidates"@, "strategy_research_candidates"@]
}

/// Tables and the migration version that creates each.
pub open spec fn versioned_tables() -> Seq<(Seq<char>, Seq<char>)> {
    seq![
        ("symbols"@, "0001"@),
        ("market_ticks"@, "0004"@),
        ("candles"@, "0004"@),
        ("strategy_experiments"@, "0022"@),
        ("strategy_research_candidates"@, "0026"@),
        ("research_candidates"@, "0029"@),
        ("research_batches"@, "0038"@),
        ("scheduled_research_jobs"@, "0052"@),
        ("derivatives_funding_rates"@, "0071"@),
        ("candidate_review_events"@, "0073"@),
        ("microstructure_collector_runs"@, "0074"@),
        ("microstructure_spread_metrics"@, "0074"@),
        ("microstructure_imbalance_metrics"@, "0074"@),
        ("microstructure_liquidity_metrics"@, "0074"@),
    ]
}

/// The database has the table (the ledger tables do not count).
pub open spec fn table_present(names: Seq<Seq<char>>, t: Seq<char>) -> bool {
    names.contains(t) && t != "schema_migrations"@ && t != "_sqlx_migrations"@
}

/// The required tables that the database lacks, in order.
pub open spec fn missing_tables(req: Seq<Seq<char>>, names: Seq<Seq<char>>) -> Seq<Seq<char>>
    decreases req.len(),
{
    if req.len() == 0 {
        Seq::empty()
    } else {
        let rest = missing_tables(req.drop_last(), names);
        if table_present(names, req.last()) {
            rest
        } else {
            rest.push(req.last())
        }
    }
}

/// The explanation of a table that a later migration than the target creates.
pub open spec fn incompatibility_message(table: Seq<char>, version: Seq<char>) -> Seq<char> {
    table + " requires baseline target >= "@ + version
}

/// The tables present that only migrations after `target` create, explained.
pub open spec fn incompatible_tables(vt: Seq<(Seq<char>, Seq<char>)>, names: Seq<Seq<char>>, target: Seq<char>) -> Seq<Seq<char>>
    decreases vt.len(),
{
    if vt.len() == 0 {
        Seq::empty()
    } else {
        let rest = incompatible_tables(vt.drop_last(), names, target);
        if table_present(names, vt.last().0) && lex_lt(target, vt.last().1) {
            rest.push(incompatibility_message(vt.last().0, vt.last().1))
        } else {
            rest
        }
    }
}

/// The database has some table besides the ledgers.
pub open spec fn has_any_table(names: Seq<Seq<char>>) -> bool {
    exists|k: int| 0 <= k < names.len() && table_present(names, #[trigger] names[k])
}

fn required_table_names() -> (v: Vec<&'static str>)
    ensures
        v@.map_values(|s: &str| s@) == required_tables(),
{
    let v = vec![
        "scheduled_research_jobs",
        "derivatives_funding_rates",
        "candidate_review_events",
        "symbols",
        "market_ticks",
        "candles",
        "research_batches",
        "strategy_experiments",
    ];
    proof {
        assert(v@.map_values(|s: &str| s@) =~= required_tables());
    }
    v
}

fn versioned_table_names() -> (v: Vec<(&'static str, &'static str)>)
    ensures
        v@.map_values(|p: (&str, &str)| (p.0@, p.1@)) == versioned_tables(),
{
    let v = vec![
        ("symbols", "0001"),
        ("market_ticks", "0004"),
        ("candles", "0004"),
        ("strategy_experiments", "0022"),
        ("strategy_research_candidates", "0026"),
        ("research_candidates", "0029"),
        ("research_batches", "0038"),
        ("scheduled_research_jobs", "0052"),
        ("derivatives_funding_rates", "0071"),
        ("candidate_review_events", "0073"),
        ("microstructure_collector_runs", "0074"),
        ("microstructure_spread_metrics", "0074"),
        ("microstructure_imbalance_metrics", "0074"),
        ("microstructure_liquidity_metrics", "0074"),
    ];
    proof {
        assert(v@.map_values(|p: (&str, &str)| (p.0@, p.1@)) =~= versioned_tables());
    }
    v
}

fn table_present_exec(names: &Vec<String>, t: &str) -> (b: bool)
    ensures
        b == table_present(strings_view(names@), t@),
{
    if str_eq(t, "schema_migrations") || str_eq(t, "_sqlx_migrations") {
        return false;
    }
    let mut k: usize = 0;
    while k < names.len()
        invariant
            k <= names@.len(),
            t@ != "schema_migrations"@ && t@ != "_sqlx_migrations"@,
            forall|j: int| 0 <= j < k ==> (#[trigger] names@[j])@ != t@,
        decreases names@.len() - k,
    {
        if str_eq(names[k].as_str(), t) {
            proof {
                assert(strings_view(names@)[k as int] == t@);
            }
            return true;
        }
        k = k + 1;
    }
    proof {
        if strings_view(names@).contains(t@) {
            let j = choose|j: int| 0 <= j < strings_view(names@).len() && strings_view(names@)[j] == t@;
            assert(names@[j]@ == t@);
        }
    }
    false
}

/// The texts of a list of strings.
pub open spec fn strings_view(v: Seq<String>) -> Seq<Seq<char>> {
    v.map_values(|s: String| s@)
}

/// Whether the database (by its table names) looks like the production schema at the
/// target version: it must have some table, every required table and a candidate
/// table, and no table that a migration after the target creates.
pub fn check_baseline_schema(table_names: &Vec<String>, target_version: &str) -> (r: Result<(), MigrationError>)
    ensures
        ({
            let names = strings_view(table_names@);
            let missing = missing_tables(required_tables(), names);
            let has_candidate = table_present(names, candidate_tables()[0]) || table_present(names, candidate_tables()[1]);
            let incompatible = incompatible_tables(versioned_tables(), names, target_version@);
            &&& !has_any_table(names) ==> r == Err::<(), MigrationError>(MigrationError::BaselineEmptySchema)
            &&& has_any_table(names) && (missing.len() > 0 || !has_candidate) ==> (r->Err_0 matches MigrationError::BaselineUnexpectedSchema { missing_required, has_candidate_table }
                && strings_view(missing_required@) == missing && has_candidate_table == has_candidate)
            &&& has_any_table(names) && missing.len() == 0 && has_candidate && incompatible.len() > 0 ==> (r->Err_0 matches MigrationError::BaselineTargetTooLow { target_version: t, incompatible: inc }
                && t@ == target_version@ && strings_view(inc@) == incompatible)
            &&& r is Ok <==> has_any_table(names) && missing.len() == 0 && has_candidate && incompatible.len() == 0
        }),
{
    let ghost names = strings_view(table_names@);
    let mut any = false;
    let mut k: usize = 0;
    while k < table_names.len()
        invariant
            k <= table_names@.len(),
            names == strings_view(table_names@),
            any <==> exists|j: int| 0 <= j < k && table_present(names, #[trigger] names[j]),
        decreases table_names@.len() - k,
    {
        let t = table_names[k].as_str();
        proof {
            assert(names[k as int] == t@);
        }
        if !str_eq(t, "schema_migrations") && !str_eq(t, "_sqlx_migrations") {
            proof {
                assert(names.contains(t@));
            }
            any = true;
        }
        k = k + 1;
    }
    if !any {
        return Err(MigrationError::BaselineEmptySchema);
    }
    let required = required_table_names();
    let mut missing: Vec<String> = Vec::new();
    let mut i: usize = 0;
    while i < required.len()
        invariant
            i <= required@.len(),
            required@.map_values(|s: &str| s@) == required_tables(),
            names == strings_view(table_names@),
            strings_view(missing@) == missing_tables(required_tables().take(i as int), names),
        decreases required@.len() - i,
    {
        proof {
            assert(required_tables().take(i as int + 1).drop_last() =~= required_tables().take(i as int));
            assert(required_tables().take(i as int + 1).last() == required@[i as int]@);
        }
        if !table_present_exec(table_names, required[i]) {
            missing.push(owned(required[i]));
        }
        i = i + 1;
        proof {
            assert(strings_view(missing@) =~= missing_tables(required_tables().take(i as int), names));
        }
    }
    proof {
        assert(required_tables().take(8) =~= required_tables());
    }
    let has_candidate = table_present_exec(table_names, "research_candidates") || table_present_exec(table_names, "strategy_research_candidates");
    if missing.len() > 0 || !has_candidate {
        return Err(MigrationError::BaselineUnexpectedSchema { missing_required: missing, has_candidate_table: has_candidate });
    }
    let versioned = versioned_table_names();
    let mut incompatible: Vec<String> = Vec::new();
    let mut j: usize = 0;
    while j < versioned.len()
        invariant
            j <= versioned@.len(),
            versioned@.map_values(|p: (&str, &str)| (p.0@, p.1@)) == versioned_tables(),
            names == strings_view(table_names@),
            strings_view(incompatible@) == incompatible_tables(versioned_tables().take(j as int), names, target_version@),
        decreases versioned@.len() - j,
    {
        let (table, version) = versioned[j];
        proof {
            assert(versioned_tables().take(j as int + 1).drop_last() =~= versioned_tables().take(j as int));
            assert(versioned_tables().take(j as int + 1).last() == (table@, version@));
        }
        if table_present_exec(table_names, table) && str_lt(target_version, version) {
            let message = owned(table).concat(" requires baseline target >= ").concat(version);
            incompatible.push(message);
        }
        j = j + 1;
        proof {
            assert(strings_view(incompatible@) =~= incompatible_tables(versioned_tables().take(j as int), names, target_version@));
        }
    }
    proof {
        assert(versioned_tables().take(14) =~= versioned_tables());
    }
    if incompatible.len() > 0 {
        return Err(MigrationError::BaselineTargetTooLow { target_version: owned(target_version), incompatible });
    }
    Ok(())
}


/// The versions of the files, as a set.
pub open spec fn file_version_set(files: Seq<MigrationFile>) -> Set<Seq<char>> {
    files.map_values(|f: MigrationFile| f.version@).to_set()
}

/// The ledger's versions that some file has.
pub open spec fn applied_versions(ledger: Map<Seq<char>, SchemaMigrationRecord>, files: Seq<MigrationFile>) -> Set<Seq<char>> {
    ledger.dom().intersect(file_version_set(files))
}

fn has_version(files: &Vec<MigrationFile>, v: &str) -> (b: bool)
    ensures
        b == file_version_set(files@).contains(v@),
{
    let mut k: usize = 0;
    while k < files.len()
        invariant
            k <= files@.len(),
            forall|j: int| 0 <= j < k ==> (#[trigger] files@[j]).version@ != v@,
        decreases files@.len() - k,
    {
        if str_eq(files[k].version.as_str(), v) {
            proof {
                assert(files@.map_values(|f: MigrationFile| f.version@)[k as int] == v@);
            }
            return true;
        }
        k = k + 1;
    }
    proof {
        if file_version_set(files@).contains(v@) {
            let vs = files@.map_values(|f: MigrationFile| f.version@);
            let j = choose|j: int| 0 <= j < vs.len() && #[trigger] vs[j] == v@;
            assert(files@[j].version@ == v@);
        }
    }
    false
}

impl MigrationLedger {
    /// How many ledger versions some file has, and the record of the greatest of them.
    pub fn applied_among(&self, files: &Vec<MigrationFile>) -> (r: (usize, Option<SchemaMigrationRecord>))
        ensures
            r.0 == applied_versions(self@, files@).len(),
            applied_versions(self@, files@).finite(),
            r.1 is None <==> applied_versions(self@, files@).is_empty(),
            r.1 is Some ==> ({
                let x = r.1->0;
                &&& applied_versions(self@, files@).contains(x.version@)
                &&& self@[x.version@] == x
                &&& forall|v: Seq<char>| applied_versions(self@, files@).contains(v) ==> lex_le(v, x.version@)
            }),
    {
        proof {
            use_type_invariant(self);
        }
        broadcast use vstd::set::group_set_axioms;
        let ghost fv = file_version_set(files@);
        let ghost mut seen: Set<Seq<char>> = Set::empty();
        let mut count: usize = 0;
        let mut best: Option<usize> = None;
        let mut i: usize = 0;
        while i < self.records.len()
            invariant
                self.distinct_versions(),
                fv == file_version_set(files@),
                i <= self.records@.len(),
                seen.finite(),
                count == seen.len(),
                count <= i,
                seen == Set::new(|v: Seq<char>| exists|j: int| 0 <= j < i && (#[trigger] self.records@[j]).version@ == v && fv.contains(v)),
                match best {
                    Some(b) => b < i && seen.contains(self.records@[b as int].version@) && forall|v: Seq<char>| seen.contains(v) ==> lex_le(v, self.records@[b as int].version@),
                    None => seen.is_empty(),
                },
            decreases self.records@.len() - i,
        {
            let v = self.records[i].version.as_str();
            let ghost old_seen = seen;
            if has_version(files, v) {
                proof {
                    assert(!old_seen.contains(v@)) by {
                        if old_seen.contains(v@) {
                            let j = choose|j: int| 0 <= j < i && (#[trigger] self.records@[j]).version@ == v@ && fv.contains(v@);
                            assert(self.records@[j].version@ != self.records@[i as int].version@);
                        }
                    }
                    seen = old_seen.insert(v@);
                    assert(seen =~= Set::new(|w: Seq<char>| exists|j: int| 0 <= j < i + 1 && (#[trigger] self.records@[j]).version@ == w && fv.contains(w))) by {
                        assert forall|w: Seq<char>| seen.contains(w) implies exists|j: int| 0 <= j < i + 1 && (#[trigger] self.records@[j]).version@ == w && fv.contains(w) by {
                            if w == v@ {
                                assert(self.records@[i as int].version@ == w);
                            }
                        }
                    }
                }
                count = count + 1;
                let replace = match best {
                    Some(b) => str_lt(self.records[b].version.as_str(), v),
                    None => true,
                };
                if replace {
                    proof {
                        if let Some(b) = best {
                            assert forall|w: Seq<char>| seen.contains(w) implies lex_le(w, v@) by {
                                if w != v@ {
                                    assert(old_seen.contains(w));
                                    if lex_lt(w, self.records@[b as int].version@) {
                                        crate::text::lemma_lex_lt_trans(w, self.records@[b as int].version@, v@);
                                    }
                                }
                            }
                        }
                    }
                    best = Some(i);
                } else {
                    proof {
                        let b = best->0;
                        crate::text::lemma_lex_lt_trichotomy(self.records@[b as int].version@, v@);
                    }
                }
            } else {
                proof {
                    assert(seen =~= Set::new(|w: Seq<char>| exists|j: int| 0 <= j < i + 1 && (#[trigger] self.records@[j]).version@ == w && fv.contains(w))) by {
                        assert forall|w: Seq<char>| Set::new(|w: Seq<char>| exists|j: int| 0 <= j < i + 1 && (#[trigger] self.records@[j]).version@ == w && fv.contains(w)).contains(w) implies seen.contains(w) by {
                            let j = choose|j: int| 0 <= j < i + 1 && (#[trigger] self.records@[j]).version@ == w && fv.contains(w);
                            if j == i {
                                assert(false);
                            }
                        }
                    }
                }
            }
            i = i + 1;
        }
        proof {
            assert(seen =~= applied_versions(self@, files@)) by {
                assert forall|w: Seq<char>| seen.contains(w) <==> applied_versions(self@, files@).contains(w) by {
                    if applied_versions(self@, files@).contains(w) {
                        let j = choose|j: int| 0 <= j < self.records@.len() && (#[trigger] self.records@[j]).version@ == w;
                        assert(self.records@[j].version@ == w);
                    }
                }
            }
        }
        let latest = match best {
            Some(b) => {
                proof {
                    let w = self.records@[b as int].version@;
                    let j = choose|j: int| 0 <= j < self.records@.len() && (#[trigger] self.records@[j]).version@ == w;
                    assert(j == b);
                }
                Some(self.records[b].clone())
            },
            None => None,
        };
        (count, latest)
    }
}

/// A file whose checksum differs from the ledger's: version, file name, ledger
/// checksum, file checksum.
pub open spec fn mismatch_view(m: ChecksumMismatch) -> (Seq<char>, Seq<char>, Seq<char>, Seq<char>) {
    (m.version@, m.filename@, m.expected_sha256@, m.actual_sha256@)
}

/// The files whose checksums differ from the ledger's, in order.
pub open spec fn mismatches_of(files: Seq<MigrationFile>, ledger: Map<Seq<char>, SchemaMigrationRecord>) -> Seq<(Seq<char>, Seq<char>, Seq<char>, Seq<char>)>
    decreases files.len(),
{
    if files.len() == 0 {
        Seq::empty()
    } else {
        let rest = mismatches_of(files.drop_last(), ledger);
        let f = files.last();
        if checksum_differs(f, ledger) {
            rest.push((f.version@, f.filename@, ledger[f.version@].checksum_sha256@, f.checksum_sha256@))
        } else {
            rest
        }
    }
}

/// The state of the files against the ledger: how many ledger migrations have a file,
/// the greatest of them, the files whose checksums differ, and the files still to
/// apply (in order).
pub fn migration_status(files: Vec<MigrationFile>, ledger: &MigrationLedger) -> (r: MigrationStatusReport)
    ensures
        r.total_migrations == files@.len(),
        r.applied_count == applied_versions(ledger@, files@).len(),
        r.latest_applied is None <==> applied_versions(ledger@, files@).is_empty(),
        r.latest_applied is Some ==> ({
            let x = r.latest_applied->0;
            &&& applied_versions(ledger@, files@).contains(x.version@)
            &&& ledger@[x.version@] == x
            &&& forall|v: Seq<char>| applied_versions(ledger@, files@).contains(v) ==> lex_le(v, x.version@)
        }),
        r.checksum_mismatches@.map_values(|m: ChecksumMismatch| mismatch_view(m)) == mismatches_of(files@, ledger@),
        r.pending@ == files_where(files@, ledger@, false),
        r.pending_count == r.pending@.len(),
{
    let total = files.len();
    let (applied_count, latest_applied) = ledger.applied_among(&files);
    let mut mismatches: Vec<ChecksumMismatch> = Vec::new();
    let mut k: usize = 0;
    while k < files.len()
        invariant
            k <= files@.len(),
            mismatches@.map_values(|m: ChecksumMismatch| mismatch_view(m)) == mismatches_of(files@.take(k as int), ledger@),
        decreases files@.len() - k,
    {
        let f = &files[k];
        proof {
            assert(files@.take(k as int + 1).drop_last() =~= files@.take(k as int));
            assert(files@.take(k as int + 1).last() == *f);
        }
        match ledger.get(f.version.as_str()) {
            Some(record) => {
                if !str_eq(record.checksum_sha256.as_str(), f.checksum_sha256.as_str()) {
                    mismatches.push(
                        ChecksumMismatch {
                            version: f.version.clone(),
                            filename: f.filename.clone(),
                            expected_sha256: record.checksum_sha256.clone(),
                            actual_sha256: f.checksum_sha256.clone(),
                        },
                    );
                }
            },
            None => {},
        }
        proof {
            assert(mismatches@.map_values(|m: ChecksumMismatch| mismatch_view(m)) =~= mismatches_of(files@.take(k as int + 1), ledger@));
        }
        k = k + 1;
    }
    proof {
        assert(files@.take(files@.len() as int) =~= files@);
    }
    let ghost orig = files@;
    let mut rest = files;
    let mut pending: Vec<MigrationFile> = Vec::new();
    let mut i: usize = 0;
    proof {
        assert(orig.take(0) =~= Seq::<MigrationFile>::empty());
    }
    while rest.len() > 0
        invariant
            orig.len() == total,
            i + rest@.len() == orig.len(),
            rest@ == orig.skip(i as int),
            pending@ == files_where(orig.take(i as int), ledger@, false),
        decreases rest@.len(),
    {
        let ghost before = rest@;
        let f = rest.remove(0);
        proof {
            before.remove_ensures(0);
            assert(rest@ =~= orig.skip(i as int + 1));
            assert(orig.take(i as int + 1).drop_last() =~= orig.take(i as int));
            assert(orig.take(i as int + 1).last() == f);
        }
        let known = ledger.get(f.version.as_str()).is_some();
        if !known {
            pending.push(f);
        }
        i = i + 1;
    }
    proof {
        assert(orig.take(orig.len() as int) =~= orig);
    }
    let pending_count = pending.len();
    MigrationStatusReport {
        total_migrations: total,
        applied_count,
        pending_count,
        latest_applied,
        checksum_mismatches: mismatches,
        pending,
    }
}


proof fn lemma_files_where_split(files: Seq<MigrationFile>, ledger: Map<Seq<char>, SchemaMigrationRecord>)
    ensures
        files_where(files, ledger, true).len() + files_where(files, ledger, false).len() == files.len(),
    decreases files.len(),
{
    if files.len() > 0 {
        lemma_files_where_split(files.drop_last(), ledger);
    }
}

proof fn lemma_applied_count_matches(files: Seq<MigrationFile>, ledger: Map<Seq<char>, SchemaMigrationRecord>)
    requires
        versions_distinct(files),
    ensures
        applied_versions(ledger, files).finite(),
        applied_versions(ledger, files).len() == files_where(files, ledger, true).len(),
    decreases files.len(),
{
    broadcast use vstd::set::group_set_axioms;
    if files.len() == 0 {
        assert(applied_versions(ledger, files) =~= Set::<Seq<char>>::empty());
    } else {
        let init = files.drop_last();
        let f = files.last();
        assert(versions_distinct(init));
        lemma_applied_count_matches(init, ledger);
        let vs = files.map_values(|m: MigrationFile| m.version@);
        let ivs = init.map_values(|m: MigrationFile| m.version@);
        assert(vs =~= ivs.push(f.version@));
        assert(file_version_set(files) =~= file_version_set(init).insert(f.version@)) by {
            assert forall|v: Seq<char>| file_version_set(files).contains(v) <==> file_version_set(init).insert(f.version@).contains(v) by {
                if file_version_set(files).contains(v) {
                    let j = choose|j: int| 0 <= j < vs.len() && vs[j] == v;
                    if j < ivs.len() {
                        assert(ivs[j] == v);
                    }
                }
                if file_version_set(init).contains(v) {
                    let j = choose|j: int| 0 <= j < ivs.len() && ivs[j] == v;
                    assert(vs[j] == v);
                }
                if v == f.version@ {
                    assert(vs[vs.len() - 1] == v);
                }
            }
        }
        assert(!file_version_set(init).contains(f.version@)) by {
            if file_version_set(init).contains(f.version@) {
                let j = choose|j: int| 0 <= j < ivs.len() && ivs[j] == f.version@;
                assert(files[j].version@ != files[files.len() - 1].version@);
            }
        }
        if ledger.contains_key(f.version@) {
            assert(applied_versions(ledger, files) =~= applied_versions(ledger, init).insert(f.version@));
        } else {
            assert(applied_versions(ledger, files) =~= applied_versions(ledger, init));
        }
    }
}

/// With distinct file versions, every file is either applied (its version is in the
/// ledger) or pending, so the applied and pending counts of a status report add up to
/// the number of files.
pub proof fn law_status_counts_add_up(files: Seq<MigrationFile>, ledger: Map<Seq<char>, SchemaMigrationRecord>)
    requires
        versions_distinct(files),
    ensures
        applied_versions(ledger, files).len() + files_where(files, ledger, false).len() == files.len(),
{
    lemma_applied_count_matches(files, ledger);
    lemma_files_where_split(files, ledger);
}

/// A run that completes its plan and records every file it applies leaves no migration
/// pending: each file was in the ledger already or has been recorded.
pub proof fn law_completed_run_leaves_nothing_pending(
    files: Seq<MigrationFile>,
    before: Map<Seq<char>, SchemaMigrationRecord>,
    after: Map<Seq<char>, SchemaMigrationRecord>,
)
    requires
        forall|v: Seq<char>| #[trigger] before.contains_key(v) ==> after.contains_key(v),
        forall|k: int|
            0 <= k < files.len() && step_for(files[k], before) == MigrationStep::Apply ==> after.contains_key(
                #[trigger] files[k].version@,
            ),
    ensures
        files_where(files, after, false).len() == 0,
    decreases files.len(),
{
    if files.len() > 0 {
        let init = files.drop_last();
        assert forall|k: int|
            0 <= k < init.len() && step_for(init[k], before) == MigrationStep::Apply implies after.contains_key(
            #[trigger] init[k].version@,
        ) by {
            assert(init[k] == files[k]);
        }
        law_completed_run_leaves_nothing_pending(init, before, after);
        let last = files.last();
        assert(files[files.len() - 1] == last);
        assert(after.contains_key(last.version@));
    }
}

} // verus!
