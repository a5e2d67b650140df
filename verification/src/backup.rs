//! Database backups: how a backup file is named, which files count as
//! backups, which old ones are pruned, how a file name given back by the
//! user is checked before a restore, and the SQL that writes a snapshot.
//! Reading directories and copying files is left to the caller.
use vstd::prelude::*;
use vstd::multiset::Multiset;
use crate::error::AppError;
use crate::models::BackupInfo;
use crate::text::{all_digits, digits_value, pow10, occurs_at, contains_char, contains_str, ends_with, has_infix, has_prefix, has_suffix, starts_with, str_eq, string_of_range, to_chars, views};

verus! {

broadcast use vstd::string::group_string_axioms;

/// How many backups are kept (manual ones included).
pub const MAX_BACKUPS: usize = 10;

pub const BACKUP_PREFIX: &'static str = "backup_";

pub const BACKUP_SUFFIX: &'static str = ".db";

/// The `chrono` format of the time stamp in a backup's name.
pub const STAMP_FORMAT: &'static str = "%Y%m%dT%H%M%SZ";

/// The characters a time stamp is made of.
pub open spec fn stamp_char(c: char) -> bool {
    ('0' <= c && c <= '9') || c == '+' || c == '-' || c == 'T' || c == 'Z'
}

/// `std::time::SystemTime::now()`, then `duration_since(UNIX_EPOCH)` in
/// whole seconds: the seconds since 1970 by the system clock, or nothing
/// when the clock reads an earlier time. It depends on the clock, so
/// nothing is said of the value.
#[verifier::external_body]
fn unix_seconds_now() -> (r: Option<u64>) {
    match std::time::SystemTime::now().duration_since(std::time::UNIX_EPOCH) {
        Ok(d) => Some(d.as_secs()),
        Err(_) => None,
    }
}

/// The UTC time `secs` seconds after 1970 as `STAMP_FORMAT` writes it,
/// when `chrono` can represent that time.
pub uninterp spec fn utc_stamp_of(secs: i64) -> Option<Seq<char>>;

/// A stamp as `STAMP_FORMAT` writes any time: digits, a sign (for a year
/// outside 0 to 9999), the letter `T`, and a final `Z`.
pub open spec fn is_stamp_text(s: Seq<char>) -> bool {
    &&& s.len() > 0
    &&& s.last() == 'Z'
    &&& forall|i: int| 0 <= i < s.len() ==> stamp_char(#[trigger] s[i])
}

/// `chrono::DateTime::<Utc>::from_timestamp_secs`, then `format` with
/// `STAMP_FORMAT`: the stamp of that time, or nothing for a time `chrono`
/// cannot represent.
#[verifier::external_body]
fn utc_stamp_at(secs: i64) -> (r: Option<String>)
    ensures
        match r {
            Some(s) => utc_stamp_of(secs) == Some(s@) && is_stamp_text(s@),
            None => utc_stamp_of(secs) is None,
        },
{
    match chrono::DateTime::<chrono::Utc>::from_timestamp_secs(secs) {
        Some(dt) => Some(dt.format(STAMP_FORMAT).to_string()),
        None => None,
    }
}

/// The UTC time that a clock reading of `reading` seconds after 1970
/// stands for, in `STAMP_FORMAT`: nothing when there is no reading, or
/// when it is beyond what `chrono` represents (see `utc_stamp_of`).
pub fn stamp_of_reading(reading: Option<u64>) -> (r: Option<String>)
    ensures
        match reading {
            Some(secs) => if secs <= i64::MAX {
                match r {
                    Some(s) => utc_stamp_of(secs as i64) == Some(s@) && is_stamp_text(s@),
                    None => utc_stamp_of(secs as i64) is None,
                }
            } else {
                r is None
            },
            None => r is None,
        },
{
    match reading {
        Some(secs) => {
            if secs <= 0x7fff_ffff_ffff_ffffu64 {
                let t: i64 = secs as i64;
                utc_stamp_at(t)
            } else {
                None
            }
        },
        None => None,
    }
}

/// The current UTC time in `STAMP_FORMAT`: the stamp of some number of
/// seconds after 1970 (the clock's reading), or nothing when the clock
/// reads a time before 1970 or beyond what `chrono` represents.
pub(crate) fn utc_stamp_now() -> (r: Option<String>)
    ensures
        r matches Some(s) ==> is_stamp_text(s@) && exists|secs: i64| #[trigger] utc_stamp_of(secs) == Some(s@),
{
    let reading = unix_seconds_now();
    let r = stamp_of_reading(reading);
    proof {
        if r is Some {
            let secs = reading->0 as i64;
            assert(utc_stamp_of(secs) == Some(r->0@));
        }
    }
    r
}

/// `backup_{stamp}.db`.
pub open spec fn backup_name(stamp: Seq<char>) -> Seq<char> {
    BACKUP_PREFIX@ + stamp + BACKUP_SUFFIX@
}

pub fn backup_filename(stamp: &str) -> (r: String)
    ensures
        r@ == backup_name(stamp@),
{
    let mut r = String::from_str(BACKUP_PREFIX);
    r.append(stamp);
    r.append(BACKUP_SUFFIX);
    r
}

/// The name of a backup made now (see `backup_name`): its stamp is the
/// clock's reading; nothing when the clock cannot be read as a UTC time.
pub fn new_backup_filename() -> (r: Option<String>)
    ensures
        r matches Some(n) ==> exists|stamp: Seq<char>|
            #![trigger backup_name(stamp)]
            is_stamp_text(stamp) && n@ == backup_name(stamp) && exists|secs: i64|
                #[trigger] utc_stamp_of(secs) == Some(stamp),
{
    match utc_stamp_now() {
        Some(stamp) => {
            let r = backup_filename(stamp.as_str());
            assert(r@ == backup_name(stamp@));
            Some(r)
        },
        None => None,
    }
}

/// A file in the backup folder is a backup when its name starts with
/// `backup_` and ends with `.db`.
pub open spec fn is_backup_name(name: Seq<char>) -> bool {
    has_prefix(name, BACKUP_PREFIX@) && has_suffix(name, BACKUP_SUFFIX@)
}

pub fn is_backup_file_name(name: &str) -> (b: bool)
    ensures
        b == is_backup_name(name@),
{
    starts_with(name, BACKUP_PREFIX) && ends_with(name, BACKUP_SUFFIX)
}

/// A name accepted for a restore: a backup's name that cannot leave the
/// backup folder (no `/`, no `\`, no `..`).
pub open spec fn is_safe_backup_name(name: Seq<char>) -> bool {
    &&& is_backup_name(name)
    &&& !name.contains('/')
    &&& !name.contains('\\')
    &&& !has_infix(name, ".."@)
}

pub const INVALID_BACKUP_NAME: &'static str = "不正なバックアップファイル名です。";

/// Accepts a file name for a restore (see `is_safe_backup_name`).
pub fn validate_backup_filename(filename: &str) -> (r: Result<(), AppError>)
    ensures
        r is Ok <==> is_safe_backup_name(filename@),
        r is Err ==> (r matches Err(AppError::Other(m)) && m@ == INVALID_BACKUP_NAME@),
{
    let valid = starts_with(filename, BACKUP_PREFIX) && ends_with(filename, BACKUP_SUFFIX) && !contains_char(
        filename,
        '/',
    ) && !contains_char(filename, '\\') && !contains_str(filename, "..");
    if !valid {
        return Err(AppError::Other(String::from_str(INVALID_BACKUP_NAME)));
    }
    Ok(())
}

/// `s` with each `'` doubled, as an SQL string literal holds it.
pub open spec fn sql_quoted(s: Seq<char>) -> Seq<char>
    decreases s.len(),
{
    if s.len() == 0 {
        Seq::empty()
    } else if s.last() == '\'' {
        sql_quoted(s.drop_last()) + seq!['\'', '\'']
    } else {
        sql_quoted(s.drop_last()).push(s.last())
    }
}

/// Doubles each `'` of `path`, so that it can stand in an SQL string
/// literal.
pub fn quote_sql_string(path: &str) -> (r: String)
    ensures
        r@ == sql_quoted(path@),
{
    let v = to_chars(path);
    let mut r = String::new();
    let mut i: usize = 0;
    while i < v.len()
        invariant
            v@ == path@,
            0 <= i <= v@.len(),
            r@ == sql_quoted(v@.take(i as int)),
        decreases v.len() - i,
    {
        assert(v@.take(i + 1).drop_last() =~= v@.take(i as int));
        assert(v@.take(i + 1).last() == v@[i as int]);
        if v[i] == '\'' {
            crate::text::push_char(&mut r, '\'');
            crate::text::push_char(&mut r, '\'');
        } else {
            crate::text::push_char(&mut r, v[i]);
        }
        i += 1;
    }
    assert(v@.take(v@.len() as int) =~= v@);
    r
}

/// The statement that writes a snapshot of the database to `dest`.
pub fn backup_sql(dest: &str) -> (r: String)
    ensures
        r@ == "VACUUM INTO '"@ + sql_quoted(dest@) + "'"@,
{
    let mut r = String::from_str("VACUUM INTO '");
    let q = quote_sql_string(dest);
    r.append(q.as_str());
    r.append("'");
    r
}

/// `path` with `suffix` appended (the `-wal` and `-shm` files beside a
/// database).
pub fn path_with_suffix(path: &str, suffix: &str) -> (r: String)
    ensures
        r@ == path@ + suffix@,
{
    let mut r = String::from_str(path);
    r.append(suffix);
    r
}

/// `a` sorts before or with `b`, character by character (the order of
/// `str`, whose byte order follows the characters' code points).
pub open spec fn lex_le(a: Seq<char>, b: Seq<char>) -> bool
    decreases a.len(),
{
    if a.len() == 0 {
        true
    } else if b.len() == 0 {
        false
    } else if a[0] < b[0] {
        true
    } else if a[0] > b[0] {
        false
    } else {
        lex_le(a.drop_first(), b.drop_first())
    }
}

pub proof fn lemma_lex_total(a: Seq<char>, b: Seq<char>)
    ensures
        lex_le(a, b) || lex_le(b, a),
    decreases a.len(),
{
    if a.len() > 0 && b.len() > 0 && a[0] == b[0] {
        lemma_lex_total(a.drop_first(), b.drop_first());
    }
}

pub proof fn lemma_lex_trans(a: Seq<char>, b: Seq<char>, c: Seq<char>)
    requires
        lex_le(a, b),
        lex_le(b, c),
    ensures
        lex_le(a, c),
    decreases a.len(),
{
    if a.len() > 0 && b.len() > 0 && c.len() > 0 && a[0] == b[0] && b[0] == c[0] {
        lemma_lex_trans(a.drop_first(), b.drop_first(), c.drop_first());
    }
}

/// `s` is in ascending order.
pub open spec fn sorted(s: Seq<Seq<char>>) -> bool {
    forall|i: int, j: int| 0 <= i < j < s.len() ==> lex_le(#[trigger] s[i], #[trigger] s[j])
}

/// `a <= b` on two names.
fn lex_le_exec(a: &str, b: &str) -> (r: bool)
    ensures
        r == lex_le(a@, b@),
{
    let va = to_chars(a);
    let vb = to_chars(b);
    let mut i: usize = 0;
    assert(a@.skip(0) =~= a@);
    assert(b@.skip(0) =~= b@);
    while i < va.len() && i < vb.len() && va[i] == vb[i]
        invariant
            va@ == a@,
            vb@ == b@,
            0 <= i <= va@.len(),
            i <= vb@.len(),
            lex_le(a@, b@) == lex_le(a@.skip(i as int), b@.skip(i as int)),
        decreases va.len() - i,
    {
        assert(a@.skip(i as int).drop_first() =~= a@.skip(i + 1));
        assert(b@.skip(i as int).drop_first() =~= b@.skip(i + 1));
        i += 1;
    }
    if i == va.len() {
        true
    } else if i == vb.len() {
        false
    } else {
        assert(a@.skip(i as int)[0] == va@[i as int]);
        assert(b@.skip(i as int)[0] == vb@[i as int]);
        va[i] < vb[i]
    }
}

/// Sorts `names` in ascending order.
pub fn sort_names(names: &mut Vec<String>)
    ensures
        sorted(views(final(names)@)),
        views(final(names)@).to_multiset() == views(old(names)@).to_multiset(),
{
    let mut out: Vec<String> = Vec::new();
    let ghost orig = views(names@);
    assert(views(out@).to_multiset().add(views(names@).to_multiset()) =~= orig.to_multiset()) by {
        broadcast use vstd::multiset::group_multiset_axioms;
        broadcast use vstd::seq_lib::group_to_multiset_ensures;

        assert(views(out@).len() == 0);
        vstd::multiset::lemma_multiset_empty_len(views(out@).to_multiset());
    }
    while names.len() > 0
        invariant
            sorted(views(out@)),
            views(out@).to_multiset().add(views(names@).to_multiset()) == orig.to_multiset(),
        decreases names.len(),
    {
        let ghost before_names = views(names@);
        let x = names.pop().unwrap();
        assert(before_names =~= views(names@).push(x@));
        proof {
            vstd::seq_lib::to_multiset_build(views(names@), x@);
        }
        let mut p: usize = 0;
        while p < out.len() && lex_le_exec(out[p].as_str(), x.as_str())
            invariant
                0 <= p <= out@.len(),
                forall|k: int| 0 <= k < p ==> lex_le(#[trigger] views(out@)[k], x@),
            decreases out.len() - p,
        {
            p += 1;
        }
        let ghost before = views(out@);
        out.insert(p, x);
        proof {
            assert(views(out@) =~= before.insert(p as int, x@));
            vstd::seq_lib::to_multiset_insert(before, p as int, x@);
            if p < before.len() {
                lemma_lex_total(before[p as int], x@);
            }
            assert forall|i: int, j: int| 0 <= i < j < views(out@).len() implies lex_le(
                #[trigger] views(out@)[i],
                #[trigger] views(out@)[j],
            ) by {
                let s = views(out@);
                if j < p {
                    assert(s[i] == before[i] && s[j] == before[j]);
                } else if j == p {
                    assert(s[i] == before[i]);
                } else if i == p {
                    assert(s[j] == before[j - 1]);
                    if j - 1 > p {
                        assert(lex_le(before[p as int], before[j - 1]));
                        lemma_lex_trans(x@, before[p as int], before[j - 1]);
                    }
                } else if i < p {
                    assert(s[i] == before[i] && s[j] == before[j - 1]);
                } else {
                    assert(s[i] == before[i - 1] && s[j] == before[j - 1]);
                }
            }
        }
        assert(views(out@).to_multiset().add(views(names@).to_multiset()) =~= orig.to_multiset()) by {
            broadcast use vstd::multiset::group_multiset_axioms;

        }
    }
    assert(views(out@).to_multiset() =~= orig.to_multiset()) by {
        broadcast use vstd::multiset::group_multiset_axioms;
        broadcast use vstd::seq_lib::group_to_multiset_ensures;

        assert(views(names@).len() == 0);
        assert(views(names@).to_multiset().len() == 0);
        vstd::multiset::lemma_multiset_empty_len(views(names@).to_multiset());
    }
    *names = out;
}

/// The backups among `names`, in their order.
pub open spec fn backup_names(names: Seq<Seq<char>>) -> Seq<Seq<char>> {
    names.filter(|n: Seq<char>| is_backup_name(n))
}

/// The names of `names` that are backups (see `is_backup_name`).
pub fn backup_files(names: &[String]) -> (r: Vec<String>)
    ensures
        views(r@) == backup_names(views(names@)),
{
    let mut r: Vec<String> = Vec::new();
    let mut i: usize = 0;
    while i < names.len()
        invariant
            0 <= i <= names@.len(),
            views(r@) == backup_names(views(names@).take(i as int)),
        decreases names.len() - i,
    {
        let ghost before = views(r@);
        assert(views(names@).take(i + 1) =~= views(names@).take(i as int).push(names@[i as int]@));
        proof {
            views(names@).take(i as int).lemma_filter_push(names@[i as int]@, |n: Seq<char>| is_backup_name(n));
        }
        if is_backup_file_name(names[i].as_str()) {
            let n = names[i].clone();
            r.push(n);
            assert(views(r@) =~= before.push(n@));
        } else {
            assert(views(r@) =~= before);
        }
        i += 1;
    }
    assert(views(names@).take(names@.len() as int) =~= views(names@));
    r
}

/// Splits the backups among `names` into those to delete and those to
/// keep: in ascending order (the order of their time stamps), all but the
/// newest `keep` go first.
pub fn prune_plan(names: &[String], keep: usize) -> (r: (Vec<String>, Vec<String>))
    ensures
        sorted(views(r.0@) + views(r.1@)),
        (views(r.0@) + views(r.1@)).to_multiset() == backup_names(views(names@)).to_multiset(),
        r.1@.len() == if backup_names(views(names@)).len() < keep {
            backup_names(views(names@)).len()
        } else {
            keep as nat
        },
{
    let mut files = backup_files(names);
    let ghost unsorted = views(files@);
    sort_names(&mut files);
    let ghost all = views(files@);
    proof {
        broadcast use vstd::seq_lib::group_to_multiset_ensures;

        assert(all.len() == all.to_multiset().len());
        assert(unsorted.len() == unsorted.to_multiset().len());
    }
    let n = files.len();
    let cut = if n > keep {
        n - keep
    } else {
        0
    };
    let mut kept: Vec<String> = Vec::new();
    let mut pruned: Vec<String> = Vec::new();
    let mut i: usize = 0;
    while i < files.len()
        invariant
            all == views(files@),
            cut <= files@.len(),
            0 <= i <= files@.len(),
            i <= cut ==> views(pruned@) == all.take(i as int) && kept@.len() == 0,
            i > cut ==> views(pruned@) == all.take(cut as int) && views(kept@) == all.subrange(cut as int, i as int),
        decreases files.len() - i,
    {
        let f = files[i].clone();
        if i < cut {
            let ghost before = views(pruned@);
            pruned.push(f);
            assert(views(pruned@) =~= before.push(f@));
            assert(all.take(i + 1) =~= all.take(i as int).push(all[i as int]));
        } else {
            let ghost before = views(kept@);
            kept.push(f);
            assert(views(kept@) =~= before.push(f@));
            if i == cut {
                assert(views(kept@) =~= all.subrange(cut as int, i + 1));
            } else {
                assert(all.subrange(cut as int, i + 1) =~= all.subrange(cut as int, i as int).push(all[i as int]));
            }
        }
        i += 1;
    }
    if files.len() == cut {
        assert(views(kept@) =~= Seq::<Seq<char>>::empty());
    }
    assert(views(pruned@) + views(kept@) =~= all);
    (pruned, kept)
}

/// The backups among `names`, newest first.
pub fn newest_first(names: &[String]) -> (r: Vec<String>)
    ensures
        sorted(views(r@).reverse()),
        views(r@).to_multiset() == backup_names(views(names@)).to_multiset(),
{
    let mut files = backup_files(names);
    sort_names(&mut files);
    let ghost asc = views(files@);
    let mut r: Vec<String> = Vec::new();
    let mut i: usize = files.len();
    while i > 0
        invariant
            asc == views(files@),
            i <= files@.len(),
            views(r@) == asc.subrange(i as int, asc.len() as int).reverse(),
        decreases i,
    {
        let f = files[i - 1].clone();
        let ghost before = views(r@);
        r.push(f);
        assert(views(r@) =~= before.push(f@));
        assert(asc.subrange(i - 1, asc.len() as int).reverse() =~= asc.subrange(i as int, asc.len() as int).reverse().push(
            asc[i - 1],
        ));
        i -= 1;
    }
    assert(asc.subrange(0, asc.len() as int) =~= asc);
    assert(views(r@).reverse() =~= asc);
    proof {
        asc.lemma_reverse_to_multiset();
    }
    r
}

/// The time stamp inside a backup's name.
pub open spec fn stamp_of(name: Seq<char>) -> Option<Seq<char>> {
    if has_prefix(name, BACKUP_PREFIX@) && name.len() >= BACKUP_PREFIX@.len() + BACKUP_SUFFIX@.len() && has_suffix(
        name,
        BACKUP_SUFFIX@,
    ) {
        Some(name.subrange(BACKUP_PREFIX@.len() as int, name.len() - BACKUP_SUFFIX@.len()))
    } else {
        None
    }
}

/// The RFC 3339 form of the UTC time that `stamp` writes in `STAMP_FORMAT`,
/// when it is such a time.
pub uninterp spec fn stamp_as_rfc3339(stamp: Seq<char>) -> Option<Seq<char>>;

/// Reads `stamp` in `STAMP_FORMAT` and writes it in RFC 3339
/// (`chrono::NaiveDateTime::parse_from_str`, taken as UTC, then
/// `to_rfc3339`). Which stamps are valid times, and how they are written
/// back, is named rather than stated: it is the calendar's business.
#[verifier::external_body]
fn rfc3339_of_stamp(stamp: &str) -> (r: Option<String>)
    ensures
        match r {
            Some(t) => stamp_as_rfc3339(stamp@) == Some(t@),
            None => stamp_as_rfc3339(stamp@) is None,
        },
{
    chrono::NaiveDateTime::parse_from_str(stamp, STAMP_FORMAT).ok().map(|dt| dt.and_utc().to_rfc3339())
}

/// The stamp inside a backup's name (see `stamp_of`).
pub fn backup_stamp(name: &str) -> (r: Option<String>)
    ensures
        match r {
            Some(s) => stamp_of(name@) == Some(s@),
            None => stamp_of(name@) is None,
        },
{
    let v = to_chars(name);
    if starts_with(name, BACKUP_PREFIX) && v.len() >= 10 && ends_with(name, BACKUP_SUFFIX) {
        proof {
            reveal_strlit("backup_");
            reveal_strlit(".db");
        }
        Some(string_of_range(&v, 7, v.len() - 3))
    } else {
        proof {
            reveal_strlit("backup_");
            reveal_strlit(".db");
        }
        None
    }
}

/// When a backup was made, as its name tells: the RFC 3339 form of its
/// stamp when `parsed` holds it (see `stamp_as_rfc3339`), else nothing.
pub fn created_at_text(parsed: Option<String>) -> (r: String)
    ensures
        r@ == match parsed {
            Some(t) => t@,
            None => Seq::empty(),
        },
{
    match parsed {
        Some(t) => t,
        None => String::new(),
    }
}

/// When the backup `name` was made (its stamp in RFC 3339), or nothing
/// when its name holds no valid stamp.
pub fn backup_created_at(name: &str) -> (r: String)
    ensures
        r@ == match stamp_of(name@) {
            Some(s) => match stamp_as_rfc3339(s) {
                Some(t) => t,
                None => Seq::empty(),
            },
            None => Seq::empty(),
        },
{
    match backup_stamp(name) {
        Some(s) => created_at_text(rfc3339_of_stamp(s.as_str())),
        None => String::new(),
    }
}

/// When the backup `name` was made, as its listing shows it: the RFC 3339
/// form of the stamp in its name, or nothing.
pub open spec fn created_at_of(name: Seq<char>) -> Seq<char> {
    match stamp_of(name) {
        Some(s) => match stamp_as_rfc3339(s) {
            Some(t) => t,
            None => Seq::empty(),
        },
        None => Seq::empty(),
    }
}

/// The listing entry of a backup file of `size_bytes` bytes.
pub fn backup_info(filename: String, size_bytes: u64) -> (b: BackupInfo)
    ensures
        b.filename@ == filename@,
        b.size_bytes == size_bytes,
        b.created_at@ == created_at_of(filename@),
{
    let created_at = backup_created_at(filename.as_str());
    BackupInfo { filename, created_at, size_bytes }
}

/// The names of the files in `files` (name and size in bytes), in order.
pub open spec fn file_entry_names(files: Seq<(String, u64)>) -> Seq<Seq<char>> {
    files.map_values(|f: (String, u64)| f.0@)
}

/// The size given for the file `name` in `files` (its first entry), or 0.
pub open spec fn entry_size(files: Seq<(String, u64)>, name: Seq<char>) -> u64
    decreases files.len(),
{
    if files.len() == 0 {
        0
    } else if files[0].0@ == name {
        files[0].1
    } else {
        entry_size(files.drop_first(), name)
    }
}

/// The names of the listed backups, in order.
pub open spec fn listed_names(infos: Seq<BackupInfo>) -> Seq<Seq<char>> {
    infos.map_values(|b: BackupInfo| b.filename@)
}

fn size_in(files: &[(String, u64)], name: &str) -> (r: u64)
    ensures
        r == entry_size(files@, name@),
{
    let mut i: usize = 0;
    assert(files@.skip(0) =~= files@);
    while i < files.len()
        invariant
            0 <= i <= files@.len(),
            entry_size(files@, name@) == entry_size(files@.skip(i as int), name@),
        decreases files.len() - i,
    {
        assert(files@.skip(i as int).drop_first() =~= files@.skip(i + 1));
        assert(files@.skip(i as int)[0] == files@[i as int]);
        if str_eq(files[i].0.as_str(), name) {
            return files[i].1;
        }
        i += 1;
    }
    0
}

/// The backup listing of a directory whose files are `files` (each name
/// with its size in bytes): the backups among them, newest first, each
/// with its size and the time its name tells.
pub fn list_backup_infos(files: &[(String, u64)]) -> (r: Vec<BackupInfo>)
    ensures
        sorted(listed_names(r@).reverse()),
        listed_names(r@).to_multiset() == backup_names(file_entry_names(files@)).to_multiset(),
        forall|i: int|
            0 <= i < r@.len() ==> (#[trigger] r@[i]).size_bytes == entry_size(files@, r@[i].filename@)
                && r@[i].created_at@ == created_at_of(r@[i].filename@),
{
    let mut names: Vec<String> = Vec::new();
    let mut k: usize = 0;
    while k < files.len()
        invariant
            0 <= k <= files@.len(),
            views(names@) == file_entry_names(files@).take(k as int),
        decreases files.len() - k,
    {
        let ghost before = views(names@);
        let n = files[k].0.clone();
        assert(n@ == files@[k as int].0@);
        names.push(n);
        assert(views(names@) =~= before.push(n@));
        assert(file_entry_names(files@).take(k + 1) =~= file_entry_names(files@).take(k as int).push(n@));
        assert(views(names@) =~= file_entry_names(files@).take(k + 1));
        k += 1;
    }
    assert(file_entry_names(files@).take(files@.len() as int) =~= file_entry_names(files@));
    let ordered = newest_first(&names);
    let mut out: Vec<BackupInfo> = Vec::new();
    let mut i: usize = 0;
    while i < ordered.len()
        invariant
            0 <= i <= ordered@.len(),
            listed_names(out@) == views(ordered@).take(i as int),
            forall|j: int|
                0 <= j < out@.len() ==> (#[trigger] out@[j]).size_bytes == entry_size(files@, out@[j].filename@)
                    && out@[j].created_at@ == created_at_of(out@[j].filename@),
        decreases ordered.len() - i,
    {
        let name = ordered[i].clone();
        let size = size_in(files, name.as_str());
        let b = backup_info(name, size);
        let ghost before = out@;
        out.push(b);
        assert(listed_names(out@) =~= listed_names(before).push(b.filename@));
        assert(views(ordered@).take(i + 1) =~= views(ordered@).take(i as int).push(ordered@[i as int]@));
        assert(listed_names(out@) =~= views(ordered@).take(i + 1));
        i += 1;
    }
    assert(views(ordered@).take(ordered@.len() as int) =~= views(ordered@));
    out
}

pub const BACKUP_NOT_LISTED: &'static str = "バックアップの作成後に情報を取得できませんでした。";

/// The listed backup named `filename`; an error when none is.
pub fn take_backup(infos: Vec<BackupInfo>, filename: &str) -> (r: Result<BackupInfo, AppError>)
    ensures
        r is Ok <==> exists|i: int| 0 <= i < infos@.len() && (#[trigger] infos@[i]).filename@ == filename@,
        r matches Ok(b) ==> exists|i: int|
            0 <= i < infos@.len() && b == #[trigger] infos@[i] && forall|j: int|
                0 <= j < i ==> (#[trigger] infos@[j]).filename@ != filename@,
        r is Err ==> (r matches Err(AppError::Other(m)) && m@ == BACKUP_NOT_LISTED@),
{
    let mut i: usize = 0;
    while i < infos.len()
        invariant
            0 <= i <= infos@.len(),
            forall|j: int| 0 <= j < i ==> (#[trigger] infos@[j]).filename@ != filename@,
        decreases infos.len() - i,
    {
        if str_eq(infos[i].filename.as_str(), filename) {
            let ghost orig = infos@;
            assert(orig[i as int].filename@ == filename@);
            let mut rest = infos;
            let b = rest.remove(i);
            assert(b == orig[i as int]);
            return Ok(b);
        }
        i += 1;
    }
    Err(AppError::Other(String::from_str(BACKUP_NOT_LISTED)))
}

/// The error for a restore from a backup that is not there.
pub fn missing_backup(filename: &str) -> (e: AppError)
    ensures
        e matches AppError::NotFound(m) && m@ == "バックアップファイルが見つかりません: "@ + filename@,
{
    let mut m = String::from_str("バックアップファイルが見つかりません: ");
    m.append(filename);
    AppError::NotFound(m)
}

/// Every backup this application names can be restored by that name: a
/// name made from a time stamp is accepted by `validate_backup_filename`.
pub proof fn law_backup_names_are_restorable(stamp: Seq<char>)
    requires
        forall|i: int| 0 <= i < stamp.len() ==> stamp_char(#[trigger] stamp[i]),
    ensures
        is_safe_backup_name(backup_name(stamp)),
        is_backup_name(backup_name(stamp)),
{
    reveal_strlit("backup_");
    reveal_strlit(".db");
    reveal_strlit("..");
    let p = BACKUP_PREFIX@;
    let q = BACKUP_SUFFIX@;
    let name = backup_name(stamp);
    let n = name.len() as int;
    assert(p.len() == 7 && q.len() == 3);
    assert(name.subrange(0, 7) =~= p);
    assert(name.subrange(n - 3, n) =~= q);
    assert forall|i: int| 0 <= i < n implies name[i] != '/' && name[i] != '\\' && (name[i] == '.' ==> i == n - 3) by {
        if i < 7 {
            assert(name[i] == p[i]);
        } else if i < n - 3 {
            assert(name[i] == stamp[i - 7]);
        } else {
            assert(name[i] == q[i - (n - 3)]);
        }
    }
    assert forall|i: int| !occurs_at(name, ".."@, i) by {
        if occurs_at(name, ".."@, i) {
            assert(name.subrange(i, i + 2)[0] == '.');
            assert(name.subrange(i, i + 2)[1] == '.');
            assert(name[i] == '.' && name[i + 1] == '.');
        }
    }
}

/// A backup's name gives back the stamp it was made with: the stamp read
/// from `backup_{stamp}.db` is `stamp`, so the listed creation time is the
/// time of the backup.
pub proof fn law_stamp_read_back(stamp: Seq<char>)
    ensures
        stamp_of(backup_name(stamp)) == Some(stamp),
{
    reveal_strlit("backup_");
    reveal_strlit(".db");
    let name = backup_name(stamp);
    let n = name.len() as int;
    assert(name.subrange(0, 7) =~= BACKUP_PREFIX@);
    assert(name.subrange(n - 3, n) =~= BACKUP_SUFFIX@);
    assert(name.subrange(7, n - 3) =~= stamp);
}

/// A stamp as `STAMP_FORMAT` writes a time in the years 1000 to 9999:
/// eight digits (date), `T`, six digits (time of day), `Z`.
pub open spec fn is_plain_stamp(s: Seq<char>) -> bool {
    &&& s.len() == 16
    &&& all_digits(s.subrange(0, 8))
    &&& s[8] == 'T'
    &&& all_digits(s.subrange(9, 15))
    &&& s[15] == 'Z'
}

/// The time a plain stamp stands for, as the number `YYYYMMDDhhmmss`
/// (which orders times as they pass).
pub open spec fn stamp_time(s: Seq<char>) -> nat {
    digits_value(s.subrange(0, 8) + s.subrange(9, 15))
}

proof fn lemma_lex_refl(a: Seq<char>)
    ensures
        lex_le(a, a),
    decreases a.len(),
{
    if a.len() > 0 {
        lemma_lex_refl(a.drop_first());
    }
}

/// Comparing two texts that start with the same part compares the rest.
proof fn lemma_lex_common_prefix(p: Seq<char>, x: Seq<char>, y: Seq<char>)
    ensures
        lex_le(p + x, p + y) == lex_le(x, y),
    decreases p.len(),
{
    if p.len() == 0 {
        assert(p + x =~= x);
        assert(p + y =~= y);
    } else {
        assert((p + x).drop_first() =~= p.drop_first() + x);
        assert((p + y).drop_first() =~= p.drop_first() + y);
        assert((p + x)[0] == p[0] && (p + y)[0] == p[0]);
        lemma_lex_common_prefix(p.drop_first(), x, y);
    }
}

/// Two texts cut at the same length compare by their first parts, unless
/// these are equal.
proof fn lemma_lex_split(x1: Seq<char>, x2: Seq<char>, y1: Seq<char>, y2: Seq<char>)
    requires
        x1.len() == y1.len(),
    ensures
        lex_le(x1 + x2, y1 + y2) == if x1 == y1 {
            lex_le(x2, y2)
        } else {
            lex_le(x1, y1)
        },
    decreases x1.len(),
{
    if x1.len() == 0 {
        assert(x1 =~= y1);
        assert(x1 + x2 =~= x2);
        assert(y1 + y2 =~= y2);
    } else {
        assert((x1 + x2).drop_first() =~= x1.drop_first() + x2);
        assert((y1 + y2).drop_first() =~= y1.drop_first() + y2);
        assert((x1 + x2)[0] == x1[0] && (y1 + y2)[0] == y1[0]);
        lemma_lex_split(x1.drop_first(), x2, y1.drop_first(), y2);
        if x1[0] == y1[0] && x1.drop_first() == y1.drop_first() {
            assert forall|i: int| 0 <= i < x1.len() implies x1[i] == y1[i] by {
                if i > 0 {
                    assert(x1[i] == x1.drop_first()[i - 1]);
                    assert(y1[i] == y1.drop_first()[i - 1]);
                }
            }
            assert(x1 =~= y1);
        }
        if x1 == y1 {
            assert(x1.drop_first() =~= y1.drop_first());
        }
    }
}

proof fn lemma_digits_bound(s: Seq<char>)
    requires
        all_digits(s),
    ensures
        digits_value(s) < pow10(s.len()),
    decreases s.len(),
{
    if s.len() > 0 {
        let d = s.drop_last();
        assert(all_digits(d)) by {
            assert forall|i: int| 0 <= i < d.len() implies '0' <= #[trigger] d[i] && d[i] <= '9' by {
                assert(d[i] == s[i]);
            }
        }
        lemma_digits_bound(d);
        assert('0' <= s[s.len() - 1] <= '9');
    }
}

/// The value of a run of digits, read from its first digit.
proof fn lemma_digits_front(s: Seq<char>)
    requires
        s.len() > 0,
        all_digits(s),
    ensures
        digits_value(s) == ((s[0] as int) - ('0' as int)) * pow10((s.len() - 1) as nat) + digits_value(
            s.drop_first(),
        ),
    decreases s.len(),
{
    let a = (s[0] as int) - ('0' as int);
    assert('0' <= s[0] <= '9');
    if s.len() == 1 {
        assert(s.drop_last() =~= Seq::<char>::empty());
        assert(s.drop_first() =~= Seq::<char>::empty());
        assert(digits_value(Seq::<char>::empty()) == 0);
        assert(pow10(0) == 1);
        assert(s.last() == s[0]);
        assert(digits_value(s) == digits_value(s.drop_last()) * 10 + (((s.last() as int) - ('0' as int)) as nat));
        assert(digits_value(s) == a);
    } else {
        let d = s.drop_last();
        assert(d[0] == s[0]);
        assert(all_digits(d)) by {
            assert forall|i: int| 0 <= i < d.len() implies '0' <= #[trigger] d[i] && d[i] <= '9' by {
                assert(d[i] == s[i]);
            }
        }
        assert('0' <= s[s.len() - 1] <= '9');
        assert('0' <= s[1] <= '9');
        lemma_digits_front(d);
        assert(d.drop_first() =~= s.drop_first().drop_last());
        assert(s.drop_first().last() == s.last());
        let p = pow10((d.len() - 1) as nat);
        let b = digits_value(d.drop_first());
        let c = (s.last() as int) - ('0' as int);
        assert(digits_value(s) == digits_value(d) * 10 + c);
        assert(digits_value(s.drop_first()) == b * 10 + c);
        assert(pow10((s.len() - 1) as nat) == 10 * p);
        assert((a * p + b) * 10 + c == a * (10 * p) + (b * 10 + c)) by (nonlinear_arith);
    }
}

/// Runs of digits of the same length compare as their values.
proof fn lemma_digits_order(x: Seq<char>, y: Seq<char>)
    requires
        x.len() == y.len(),
        all_digits(x),
        all_digits(y),
    ensures
        lex_le(x, y) <==> digits_value(x) <= digits_value(y),
    decreases x.len(),
{
    if x.len() > 0 {
        let xr = x.drop_first();
        let yr = y.drop_first();
        assert(all_digits(xr)) by {
            assert forall|i: int| 0 <= i < xr.len() implies '0' <= #[trigger] xr[i] && xr[i] <= '9' by {
                assert(xr[i] == x[i + 1]);
            }
        }
        assert(all_digits(yr)) by {
            assert forall|i: int| 0 <= i < yr.len() implies '0' <= #[trigger] yr[i] && yr[i] <= '9' by {
                assert(yr[i] == y[i + 1]);
            }
        }
        lemma_digits_order(xr, yr);
        lemma_digits_front(x);
        lemma_digits_front(y);
        lemma_digits_bound(xr);
        lemma_digits_bound(yr);
        let p = pow10((x.len() - 1) as nat);
        let dx = (x[0] as int) - ('0' as int);
        let dy = (y[0] as int) - ('0' as int);
        let vx = digits_value(xr);
        let vy = digits_value(yr);
        assert('0' <= x[0] <= '9' && '0' <= y[0] <= '9');
        if dx < dy {
            assert(dx * p + vx < dy * p + vy) by (nonlinear_arith)
                requires
                    dx < dy,
                    0 <= vx < p,
                    0 <= vy,
            ;
        } else if dx > dy {
            assert(dy * p + vy < dx * p + vx) by (nonlinear_arith)
                requires
                    dy < dx,
                    0 <= vy < p,
                    0 <= vx,
            ;
        }
    }
}

proof fn lemma_digits_concat(x: Seq<char>, y: Seq<char>)
    requires
        all_digits(x),
        all_digits(y),
    ensures
        all_digits(x + y),
{
    assert forall|i: int| 0 <= i < (x + y).len() implies '0' <= #[trigger] (x + y)[i] && (x + y)[i] <= '9' by {
        if i < x.len() {
            assert((x + y)[i] == x[i]);
        } else {
            assert((x + y)[i] == y[i - x.len()]);
        }
    }
}

/// Backups sort by name as they were made: for names made from plain
/// stamps, the order of the names (the order pruning and listing use) is
/// the order of the times.
pub proof fn law_name_order_is_time_order(a: Seq<char>, b: Seq<char>)
    requires
        is_plain_stamp(a),
        is_plain_stamp(b),
    ensures
        lex_le(backup_name(a), backup_name(b)) <==> stamp_time(a) <= stamp_time(b),
{
    let p = BACKUP_PREFIX@;
    let q = BACKUP_SUFFIX@;
    assert(backup_name(a) =~= p + (a + q));
    assert(backup_name(b) =~= p + (b + q));
    lemma_lex_common_prefix(p, a + q, b + q);
    let a8 = a.subrange(0, 8);
    let b8 = b.subrange(0, 8);
    let a6 = a.subrange(9, 15);
    let b6 = b.subrange(9, 15);
    let t = seq!['T'];
    let zq = seq!['Z'] + q;
    assert(a + q =~= a8 + (t + (a6 + zq)));
    assert(b + q =~= b8 + (t + (b6 + zq)));
    lemma_lex_split(a8, t + (a6 + zq), b8, t + (b6 + zq));
    lemma_lex_common_prefix(t, a6 + zq, b6 + zq);
    lemma_lex_split(a6, zq, b6, zq);
    lemma_lex_refl(zq);
    lemma_lex_refl(a6);
    lemma_lex_split(a8, a6, b8, b6);
    lemma_digits_concat(a8, a6);
    lemma_digits_concat(b8, b6);
    lemma_digits_order(a8 + a6, b8 + b6);
}

/// Pruning keeps the newest backups: when the backups, in the order
/// `prune_plan` gives them (those deleted, then those kept), are named
/// from plain stamps, every backup deleted was made no later than every
/// backup kept.
pub proof fn law_pruning_keeps_the_newest(pruned: Seq<Seq<char>>, kept: Seq<Seq<char>>)
    requires
        sorted(pruned + kept),
        forall|i: int|
            0 <= i < (pruned + kept).len() ==> exists|s: Seq<char>|
                is_plain_stamp(s) && #[trigger] (pruned + kept)[i] == backup_name(s),
    ensures
        forall|i: int, j: int|
            0 <= i < pruned.len() && 0 <= j < kept.len() ==> stamp_time(stamp_of(#[trigger] pruned[i])->0)
                <= stamp_time(stamp_of(#[trigger] kept[j])->0),
{
    let all = pruned + kept;
    assert forall|i: int, j: int| 0 <= i < pruned.len() && 0 <= j < kept.len() implies stamp_time(
        stamp_of(#[trigger] pruned[i])->0,
    ) <= stamp_time(stamp_of(#[trigger] kept[j])->0) by {
        assert(all[i] == pruned[i]);
        assert(all[pruned.len() + j] == kept[j]);
        let a = choose|s: Seq<char>| is_plain_stamp(s) && all[i] == backup_name(s);
        let b = choose|s: Seq<char>| is_plain_stamp(s) && all[pruned.len() + j] == backup_name(s);
        assert(lex_le(all[i], all[pruned.len() + j]));
        law_stamp_read_back(a);
        law_stamp_read_back(b);
        law_name_order_is_time_order(a, b);
    }
}

} // verus!
