use vstd::prelude::*;
use vstd::string::StringExecFns;
use crate::decimal::{decimal_chars, decimal_vec, lemma_decimal_chars, u64_to_decimal};
use crate::marfs::{
    file_mode_spec, get_marfs_file_mode, get_streamid_key, streamid_key_spec, Ftag, NsInodeMap,
};
use crate::text::{char_vec, contains_seq, str_contains, string_from_chars};

verus! {

/// The first number in the name of every quota xattr this tool sets.
pub const QUOTA_MAGIC_NUM: u32 = 123;

/// The second number in the name of every quota xattr: the repository number.
pub const QUOTA_REPO_NUM: u32 = 0;

/// The name of the quota xattr for the namespace whose root directory has inode
/// `ns_ino`: `scoutfs.hide.totl.acct.` followed by the magic number, the repository
/// number and `ns_ino`, in decimal and separated by dots.
pub open spec fn quota_xattr_name_spec(ns_ino: u64) -> Seq<char> {
    "scoutfs.hide.totl.acct."@ + decimal_chars(QUOTA_MAGIC_NUM as nat) + seq!['.'] + decimal_chars(
        QUOTA_REPO_NUM as nat,
    ) + seq!['.'] + decimal_chars(ns_ino as nat)
}

/// The quota xattr name is `scoutfs.hide.totl.acct.123.0.` followed by the
/// namespace's root inode in decimal: three dot-separated numbers, the magic
/// number, the repository number and the inode.
pub proof fn lemma_quota_xattr_name_form(ns_ino: u64)
    ensures
        quota_xattr_name_spec(ns_ino) == "scoutfs.hide.totl.acct.123.0."@ + decimal_chars(ns_ino as nat),
{
    reveal_strlit("scoutfs.hide.totl.acct.123.0.");
    reveal_strlit("scoutfs.hide.totl.acct.");
    assert(decimal_chars(1) == seq!['1']);
    assert(decimal_chars(12) == seq!['1', '2']);
    assert(decimal_chars(123) =~= seq!['1', '2', '3']);
    assert(decimal_chars(0) == seq!['0']);
    assert("scoutfs.hide.totl.acct."@ + seq!['1', '2', '3'] + seq!['.'] + seq!['0'] + seq!['.']
        =~= "scoutfs.hide.totl.acct.123.0."@);
}

/// Each namespace has its own quota xattr: different root inodes give different names.
pub proof fn lemma_quota_xattr_name_unique(a: u64, b: u64)
    ensures
        quota_xattr_name_spec(a) == quota_xattr_name_spec(b) ==> a == b,
{
    if quota_xattr_name_spec(a) == quota_xattr_name_spec(b) {
        let prefix = "scoutfs.hide.totl.acct."@ + decimal_chars(QUOTA_MAGIC_NUM as nat) + seq!['.']
            + decimal_chars(QUOTA_REPO_NUM as nat) + seq!['.'];
        let na = quota_xattr_name_spec(a);
        assert(na =~= prefix + decimal_chars(a as nat));
        assert(quota_xattr_name_spec(b) =~= prefix + decimal_chars(b as nat));
        assert(decimal_chars(a as nat) =~= na.subrange(prefix.len() as int, na.len() as int));
        assert(decimal_chars(b as nat) =~= na.subrange(prefix.len() as int, na.len() as int));
        lemma_decimal_chars(a as nat);
        lemma_decimal_chars(b as nat);
    }
}

/// The name of the quota xattr for the namespace whose root directory has inode `ns_ino`.
pub fn quota_xattr_name(ns_ino: u64) -> (name: String)
    ensures
        name@ == quota_xattr_name_spec(ns_ino),
{
    let mut v = char_vec("scoutfs.hide.totl.acct.");
    let mut magic = decimal_vec(QUOTA_MAGIC_NUM as u64);
    v.append(&mut magic);
    v.push('.');
    let mut repo = decimal_vec(QUOTA_REPO_NUM as u64);
    v.append(&mut repo);
    v.push('.');
    let mut ino = decimal_vec(ns_ino);
    v.append(&mut ino);
    string_from_chars(v.as_slice())
}

/// The value given to a quota xattr: the file's size in bytes, in decimal.
pub fn quota_xattr_value(ftag_bytes: usize) -> (value: String)
    ensures
        value@ == decimal_chars(ftag_bytes as nat),
{
    u64_to_decimal(ftag_bytes as u64)
}

/// The xattr list holds an error text and not the quota xattr, so whether the
/// file carries the quota xattr cannot be told.
#[derive(Debug, Clone, Copy, PartialEq, Eq, Structural)]
pub struct UnreadableXattrList;

/// Whether a list of xattr names holds `name`: yes where it does; where it does
/// not, unknown if some name in the list contains `error`, else no.
pub open spec fn presence_spec(list: Seq<Seq<char>>, name: Seq<char>) -> Result<bool, UnreadableXattrList> {
    if exists|i: int| 0 <= i < list.len() && #[trigger] list[i] == name {
        Ok(true)
    } else if exists|i: int| 0 <= i < list.len() && contains_seq(#[trigger] list[i], "error"@) {
        Err(UnreadableXattrList)
    } else {
        Ok(false)
    }
}

/// Whether a file's xattr list holds the quota xattr `name`. Where it does not, an
/// entry that contains `error` makes the answer unknown.
pub fn quota_xattr_present(list: &Vec<String>, name: &String) -> (r: Result<bool, UnreadableXattrList>)
    ensures
        r == presence_spec(list@.map_values(|s: String| s@), name@),
{
    let mut i: usize = 0;
    while i < list.len()
        invariant
            i <= list@.len(),
            forall|j: int| 0 <= j < i ==> #[trigger] list@[j]@ != name@,
        decreases list@.len() - i,
    {
        if list[i] == *name {
            assert(list@.map_values(|s: String| s@)[i as int] == name@);
            return Ok(true);
        }
        i = i + 1;
    }
    let mut k: usize = 0;
    while k < list.len()
        invariant
            k <= list@.len(),
            forall|j: int| 0 <= j < list@.len() ==> #[trigger] list@[j]@ != name@,
            forall|j: int| 0 <= j < k ==> !contains_seq(#[trigger] list@[j]@, "error"@),
        decreases list@.len() - k,
    {
        if str_contains(list[k].as_str(), "error") {
            assert(list@.map_values(|s: String| s@)[k as int] == list@[k as int]@);
            return Err(UnreadableXattrList);
        }
        k = k + 1;
    }
    let ghost views = list@.map_values(|s: String| s@);
    assert forall|j: int| 0 <= j < views.len() implies #[trigger] views[j] != name@ && !contains_seq(views[j], "error"@) by {
        assert(views[j] == list@[j]@);
    }
    Ok(false)
}

/// What happens to a file's quota accounting.
#[derive(Debug, Clone, Copy, PartialEq, Eq, Structural)]
pub enum QuotaAction {
    /// Set the quota xattr, with the file's size as its value: the file counts.
    Add,
    /// Remove the quota xattr: the file no longer counts.
    Remove,
    /// Leave the file as it is.
    Unchanged,
}

/// The quota rule: a complete file (mode `COMP`) with two links and no quota
/// xattr is added; a file with the quota xattr and fewer than two links (deleted
/// by its user) is removed; anything else is left as it is.
pub open spec fn quota_action_spec(xattr_exists: bool, file_mode: Seq<char>, nlink: u64) -> QuotaAction {
    if !xattr_exists && file_mode == "COMP"@ && nlink == 2 {
        QuotaAction::Add
    } else if xattr_exists && nlink < 2 {
        QuotaAction::Remove
    } else {
        QuotaAction::Unchanged
    }
}

/// Decides what to do with a file's quota accounting.
pub fn quota_action(xattr_exists: bool, file_mode: &String, nlink: u64) -> (a: QuotaAction)
    ensures
        a == quota_action_spec(xattr_exists, file_mode@, nlink),
{
    let comp = String::from_str("COMP");
    if !xattr_exists && *file_mode == comp && nlink == 2 {
        QuotaAction::Add
    } else if xattr_exists && nlink < 2 {
        QuotaAction::Remove
    } else {
        QuotaAction::Unchanged
    }
}

/// Whether the file carries the quota xattr after `a` was carried out on a file
/// for which it was `xattr_exists`.
pub open spec fn xattr_after(xattr_exists: bool, a: QuotaAction) -> bool {
    match a {
        QuotaAction::Add => true,
        QuotaAction::Remove => false,
        QuotaAction::Unchanged => xattr_exists,
    }
}

/// The quota rule, case by case: a file is removed exactly when it carries the
/// quota xattr and has fewer than two links, so a file that carries it and has
/// two or more links stays counted; it is added exactly when it does not carry
/// it, is complete (`COMP`) and has two links.
pub proof fn lemma_quota_rule(xattr_exists: bool, file_mode: Seq<char>, nlink: u64)
    ensures
        quota_action_spec(xattr_exists, file_mode, nlink) == QuotaAction::Remove <==> (xattr_exists
            && nlink < 2),
        quota_action_spec(xattr_exists, file_mode, nlink) == QuotaAction::Add <==> (!xattr_exists
            && file_mode == "COMP"@ && nlink == 2),
        xattr_exists && nlink >= 2 ==> quota_action_spec(xattr_exists, file_mode, nlink)
            == QuotaAction::Unchanged,
        !xattr_exists ==> quota_action_spec(xattr_exists, file_mode, nlink) != QuotaAction::Remove,
{
}

/// Reprocessing a file has no effect: once the action decided for a file has
/// been carried out, deciding again on the same file leaves it unchanged.
pub proof fn lemma_quota_action_idempotent(xattr_exists: bool, file_mode: Seq<char>, nlink: u64)
    ensures
        quota_action_spec(
            xattr_after(xattr_exists, quota_action_spec(xattr_exists, file_mode, nlink)),
            file_mode,
            nlink,
        ) == QuotaAction::Unchanged,
{
}

/// The file-type bits that mark a directory in `st_mode`.
pub const S_IFDIR_BITS: u32 = 0o040000;

/// Whether a file's `st_mode` has all the directory type bits set, which is the
/// test `SFlag::from_bits_truncate(mode).contains(SFlag::S_IFDIR)` makes.
pub fn is_directory_mode(st_mode: u32) -> (r: bool)
    ensures
        r == (st_mode & S_IFDIR_BITS == S_IFDIR_BITS),
{
    st_mode & S_IFDIR_BITS == S_IFDIR_BITS
}

/// Why the quota accounting of a file cannot be brought up to date.
#[derive(Debug, Clone, PartialEq, Eq)]
pub enum QuotaFailure {
    /// The file tag's stream id has too few parts; the message says so.
    StreamidKey(String),
    /// No namespace in the namespace table has this key.
    UnknownNamespace(String),
    /// The file's xattr list holds an error text and not the quota xattr.
    UnreadableXattrList,
}

/// The namespace a file is accounted to, and the xattr that accounts for it.
#[derive(Debug, Clone, PartialEq, Eq)]
pub struct QuotaTarget {
    pub streamid_key: String,
    pub ns_ino: u64,
    pub xattr_name: String,
}

/// Finds the namespace of a file from its tag: the key of its stream id, the
/// inode of that namespace's root directory, and the name of the quota xattr.
pub fn quota_target(ftag: &Ftag, ns_map: &NsInodeMap) -> (r: Result<QuotaTarget, QuotaFailure>)
    ensures
        match streamid_key_spec(ftag.streamid@) {
            Err(msg) => r matches Err(QuotaFailure::StreamidKey(m)) && m@ == msg,
            Ok(key) => if ns_map@.contains_key(key) {
                r matches Ok(t) && t.streamid_key@ == key && t.ns_ino == ns_map@[key]
                    && t.xattr_name@ == quota_xattr_name_spec(ns_map@[key])
            } else {
                r matches Err(QuotaFailure::UnknownNamespace(k)) && k@ == key
            },
        },
{
    let key = match get_streamid_key(ftag) {
        Ok(k) => k,
        Err(msg) => return Err(QuotaFailure::StreamidKey(msg)),
    };
    match ns_map.get(key.as_str()) {
        Some(ns_ino) => {
            let ns_ino = *ns_ino;
            let xattr_name = quota_xattr_name(ns_ino);
            Ok(QuotaTarget { streamid_key: key, ns_ino, xattr_name })
        },
        None => Err(QuotaFailure::UnknownNamespace(key)),
    }
}

/// What to do with a file's quota xattr, given its target, the names in its
/// xattr list, its MarFS xattr and its link count.
pub fn decide_quota(target: &QuotaTarget, xattr_list: &Vec<String>, marfs_xattr: &str, nlink: u64) -> (r:
    Result<QuotaAction, QuotaFailure>)
    ensures
        match presence_spec(xattr_list@.map_values(|s: String| s@), target.xattr_name@) {
            Err(_) => r == Err::<QuotaAction, QuotaFailure>(QuotaFailure::UnreadableXattrList),
            Ok(present) => r == Ok::<QuotaAction, QuotaFailure>(
                quota_action_spec(present, file_mode_spec(marfs_xattr@), nlink),
            ),
        },
{
    let present = match quota_xattr_present(xattr_list, &target.xattr_name) {
        Ok(p) => p,
        Err(_) => return Err(QuotaFailure::UnreadableXattrList),
    };
    let mode = match get_marfs_file_mode(marfs_xattr) {
        Ok(m) => m,
        Err(_) => String::new(),
    };
    Ok(quota_action(present, &mode, nlink))
}

/// What is done with a visited file once it has been opened and looked at.
#[derive(Debug, Clone, Copy, PartialEq, Eq, Structural)]
pub enum StatStep {
    /// A directory: it carries no quota, and is passed over.
    SkipDirectory,
    /// A file: its quota accounting is brought up to date.
    AccountFile,
}

/// The file opened by path is not the inode the change log named.
#[derive(Debug, Clone, Copy, PartialEq, Eq, Structural)]
pub struct InodeMismatch;

/// Checks that the opened file is the inode the change log named, and tells
/// directories from files by `st_mode`.
pub fn stat_step(entry_ino: u64, st_ino: u64, st_mode: u32) -> (r: Result<StatStep, InodeMismatch>)
    ensures
        entry_ino != st_ino ==> r == Err::<StatStep, InodeMismatch>(InodeMismatch),
        entry_ino == st_ino ==> r == Ok::<StatStep, InodeMismatch>(
            if st_mode & S_IFDIR_BITS == S_IFDIR_BITS {
                StatStep::SkipDirectory
            } else {
                StatStep::AccountFile
            },
        ),
{
    if entry_ino != st_ino {
        return Err(InodeMismatch);
    }
    if is_directory_mode(st_mode) {
        Ok(StatStep::SkipDirectory)
    } else {
        Ok(StatStep::AccountFile)
    }
}

} // verus!
