use vstd::prelude::*;
use vstd::hash_map::StringHashMap;
use vstd::string::StringExecFns;
use crate::text::{
    char_vec, contains_seq, join_chars, join_seq, lemma_join_split, split_chars, split_seq,
    str_contains, string_from_chars,
};

verus! {

/// The name of the per-namespace usage file that MarFS keeps; it never counts
/// toward a quota itself.
pub const QUOTA_FILE_NAME: &'static str = "MDAL_datasize";

/// What the quota logic reads of a MarFS file tag: the file's size in bytes and
/// its stream id.
#[derive(Debug, Clone)]
pub struct Ftag {
    pub bytes: usize,
    pub streamid: String,
}

/// The mode recorded in a MarFS file xattr: `INIT` where the text contains `INIT`,
/// else `COMP` where it contains `COMP`, else nothing.
pub open spec fn file_mode_spec(marfs_xattr: Seq<char>) -> Seq<char> {
    if contains_seq(marfs_xattr, "INIT"@) {
        "INIT"@
    } else if contains_seq(marfs_xattr, "COMP"@) {
        "COMP"@
    } else {
        Seq::empty()
    }
}

/// The file mode, case by case: `INIT` whenever the xattr text contains `INIT`;
/// `COMP` only when it contains `COMP` and not `INIT`; nothing when it contains
/// neither.
pub proof fn lemma_file_mode(marfs_xattr: Seq<char>)
    ensures
        file_mode_spec(marfs_xattr) == "INIT"@ <==> contains_seq(marfs_xattr, "INIT"@),
        file_mode_spec(marfs_xattr) == "COMP"@ <==> (!contains_seq(marfs_xattr, "INIT"@) && contains_seq(
            marfs_xattr,
            "COMP"@,
        )),
        file_mode_spec(marfs_xattr).len() == 0 <==> (!contains_seq(marfs_xattr, "INIT"@)
            && !contains_seq(marfs_xattr, "COMP"@)),
{
    reveal_strlit("INIT");
    reveal_strlit("COMP");
    assert("INIT"@.len() == 4 && "COMP"@.len() == 4);
    assert("INIT"@[0] == 'I' && "COMP"@[0] == 'C');
    assert("INIT"@ != "COMP"@);
    assert("INIT"@ != Seq::<char>::empty());
    assert("COMP"@ != Seq::<char>::empty());
}

/// The mode of a MarFS file, read from its MarFS xattr. Never fails.
pub fn get_marfs_file_mode(marfs_xattr: &str) -> (r: Result<String, String>)
    ensures
        r matches Ok(mode) && mode@ == file_mode_spec(marfs_xattr@),
{
    if str_contains(marfs_xattr, "INIT") {
        Ok(String::from_str("INIT"))
    } else if str_contains(marfs_xattr, "COMP") {
        Ok(String::from_str("COMP"))
    } else {
        Ok(String::new())
    }
}

/// The namespace key of a stream id `<REPO>#<NS1>#...#<last>`: its `#`-separated
/// parts without the last one, joined again with `#`. A stream id with fewer than
/// three parts has none.
pub open spec fn streamid_key_spec(streamid: Seq<char>) -> Result<Seq<char>, Seq<char>> {
    let parts = split_seq(streamid, '#');
    if parts.len() < 3 {
        Err("incorrect vec1 length during streamid parsing"@)
    } else {
        Ok(join_seq(parts.drop_last(), '#'))
    }
}

/// Turns the stream id of a file tag into the key of its namespace in the
/// namespace table.
pub fn get_streamid_key(ftag: &Ftag) -> (r: Result<String, String>)
    ensures
        match r {
            Ok(key) => streamid_key_spec(ftag.streamid@) == Ok::<Seq<char>, Seq<char>>(key@),
            Err(msg) => streamid_key_spec(ftag.streamid@) == Err::<Seq<char>, Seq<char>>(msg@),
        },
{
    let chars = char_vec(ftag.streamid.as_str());
    let mut parts = split_chars(&chars, '#');
    if parts.len() < 3 {
        return Err(String::from_str("incorrect vec1 length during streamid parsing"));
    }
    let ghost views = parts@.map_values(|p: Vec<char>| p@);
    parts.pop();
    assert(parts@.map_values(|p: Vec<char>| p@) =~= views.drop_last());
    let key = join_chars(&parts, '#');
    Ok(string_from_chars(key.as_slice()))
}

/// A namespace key loses only the last part of the stream id: the key, `#` and
/// that last part give the stream id back.
pub proof fn lemma_streamid_key_prefix(streamid: Seq<char>)
    requires
        split_seq(streamid, '#').len() >= 3,
    ensures
        streamid_key_spec(streamid) matches Ok(key) && key.push('#') + split_seq(streamid, '#').last()
            == streamid,
{
    lemma_join_split(streamid, '#');
}

/// Whether a path is that of a namespace usage file.
pub fn is_quota_file_path(path: &str) -> (r: bool)
    ensures
        r == contains_seq(path@, QUOTA_FILE_NAME@),
{
    str_contains(path, QUOTA_FILE_NAME)
}

/// A map from namespace keys to the inode of each namespace's root directory:
/// vstd's specified `HashMap<String, u64>`, viewed as a `Map<Seq<char>, u64>`.
pub type NsInodeMap = StringHashMap<u64>;

/// One slot of the namespace table that the namespace walk fills: a namespace
/// path and the inode of the namespace's root directory (0 for an unused slot).
#[derive(Debug, Clone)]
pub struct NsEntry {
    pub ns_key: String,
    pub ino: u64,
}

/// A namespace path as a key: every `/` turned into `#`.
pub open spec fn ns_key_of(path: Seq<char>) -> Seq<char> {
    path.map_values(|c: char| if c == '/' { '#' } else { c })
}

/// How many slots of the table are in use: those before the first one with inode 0.
pub open spec fn live_len(table: Seq<NsEntry>) -> nat
    decreases table.len(),
{
    if table.len() == 0 || table[0].ino == 0 {
        0
    } else {
        1 + live_len(table.drop_first())
    }
}

/// The map built from slots inserted in order, so that a later slot with the
/// same key wins.
pub open spec fn ns_map_of(slots: Seq<NsEntry>) -> Map<Seq<char>, u64>
    decreases slots.len(),
{
    if slots.len() == 0 {
        Map::empty()
    } else {
        ns_map_of(slots.drop_last()).insert(ns_key_of(slots.last().ns_key@), slots.last().ino)
    }
}

/// The slots before index `i` are in use, and slot `i` is not (or there is none).
proof fn lemma_live_len(table: Seq<NsEntry>, i: int)
    requires
        0 <= i <= table.len(),
        forall|j: int| 0 <= j < i ==> #[trigger] table[j].ino != 0,
        i < table.len() ==> table[i].ino == 0,
    ensures
        live_len(table) == i,
    decreases i,
{
    if i > 0 {
        let t = table.drop_first();
        assert forall|j: int| 0 <= j < i - 1 implies #[trigger] t[j].ino != 0 by {
            assert(t[j] == table[j + 1]);
        }
        lemma_live_len(t, i - 1);
    }
}

/// A namespace path turned into a key.
pub fn ns_key(path: &String) -> (key: String)
    ensures
        key@ == ns_key_of(path@),
{
    let chars = char_vec(path.as_str());
    let mut out: Vec<char> = Vec::new();
    let mut i: usize = 0;
    while i < chars.len()
        invariant
            i <= chars@.len(),
            chars@ == path@,
            out@ == ns_key_of(chars@.take(i as int)),
        decreases chars@.len() - i,
    {
        let c = chars[i];
        if c == '/' {
            out.push('#');
        } else {
            out.push(c);
        }
        assert(ns_key_of(chars@.take(i + 1)) =~= ns_key_of(chars@.take(i as int)).push(
            if c == '/' { '#' } else { c },
        ));
        i = i + 1;
    }
    assert(chars@.take(chars@.len() as int) =~= chars@);
    string_from_chars(out.as_slice())
}

/// Builds the namespace map from the table the namespace walk filled: the slots
/// up to the first unused one, in order, each keyed by its path with `/` turned
/// into `#`.
pub fn ns_map_from_table(table: &Vec<NsEntry>) -> (m: NsInodeMap)
    ensures
        m@ == ns_map_of(table@.take(live_len(table@) as int)),
{
    let mut m: NsInodeMap = StringHashMap::new();
    let mut i: usize = 0;
    while i < table.len() && table[i].ino != 0
        invariant
            i <= table@.len(),
            forall|j: int| 0 <= j < i ==> #[trigger] table@[j].ino != 0,
            m@ == ns_map_of(table@.take(i as int)),
        decreases table@.len() - i,
    {
        let key = ns_key(&table[i].ns_key);
        m.insert(key, table[i].ino);
        assert(table@.take(i + 1).drop_last() =~= table@.take(i as int));
        i = i + 1;
    }
    proof {
        lemma_live_len(table@, i as int);
    }
    m
}

} // verus!
