use vstd::prelude::*;
use vstd::string::StringExecFns;
use vstd::utf8::{decode_utf8, valid_utf8};
use crate::text::{decode_utf8_string, split_bytes, split_seq};

verus! {

/// Size of the buffers handed to the ScoutFS ioctls.
pub const STR_BUF_SIZE: usize = 512;

/// How many hard links a path lookup is prepared for.
pub const MAX_HARDLINKS: usize = 8;

/// A point in the ScoutFS change log: major timestamp, inode number, minor timestamp.
#[derive(Debug, Clone, Copy, PartialEq, Eq, Structural)]
pub struct ScoutwrapWalkInodesEntry {
    pub major: u64,
    pub ino: u64,
    pub minor: u32,
}

/// A WALK_INODES request and its answer: the range `first..last` of the change log,
/// how many entries to ask for at most (`nr_entries`), which index to walk, and the
/// entries that came back (`entries_vec`, empty when the request is made).
#[derive(Debug, Clone)]
pub struct ScoutwrapWalkInodes {
    pub first: ScoutwrapWalkInodesEntry,
    pub last: ScoutwrapWalkInodesEntry,
    pub entries_vec: Vec<ScoutwrapWalkInodesEntry>,
    pub nr_entries: usize,
    pub index: u8,
}

/// The all-zero point, which the walk uses for unfilled slots.
pub open spec fn is_zero_point(e: ScoutwrapWalkInodesEntry) -> bool {
    e.major == 0 && e.ino == 0 && e.minor == 0
}

/// The entries of `raw` that are not the all-zero point, in order.
pub open spec fn nonzero_entries(raw: Seq<ScoutwrapWalkInodesEntry>) -> Seq<ScoutwrapWalkInodesEntry>
    decreases raw.len(),
{
    if raw.len() == 0 {
        Seq::empty()
    } else {
        let rest = nonzero_entries(raw.drop_last());
        if is_zero_point(raw.last()) {
            rest
        } else {
            rest.push(raw.last())
        }
    }
}

/// Whether `e` is the all-zero point.
pub fn is_zero_entry(e: &ScoutwrapWalkInodesEntry) -> (r: bool)
    ensures
        r == is_zero_point(*e),
{
    e.major == 0 && e.ino == 0 && e.minor == 0
}

/// The answer to a WALK_INODES request: the request as it was, with the entries
/// that the walk filled in (`raw`, one per slot) kept in order and the unfilled,
/// all-zero slots dropped.
pub fn fill_walk_entries(user_arg: ScoutwrapWalkInodes, raw: &Vec<ScoutwrapWalkInodesEntry>) -> (r:
    ScoutwrapWalkInodes)
    ensures
        r.first == user_arg.first,
        r.last == user_arg.last,
        r.nr_entries == user_arg.nr_entries,
        r.index == user_arg.index,
        r.entries_vec@ == nonzero_entries(raw@),
{
    let mut entries: Vec<ScoutwrapWalkInodesEntry> = Vec::new();
    let mut i: usize = 0;
    while i < raw.len()
        invariant
            i <= raw@.len(),
            entries@ == nonzero_entries(raw@.take(i as int)),
        decreases raw@.len() - i,
    {
        let e = raw[i];
        assert(raw@.take(i + 1).drop_last() =~= raw@.take(i as int));
        if !is_zero_entry(&e) {
            entries.push(e);
        }
        i = i + 1;
    }
    assert(raw@.take(raw@.len() as int) =~= raw@);
    ScoutwrapWalkInodes {
        first: user_arg.first,
        last: user_arg.last,
        entries_vec: entries,
        nr_entries: user_arg.nr_entries,
        index: user_arg.index,
    }
}

/// An INO_PATH request: the inode whose path is wanted, where in its parent
/// directories to resume, and the size of the result buffer.
#[derive(Debug, Clone)]
pub struct ScoutwrapInoPath {
    pub ino: u64,
    pub dir_ino: u64,
    pub dir_pos: u64,
    pub result_ptr: u64,
    pub result_bytes: usize,
}

/// The answer to an INO_PATH request.
#[derive(Debug, Clone)]
pub struct ScoutwrapInoPathResult {
    pub ino: u64,
    pub dir_ino: u64,
    pub dir_pos: u64,
    pub path_bytes: u16,
    pub path: String,
}

/// The bytes of a C string held in `buf`: everything before the first NUL byte,
/// or all of `buf` when it holds none.
pub open spec fn c_string_bytes(buf: Seq<u8>) -> Seq<u8> {
    split_seq(buf, 0u8)[0]
}

/// The bytes before the first NUL in `buf`.
pub fn c_string_prefix(buf: &[u8]) -> (r: Vec<u8>)
    ensures
        r@ == c_string_bytes(buf@),
{
    let mut r: Vec<u8> = Vec::new();
    let mut i: usize = 0;
    assert(buf@.take(0) =~= Seq::<u8>::empty());
    while i < buf.len() && buf[i] != 0
        invariant
            i <= buf@.len(),
            forall|j: int| 0 <= j < i ==> buf@[j] != 0u8,
            r@ == buf@.take(i as int),
            split_seq(buf@.take(i as int), 0u8) == seq![buf@.take(i as int)],
        decreases buf@.len() - i,
    {
        r.push(buf[i]);
        proof {
            let t = buf@.take(i + 1);
            assert(t.drop_last() =~= buf@.take(i as int));
            assert(t.last() == buf@[i as int]);
            assert(buf@.take(i as int).push(buf@[i as int]) =~= t);
            assert(seq![buf@.take(i as int)].update(0, buf@.take(i as int).push(buf@[i as int])) =~= seq![t]);
        }
        i = i + 1;
    }
    proof {
        lemma_split_prefix(buf@, i as int);
    }
    r
}

/// The first piece of a split stays what it was once the sequence is cut after a
/// separator, or not cut at all.
proof fn lemma_split_prefix(s: Seq<u8>, i: int)
    requires
        0 <= i <= s.len(),
        split_seq(s.take(i), 0u8) == seq![s.take(i)],
        i < s.len() ==> s[i] == 0u8,
    ensures
        split_seq(s, 0u8)[0] == s.take(i),
    decreases s.len(),
{
    if i == s.len() {
        assert(s.take(i) =~= s);
    } else {
        lemma_split_first_stable(s, s.len() as int, i);
        assert(s.take(s.len() as int) =~= s);
    }
}

/// Extending a sequence past its first separator leaves its first piece alone.
proof fn lemma_split_first_stable(s: Seq<u8>, k: int, i: int)
    requires
        0 <= i < k <= s.len(),
        s[i] == 0u8,
        split_seq(s.take(i), 0u8) == seq![s.take(i)],
    ensures
        split_seq(s.take(k), 0u8)[0] == s.take(i),
        split_seq(s.take(k), 0u8).len() >= 2,
    decreases k,
{
    let t = s.take(k);
    assert(t.drop_last() =~= s.take(k - 1));
    if k == i + 1 {
        assert(s.take(k - 1) =~= s.take(i));
        assert(t.last() == 0u8);
    } else {
        lemma_split_first_stable(s, k - 1, i);
    }
    if k == s.len() {
        assert(t =~= s);
    }
}

/// The answer to an INO_PATH request made with `path_arg`, from the parent
/// directory position the ioctl reported and the bytes of its path buffer;
/// `None` where the path is not valid UTF-8.
pub fn ino_path_result(path_arg: &ScoutwrapInoPath, dir_ino: u64, dir_pos: u64, path_buf: &[u8]) -> (r:
    Option<ScoutwrapInoPathResult>)
    ensures
        r is Some <==> valid_utf8(c_string_bytes(path_buf@)),
        r matches Some(res) ==> {
            &&& res.ino == path_arg.ino
            &&& res.dir_ino == dir_ino
            &&& res.dir_pos == dir_pos
            &&& res.path_bytes == path_arg.result_bytes as u16
            &&& res.path@ == decode_utf8(c_string_bytes(path_buf@))
        },
{
    let bytes = c_string_prefix(path_buf);
    match decode_utf8_string(bytes.as_slice()) {
        Some(path) => Some(
            ScoutwrapInoPathResult {
                ino: path_arg.ino,
                dir_ino,
                dir_pos,
                path_bytes: path_arg.result_bytes as u16,
                path,
            },
        ),
        None => None,
    }
}

/// A LISTXATTR_HIDDEN request: where to resume in the file's xattrs and the size
/// of the buffer that receives the names.
#[derive(Debug, Clone)]
pub struct ScoutwrapListxattrHidden {
    pub id_pos: u64,
    pub xattr_list: Vec<String>,
    pub buf_bytes: usize,
    pub hash_pos: u32,
}

/// The name given in the xattr list to a name that is not valid UTF-8.
pub open spec fn utf8_error_name() -> Seq<char> {
    "error: failed to parse slice into utf8"@
}

/// The text of one name in the list: the name itself, or the error text where its
/// bytes are not valid UTF-8.
pub open spec fn decoded_name(piece: Seq<u8>) -> Seq<char> {
    if valid_utf8(piece) {
        decode_utf8(piece)
    } else {
        utf8_error_name()
    }
}

/// The names held by a list of NUL-separated pieces, empty pieces left out.
pub open spec fn names_of(pieces: Seq<Seq<u8>>) -> Seq<Seq<char>>
    decreases pieces.len(),
{
    if pieces.len() == 0 {
        Seq::empty()
    } else {
        let rest = names_of(pieces.drop_last());
        if pieces.last().len() == 0 {
            rest
        } else {
            rest.push(decoded_name(pieces.last()))
        }
    }
}

/// The names in a LISTXATTR_HIDDEN buffer: the pieces between NUL bytes, empty
/// pieces left out, each read as UTF-8 or replaced by the error text.
pub open spec fn xattr_names(buf: Seq<u8>) -> Seq<Seq<char>> {
    names_of(split_seq(buf, 0u8))
}

/// Reads the names out of the buffer that LISTXATTR_HIDDEN filled. A name that is
/// not valid UTF-8 comes out as the error text, which the caller must look for.
pub fn parse_xattr_list(buf: &[u8]) -> (names: Vec<String>)
    ensures
        names@.map_values(|s: String| s@) == xattr_names(buf@),
{
    let pieces = split_bytes(buf, 0u8);
    let ghost views = pieces@.map_values(|p: Vec<u8>| p@);
    let mut names: Vec<String> = Vec::new();
    let mut i: usize = 0;
    while i < pieces.len()
        invariant
            i <= pieces@.len(),
            views == pieces@.map_values(|p: Vec<u8>| p@),
            views == split_seq(buf@, 0u8),
            names@.map_values(|s: String| s@) == names_of(views.take(i as int)),
        decreases pieces@.len() - i,
    {
        let piece = &pieces[i];
        let ghost before = names@.map_values(|s: String| s@);
        assert(views.take(i + 1).drop_last() =~= views.take(i as int));
        assert(views.take(i + 1).last() == piece@);
        if piece.len() > 0 {
            let name = match decode_utf8_string(piece.as_slice()) {
                Some(s) => s,
                None => String::from_str("error: failed to parse slice into utf8"),
            };
            names.push(name);
            assert(names@.map_values(|s: String| s@) =~= before.push(decoded_name(piece@)));
        }
        i = i + 1;
    }
    assert(views.take(pieces@.len() as int) =~= views);
    names
}

} // verus!
