use std::time::SystemTime;
use vstd::prelude::*;
use vstd::multiset::Multiset;
use vstd::seq_lib::{group_to_multiset_ensures, lemma_multiset_commutative};
use vstd::string::*;
use vstd::utf8::encode_utf8;
use crate::errors::FSError;
use crate::order::{bytes_le, bytes_leq, lemma_bytes_le_total, lemma_bytes_le_trans};
use crate::permission::{permission_from_mode, permission_of};

verus! {

/// A point in time, carried through unchanged from the filesystem to the caller.
#[verifier::external_type_specification]
#[verifier::external_body]
pub struct ExSystemTime(SystemTime);

/// One member of a listed directory, or one of the two entries `.` and `..`.
#[derive(Debug, PartialEq)]
pub struct FileMetadata {
    pub name: String,
    pub is_dir: bool,
    pub is_symlink: bool,
    pub size: u64,
    pub created_at: Option<SystemTime>,
    pub permission: Option<String>,
}

/// The value of an entry: name, directory flag, symlink flag, size, creation time and
/// permission digits.
pub type EntryModel = (Seq<char>, bool, bool, u64, Option<SystemTime>, Option<Seq<char>>);

impl View for FileMetadata {
    type V = EntryModel;

    open spec fn view(&self) -> EntryModel {
        (
            self.name@,
            self.is_dir,
            self.is_symlink,
            self.size,
            self.created_at,
            match self.permission {
                Some(p) => Some(p@),
                None => None,
            },
        )
    }
}

/// What the filesystem reports of one member: its type, size, creation time (where the
/// platform has one) and mode bits.
pub struct EntryMeta {
    pub is_dir: bool,
    pub is_symlink: bool,
    pub size: u64,
    pub created_at: Option<SystemTime>,
    pub mode: u32,
}

/// One item of a directory stream: a member whose name was read, with its metadata
/// when that could be fetched, or an item that could not be read at all.
pub enum DirItem {
    Unreadable,
    Entry(String, Option<EntryMeta>),
}

/// What a path names.
pub enum PathKind {
    Missing,
    NotADirectory,
    Directory,
}

/// Why a directory could not be opened for reading.
pub enum OpenFailure {
    NotFound,
    PermissionDenied,
    Other(String),
}

/// A name that starts with a dot.
pub open spec fn is_hidden_name(name: Seq<char>) -> bool {
    name.len() > 0 && name[0] == '.'
}

/// Whether a member of this name belongs in a listing.
pub open spec fn shown(name: Seq<char>, hidden: bool) -> bool {
    hidden || !is_hidden_name(name)
}

/// The entry `.`.
pub open spec fn dot_entry() -> EntryModel {
    (seq!['.'], true, false, 0u64, None, None)
}

/// The entry `..`.
pub open spec fn dotdot_entry() -> EntryModel {
    (seq!['.', '.'], true, false, 0u64, None, None)
}

/// The two entries added when hidden entries are asked for, and none otherwise.
pub open spec fn special(hidden: bool) -> Seq<EntryModel> {
    if hidden {
        seq![dot_entry(), dotdot_entry()]
    } else {
        seq![]
    }
}

/// The entry for a member of this name and metadata.
pub open spec fn model_of(name: Seq<char>, m: EntryMeta) -> EntryModel {
    (name, m.is_dir, m.is_symlink, m.size, m.created_at, Some(permission_of(m.mode)))
}

/// Whether a directory item is a member that is listed but whose metadata is missing.
pub open spec fn item_fails(item: DirItem, hidden: bool) -> bool {
    match item {
        DirItem::Entry(name, meta) => shown(name@, hidden) && meta is None,
        DirItem::Unreadable => false,
    }
}

/// Some listed member of the stream has no metadata.
pub open spec fn metadata_missing(items: Seq<DirItem>, hidden: bool) -> bool {
    exists|i: int| 0 <= i < items.len() && item_fails(#[trigger] items[i], hidden)
}

/// The entries of the listed members of a directory stream, in stream order.
pub open spec fn kept(items: Seq<DirItem>, hidden: bool) -> Seq<EntryModel>
    decreases items.len(),
{
    if items.len() == 0 {
        seq![]
    } else {
        let rest = kept(items.drop_last(), hidden);
        match items.last() {
            DirItem::Entry(name, Some(m)) => if shown(name@, hidden) {
                rest.push(model_of(name@, m))
            } else {
                rest
            },
            _ => rest,
        }
    }
}

/// The bytes by which entries are ordered: the UTF-8 encoding of the name.
pub open spec fn name_key(e: EntryModel) -> Seq<u8> {
    encode_utf8(e.0)
}

/// Entries in non-decreasing byte order of name.
pub open spec fn sorted_by_name(s: Seq<EntryModel>) -> bool {
    forall|i: int, j: int|
        0 <= i < j < s.len() ==> bytes_le(name_key(#[trigger] s[i]), name_key(#[trigger] s[j]))
}

/// The values of a list of entries.
pub open spec fn models(v: Seq<FileMetadata>) -> Seq<EntryModel> {
    v.map_values(|e: FileMetadata| e@)
}

/// Every entry kept from a stream carries permission digits, and a stream listed without
/// hidden entries keeps no name that starts with a dot.
pub proof fn lemma_kept_entries(items: Seq<DirItem>, hidden: bool)
    ensures
        forall|i: int|
            0 <= i < kept(items, hidden).len() ==> {
                &&& (#[trigger] kept(items, hidden)[i]).5 is Some
                &&& shown(kept(items, hidden)[i].0, hidden)
            },
    decreases items.len(),
{
    if items.len() > 0 {
        lemma_kept_entries(items.drop_last(), hidden);
    }
}

/// With hidden entries asked for, a listing made of the special entries and the kept
/// members holds `.` exactly once and `..` exactly once.
pub proof fn lemma_special_entries_once(items: Seq<DirItem>)
    ensures
        (special(true) + kept(items, true)).to_multiset().count(dot_entry()) == 1,
        (special(true) + kept(items, true)).to_multiset().count(dotdot_entry()) == 1,
{
    broadcast use group_to_multiset_ensures;

    let k = kept(items, true);
    lemma_kept_entries(items, true);
    lemma_multiset_commutative(special(true), k);
    assert(!k.contains(dot_entry()));
    assert(!k.contains(dotdot_entry()));
    let e = Seq::<EntryModel>::empty();
    assert(special(true) =~= e.push(dot_entry()).push(dotdot_entry()));
    assert(e.to_multiset().len() == 0);
    assert(e.to_multiset() =~= Multiset::empty());
    assert(dot_entry() != dotdot_entry()) by {
        assert(dot_entry().0.len() != dotdot_entry().0.len());
    }
}

/// Inserts `e` into a list kept in name order, after every entry whose name is not
/// greater.
pub fn insert_by_name(out: &mut Vec<FileMetadata>, e: FileMetadata)
    requires
        sorted_by_name(models(old(out)@)),
    ensures
        sorted_by_name(models(final(out)@)),
        models(final(out)@).to_multiset() == models(old(out)@).to_multiset().insert(e@),
{
    let key = e.name.as_str().as_bytes();
    let mut p: usize = 0;
    while p < out.len() && bytes_leq(out[p].name.as_str().as_bytes(), key)
        invariant
            p <= out@.len(),
            key@ == name_key(e@),
            forall|j: int| 0 <= j < p ==> bytes_le(name_key(#[trigger] out@[j]@), name_key(e@)),
        decreases out.len() - p,
    {
        p = p + 1;
    }
    let ghost before = models(out@);
    let ghost x = e@;
    proof {
        if p < out@.len() {
            lemma_bytes_le_total(name_key(before[p as int]), name_key(x));
        }
    }
    out.insert(p, e);
    proof {
        let after = models(out@);
        assert(after =~= before.insert(p as int, x));
        assert forall|i: int, j: int| 0 <= i < j < after.len() implies bytes_le(
            name_key(#[trigger] after[i]),
            name_key(#[trigger] after[j]),
        ) by {
            if j < p {
            } else if j == p {
                assert(before[i] == out@[i]@);
            } else if i < p {
                assert(after[i] == out@[i]@);
                assert(bytes_le(name_key(x), name_key(before[p as int])));
                if j - 1 > p {
                    lemma_bytes_le_trans(
                        name_key(x),
                        name_key(before[p as int]),
                        name_key(before[j - 1]),
                    );
                }
                lemma_bytes_le_trans(name_key(after[i]), name_key(x), name_key(after[j]));
            } else if i == p {
                if j - 1 > p {
                    lemma_bytes_le_trans(
                        name_key(x),
                        name_key(before[p as int]),
                        name_key(before[j - 1]),
                    );
                }
            } else {
                assert(after[i] == before[i - 1]);
                assert(after[j] == before[j - 1]);
            }
        }
        broadcast use group_to_multiset_ensures;
        assert(before.insert(p as int, x).to_multiset() == before.to_multiset().insert(x));
    }
}

/// Whether `name` starts with a dot.
pub fn is_hidden(name: &str) -> (r: bool)
    ensures
        r == is_hidden_name(name@),
{
    name.unicode_len() > 0 && name.get_char(0) == '.'
}

fn directory_entry(name: &str) -> (r: FileMetadata)
    ensures
        r@ == (name@, true, false, 0u64, None::<SystemTime>, None::<Seq<char>>),
{
    FileMetadata {
        name: String::from_str(name),
        is_dir: true,
        is_symlink: false,
        size: 0,
        created_at: None,
        permission: None,
    }
}

/// The entry of a member with the given name and metadata; its permission holds the
/// low nine mode bits as three base-8 digits.
pub fn entry_from_meta(name: String, meta: EntryMeta) -> (r: FileMetadata)
    ensures
        r@ == model_of(name@, meta),
{
    FileMetadata {
        name,
        is_dir: meta.is_dir,
        is_symlink: meta.is_symlink,
        size: meta.size,
        created_at: meta.created_at,
        permission: Some(permission_from_mode(meta.mode)),
    }
}

/// Decides whether `path` can be listed: a missing path and a path that is not a
/// directory are refused, in that order.
pub fn check_path(path: &str, kind: PathKind) -> (r: Result<(), FSError>)
    ensures
        kind is Missing ==> (r matches Err(FSError::PathNotFound(p)) && p@ == path@),
        kind is NotADirectory ==> (r matches Err(FSError::PathIsNotADirectory(p)) && p@
            == path@),
        kind is Directory ==> r is Ok,
{
    match kind {
        PathKind::Missing => Err(FSError::PathNotFound(String::from_str(path))),
        PathKind::NotADirectory => Err(FSError::PathIsNotADirectory(String::from_str(path))),
        PathKind::Directory => Ok(()),
    }
}

/// The error for a directory that could not be opened.
pub fn open_error(path: &str, failure: OpenFailure) -> (r: FSError)
    ensures
        failure is NotFound ==> (r matches FSError::PathNotFound(p) && p@ == path@),
        failure is PermissionDenied ==> (r matches FSError::PermissionError(p) && p@ == path@),
        failure matches OpenFailure::Other(m) ==> r == FSError::UnknownError(m),
{
    match failure {
        OpenFailure::NotFound => FSError::PathNotFound(String::from_str(path)),
        OpenFailure::PermissionDenied => FSError::PermissionError(String::from_str(path)),
        OpenFailure::Other(m) => FSError::UnknownError(m),
    }
}

/// What listing a stream of items gives: an error when a listed member has no
/// metadata; otherwise exactly the special entries and the kept members, in name order,
/// with no dot-name when hidden entries were not asked for, and with `.` and `..` as the
/// only entries without permission digits when they were.
pub open spec fn is_listing(
    hidden: bool,
    items: Seq<DirItem>,
    r: Result<Vec<FileMetadata>, FSError>,
) -> bool {
    &&& metadata_missing(items, hidden) ==> (r matches Err(FSError::UnknownError(m)) && m@
            == "Failed to retrieve metadata"@)
    &&& !metadata_missing(items, hidden) ==> (r matches Ok(v) && {
            &&& models(v@).to_multiset() == (special(hidden) + kept(items, hidden)).to_multiset()
            &&& sorted_by_name(models(v@))
            &&& !hidden ==> forall|i: int|
                0 <= i < v@.len() ==> !is_hidden_name(#[trigger] v@[i].name@)
            &&& hidden ==> forall|i: int|
                0 <= i < v@.len() ==> ((#[trigger] v@[i]@).5 is None <==> (v@[i]@ == dot_entry()
                    || v@[i]@ == dotdot_entry()))
        })
}

/// Builds the listing of a directory from the items read from it. Items that could not
/// be read are passed over; hidden members are left out unless asked for, and then `.`
/// and `..` are added; a listed member without metadata fails the whole listing. The
/// entries come back in byte order of name.
pub fn collect_entries(hidden: bool, items: Vec<DirItem>) -> (r: Result<
    Vec<FileMetadata>,
    FSError,
>)
    ensures
        is_listing(hidden, items@, r),
{
    let ghost all = items@;
    let mut rest = items;
    let mut out: Vec<FileMetadata> = Vec::new();
    proof {
        broadcast use group_to_multiset_ensures;
        assert(models(out@) =~= Seq::<EntryModel>::empty());
    }
    if hidden {
        proof {
            reveal_strlit(".");
            reveal_strlit("..");
        }
        let ghost m0 = models(out@);
        let d1 = directory_entry(".");
        let d2 = directory_entry("..");
        assert("."@ =~= seq!['.']);
        assert(".."@ =~= seq!['.', '.']);
        assert(d1@ == dot_entry());
        assert(d2@ == dotdot_entry());
        insert_by_name(&mut out, d1);
        insert_by_name(&mut out, d2);
        proof {
            broadcast use group_to_multiset_ensures;
            let sp = special(hidden);
            assert(sp =~= m0.push(dot_entry()).push(dotdot_entry()));
            assert(models(out@).to_multiset() =~= sp.to_multiset());
        }
    }
    proof {
        broadcast use group_to_multiset_ensures;
        lemma_multiset_commutative(special(hidden), kept(all, hidden));
        if !hidden {
            assert(models(out@) =~= special(hidden));
        }
        assert(models(out@).to_multiset() =~= special(hidden).to_multiset());
    }
    while rest.len() > 0
        invariant
            all == items@,
            rest@ == all.subrange(0, rest@.len() as int),
            rest@.len() <= all.len(),
            sorted_by_name(models(out@)),
            models(out@).to_multiset().add(kept(rest@, hidden).to_multiset())
                == (special(hidden) + kept(all, hidden)).to_multiset(),
            forall|j: int| rest@.len() <= j < all.len() ==> !item_fails(#[trigger] all[j], hidden),
        decreases rest.len(),
    {
        let ghost rem = rest@;
        let item = rest.pop().unwrap();
        proof {
            assert(rest@ =~= rem.drop_last());
            assert(item == rem.last());
            assert(rem[rem.len() - 1] == all[rem.len() - 1]);
        }
        match item {
            DirItem::Unreadable => {},
            DirItem::Entry(name, meta) => {
                if hidden || !is_hidden(name.as_str()) {
                    match meta {
                        None => {
                            proof {
                                assert(item_fails(all[rem.len() - 1], hidden));
                                assert(metadata_missing(all, hidden));
                                reveal_strlit("Failed to retrieve metadata");
                            }
                            return Err(
                                FSError::UnknownError(
                                    String::from_str("Failed to retrieve metadata"),
                                ),
                            );
                        },
                        Some(m) => {
                            let e = entry_from_meta(name, m);
                            let ghost before = models(out@);
                            insert_by_name(&mut out, e);
                            proof {
                                broadcast use group_to_multiset_ensures;
                                assert(kept(rem, hidden) =~= kept(rest@, hidden).push(e@));
                                assert(models(out@).to_multiset() =~= before.to_multiset().insert(e@));
                                assert(models(out@).to_multiset().add(kept(rest@, hidden).to_multiset())
                                    =~= before.to_multiset().add(kept(rem, hidden).to_multiset()));
                            }
                        },
                    }
                }
            },
        }
    }
    assert(!metadata_missing(all, hidden));
    proof {
        broadcast use group_to_multiset_ensures;
        let mv = models(out@);
        let whole = special(hidden) + kept(all, hidden);
        assert(kept(rest@, hidden) =~= Seq::<EntryModel>::empty());
        assert(mv.to_multiset() =~= whole.to_multiset());
        lemma_kept_entries(all, hidden);
        assert forall|i: int| 0 <= i < out@.len() implies whole.contains(#[trigger] out@[i]@) by {
            assert(mv[i] == out@[i]@);
            assert(mv.to_multiset().count(mv[i]) > 0);
        }
        assert forall|i: int| 0 <= i < out@.len() implies shown(#[trigger] out@[i]@.0, hidden)
            && (out@[i]@.5 is None <==> (out@[i]@ == dot_entry() || out@[i]@ == dotdot_entry()))
            by {
            assert(whole.contains(out@[i]@));
            let k = choose|k: int| 0 <= k < whole.len() && whole[k] == out@[i]@;
            if k >= special(hidden).len() {
                assert(whole[k] == kept(all, hidden)[k - special(hidden).len()]);
            }
        }
        if !hidden {
            assert forall|i: int| 0 <= i < out@.len() implies !is_hidden_name(
                #[trigger] out@[i].name@,
            ) by {
                assert(shown(out@[i]@.0, hidden));
            }
        }
    }
    Ok(out)
}

/// Builds the listing of a directory from the outcome of opening it: an open that failed
/// gives the matching error, a directory that was read gives what `collect_entries`
/// makes of its items.
pub fn build_listing(path: &str, hidden: bool, opened: Result<Vec<DirItem>, OpenFailure>) -> (r:
    Result<Vec<FileMetadata>, FSError>)
    ensures
        opened matches Err(OpenFailure::NotFound) ==> (r matches Err(FSError::PathNotFound(p))
            && p@ == path@),
        opened matches Err(OpenFailure::PermissionDenied) ==> (r matches Err(
            FSError::PermissionError(p),
        ) && p@ == path@),
        opened matches Err(OpenFailure::Other(m)) ==> r == Err::<Vec<FileMetadata>, FSError>(
            FSError::UnknownError(m),
        ),
        opened matches Ok(items) ==> is_listing(hidden, items@, r),
{
    match opened {
        Ok(items) => collect_entries(hidden, items),
        Err(failure) => Err(open_error(path, failure)),
    }
}

} // verus!
