//! The catalog of structurally-known PGDATA members and the classifier that
//! reconciles it with an actual directory listing.

pub mod base;
mod current_logfiles;
mod global;
mod pg_commit_ts;
mod pg_dynshmem;
mod pg_hba_conf;
mod pg_ident_conf;
mod pg_logical;
mod pg_multiexact;
mod pg_notify;
mod pg_replslot;
mod pg_serial;
mod pg_snapshots;
mod pg_stat;
mod pg_stat_tmp;
mod pg_subtrans;
mod pg_tblspc;
mod pg_twophase;
mod pg_version;
mod pg_wal;
mod pg_xact;
mod postgresql_auto_conf;
mod postgresql_conf;
mod postmaster_opts;
mod postmaster_pid;

use vstd::prelude::*;

use crate::common::fs::{DirEntry, FileType};

verus! {

/// Whether a known PGDATA member was found in the directory listing.
#[derive(PartialEq, Eq, Structural, Debug, Copy, Clone)]
pub enum PGDataItemState {
    /// The known member is present.
    Present,
    /// The known member is missing.
    Missing,
}

/// Every structurally-known member of the root of a PGDATA directory.
#[derive(PartialEq, Eq, Structural, Clone, Copy, Debug)]
pub enum KnownPGDataItem {
    PGVersion,
    Base,
    CurrentLogFiles,
    Global,
    PGCommitTS,
    PGDynshmem,
    PGLogical,
    PGMultixact,
    PGNotify,
    PGReplslot,
    PGSerial,
    PGSnapshots,
    PGStat,
    PGStatTmp,
    PGSubtrans,
    PGTblspc,
    PGTwophase,
    PGWal,
    PGXact,
    PostgresqlConf,
    PostgresqlAutoConf,
    PostmasterOpts,
    PostmasterPid,
    PGHbaConf,
    PGIdentConf,
}

/// One entry of the catalog: the canonical directory entry of a known
/// member, its tag, and a human description.
#[derive(Debug)]
pub struct KnownItem {
    pub entry: DirEntry,
    pub tag: KnownPGDataItem,
    pub description: String,
}

/// One classified entry of the root of a PGDATA directory: a known member
/// together with its presence, or an entry the catalog knows nothing about.
#[derive(Debug)]
pub enum PGDataItem {
    /// A known PGDATA member and whether it is present.
    Known(DirEntry, KnownPGDataItem, PGDataItemState),
    /// An entry that is not a known PGDATA member.
    Unknown(DirEntry),
}

impl PGDataItem {
    /// A known member reported present, canonically a directory.
    pub fn known_present_dir(dir_name: &str, known_pgdata_item: KnownPGDataItem) -> (r:
        PGDataItem)
        ensures
            r matches PGDataItem::Known(e, tag, st) && e.name@ == dir_name@ && e.entry_type
                == FileType::Dir && tag == known_pgdata_item && st == PGDataItemState::Present,
    {
        PGDataItem::Known(
            DirEntry::dir(dir_name),
            known_pgdata_item,
            PGDataItemState::Present,
        )
    }

    /// A known member reported present, canonically a file.
    pub fn known_present_file(file_name: &str, known_pgdata_item: KnownPGDataItem) -> (r:
        PGDataItem)
        ensures
            r matches PGDataItem::Known(e, tag, st) && e.name@ == file_name@ && e.entry_type
                == FileType::File && tag == known_pgdata_item && st == PGDataItemState::Present,
    {
        PGDataItem::Known(
            DirEntry::file(file_name),
            known_pgdata_item,
            PGDataItemState::Present,
        )
    }
}

impl Clone for PGDataItem {
    fn clone(&self) -> (r: Self)
        ensures
            item_eq(r, *self),
    {
        match self {
            PGDataItem::Known(entry, tag, state) => PGDataItem::Known(
                entry.clone(),
                *tag,
                *state,
            ),
            PGDataItem::Unknown(entry) => PGDataItem::Unknown(entry.clone()),
        }
    }
}

impl PartialEq for PGDataItem {
    fn eq(&self, other: &Self) -> (r: bool) {
        match (self, other) {
            (
                PGDataItem::Known(entry1, tag1, state1),
                PGDataItem::Known(entry2, tag2, state2),
            ) => entry1 == entry2 && tag1 == tag2 && state1 == state2,
            (PGDataItem::Unknown(entry1), PGDataItem::Unknown(entry2)) => entry1 == entry2,
            _ => false,
        }
    }
}

/// When two classified items carry the same information: same variant, same
/// canonical entry, and for known members the same tag and presence.
pub open spec fn item_eq(a: PGDataItem, b: PGDataItem) -> bool {
    match (a, b) {
        (PGDataItem::Known(entry1, tag1, state1), PGDataItem::Known(entry2, tag2, state2)) => {
            entry1.name@ == entry2.name@ && entry1.entry_type == entry2.entry_type && tag1
                == tag2 && state1 == state2
        },
        (PGDataItem::Unknown(entry1), PGDataItem::Unknown(entry2)) => {
            entry1.name@ == entry2.name@ && entry1.entry_type == entry2.entry_type
        },
        _ => false,
    }
}

impl vstd::std_specs::cmp::PartialEqSpecImpl for PGDataItem {
    open spec fn obeys_eq_spec() -> bool {
        true
    }

    open spec fn eq_spec(&self, other: &Self) -> bool {
        item_eq(*self, *other)
    }
}

/// The canonical key an entry is classified by: its name and its kind, both
/// of which must match for two entries to be the same member.
pub open spec fn entry_key(e: DirEntry) -> (Seq<char>, FileType) {
    (e.name@, e.entry_type)
}

/// The canonical key of a classified item.
pub open spec fn item_key(item: PGDataItem) -> (Seq<char>, FileType) {
    match item {
        PGDataItem::Known(e, _, _) => entry_key(e),
        PGDataItem::Unknown(e) => entry_key(e),
    }
}

/// The name of each known member's canonical entry.
pub open spec fn spec_known_name(tag: KnownPGDataItem) -> Seq<char> {
    match tag {
        KnownPGDataItem::PGVersion => "PG_VERSION"@,
        KnownPGDataItem::Base => "base"@,
        KnownPGDataItem::CurrentLogFiles => "current_logfiles"@,
        KnownPGDataItem::Global => "global"@,
        KnownPGDataItem::PGCommitTS => "pg_commit_ts"@,
        KnownPGDataItem::PGDynshmem => "pg_dynshmem"@,
        KnownPGDataItem::PGLogical => "pg_logical"@,
        KnownPGDataItem::PGMultixact => "pg_multixact"@,
        KnownPGDataItem::PGNotify => "pg_notify"@,
        KnownPGDataItem::PGReplslot => "pg_replslot"@,
        KnownPGDataItem::PGSerial => "pg_serial"@,
        KnownPGDataItem::PGSnapshots => "pg_snapshots"@,
        KnownPGDataItem::PGStat => "pg_stat"@,
        KnownPGDataItem::PGStatTmp => "pg_stat_tmp"@,
        KnownPGDataItem::PGSubtrans => "pg_subtrans"@,
        KnownPGDataItem::PGTblspc => "pg_tblspc"@,
        KnownPGDataItem::PGTwophase => "pg_twophase"@,
        KnownPGDataItem::PGWal => "pg_wal"@,
        KnownPGDataItem::PGXact => "pg_xact"@,
        KnownPGDataItem::PostgresqlConf => "postgresql.conf"@,
        KnownPGDataItem::PostgresqlAutoConf => "postgresql.auto.conf"@,
        KnownPGDataItem::PostmasterOpts => "postmaster.opts"@,
        KnownPGDataItem::PostmasterPid => "postmaster.pid"@,
        KnownPGDataItem::PGHbaConf => "pg_hba.conf"@,
        KnownPGDataItem::PGIdentConf => "pg_ident.conf"@,
    }
}

/// The kind of each known member's canonical entry.
pub open spec fn spec_known_type(tag: KnownPGDataItem) -> FileType {
    match tag {
        KnownPGDataItem::PGVersion => FileType::File,
        KnownPGDataItem::Base => FileType::Dir,
        KnownPGDataItem::CurrentLogFiles => FileType::File,
        KnownPGDataItem::Global => FileType::Dir,
        KnownPGDataItem::PGCommitTS => FileType::Dir,
        KnownPGDataItem::PGDynshmem => FileType::Dir,
        KnownPGDataItem::PGLogical => FileType::Dir,
        KnownPGDataItem::PGMultixact => FileType::Dir,
        KnownPGDataItem::PGNotify => FileType::Dir,
        KnownPGDataItem::PGReplslot => FileType::Dir,
        KnownPGDataItem::PGSerial => FileType::Dir,
        KnownPGDataItem::PGSnapshots => FileType::Dir,
        KnownPGDataItem::PGStat => FileType::Dir,
        KnownPGDataItem::PGStatTmp => FileType::Dir,
        KnownPGDataItem::PGSubtrans => FileType::Dir,
        KnownPGDataItem::PGTblspc => FileType::Dir,
        KnownPGDataItem::PGTwophase => FileType::Dir,
        KnownPGDataItem::PGWal => FileType::Dir,
        KnownPGDataItem::PGXact => FileType::Dir,
        KnownPGDataItem::PostgresqlConf => FileType::File,
        KnownPGDataItem::PostgresqlAutoConf => FileType::File,
        KnownPGDataItem::PostmasterOpts => FileType::File,
        KnownPGDataItem::PostmasterPid => FileType::File,
        KnownPGDataItem::PGHbaConf => FileType::File,
        KnownPGDataItem::PGIdentConf => FileType::File,
    }
}

/// The order in which the catalog lists its members.
pub open spec fn spec_catalog_tag(i: int) -> KnownPGDataItem {
    if i == 0 {
        KnownPGDataItem::Base
    } else if i == 1 {
        KnownPGDataItem::CurrentLogFiles
    } else if i == 2 {
        KnownPGDataItem::Global
    } else if i == 3 {
        KnownPGDataItem::PGCommitTS
    } else if i == 4 {
        KnownPGDataItem::PGDynshmem
    } else if i == 5 {
        KnownPGDataItem::PGLogical
    } else if i == 6 {
        KnownPGDataItem::PGMultixact
    } else if i == 7 {
        KnownPGDataItem::PGNotify
    } else if i == 8 {
        KnownPGDataItem::PGReplslot
    } else if i == 9 {
        KnownPGDataItem::PGSerial
    } else if i == 10 {
        KnownPGDataItem::PGSnapshots
    } else if i == 11 {
        KnownPGDataItem::PGStat
    } else if i == 12 {
        KnownPGDataItem::PGStatTmp
    } else if i == 13 {
        KnownPGDataItem::PGSubtrans
    } else if i == 14 {
        KnownPGDataItem::PGTblspc
    } else if i == 15 {
        KnownPGDataItem::PGTwophase
    } else if i == 16 {
        KnownPGDataItem::PGVersion
    } else if i == 17 {
        KnownPGDataItem::PGWal
    } else if i == 18 {
        KnownPGDataItem::PGXact
    } else if i == 19 {
        KnownPGDataItem::PostgresqlConf
    } else if i == 20 {
        KnownPGDataItem::PostgresqlAutoConf
    } else if i == 21 {
        KnownPGDataItem::PostmasterOpts
    } else if i == 22 {
        KnownPGDataItem::PostmasterPid
    } else if i == 23 {
        KnownPGDataItem::PGHbaConf
    } else {
        KnownPGDataItem::PGIdentConf
    }
}

/// What the catalog holds: item `i` carries the tag `spec_catalog_tag(i)`,
/// its canonical name and kind.
pub open spec fn catalog_well_formed(cat: Seq<KnownItem>) -> bool {
    &&& cat.len() == 25
    &&& forall|i: int|
        0 <= i < cat.len() ==> {
            &&& (#[trigger] cat[i]).tag == spec_catalog_tag(i)
            &&& cat[i].entry.name@ == spec_known_name(cat[i].tag)
            &&& cat[i].entry.entry_type == spec_known_type(cat[i].tag)
        }
}

/// Rank of an item's variant in the output order: known members come before
/// unknown entries.
pub open spec fn item_rank(item: PGDataItem) -> int {
    match item {
        PGDataItem::Known(_, _, _) => 0,
        PGDataItem::Unknown(_) => 1,
    }
}

/// Rank of an entry kind in the output order: directories before files.
pub open spec fn type_rank(t: FileType) -> int {
    match t {
        FileType::Dir => 0,
        FileType::File => 1,
    }
}

/// The name under an item's canonical key.
pub open spec fn item_name(item: PGDataItem) -> Seq<char> {
    item_key(item).0
}

/// The deterministic total order of classified output: by variant, then by
/// name, then by kind. Two items tie only when their variants and canonical
/// keys agree.
pub open spec fn item_le(a: PGDataItem, b: PGDataItem) -> bool {
    if item_rank(a) != item_rank(b) {
        item_rank(a) < item_rank(b)
    } else if item_name(a) != item_name(b) {
        crate::common::seq_char_lt(item_name(a), item_name(b))
    } else {
        type_rank(item_key(a).1) <= type_rank(item_key(b).1)
    }
}

/// Any two items are ordered at least one way.
pub proof fn lemma_item_le_total(a: PGDataItem, b: PGDataItem)
    ensures
        item_le(a, b) || item_le(b, a),
{
    if item_rank(a) == item_rank(b) && item_name(a) != item_name(b) {
        if !crate::common::seq_char_lt(item_name(a), item_name(b))
            && !crate::common::seq_char_lt(item_name(b), item_name(a)) {
            crate::common::lemma_seq_char_lt_trichotomy(item_name(a), item_name(b));
        }
    }
}

/// The output order is transitive.
pub proof fn lemma_item_le_transitive(a: PGDataItem, b: PGDataItem, c: PGDataItem)
    requires
        item_le(a, b),
        item_le(b, c),
    ensures
        item_le(a, c),
{
    if item_rank(a) == item_rank(b) && item_rank(b) == item_rank(c) {
        let na = item_name(a);
        let nb = item_name(b);
        let nc = item_name(c);
        if na != nb && nb != nc {
            crate::common::lemma_seq_char_lt_transitive(na, nb, nc);
            if na == nc {
                crate::common::lemma_seq_char_lt_asymmetric(na, nb);
            }
        }
    }
}

/// Decides the output order on two items.
fn item_le_exec(a: &PGDataItem, b: &PGDataItem) -> (r: bool)
    ensures
        r == item_le(*a, *b),
{
    let rank_a: u8 = match a {
        PGDataItem::Known(_, _, _) => 0,
        PGDataItem::Unknown(_) => 1,
    };
    let rank_b: u8 = match b {
        PGDataItem::Known(_, _, _) => 0,
        PGDataItem::Unknown(_) => 1,
    };
    if rank_a != rank_b {
        return rank_a < rank_b;
    }
    let entry_a = match a {
        PGDataItem::Known(e, _, _) => e,
        PGDataItem::Unknown(e) => e,
    };
    let entry_b = match b {
        PGDataItem::Known(e, _, _) => e,
        PGDataItem::Unknown(e) => e,
    };
    if !crate::common::str_eq(entry_a.name.as_str(), entry_b.name.as_str()) {
        return crate::common::str_lt(entry_a.name.as_str(), entry_b.name.as_str());
    }
    let kind_a: u8 = match entry_a.entry_type {
        FileType::Dir => 0,
        FileType::File => 1,
    };
    let kind_b: u8 = match entry_b.entry_type {
        FileType::Dir => 0,
        FileType::File => 1,
    };
    kind_a <= kind_b
}

/// Adjacent-pair sortedness in the output order.
pub open spec fn sorted_items(r: Seq<PGDataItem>) -> bool {
    forall|i: int| #![trigger r[i], r[i + 1]] 0 <= i < r.len() - 1 ==> item_le(r[i], r[i + 1])
}

/// No two items of a classified result share a canonical key.
pub open spec fn distinct_keys(r: Seq<PGDataItem>) -> bool {
    forall|j1: int, j2: int|
        0 <= j1 < j2 < r.len() ==> item_key(#[trigger] r[j1]) != item_key(#[trigger] r[j2])
}

/// Places `item` at its position in a sorted sequence of distinct-key items
/// whose keys all differ from the item's own.
fn insert_sorted(v: &mut Vec<PGDataItem>, item: PGDataItem)
    requires
        sorted_items(old(v)@),
        distinct_keys(old(v)@),
        forall|j: int|
            0 <= j < old(v)@.len() ==> item_key(#[trigger] old(v)@[j]) != item_key(item),
    ensures
        final(v)@.len() == old(v)@.len() + 1,
        sorted_items(final(v)@),
        distinct_keys(final(v)@),
        forall|x: PGDataItem|
            #![trigger final(v)@.contains(x)]
            #![trigger old(v)@.contains(x)]
            final(v)@.contains(x) <==> (old(v)@.contains(x) || x == item),
        final(v)@.contains(item),
{
    let ghost orig = v@;
    let mut p: usize = 0;
    while p < v.len() && item_le_exec(&v[p], &item)
        invariant
            v@ == orig,
            sorted_items(orig),
            0 <= p <= v@.len(),
            forall|j: int| 0 <= j < p ==> item_le(#[trigger] orig[j], item),
        decreases v@.len() - p,
    {
        p = p + 1;
    }
    proof {
        if p < v@.len() {
            lemma_item_le_total(orig[p as int], item);
        }
    }
    v.insert(p, item);
    proof {
        let s = v@;
        let pi = p as int;
        orig.insert_ensures(pi, item);
        assert(s == orig.insert(pi, item));
        assert(s[pi] == item);
        assert forall|i: int| 0 <= i < s.len() - 1 implies item_le(#[trigger] s[i], s[i + 1]) by {
            if i + 1 < pi {
                assert(s[i] == orig[i]);
                assert(s[i + 1] == orig[i + 1]);
            } else if i + 1 == pi {
                assert(s[i] == orig[i]);
                assert(s[i + 1] == item);
            } else if i == pi {
                assert(s[i] == item);
                assert(s[i + 1] == orig[i]);
            } else {
                assert(s[i] == orig[i - 1]);
                assert(s[i + 1] == orig[i]);
            }
        }
        assert forall|j1: int, j2: int| 0 <= j1 < j2 < s.len() implies item_key(
            #[trigger] s[j1],
        ) != item_key(#[trigger] s[j2]) by {
            let o1: int = if j1 < pi {
                j1
            } else {
                j1 - 1
            };
            let o2: int = if j2 < pi {
                j2
            } else {
                j2 - 1
            };
            if j1 != pi && j2 != pi {
                assert(s[j1] == orig[o1]);
                assert(s[j2] == orig[o2]);
            } else if j1 == pi {
                assert(s[j2] == orig[o2]);
            } else {
                assert(s[j1] == orig[o1]);
            }
        }
        assert forall|x: PGDataItem| #[trigger] s.contains(x) implies (orig.contains(x) || x
            == item) by {
            let j = choose|j: int| 0 <= j < s.len() && s[j] == x;
            if j < pi {
                assert(orig[j] == x);
            } else if j > pi {
                assert(orig[j - 1] == x);
            }
        }
        assert forall|x: PGDataItem| #[trigger] orig.contains(x) implies s.contains(x) by {
            let j = choose|j: int| 0 <= j < orig.len() && orig[j] == x;
            if j < pi {
                assert(s[j] == x);
            } else {
                assert(s[j + 1] == x);
            }
        }
        assert(s.contains(item));
    }
}

/// Whether the listing holds an entry with this canonical key.
pub open spec fn act_has_key(act: Seq<DirEntry>, key: (Seq<char>, FileType)) -> bool {
    exists|j: int| 0 <= j < act.len() && entry_key(#[trigger] act[j]) == key
}

/// Whether the catalog holds a member with this canonical key.
pub open spec fn cat_has_key(cat: Seq<KnownItem>, key: (Seq<char>, FileType)) -> bool {
    exists|i: int| 0 <= i < cat.len() && entry_key(#[trigger] cat[i].entry) == key
}

/// No two listing entries share a canonical key.
pub open spec fn entries_distinct(act: Seq<DirEntry>) -> bool {
    forall|j1: int, j2: int|
        0 <= j1 < j2 < act.len() ==> entry_key(#[trigger] act[j1]) != entry_key(
            #[trigger] act[j2],
        )
}

/// No two catalog members share a canonical key.
pub open spec fn catalog_keys_distinct(cat: Seq<KnownItem>) -> bool {
    forall|i1: int, i2: int|
        0 <= i1 < i2 < cat.len() ==> entry_key(#[trigger] cat[i1].entry) != entry_key(
            #[trigger] cat[i2].entry,
        )
}

/// How many listing entries fall outside the catalog, by canonical key:
/// the size of the set difference the length formula speaks of.
pub open spec fn count_unknown(act: Seq<DirEntry>, cat: Seq<KnownItem>) -> nat
    decreases act.len(),
{
    if act.len() == 0 {
        0
    } else {
        count_unknown(act.drop_last(), cat) + (if cat_has_key(cat, entry_key(act.last())) {
            0nat
        } else {
            1nat
        })
    }
}

/// The one classified item a catalog member gives rise to: its canonical
/// entry and tag, present exactly when the listing has the member's key.
pub open spec fn known_item_for(c: KnownItem, act: Seq<DirEntry>, item: PGDataItem) -> bool {
    match item {
        PGDataItem::Known(e, tag, st) => {
            &&& e.name@ == c.entry.name@
            &&& e.entry_type == c.entry.entry_type
            &&& tag == c.tag
            &&& st == if act_has_key(act, entry_key(c.entry)) {
                PGDataItemState::Present
            } else {
                PGDataItemState::Missing
            }
        },
        PGDataItem::Unknown(_) => false,
    }
}

/// Every output item is accounted for: a known member of the catalog with
/// its presence, or an unknown entry taken from the listing and absent from
/// the catalog.
pub open spec fn item_from(cat: Seq<KnownItem>, act: Seq<DirEntry>, item: PGDataItem) -> bool {
    match item {
        PGDataItem::Known(_, _, _) => exists|i: int|
            0 <= i < cat.len() && known_item_for(#[trigger] cat[i], act, item),
        PGDataItem::Unknown(e) => act_has_key(act, entry_key(e)) && !cat_has_key(
            cat,
            entry_key(e),
        ),
    }
}

/// The whole contract of root classification: exactly one item per catalog
/// member and one per unknown listing entry, nothing else, no two items
/// sharing a canonical key, and the output sorted in the deterministic
/// total order.
pub open spec fn classify_post(
    cat: Seq<KnownItem>,
    act: Seq<DirEntry>,
    r: Seq<PGDataItem>,
) -> bool {
    &&& r.len() == cat.len() + count_unknown(act, cat)
    &&& sorted_items(r)
    &&& distinct_keys(r)
    &&& forall|ii: int| 0 <= ii < cat.len() ==> #[trigger] has_known_for(cat, act, r, ii)
    &&& forall|jx: int|
        0 <= jx < act.len() && !cat_has_key(cat, entry_key(#[trigger] act[jx]))
            ==> has_unknown_for(act, r, jx)
    &&& forall|it: PGDataItem| #[trigger] r.contains(it) ==> item_from(cat, act, it)
}

/// Whether the listing holds an entry with the same canonical key.
fn act_contains_key(actual: &Vec<DirEntry>, entry: &DirEntry) -> (r: bool)
    ensures
        r == act_has_key(actual@, entry_key(*entry)),
{
    let mut j: usize = 0;
    while j < actual.len()
        invariant
            0 <= j <= actual@.len(),
            forall|jj: int| 0 <= jj < j ==> entry_key(#[trigger] actual@[jj]) != entry_key(*entry),
        decreases actual@.len() - j,
    {
        let e = &actual[j];
        if crate::common::str_eq(e.name.as_str(), entry.name.as_str()) && e.entry_type
            == entry.entry_type {
            return true;
        }
        j = j + 1;
    }
    false
}

/// Whether the catalog holds a member with the same canonical key.
fn cat_contains_key(catalog: &Vec<KnownItem>, entry: &DirEntry) -> (r: bool)
    ensures
        r == cat_has_key(catalog@, entry_key(*entry)),
{
    let mut i: usize = 0;
    while i < catalog.len()
        invariant
            0 <= i <= catalog@.len(),
            forall|ii: int|
                0 <= ii < i ==> entry_key(#[trigger] catalog@[ii].entry) != entry_key(*entry),
        decreases catalog@.len() - i,
    {
        let e = &catalog[i].entry;
        if crate::common::str_eq(e.name.as_str(), entry.name.as_str()) && e.entry_type
            == entry.entry_type {
            return true;
        }
        i = i + 1;
    }
    false
}

/// The result holds an item standing for catalog member `ii`.
pub open spec fn has_known_for(cat: Seq<KnownItem>, act: Seq<DirEntry>, r: Seq<PGDataItem>, ii: int) -> bool {
    exists|it: PGDataItem| r.contains(it) && known_item_for(cat[ii], act, it)
}

/// The result holds an unknown item carrying the key of listing entry `jx`.
pub open spec fn has_unknown_for(act: Seq<DirEntry>, r: Seq<PGDataItem>, jx: int) -> bool {
    exists|it: PGDataItem|
        r.contains(it) && it is Unknown && item_key(it) == entry_key(act[jx])
}

/// The item stands for one of the first `i` catalog members.
pub open spec fn known_from_upto(cat: Seq<KnownItem>, act: Seq<DirEntry>, it: PGDataItem, i: int) -> bool {
    exists|ii: int| 0 <= ii < i && known_item_for(cat[ii], act, it)
}

/// The item's key is the key of one of the first `j` listing entries.
pub open spec fn unknown_source_upto(act: Seq<DirEntry>, it: PGDataItem, j: int) -> bool {
    exists|jx: int| 0 <= jx < j && entry_key(act[jx]) == item_key(it)
}

/// The classifier's state while catalog members are taken in: the first `i`
/// members each stand in the result exactly once, nothing else does, no two
/// items share a key, and the result is sorted.
spec fn knowns_inv(cat: Seq<KnownItem>, act: Seq<DirEntry>, r: Seq<PGDataItem>, i: int) -> bool {
    &&& r.len() == i
    &&& sorted_items(r)
    &&& distinct_keys(r)
    &&& forall|ii: int| 0 <= ii < i ==> #[trigger] has_known_for(cat, act, r, ii)
    &&& forall|it: PGDataItem| #[trigger] r.contains(it) ==> known_from_upto(cat, act, it, i)
}

#[verifier::rlimit(50)]
fn insert_known(
    result: &mut Vec<PGDataItem>,
    catalog: &Vec<KnownItem>,
    actual: &Vec<DirEntry>,
    i: usize,
)
    requires
        catalog_keys_distinct(catalog@),
        i < catalog@.len(),
        knowns_inv(catalog@, actual@, old(result)@, i as int),
    ensures
        knowns_inv(catalog@, actual@, final(result)@, i + 1),
{
    let ghost cat = catalog@;
    let ghost act = actual@;
    let ghost prev = result@;
    let c = &catalog[i];
    let present = act_contains_key(actual, &c.entry);
    let state = if present {
        PGDataItemState::Present
    } else {
        PGDataItemState::Missing
    };
    let item = PGDataItem::Known(c.entry.clone(), c.tag, state);
    proof {
        assert(known_item_for(cat[i as int], act, item));
        assert(item_key(item) == entry_key(cat[i as int].entry));
        assert forall|j: int| 0 <= j < prev.len() implies item_key(#[trigger] prev[j])
            != item_key(item) by {
            assert(prev.contains(prev[j]));
            assert(known_from_upto(cat, act, prev[j], i as int));
            let ii = choose|ii: int| 0 <= ii < i && known_item_for(cat[ii], act, prev[j]);
            assert(item_key(prev[j]) == entry_key(cat[ii].entry));
            assert(entry_key(cat[ii].entry) != entry_key(cat[i as int].entry));
        }
    }
    insert_sorted(result, item);
    proof {
        assert forall|ii: int| 0 <= ii < i + 1 implies #[trigger] has_known_for(
            cat,
            act,
            result@,
            ii,
        ) by {
            if ii < i {
                assert(has_known_for(cat, act, prev, ii));
                let it = choose|it: PGDataItem|
                    prev.contains(it) && known_item_for(cat[ii], act, it);
                assert(result@.contains(it) && known_item_for(cat[ii], act, it));
            } else {
                assert(result@.contains(item) && known_item_for(cat[ii], act, item));
            }
        }
        assert forall|it: PGDataItem| #[trigger] result@.contains(it) implies known_from_upto(
            cat,
            act,
            it,
            i + 1,
        ) by {
            if prev.contains(it) {
                let ii = choose|ii: int| 0 <= ii < i && known_item_for(cat[ii], act, it);
                assert(0 <= ii < i + 1 && known_item_for(cat[ii], act, it));
            } else {
                assert(it == item);
                assert(known_item_for(cat[i as int], act, it));
            }
        }
    }
}

proof fn lemma_count_unknown_step(act: Seq<DirEntry>, cat: Seq<KnownItem>, j: int)
    requires
        0 <= j < act.len(),
    ensures
        count_unknown(act.take(j + 1), cat) == count_unknown(act.take(j), cat) + (if cat_has_key(
            cat,
            entry_key(act[j]),
        ) {
            0nat
        } else {
            1nat
        }),
{
    assert(act.take(j + 1).drop_last() =~= act.take(j));
    assert(act.take(j + 1).last() == act[j]);
}

/// The classifier's state while listing entries are taken in, after all
/// catalog members: one unknown item per listing entry outside the catalog
/// among the first `j`, nothing else, keys distinct, order kept.
spec fn unknowns_inv(
    cat: Seq<KnownItem>,
    act: Seq<DirEntry>,
    r: Seq<PGDataItem>,
    j: int,
) -> bool {
    &&& r.len() == cat.len() + count_unknown(act.take(j), cat)
    &&& sorted_items(r)
    &&& distinct_keys(r)
    &&& forall|ii: int| 0 <= ii < cat.len() ==> #[trigger] has_known_for(cat, act, r, ii)
    &&& forall|jx: int|
        0 <= jx < j && !cat_has_key(cat, entry_key(#[trigger] act[jx]))
            ==> has_unknown_for(act, r, jx)
    &&& forall|it: PGDataItem|
        #[trigger] r.contains(it) && !(it is Unknown) ==> known_from_upto(
            cat,
            act,
            it,
            cat.len() as int,
        )
    &&& forall|it: PGDataItem|
        #[trigger] r.contains(it) && it is Unknown ==> !cat_has_key(cat, item_key(it))
            && unknown_source_upto(act, it, j)
}

#[verifier::rlimit(50)]
fn insert_unknown(
    result: &mut Vec<PGDataItem>,
    catalog: &Vec<KnownItem>,
    actual: &Vec<DirEntry>,
    j: usize,
)
    requires
        entries_distinct(actual@),
        j < actual@.len(),
        !cat_has_key(catalog@, entry_key(actual@[j as int])),
        unknowns_inv(catalog@, actual@, old(result)@, j as int),
    ensures
        unknowns_inv(catalog@, actual@, final(result)@, j + 1),
{
    let ghost cat = catalog@;
    let ghost act = actual@;
    let ghost prev = result@;
    let entry = &actual[j];
    let item = PGDataItem::Unknown(entry.clone());
    proof {
        lemma_count_unknown_step(act, cat, j as int);
        assert(item_key(item) == entry_key(act[j as int]));
        assert forall|jj: int| 0 <= jj < prev.len() implies item_key(#[trigger] prev[jj])
            != item_key(item) by {
            assert(prev.contains(prev[jj]));
            if prev[jj] is Unknown {
                let jx = choose|jx: int| 0 <= jx < j && entry_key(act[jx]) == item_key(prev[jj]);
                assert(entry_key(act[jx]) != entry_key(act[j as int]));
            } else {
                let ii = choose|ii: int|
                    0 <= ii < cat.len() && known_item_for(cat[ii], act, prev[jj]);
                assert(item_key(prev[jj]) == entry_key(cat[ii].entry));
                assert(cat_has_key(cat, entry_key(cat[ii].entry)));
            }
        }
    }
    insert_sorted(result, item);
    proof {
        assert forall|ii: int| 0 <= ii < cat.len() implies #[trigger] has_known_for(
            cat,
            act,
            result@,
            ii,
        ) by {
            assert(has_known_for(cat, act, prev, ii));
            let it = choose|it: PGDataItem| prev.contains(it) && known_item_for(cat[ii], act, it);
            assert(result@.contains(it) && known_item_for(cat[ii], act, it));
        }
        assert forall|jx: int|
            0 <= jx < j + 1 && !cat_has_key(cat, entry_key(#[trigger] act[jx])) implies
            has_unknown_for(act, result@, jx) by {
            if jx < j {
                assert(has_unknown_for(act, prev, jx));
                let it = choose|it: PGDataItem|
                    prev.contains(it) && it is Unknown && item_key(it) == entry_key(act[jx]);
                assert(result@.contains(it) && it is Unknown && item_key(it) == entry_key(
                    act[jx],
                ));
            } else {
                assert(result@.contains(item) && item is Unknown && item_key(item) == entry_key(
                    act[jx],
                ));
            }
        }
        assert forall|it: PGDataItem|
            #[trigger] result@.contains(it) && !(it is Unknown) implies known_from_upto(
            cat,
            act,
            it,
            cat.len() as int,
        ) by {
            assert(prev.contains(it));
        }
        assert forall|it: PGDataItem|
            #[trigger] result@.contains(it) && it is Unknown implies !cat_has_key(
            cat,
            item_key(it),
        ) && unknown_source_upto(act, it, j + 1) by {
            if prev.contains(it) {
                let jx = choose|jx: int| 0 <= jx < j && entry_key(act[jx]) == item_key(it);
                assert(0 <= jx < j + 1 && entry_key(act[jx]) == item_key(it));
            } else {
                assert(it == item);
                assert(entry_key(act[j as int]) == item_key(it));
            }
        }
    }
}

proof fn lemma_phase_transition(cat: Seq<KnownItem>, act: Seq<DirEntry>, r: Seq<PGDataItem>)
    requires
        knowns_inv(cat, act, r, cat.len() as int),
    ensures
        unknowns_inv(cat, act, r, 0),
{
    assert(act.take(0) =~= Seq::<DirEntry>::empty());
    assert(count_unknown(act.take(0), cat) == 0);
    assert forall|it: PGDataItem| #[trigger] r.contains(it) implies !(it is Unknown) by {
        assert(known_from_upto(cat, act, it, cat.len() as int));
        let ii = choose|ii: int| 0 <= ii < cat.len() && known_item_for(cat[ii], act, it);
        assert(known_item_for(cat[ii], act, it));
    }
}

proof fn lemma_classify_finish(cat: Seq<KnownItem>, act: Seq<DirEntry>, r: Seq<PGDataItem>)
    requires
        unknowns_inv(cat, act, r, act.len() as int),
    ensures
        classify_post(cat, act, r),
{
    assert(act.take(act.len() as int) =~= act);
    assert forall|it: PGDataItem| #[trigger] r.contains(it) implies item_from(cat, act, it) by {
        if it is Unknown {
            assert(unknown_source_upto(act, it, act.len() as int));
            let jx = choose|jx: int| 0 <= jx < act.len() && entry_key(act[jx]) == item_key(it);
            assert(act_has_key(act, item_key(it)));
        } else {
            assert(known_from_upto(cat, act, it, cat.len() as int));
        }
    }
}

/// Reconciles the catalog with an actual directory listing: every catalog
/// member appears once, marked present or missing; every listing entry the
/// catalog does not know appears once as unknown; no entry is ever dropped,
/// and the result is sorted in the deterministic output order.
pub fn classify(catalog: &Vec<KnownItem>, actual: &Vec<DirEntry>) -> (r: Vec<PGDataItem>)
    requires
        catalog_keys_distinct(catalog@),
        entries_distinct(actual@),
    ensures
        classify_post(catalog@, actual@, r@),
{
    let ghost cat = catalog@;
    let ghost act = actual@;
    let mut result: Vec<PGDataItem> = Vec::new();
    let mut i: usize = 0;
    while i < catalog.len()
        invariant
            catalog_keys_distinct(cat),
            entries_distinct(act),
            cat == catalog@,
            act == actual@,
            0 <= i <= cat.len(),
            knowns_inv(cat, act, result@, i as int),
        decreases cat.len() - i,
    {
        insert_known(&mut result, catalog, actual, i);
        i = i + 1;
    }
    proof {
        lemma_phase_transition(cat, act, result@);
    }
    let mut j: usize = 0;
    while j < actual.len()
        invariant
            catalog_keys_distinct(cat),
            entries_distinct(act),
            cat == catalog@,
            act == actual@,
            0 <= j <= act.len(),
            unknowns_inv(cat, act, result@, j as int),
        decreases act.len() - j,
    {
        let entry = &actual[j];
        let in_catalog = cat_contains_key(catalog, entry);
        proof {
            lemma_count_unknown_step(act, cat, j as int);
        }
        if !in_catalog {
            insert_unknown(&mut result, catalog, actual, j);
        }
        j = j + 1;
    }
    proof {
        lemma_classify_finish(cat, act, result@);
    }
    result
}

/// No entry is ever dropped or invented: classified output has exactly one
/// item per catalog member plus one per listing entry whose canonical key
/// the catalog lacks, and no two output items share a canonical key.
pub proof fn lemma_classify_counts(cat: Seq<KnownItem>, act: Seq<DirEntry>, r: Seq<PGDataItem>)
    requires
        classify_post(cat, act, r),
    ensures
        r.len() == cat.len() + count_unknown(act, cat),
        forall|j1: int, j2: int|
            0 <= j1 < j2 < r.len() ==> item_key(#[trigger] r[j1]) != item_key(#[trigger] r[j2]),
{
}

/// Sortedness spread over arbitrary pairs, not only neighbours.
proof fn lemma_sorted_pair(r: Seq<PGDataItem>, i: int, j: int)
    requires
        sorted_items(r),
        0 <= i <= j < r.len(),
    ensures
        i < j ==> item_le(r[i], r[j]),
    decreases j - i,
{
    if i + 1 < j {
        lemma_sorted_pair(r, i + 1, j);
        lemma_item_le_transitive(r[i], r[i + 1], r[j]);
    }
}

/// Items ordered both ways carry the same canonical key.
proof fn lemma_item_le_antisym(a: PGDataItem, b: PGDataItem)
    requires
        item_le(a, b),
        item_le(b, a),
    ensures
        item_key(a) == item_key(b),
        item_rank(a) == item_rank(b),
{
    if item_name(a) != item_name(b) {
        crate::common::lemma_seq_char_lt_asymmetric(item_name(a), item_name(b));
    }
}

/// The order reads only an item's variant and canonical key, which
/// `item_eq` preserves.
proof fn lemma_item_le_respects_eq(a: PGDataItem, b: PGDataItem, x: PGDataItem)
    requires
        item_eq(a, b),
    ensures
        item_le(a, x) == item_le(b, x),
        item_le(x, a) == item_le(x, b),
{
}

/// Position `j` of `r1` has a counterpart somewhere in `r2`.
pub open spec fn matches_into(r1: Seq<PGDataItem>, j: int, r2: Seq<PGDataItem>) -> bool {
    exists|jj: int| 0 <= jj < r2.len() && item_eq(r1[j], r2[jj])
}

proof fn lemma_tail_sorted(r: Seq<PGDataItem>)
    requires
        sorted_items(r),
        r.len() > 0,
    ensures
        sorted_items(r.drop_first()),
        distinct_keys(r) ==> distinct_keys(r.drop_first()),
{
    let t = r.drop_first();
    assert forall|i: int| 0 <= i < t.len() - 1 implies item_le(#[trigger] t[i], t[i + 1]) by {
        assert(t[i] == r[i + 1]);
        assert(t[i + 1] == r[i + 2]);
    }
    if distinct_keys(r) {
        assert forall|j1: int, j2: int| 0 <= j1 < j2 < t.len() implies item_key(
            #[trigger] t[j1],
        ) != item_key(#[trigger] t[j2]) by {
            assert(t[j1] == r[j1 + 1]);
            assert(t[j2] == r[j2 + 1]);
        }
    }
}

/// When both sequences are sorted with distinct keys and match into each
/// other, their first items agree.
proof fn lemma_heads_match(r1: Seq<PGDataItem>, r2: Seq<PGDataItem>)
    requires
        sorted_items(r1),
        sorted_items(r2),
        distinct_keys(r1),
        distinct_keys(r2),
        r1.len() > 0,
        r2.len() > 0,
        matches_into(r1, 0, r2),
        matches_into(r2, 0, r1),
    ensures
        item_eq(r1[0], r2[0]),
{
    let jj0 = choose|jj: int| 0 <= jj < r2.len() && item_eq(r1[0], r2[jj]);
    let j0 = choose|j: int| 0 <= j < r1.len() && item_eq(r2[0], r1[j]);
    lemma_sorted_pair(r2, 0, jj0);
    lemma_sorted_pair(r1, 0, j0);
    if jj0 > 0 {
        lemma_item_le_respects_eq(r1[0], r2[jj0], r2[0]);
        lemma_item_le_respects_eq(r2[0], r1[j0], r1[0]);
        assert(item_le(r2[0], r2[jj0]));
        assert(item_le(r2[jj0], r2[0]) == item_le(r1[0], r2[0]));
        assert(item_le(r1[0], r2[0]) == item_le(r1[0], r1[j0]));
        lemma_item_le_antisym(r2[0], r2[jj0]);
        assert(item_key(r2[0]) != item_key(r2[jj0]));
        assert(false);
    }
}

/// Two sorted, distinct-key results that match each other item for item are
/// the same sequence, item for item.
proof fn lemma_sorted_match_unique(r1: Seq<PGDataItem>, r2: Seq<PGDataItem>)
    requires
        sorted_items(r1),
        sorted_items(r2),
        distinct_keys(r1),
        distinct_keys(r2),
        forall|j: int| 0 <= j < r1.len() ==> #[trigger] matches_into(r1, j, r2),
        forall|jj: int| 0 <= jj < r2.len() ==> #[trigger] matches_into(r2, jj, r1),
    ensures
        r1.len() == r2.len(),
        forall|j: int| 0 <= j < r1.len() ==> item_eq(#[trigger] r1[j], r2[j]),
    decreases r1.len(),
{
    if r1.len() == 0 {
        if r2.len() > 0 {
            assert(matches_into(r2, 0, r1));
            let j = choose|j: int| 0 <= j < r1.len() && item_eq(r2[0], r1[j]);
            assert(false);
        }
    } else {
        assert(matches_into(r1, 0, r2));
        if r2.len() == 0 {
            let jj = choose|jj: int| 0 <= jj < r2.len() && item_eq(r1[0], r2[jj]);
            assert(false);
        }
        lemma_heads_match(r1, r2);
        let t1 = r1.drop_first();
        let t2 = r2.drop_first();
        lemma_tail_sorted(r1);
        lemma_tail_sorted(r2);
        assert forall|j: int| 0 <= j < t1.len() implies #[trigger] matches_into(t1, j, t2) by {
            assert(t1[j] == r1[j + 1]);
            assert(matches_into(r1, j + 1, r2));
            let jj = choose|jj: int| 0 <= jj < r2.len() && item_eq(r1[j + 1], r2[jj]);
            if jj == 0 {
                assert(item_key(r1[j + 1]) == item_key(r2[0]));
                assert(item_key(r1[0]) == item_key(r2[0]));
                assert(item_key(r1[0]) != item_key(r1[j + 1]));
                assert(false);
            }
            assert(t2[jj - 1] == r2[jj]);
            assert(item_eq(t1[j], t2[jj - 1]));
        }
        assert forall|jj: int| 0 <= jj < t2.len() implies #[trigger] matches_into(t2, jj, t1) by {
            assert(t2[jj] == r2[jj + 1]);
            assert(matches_into(r2, jj + 1, r1));
            let j = choose|j: int| 0 <= j < r1.len() && item_eq(r2[jj + 1], r1[j]);
            if j == 0 {
                assert(item_key(r2[jj + 1]) == item_key(r1[0]));
                assert(item_key(r2[0]) == item_key(r1[0]));
                assert(item_key(r2[0]) != item_key(r2[jj + 1]));
                assert(false);
            }
            assert(t1[j - 1] == r1[j]);
            assert(item_eq(t2[jj], t1[j - 1]));
        }
        lemma_sorted_match_unique(t1, t2);
        assert forall|j: int| 0 <= j < r1.len() implies item_eq(#[trigger] r1[j], r2[j]) by {
            if j > 0 {
                assert(t1[j - 1] == r1[j]);
                assert(t2[j - 1] == r2[j]);
                assert(item_eq(t1[j - 1], t2[j - 1]));
            }
        }
    }
}

/// Root classification is order-independent in its listing, and idempotent:
/// two listings holding entries with the same canonical keys — however
/// ordered — classify to outputs that agree item for item.
/// Root classification is order-independent in its listing, and idempotent:
/// two listings holding entries with the same canonical keys — however
/// ordered — classify to outputs that agree item for item.
#[verifier::rlimit(100)]
pub proof fn lemma_classify_order_independent(
    cat: Seq<KnownItem>,
    act1: Seq<DirEntry>,
    act2: Seq<DirEntry>,
    r1: Seq<PGDataItem>,
    r2: Seq<PGDataItem>,
)
    requires
        forall|j: int| 0 <= j < act1.len() ==> act_has_key(act2, entry_key(#[trigger] act1[j])),
        forall|j: int| 0 <= j < act2.len() ==> act_has_key(act1, entry_key(#[trigger] act2[j])),
        classify_post(cat, act1, r1),
        classify_post(cat, act2, r2),
    ensures
        r1.len() == r2.len(),
        forall|j: int| 0 <= j < r1.len() ==> item_eq(#[trigger] r1[j], r2[j]),
{
    assert forall|key: (Seq<char>, FileType)|
        #![trigger act_has_key(act1, key)]
        #![trigger act_has_key(act2, key)]
        act_has_key(act1, key) == act_has_key(act2, key) by {
        if act_has_key(act1, key) {
            let j = choose|j: int| 0 <= j < act1.len() && entry_key(act1[j]) == key;
            assert(act_has_key(act2, entry_key(act1[j])));
        }
        if act_has_key(act2, key) {
            let j = choose|j: int| 0 <= j < act2.len() && entry_key(act2[j]) == key;
            assert(act_has_key(act1, entry_key(act2[j])));
        }
    }
    assert forall|j: int| 0 <= j < r1.len() implies #[trigger] matches_into(r1, j, r2) by {
        lemma_match_one(cat, act1, act2, r1, r2, j);
    }
    assert forall|jj: int| 0 <= jj < r2.len() implies #[trigger] matches_into(r2, jj, r1) by {
        lemma_match_one(cat, act2, act1, r2, r1, jj);
    }
    lemma_sorted_match_unique(r1, r2);
}

/// One classified item of one run has a counterpart in the other run.
#[verifier::rlimit(100)]
proof fn lemma_match_one(
    cat: Seq<KnownItem>,
    act1: Seq<DirEntry>,
    act2: Seq<DirEntry>,
    r1: Seq<PGDataItem>,
    r2: Seq<PGDataItem>,
    j: int,
)
    requires
        forall|key: (Seq<char>, FileType)|
            #![trigger act_has_key(act1, key)]
            #![trigger act_has_key(act2, key)]
            act_has_key(act1, key) == act_has_key(act2, key),
        classify_post(cat, act1, r1),
        classify_post(cat, act2, r2),
        0 <= j < r1.len(),
    ensures
        matches_into(r1, j, r2),
{
    assert(r1.contains(r1[j]));
    assert(item_from(cat, act1, r1[j]));
    match r1[j] {
        PGDataItem::Known(_, _, _) => {
            let ii = choose|ii: int| 0 <= ii < cat.len() && known_item_for(cat[ii], act1, r1[j]);
            assert(has_known_for(cat, act2, r2, ii));
            let it2 = choose|it2: PGDataItem|
                r2.contains(it2) && known_item_for(cat[ii], act2, it2);
            let jj = choose|jj: int| 0 <= jj < r2.len() && r2[jj] == it2;
            assert(act_has_key(act1, entry_key(cat[ii].entry)) == act_has_key(
                act2,
                entry_key(cat[ii].entry),
            ));
            assert(item_eq(r1[j], r2[jj]));
        },
        PGDataItem::Unknown(e) => {
            let k = entry_key(e);
            assert(act_has_key(act1, k) == act_has_key(act2, k));
            let jy = choose|jy: int| 0 <= jy < act2.len() && entry_key(act2[jy]) == k;
            assert(!cat_has_key(cat, entry_key(act2[jy])));
            assert(has_unknown_for(act2, r2, jy));
            let it2 = choose|it2: PGDataItem|
                r2.contains(it2) && it2 is Unknown && item_key(it2) == entry_key(act2[jy]);
            let jj = choose|jj: int| 0 <= jj < r2.len() && r2[jj] == it2;
            assert(item_eq(r1[j], r2[jj]));
        },
    }
}

/// Classifies an actual root listing against the built-in catalog, and
/// hands the catalog back beside the classified items, for the renderer's
/// descriptions.
pub fn classify_root(actual: &Vec<DirEntry>) -> (r: (Vec<KnownItem>, Vec<PGDataItem>))
    requires
        entries_distinct(actual@),
    ensures
        catalog_well_formed(r.0@),
        classify_post(r.0@, actual@, r.1@),
{
    let catalog = known_items();
    proof {
        lemma_catalog_distinct(catalog@);
    }
    let items = classify(&catalog, actual);
    (catalog, items)
}

/// The tag an item carries, when it stands for a known member.
pub open spec fn item_tag(item: PGDataItem) -> Option<KnownPGDataItem> {
    match item {
        PGDataItem::Known(_, tag, _) => Some(tag),
        PGDataItem::Unknown(_) => None,
    }
}

/// The classified output holds a known item carrying this tag.
pub open spec fn has_tag(r: Seq<PGDataItem>, tag: KnownPGDataItem) -> bool {
    exists|j: int| 0 <= j < r.len() && item_tag(#[trigger] r[j]) == Some(tag)
}

/// The position at which the catalog lists a tag.
pub open spec fn spec_tag_index(tag: KnownPGDataItem) -> int {
    match tag {
        KnownPGDataItem::Base => 0,
        KnownPGDataItem::CurrentLogFiles => 1,
        KnownPGDataItem::Global => 2,
        KnownPGDataItem::PGCommitTS => 3,
        KnownPGDataItem::PGDynshmem => 4,
        KnownPGDataItem::PGLogical => 5,
        KnownPGDataItem::PGMultixact => 6,
        KnownPGDataItem::PGNotify => 7,
        KnownPGDataItem::PGReplslot => 8,
        KnownPGDataItem::PGSerial => 9,
        KnownPGDataItem::PGSnapshots => 10,
        KnownPGDataItem::PGStat => 11,
        KnownPGDataItem::PGStatTmp => 12,
        KnownPGDataItem::PGSubtrans => 13,
        KnownPGDataItem::PGTblspc => 14,
        KnownPGDataItem::PGTwophase => 15,
        KnownPGDataItem::PGVersion => 16,
        KnownPGDataItem::PGWal => 17,
        KnownPGDataItem::PGXact => 18,
        KnownPGDataItem::PostgresqlConf => 19,
        KnownPGDataItem::PostgresqlAutoConf => 20,
        KnownPGDataItem::PostmasterOpts => 21,
        KnownPGDataItem::PostmasterPid => 22,
        KnownPGDataItem::PGHbaConf => 23,
        KnownPGDataItem::PGIdentConf => 24,
    }
}

/// Root catalog completeness: classified against any listing — the empty
/// one included — every one of the known tags appears in the output, as a
/// known item marked present or missing.
pub proof fn lemma_catalog_completeness(
    cat: Seq<KnownItem>,
    act: Seq<DirEntry>,
    r: Seq<PGDataItem>,
)
    requires
        catalog_well_formed(cat),
        classify_post(cat, act, r),
    ensures
        forall|tag: KnownPGDataItem| #[trigger] has_tag(r, tag),
{
    assert forall|tag: KnownPGDataItem| #[trigger] has_tag(r, tag) by {
        let i = spec_tag_index(tag);
        assert(0 <= i < cat.len());
        assert(cat[i].tag == tag);
        assert(has_known_for(cat, act, r, i));
        let it = choose|it: PGDataItem| r.contains(it) && known_item_for(cat[i], act, it);
        let j = choose|j: int| 0 <= j < r.len() && r[j] == it;
        assert(item_tag(r[j]) == Some(tag));
    }
}

/// Each of the known tags appears exactly once in the catalog, and no two
/// catalog members share a canonical directory entry.
pub proof fn lemma_catalog_distinct(cat: Seq<KnownItem>)
    requires
        catalog_well_formed(cat),
    ensures
        catalog_keys_distinct(cat),
        forall|i1: int, i2: int|
            0 <= i1 < i2 < cat.len() ==> (#[trigger] cat[i1]).tag != (#[trigger] cat[i2]).tag,
{
    reveal_strlit("PG_VERSION");
    reveal_strlit("base");
    reveal_strlit("current_logfiles");
    reveal_strlit("global");
    reveal_strlit("pg_commit_ts");
    reveal_strlit("pg_dynshmem");
    reveal_strlit("pg_logical");
    reveal_strlit("pg_multixact");
    reveal_strlit("pg_notify");
    reveal_strlit("pg_replslot");
    reveal_strlit("pg_serial");
    reveal_strlit("pg_snapshots");
    reveal_strlit("pg_stat");
    reveal_strlit("pg_stat_tmp");
    reveal_strlit("pg_subtrans");
    reveal_strlit("pg_tblspc");
    reveal_strlit("pg_twophase");
    reveal_strlit("pg_wal");
    reveal_strlit("pg_xact");
    reveal_strlit("postgresql.conf");
    reveal_strlit("postgresql.auto.conf");
    reveal_strlit("postmaster.opts");
    reveal_strlit("postmaster.pid");
    reveal_strlit("pg_hba.conf");
    reveal_strlit("pg_ident.conf");
    assert("PG_VERSION"@.len() == 10 && "base"@.len() == 4 && "current_logfiles"@.len() == 16
        && "global"@.len() == 6 && "pg_commit_ts"@.len() == 12 && "pg_dynshmem"@.len() == 11
        && "pg_logical"@.len() == 10 && "pg_multixact"@.len() == 12 && "pg_notify"@.len() == 9
        && "pg_replslot"@.len() == 11 && "pg_serial"@.len() == 9 && "pg_snapshots"@.len() == 12
        && "pg_stat"@.len() == 7 && "pg_stat_tmp"@.len() == 11 && "pg_subtrans"@.len() == 11
        && "pg_tblspc"@.len() == 9 && "pg_twophase"@.len() == 11 && "pg_wal"@.len() == 6
        && "pg_xact"@.len() == 7 && "postgresql.conf"@.len() == 15
        && "postgresql.auto.conf"@.len() == 20 && "postmaster.opts"@.len() == 15
        && "postmaster.pid"@.len() == 14 && "pg_hba.conf"@.len() == 11
        && "pg_ident.conf"@.len() == 13);
    assert("global"@[0] == 'g' && "pg_wal"@[0] == 'p');
    assert("pg_stat"@[3] == 's' && "pg_xact"@[3] == 'x');
    assert("pg_notify"@[3] == 'n' && "pg_serial"@[3] == 's' && "pg_tblspc"@[3] == 't');
    assert("PG_VERSION"@[0] == 'P' && "pg_logical"@[0] == 'p');
    assert("pg_dynshmem"@[3] == 'd' && "pg_stat_tmp"@[3] == 's' && "pg_subtrans"@[3] == 's'
        && "pg_twophase"@[3] == 't' && "pg_hba.conf"@[3] == 'h' && "pg_replslot"@[3] == 'r');
    assert("pg_stat_tmp"@[4] == 't' && "pg_subtrans"@[4] == 'u');
    assert("pg_commit_ts"@[3] == 'c' && "pg_multixact"@[3] == 'm' && "pg_snapshots"@[3] == 's');
    assert("postgresql.conf"@[4] == 'g' && "postmaster.opts"@[4] == 'm');
    assert forall|i1: int, i2: int| 0 <= i1 < i2 < cat.len() implies entry_key(
        (#[trigger] cat[i1]).entry,
    ) != entry_key((#[trigger] cat[i2]).entry) && cat[i1].tag != cat[i2].tag by {
        assert(spec_tag_index(spec_catalog_tag(i1)) == i1);
        assert(spec_tag_index(spec_catalog_tag(i2)) == i2);
        assert(cat[i1].tag != cat[i2].tag);
        assert(spec_known_name(cat[i1].tag) != spec_known_name(cat[i2].tag));
    }
}

fn known_item(entry: DirEntry, tag: KnownPGDataItem, description: &str) -> (r: KnownItem)
    ensures
        r.entry == entry,
        r.tag == tag,
        r.description@ == description@,
{
    KnownItem { entry, tag, description: String::from_str(description) }
}

/// The static catalog of every structurally-expected top-level PGDATA
/// entry: canonical name and kind, tag, and human description.
pub fn known_items() -> (r: Vec<KnownItem>)
    ensures
        catalog_well_formed(r@),
{
    let mut items: Vec<KnownItem> = Vec::new();
    items.push(known_item(base::dir_entry(), KnownPGDataItem::Base,
        "Per-database directories"));
    items.push(known_item(current_logfiles::dir_entry(), KnownPGDataItem::CurrentLogFiles,
        "File recording the log file(s) currently written to by the logging collector"));
    items.push(known_item(global::dir_entry(), KnownPGDataItem::Global,
        "Subdirectory containing cluster-wide tables, such as pg_database"));
    items.push(known_item(pg_commit_ts::dir_entry(), KnownPGDataItem::PGCommitTS,
        "Transaction commit timestamp data"));
    items.push(known_item(pg_dynshmem::dir_entry(), KnownPGDataItem::PGDynshmem,
        "Files used by the dynamic shared memory subsystem"));
    items.push(known_item(pg_logical::dir_entry(), KnownPGDataItem::PGLogical,
        "Status data for logical decoding"));
    items.push(known_item(pg_multiexact::dir_entry(), KnownPGDataItem::PGMultixact,
        "Multitransaction status data (used for shared row locks)"));
    items.push(known_item(pg_notify::dir_entry(), KnownPGDataItem::PGNotify,
        "LISTEN/NOTIFY status data"));
    items.push(known_item(pg_replslot::dir_entry(), KnownPGDataItem::PGReplslot,
        "Replication slot data"));
    items.push(known_item(pg_serial::dir_entry(), KnownPGDataItem::PGSerial,
        "Information about committed serializable transactions"));
    items.push(known_item(pg_snapshots::dir_entry(), KnownPGDataItem::PGSnapshots,
        "Exported snapshots"));
    items.push(known_item(pg_stat::dir_entry(), KnownPGDataItem::PGStat,
        "Permanent files for the statistics subsystem"));
    items.push(known_item(pg_stat_tmp::dir_entry(), KnownPGDataItem::PGStatTmp,
        "Temporary files for the statistics subsystem"));
    items.push(known_item(pg_subtrans::dir_entry(), KnownPGDataItem::PGSubtrans,
        "Subtransaction status data"));
    items.push(known_item(pg_tblspc::dir_entry(), KnownPGDataItem::PGTblspc,
        "Symbolic links to tablespaces"));
    items.push(known_item(pg_twophase::dir_entry(), KnownPGDataItem::PGTwophase,
        "State files for prepared transactions"));
    items.push(known_item(pg_version::dir_entry(), KnownPGDataItem::PGVersion,
        "Major version number of PostgreSQL"));
    items.push(known_item(pg_wal::dir_entry(), KnownPGDataItem::PGWal,
        "WAL (Write Ahead Log) files"));
    items.push(known_item(pg_xact::dir_entry(), KnownPGDataItem::PGXact,
        "Transaction commit status data"));
    items.push(known_item(postgresql_conf::dir_entry(), KnownPGDataItem::PostgresqlConf,
        "A file used for storing configuration parameters that are set manually by system administrator"));
    items.push(known_item(postgresql_auto_conf::dir_entry(),
        KnownPGDataItem::PostgresqlAutoConf,
        "A file used for storing configuration parameters that are set by ALTER SYSTEM"));
    items.push(known_item(postmaster_opts::dir_entry(), KnownPGDataItem::PostmasterOpts,
        "A file recording the command-line options the server was last started with"));
    items.push(known_item(postmaster_pid::dir_entry(), KnownPGDataItem::PostmasterPid,
        "A lock file recording the current postmaster process ID (PID) and other running server data"));
    items.push(known_item(pg_hba_conf::dir_entry(), KnownPGDataItem::PGHbaConf,
        "Client authentication configuration file"));
    items.push(known_item(pg_ident_conf::dir_entry(), KnownPGDataItem::PGIdentConf,
        "User name mappings for external authentication system"));
    items
}

} // verus!
