//! Contents of one per-database directory under `base/`: the fork-segment
//! filename grammar and the per-entry classifier for such a directory.
//!
//! The grammar, exactly and case-sensitively, is
//! `<oid>[_fsm|_vm][.<segment>]`: 1 to 10 ASCII digits naming a relation
//! identifier that must fit an unsigned 32-bit integer, an optional fork
//! suffix, and an optional segment number that must fit an unsigned 16-bit
//! integer and defaults to 0 when absent. An empty segment part (`"12345."`)
//! is accepted as segment 0; that acceptance is deliberate. Anything else —
//! trailing text, an unknown suffix, a non-numeric segment — is no match.

use vstd::prelude::*;

use crate::common::{digits_value, is_digit_char, str_eq, Error, PgOid};
use crate::common::fs::{DirEntry, RawEntry};

verus! {

/// Which per-relation file a name denotes: the main data file, its free
/// space map, or its visibility map.
#[derive(Debug, PartialEq, Eq, Structural, Clone, Copy)]
pub enum ForkType {
    Main,
    FreeSpaceMap,
    VisibilityMap,
}

/// A relation file name decomposed by the fork-segment grammar.
#[derive(Debug, PartialEq, Eq, Structural, Clone, Copy)]
pub struct ForkSegmentFile {
    pub fork_type: ForkType,
    pub oid: PgOid,
    pub segment_id: u16,
}

/// Length of the longest all-digit prefix of `s`.
pub open spec fn digit_run(s: Seq<char>) -> nat
    decreases s.len(),
{
    if s.len() > 0 && is_digit_char(s[0]) {
        (1 + digit_run(s.drop_first())) as nat
    } else {
        0
    }
}

proof fn lemma_digit_run_is(s: Seq<char>, k: int)
    requires
        0 <= k <= s.len(),
        forall|i: int| 0 <= i < k ==> is_digit_char(s[i]),
        k == s.len() || !is_digit_char(s[k]),
    ensures
        digit_run(s) == k,
    decreases k,
{
    if k == 0 {
    } else {
        lemma_digit_run_is(s.drop_first(), k - 1);
    }
}

/// The optional trailing segment part of the grammar, applied to whatever
/// follows the object identifier and the fork suffix: nothing, or a dot
/// followed by any run of digits (possibly empty) whose value fits an
/// unsigned 16-bit integer.
pub open spec fn spec_segment_part(oid: PgOid, fork_type: ForkType, t: Seq<char>) -> Option<
    ForkSegmentFile,
> {
    if t.len() == 0 {
        Some(ForkSegmentFile { fork_type, oid, segment_id: 0 })
    } else if t[0] == '.' && (forall|i: int| 1 <= i < t.len() ==> is_digit_char(t[i]))
        && digits_value(t.skip(1)) <= u16::MAX {
        Some(ForkSegmentFile { fork_type, oid, segment_id: digits_value(t.skip(1)) as u16 })
    } else {
        None
    }
}

/// The whole fork-segment grammar on a file name. The digit run naming the
/// object identifier is necessarily maximal: a successful match can never be
/// followed by a digit, so no shorter split of the name can succeed.
pub open spec fn spec_parse_fork_segment(s: Seq<char>) -> Option<ForkSegmentFile> {
    let k = digit_run(s) as int;
    if k == 0 || k > 10 || digits_value(s.take(k)) > u32::MAX {
        None
    } else {
        let oid = PgOid(digits_value(s.take(k)) as u32);
        let rest = s.skip(k);
        if rest.len() >= 4 && rest[0] == '_' && rest[1] == 'f' && rest[2] == 's' && rest[3]
            == 'm' {
            spec_segment_part(oid, ForkType::FreeSpaceMap, rest.skip(4))
        } else if rest.len() >= 3 && rest[0] == '_' && rest[1] == 'v' && rest[2] == 'm' {
            spec_segment_part(oid, ForkType::VisibilityMap, rest.skip(3))
        } else {
            spec_segment_part(oid, ForkType::Main, rest)
        }
    }
}

/// The canonical file name of a fork-segment description: digits of the
/// object identifier, then the fork suffix, then — for segments other than
/// 0 — a dot and the digits of the segment number.
pub open spec fn spec_fork_segment_name(f: ForkSegmentFile) -> Seq<char> {
    crate::common::spec_dec_digits(f.oid.0 as nat) + (match f.fork_type {
        ForkType::Main => Seq::<char>::empty(),
        ForkType::FreeSpaceMap => seq!['_', 'f', 's', 'm'],
        ForkType::VisibilityMap => seq!['_', 'v', 'm'],
    }) + (if f.segment_id == 0 {
        Seq::<char>::empty()
    } else {
        seq!['.'] + crate::common::spec_dec_digits(f.segment_id as nat)
    })
}

/// Parsing the canonical file name of any fork-segment description yields
/// that description back: the grammar loses nothing. (The canonical name is
/// the one with no segment suffix for segment 0; a non-canonical spelling of
/// the same description parses to the same identifier, fork and segment.)
pub proof fn lemma_fork_segment_round_trip(f: ForkSegmentFile)
    ensures
        spec_parse_fork_segment(spec_fork_segment_name(f)) == Some(f),
{
    let name = spec_fork_segment_name(f);
    let d = crate::common::spec_dec_digits(f.oid.0 as nat);
    let suffix = match f.fork_type {
        ForkType::Main => Seq::<char>::empty(),
        ForkType::FreeSpaceMap => seq!['_', 'f', 's', 'm'],
        ForkType::VisibilityMap => seq!['_', 'v', 'm'],
    };
    let seg = if f.segment_id == 0 {
        Seq::<char>::empty()
    } else {
        seq!['.'] + crate::common::spec_dec_digits(f.segment_id as nat)
    };
    crate::common::lemma_dec_digits_value(f.oid.0 as nat);
    crate::common::lemma_dec_digits_value(f.segment_id as nat);
    assert(crate::common::pow10(10) == 10_000_000_000) by {
        reveal_with_fuel(crate::common::pow10, 11);
    }
    crate::common::lemma_dec_digits_len(f.oid.0 as nat, 10);
    let k = d.len() as int;
    assert(forall|i: int| 0 <= i < k ==> name[i] == d[i]);
    assert(k == name.len() || !is_digit_char(name[k]));
    lemma_digit_run_is(name, k);
    assert(name.take(k) =~= d);
    let rest = name.skip(k);
    assert(rest =~= suffix + seg);
    match f.fork_type {
        ForkType::Main => {
            assert(rest =~= seg);
        },
        ForkType::FreeSpaceMap => {
            assert(rest.skip(4) =~= seg);
        },
        ForkType::VisibilityMap => {
            assert(rest.skip(3) =~= seg);
        },
    }
    if f.segment_id != 0 {
        assert(seg.skip(1) =~= crate::common::spec_dec_digits(f.segment_id as nat));
    }
}

impl ForkType {
    /// Reads the optional fork suffix of the grammar: an absent suffix is the
    /// main fork, `fsm` the free space map, `vm` the visibility map, and any
    /// other text no fork at all.
    pub fn try_parse(s: Option<&str>) -> (r: Option<ForkType>)
        ensures
            r == match s {
                None => Some(ForkType::Main),
                Some(x) => if x@ == "fsm"@ {
                    Some(ForkType::FreeSpaceMap)
                } else if x@ == "vm"@ {
                    Some(ForkType::VisibilityMap)
                } else {
                    None::<ForkType>
                },
            },
    {
        match s {
            None => Some(ForkType::Main),
            Some(x) => if str_eq(x, "fsm") {
                Some(ForkType::FreeSpaceMap)
            } else if str_eq(x, "vm") {
                Some(ForkType::VisibilityMap)
            } else {
                None
            },
        }
    }
}

impl ForkSegmentFile {
    /// Decomposes a file name by the fork-segment grammar; `None` when the
    /// name does not conform to it.
    pub fn try_parse(file_name: &str) -> (r: Option<ForkSegmentFile>)
        ensures
            r == spec_parse_fork_segment(file_name@),
    {
        let n = file_name.unicode_len();
        let mut k: usize = 0;
        loop
            invariant
                0 <= k <= n,
                n == file_name@.len(),
                forall|i: int| 0 <= i < k ==> is_digit_char(file_name@[i]),
            ensures
                0 <= k <= n,
                forall|i: int| 0 <= i < k ==> is_digit_char(file_name@[i]),
                k == n || !is_digit_char(file_name@[k as int]),
            decreases n - k,
        {
            if k >= n {
                break;
            }
            let c = file_name.get_char(k);
            if !('0' <= c && c <= '9') {
                break;
            }
            k = k + 1;
        }
        proof {
            lemma_digit_run_is(file_name@, k as int);
        }
        if k == 0 || k > 10 {
            return None;
        }
        let oid = match crate::common::scan_decimal_capped(file_name, 0, k, 0xFFFF_FFFF) {
            Some(v) => PgOid(v as u32),
            None => {
                return None;
            },
        };
        let ghost rest = file_name@.skip(k as int);
        proof {
            assert(file_name@.take(k as int) =~= file_name@.subrange(0, k as int));
            assert forall|j: int| 0 <= j < rest.len() implies rest[j] == file_name@[k + j] by {}
        }
        let mut pos = k;
        let fork_type: ForkType;
        if k + 4 <= n && file_name.get_char(k) == '_' && file_name.get_char(k + 1) == 'f'
            && file_name.get_char(k + 2) == 's' && file_name.get_char(k + 3) == 'm' {
            fork_type = ForkType::FreeSpaceMap;
            pos = k + 4;
        } else if k + 3 <= n && file_name.get_char(k) == '_' && file_name.get_char(k + 1) == 'v'
            && file_name.get_char(k + 2) == 'm' {
            fork_type = ForkType::VisibilityMap;
            pos = k + 3;
        } else {
            fork_type = ForkType::Main;
        }
        let ghost tail = file_name@.skip(pos as int);
        proof {
            assert(tail =~= rest.skip(pos - k));
            assert forall|j: int| 0 <= j < tail.len() implies tail[j] == file_name@[pos + j] by {}
        }
        if pos == n {
            return Some(ForkSegmentFile { fork_type, oid, segment_id: 0 });
        }
        if file_name.get_char(pos) != '.' {
            return None;
        }
        proof {
            assert(tail.skip(1) =~= file_name@.subrange(pos + 1, n as int));
        }
        match crate::common::scan_decimal_capped(file_name, pos + 1, n, 0xFFFF) {
            Some(v) => Some(ForkSegmentFile { fork_type, oid, segment_id: v as u16 }),
            None => {
                proof {
                    if forall|i: int| 1 <= i < tail.len() ==> is_digit_char(tail[i]) {
                        assert forall|i: int| pos + 1 <= i < n implies is_digit_char(
                            file_name@[i],
                        ) by {
                            assert(file_name@[i] == tail[i - pos]);
                        }
                    }
                }
                None
            },
        }
    }

    /// Assembles a fork-segment description from its parts.
    pub fn create(oid: PgOid, fork_type: ForkType, segment_id: u16) -> (r: ForkSegmentFile)
        ensures
            r == (ForkSegmentFile { fork_type, oid, segment_id }),
    {
        ForkSegmentFile { fork_type, oid, segment_id }
    }

    /// Canonical file name for a fork-segment description: decimal object
    /// identifier, fork suffix if any, and a segment suffix only for a
    /// segment other than 0.
    pub fn file_name(&self) -> (r: String)
        ensures
            r@ == spec_fork_segment_name(*self),
    {
        let mut out = crate::common::u32_to_decimal(self.oid.0);
        match self.fork_type {
            ForkType::Main => {},
            ForkType::FreeSpaceMap => {
                proof {
                    reveal_strlit("_fsm");
                    assert("_fsm"@ =~= seq!['_', 'f', 's', 'm']);
                }
                out.append("_fsm");
            },
            ForkType::VisibilityMap => {
                proof {
                    reveal_strlit("_vm");
                    assert("_vm"@ =~= seq!['_', 'v', 'm']);
                }
                out.append("_vm");
            },
        }
        if self.segment_id != 0 {
            proof {
                reveal_strlit(".");
                assert("."@ =~= seq!['.']);
            }
            out.append(".");
            crate::common::push_decimal(self.segment_id as u32, &mut out);
        }
        proof {
            assert(out@ =~= spec_fork_segment_name(*self));
        }
        out
    }

    /// The relation identifier named by the file.
    pub fn oid(&self) -> (r: PgOid)
        ensures
            r == self.oid,
    {
        self.oid
    }

    /// The fork the file belongs to.
    pub fn fork_type(&self) -> (r: ForkType)
        ensures
            r == self.fork_type,
    {
        self.fork_type
    }

    /// The file's segment number.
    pub fn segment_id(&self) -> (r: u16)
        ensures
            r == self.segment_id,
    {
        self.segment_id
    }
}

/// One classified entry of a per-database directory: a relation fork
/// segment, the file-node map, the version file, an entry none of the
/// grammar recognises, or a per-entry failure captured as data.
#[derive(Debug)]
pub enum DbDirItem {
    ForkSegmentFile(ForkSegmentFile),
    FileNodeMapFile,
    PgVersionFile,
    UnknownEntry(DirEntry),
    Error(Error),
}

/// When two per-database items carry the same information. Two errors count
/// as the same item when their messages agree.
pub open spec fn db_dir_item_eq(a: DbDirItem, b: DbDirItem) -> bool {
    match (a, b) {
        (DbDirItem::ForkSegmentFile(f1), DbDirItem::ForkSegmentFile(f2)) => f1 == f2,
        (DbDirItem::FileNodeMapFile, DbDirItem::FileNodeMapFile) => true,
        (DbDirItem::PgVersionFile, DbDirItem::PgVersionFile) => true,
        (DbDirItem::UnknownEntry(e1), DbDirItem::UnknownEntry(e2)) => e1.name@ == e2.name@
            && e1.entry_type == e2.entry_type,
        (DbDirItem::Error(e1), DbDirItem::Error(e2)) => e1@ == e2@,
        _ => false,
    }
}

impl PartialEq for DbDirItem {
    fn eq(&self, other: &Self) -> (r: bool) {
        match (self, other) {
            (DbDirItem::ForkSegmentFile(f1), DbDirItem::ForkSegmentFile(f2)) => f1 == f2,
            (DbDirItem::FileNodeMapFile, DbDirItem::FileNodeMapFile) => true,
            (DbDirItem::PgVersionFile, DbDirItem::PgVersionFile) => true,
            (DbDirItem::UnknownEntry(e1), DbDirItem::UnknownEntry(e2)) => e1 == e2,
            (DbDirItem::Error(e1), DbDirItem::Error(e2)) => e1 == e2,
            _ => false,
        }
    }
}

impl vstd::std_specs::cmp::PartialEqSpecImpl for DbDirItem {
    open spec fn obeys_eq_spec() -> bool {
        true
    }

    open spec fn eq_spec(&self, other: &Self) -> bool {
        db_dir_item_eq(*self, *other)
    }
}

/// How one raw entry of a per-database directory classifies. Names are
/// tried against the fork-segment grammar first, then the two fixed file
/// names; the entry's kind is consulted — fallibly — only for entries that
/// remain unknown.
pub open spec fn db_dir_item_for(raw: RawEntry, r: DbDirItem) -> bool {
    if spec_parse_fork_segment(raw.name@) is Some {
        r == DbDirItem::ForkSegmentFile(spec_parse_fork_segment(raw.name@)->0)
    } else if raw.name@ == "pg_filenode.map"@ {
        r == DbDirItem::FileNodeMapFile
    } else if raw.name@ == "PG_VERSION"@ {
        r == DbDirItem::PgVersionFile
    } else {
        match raw.kind {
            Ok(kind) => r matches DbDirItem::UnknownEntry(e) && e.name@ == raw.name@
                && e.entry_type == kind,
            Err(m) => r matches DbDirItem::Error(err) && err@ == m@,
        }
    }
}

impl DbDirItem {
    /// A name that the fork-segment grammar recognises, as an item.
    pub fn fork_segment_file(dir_entry_name: &str) -> (r: Option<DbDirItem>)
        ensures
            match spec_parse_fork_segment(dir_entry_name@) {
                Some(f) => r == Some(DbDirItem::ForkSegmentFile(f)),
                None => r is None,
            },
    {
        match ForkSegmentFile::try_parse(dir_entry_name) {
            Some(f) => Some(DbDirItem::ForkSegmentFile(f)),
            None => None,
        }
    }

    /// The file-node map, recognised by its fixed name.
    pub fn file_node_map_file(dir_entry_name: &str) -> (r: Option<DbDirItem>)
        ensures
            r == if dir_entry_name@ == "pg_filenode.map"@ {
                Some(DbDirItem::FileNodeMapFile)
            } else {
                None::<DbDirItem>
            },
    {
        if str_eq(dir_entry_name, "pg_filenode.map") {
            Some(DbDirItem::FileNodeMapFile)
        } else {
            None
        }
    }

    /// The version file, recognised by its fixed name.
    pub fn pg_version_file(dir_entry_name: &str) -> (r: Option<DbDirItem>)
        ensures
            r == if dir_entry_name@ == "PG_VERSION"@ {
                Some(DbDirItem::PgVersionFile)
            } else {
                None::<DbDirItem>
            },
    {
        if str_eq(dir_entry_name, "PG_VERSION") {
            Some(DbDirItem::PgVersionFile)
        } else {
            None
        }
    }

    /// Classifies one raw entry of a per-database directory.
    pub fn from_dir_entry(raw: &RawEntry) -> (r: DbDirItem)
        ensures
            db_dir_item_for(*raw, r),
    {
        match DbDirItem::fork_segment_file(raw.name.as_str()) {
            Some(item) => item,
            None => match DbDirItem::file_node_map_file(raw.name.as_str()) {
                Some(item) => item,
                None => match DbDirItem::pg_version_file(raw.name.as_str()) {
                    Some(item) => item,
                    None => match &raw.kind {
                        Ok(kind) => DbDirItem::UnknownEntry(
                            DirEntry { name: raw.name.clone(), entry_type: *kind },
                        ),
                        Err(e) => DbDirItem::Error(e.clone()),
                    },
                },
            },
        }
    }
}

/// Classifies a listing of a per-database directory, entry by entry:
/// exactly one item per raw entry, each classified independently, so that
/// one failed entry never disturbs its siblings.
pub fn classify_db_dir(entries: &Vec<RawEntry>) -> (r: Vec<DbDirItem>)
    ensures
        r@.len() == entries@.len(),
        forall|i: int|
            0 <= i < entries@.len() ==> db_dir_item_for(#[trigger] entries@[i], #[trigger] r@[i]),
{
    let mut items: Vec<DbDirItem> = Vec::new();
    let mut i: usize = 0;
    while i < entries.len()
        invariant
            0 <= i <= entries@.len(),
            items@.len() == i,
            forall|k: int|
                0 <= k < i ==> db_dir_item_for(#[trigger] entries@[k], #[trigger] items@[k]),
        decreases entries@.len() - i,
    {
        let item = DbDirItem::from_dir_entry(&entries[i]);
        items.push(item);
        i = i + 1;
    }
    items
}

} // verus!
