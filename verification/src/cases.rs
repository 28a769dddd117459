//! Case discovery: finding marker files among filesystem entries, deriving
//! case names from paths, and returning the cases sorted by name.
//!
//! The filesystem walk itself is I/O and lives outside this library; it hands
//! in one `FsEntry` per visited entry. Everything from marker matching to the
//! sorted result is specified and verified here.

use vstd::prelude::*;
use vstd::utf8::{valid_utf8, decode_utf8, encode_utf8};
use crate::order::{bytes_le, bytes_le_exec, lemma_bytes_le_total, lemma_bytes_le_trans};
use crate::text::{string_from_utf8, copy_bytes};
use crate::errors::HarnessError;
use vstd::string::StrSliceExecFns;

verus! {

/// One discoverable unit of work: a directory holding the marker file.
#[derive(Debug)]
pub struct TestCase {
    /// Name derived from the case's path relative to the scan root, with
    /// separators replaced by the canonical delimiter.
    pub name: String,
    /// Location of the directory that holds the marker file.
    pub path: String,
}

/// The mathematical value of a `TestCase`.
#[verifier::ext_equal]
pub struct CaseView {
    pub name: Seq<char>,
    pub path: Seq<char>,
}

impl View for TestCase {
    type V = CaseView;

    open spec fn view(&self) -> CaseView {
        CaseView { name: self.name@, path: self.path@ }
    }
}

/// One filesystem entry seen during a walk: the entry's file name, and the
/// path of the directory containing the entry, both as raw path bytes.
#[derive(Debug)]
pub struct FsEntry {
    pub file_name: Vec<u8>,
    pub parent: Vec<u8>,
}

/// The mathematical value of an `FsEntry`.
#[verifier::ext_equal]
pub struct EntryView {
    pub file_name: Seq<u8>,
    pub parent: Seq<u8>,
}

impl View for FsEntry {
    type V = EntryView;

    open spec fn view(&self) -> EntryView {
        EntryView { file_name: self.file_name@, parent: self.parent@ }
    }
}

/// The views of a sequence of cases.
pub open spec fn case_views(s: Seq<TestCase>) -> Seq<CaseView> {
    s.map_values(|c: TestCase| c@)
}

/// The views of a sequence of entries.
pub open spec fn entry_views(s: Seq<FsEntry>) -> Seq<EntryView> {
    s.map_values(|e: FsEntry| e@)
}

/// The fixed marker file name whose presence makes a directory a case root.
pub open spec fn marker_bytes() -> Seq<u8> {
    encode_utf8("Anchor.toml"@)
}

/// An entry is a case marker when its file name equals the marker name.
pub open spec fn is_case_entry(e: EntryView) -> bool {
    e.file_name == marker_bytes()
}

/// The canonical delimiter that replaces path separators in case names:
/// the byte of `'-'`.
pub open spec fn delimiter() -> u8 {
    45u8
}

/// The directory lies under the scan root: it is the root itself, or the
/// root followed by a separator byte.
pub open spec fn rooted(dir: Seq<u8>, root: Seq<u8>, sep: u8) -> bool {
    dir == root || (dir.len() > root.len() && dir.subrange(0, root.len() as int) == root
        && dir[root.len() as int] == sep)
}

/// The path relative to the root: what follows the root and its separator.
pub open spec fn rel_part(dir: Seq<u8>, root: Seq<u8>) -> Seq<u8> {
    if dir.len() <= root.len() {
        Seq::empty()
    } else {
        dir.subrange(root.len() as int + 1, dir.len() as int)
    }
}

/// Every separator byte replaced by the canonical delimiter.
pub open spec fn replace_sep(s: Seq<u8>, sep: u8) -> Seq<u8> {
    s.map(|i: int, b: u8| if b == sep { delimiter() } else { b })
}

/// The bytes of the name derived for a case directory.
pub open spec fn name_bytes_of(dir: Seq<u8>, root: Seq<u8>, sep: u8) -> Seq<u8> {
    replace_sep(rel_part(dir, root), sep)
}

/// A marker entry that discovery accepts: under the root, and with a name
/// and a directory path that are representable as text.
pub open spec fn entry_ok(e: EntryView, root: Seq<u8>, sep: u8) -> bool {
    rooted(e.parent, root, sep) && valid_utf8(name_bytes_of(e.parent, root, sep))
        && valid_utf8(e.parent)
}

/// The case discovered from an accepted marker entry.
pub open spec fn case_of(e: EntryView, root: Seq<u8>, sep: u8) -> CaseView {
    CaseView {
        name: decode_utf8(name_bytes_of(e.parent, root, sep)),
        path: decode_utf8(e.parent),
    }
}

/// All marker entries are acceptable.
pub open spec fn entries_ok(entries: Seq<EntryView>, root: Seq<u8>, sep: u8) -> bool {
    forall|i: int|
        0 <= i < entries.len() && is_case_entry(#[trigger] entries[i]) ==> entry_ok(
            entries[i],
            root,
            sep,
        )
}

/// The cases of the marker entries, in the order the entries were seen.
pub open spec fn raw_cases(entries: Seq<EntryView>, root: Seq<u8>, sep: u8) -> Seq<CaseView>
    decreases entries.len(),
{
    if entries.len() == 0 {
        Seq::empty()
    } else {
        raw_cases(entries.drop_last(), root, sep) + if is_case_entry(entries.last()) {
            seq![case_of(entries.last(), root, sep)]
        } else {
            Seq::empty()
        }
    }
}

/// Case order: byte-lexicographic order of the names.
pub open spec fn case_le(a: CaseView, b: CaseView) -> bool {
    bytes_le(encode_utf8(a.name), encode_utf8(b.name))
}

/// Names are non-decreasing along the sequence.
pub open spec fn sorted_cases(s: Seq<CaseView>) -> bool {
    forall|i: int, j: int| 0 <= i < j < s.len() ==> case_le(#[trigger] s[i], #[trigger] s[j])
}

/// `x` placed after every earlier element that is less than or equal to it.
pub open spec fn insert_sorted(x: CaseView, s: Seq<CaseView>) -> Seq<CaseView>
    decreases s.len(),
{
    if s.len() == 0 {
        seq![x]
    } else if case_le(s[0], x) {
        seq![s[0]] + insert_sorted(x, s.drop_first())
    } else {
        seq![x] + s
    }
}

/// Stable insertion sort of the discovered cases by name.
pub open spec fn sort_cases(s: Seq<CaseView>) -> Seq<CaseView>
    decreases s.len(),
{
    if s.len() == 0 {
        Seq::empty()
    } else {
        insert_sorted(s.last(), sort_cases(s.drop_last()))
    }
}

/// What discovery returns for the given entries: the marker entries' cases,
/// sorted by name.
pub open spec fn discovered(entries: Seq<EntryView>, root: Seq<u8>, sep: u8) -> Seq<CaseView> {
    sort_cases(raw_cases(entries, root, sep))
}

/// The first marker entry, if any, that discovery rejects.
pub open spec fn first_bad_entry(entries: Seq<EntryView>, root: Seq<u8>, sep: u8, j: int) -> bool {
    0 <= j < entries.len() && is_case_entry(entries[j]) && !entry_ok(entries[j], root, sep)
        && forall|k: int|
        0 <= k < j && is_case_entry(#[trigger] entries[k]) ==> entry_ok(entries[k], root, sep)
}

/// Inserting keeps every element: each one is the inserted value or was
/// already present.
proof fn lemma_insert_sorted_elems(x: CaseView, s: Seq<CaseView>)
    ensures
        insert_sorted(x, s).len() == s.len() + 1,
        forall|k: int|
            0 <= k < insert_sorted(x, s).len() ==> (#[trigger] insert_sorted(x, s)[k] == x
                || s.contains(insert_sorted(x, s)[k])),
    decreases s.len(),
{
    let r = insert_sorted(x, s);
    if s.len() == 0 {
    } else if case_le(s[0], x) {
        let s1 = s.drop_first();
        lemma_insert_sorted_elems(x, s1);
        let r1 = insert_sorted(x, s1);
        assert forall|k: int| 0 <= k < r.len() implies (#[trigger] r[k] == x || s.contains(
            r[k],
        )) by {
            if k == 0 {
                assert(r[0] == s[0]);
                assert(s.contains(s[0]));
            } else {
                assert(r[k] == r1[k - 1]);
                if r1[k - 1] == x {
                } else {
                    let i = choose|i: int| 0 <= i < s1.len() && s1[i] == r1[k - 1];
                    assert(s[i + 1] == s1[i]);
                    assert(s.contains(s[i + 1]));
                }
            }
        }
    } else {
        assert forall|k: int| 0 <= k < r.len() implies (#[trigger] r[k] == x || s.contains(
            r[k],
        )) by {
            if k > 0 {
                assert(r[k] == s[k - 1]);
                assert(s.contains(s[k - 1]));
            }
        }
    }
}

/// Inserting into a sorted sequence keeps it sorted.
proof fn lemma_insert_sorted_sorted(x: CaseView, s: Seq<CaseView>)
    requires
        sorted_cases(s),
    ensures
        sorted_cases(insert_sorted(x, s)),
    decreases s.len(),
{
    let r = insert_sorted(x, s);
    if s.len() == 0 {
    } else if case_le(s[0], x) {
        let s1 = s.drop_first();
        assert(sorted_cases(s1)) by {
            assert forall|i: int, j: int| 0 <= i < j < s1.len() implies case_le(
                #[trigger] s1[i],
                #[trigger] s1[j],
            ) by {
                assert(s1[i] == s[i + 1]);
                assert(s1[j] == s[j + 1]);
            }
        }
        lemma_insert_sorted_sorted(x, s1);
        lemma_insert_sorted_elems(x, s1);
        let r1 = insert_sorted(x, s1);
        assert forall|i: int, j: int| 0 <= i < j < r.len() implies case_le(
            #[trigger] r[i],
            #[trigger] r[j],
        ) by {
            if i == 0 {
                assert(r[0] == s[0]);
                assert(r[j] == r1[j - 1]);
                if r1[j - 1] == x {
                } else {
                    let m = choose|m: int| 0 <= m < s1.len() && s1[m] == r1[j - 1];
                    assert(s1[m] == s[m + 1]);
                    assert(case_le(s[0], s[m + 1]));
                }
            } else {
                assert(r[i] == r1[i - 1]);
                assert(r[j] == r1[j - 1]);
            }
        }
    } else {
        lemma_bytes_le_total(encode_utf8(s[0].name), encode_utf8(x.name));
        assert forall|i: int, j: int| 0 <= i < j < r.len() implies case_le(
            #[trigger] r[i],
            #[trigger] r[j],
        ) by {
            if i == 0 {
                assert(r[0] == x);
                assert(r[j] == s[j - 1]);
                if j > 1 {
                    assert(case_le(s[0], s[j - 1]));
                    lemma_bytes_le_trans(
                        encode_utf8(x.name),
                        encode_utf8(s[0].name),
                        encode_utf8(s[j - 1].name),
                    );
                }
            } else {
                assert(r[i] == s[i - 1]);
                assert(r[j] == s[j - 1]);
            }
        }
    }
}

/// The insertion sort of any case sequence is sorted.
pub proof fn lemma_sort_cases_sorted(s: Seq<CaseView>)
    ensures
        sorted_cases(sort_cases(s)),
    decreases s.len(),
{
    if s.len() > 0 {
        lemma_sort_cases_sorted(s.drop_last());
        lemma_insert_sorted_sorted(s.last(), sort_cases(s.drop_last()));
    }
}

/// Where the scan of a sorted sequence stops is where the recursive insert
/// places the element.
proof fn lemma_insert_sorted_at(x: CaseView, s: Seq<CaseView>, j: int)
    requires
        0 <= j <= s.len(),
        forall|k: int| 0 <= k < j ==> case_le(#[trigger] s[k], x),
        j < s.len() ==> !case_le(s[j], x),
    ensures
        insert_sorted(x, s) =~= s.take(j) + seq![x] + s.skip(j),
    decreases j,
{
    if j == 0 {
        if s.len() > 0 {
            assert(!case_le(s[0], x));
        }
        assert(insert_sorted(x, s) =~= s.take(0) + seq![x] + s.skip(0));
    } else {
        let s1 = s.drop_first();
        assert(case_le(s[0], x));
        lemma_insert_sorted_at(x, s1, j - 1);
        assert(s1.take(j - 1) =~= s.subrange(1, j));
        assert(s1.skip(j - 1) =~= s.skip(j));
        assert(insert_sorted(x, s) =~= seq![s[0]] + insert_sorted(x, s1));
        assert(seq![s[0]] + (s1.take(j - 1) + seq![x] + s1.skip(j - 1)) =~= s.take(j) + seq![x]
            + s.skip(j));
    }
}

/// Compares two cases by name in byte-lexicographic order.
fn case_le_exec(a: &TestCase, b: &TestCase) -> (r: bool)
    ensures
        r == case_le(a@, b@),
{
    let ab = a.name.as_str().as_bytes_vec();
    let bb = b.name.as_str().as_bytes_vec();
    bytes_le_exec(&ab, &bb)
}

/// Sorts cases by name, stably, in byte-lexicographic order.
fn sort_by_name(cases: Vec<TestCase>) -> (r: Vec<TestCase>)
    ensures
        case_views(r@) == sort_cases(case_views(cases@)),
{
    let ghost orig: Seq<TestCase> = cases@;
    let mut rest = cases;
    let mut out: Vec<TestCase> = Vec::new();
    proof {
        assert(rest@ =~= orig.skip(0));
        assert(case_views(orig.take(0)) =~= Seq::<CaseView>::empty());
        assert(case_views(out@) =~= Seq::<CaseView>::empty());
    }
    while rest.len() > 0
        invariant
            rest@.len() <= orig.len(),
            rest@ == orig.skip(orig.len() - rest@.len()),
            case_views(out@) == sort_cases(case_views(orig.take(orig.len() - rest@.len()))),
        decreases rest@.len(),
    {
        let ghost done: int = orig.len() - rest@.len();
        let c = rest.remove(0);
        proof {
            assert(rest@ =~= orig.skip(done + 1));
            assert(c == orig[done]);
        }
        let mut j: usize = 0;
        while j < out.len() && case_le_exec(&out[j], &c)
            invariant
                j <= out@.len(),
                forall|k: int| 0 <= k < j ==> case_le(#[trigger] out@[k]@, c@),
            decreases out@.len() - j,
        {
            j = j + 1;
        }
        proof {
            assert forall|k: int| 0 <= k < j implies case_le(#[trigger] case_views(out@)[k], c@) by {
                assert(case_views(out@)[k] == out@[k]@);
            }
            lemma_insert_sorted_at(c@, case_views(out@), j as int);
        }
        let ghost before: Seq<TestCase> = out@;
        out.insert(j, c);
        proof {
            assert(out@ =~= before.take(j as int) + seq![c] + before.skip(j as int));
            assert(case_views(out@) =~= case_views(before).take(j as int) + seq![c@]
                + case_views(before).skip(j as int));
            let t = case_views(orig.take(done + 1));
            assert(orig.take(done + 1).drop_last() =~= orig.take(done));
            assert(t.drop_last() =~= case_views(orig.take(done)));
            assert(t.last() == c@);
            assert(sort_cases(t) == insert_sorted(c@, sort_cases(t.drop_last())));
            assert(case_views(out@) =~= insert_sorted(c@, case_views(before)));
        }
    }
    proof {
        assert(orig.take(orig.len() as int) =~= orig);
    }
    out
}

/// Checks whether a file name is the marker name.
fn is_marker(file_name: &Vec<u8>) -> (r: bool)
    ensures
        r == (file_name@ == marker_bytes()),
{
    let m: Vec<u8> = "Anchor.toml".as_bytes_vec();
    if file_name.len() != m.len() {
        return false;
    }
    let mut i: usize = 0;
    while i < m.len()
        invariant
            i <= m@.len(),
            file_name@.len() == m@.len(),
            m@ == marker_bytes(),
            forall|k: int| 0 <= k < i ==> file_name@[k] == m@[k],
        decreases m@.len() - i,
    {
        if file_name[i] != m[i] {
            return false;
        }
        i = i + 1;
    }
    proof {
        assert(file_name@ =~= m@);
    }
    true
}

/// Checks whether `a` begins with `p`.
fn has_prefix(a: &Vec<u8>, p: &Vec<u8>) -> (r: bool)
    ensures
        r == (a@.len() >= p@.len() && a@.subrange(0, p@.len() as int) == p@),
{
    if a.len() < p.len() {
        return false;
    }
    let mut i: usize = 0;
    while i < p.len()
        invariant
            i <= p@.len() <= a@.len(),
            forall|k: int| 0 <= k < i ==> a@[k] == p@[k],
        decreases p@.len() - i,
    {
        if a[i] != p[i] {
            proof {
                assert(a@.subrange(0, p@.len() as int)[i as int] == a@[i as int]);
            }
            return false;
        }
        i = i + 1;
    }
    proof {
        assert(a@.subrange(0, p@.len() as int) =~= p@);
    }
    true
}

/// Derives the case for a marker file's directory: checks that it lies under
/// the root, derives the name from the relative path, and decodes name and
/// path as text. `None` when any of that fails.
fn derive_case(root: &Vec<u8>, parent: &Vec<u8>, sep: u8) -> (r: Option<TestCase>)
    ensures
        r is Some <==> entry_ok(EntryView { file_name: marker_bytes(), parent: parent@ }, root@, sep),
        r is Some ==> r.unwrap()@ == case_of(
            EntryView { file_name: marker_bytes(), parent: parent@ },
            root@,
            sep,
        ),
{
    if !has_prefix(parent, root) {
        proof {
            if parent@ == root@ {
                assert(parent@.subrange(0, root@.len() as int) =~= root@);
            }
            assert(!rooted(parent@, root@, sep));
        }
        return None;
    }
    if parent.len() > root.len() {
        if parent[root.len()] != sep {
            proof {
                assert(parent@ != root@) by {
                    assert(parent@.len() != root@.len());
                }
                assert(!rooted(parent@, root@, sep));
            }
            return None;
        }
    } else {
        proof {
            assert(parent@.len() == root@.len());
            assert(parent@ =~= parent@.subrange(0, root@.len() as int));
            assert(parent@ == root@);
        }
    }
    proof {
        assert(rooted(parent@, root@, sep));
    }
    let start: usize = if parent.len() == root.len() {
        parent.len()
    } else {
        root.len() + 1
    };
    let ghost nbs = name_bytes_of(parent@, root@, sep);
    let mut nb: Vec<u8> = Vec::new();
    proof {
        assert(nbs.len() == parent@.len() - start);
        assert(nb@ =~= nbs.take(0));
    }
    let mut j: usize = start;
    while j < parent.len()
        invariant
            start <= j <= parent@.len(),
            start <= parent@.len(),
            nbs == name_bytes_of(parent@, root@, sep),
            nbs.len() == parent@.len() - start,
            forall|k: int| start <= k < parent@.len() ==> nbs[k - start] == (if parent@[k] == sep {
                delimiter()
            } else {
                parent@[k]
            }),
            nb@ == nbs.take(j - start),
        decreases parent@.len() - j,
    {
        let b = parent[j];
        if b == sep {
            nb.push(45);
        } else {
            nb.push(b);
        }
        proof {
            assert(nbs.take(j - start + 1) =~= nbs.take(j - start).push(nbs[j - start]));
        }
        j = j + 1;
    }
    proof {
        assert(nb@ =~= nbs);
    }
    let name = match string_from_utf8(nb) {
        Option::Some(s) => s,
        Option::None => {
            return None;
        },
    };
    let path = match string_from_utf8(copy_bytes(parent)) {
        Option::Some(s) => s,
        Option::None => {
            return None;
        },
    };
    Some(TestCase { name, path })
}

/// Discovers the cases among the given filesystem entries: every entry whose
/// file name is the marker contributes its directory, named by the path
/// relative to `root` with separator bytes replaced by the delimiter; the
/// result is sorted by name. Fails on the first marker entry whose directory
/// lies outside the root or is not representable as text.
pub fn discover(root: &Vec<u8>, entries: &Vec<FsEntry>, sep: u8) -> (r: Result<
    Vec<TestCase>,
    HarnessError,
>)
    ensures
        r is Ok <==> entries_ok(entry_views(entries@), root@, sep),
        r is Ok ==> case_views(r.unwrap()@) == discovered(entry_views(entries@), root@, sep),
        r is Ok ==> sorted_cases(case_views(r.unwrap()@)),
        r matches Err(e) ==> exists|j: int|
            #[trigger] first_bad_entry(entry_views(entries@), root@, sep, j) && (e matches
                HarnessError::Naming { path } && path@ == entry_views(entries@)[j].parent),
{
    let ghost ev = entry_views(entries@);
    let mut found: Vec<TestCase> = Vec::new();
    proof {
        assert(case_views(found@) =~= raw_cases(ev.take(0), root@, sep));
    }
    let mut idx: usize = 0;
    while idx < entries.len()
        invariant
            idx <= entries@.len(),
            ev == entry_views(entries@),
            ev.len() == entries@.len(),
            forall|k: int|
                0 <= k < idx && is_case_entry(#[trigger] ev[k]) ==> entry_ok(ev[k], root@, sep),
            case_views(found@) == raw_cases(ev.take(idx as int), root@, sep),
        decreases entries@.len() - idx,
    {
        let e = &entries[idx];
        proof {
            assert(ev[idx as int] == entries@[idx as int]@);
        }
        let ghost before: Seq<TestCase> = found@;
        if is_marker(&e.file_name) {
            match derive_case(root, &e.parent, sep) {
                Option::Some(tc) => {
                    proof {
                        assert(EntryView { file_name: marker_bytes(), parent: e.parent@ } =~= ev[idx as int]);
                    }
                    found.push(tc);
                    proof {
                        assert(case_views(found@) =~= case_views(before).push(tc@));
                        assert(seq![case_of(ev[idx as int], root@, sep)] =~= Seq::<
                            CaseView,
                        >::empty().push(tc@));
                    }
                },
                Option::None => {
                    proof {
                        assert(EntryView { file_name: marker_bytes(), parent: e.parent@ } =~= ev[idx as int]);
                        assert(first_bad_entry(ev, root@, sep, idx as int));
                    }
                    return Err(HarnessError::Naming { path: copy_bytes(&e.parent) });
                },
            }
        }
        proof {
            let t = ev.take(idx as int + 1);
            assert(t.drop_last() =~= ev.take(idx as int));
            assert(t.last() == ev[idx as int]);
            if is_case_entry(ev[idx as int]) {
            } else {
                assert(case_views(found@) =~= case_views(before));
                assert(raw_cases(t, root@, sep) =~= raw_cases(ev.take(idx as int), root@, sep));
            }
        }
        idx = idx + 1;
    }
    proof {
        assert(ev.take(entries@.len() as int) =~= ev);
    }
    let sorted = sort_by_name(found);
    proof {
        lemma_sort_cases_sorted(raw_cases(ev, root@, sep));
    }
    Ok(sorted)
}

/// Discovery is deterministic: two result sequences discovered from the same
/// entries, root and separator are identical — same members, same order.
pub proof fn lemma_discovery_deterministic(
    a: Seq<CaseView>,
    b: Seq<CaseView>,
    entries: Seq<EntryView>,
    root: Seq<u8>,
    sep: u8,
)
    requires
        a == discovered(entries, root, sep),
        b == discovered(entries, root, sep),
    ensures
        a == b,
{
}

/// Discovered case names are non-decreasing in byte-lexicographic order.
pub proof fn lemma_discovered_sorted(entries: Seq<EntryView>, root: Seq<u8>, sep: u8)
    ensures
        sorted_cases(discovered(entries, root, sep)),
{
    lemma_sort_cases_sorted(raw_cases(entries, root, sep));
}

/// For a marker file in `root/a/b`, the derived name is `a` and `b` joined
/// with the canonical delimiter, whatever separator byte the platform uses.
pub proof fn lemma_name_of_two_segments(root: Seq<u8>, a: Seq<u8>, b: Seq<u8>, sep: u8)
    requires
        forall|i: int| 0 <= i < a.len() ==> a[i] != sep,
        forall|i: int| 0 <= i < b.len() ==> b[i] != sep,
    ensures
        rooted(root + seq![sep] + a + seq![sep] + b, root, sep),
        name_bytes_of(root + seq![sep] + a + seq![sep] + b, root, sep) == a + seq![delimiter()]
            + b,
{
    let dir = root + seq![sep] + a + seq![sep] + b;
    assert(dir.subrange(0, root.len() as int) =~= root);
    assert(dir[root.len() as int] == sep);
    let rel = rel_part(dir, root);
    assert(rel =~= a + seq![sep] + b);
    assert(name_bytes_of(dir, root, sep) =~= a + seq![delimiter()] + b);
}

} // verus!
