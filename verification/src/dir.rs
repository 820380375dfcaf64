//! The directory-entry model: an ordered, name-keyed view of a directory's
//! children with a one-character kind tag, 'd' for a directory and 'f' for a
//! file.
//!
//! A fresh set holds exactly the reserved self and parent entries "." and
//! "..". Adding inserts or overwrites; removing an absent name is a no-op,
//! as directory consistency is enforced by the owning metadata server, not
//! by this model. Entries are kept sorted by name so that enumeration is a
//! restartable, ordered sequence: paging a listing across responses visits
//! every untouched position exactly once.

use vstd::prelude::*;
use vstd::string::StrSliceExecFns;

verus! {

/// Lexicographic order on character sequences, by code point.
pub open spec fn lex_lt(a: Seq<char>, b: Seq<char>) -> bool
    decreases a.len(),
{
    if b.len() == 0 {
        false
    } else if a.len() == 0 {
        true
    } else if a[0] != b[0] {
        (a[0] as u32) < (b[0] as u32)
    } else {
        lex_lt(a.skip(1), b.skip(1))
    }
}

/// The lexicographic order is a strict total order: of two sequences,
/// exactly one of "less", "greater" and "equal" holds.
pub proof fn lemma_lex_lt_trichotomy(a: Seq<char>, b: Seq<char>)
    ensures
        !(lex_lt(a, b) && lex_lt(b, a)),
        !lex_lt(a, b) && !lex_lt(b, a) ==> a =~= b,
        lex_lt(a, b) ==> a != b,
    decreases a.len(),
{
    if b.len() == 0 || a.len() == 0 {
        if !lex_lt(a, b) && !lex_lt(b, a) {
            assert(a.len() == 0 && b.len() == 0);
            assert(a =~= b);
        }
    } else if a[0] != b[0] {
        assert(a != b);
        if !lex_lt(a, b) && !lex_lt(b, a) {
            assert((a[0] as u32) == (b[0] as u32));
            vstd::utf8::char_u32_cast(a[0], a[0] as u32);
            vstd::utf8::char_u32_cast(b[0], b[0] as u32);
            assert(false);
        }
    } else {
        lemma_lex_lt_trichotomy(a.skip(1), b.skip(1));
        if !lex_lt(a, b) && !lex_lt(b, a) {
            assert(a.skip(1) =~= b.skip(1));
            assert(a.skip(1).len() == b.skip(1).len());
            assert forall|j: int| 0 <= j < a.len() implies a[j] == b[j] by {
                if j > 0 {
                    assert(a.skip(1)[j - 1] == a[j]);
                    assert(b.skip(1)[j - 1] == b[j]);
                }
            }
            assert(a =~= b);
        }
        if lex_lt(a, b) {
            assert(lex_lt(a.skip(1), b.skip(1)));
            assert(a != b) by {
                if a == b {
                    assert(a.skip(1) =~= b.skip(1));
                }
            }
        }
    }
}

/// The lexicographic order is transitive.
pub proof fn lemma_lex_lt_trans(a: Seq<char>, b: Seq<char>, c: Seq<char>)
    requires
        lex_lt(a, b),
        lex_lt(b, c),
    ensures
        lex_lt(a, c),
    decreases a.len(),
{
    if a.len() == 0 || b.len() == 0 || c.len() == 0 {
    } else if a[0] == b[0] && b[0] == c[0] {
        lemma_lex_lt_trans(a.skip(1), b.skip(1), c.skip(1));
    }
}

/// One directory entry: a child name and its kind tag.
#[derive(Clone, PartialEq, Eq, Debug)]
pub struct DirEntry {
    pub name: String,
    pub kind: char,
}

/// The name-keyed contents of a sequence of entries, later entries
/// overriding earlier ones.
pub open spec fn spec_entries_map(s: Seq<DirEntry>) -> Map<Seq<char>, char>
    decreases s.len(),
{
    if s.len() == 0 {
        Map::empty()
    } else {
        spec_entries_map(s.drop_last()).insert(s.last().name@, s.last().kind)
    }
}

/// A key is in the contents exactly when some entry bears it as its name.
pub proof fn lemma_entries_map_domain(s: Seq<DirEntry>)
    ensures
        forall|k: Seq<char>|
            #[trigger] spec_entries_map(s).contains_key(k) <==> (exists|i: int|
                0 <= i < s.len() && s[i].name@ == k),
    decreases s.len(),
{
    if s.len() > 0 {
        lemma_entries_map_domain(s.drop_last());
        assert forall|k: Seq<char>| #[trigger]
            spec_entries_map(s).contains_key(k) implies (exists|i: int|
            0 <= i < s.len() && s[i].name@ == k) by {
            if k == s.last().name@ {
                assert(s[s.len() - 1].name@ == k);
            } else {
                assert(spec_entries_map(s.drop_last()).contains_key(k));
                let i = choose|i: int|
                    0 <= i < s.drop_last().len() && s.drop_last()[i].name@ == k;
                assert(s.drop_last()[i] == s[i]);
                assert(s[i].name@ == k);
            }
        }
        assert forall|k: Seq<char>|
            (exists|i: int| 0 <= i < s.len() && s[i].name@ == k) implies #[trigger]
            spec_entries_map(s).contains_key(k) by {
            let i = choose|i: int| 0 <= i < s.len() && s[i].name@ == k;
            if i < s.len() - 1 {
                assert(s.drop_last()[i] == s[i]);
                assert(s.drop_last()[i].name@ == k);
                assert(spec_entries_map(s.drop_last()).contains_key(k));
            }
        }
    }
}

/// Appending an entry at the very end adds its name to the contents.
proof fn lemma_entries_map_push(s: Seq<DirEntry>, e: DirEntry)
    ensures
        spec_entries_map(s.push(e)) == spec_entries_map(s).insert(e.name@, e.kind),
{
    assert(s.push(e).drop_last() =~= s);
    assert(s.push(e).last() == e);
}

/// Inserting an entry whose name no existing entry bears adds exactly that
/// name to the contents, wherever it is inserted.
proof fn lemma_entries_map_insert(s: Seq<DirEntry>, p: int, e: DirEntry)
    requires
        0 <= p <= s.len(),
        forall|i: int| 0 <= i < s.len() ==> s[i].name@ != e.name@,
    ensures
        spec_entries_map(s.insert(p, e)) == spec_entries_map(s).insert(e.name@, e.kind),
    decreases s.len(),
{
    let t = s.insert(p, e);
    if p == s.len() {
        assert(t =~= s.push(e));
        lemma_entries_map_push(s, e);
    } else {
        assert(t.last() == s.last());
        assert(t.drop_last() =~= s.drop_last().insert(p, e));
        lemma_entries_map_insert(s.drop_last(), p, e);
        assert(spec_entries_map(t) == spec_entries_map(s.drop_last()).insert(
            e.name@,
            e.kind,
        ).insert(s.last().name@, s.last().kind));
        assert(s[s.len() - 1].name@ != e.name@);
        assert(spec_entries_map(s.drop_last()).insert(e.name@, e.kind).insert(
            s.last().name@,
            s.last().kind,
        ) =~= spec_entries_map(s.drop_last()).insert(s.last().name@, s.last().kind).insert(
            e.name@,
            e.kind,
        ));
    }
}

/// Replacing the entry at a position by one with the same name overwrites
/// that name's tag in the contents, provided names are unique.
proof fn lemma_entries_map_update(s: Seq<DirEntry>, p: int, e: DirEntry)
    requires
        0 <= p < s.len(),
        s[p].name@ == e.name@,
        forall|i: int, j: int| 0 <= i < j < s.len() ==> s[i].name@ != s[j].name@,
    ensures
        spec_entries_map(s.update(p, e)) == spec_entries_map(s).insert(e.name@, e.kind),
    decreases s.len(),
{
    let t = s.update(p, e);
    if p == s.len() - 1 {
        assert(t.drop_last() =~= s.drop_last());
        assert(t.last() == e);
        assert(spec_entries_map(s.drop_last()).insert(e.name@, e.kind) =~= spec_entries_map(
            s.drop_last(),
        ).insert(s.last().name@, s.last().kind).insert(e.name@, e.kind));
    } else {
        assert(t.last() == s.last());
        assert(t.drop_last() =~= s.drop_last().update(p, e));
        assert(forall|i: int, j: int|
            0 <= i < j < s.drop_last().len() ==> s.drop_last()[i].name@ != s.drop_last()[j].name@);
        assert(s.drop_last()[p].name@ == e.name@);
        lemma_entries_map_update(s.drop_last(), p, e);
        assert(s[p].name@ != s.last().name@);
        assert(spec_entries_map(s.drop_last()).insert(e.name@, e.kind).insert(
            s.last().name@,
            s.last().kind,
        ) =~= spec_entries_map(s.drop_last()).insert(s.last().name@, s.last().kind).insert(
            e.name@,
            e.kind,
        ));
    }
}

/// Removing the entry at a position deletes its name from the contents,
/// provided names are unique.
proof fn lemma_entries_map_remove(s: Seq<DirEntry>, p: int)
    requires
        0 <= p < s.len(),
        forall|i: int, j: int| 0 <= i < j < s.len() ==> s[i].name@ != s[j].name@,
    ensures
        spec_entries_map(s.remove(p)) == spec_entries_map(s).remove(s[p].name@),
    decreases s.len(),
{
    let t = s.remove(p);
    if p == s.len() - 1 {
        assert(t =~= s.drop_last());
        lemma_entries_map_domain(s.drop_last());
        assert(forall|i: int|
            0 <= i < s.drop_last().len() ==> s.drop_last()[i].name@ != s[p].name@);
        assert(!spec_entries_map(s.drop_last()).contains_key(s[p].name@));
        assert(spec_entries_map(s.drop_last()).insert(s.last().name@, s.last().kind).remove(
            s[p].name@,
        ) =~= spec_entries_map(s.drop_last()));
    } else {
        assert(t.last() == s.last());
        assert(t.drop_last() =~= s.drop_last().remove(p));
        assert(forall|i: int, j: int|
            0 <= i < j < s.drop_last().len() ==> s.drop_last()[i].name@ != s.drop_last()[j].name@);
        lemma_entries_map_remove(s.drop_last(), p);
        assert(s[p].name@ != s.last().name@);
        assert(spec_entries_map(s.drop_last()).insert(s.last().name@, s.last().kind).remove(
            s[p].name@,
        ) =~= spec_entries_map(s.drop_last()).remove(s[p].name@).insert(
            s.last().name@,
            s.last().kind,
        ));
    }
}

/// Compare two strings in lexicographic order by code point.
pub fn str_lex_lt(a: &str, b: &str) -> (r: bool)
    ensures
        r == lex_lt(a@, b@),
{
    let la = a.unicode_len();
    let lb = b.unicode_len();
    let mut i: usize = 0;
    loop
        invariant
            i <= la,
            i <= lb,
            la == a@.len(),
            lb == b@.len(),
            forall|j: int| 0 <= j < i ==> a@[j] == b@[j],
        ensures
            i <= la && i <= lb,
            forall|j: int| 0 <= j < i ==> a@[j] == b@[j],
            i == la || i == lb || a@[i as int] != b@[i as int],
        decreases la - i,
    {
        if i == la || i == lb {
            break ;
        }
        let ca = a.get_char(i);
        let cb = b.get_char(i);
        if ca != cb {
            break ;
        }
        i += 1;
    }
    proof {
        lemma_lex_lt_skip(a@, b@, i as int);
    }
    if i == la {
        proof {
            if i == lb {
                assert(a@.skip(i as int).len() == 0 && b@.skip(i as int).len() == 0);
            } else {
                assert(b@.skip(i as int).len() > 0);
            }
        }
        la < lb
    } else if i == lb {
        false
    } else {
        let ca = a.get_char(i);
        let cb = b.get_char(i);
        proof {
            assert(a@.skip(i as int)[0] == a@[i as int]);
            assert(b@.skip(i as int)[0] == b@[i as int]);
        }
        (ca as u32) < (cb as u32)
    }
}

/// When two sequences agree on a common prefix, their order is the order of
/// what remains.
proof fn lemma_lex_lt_skip(a: Seq<char>, b: Seq<char>, i: int)
    requires
        0 <= i <= a.len(),
        i <= b.len(),
        forall|j: int| 0 <= j < i ==> a[j] == b[j],
    ensures
        lex_lt(a, b) == lex_lt(a.skip(i), b.skip(i)),
    decreases i,
{
    if i == 0 {
        assert(a.skip(0) =~= a);
        assert(b.skip(0) =~= b);
    } else {
        assert(a.len() > 0 && b.len() > 0 && a[0] == b[0]);
        assert(lex_lt(a, b) == lex_lt(a.skip(1), b.skip(1)));
        assert(forall|j: int| 0 <= j < i - 1 ==> a.skip(1)[j] == b.skip(1)[j]);
        lemma_lex_lt_skip(a.skip(1), b.skip(1), i - 1);
        assert(a.skip(1).skip(i - 1) =~= a.skip(i));
        assert(b.skip(1).skip(i - 1) =~= b.skip(i));
    }
}

/// An ordered, name-keyed set of one directory's children.
#[derive(Clone, Debug)]
pub struct SubDirectory {
    pub sub_dir: Vec<DirEntry>,
}

impl View for SubDirectory {
    type V = Map<Seq<char>, char>;

    open spec fn view(&self) -> Map<Seq<char>, char> {
        spec_entries_map(self.sub_dir@)
    }
}

impl SubDirectory {
    /// Well-formedness: entries are strictly sorted by name (so names are
    /// unique) and every kind tag is 'd' or 'f'.
    pub open spec fn wf(self) -> bool {
        &&& forall|i: int, j: int|
            0 <= i < j < self.sub_dir@.len() ==> lex_lt(
                self.sub_dir@[i].name@,
                self.sub_dir@[j].name@,
            )
        &&& forall|i: int|
            0 <= i < self.sub_dir@.len() ==> (self.sub_dir@[i].kind == 'd' || self.sub_dir@[i].kind
                == 'f')
    }

    /// Strict sorting makes names unique.
    pub proof fn lemma_wf_names_unique(self)
        requires
            self.wf(),
        ensures
            forall|i: int, j: int|
                0 <= i < j < self.sub_dir@.len() ==> self.sub_dir@[i].name@
                    != self.sub_dir@[j].name@,
    {
        assert forall|i: int, j: int|
            0 <= i < j < self.sub_dir@.len() implies self.sub_dir@[i].name@
            != self.sub_dir@[j].name@ by {
            lemma_lex_lt_trichotomy(self.sub_dir@[i].name@, self.sub_dir@[j].name@);
        }
    }

    /// A fresh entry set, holding exactly the reserved entries "." and "..",
    /// both directories.
    pub fn new() -> (r: SubDirectory)
        ensures
            r.wf(),
            r@ == Map::<Seq<char>, char>::empty().insert("."@, 'd').insert(".."@, 'd'),
    {
        let mut sub_dir: Vec<DirEntry> = Vec::new();
        sub_dir.push(DirEntry { name: ".".to_owned(), kind: 'd' });
        sub_dir.push(DirEntry { name: "..".to_owned(), kind: 'd' });
        let r = SubDirectory { sub_dir };
        proof {
            reveal_strlit(".");
            reveal_strlit("..");
            let a = "."@;
            let b = ".."@;
            assert(r.sub_dir@.len() == 2);
            assert(r.sub_dir@[0].name@ == a);
            assert(r.sub_dir@[1].name@ == b);
            assert(a.len() == 1 && b.len() == 2);
            assert(a[0] == '.' && b[0] == '.');
            assert(a.skip(1).len() == 0 && b.skip(1).len() == 1);
            assert(lex_lt(a.skip(1), b.skip(1)));
            assert(lex_lt(a, b));
            let s = r.sub_dir@;
            assert(s.drop_last() =~= seq![s[0]]);
            assert(seq![s[0]].drop_last() =~= Seq::<DirEntry>::empty());
            assert(spec_entries_map(Seq::<DirEntry>::empty()) == Map::<Seq<char>, char>::empty());
            assert(spec_entries_map(seq![s[0]]) == Map::<Seq<char>, char>::empty().insert(a, 'd'));
            assert(spec_entries_map(s) == Map::<Seq<char>, char>::empty().insert(a, 'd').insert(
                b,
                'd',
            ));
        }
        r
    }

    /// Insert or overwrite the entry for `name` with the given kind tag,
    /// keeping the set sorted.
    fn set_entry(&mut self, name: String, kind: char)
        requires
            old(self).wf(),
            kind == 'd' || kind == 'f',
        ensures
            final(self).wf(),
            final(self)@ == old(self)@.insert(name@, kind),
    {
        let ghost s0 = self.sub_dir@;
        let n = self.sub_dir.len();
        let mut p: usize = 0;
        loop
            invariant
                p <= n,
                n == s0.len(),
                self == old(self),
                self.sub_dir@ == s0,
                forall|j: int| 0 <= j < p ==> lex_lt(s0[j].name@, name@),
            ensures
                p <= n,
                self == old(self),
                self.sub_dir@ == s0,
                forall|j: int| 0 <= j < p ==> lex_lt(s0[j].name@, name@),
                p < n ==> !lex_lt(s0[p as int].name@, name@),
            decreases n - p,
        {
            if p == n {
                break ;
            }
            if !str_lex_lt(self.sub_dir[p].name.as_str(), name.as_str()) {
                break ;
            }
            p += 1;
        }
        if p < n && self.sub_dir[p].name == name {
            // Same name: overwrite the kind tag in place.
            let e = self.sub_dir.remove(p);
            self.sub_dir.insert(p, DirEntry { name, kind });
            proof {
                let t = self.sub_dir@;
                assert(t =~= s0.update(p as int, t[p as int]));
                old(self).lemma_wf_names_unique();
                lemma_entries_map_update(s0, p as int, t[p as int]);
                assert(self.wf()) by {
                    assert(forall|i: int|
                        0 <= i < t.len() && i != p ==> t[i] == s0[i]);
                    assert(t[p as int].name@ == s0[p as int].name@);
                }
            }
        } else {
            proof {
                lemma_lex_lt_trichotomy(s0[p as int].name@, name@);
                if p < n {
                    assert(lex_lt(name@, s0[p as int].name@));
                }
                assert forall|i: int| 0 <= i < s0.len() implies s0[i].name@ != name@ by {
                    lemma_lex_lt_trichotomy(s0[i].name@, name@);
                    if i >= p {
                        if i > p {
                            lemma_lex_lt_trans(name@, s0[p as int].name@, s0[i].name@);
                        }
                        lemma_lex_lt_trichotomy(name@, s0[i].name@);
                    }
                }
            }
            self.sub_dir.insert(p, DirEntry { name, kind });
            proof {
                let t = self.sub_dir@;
                lemma_entries_map_insert(s0, p as int, t[p as int]);
                assert(self.wf()) by {
                    assert forall|i: int, j: int|
                        0 <= i < j < t.len() implies lex_lt(t[i].name@, t[j].name@) by {
                        if j < p {
                        } else if j == p {
                            if i < p {
                                if i == p - 1 {
                                } else {
                                    lemma_lex_lt_trans(
                                        t[i].name@,
                                        s0[p - 1].name@,
                                        name@,
                                    );
                                }
                            }
                        } else {
                            if i < p {
                            } else if i == p {
                                if j == p + 1 {
                                } else {
                                    lemma_lex_lt_trans(
                                        name@,
                                        s0[p as int].name@,
                                        s0[j - 1].name@,
                                    );
                                }
                            }
                        }
                    }
                }
            }
        }
    }

    /// Remove the entry for `name`, whatever its kind; removing an absent
    /// name changes nothing.
    fn unset_entry(&mut self, name: &String)
        requires
            old(self).wf(),
        ensures
            final(self).wf(),
            final(self)@ == old(self)@.remove(name@),
    {
        let ghost s0 = self.sub_dir@;
        let n = self.sub_dir.len();
        let mut i: usize = 0;
        loop
            invariant
                i <= n,
                n == s0.len(),
                self == old(self),
                self.sub_dir@ == s0,
                forall|j: int| 0 <= j < i ==> s0[j].name@ != name@,
            ensures
                i <= n,
                self == old(self),
                self.sub_dir@ == s0,
                forall|j: int| 0 <= j < i ==> s0[j].name@ != name@,
                i < n ==> s0[i as int].name@ == name@,
            decreases n - i,
        {
            if i == n {
                break ;
            }
            if self.sub_dir[i].name == *name {
                break ;
            }
            i += 1;
        }
        if i < n {
            self.sub_dir.remove(i);
            proof {
                old(self).lemma_wf_names_unique();
                lemma_entries_map_remove(s0, i as int);
            }
        } else {
            proof {
                lemma_entries_map_domain(s0);
                assert(!old(self)@.contains_key(name@));
                assert(old(self)@.remove(name@) =~= old(self)@);
            }
        }
    }

    /// Insert or overwrite `dir` as a directory entry.
    pub fn add_dir(&mut self, dir: String)
        requires
            old(self).wf(),
        ensures
            final(self).wf(),
            final(self)@ == old(self)@.insert(dir@, 'd'),
    {
        self.set_entry(dir, 'd');
    }

    /// Insert or overwrite `file` as a file entry.
    pub fn add_file(&mut self, file: String)
        requires
            old(self).wf(),
        ensures
            final(self).wf(),
            final(self)@ == old(self)@.insert(file@, 'f'),
    {
        self.set_entry(file, 'f');
    }

    /// Remove the entry named `dir`; removing an absent name is a no-op.
    pub fn delete_dir(&mut self, dir: String)
        requires
            old(self).wf(),
        ensures
            final(self).wf(),
            final(self)@ == old(self)@.remove(dir@),
    {
        self.unset_entry(&dir);
    }

    /// Remove the entry named `file`; removing an absent name is a no-op.
    pub fn delete_file(&mut self, file: String)
        requires
            old(self).wf(),
        ensures
            final(self).wf(),
            final(self)@ == old(self)@.remove(file@),
    {
        self.unset_entry(&file);
    }

    /// The number of entries.
    pub fn len(&self) -> (r: usize)
        ensures
            r == self.sub_dir@.len(),
    {
        self.sub_dir.len()
    }

    /// The entry at position `i` of the enumeration, which visits entries in
    /// ascending name order (see `wf`): restarting from any position pages a
    /// listing without duplicating or skipping untouched entries.
    pub fn entry_at(&self, i: usize) -> (r: &DirEntry)
        requires
            i < self.sub_dir@.len(),
        ensures
            r == self.sub_dir@[i as int],
    {
        &self.sub_dir[i]
    }
}

impl Default for SubDirectory {
    /// A fresh entry set, holding exactly "." and "..".
    fn default() -> (r: SubDirectory)
        ensures
            r.wf(),
            r@ == Map::<Seq<char>, char>::empty().insert("."@, 'd').insert(".."@, 'd'),
    {
        SubDirectory::new()
    }
}

/// Law: adding an absent name and then removing that same name restores the
/// prior entry set.
pub proof fn lemma_add_then_remove_restores(m: Map<Seq<char>, char>, name: Seq<char>, kind: char)
    requires
        !m.contains_key(name),
    ensures
        m.insert(name, kind).remove(name) == m,
{
    assert(m.insert(name, kind).remove(name) =~= m);
}

/// Law: removing an absent name leaves the entry set unchanged.
pub proof fn lemma_remove_absent_is_noop(m: Map<Seq<char>, char>, name: Seq<char>)
    requires
        !m.contains_key(name),
    ensures
        m.remove(name) == m,
{
    assert(m.remove(name) =~= m);
}

} // verus!
