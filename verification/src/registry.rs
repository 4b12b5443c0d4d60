//! The program registry: an in-memory store of registered programs keyed by
//! id, holding for each the source text, its language and the digest of the
//! code taken at registration time.

use vstd::prelude::*;

use crate::hashing::{sha256_hex, sha256_hex_of};
use crate::text::str_eq;

verus! {

/// The language family a registered program is written in. TypeScript is
/// executed as JavaScript: the two share one adapter and no transpilation or
/// type-checking occurs.
#[derive(Clone, Copy, PartialEq, Eq, Structural)]
pub enum Language {
    Js,
    Ts,
    Py,
}

/// One registered program.
pub struct ProgramRecord {
    pub id: String,
    pub language: Language,
    pub code: String,
    pub code_hash: String,
}

/// A record is well formed when its id is non-empty and its hash is the
/// digest of its code.
pub open spec fn record_wf(r: ProgramRecord) -> bool {
    &&& r.id@.len() > 0
    &&& r.code_hash@ == sha256_hex_of(r.code@)
}

/// The records of `s` as a map from id to record; a later record wins over an
/// earlier one with the same id.
pub open spec fn map_of(s: Seq<ProgramRecord>) -> Map<Seq<char>, ProgramRecord>
    decreases s.len(),
{
    if s.len() == 0 {
        Map::empty()
    } else {
        map_of(s.drop_last()).insert(s.last().id@, s.last())
    }
}

/// Pairwise distinct ids.
pub open spec fn ids_unique(s: Seq<ProgramRecord>) -> bool {
    forall|i: int, j: int| 0 <= i < j < s.len() ==> s[i].id@ != s[j].id@
}

proof fn lemma_map_of_contains(s: Seq<ProgramRecord>, k: Seq<char>)
    ensures
        map_of(s).contains_key(k) <==> exists|i: int| 0 <= i < s.len() && s[i].id@ == k,
    decreases s.len(),
{
    if s.len() > 0 {
        lemma_map_of_contains(s.drop_last(), k);
        if s.last().id@ == k {
            assert(s[s.len() - 1].id@ == k);
        } else if map_of(s).contains_key(k) {
            let i = choose|i: int| 0 <= i < s.drop_last().len() && s.drop_last()[i].id@ == k;
            assert(s[i].id@ == k);
        } else if exists|i: int| 0 <= i < s.len() && s[i].id@ == k {
            let i = choose|i: int| 0 <= i < s.len() && s[i].id@ == k;
            assert(i < s.len() - 1);
            assert(s.drop_last()[i].id@ == k);
        }
    }
}

proof fn lemma_map_of_index(s: Seq<ProgramRecord>, i: int)
    requires
        ids_unique(s),
        0 <= i < s.len(),
    ensures
        map_of(s).contains_key(s[i].id@),
        map_of(s)[s[i].id@] == s[i],
    decreases s.len(),
{
    if i == s.len() - 1 {
        assert(s.last() == s[i]);
    } else {
        assert(ids_unique(s.drop_last())) by {
            assert(forall|x: int, y: int|
                0 <= x < y < s.drop_last().len() ==> s.drop_last()[x].id@ != s.drop_last()[y].id@);
        }
        assert(s.drop_last()[i] == s[i]);
        lemma_map_of_index(s.drop_last(), i);
        assert(s.last().id@ != s[i].id@);
    }
}

/// The in-memory program store, keyed by program id. Records are replaced
/// wholesale by registration and read back whole; nothing mutates a stored
/// record in place.
pub struct Registry {
    records: Vec<ProgramRecord>,
}

/// Relies on `uuid::Uuid::new_v4` and the `Display` impl of `Uuid`: a random
/// version-4 UUID rendered in its hyphenated form, which is 36 characters.
/// Nothing relates two calls: each draws fresh randomness.
#[verifier::external_body]
fn fresh_uuid() -> (r: String)
    ensures
        r@.len() == 36,
{
    uuid::Uuid::new_v4().to_string()
}

impl Registry {
    /// The registry's contents, as a map from program id to its record.
    pub closed spec fn contents(self) -> Map<Seq<char>, ProgramRecord> {
        map_of(self.records@)
    }

    /// Well-formedness: ids are distinct and every stored record carries the
    /// digest of its own code.
    pub closed spec fn wf(self) -> bool {
        &&& ids_unique(self.records@)
        &&& forall|i: int|
            0 <= i < self.records@.len() ==> record_wf(#[trigger] self.records@[i])
    }

    /// An empty registry.
    pub fn new() -> (r: Registry)
        ensures
            r.wf(),
            r.contents() == Map::<Seq<char>, ProgramRecord>::empty(),
    {
        let r = Registry { records: Vec::new() };
        proof {
            assert(r.contents() =~= Map::<Seq<char>, ProgramRecord>::empty());
        }
        r
    }

    /// Registers a program: stores (or overwrites) the record under the given
    /// id, or under a freshly generated identifier when none is given. The
    /// code's digest is computed here; no syntax check of the code occurs.
    #[verifier::loop_isolation(false)]
    pub fn register(&mut self, id: Option<String>, language: Language, code: String) -> (r:
        ProgramRecord)
        requires
            old(self).wf(),
            id matches Some(s) ==> s@.len() > 0,
        ensures
            final(self).wf(),
            record_wf(r),
            r.language == language,
            r.code@ == code@,
            r.code_hash@ == sha256_hex_of(code@),
            id matches Some(s) ==> r.id@ == s@,
            id is None ==> r.id@.len() == 36,
            final(self).contents() == old(self).contents().insert(r.id@, r),
    {
        let id2: String = match id {
            Some(s) => s,
            None => fresh_uuid(),
        };
        let code_hash = sha256_hex(code.as_str());
        let rec = ProgramRecord {
            id: id2.clone(),
            language,
            code: code.clone(),
            code_hash: code_hash.clone(),
        };
        let ret = ProgramRecord { id: id2, language, code, code_hash };
        proof {
            assert(rec == ret);
        }
        let n = self.records.len();
        let mut i: usize = 0;
        while i < n
            invariant
                n == self.records@.len(),
                i <= n,
                *self == *old(self),
                forall|k: int| 0 <= k < i ==> self.records@[k].id@ != rec.id@,
            decreases n - i,
        {
            if str_eq(self.records[i].id.as_str(), ret.id.as_str()) {
                proof {
                    lemma_map_of_update(self.records@, i as int, rec);
                }
                self.records.set(i, rec);
                proof {
                    assert forall|k: int|
                        0 <= k < self.records@.len() implies record_wf(
                        #[trigger] self.records@[k],
                    ) by {
                        if k != i as int {
                            assert(self.records@[k] == old(self).records@[k]);
                        }
                    }
                }
                return ret;
            }
            i += 1;
        }
        proof {
            let pushed = self.records@.push(rec);
            assert(pushed.drop_last() =~= self.records@);
            assert(pushed.last() == rec);
            assert(map_of(pushed) == map_of(self.records@).insert(rec.id@, rec));
            assert(ids_unique(pushed)) by {
                assert forall|x: int, y: int|
                    0 <= x < y < pushed.len() implies pushed[x].id@ != pushed[y].id@ by {
                    if y == pushed.len() - 1 {
                        assert(pushed[x] == self.records@[x]);
                    }
                }
            }
            assert forall|k: int| 0 <= k < pushed.len() implies record_wf(
                #[trigger] pushed[k],
            ) by {
                if k < pushed.len() - 1 {
                    assert(pushed[k] == self.records@[k]);
                }
            }
        }
        self.records.push(rec);
        ret
    }

    /// Looks a program up by id; reflects the most recent registration under
    /// that id, and finds nothing if and only if the id was never registered.
    #[verifier::loop_isolation(false)]
    pub fn lookup<'a>(&'a self, id: &str) -> (r: Option<&'a ProgramRecord>)
        requires
            self.wf(),
        ensures
            match r {
                Some(rec) => self.contents().contains_key(id@) && *rec == self.contents()[id@],
                None => !self.contents().contains_key(id@),
            },
    {
        let n = self.records.len();
        let mut i: usize = 0;
        while i < n
            invariant
                self.wf(),
                n == self.records@.len(),
                i <= n,
                forall|k: int| 0 <= k < i ==> self.records@[k].id@ != id@,
            decreases n - i,
        {
            if str_eq(self.records[i].id.as_str(), id) {
                proof {
                    lemma_map_of_index(self.records@, i as int);
                }
                return Some(&self.records[i]);
            }
            i += 1;
        }
        proof {
            lemma_map_of_contains(self.records@, id@);
        }
        None
    }
}

proof fn lemma_map_of_update(s: Seq<ProgramRecord>, i: int, rec: ProgramRecord)
    requires
        ids_unique(s),
        0 <= i < s.len(),
        rec.id@ == s[i].id@,
    ensures
        map_of(s.update(i, rec)) == map_of(s).insert(rec.id@, rec),
        ids_unique(s.update(i, rec)),
    decreases s.len(),
{
    assert(ids_unique(s.update(i, rec))) by {
        assert(forall|x: int, y: int|
            0 <= x < y < s.update(i, rec).len() ==> s.update(i, rec)[x].id@ != s.update(
                i,
                rec,
            )[y].id@);
    }
    if i == s.len() - 1 {
        assert(s.update(i, rec).drop_last() =~= s.drop_last());
        assert(s.update(i, rec).last() == rec);
        assert(map_of(s.drop_last()).insert(s.last().id@, s.last()).insert(rec.id@, rec)
            =~= map_of(s.drop_last()).insert(rec.id@, rec));
    } else {
        assert(ids_unique(s.drop_last())) by {
            assert(forall|x: int, y: int|
                0 <= x < y < s.drop_last().len() ==> s.drop_last()[x].id@ != s.drop_last()[y].id@);
        }
        assert(s.drop_last()[i] == s[i]);
        lemma_map_of_update(s.drop_last(), i, rec);
        assert(s.update(i, rec).drop_last() =~= s.drop_last().update(i, rec));
        assert(s.update(i, rec).last() == s.last());
        assert(s.last().id@ != rec.id@);
        assert(map_of(s.drop_last()).insert(rec.id@, rec).insert(s.last().id@, s.last())
            =~= map_of(s.drop_last()).insert(s.last().id@, s.last()).insert(rec.id@, rec));
    }
}

/// Every record the registry holds is bound at its own id and is well
/// formed: in particular its stored hash is the digest of its stored code.
pub proof fn lemma_contents_wf(reg: Registry, k: Seq<char>)
    requires
        reg.wf(),
        reg.contents().contains_key(k),
    ensures
        record_wf(reg.contents()[k]),
        reg.contents()[k].id@ == k,
{
    lemma_map_of_contains(reg.records@, k);
    let i = choose|i: int| 0 <= i < reg.records@.len() && reg.records@[i].id@ == k;
    lemma_map_of_index(reg.records@, i);
}

/// Two registered programs with the same source text carry the same code
/// hash, whatever ids they stand under: the hash is a function of the code
/// alone.
pub proof fn lemma_same_code_same_hash(reg: Registry, k1: Seq<char>, k2: Seq<char>)
    requires
        reg.wf(),
        reg.contents().contains_key(k1),
        reg.contents().contains_key(k2),
        reg.contents()[k1].code@ == reg.contents()[k2].code@,
    ensures
        reg.contents()[k1].code_hash@ == reg.contents()[k2].code_hash@,
{
    lemma_contents_wf(reg, k1);
    lemma_contents_wf(reg, k2);
}

/// Registering twice under one id leaves exactly what the second
/// registration stored: the first record is replaced, not kept beside it.
pub proof fn lemma_reregister_replaces(
    m: Map<Seq<char>, ProgramRecord>,
    k: Seq<char>,
    r1: ProgramRecord,
    r2: ProgramRecord,
)
    ensures
        m.insert(k, r1).insert(k, r2) == m.insert(k, r2),
{
    assert(m.insert(k, r1).insert(k, r2) =~= m.insert(k, r2));
}

} // verus!
