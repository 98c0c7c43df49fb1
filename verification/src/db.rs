//! The paste store: a write-once table of pastes keyed by their public token.
//!
//! Each stored paste is immutable after creation; there is no update, delete
//! or list operation. The store's mathematical value is a map from token to
//! the record stored under it, and every operation's contract is stated over
//! that map.

use vstd::prelude::*;

use crate::errors::StoreError;

verus! {

/// One stored paste, as the store keeps it.
pub struct Paste {
    pub token: String,
    pub title: String,
    pub content: String,
    pub created_at: u64,
}

/// The mathematical value of one stored paste: what the contracts speak of.
/// The id is the surrogate key the store assigns at insert time; it is never
/// exposed through a lookup, only the token is.
pub ghost struct PasteRecord {
    pub id: int,
    pub title: Seq<char>,
    pub content: Seq<char>,
    pub created_at: u64,
}

/// The record that position `i` of a paste sequence denotes: ids count the
/// insertion order from 1, so they increase and are never reused.
pub open spec fn record_at(s: Seq<Paste>, i: int) -> PasteRecord {
    PasteRecord {
        id: i + 1,
        title: s[i].title@,
        content: s[i].content@,
        created_at: s[i].created_at,
    }
}

/// The table a sequence of pastes denotes: each token maps to the record of
/// the row holding it. The store keeps tokens distinct, so no row ever
/// shadows another.
pub open spec fn table_of(s: Seq<Paste>) -> Map<Seq<char>, PasteRecord>
    decreases s.len(),
{
    if s.len() == 0 {
        Map::empty()
    } else {
        table_of(s.drop_last()).insert(s.last().token@, record_at(s, s.len() - 1))
    }
}

/// No two rows hold the same token.
pub open spec fn distinct_tokens(s: Seq<Paste>) -> bool {
    forall|i: int, j: int| 0 <= i < j < s.len() ==> s[i].token@ != s[j].token@
}

/// The pair a full lookup yields on a table: the stored (content, title)
/// under the token, or nothing when the token is absent.
pub open spec fn paste_lookup(m: Map<Seq<char>, PasteRecord>, t: Seq<char>) -> Option<
    (Seq<char>, Seq<char>),
> {
    if m.contains_key(t) {
        Some((m[t].content, m[t].title))
    } else {
        None
    }
}

/// The bare content a raw lookup yields on a table.
pub open spec fn content_lookup(m: Map<Seq<char>, PasteRecord>, t: Seq<char>) -> Option<
    Seq<char>,
> {
    if m.contains_key(t) {
        Some(m[t].content)
    } else {
        None
    }
}

/// A token is in the table exactly when some row holds it.
proof fn lemma_table_contains(s: Seq<Paste>, t: Seq<char>)
    ensures
        table_of(s).contains_key(t) <==> exists|i: int| 0 <= i < s.len() && s[i].token@ == t,
    decreases s.len(),
{
    if s.len() > 0 {
        lemma_table_contains(s.drop_last(), t);
        if s.last().token@ == t {
            assert(s[s.len() - 1].token@ == t);
        } else if table_of(s).contains_key(t) {
            let i = choose|i: int| 0 <= i < s.drop_last().len() && s.drop_last()[i].token@ == t;
            assert(s[i].token@ == t);
        } else {
            assert forall|i: int| 0 <= i < s.len() implies s[i].token@ != t by {
                if i < s.len() - 1 {
                    assert(s.drop_last()[i].token@ != t);
                }
            }
        }
    }
}

/// Under distinct tokens, the table maps each held token to its own row's
/// record.
proof fn lemma_table_at(s: Seq<Paste>, i: int)
    requires
        0 <= i < s.len(),
        distinct_tokens(s),
    ensures
        table_of(s).contains_key(s[i].token@),
        table_of(s)[s[i].token@] == record_at(s, i),
    decreases s.len(),
{
    if i < s.len() - 1 {
        let rest = s.drop_last();
        assert forall|p: int, q: int|
            0 <= p < q < rest.len() implies rest[p].token@ != rest[q].token@ by {
            assert(s[p].token@ != s[q].token@);
        }
        lemma_table_at(s.drop_last(), i);
        assert(s.drop_last()[i].token@ == s[i].token@);
        assert(s[i].token@ != s.last().token@);
        assert(record_at(s.drop_last(), i) == record_at(s, i));
    }
}

/// Creating a paste under an unused token and then looking that token up
/// yields exactly the stored content and title; the raw lookup yields the
/// stored content.
pub proof fn lemma_create_then_lookup(
    m: Map<Seq<char>, PasteRecord>,
    t: Seq<char>,
    rec: PasteRecord,
)
    requires
        !m.contains_key(t),
    ensures
        paste_lookup(m.insert(t, rec), t) == Some((rec.content, rec.title)),
        content_lookup(m.insert(t, rec), t) == Some(rec.content),
{
}

/// A token never created is found by neither lookup.
pub proof fn lemma_unknown_token(m: Map<Seq<char>, PasteRecord>, t: Seq<char>)
    requires
        !m.contains_key(t),
    ensures
        paste_lookup(m, t) is None,
        content_lookup(m, t) is None,
{
}

/// Once a paste is created under a token, the token is taken — so a second
/// create under it fails with `Conflict` and, by `insert_paste`'s contract,
/// leaves the store untouched — and the first record stays retrievable.
pub proof fn lemma_second_create_conflicts(
    m: Map<Seq<char>, PasteRecord>,
    t: Seq<char>,
    rec: PasteRecord,
)
    ensures
        m.insert(t, rec).contains_key(t),
        paste_lookup(m.insert(t, rec), t) == Some((rec.content, rec.title)),
{
}

/// The raw lookup agrees with the full one on every store and token: its
/// content is exactly the content component of the pair.
pub proof fn lemma_lookups_agree(m: Map<Seq<char>, PasteRecord>, t: Seq<char>)
    ensures
        content_lookup(m, t) == match paste_lookup(m, t) {
            Some(p) => Some(p.0),
            None => None::<Seq<char>>,
        },
{
}

/// Lookups are functions of the store's value alone: with no intervening
/// create the store's value is unchanged, so repeated lookups of the same
/// token return identical results.
pub proof fn lemma_lookup_idempotent(
    m: Map<Seq<char>, PasteRecord>,
    t: Seq<char>,
    r1: Option<(Seq<char>, Seq<char>)>,
    r2: Option<(Seq<char>, Seq<char>)>,
)
    requires
        r1 == paste_lookup(m, t),
        r2 == paste_lookup(m, t),
    ensures
        r1 == r2,
{
}

/// Two creates under distinct unused tokens both succeed — the first leaves
/// the second token still unused — and afterward each token retrieves its own
/// record, independently of the other.
pub proof fn lemma_two_creates(
    m: Map<Seq<char>, PasteRecord>,
    t1: Seq<char>,
    rec1: PasteRecord,
    t2: Seq<char>,
    rec2: PasteRecord,
)
    requires
        t1 != t2,
        !m.contains_key(t1),
        !m.contains_key(t2),
    ensures
        !m.insert(t1, rec1).contains_key(t2),
        paste_lookup(m.insert(t1, rec1).insert(t2, rec2), t1) == Some((rec1.content, rec1.title)),
        paste_lookup(m.insert(t1, rec1).insert(t2, rec2), t2) == Some((rec2.content, rec2.title)),
{
}

/// The paste store. Rows are kept in insertion order; tokens are unique.
pub struct Database {
    pastes: Vec<Paste>,
}

impl View for Database {
    type V = Map<Seq<char>, PasteRecord>;

    closed spec fn view(&self) -> Map<Seq<char>, PasteRecord> {
        table_of(self.pastes@)
    }
}

impl Database {
    /// Well-formedness: no two rows share a token.
    pub closed spec fn wf(&self) -> bool {
        distinct_tokens(self.pastes@)
    }

    /// The id the next insert will assign.
    pub closed spec fn next_id(&self) -> int {
        self.pastes@.len() as int + 1
    }

    /// Creates an empty store.
    pub fn new() -> (db: Database)
        ensures
            db.wf(),
            db@ == Map::<Seq<char>, PasteRecord>::empty(),
            db.next_id() == 1,
    {
        let db = Database { pastes: Vec::new() };
        proof {
            assert(db@ =~= Map::<Seq<char>, PasteRecord>::empty());
        }
        db
    }

    /// The position of the row holding `token`, if any.
    fn find_index(&self, token: &str) -> (r: Option<usize>)
        ensures
            match r {
                Some(i) => i < self.pastes@.len() && self.pastes@[i as int].token@ == token@,
                None => forall|k: int|
                    0 <= k < self.pastes@.len() ==> self.pastes@[k].token@ != token@,
            },
    {
        let needle: String = token.to_owned();
        let n = self.pastes.len();
        let mut i: usize = 0;
        while i < n
            invariant
                n == self.pastes@.len(),
                i <= n,
                needle@ == token@,
                forall|k: int| 0 <= k < i ==> self.pastes@[k].token@ != token@,
            decreases n - i,
        {
            if self.pastes[i].token == needle {
                return Some(i);
            }
            i = i + 1;
        }
        None
    }

    /// Stores a new paste under `token`, stamping it with the given creation
    /// time and the next id. Fails with `Conflict`, and changes nothing, when
    /// a paste already holds the token.
    pub fn insert_paste(
        &mut self,
        token: &str,
        title: &str,
        content: &str,
        created_at: u64,
    ) -> (r: Result<(), StoreError>)
        requires
            old(self).wf(),
        ensures
            final(self).wf(),
            match r {
                Ok(()) => {
                    &&& !old(self)@.contains_key(token@)
                    &&& final(self)@ == old(self)@.insert(
                        token@,
                        PasteRecord {
                            id: old(self).next_id(),
                            title: title@,
                            content: content@,
                            created_at: created_at,
                        },
                    )
                    &&& final(self).next_id() == old(self).next_id() + 1
                },
                Err(e) => {
                    &&& e == StoreError::Conflict
                    &&& old(self)@.contains_key(token@)
                    &&& *final(self) == *old(self)
                },
            },
    {
        match self.find_index(token) {
            Some(_) => {
                proof {
                    lemma_table_contains(self.pastes@, token@);
                }
                Err(StoreError::Conflict)
            },
            None => {
                proof {
                    lemma_table_contains(self.pastes@, token@);
                }
                let p = Paste {
                    token: token.to_owned(),
                    title: title.to_owned(),
                    content: content.to_owned(),
                    created_at: created_at,
                };
                let ghost old_seq = self.pastes@;
                self.pastes.push(p);
                proof {
                    assert(self.pastes@.drop_last() =~= old_seq);
                    assert forall|a: int, b: int|
                        0 <= a < b < self.pastes@.len() implies self.pastes@[a].token@
                        != self.pastes@[b].token@ by {
                        if b < old_seq.len() {
                            assert(old_seq[a].token@ != old_seq[b].token@);
                        } else {
                            assert(old_seq[a].token@ != token@);
                        }
                    }
                }
                Ok(())
            },
        }
    }

    /// Returns the stored (content, title) pair under an exact token match,
    /// or `NotFound` when no paste holds the token. Read-only.
    pub fn get_paste_by_token(&self, token: &str) -> (r: Result<(String, String), StoreError>)
        requires
            self.wf(),
        ensures
            match r {
                Ok(p) => paste_lookup(self@, token@) == Some((p.0@, p.1@)),
                Err(e) => e == StoreError::NotFound && paste_lookup(self@, token@) is None,
            },
    {
        match self.find_index(token) {
            Some(i) => {
                proof {
                    lemma_table_at(self.pastes@, i as int);
                }
                let row = &self.pastes[i];
                Ok((row.content.clone(), row.title.clone()))
            },
            None => {
                proof {
                    lemma_table_contains(self.pastes@, token@);
                }
                Err(StoreError::NotFound)
            },
        }
    }

    /// Returns only the stored content under an exact token match, for the
    /// raw-text path, or `NotFound` when no paste holds the token. Read-only.
    pub fn get_content_by_token(&self, token: &str) -> (r: Result<String, StoreError>)
        requires
            self.wf(),
        ensures
            match r {
                Ok(c) => content_lookup(self@, token@) == Some(c@),
                Err(e) => e == StoreError::NotFound && content_lookup(self@, token@) is None,
            },
    {
        match self.find_index(token) {
            Some(i) => {
                proof {
                    lemma_table_at(self.pastes@, i as int);
                }
                Ok(self.pastes[i].content.clone())
            },
            None => {
                proof {
                    lemma_table_contains(self.pastes@, token@);
                }
                Err(StoreError::NotFound)
            },
        }
    }
}

} // verus!
