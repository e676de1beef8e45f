//! A keyed table of live objects (SFTP sessions, transfer cancel flags, edit
//! sessions) with the semantics of a map from string keys to values.

use vstd::prelude::*;
use crate::error::{AppError, ErrorDetail, ErrorKind, error_is, detail_is_empty};
use crate::ids::{is_uuid_v4_text, new_id, uuid_v4_text};
use crate::text::str_eq;

verus! {

/// `e` holds an entry with key `k`.
pub open spec fn has_key<V>(e: Seq<(String, V)>, k: Seq<char>) -> bool {
    exists|i: int| 0 <= i < e.len() && (#[trigger] e[i]).0@ == k
}

/// No two entries of `e` share a key.
pub open spec fn keys_distinct<V>(e: Seq<(String, V)>) -> bool {
    forall|i: int, j: int|
        0 <= i < e.len() && 0 <= j < e.len() && i != j ==> (#[trigger] e[i]).0@ != (
        #[trigger] e[j]).0@
}

/// The map that the entries `e` describe.
pub open spec fn entries_view<V>(e: Seq<(String, V)>) -> Map<Seq<char>, V> {
    Map::new(
        |k: Seq<char>| has_key(e, k),
        |k: Seq<char>| e[choose|i: int| 0 <= i < e.len() && (#[trigger] e[i]).0@ == k].1,
    )
}

/// A table from string keys to values; each key occurs at most once.
pub struct Registry<V> {
    entries: Vec<(String, V)>,
}

impl<V> View for Registry<V> {
    type V = Map<Seq<char>, V>;

    open spec fn view(&self) -> Map<Seq<char>, V> {
        entries_view(self.entries())
    }
}

proof fn lemma_view_at<V>(e: Seq<(String, V)>, i: int)
    requires
        keys_distinct(e),
        0 <= i < e.len(),
    ensures
        entries_view(e).contains_key(e[i].0@),
        entries_view(e)[e[i].0@] == e[i].1,
{
    let k = e[i].0@;
    assert(has_key(e, k));
    let j = choose|j: int| 0 <= j < e.len() && (#[trigger] e[j]).0@ == k;
    assert(j == i);
}

proof fn lemma_view_push<V>(e: Seq<(String, V)>, key: String, value: V)
    requires
        keys_distinct(e),
        !has_key(e, key@),
    ensures
        keys_distinct(e.push((key, value))),
        entries_view(e.push((key, value))) =~= entries_view(e).insert(key@, value),
{
    let e2 = e.push((key, value));
    assert forall|i: int, j: int|
        0 <= i < e2.len() && 0 <= j < e2.len() && i != j implies (#[trigger] e2[i]).0@ != (
        #[trigger] e2[j]).0@ by {
        if i == e.len() {
            assert(e2[j] == e[j]);
        } else if j == e.len() {
            assert(e2[i] == e[i]);
        } else {
            assert(e2[i] == e[i] && e2[j] == e[j]);
        }
    }
    let m = entries_view(e).insert(key@, value);
    assert forall|k: Seq<char>| #[trigger] entries_view(e2).contains_key(k) <==> m.contains_key(k) by {
        if has_key(e2, k) {
            let i = choose|i: int| 0 <= i < e2.len() && (#[trigger] e2[i]).0@ == k;
            if i < e.len() {
                assert(e2[i] == e[i]);
                assert(has_key(e, k));
            }
        }
        if has_key(e, k) {
            let i = choose|i: int| 0 <= i < e.len() && (#[trigger] e[i]).0@ == k;
            assert(e2[i] == e[i]);
            assert(has_key(e2, k));
        }
        if k == key@ {
            assert(e2[e.len() as int].0@ == k);
            assert(has_key(e2, k));
        }
    }
    assert forall|k: Seq<char>| #[trigger] entries_view(e2).contains_key(k) implies entries_view(
        e2,
    )[k] == m[k] by {
        if k == key@ {
            lemma_view_at(e2, e.len() as int);
        } else {
            assert(has_key(e, k));
            let i = choose|i: int| 0 <= i < e.len() && (#[trigger] e[i]).0@ == k;
            assert(e2[i] == e[i]);
            lemma_view_at(e2, i);
            lemma_view_at(e, i);
        }
    }
}

proof fn lemma_view_remove<V>(e: Seq<(String, V)>, i: int)
    requires
        keys_distinct(e),
        0 <= i < e.len(),
    ensures
        keys_distinct(e.remove(i)),
        entries_view(e.remove(i)) =~= entries_view(e).remove(e[i].0@),
{
    let e2 = e.remove(i);
    let key = e[i].0@;
    assert forall|a: int, b: int|
        0 <= a < e2.len() && 0 <= b < e2.len() && a != b implies (#[trigger] e2[a]).0@ != (
        #[trigger] e2[b]).0@ by {
        let a1 = if a < i {
            a
        } else {
            a + 1
        };
        let b1 = if b < i {
            b
        } else {
            b + 1
        };
        assert(e2[a] == e[a1] && e2[b] == e[b1]);
    }
    let m = entries_view(e).remove(key);
    assert forall|k: Seq<char>| #[trigger] entries_view(e2).contains_key(k) <==> m.contains_key(k) by {
        if has_key(e2, k) {
            let a = choose|a: int| 0 <= a < e2.len() && (#[trigger] e2[a]).0@ == k;
            let a1 = if a < i {
                a
            } else {
                a + 1
            };
            assert(e2[a] == e[a1]);
            assert(has_key(e, k));
            assert(a1 != i);
        }
        if has_key(e, k) && k != key {
            let a = choose|a: int| 0 <= a < e.len() && (#[trigger] e[a]).0@ == k;
            let a2 = if a < i {
                a
            } else {
                a - 1
            };
            assert(e2[a2] == e[a]);
            assert(has_key(e2, k));
        }
    }
    assert forall|k: Seq<char>| #[trigger] entries_view(e2).contains_key(k) implies entries_view(
        e2,
    )[k] == m[k] by {
        let a = choose|a: int| 0 <= a < e2.len() && (#[trigger] e2[a]).0@ == k;
        let a1 = if a < i {
            a
        } else {
            a + 1
        };
        assert(e2[a] == e[a1]);
        lemma_view_at(e2, a);
        lemma_view_at(e, a1);
    }
}

impl<V> Registry<V> {
    /// The entries, in storage order.
    pub closed spec fn entries(&self) -> Seq<(String, V)> {
        self.entries@
    }

    #[verifier::type_invariant]
    closed spec fn inv(&self) -> bool {
        keys_distinct(self.entries@)
    }

    /// An empty table.
    pub fn new() -> (r: Self)
        ensures
            r@ =~= Map::<Seq<char>, V>::empty(),
    {
        let r = Registry { entries: Vec::new() };
        proof {
            assert forall|k: Seq<char>| !(#[trigger] r@.contains_key(k)) by {
                assert(!has_key(r.entries@, k));
            }
        }
        r
    }

    fn find(&self, key: &str) -> (r: Option<usize>)
        ensures
            match r {
                Some(i) => i < self.entries@.len() && self.entries@[i as int].0@ == key@,
                None => !has_key(self.entries@, key@),
            },
    {
        let n = self.entries.len();
        let mut i: usize = 0;
        while i < n
            invariant
                n == self.entries@.len(),
                i <= n,
                forall|j: int| 0 <= j < i ==> (#[trigger] self.entries@[j]).0@ != key@,
            decreases n - i,
        {
            if str_eq(self.entries[i].0.as_str(), key) {
                return Some(i);
            }
            i = i + 1;
        }
        None
    }

    /// Whether `key` has an entry.
    pub fn contains_key(&self, key: &str) -> (r: bool)
        ensures
            r == self@.contains_key(key@),
    {
        self.find(key).is_some()
    }

    /// The value stored under `key`.
    pub fn get(&self, key: &str) -> (r: Option<&V>)
        ensures
            match r {
                Some(v) => self@.contains_key(key@) && *v == self@[key@],
                None => !self@.contains_key(key@),
            },
    {
        proof {
            use_type_invariant(self);
        }
        match self.find(key) {
            Some(i) => {
                proof {
                    lemma_view_at(self.entries@, i as int);
                }
                Some(&self.entries[i].1)
            },
            None => None,
        }
    }

    /// Removes the entry of `key` and returns its value.
    pub fn remove(&mut self, key: &str) -> (r: Option<V>)
        ensures
            final(self)@ =~= old(self)@.remove(key@),
            match r {
                Some(v) => old(self)@.contains_key(key@) && v == old(self)@[key@],
                None => !old(self)@.contains_key(key@),
            },
    {
        proof {
            use_type_invariant(&*self);
        }
        match self.find(key) {
            Some(i) => {
                proof {
                    lemma_view_at(self.entries@, i as int);
                    lemma_view_remove(self.entries@, i as int);
                }
                let mut entries = Vec::new();
                std::mem::swap(&mut entries, &mut self.entries);
                let (_k, v) = entries.remove(i);
                self.entries = entries;
                Some(v)
            },
            None => {
                proof {
                    assert(self@.remove(key@) =~= self@);
                }
                None
            },
        }
    }

    /// Stores `value` under `key`, replacing and returning any value stored
    /// there before.
    pub fn insert(&mut self, key: String, value: V) -> (r: Option<V>)
        ensures
            final(self)@ =~= old(self)@.insert(key@, value),
            match r {
                Some(v) => old(self)@.contains_key(key@) && v == old(self)@[key@],
                None => !old(self)@.contains_key(key@),
            },
    {
        let old_value = self.remove(key.as_str());
        proof {
            use_type_invariant(&*self);
            assert(!self@.contains_key(key@));
            assert(!has_key(self.entries@, key@));
            lemma_view_push(self.entries@, key, value);
        }
        let mut entries = Vec::new();
        std::mem::swap(&mut entries, &mut self.entries);
        entries.push((key, value));
        self.entries = entries;
        old_value
    }

    /// All keys, each once.
    pub fn keys(&self) -> (r: Vec<String>)
        ensures
            forall|j: int| 0 <= j < r@.len() ==> self@.contains_key((#[trigger] r@[j])@),
            forall|k: Seq<char>|
                #[trigger] self@.contains_key(k) ==> exists|j: int| 0 <= j < r@.len() && (
                #[trigger] r@[j])@ == k,
    {
        proof {
            use_type_invariant(self);
        }
        let n = self.entries.len();
        let mut r: Vec<String> = Vec::new();
        let mut i: usize = 0;
        while i < n
            invariant
                n == self.entries@.len(),
                keys_distinct(self.entries@),
                i <= n,
                r@.len() == i,
                forall|j: int| 0 <= j < i ==> (#[trigger] r@[j])@ == self.entries@[j].0@,
            decreases n - i,
        {
            r.push(self.entries[i].0.clone());
            i = i + 1;
        }
        proof {
            assert forall|j: int| 0 <= j < r@.len() implies self@.contains_key(
                (#[trigger] r@[j])@,
            ) by {
                lemma_view_at(self.entries@, j);
            }
            assert forall|k: Seq<char>| #[trigger] self@.contains_key(k) implies exists|j: int|
                0 <= j < r@.len() && (#[trigger] r@[j])@ == k by {
                let j = choose|j: int|
                    0 <= j < self.entries@.len() && (#[trigger] self.entries@[j]).0@ == k;
                assert(r@[j]@ == k);
            }
        }
        r
    }

    /// Stores `value` under the identifier built from the random bytes
    /// `random` and returns the identifier.
    pub fn insert_with_new_id(&mut self, value: V, random: [u8; 16]) -> (id: String)
        ensures
            id@ == uuid_v4_text(random@),
            is_uuid_v4_text(id@),
            final(self)@ =~= old(self)@.insert(id@, value),
    {
        let id = new_id(random);
        let key = id.clone();
        let _ = self.insert(key, value);
        id
    }
}

/// What a table reads back after a write: the value just stored under a
/// key, nothing after removing it, and every other key as before.
pub proof fn lemma_read_after_write<V>(m: Map<Seq<char>, V>, key: Seq<char>, value: V, other: Seq<char>)
    requires
        other != key,
    ensures
        m.insert(key, value).contains_key(key) && m.insert(key, value)[key] == value,
        !m.remove(key).contains_key(key),
        m.insert(key, value).contains_key(other) == m.contains_key(other),
        m.remove(key).contains_key(other) == m.contains_key(other),
        m.contains_key(other) ==> m.insert(key, value)[other] == m[other] && m.remove(key)[other]
            == m[other],
{
}

/// Looks up an SFTP session; `sftp_session_not_found` where `sftp_id` has
/// none.
pub fn get_sftp<'a, V>(sessions: &'a Registry<V>, sftp_id: &str) -> (r: Result<&'a V, AppError>)
    ensures
        match r {
            Ok(v) => sessions@.contains_key(sftp_id@) && *v == sessions@[sftp_id@],
            Err(e) => !sessions@.contains_key(sftp_id@) && error_is(
                e,
                ErrorKind::NotFound,
                "sftp_session_not_found"@,
            ) && detail_is_empty(e.detail),
        },
{
    match sessions.get(sftp_id) {
        Some(v) => Ok(v),
        None => Err(AppError::not_found("sftp_session_not_found", ErrorDetail::Empty)),
    }
}

/// Looks up an SSH session; `ssh_session_not_found_msg` where `session_id`
/// has none.
pub fn get_ssh_session<'a, V>(sessions: &'a Registry<V>, session_id: &str) -> (r: Result<
    &'a V,
    AppError,
>)
    ensures
        match r {
            Ok(v) => sessions@.contains_key(session_id@) && *v == sessions@[session_id@],
            Err(e) => !sessions@.contains_key(session_id@) && error_is(
                e,
                ErrorKind::NotFound,
                "ssh_session_not_found_msg"@,
            ) && detail_is_empty(e.detail),
        },
{
    match sessions.get(session_id) {
        Some(v) => Ok(v),
        None => Err(AppError::not_found("ssh_session_not_found_msg", ErrorDetail::Empty)),
    }
}

} // verus!
