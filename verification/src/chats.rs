//! Chat records: presence rows created once per chat, the chat's chosen
//! region, and the errors a region lookup can surface.
use vstd::prelude::*;
use vstd::string::StringExecFns;

use crate::parsing::trimmed;
use crate::seq_util::{
    first_match, lemma_first_match_absent, lemma_first_match_props, lemma_first_match_witness,
};

verus! {

/// One chat's stored row.
pub struct ChatRecord {
    /// The chat, the primary key.
    pub chat_id: i64,
    /// Kind of chat (private, group, ...).
    pub chat_type: String,
    /// Username, when the chat carries one; never stored empty.
    pub username: Option<String>,
    /// First name, when the chat carries one; never stored empty.
    pub first_name: Option<String>,
    /// Last name, when the chat carries one; never stored empty.
    pub last_name: Option<String>,
    /// Title, for group chats; never stored empty.
    pub title: Option<String>,
    /// The chat's chosen region key; never stored empty.
    pub region: Option<String>,
    /// Epoch seconds when the row was first written.
    pub created_at: i64,
}

/// Empty optional values count as absent: the store never holds them.
pub open spec fn chat_meta(o: Option<String>) -> Option<String> {
    match o {
        Some(s) => if s@.len() > 0 {
            Some(s)
        } else {
            None
        },
        None => None,
    }
}

/// The row an insert writes: the record with empty optionals dropped.
pub open spec fn chat_row_of(r: ChatRecord) -> ChatRecord {
    ChatRecord {
        chat_id: r.chat_id,
        chat_type: r.chat_type,
        username: chat_meta(r.username),
        first_name: chat_meta(r.first_name),
        last_name: chat_meta(r.last_name),
        title: chat_meta(r.title),
        region: chat_meta(r.region),
        created_at: r.created_at,
    }
}

/// Predicate matching the row keyed by a chat.
pub open spec fn chat_keyed(chat_id: i64) -> spec_fn(ChatRecord) -> bool {
    |r: ChatRecord| r.chat_id == chat_id
}

/// Index of a chat's row, or -1 when the chat is new.
pub open spec fn chat_index(rows: Seq<ChatRecord>, chat_id: i64) -> int {
    first_match(rows, chat_keyed(chat_id))
}

/// No two rows share a chat.
pub open spec fn chat_ids_unique(rows: Seq<ChatRecord>) -> bool {
    forall|i: int, j: int|
        0 <= i < j < rows.len() ==> (#[trigger] rows[i]).chat_id != (#[trigger] rows[j]).chat_id
}

/// How setting a region rewrites an existing row: the region always
/// moves, everything else is first-writer-wins against the request.
pub open spec fn region_merged(stored: ChatRecord, r: ChatRecord, region: String) -> ChatRecord {
    ChatRecord {
        chat_id: stored.chat_id,
        chat_type: stored.chat_type,
        username: if stored.username is Some {
            stored.username
        } else {
            chat_meta(r.username)
        },
        first_name: if stored.first_name is Some {
            stored.first_name
        } else {
            chat_meta(r.first_name)
        },
        last_name: if stored.last_name is Some {
            stored.last_name
        } else {
            chat_meta(r.last_name)
        },
        title: if stored.title is Some {
            stored.title
        } else {
            chat_meta(r.title)
        },
        region: Some(region),
        created_at: stored.created_at,
    }
}

/// The chat store: one row per chat.
pub struct ChatsStore {
    rows: Vec<ChatRecord>,
}

impl ChatsStore {
    /// The rows held by the store, in insertion order.
    pub closed spec fn rows_seq(self) -> Seq<ChatRecord> {
        self.rows@
    }

    /// Store invariant: unique chats.
    pub open spec fn wf(self) -> bool {
        chat_ids_unique(self.rows_seq())
    }

    /// An empty store.
    pub fn new() -> (r: Self)
        ensures
            r.wf(),
            r.rows_seq() == Seq::<ChatRecord>::empty(),
    {
        let r = ChatsStore { rows: Vec::new() };
        proof {
            assert(r.rows@ =~= Seq::<ChatRecord>::empty());
        }
        r
    }

    /// Writes a chat's presence row under the condition "chat absent":
    /// a known chat is left exactly as it was, and the call reports
    /// whether the row was created.
    pub fn insert_chat_if_missing(&mut self, record: &ChatRecord) -> (created: bool)
        requires
            old(self).wf(),
        ensures
            final(self).wf(),
            created == (chat_index(old(self).rows_seq(), record.chat_id) == -1),
            created ==> final(self).rows_seq() == old(self).rows_seq().push(chat_row_of(*record)),
            !created ==> final(self).rows_seq() == old(self).rows_seq(),
    {
        let ghost rows0 = self.rows_seq();
        let ghost key = chat_keyed(record.chat_id);
        let n = self.rows.len();
        let mut i: usize = 0;
        while i < n
            invariant
                old(self).wf(),
                rows0 == old(self).rows_seq(),
                self.rows_seq() == rows0,
                key == chat_keyed(record.chat_id),
                n == rows0.len(),
                0 <= i <= n,
                forall|k: int| 0 <= k < i ==> !key(#[trigger] rows0[k]),
            decreases n - i,
        {
            if self.rows[i].chat_id == record.chat_id {
                proof {
                    lemma_first_match_witness(rows0, key, i as int);
                }
                return false;
            }
            i += 1;
        }
        proof {
            lemma_first_match_absent(rows0, key);
        }
        let row = ChatRecord {
            chat_id: record.chat_id,
            chat_type: record.chat_type.clone(),
            username: normalize_chat_meta(&record.username),
            first_name: normalize_chat_meta(&record.first_name),
            last_name: normalize_chat_meta(&record.last_name),
            title: normalize_chat_meta(&record.title),
            region: normalize_chat_meta(&record.region),
            created_at: record.created_at,
        };
        assert(row == chat_row_of(*record));
        self.rows.push(row);
        proof {
            let newrows = self.rows_seq();
            assert forall|a: int, b: int| 0 <= a < b < newrows.len() implies (
            #[trigger] newrows[a]).chat_id != (#[trigger] newrows[b]).chat_id by {
                if b < newrows.len() - 1 {
                    assert(newrows[a] == rows0[a] && newrows[b] == rows0[b]);
                } else {
                    assert(newrows[a] == rows0[a]);
                    assert(!key(rows0[a]));
                }
            }
        }
        true
    }

    /// Sets a chat's region: an existing row keeps what it has (the
    /// region aside), a new chat's row is created from the request. A
    /// blank region is refused and writes nothing.
    pub fn upsert_chat_region(&mut self, record: &ChatRecord, region: &String) -> (r: Result<
        (),
        &'static str,
    >)
        requires
            old(self).wf(),
        ensures
            final(self).wf(),
            r is Err <==> trimmed(region@).len() == 0,
            r is Err ==> final(self).rows_seq() == old(self).rows_seq(),
            r is Ok ==> {
                let i = chat_index(old(self).rows_seq(), record.chat_id);
                let written = chat_region_written(old(self).rows_seq(), *record, *region);
                final(self).rows_seq() == if i == -1 {
                    old(self).rows_seq().push(written)
                } else {
                    old(self).rows_seq().update(i, written)
                }
            },
    {
        proof {
            reveal_strlit("region is empty");
        }
        let t = crate::parsing::trim_spaces(region.as_str());
        if t.as_str().is_empty() {
            return Err("region is empty");
        }
        let region_string = region.clone();
        let ghost rows0 = self.rows_seq();
        let ghost key = chat_keyed(record.chat_id);
        let n = self.rows.len();
        let mut i: usize = 0;
        while i < n
            invariant
                old(self).wf(),
                rows0 == old(self).rows_seq(),
                self.rows_seq() == rows0,
                key == chat_keyed(record.chat_id),
                region_string == *region,
                trimmed(region@).len() > 0,
                n == rows0.len(),
                0 <= i <= n,
                forall|k: int| 0 <= k < i ==> !key(#[trigger] rows0[k]),
            decreases n - i,
        {
            if self.rows[i].chat_id == record.chat_id {
                proof {
                    lemma_first_match_witness(rows0, key, i as int);
                }
                let stored = &self.rows[i];
                let merged = ChatRecord {
                    chat_id: stored.chat_id,
                    chat_type: stored.chat_type.clone(),
                    username: if stored.username.is_some() {
                        clone_chat_meta(&stored.username)
                    } else {
                        normalize_chat_meta(&record.username)
                    },
                    first_name: if stored.first_name.is_some() {
                        clone_chat_meta(&stored.first_name)
                    } else {
                        normalize_chat_meta(&record.first_name)
                    },
                    last_name: if stored.last_name.is_some() {
                        clone_chat_meta(&stored.last_name)
                    } else {
                        normalize_chat_meta(&record.last_name)
                    },
                    title: if stored.title.is_some() {
                        clone_chat_meta(&stored.title)
                    } else {
                        normalize_chat_meta(&record.title)
                    },
                    region: Some(region_string),
                    created_at: stored.created_at,
                };
                assert(merged == region_merged(rows0[i as int], *record, *region));
                self.rows[i] = merged;
                proof {
                    let newrows = self.rows_seq();
                    assert forall|a: int, b: int| 0 <= a < b < newrows.len() implies (
                    #[trigger] newrows[a]).chat_id != (#[trigger] newrows[b]).chat_id by {
                        assert(newrows[a].chat_id == rows0[a].chat_id);
                        assert(newrows[b].chat_id == rows0[b].chat_id);
                    }
                }
                return Ok(());
            }
            i += 1;
        }
        proof {
            lemma_first_match_absent(rows0, key);
        }
        let row = ChatRecord {
            chat_id: record.chat_id,
            chat_type: record.chat_type.clone(),
            username: normalize_chat_meta(&record.username),
            first_name: normalize_chat_meta(&record.first_name),
            last_name: normalize_chat_meta(&record.last_name),
            title: normalize_chat_meta(&record.title),
            region: Some(region_string),
            created_at: record.created_at,
        };
        self.rows.push(row);
        proof {
            let newrows = self.rows_seq();
            assert forall|a: int, b: int| 0 <= a < b < newrows.len() implies (
            #[trigger] newrows[a]).chat_id != (#[trigger] newrows[b]).chat_id by {
                if b < newrows.len() - 1 {
                    assert(newrows[a] == rows0[a] && newrows[b] == rows0[b]);
                } else {
                    assert(newrows[a] == rows0[a]);
                    assert(!key(rows0[a]));
                }
            }
        }
        Ok(())
    }

    /// The region a chat chose, if it chose one.
    pub fn get_chat_region(&self, chat_id: i64) -> (r: Option<String>)
        ensures
            match r {
                Some(region) => {
                    let i = chat_index(self.rows_seq(), chat_id);
                    &&& i != -1
                    &&& self.rows_seq()[i].region is Some
                    &&& self.rows_seq()[i].region.unwrap()@.len() > 0
                    &&& region@ == self.rows_seq()[i].region.unwrap()@
                },
                None => {
                    let i = chat_index(self.rows_seq(), chat_id);
                    i == -1 || self.rows_seq()[i].region is None || self.rows_seq()[
                        i
                    ].region.unwrap()@.len() == 0
                },
            },
    {
        let ghost key = chat_keyed(chat_id);
        let n = self.rows.len();
        let mut i: usize = 0;
        while i < n
            invariant
                key == chat_keyed(chat_id),
                n == self.rows_seq().len(),
                0 <= i <= n,
                forall|k: int| 0 <= k < i ==> !key(#[trigger] self.rows_seq()[k]),
            decreases n - i,
        {
            if self.rows[i].chat_id == chat_id {
                proof {
                    lemma_first_match_witness(self.rows_seq(), key, i as int);
                }
                match &self.rows[i].region {
                    Some(region) => {
                        if region.as_str().is_empty() {
                            return None;
                        }
                        return Some(region.clone());
                    },
                    None => {
                        return None;
                    },
                }
            }
            i += 1;
        }
        proof {
            lemma_first_match_absent(self.rows_seq(), key);
        }
        None
    }
}

/// The row `upsert_chat_region` leaves for a chat: the merge against an
/// existing row, or a fresh row from the request, the region set either
/// way.
pub open spec fn chat_region_written(
    rows: Seq<ChatRecord>,
    record: ChatRecord,
    region: String,
) -> ChatRecord {
    let i = chat_index(rows, record.chat_id);
    if i == -1 {
        ChatRecord {
            chat_id: record.chat_id,
            chat_type: record.chat_type,
            username: chat_meta(record.username),
            first_name: chat_meta(record.first_name),
            last_name: chat_meta(record.last_name),
            title: chat_meta(record.title),
            region: Some(region),
            created_at: record.created_at,
        }
    } else {
        region_merged(rows[i], record, region)
    }
}

/// Drops an empty optional value.
fn normalize_chat_meta(o: &Option<String>) -> (r: Option<String>)
    ensures
        r == chat_meta(*o),
{
    match o {
        Some(s) => {
            if s.as_str().is_empty() {
                None
            } else {
                Some(s.clone())
            }
        },
        None => None,
    }
}

/// Clones an optional value unchanged.
fn clone_chat_meta(o: &Option<String>) -> (r: Option<String>)
    ensures
        r == *o,
{
    match o {
        Some(s) => Some(s.clone()),
        None => None,
    }
}

/// What can go wrong when a chat's region is looked up: the chats table
/// is not configured, or the store could not be read.
pub enum ChatRegionLookupError {
    /// The chats table name is missing from the configuration.
    MissingChatsTable,
    /// The store read failed; the text describes the failure.
    LookupFailed(String),
}

impl ChatRegionLookupError {
    /// The message shown to the chat for this failure.
    pub fn user_message(&self) -> (r: &'static str)
        ensures
            match self {
                ChatRegionLookupError::MissingChatsTable => r@ == (
                "Configurazione non disponibile. Riprova piu tardi.")@,
                ChatRegionLookupError::LookupFailed(_) => r@ == (
                "Errore nel recupero della regione. Riprova piu tardi.")@,
            },
    {
        match self {
            ChatRegionLookupError::MissingChatsTable => {
                "Configurazione non disponibile. Riprova piu tardi."
            },
            ChatRegionLookupError::LookupFailed(_) => {
                "Errore nel recupero della regione. Riprova piu tardi."
            },
        }
    }
}

} // verus!
