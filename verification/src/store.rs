//! Accounts and their cursors: what a store holds, how its keys are laid
//! out, and a store that lives in memory.

use crate::text::{
    chars_of, contains, decimal, decimal_value, ends_with, from_decimal, has_suffix, occurs_in,
    to_decimal,
};
use vstd::prelude::*;
use vstd::string::*;

verus! {

/// After how many seconds an account leaves IDLE by itself where it does
/// not say so: a little under the half hour after which servers give up.
pub const DEFAULT_IDLE_TIME_SECONDS: u64 = 1740;

/// How many seconds an account rests between two rounds where it does not
/// say so.
pub const DEFAULT_WAIT_TIME_SECONDS: u64 = 10;

/// The mailbox of an account that names none.
pub fn default_mailbox() -> (r: &'static str)
    ensures
        r@ == "INBOX"@,
{
    "INBOX"
}

/// An account to ingest mail from. The email is its key.
#[derive(Debug, PartialEq, Eq)]
pub struct Account {
    pub email: String,
    pub password: String,
    pub mailbox: String,
    pub imap_host: String,
    /// After how many seconds of silence the client leaves IDLE by itself.
    pub idle_time_seconds: u64,
    /// How many seconds the loop rests between two rounds.
    pub wait_time_seconds: u64,
}

/// What an `Account` holds.
pub ghost struct AccountView {
    pub email: Seq<char>,
    pub password: Seq<char>,
    pub mailbox: Seq<char>,
    pub imap_host: Seq<char>,
    pub idle_time_seconds: u64,
    pub wait_time_seconds: u64,
}

impl View for Account {
    type V = AccountView;

    open spec fn view(&self) -> AccountView {
        AccountView {
            email: self.email@,
            password: self.password@,
            mailbox: self.mailbox@,
            imap_host: self.imap_host@,
            idle_time_seconds: self.idle_time_seconds,
            wait_time_seconds: self.wait_time_seconds,
        }
    }
}

impl Clone for Account {
    fn clone(&self) -> (r: Self)
        ensures
            r@ == self@,
    {
        Account {
            email: self.email.clone(),
            password: self.password.clone(),
            mailbox: self.mailbox.clone(),
            imap_host: self.imap_host.clone(),
            idle_time_seconds: self.idle_time_seconds,
            wait_time_seconds: self.wait_time_seconds,
        }
    }
}

/// How an account is shown in a log line: without its password.
pub open spec fn account_line(a: AccountView) -> Seq<char> {
    "(email: "@ + a.email + ", mailbox: "@ + a.mailbox + ", imap_host: "@ + a.imap_host + ")"@
}

impl Account {
    /// The account as a log line, which leaves the password out.
    pub fn describe(&self) -> (r: String)
        ensures
            r@ == account_line(self@),
    {
        let mut r = "(email: ".to_owned();
        r.append(self.email.as_str());
        r.append(", mailbox: ");
        r.append(self.mailbox.as_str());
        r.append(", imap_host: ");
        r.append(self.imap_host.as_str());
        r.append(")");
        r
    }
}

/// Why a store could not answer.
#[derive(Clone, Copy, Debug, PartialEq, Eq, Structural)]
pub enum StoreError {
    /// The backing store could not be reached or refused the request.
    Unavailable,
    /// A stored value is not in the form it was written in.
    Malformed,
}

/// The key under which the account `email` is stored.
pub open spec fn account_key_of(email: Seq<char>) -> Seq<char> {
    "account:"@ + email
}

/// The key under which the cursor of `email` is stored.
pub open spec fn sequence_key_of(email: Seq<char>) -> Seq<char> {
    "seq:"@ + email
}

/// The pattern that the account keys of `host` match.
pub open spec fn host_pattern_of(host: Seq<char>) -> Seq<char> {
    "account:*@"@ + host
}

/// The email `email` belongs to `host`: it ends with `@` and the host. The
/// host `*` stands for every host, and then any email with an `@` belongs.
pub open spec fn belongs_to_host(email: Seq<char>, host: Seq<char>) -> bool {
    if host == "*"@ {
        occurs_in(email, "@"@)
    } else {
        ends_with(email, "@"@ + host)
    }
}

/// The key under which the account `email` is stored: `account:` and the
/// email.
pub fn account_key(email: &str) -> (r: String)
    ensures
        r@ == account_key_of(email@),
{
    let mut r = "account:".to_owned();
    r.append(email);
    r
}

/// The key under which the cursor of `email` is stored: `seq:` and the
/// email.
pub fn sequence_key(email: &str) -> (r: String)
    ensures
        r@ == sequence_key_of(email@),
{
    let mut r = "seq:".to_owned();
    r.append(email);
    r
}

/// The pattern to scan for the account keys of `host`: `account:*@` and the
/// host.
pub fn host_pattern(host: &str) -> (r: String)
    ensures
        r@ == host_pattern_of(host@),
{
    let mut r = "account:*@".to_owned();
    r.append(host);
    r
}

/// Whether the email `email` belongs to `host`.
pub fn email_belongs_to_host(email: &str, host: &str) -> (r: bool)
    ensures
        r == belongs_to_host(email@, host@),
{
    let address = chars_of(email);
    if host.to_owned() == "*".to_owned() {
        contains(&address, &chars_of("@"))
    } else {
        let mut tail = "@".to_owned();
        tail.append(host);
        has_suffix(&address, &chars_of(tail.as_str()))
    }
}

/// The cursor that a stored text stands for. A cursor that was never stored
/// is 1, so that the first fetch sweeps the whole mailbox.
pub open spec fn sequence_of(stored: Option<Seq<char>>) -> Option<u32> {
    match stored {
        None => Some(1u32),
        Some(text) => match decimal_value(text) {
            Some(v) => if v <= u32::MAX {
                Some(v as u32)
            } else {
                None
            },
            None => None,
        },
    }
}

/// Writes a cursor as it is stored: in decimal.
pub fn encode_sequence(value: u32) -> (r: String)
    ensures
        r@ == decimal(value as nat),
{
    to_decimal(value)
}

/// Reads a cursor as it was stored.
///
/// A cursor that was never stored is 1. A stored text that is no decimal
/// number of 32 bits gives `Malformed`.
pub fn decode_sequence(stored: Option<&str>) -> (r: Result<u32, StoreError>)
    ensures
        r matches Ok(v) ==> sequence_of(optional_chars(stored)) == Some(v),
        r matches Err(e) ==> e == StoreError::Malformed && sequence_of(optional_chars(stored))
            is None,
{
    match stored {
        None => Ok(1),
        Some(text) => match from_decimal(text) {
            Some(v) => Ok(v),
            None => Err(StoreError::Malformed),
        },
    }
}

/// What an optional string slice holds.
pub open spec fn optional_chars(s: Option<&str>) -> Option<Seq<char>> {
    match s {
        Some(s) => Some(s@),
        None => None,
    }
}

/// A cursor that is written and read back is the same cursor.
pub proof fn lemma_sequence_round_trip(value: u32)
    ensures
        sequence_of(Some(decimal(value as nat))) == Some(value),
{
    crate::text::lemma_decimal_round_trip(value as nat);
}

/// What each string of a list holds.
pub open spec fn key_views(v: Seq<String>) -> Seq<Seq<char>> {
    v.map_values(|s: String| s@)
}

/// No item of `s` occurs twice.
pub open spec fn distinct(s: Seq<Seq<char>>) -> bool {
    forall|i: int, j: int| 0 <= i < j < s.len() ==> s[i] != s[j]
}

/// `keys`, followed by the items of `page` that were not met before, each
/// once and in the order in which they first come.
pub open spec fn gathered(keys: Seq<Seq<char>>, page: Seq<Seq<char>>) -> Seq<Seq<char>>
    decreases page.len(),
{
    if page.len() == 0 {
        keys
    } else {
        let before = gathered(keys, page.drop_last());
        if before.contains(page.last()) {
            before
        } else {
            before.push(page.last())
        }
    }
}

/// Gathering adds no duplicate and loses nothing: the result holds exactly
/// the keys that were there and the keys of the page, and stays distinct.
pub proof fn lemma_gathered(keys: Seq<Seq<char>>, page: Seq<Seq<char>>)
    requires
        distinct(keys),
    ensures
        distinct(gathered(keys, page)),
        forall|k: Seq<char>|
            gathered(keys, page).contains(k) <==> keys.contains(k) || page.contains(k),
        keys.len() <= gathered(keys, page).len(),
        gathered(keys, page).take(keys.len() as int) == keys,
    decreases page.len(),
{
    if page.len() == 0 {
        assert(gathered(keys, page).take(keys.len() as int) =~= keys);
        assert forall|k: Seq<char>| !page.contains(k) by {}
    } else {
        let front = page.drop_last();
        let before = gathered(keys, front);
        lemma_gathered(keys, front);
        let after = gathered(keys, page);
        assert(after.take(keys.len() as int) =~= before.take(keys.len() as int));
        assert forall|k: Seq<char>| after.contains(k) <==> keys.contains(k) || page.contains(
            k,
        ) by {
            if page.contains(k) {
                let i = choose|i: int| 0 <= i < page.len() && page[i] == k;
                if i < page.len() - 1 {
                    assert(front[i] == k);
                    assert(front.contains(k));
                } else {
                    assert(k == page.last());
                }
            }
            if front.contains(k) {
                let i = choose|i: int| 0 <= i < front.len() && front[i] == k;
                assert(page[i] == k);
            }
            if before.contains(k) {
                let i = choose|i: int| 0 <= i < before.len() && before[i] == k;
                assert(after[i] == k);
            }
            if after.contains(k) && !before.contains(k) {
                let i = choose|i: int| 0 <= i < after.len() && after[i] == k;
                assert(i == before.len());
                assert(page[page.len() - 1] == k);
            }
            if k == page.last() {
                assert(page[page.len() - 1] == k);
                if !before.contains(k) {
                    assert(after[before.len() as int] == k);
                }
            }
        }
    }
}

/// The keys that a scan has gathered so far, and where it stands.
///
/// A scan walks the key space page by page. Each answer carries the cursor
/// for the next request; the cursor 0 says that the walk is over. The same
/// key may come more than once: it is kept once.
pub struct KeyScan {
    pub keys: Vec<String>,
    pub cursor: u64,
    pub finished: bool,
}

impl KeyScan {
    /// The gathered keys are distinct.
    pub open spec fn wf(&self) -> bool {
        distinct(key_views(self.keys@))
    }

    /// A scan that has not asked yet: no keys, cursor 0.
    pub fn new() -> (r: KeyScan)
        ensures
            r.wf(),
            r.keys@.len() == 0,
            r.cursor == 0,
            !r.finished,
    {
        let r = KeyScan { keys: Vec::new(), cursor: 0, finished: false };
        assert(key_views(r.keys@) =~= Seq::empty());
        r
    }

    /// Whether `key` was gathered already.
    pub fn holds(&self, key: &str) -> (r: bool)
        ensures
            r == key_views(self.keys@).contains(key@),
    {
        let wanted = key.to_owned();
        let mut i: usize = 0;
        while i < self.keys.len()
            invariant
                i <= self.keys.len(),
                wanted@ == key@,
                forall|j: int| 0 <= j < i ==> key_views(self.keys@)[j] != key@,
            decreases self.keys.len() - i,
        {
            if self.keys[i] == wanted {
                assert(key_views(self.keys@)[i as int] == key@);
                return true;
            }
            i = i + 1;
        }
        false
    }

    /// Takes in one answer of the store: the next cursor and a page of keys.
    ///
    /// The keys of the page that were not gathered before are added, in
    /// order. The scan is finished exactly when the next cursor is 0.
    pub fn accept(&mut self, next_cursor: u64, page: &Vec<String>)
        ensures
            key_views(final(self).keys@) == gathered(key_views(old(self).keys@), key_views(page@)),
            old(self).wf() ==> final(self).wf(),
            final(self).cursor == next_cursor,
            final(self).finished == (next_cursor == 0),
    {
        let ghost start = key_views(self.keys@);
        let ghost pages = key_views(page@);
        let mut i: usize = 0;
        while i < page.len()
            invariant
                i <= page.len(),
                pages == key_views(page@),
                key_views(self.keys@) == gathered(start, pages.take(i as int)),
            decreases page.len() - i,
        {
            let ghost before = key_views(self.keys@);
            assert(pages.take(i + 1).drop_last() =~= pages.take(i as int));
            assert(pages.take(i + 1).last() == page[i as int]@);
            if !self.holds(page[i].as_str()) {
                self.keys.push(page[i].clone());
                assert(key_views(self.keys@) =~= before.push(page[i as int]@));
            }
            i = i + 1;
        }
        assert(pages.take(i as int) =~= pages);
        proof {
            if distinct(start) {
                lemma_gathered(start, pages);
            }
        }
        self.cursor = next_cursor;
        self.finished = next_cursor == 0;
    }
}

/// What each account of a list holds.
pub open spec fn account_views(v: Seq<Account>) -> Seq<AccountView> {
    v.map_values(|a: Account| a@)
}

/// What an optional account holds.
pub open spec fn optional_account(a: Option<Account>) -> Option<AccountView> {
    match a {
        Some(a) => Some(a@),
        None => None,
    }
}

/// The account stored for `email`, if there is one.
pub open spec fn account_for(
    accounts: Map<Seq<char>, AccountView>,
    email: Seq<char>,
) -> Option<AccountView> {
    if accounts.contains_key(email) {
        Some(accounts[email])
    } else {
        None
    }
}

/// The cursor stored for `email`; 1 where none was stored.
pub open spec fn cursor_for(sequences: Map<Seq<char>, u32>, email: Seq<char>) -> u32 {
    if sequences.contains_key(email) {
        sequences[email]
    } else {
        1
    }
}

/// The emails that belong to `host`.
pub open spec fn emails_of_host(host: Seq<char>) -> Set<Seq<char>> {
    Set::new(|e: Seq<char>| belongs_to_host(e, host))
}

/// `list` is exactly the accounts of `host` among `accounts`, each once.
pub open spec fn lists_host(
    list: Seq<AccountView>,
    accounts: Map<Seq<char>, AccountView>,
    host: Seq<char>,
) -> bool {
    &&& forall|i: int|
        0 <= i < list.len() ==> {
            &&& belongs_to_host((#[trigger] list[i]).email, host)
            &&& accounts.contains_key(list[i].email)
            &&& accounts[list[i].email] == list[i]
        }
    &&& forall|e: Seq<char>|
        #![trigger accounts.contains_key(e)]
        accounts.contains_key(e) && belongs_to_host(e, host) ==> exists|i: int|
            0 <= i < list.len() && (#[trigger] list[i]).email == e
    &&& forall|i: int, j: int|
        0 <= i < j < list.len() ==> (#[trigger] list[i]).email != (#[trigger] list[j]).email
}

/// A store of accounts and of their cursors.
///
/// A store holds at most one account for an email and at most one cursor
/// for an email. A cursor that was never stored loads as 1. Any request may
/// fail.
pub trait Store {
    /// The accounts whose email belongs to `host`, each once.
    fn load_accounts_by_host(&self, host: &str) -> Result<Vec<Account>, StoreError>;

    /// The account stored for `email`, if there is one.
    fn load_account_by_email(&self, email: &str) -> Result<Option<Account>, StoreError>;

    /// Stores `account` under its email, in place of what was there, and
    /// returns what was there.
    fn store_account(&mut self, account: Account) -> Result<Option<Account>, StoreError>;

    /// Removes the account stored for `email`, if there is one.
    fn destroy_account(&mut self, email: &str) -> Result<(), StoreError>;

    /// Removes every account whose email belongs to `host`.
    fn clear_host_accounts(&mut self, host: &str) -> Result<(), StoreError>;

    /// The cursor stored for `email`; 1 where none was stored.
    fn load_last_sequence(&self, email: &str) -> Result<u32, StoreError>;

    /// Stores `value` as the cursor of `email`.
    fn store_last_sequence(&mut self, email: &str, value: u32) -> Result<(), StoreError>;
}

/// One request for the cursor of an email, and what the store answered:
/// the cursor, or nothing where it failed.
pub ghost struct CursorRead {
    pub email: Seq<char>,
    pub answer: Option<u32>,
}

/// One cursor handed to a store to be kept for an email.
pub ghost struct CursorWrite {
    pub email: Seq<char>,
    pub value: u32,
}

/// A store together with three records of what passed between it and the
/// ingestion loop.
///
/// Whatever the store behind it is, the records hold, oldest first: every
/// request for a cursor with its answer; every cursor that was handed to
/// the store; and those among them that the store said it has stored.
pub struct Ledger<S: Store> {
    store: S,
    reads: Ghost<Seq<CursorRead>>,
    asked: Ghost<Seq<CursorWrite>>,
    stored: Ghost<Seq<CursorWrite>>,
}

impl<S: Store> Ledger<S> {
    /// The requests for a cursor and their answers, oldest first.
    pub closed spec fn reads(&self) -> Seq<CursorRead> {
        self.reads@
    }

    /// The cursors that were handed to the store, oldest first, whether it
    /// stored them or not.
    pub closed spec fn asked(&self) -> Seq<CursorWrite> {
        self.asked@
    }

    /// The cursors that the store said it has stored, oldest first.
    pub closed spec fn stored(&self) -> Seq<CursorWrite> {
        self.stored@
    }

    /// The store behind the ledger.
    pub closed spec fn store(&self) -> S {
        self.store
    }

    /// The three records of `self` are those of `other`.
    pub open spec fn same_records(&self, other: &Self) -> bool {
        &&& self.reads() == other.reads()
        &&& self.asked() == other.asked()
        &&& self.stored() == other.stored()
    }

    /// A ledger in front of `store`, with empty records.
    pub fn new(store: S) -> (r: Self)
        ensures
            r.reads() == Seq::<CursorRead>::empty(),
            r.asked() == Seq::<CursorWrite>::empty(),
            r.stored() == Seq::<CursorWrite>::empty(),
            r.store() == store,
    {
        Ledger {
            store,
            reads: Ghost(Seq::empty()),
            asked: Ghost(Seq::empty()),
            stored: Ghost(Seq::empty()),
        }
    }

    /// Asks the store for the cursor of `email`, once, and returns what it
    /// answers. The request and the answer are the newest entry of the
    /// record of requests; the other records are as they were.
    pub fn load_last_sequence(&mut self, email: &str) -> (r: Result<u32, StoreError>)
        ensures
            final(self).reads() == old(self).reads().push(
                CursorRead {
                    email: email@,
                    answer: match r {
                        Ok(v) => Some(v),
                        Err(_) => None,
                    },
                },
            ),
            final(self).asked() == old(self).asked(),
            final(self).stored() == old(self).stored(),
    {
        let r = self.store.load_last_sequence(email);
        proof {
            let answer = match r {
                Ok(v) => Some(v),
                Err(_) => None,
            };
            self.reads@ = self.reads@.push(CursorRead { email: email@, answer });
        }
        r
    }

    /// Hands `value` to the store as the cursor of `email`, once, and
    /// returns what the store answers. The cursor is the newest entry of
    /// the record of what was handed over, whatever the answer. Where the
    /// store says that it has stored it, it is also the newest entry of the
    /// record of what was stored; where not, that record is as it was.
    pub fn store_last_sequence(&mut self, email: &str, value: u32) -> (r: Result<(), StoreError>)
        ensures
            final(self).asked() == old(self).asked().push(CursorWrite { email: email@, value }),
            r is Ok ==> final(self).stored() == old(self).stored().push(
                CursorWrite { email: email@, value },
            ),
            r is Err ==> final(self).stored() == old(self).stored(),
            final(self).reads() == old(self).reads(),
    {
        let r = self.store.store_last_sequence(email, value);
        proof {
            self.asked@ = self.asked@.push(CursorWrite { email: email@, value });
            if r is Ok {
                self.stored@ = self.stored@.push(CursorWrite { email: email@, value });
            }
        }
        r
    }

    /// The store behind the ledger.
    pub fn get_ref(&self) -> (r: &S)
        ensures
            *r == self.store(),
    {
        &self.store
    }

    /// Gives the store back and drops the records.
    pub fn into_inner(self) -> (r: S)
        ensures
            r == self.store(),
    {
        self.store
    }
}

/// The cursor of one email, as the store in memory keeps it.
struct StoredSequence {
    email: String,
    value: u32,
}

/// The list `v` and the map `m` hold the same accounts, and no email occurs
/// twice in the list.
spec fn accounts_agree(v: Seq<Account>, m: Map<Seq<char>, AccountView>) -> bool {
    &&& forall|i: int|
        0 <= i < v.len() ==> {
            &&& m.contains_key((#[trigger] v[i]).email@)
            &&& m[v[i].email@] == v[i]@
        }
    &&& forall|e: Seq<char>|
        #![trigger m.contains_key(e)]
        m.contains_key(e) ==> exists|i: int| 0 <= i < v.len() && (#[trigger] v[i]).email@ == e
    &&& distinct_accounts(v)
}

/// No email occurs twice in the list.
spec fn distinct_accounts(v: Seq<Account>) -> bool {
    forall|i: int, j: int|
        0 <= i < j < v.len() ==> (#[trigger] v[i]).email@ != (#[trigger] v[j]).email@
}

/// The list `v` and the map `m` hold the same cursors, and no email occurs
/// twice in the list.
spec fn cursors_agree(v: Seq<StoredSequence>, m: Map<Seq<char>, u32>) -> bool {
    &&& forall|i: int|
        0 <= i < v.len() ==> {
            &&& m.contains_key((#[trigger] v[i]).email@)
            &&& m[v[i].email@] == v[i].value
        }
    &&& forall|e: Seq<char>|
        #![trigger m.contains_key(e)]
        m.contains_key(e) ==> exists|i: int| 0 <= i < v.len() && (#[trigger] v[i]).email@ == e
    &&& distinct_cursors(v)
}

/// No email occurs twice in the list.
spec fn distinct_cursors(v: Seq<StoredSequence>) -> bool {
    forall|i: int, j: int|
        0 <= i < j < v.len() ==> (#[trigger] v[i]).email@ != (#[trigger] v[j]).email@
}

/// The accounts of a list, by email.
spec fn held_by(v: Seq<Account>) -> Map<Seq<char>, AccountView> {
    Map::new(
        |e: Seq<char>| exists|i: int| 0 <= i < v.len() && (#[trigger] v[i]).email@ == e,
        |e: Seq<char>| v[choose|i: int| 0 <= i < v.len() && (#[trigger] v[i]).email@ == e]@,
    )
}

/// The cursors of a list, by email.
spec fn marked_by(v: Seq<StoredSequence>) -> Map<Seq<char>, u32> {
    Map::new(
        |e: Seq<char>| exists|i: int| 0 <= i < v.len() && (#[trigger] v[i]).email@ == e,
        |e: Seq<char>| v[choose|i: int| 0 <= i < v.len() && (#[trigger] v[i]).email@ == e].value,
    )
}

/// A list without a repeated email agrees with the map made of it, and
/// with no other.
proof fn lemma_held_by(v: Seq<Account>, m: Map<Seq<char>, AccountView>)
    requires
        distinct_accounts(v),
    ensures
        accounts_agree(v, held_by(v)),
        accounts_agree(v, m) ==> m == held_by(v),
{
    let h = held_by(v);
    assert forall|i: int| 0 <= i < v.len() implies {
        &&& h.contains_key((#[trigger] v[i]).email@)
        &&& h[v[i].email@] == v[i]@
    } by {
        let e = v[i].email@;
        let j = choose|j: int| 0 <= j < v.len() && (#[trigger] v[j]).email@ == e;
        assert(j == i);
    }
    if accounts_agree(v, m) {
        assert forall|e: Seq<char>| m.contains_key(e) <==> h.contains_key(e) by {
            if h.contains_key(e) {
                let j = choose|j: int| 0 <= j < v.len() && (#[trigger] v[j]).email@ == e;
                assert(m.contains_key(v[j].email@));
            }
        }
        assert forall|e: Seq<char>| m.contains_key(e) implies m[e] == h[e] by {
            let j = choose|j: int| 0 <= j < v.len() && (#[trigger] v[j]).email@ == e;
            assert(m[v[j].email@] == v[j]@);
            assert(h[v[j].email@] == v[j]@);
        }
        assert(m =~= h);
    }
}

/// A list without a repeated email agrees with the map made of it, and
/// with no other.
proof fn lemma_marked_by(v: Seq<StoredSequence>, m: Map<Seq<char>, u32>)
    requires
        distinct_cursors(v),
    ensures
        cursors_agree(v, marked_by(v)),
        cursors_agree(v, m) ==> m == marked_by(v),
{
    let h = marked_by(v);
    assert forall|i: int| 0 <= i < v.len() implies {
        &&& h.contains_key((#[trigger] v[i]).email@)
        &&& h[v[i].email@] == v[i].value
    } by {
        let e = v[i].email@;
        let j = choose|j: int| 0 <= j < v.len() && (#[trigger] v[j]).email@ == e;
        assert(j == i);
    }
    if cursors_agree(v, m) {
        assert forall|e: Seq<char>| m.contains_key(e) <==> h.contains_key(e) by {
            if h.contains_key(e) {
                let j = choose|j: int| 0 <= j < v.len() && (#[trigger] v[j]).email@ == e;
                assert(m.contains_key(v[j].email@));
            }
        }
        assert forall|e: Seq<char>| m.contains_key(e) implies m[e] == h[e] by {
            let j = choose|j: int| 0 <= j < v.len() && (#[trigger] v[j]).email@ == e;
            assert(m[v[j].email@] == v[j].value);
            assert(h[v[j].email@] == v[j].value);
        }
        assert(m =~= h);
    }
}

/// A store that lives in memory, and never fails.
pub struct MemoryStore {
    accounts: Vec<Account>,
    cursors: Vec<StoredSequence>,
}

impl MemoryStore {
    /// No email has two accounts, and none has two cursors.
    #[verifier::type_invariant]
    closed spec fn inv(&self) -> bool {
        distinct_accounts(self.accounts@) && distinct_cursors(self.cursors@)
    }

    /// The accounts held, by email.
    pub closed spec fn accounts(&self) -> Map<Seq<char>, AccountView> {
        held_by(self.accounts@)
    }

    /// The cursors held, by email.
    pub closed spec fn sequences(&self) -> Map<Seq<char>, u32> {
        marked_by(self.cursors@)
    }

    /// A store that holds nothing.
    pub fn new() -> (r: MemoryStore)
        ensures
            r.accounts() == Map::<Seq<char>, AccountView>::empty(),
            r.sequences() == Map::<Seq<char>, u32>::empty(),
    {
        let r = MemoryStore { accounts: Vec::new(), cursors: Vec::new() };
        assert(r.accounts() =~= Map::<Seq<char>, AccountView>::empty());
        assert(r.sequences() =~= Map::<Seq<char>, u32>::empty());
        r
    }

    /// Where the account of `email` stands in the list.
    fn position(&self, email: &str) -> (r: Option<usize>)
        ensures
            r matches Some(i) ==> i < self.accounts@.len() && self.accounts@[i as int].email@
                == email@,
            r is None ==> forall|j: int|
                0 <= j < self.accounts@.len() ==> (#[trigger] self.accounts@[j]).email@ != email@,
    {
        let wanted = email.to_owned();
        let mut i: usize = 0;
        while i < self.accounts.len()
            invariant
                i <= self.accounts.len(),
                wanted@ == email@,
                forall|j: int| 0 <= j < i ==> (#[trigger] self.accounts@[j]).email@ != email@,
            decreases self.accounts.len() - i,
        {
            if self.accounts[i].email == wanted {
                return Some(i);
            }
            i = i + 1;
        }
        None
    }

    /// Where the cursor of `email` stands in the list.
    fn cursor_position(&self, email: &str) -> (r: Option<usize>)
        ensures
            r matches Some(i) ==> i < self.cursors@.len() && self.cursors@[i as int].email@
                == email@,
            r is None ==> forall|j: int|
                0 <= j < self.cursors@.len() ==> (#[trigger] self.cursors@[j]).email@ != email@,
    {
        let wanted = email.to_owned();
        let mut i: usize = 0;
        while i < self.cursors.len()
            invariant
                i <= self.cursors.len(),
                wanted@ == email@,
                forall|j: int| 0 <= j < i ==> (#[trigger] self.cursors@[j]).email@ != email@,
            decreases self.cursors.len() - i,
        {
            if self.cursors[i].email == wanted {
                return Some(i);
            }
            i = i + 1;
        }
        None
    }
}

impl Store for MemoryStore {
    /// Never fails. The list holds exactly the accounts of `host`, each
    /// once, in the order in which they were first stored.
    fn load_accounts_by_host(&self, host: &str) -> (r: Result<Vec<Account>, StoreError>)
        ensures
            r matches Ok(v) && lists_host(account_views(v@), self.accounts(), host@),
    {
        proof {
            use_type_invariant(self);
            lemma_held_by(self.accounts@, self.accounts());
        }
        let mut found: Vec<Account> = Vec::new();
        let ghost mut origin: Seq<int> = Seq::empty();
        let mut i: usize = 0;
        while i < self.accounts.len()
            invariant
                i <= self.accounts.len(),
                origin.len() == found@.len(),
                forall|k: int|
                    0 <= k < found@.len() ==> {
                        &&& 0 <= #[trigger] origin[k] < i
                        &&& found@[k]@ == self.accounts@[origin[k]]@
                        &&& belongs_to_host(found@[k].email@, host@)
                    },
                forall|k: int, l: int| 0 <= k < l < origin.len() ==> origin[k] < origin[l],
                forall|j: int|
                    0 <= j < i && belongs_to_host((#[trigger] self.accounts@[j]).email@, host@)
                        ==> exists|k: int| 0 <= k < origin.len() && #[trigger] origin[k] == j,
            decreases self.accounts.len() - i,
        {
            if email_belongs_to_host(self.accounts[i].email.as_str(), host) {
                found.push(self.accounts[i].clone());
                proof {
                    let ghost before = origin;
                    origin = origin.push(i as int);
                    assert forall|j: int|
                        0 <= j < i + 1 && belongs_to_host(
                            (#[trigger] self.accounts@[j]).email@,
                            host@,
                        ) implies exists|k: int| 0 <= k < origin.len() && #[trigger] origin[k]
                        == j by {
                        if j < i {
                            let k = choose|k: int|
                                0 <= k < before.len() && #[trigger] before[k] == j;
                            assert(origin[k] == j);
                        } else {
                            assert(origin[before.len() as int] == j);
                        }
                    }
                }
            }
            i = i + 1;
        }
        proof {
            let list = account_views(found@);
            let held = self.accounts();
            assert forall|k: int| 0 <= k < list.len() implies {
                &&& belongs_to_host((#[trigger] list[k]).email, host@)
                &&& held.contains_key(list[k].email)
                &&& held[list[k].email] == list[k]
            } by {
                let j = origin[k];
                assert(self.accounts@[j].email@ == list[k].email);
            }
            assert forall|e: Seq<char>|
                #![trigger held.contains_key(e)]
                held.contains_key(e) && belongs_to_host(e, host@) implies exists|k: int|
                0 <= k < list.len() && (#[trigger] list[k]).email == e by {
                let j = choose|j: int|
                    0 <= j < self.accounts@.len() && (#[trigger] self.accounts@[j]).email@ == e;
                let k = choose|k: int| 0 <= k < origin.len() && #[trigger] origin[k] == j;
                assert(list[k].email == e);
            }
            assert forall|k: int, l: int| 0 <= k < l < list.len() implies (#[trigger] list[k]).email
                != (#[trigger] list[l]).email by {
                assert(origin[k] < origin[l]);
                assert(self.accounts@[origin[k]].email@ != self.accounts@[origin[l]].email@);
            }
        }
        Ok(found)
    }

    /// Never fails. Returns the account held for `email`, if there is one.
    fn load_account_by_email(&self, email: &str) -> (r: Result<Option<Account>, StoreError>)
        ensures
            r matches Ok(found) && optional_account(found) == account_for(self.accounts(), email@),
    {
        proof {
            use_type_invariant(self);
            lemma_held_by(self.accounts@, self.accounts());
        }
        match self.position(email) {
            Some(i) => {
                assert(self.accounts().contains_key(self.accounts@[i as int].email@));
                Ok(Some(self.accounts[i].clone()))
            },
            None => Ok(None),
        }
    }

    /// Never fails. Afterwards the store holds `account` for its email and
    /// whatever it held for other emails; the cursors are untouched. What
    /// was held for the email before is returned.
    fn store_account(&mut self, account: Account) -> (r: Result<Option<Account>, StoreError>)
        ensures
            final(self).sequences() == old(self).sequences(),
            final(self).accounts() == old(self).accounts().insert(account.email@, account@),
            r matches Ok(prior) && optional_account(prior) == account_for(
                old(self).accounts(),
                account.email@,
            ),
    {
        proof {
            use_type_invariant(&*self);
            lemma_held_by(self.accounts@, self.accounts());
        }
        let ghost view = account@;
        let ghost before = self.accounts@;
        let ghost target = self.accounts().insert(view.email, view);
        match self.position(account.email.as_str()) {
            Some(i) => {
                assert(self.accounts().contains_key(before[i as int].email@));
                let prior = self.accounts[i].clone();
                proof {
                    lemma_account_replaced(before, self.accounts(), i as int, account);
                }
                let mut accounts: Vec<Account> = Vec::new();
                core::mem::swap(&mut self.accounts, &mut accounts);
                accounts.set(i, account);
                proof {
                    lemma_held_by(accounts@, target);
                }
                self.accounts = accounts;
                Ok(Some(prior))
            },
            None => {
                proof {
                    lemma_account_added(before, self.accounts(), account);
                }
                let mut accounts: Vec<Account> = Vec::new();
                core::mem::swap(&mut self.accounts, &mut accounts);
                accounts.push(account);
                proof {
                    lemma_held_by(accounts@, target);
                }
                self.accounts = accounts;
                Ok(None)
            },
        }
    }

    /// Never fails. Afterwards the store holds no account for `email`, and
    /// whatever it held for other emails; the cursors are untouched.
    fn destroy_account(&mut self, email: &str) -> (r: Result<(), StoreError>)
        ensures
            r is Ok,
            final(self).sequences() == old(self).sequences(),
            final(self).accounts() == old(self).accounts().remove(email@),
    {
        proof {
            use_type_invariant(&*self);
            lemma_held_by(self.accounts@, self.accounts());
        }
        let ghost before = self.accounts@;
        let ghost target = self.accounts().remove(email@);
        match self.position(email) {
            Some(i) => {
                proof {
                    lemma_account_removed(before, self.accounts(), i as int);
                }
                let mut accounts: Vec<Account> = Vec::new();
                core::mem::swap(&mut self.accounts, &mut accounts);
                let _ = accounts.remove(i);
                proof {
                    lemma_held_by(accounts@, target);
                }
                self.accounts = accounts;
            },
            None => {
                assert(!self.accounts().contains_key(email@));
                assert(target =~= self.accounts());
            },
        }
        Ok(())
    }

    /// Never fails. Afterwards the store holds no account of `host`, and
    /// whatever it held for other hosts; the cursors are untouched.
    fn clear_host_accounts(&mut self, host: &str) -> (r: Result<(), StoreError>)
        ensures
            r is Ok,
            final(self).sequences() == old(self).sequences(),
            final(self).accounts() == old(self).accounts().remove_keys(emails_of_host(host@)),
    {
        proof {
            use_type_invariant(&*self);
            lemma_held_by(self.accounts@, self.accounts());
        }
        let ghost before = self.accounts@;
        let ghost target = self.accounts().remove_keys(emails_of_host(host@));
        let mut kept: Vec<Account> = Vec::new();
        let ghost mut origin: Seq<int> = Seq::empty();
        let mut i: usize = 0;
        while i < self.accounts.len()
            invariant
                self.accounts@ == before,
                self.cursors@ == old(self).cursors@,
                i <= self.accounts.len(),
                origin.len() == kept@.len(),
                forall|k: int|
                    0 <= k < kept@.len() ==> {
                        &&& 0 <= #[trigger] origin[k] < i
                        &&& kept@[k]@ == before[origin[k]]@
                        &&& !belongs_to_host(kept@[k].email@, host@)
                    },
                forall|k: int, l: int| 0 <= k < l < origin.len() ==> origin[k] < origin[l],
                forall|j: int|
                    0 <= j < i && !belongs_to_host((#[trigger] before[j]).email@, host@)
                        ==> exists|k: int| 0 <= k < origin.len() && #[trigger] origin[k] == j,
            decreases self.accounts.len() - i,
        {
            if !email_belongs_to_host(self.accounts[i].email.as_str(), host) {
                kept.push(self.accounts[i].clone());
                proof {
                    let ghost earlier = origin;
                    origin = origin.push(i as int);
                    assert forall|j: int|
                        0 <= j < i + 1 && !belongs_to_host(
                            (#[trigger] before[j]).email@,
                            host@,
                        ) implies exists|k: int| 0 <= k < origin.len() && #[trigger] origin[k]
                        == j by {
                        if j < i {
                            let k = choose|k: int|
                                0 <= k < earlier.len() && #[trigger] earlier[k] == j;
                            assert(origin[k] == j);
                        } else {
                            assert(origin[earlier.len() as int] == j);
                        }
                    }
                }
            }
            i = i + 1;
        }
        proof {
            let held = self.accounts();
            assert(accounts_agree(kept@, target)) by {
                assert forall|k: int| 0 <= k < kept@.len() implies {
                    &&& target.contains_key((#[trigger] kept@[k]).email@)
                    &&& target[kept@[k].email@] == kept@[k]@
                } by {
                    let j = origin[k];
                    assert(before[j].email@ == kept@[k].email@);
                    assert(held.contains_key(before[j].email@));
                }
                assert forall|e: Seq<char>|
                    #![trigger target.contains_key(e)]
                    target.contains_key(e) implies exists|k: int|
                    0 <= k < kept@.len() && (#[trigger] kept@[k]).email@ == e by {
                    assert(held.contains_key(e));
                    let j = choose|j: int|
                        0 <= j < before.len() && (#[trigger] before[j]).email@ == e;
                    let k = choose|k: int| 0 <= k < origin.len() && #[trigger] origin[k] == j;
                    assert(kept@[k].email@ == e);
                }
                assert forall|k: int, l: int|
                    0 <= k < l < kept@.len() implies (#[trigger] kept@[k]).email@ != (
                #[trigger] kept@[l]).email@ by {
                    assert(origin[k] < origin[l]);
                    assert(before[origin[k]].email@ != before[origin[l]].email@);
                }
            }
            lemma_held_by(kept@, target);
        }
        self.accounts = kept;
        Ok(())
    }

    /// Never fails. Returns the cursor held for `email`, and 1 where there
    /// is none.
    fn load_last_sequence(&self, email: &str) -> (r: Result<u32, StoreError>)
        ensures
            r matches Ok(v) && v == cursor_for(self.sequences(), email@),
    {
        proof {
            use_type_invariant(self);
            lemma_marked_by(self.cursors@, self.sequences());
        }
        match self.cursor_position(email) {
            Some(i) => {
                assert(self.sequences().contains_key(self.cursors@[i as int].email@));
                Ok(self.cursors[i].value)
            },
            None => Ok(1),
        }
    }

    /// Never fails. Afterwards the store holds `value` as the cursor of
    /// `email`, and whatever it held for other emails; the accounts are
    /// untouched.
    fn store_last_sequence(&mut self, email: &str, value: u32) -> (r: Result<(), StoreError>)
        ensures
            r is Ok,
            final(self).accounts() == old(self).accounts(),
            final(self).sequences() == old(self).sequences().insert(email@, value),
    {
        proof {
            use_type_invariant(&*self);
            lemma_marked_by(self.cursors@, self.sequences());
        }
        let ghost before = self.cursors@;
        let ghost target = self.sequences().insert(email@, value);
        let entry = StoredSequence { email: email.to_owned(), value };
        match self.cursor_position(email) {
            Some(i) => {
                assert(self.sequences().contains_key(before[i as int].email@));
                proof {
                    lemma_cursor_replaced(before, self.sequences(), i as int, entry);
                }
                let mut cursors: Vec<StoredSequence> = Vec::new();
                core::mem::swap(&mut self.cursors, &mut cursors);
                cursors.set(i, entry);
                proof {
                    lemma_marked_by(cursors@, target);
                }
                self.cursors = cursors;
            },
            None => {
                proof {
                    lemma_cursor_added(before, self.sequences(), entry);
                }
                let mut cursors: Vec<StoredSequence> = Vec::new();
                core::mem::swap(&mut self.cursors, &mut cursors);
                cursors.push(entry);
                proof {
                    lemma_marked_by(cursors@, target);
                }
                self.cursors = cursors;
            },
        }
        Ok(())
    }
}

/// Putting an account in the place of one with the same email keeps the
/// list in agreement with the map in which it is inserted.
proof fn lemma_account_replaced(
    v: Seq<Account>,
    m: Map<Seq<char>, AccountView>,
    i: int,
    account: Account,
)
    requires
        accounts_agree(v, m),
        0 <= i < v.len(),
        v[i].email@ == account.email@,
    ensures
        accounts_agree(v.update(i, account), m.insert(account.email@, account@)),
{
    let w = v.update(i, account);
    let t = m.insert(account.email@, account@);
    assert forall|k: int| 0 <= k < w.len() implies {
        &&& t.contains_key((#[trigger] w[k]).email@)
        &&& t[w[k].email@] == w[k]@
    } by {
        if k != i {
            assert(w[k] == v[k]);
            if k < i {
                assert(v[k].email@ != v[i].email@);
            } else {
                assert(v[i].email@ != v[k].email@);
            }
        }
    }
    assert forall|e: Seq<char>| #![trigger t.contains_key(e)] t.contains_key(e) implies exists|
        j: int,
    | 0 <= j < w.len() && (#[trigger] w[j]).email@ == e by {
        if e == account.email@ {
            assert(w[i].email@ == e);
        } else {
            assert(m.contains_key(e));
            let j = choose|j: int| 0 <= j < v.len() && (#[trigger] v[j]).email@ == e;
            assert(w[j] == v[j]);
            assert(w[j].email@ == e);
        }
    }
    assert forall|k: int, l: int| 0 <= k < l < w.len() implies (#[trigger] w[k]).email@ != (
    #[trigger] w[l]).email@ by {
        assert(w[k].email@ == v[k].email@);
        assert(w[l].email@ == v[l].email@);
    }
}

/// Adding an account with a new email keeps the list in agreement with
/// the map in which it is inserted.
proof fn lemma_account_added(v: Seq<Account>, m: Map<Seq<char>, AccountView>, account: Account)
    requires
        accounts_agree(v, m),
        forall|j: int| 0 <= j < v.len() ==> (#[trigger] v[j]).email@ != account.email@,
    ensures
        accounts_agree(v.push(account), m.insert(account.email@, account@)),
{
    let w = v.push(account);
    let t = m.insert(account.email@, account@);
    let n = v.len() as int;
    assert forall|k: int| 0 <= k < w.len() implies {
        &&& t.contains_key((#[trigger] w[k]).email@)
        &&& t[w[k].email@] == w[k]@
    } by {
        if k < n {
            assert(w[k] == v[k]);
            assert(m.contains_key(v[k].email@));
        }
    }
    assert forall|e: Seq<char>| #![trigger t.contains_key(e)] t.contains_key(e) implies exists|
        j: int,
    | 0 <= j < w.len() && (#[trigger] w[j]).email@ == e by {
        if e == account.email@ {
            assert(w[n].email@ == e);
        } else {
            assert(m.contains_key(e));
            let j = choose|j: int| 0 <= j < v.len() && (#[trigger] v[j]).email@ == e;
            assert(w[j] == v[j]);
            assert(w[j].email@ == e);
        }
    }
    assert forall|k: int, l: int| 0 <= k < l < w.len() implies (#[trigger] w[k]).email@ != (
    #[trigger] w[l]).email@ by {
        assert(w[k] == v[k]);
        if l < n {
            assert(w[l] == v[l]);
        }
    }
}

/// Taking an account out of the list keeps the list in agreement with the
/// map from which its email is removed.
proof fn lemma_account_removed(v: Seq<Account>, m: Map<Seq<char>, AccountView>, i: int)
    requires
        accounts_agree(v, m),
        0 <= i < v.len(),
    ensures
        accounts_agree(v.remove(i), m.remove(v[i].email@)),
{
    let w = v.remove(i);
    let t = m.remove(v[i].email@);
    assert forall|k: int| 0 <= k < w.len() implies {
        &&& t.contains_key((#[trigger] w[k]).email@)
        &&& t[w[k].email@] == w[k]@
    } by {
        if k < i {
            assert(w[k] == v[k]);
            assert(m.contains_key(v[k].email@));
            assert(v[k].email@ != v[i].email@);
        } else {
            assert(w[k] == v[k + 1]);
            assert(m.contains_key(v[k + 1].email@));
            assert(v[i].email@ != v[k + 1].email@);
        }
    }
    assert forall|e: Seq<char>| #![trigger t.contains_key(e)] t.contains_key(e) implies exists|
        j: int,
    | 0 <= j < w.len() && (#[trigger] w[j]).email@ == e by {
        assert(m.contains_key(e));
        let j = choose|j: int| 0 <= j < v.len() && (#[trigger] v[j]).email@ == e;
        assert(j != i);
        if j < i {
            assert(w[j] == v[j]);
            assert(w[j].email@ == e);
        } else {
            assert(w[j - 1] == v[j]);
            assert(w[j - 1].email@ == e);
        }
    }
    assert forall|k: int, l: int| 0 <= k < l < w.len() implies (#[trigger] w[k]).email@ != (
    #[trigger] w[l]).email@ by {
        let k0 = if k < i { k } else { k + 1 };
        let l0 = if l < i { l } else { l + 1 };
        assert(w[k] == v[k0]);
        assert(w[l] == v[l0]);
    }
}

/// Putting a cursor in the place of one with the same email keeps the
/// list in agreement with the map in which it is inserted.
proof fn lemma_cursor_replaced(
    v: Seq<StoredSequence>,
    m: Map<Seq<char>, u32>,
    i: int,
    entry: StoredSequence,
)
    requires
        cursors_agree(v, m),
        0 <= i < v.len(),
        v[i].email@ == entry.email@,
    ensures
        cursors_agree(v.update(i, entry), m.insert(entry.email@, entry.value)),
{
    let w = v.update(i, entry);
    let t = m.insert(entry.email@, entry.value);
    assert forall|k: int| 0 <= k < w.len() implies {
        &&& t.contains_key((#[trigger] w[k]).email@)
        &&& t[w[k].email@] == w[k].value
    } by {
        if k != i {
            assert(w[k] == v[k]);
            if k < i {
                assert(v[k].email@ != v[i].email@);
            } else {
                assert(v[i].email@ != v[k].email@);
            }
        }
    }
    assert forall|e: Seq<char>| #![trigger t.contains_key(e)] t.contains_key(e) implies exists|
        j: int,
    | 0 <= j < w.len() && (#[trigger] w[j]).email@ == e by {
        if e == entry.email@ {
            assert(w[i].email@ == e);
        } else {
            assert(m.contains_key(e));
            let j = choose|j: int| 0 <= j < v.len() && (#[trigger] v[j]).email@ == e;
            assert(w[j] == v[j]);
            assert(w[j].email@ == e);
        }
    }
    assert forall|k: int, l: int| 0 <= k < l < w.len() implies (#[trigger] w[k]).email@ != (
    #[trigger] w[l]).email@ by {
        assert(w[k].email@ == v[k].email@);
        assert(w[l].email@ == v[l].email@);
    }
}

/// Adding a cursor with a new email keeps the list in agreement with the
/// map in which it is inserted.
proof fn lemma_cursor_added(v: Seq<StoredSequence>, m: Map<Seq<char>, u32>, entry: StoredSequence)
    requires
        cursors_agree(v, m),
        forall|j: int| 0 <= j < v.len() ==> (#[trigger] v[j]).email@ != entry.email@,
    ensures
        cursors_agree(v.push(entry), m.insert(entry.email@, entry.value)),
{
    let w = v.push(entry);
    let t = m.insert(entry.email@, entry.value);
    let n = v.len() as int;
    assert forall|k: int| 0 <= k < w.len() implies {
        &&& t.contains_key((#[trigger] w[k]).email@)
        &&& t[w[k].email@] == w[k].value
    } by {
        if k < n {
            assert(w[k] == v[k]);
            assert(m.contains_key(v[k].email@));
        }
    }
    assert forall|e: Seq<char>| #![trigger t.contains_key(e)] t.contains_key(e) implies exists|
        j: int,
    | 0 <= j < w.len() && (#[trigger] w[j]).email@ == e by {
        if e == entry.email@ {
            assert(w[n].email@ == e);
        } else {
            assert(m.contains_key(e));
            let j = choose|j: int| 0 <= j < v.len() && (#[trigger] v[j]).email@ == e;
            assert(w[j] == v[j]);
            assert(w[j].email@ == e);
        }
    }
    assert forall|k: int, l: int| 0 <= k < l < w.len() implies (#[trigger] w[k]).email@ != (
    #[trigger] w[l]).email@ by {
        assert(w[k] == v[k]);
        if l < n {
            assert(w[l] == v[l]);
        }
    }
}

/// What is stored can be loaded: once an account is stored, the account
/// found for its email is that account, whatever was stored before.
pub proof fn lemma_account_round_trip(accounts: Map<Seq<char>, AccountView>, account: AccountView)
    ensures
        account_for(accounts.insert(account.email, account), account.email) == Some(account),
        forall|e: Seq<char>|
            e != account.email ==> account_for(accounts.insert(account.email, account), e)
                == account_for(accounts, e),
{
}

/// What is destroyed is gone: no account is found for its email.
pub proof fn lemma_destroyed_account_is_gone(
    accounts: Map<Seq<char>, AccountView>,
    email: Seq<char>,
)
    ensures
        account_for(accounts.remove(email), email) is None,
{
}

/// What a store holds after `added` were stored into `accounts`, one after
/// the other.
pub open spec fn stored_all(
    accounts: Map<Seq<char>, AccountView>,
    added: Seq<AccountView>,
) -> Map<Seq<char>, AccountView>
    decreases added.len(),
{
    if added.len() == 0 {
        accounts
    } else {
        stored_all(accounts, added.drop_last()).insert(added.last().email, added.last())
    }
}

/// After accounts with distinct emails were stored, the store holds what
/// it held and these accounts, each under its email.
proof fn lemma_stored_all(accounts: Map<Seq<char>, AccountView>, added: Seq<AccountView>)
    requires
        forall|i: int, j: int|
            0 <= i < j < added.len() ==> (#[trigger] added[i]).email != (#[trigger] added[j]).email,
    ensures
        forall|e: Seq<char>|
            #![trigger stored_all(accounts, added).contains_key(e)]
            stored_all(accounts, added).contains_key(e) <==> accounts.contains_key(e) || exists|
                i: int,
            | 0 <= i < added.len() && (#[trigger] added[i]).email == e,
        forall|i: int|
            0 <= i < added.len() ==> stored_all(accounts, added)[(#[trigger] added[i]).email]
                == added[i],
    decreases added.len(),
{
    if added.len() > 0 {
        let front = added.drop_last();
        lemma_stored_all(accounts, front);
        let now = stored_all(accounts, added);
        assert forall|e: Seq<char>| #![trigger now.contains_key(e)] now.contains_key(e)
            <==> accounts.contains_key(e) || exists|i: int|
            0 <= i < added.len() && (#[trigger] added[i]).email == e by {
            if now.contains_key(e) && !accounts.contains_key(e) {
                if e == added.last().email {
                    assert(added[added.len() - 1].email == e);
                } else {
                    assert(stored_all(accounts, front).contains_key(e));
                    let i = choose|i: int| 0 <= i < front.len() && (#[trigger] front[i]).email == e;
                    assert(added[i].email == e);
                }
            }
            if exists|i: int| 0 <= i < added.len() && (#[trigger] added[i]).email == e {
                let i = choose|i: int| 0 <= i < added.len() && (#[trigger] added[i]).email == e;
                if i < front.len() {
                    assert(front[i].email == e);
                    assert(stored_all(accounts, front).contains_key(e));
                }
            }
        }
        assert forall|i: int| 0 <= i < added.len() implies now[(#[trigger] added[i]).email]
            == added[i] by {
            if i < front.len() {
                assert(front[i] == added[i]);
                assert(added[i].email != added[added.len() - 1].email);
            }
        }
    }
}

/// Listing a host gives what was stored for it: after accounts of `host`
/// with distinct emails were stored into a store that held none of that
/// host, a list of the host's accounts holds exactly these accounts, and as
/// many.
pub proof fn lemma_stored_accounts_are_listed(
    accounts: Map<Seq<char>, AccountView>,
    added: Seq<AccountView>,
    host: Seq<char>,
    list: Seq<AccountView>,
)
    requires
        forall|e: Seq<char>| accounts.contains_key(e) ==> !belongs_to_host(e, host),
        forall|i: int| 0 <= i < added.len() ==> belongs_to_host((#[trigger] added[i]).email, host),
        forall|i: int, j: int|
            0 <= i < j < added.len() ==> (#[trigger] added[i]).email != (#[trigger] added[j]).email,
        lists_host(list, stored_all(accounts, added), host),
    ensures
        list.to_set() == added.to_set(),
        list.len() == added.len(),
{
    let now = stored_all(accounts, added);
    lemma_stored_all(accounts, added);
    assert forall|a: AccountView| list.contains(a) implies added.contains(a) by {
        let k = choose|k: int| 0 <= k < list.len() && list[k] == a;
        assert(belongs_to_host(list[k].email, host));
        assert(now.contains_key(list[k].email));
        let i = choose|i: int| 0 <= i < added.len() && (#[trigger] added[i]).email == a.email;
        assert(added[i] == a);
    }
    assert forall|a: AccountView| added.contains(a) implies list.contains(a) by {
        let i = choose|i: int| 0 <= i < added.len() && added[i] == a;
        assert(added[i].email == a.email);
        assert(now.contains_key(a.email));
        let k = choose|k: int| 0 <= k < list.len() && (#[trigger] list[k]).email == a.email;
        assert(now[list[k].email] == list[k]);
        assert(list[k] == a);
    }
    assert(list.to_set() =~= added.to_set());
    assert(list.no_duplicates()) by {
        assert forall|i: int, j: int|
            0 <= i < list.len() && 0 <= j < list.len() && i != j implies list[i] != list[j] by {
            if i < j {
                assert(list[i].email != list[j].email);
            } else {
                assert(list[j].email != list[i].email);
            }
        }
    }
    assert(added.no_duplicates()) by {
        assert forall|i: int, j: int|
            0 <= i < added.len() && 0 <= j < added.len() && i != j implies added[i] != added[j] by {
            if i < j {
                assert(added[i].email != added[j].email);
            } else {
                assert(added[j].email != added[i].email);
            }
        }
    }
    list.unique_seq_to_set();
    added.unique_seq_to_set();
}

/// A stored cursor is the cursor that is loaded, and a cursor that was
/// never stored loads as 1.
pub proof fn lemma_cursor_round_trip(sequences: Map<Seq<char>, u32>, email: Seq<char>, value: u32)
    ensures
        cursor_for(sequences.insert(email, value), email) == value,
        !sequences.contains_key(email) ==> cursor_for(sequences, email) == 1,
{
}

} // verus!
