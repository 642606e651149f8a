//! The repository: the single process-wide store of owner accounts and the
//! identifier authority for both identifier spaces. Owner accounts are held
//! by value in a table; a secondary index maps every ledger-account
//! identifier to the identifier of its owning owner account.

use std::collections::HashMap;

use vstd::prelude::*;

use crate::account::{BankAccount, MoneyAccount, MoneyAccountType};
use crate::date::{digit_value, is_digit, Date};
use crate::errors::BalanceError;

verus! {

/// The value named by a sequence of decimal digit characters.
pub open spec fn numeral_value(s: Seq<char>) -> int
    decreases s.len(),
{
    if s.len() == 0 {
        0
    } else {
        numeral_value(s.drop_last()) * 10 + digit_value(s.last())
    }
}

pub open spec fn all_digits(s: Seq<char>) -> bool {
    forall|i: int| 0 <= i < s.len() ==> is_digit(#[trigger] s[i])
}

/// The digit part of a decimal numeral: everything after an optional
/// leading plus sign.
pub open spec fn u32_numeral_digits(s: Seq<char>) -> Seq<char> {
    if s.len() > 0 && s[0] == '+' {
        s.skip(1)
    } else {
        s
    }
}

/// Whether a string is a decimal numeral for a `u32`: an optional leading
/// plus sign, then at least one digit and nothing else, naming a value
/// that fits.
pub open spec fn is_u32_numeral(s: Seq<char>) -> bool {
    let d = u32_numeral_digits(s);
    &&& d.len() > 0
    &&& all_digits(d)
    &&& numeral_value(d) <= u32::MAX
}

proof fn lemma_numeral_nonneg(s: Seq<char>)
    requires
        all_digits(s),
    ensures
        numeral_value(s) >= 0,
    decreases s.len(),
{
    if s.len() > 0 {
        assert(all_digits(s.drop_last()));
        lemma_numeral_nonneg(s.drop_last());
    }
}

/// Appending digits never lowers a numeral's value.
proof fn lemma_numeral_prefix_le(s: Seq<char>, k: int)
    requires
        all_digits(s),
        0 <= k <= s.len(),
    ensures
        numeral_value(s.take(k)) <= numeral_value(s),
    decreases s.len() - k,
{
    if k < s.len() {
        lemma_numeral_prefix_le(s, k + 1);
        assert(s.take(k + 1).drop_last() =~= s.take(k));
        assert(all_digits(s.take(k)));
        lemma_numeral_nonneg(s.take(k));
    } else {
        assert(s.take(k) =~= s);
    }
}

/// Reads a decimal numeral, exactly as the standard unsigned parse does:
/// an optional leading plus sign, then one or more digits, rejected when
/// the value does not fit in a `u32`.
pub fn parse_u32(s: &str) -> (r: Option<u32>)
    ensures
        match r {
            Some(v) => is_u32_numeral(s@) && v == numeral_value(u32_numeral_digits(s@)),
            None => !is_u32_numeral(s@),
        },
{
    let len = s.unicode_len();
    if len == 0 {
        return None;
    }
    let start: usize = if s.get_char(0) == '+' {
        1
    } else {
        0
    };
    if start == len {
        return None;
    }
    let ghost digits = u32_numeral_digits(s@);
    proof {
        assert(digits =~= s@.subrange(start as int, len as int));
    }
    let mut i: usize = start;
    let mut value: u64 = 0;
    while i < len
        invariant
            start <= i <= len,
            len == s@.len(),
            digits == u32_numeral_digits(s@),
            digits =~= s@.subrange(start as int, len as int),
            all_digits(digits.take(i - start)),
            value == numeral_value(digits.take(i - start)),
            value <= u32::MAX,
        decreases len - i,
    {
        let c = s.get_char(i);
        if '0' <= c && c <= '9' {
            let d: u64 = c as u64 - '0' as u64;
            assert(d == digit_value(digits[i - start]));
            proof {
                assert(digits.take(i - start + 1).drop_last() =~= digits.take(i - start));
            }
            let next: u64 = value * 10 + d;
            if next > u32::MAX as u64 {
                proof {
                    assert(numeral_value(digits.take(i - start + 1)) > u32::MAX);
                    if all_digits(digits) {
                        lemma_numeral_prefix_le(digits, i - start + 1);
                    }
                }
                return None;
            }
            value = next;
            i = i + 1;
        } else {
            assert(!is_digit(digits[i - start]));
            return None;
        }
    }
    proof {
        assert(digits.take(len - start) =~= digits);
    }
    Some(value as u32)
}

/// Compares two strings character by character.
fn str_eq(a: &str, b: &str) -> (r: bool)
    ensures
        r == (a@ == b@),
{
    let alen = a.unicode_len();
    let blen = b.unicode_len();
    if alen != blen {
        return false;
    }
    let mut i: usize = 0;
    while i < alen
        invariant
            i <= alen,
            alen == a@.len(),
            alen == b@.len(),
            forall|j: int| 0 <= j < i ==> a@[j] == b@[j],
        decreases alen - i,
    {
        if a.get_char(i) != b.get_char(i) {
            return false;
        }
        i = i + 1;
    }
    proof {
        assert(a@ =~= b@);
    }
    true
}

/// Draws a candidate account identifier from the fixed identifier range.
///
/// Relies on `rand::random_range`: sampling a non-empty integer range
/// yields a value within that range (here `0..999999`); the call panics
/// only on an empty range.
#[verifier::external_body]
fn random_account_number() -> (r: u32)
    ensures
        r < 999999,
{
    rand::random_range(0u32..999999)
}

/// The identifiers below a bound.
spec fn id_range_set(n: u32) -> Set<u32> {
    Set::new(|c: u32| c < n)
}

proof fn lemma_id_range_card(n: u32)
    ensures
        id_range_set(n).finite(),
        id_range_set(n).len() == n,
    decreases n,
{
    if n == 0 {
        assert(id_range_set(0) =~= Set::empty());
    } else {
        lemma_id_range_card((n - 1) as u32);
        assert(id_range_set((n - 1) as u32).insert((n - 1) as u32) =~= id_range_set(n));
    }
}

/// The process-wide store of owner accounts and the identifier authority.
pub struct DatabaseHandler {
    bank_accounts: Vec<BankAccount>,
    money_accounts: HashMap<u32, u32>,
}

impl DatabaseHandler {
    /// The owner accounts, in creation order.
    pub closed spec fn owners(&self) -> Seq<BankAccount> {
        self.bank_accounts@
    }

    /// The global index: each ledger-account identifier to the identifier
    /// of its owning owner account.
    pub closed spec fn ledger_index(&self) -> Map<u32, u32> {
        self.money_accounts@
    }

    pub open spec fn has_owner(&self, id: u32) -> bool {
        exists|i: int| 0 <= i < self.owners().len() && (#[trigger] self.owners()[i]).id == id
    }

    pub open spec fn owner_index(&self, id: u32) -> int {
        choose|i: int| 0 <= i < self.owners().len() && (#[trigger] self.owners()[i]).id == id
    }

    pub open spec fn spec_owner(&self, id: u32) -> BankAccount {
        self.owners()[self.owner_index(id)]
    }

    pub open spec fn has_username(&self, u: Seq<char>) -> bool {
        exists|i: int| 0 <= i < self.owners().len() && (#[trigger] self.owners()[i]).userid@ == u
    }

    pub open spec fn owner_index_by_username(&self, u: Seq<char>) -> int {
        choose|i: int| 0 <= i < self.owners().len() && (#[trigger] self.owners()[i]).userid@ == u
    }

    pub open spec fn has_money_account(&self, id: u32) -> bool {
        self.ledger_index().contains_key(id)
    }

    /// The identifier of the owner account owning the ledger account.
    pub open spec fn money_owner(&self, id: u32) -> u32 {
        self.ledger_index()[id]
    }

    /// The ledger account with the identifier, resolved through the global
    /// index and the owner's local index.
    pub open spec fn spec_money_account(&self, id: u32) -> MoneyAccount {
        let owner = self.spec_owner(self.money_owner(id));
        owner.accounts@[owner.accounts_map@[id] as int]
    }

    /// Well-formedness of the whole store: owner identifiers and usernames
    /// are pairwise distinct, every owner account is well formed, and the
    /// global ledger index and the owners' local indices agree exactly.
    pub open spec fn wf(&self) -> bool {
        &&& forall|i: int, j: int|
            #![trigger self.owners()[i], self.owners()[j]]
            0 <= i < j < self.owners().len() ==> self.owners()[i].id != self.owners()[j].id
                && self.owners()[i].userid@ != self.owners()[j].userid@
        &&& forall|i: int| 0 <= i < self.owners().len() ==> (#[trigger] self.owners()[i]).wf()
        &&& forall|i: int, k: u32|
            0 <= i < self.owners().len() && (#[trigger] self.owners()[i].accounts_map@.contains_key(
                k,
            )) ==> self.ledger_index().contains_key(k) && self.ledger_index()[k]
                == self.owners()[i].id
        &&& forall|k: u32|
            #[trigger] self.ledger_index().contains_key(k) ==> self.has_owner(self.ledger_index()[k])
                && self.spec_owner(self.ledger_index()[k]).accounts_map@.contains_key(k)
    }

    /// In a well-formed store the owner index is determined: any position
    /// holding the identifier is the chosen one.
    pub proof fn lemma_owner_index_is(self, id: u32, i: int)
        requires
            self.wf(),
            0 <= i < self.owners().len(),
            self.owners()[i].id == id,
        ensures
            self.has_owner(id),
            self.owner_index(id) == i,
            self.spec_owner(id) == self.owners()[i],
    {
        assert(self.has_owner(id));
        let j = self.owner_index(id);
        if j != i {
            if i < j {
                assert(self.owners()[i].id != self.owners()[j].id);
            } else {
                assert(self.owners()[j].id != self.owners()[i].id);
            }
        }
    }

    /// Law: ledger-account identifiers are pairwise distinct across the
    /// whole system: two different positions in the ownership graph never
    /// hold the same identifier, whichever owner accounts hold them.
    pub proof fn lemma_money_ids_globally_distinct(self, i: int, p: int, j: int, q: int)
        requires
            self.wf(),
            0 <= i < self.owners().len(),
            0 <= p < self.owners()[i].accounts@.len(),
            0 <= j < self.owners().len(),
            0 <= q < self.owners()[j].accounts@.len(),
            i != j || p != q,
        ensures
            self.owners()[i].accounts@[p].id != self.owners()[j].accounts@[q].id,
    {
        let mid = self.owners()[i].accounts@[p].id;
        if self.owners()[j].accounts@[q].id == mid {
            assert(self.owners()[i].accounts_map@.contains_key(mid));
            assert(self.owners()[j].accounts_map@.contains_key(mid));
            assert(self.ledger_index()[mid] == self.owners()[i].id);
            assert(self.ledger_index()[mid] == self.owners()[j].id);
            if i != j {
                if i < j {
                    assert(self.owners()[i].id != self.owners()[j].id);
                } else {
                    assert(self.owners()[j].id != self.owners()[i].id);
                }
            } else {
                assert(self.owners()[i].accounts_map@[mid] as int == p);
                assert(self.owners()[j].accounts_map@[mid] as int == q);
            }
        }
    }

    /// Law: usernames are pairwise distinct across all owner accounts.
    pub proof fn lemma_usernames_distinct(self, i: int, j: int)
        requires
            self.wf(),
            0 <= i < self.owners().len(),
            0 <= j < self.owners().len(),
            i != j,
        ensures
            self.owners()[i].userid@ != self.owners()[j].userid@,
    {
        if i < j {
            assert(self.owners()[i].userid@ != self.owners()[j].userid@);
        } else {
            assert(self.owners()[j].userid@ != self.owners()[i].userid@);
        }
    }

    /// Makes an empty store.
    pub fn new() -> (r: Self)
        ensures
            r.owners().len() == 0,
            r.ledger_index() == Map::<u32, u32>::empty(),
            r.wf(),
    {
        DatabaseHandler { bank_accounts: Vec::new(), money_accounts: HashMap::new() }
    }

    /// Finds the table position of the owner account with the identifier.
    fn find_owner_index(&self, id: u32) -> (r: Option<usize>)
        ensures
            match r {
                Some(i) => i < self.owners().len() && self.owners()[i as int].id == id,
                None => !self.has_owner(id),
            },
    {
        let mut i: usize = 0;
        while i < self.bank_accounts.len()
            invariant
                i <= self.owners().len(),
                forall|j: int| 0 <= j < i ==> (#[trigger] self.owners()[j]).id != id,
            decreases self.owners().len() - i,
        {
            if self.bank_accounts[i].id == id {
                return Some(i);
            }
            i = i + 1;
        }
        None
    }

    /// Looks an owner account up by identifier.
    pub fn get_bank_account_with_id_u32(&self, id: u32) -> (r: Result<&BankAccount, ()>)
        requires
            self.wf(),
        ensures
            match r {
                Ok(a) => self.has_owner(id) && *a == self.spec_owner(id),
                Err(e) => !self.has_owner(id),
            },
    {
        match self.find_owner_index(id) {
            Some(i) => {
                proof {
                    self.lemma_owner_index_is(id, i as int);
                }
                Ok(&self.bank_accounts[i])
            },
            None => Err(()),
        }
    }

    /// Looks an owner account up by an identifier given as text: the text
    /// must be a decimal numeral naming a known identifier.
    pub fn get_bank_account_with_id_string(&self, id: String) -> (r: Result<&BankAccount, ()>)
        requires
            self.wf(),
        ensures
            match r {
                Ok(a) => {
                    &&& is_u32_numeral(id@)
                    &&& self.has_owner(numeral_value(u32_numeral_digits(id@)) as u32)
                    &&& *a == self.spec_owner(numeral_value(u32_numeral_digits(id@)) as u32)
                },
                Err(e) => !is_u32_numeral(id@) || !self.has_owner(
                    numeral_value(u32_numeral_digits(id@)) as u32,
                ),
            },
    {
        match parse_u32(id.as_str()) {
            Some(n) => self.get_bank_account_with_id_u32(n),
            None => Err(()),
        }
    }

    /// Whether an owner account with the identifier exists.
    pub fn check_if_bank_account_id_exists(&self, id: u32) -> (r: bool)
        ensures
            r == self.has_owner(id),
    {
        match self.find_owner_index(id) {
            Some(i) => {
                proof {
                    assert(self.has_owner(id));
                }
                true
            },
            None => false,
        }
    }

    /// Finds the owner account holding the username, by a linear scan over
    /// all owner accounts.
    pub fn find_bank_account_with_user_id(&self, user_id: &str) -> (r: Option<&BankAccount>)
        requires
            self.wf(),
        ensures
            match r {
                Some(a) => self.has_username(user_id@) && *a == self.owners()[self.owner_index_by_username(
                    user_id@,
                )],
                None => !self.has_username(user_id@),
            },
    {
        let mut i: usize = 0;
        while i < self.bank_accounts.len()
            invariant
                self.wf(),
                i <= self.owners().len(),
                forall|j: int| 0 <= j < i ==> (#[trigger] self.owners()[j]).userid@ != user_id@,
            decreases self.owners().len() - i,
        {
            if str_eq(self.bank_accounts[i].userid.as_str(), user_id) {
                proof {
                    assert(self.has_username(user_id@));
                    let j = self.owner_index_by_username(user_id@);
                    if j != i {
                        self.lemma_usernames_distinct(i as int, j);
                    }
                }
                return Some(&self.bank_accounts[i]);
            }
            i = i + 1;
        }
        None
    }

    /// While some identifier below the bound is free, repeated draws can
    /// find one: the owner identifiers cannot cover the whole range.
    proof fn lemma_free_owner_id_exists(self)
        requires
            self.owners().len() < 999999,
        ensures
            exists|c: u32| c < 999999 && !self.has_owner(c),
    {
        broadcast use vstd::seq_lib::seq_to_set_is_finite;

        let ids_seq = Seq::<u32>::new(self.owners().len() as nat, |i: int| self.owners()[i].id);
        ids_seq.lemma_cardinality_of_set();
        if !(exists|c: u32| c < 999999 && !self.has_owner(c)) {
            assert forall|c: u32| c < 999999 implies ids_seq.to_set().contains(c) by {
                assert(self.has_owner(c));
                let i = choose|i: int|
                    0 <= i < self.owners().len() && (#[trigger] self.owners()[i]).id == c;
                assert(ids_seq[i] == c);
                assert(ids_seq.contains(c));
            }
            lemma_id_range_card(999999);
            vstd::set_lib::lemma_len_subset(id_range_set(999999), ids_seq.to_set());
            assert(false);
        }
    }

    /// Finds the smallest free owner identifier, for the case where random
    /// draws keep colliding.
    fn smallest_free_owner_id(&self) -> (r: u32)
        requires
            exists|c: u32| c < 999999 && !self.has_owner(c),
        ensures
            r < 999999,
            !self.has_owner(r),
    {
        let mut c: u32 = 0;
        loop
            invariant
                c < 999999,
                forall|j: u32| j < c ==> self.has_owner(j),
                exists|f: u32| c <= f < 999999 && !self.has_owner(f),
            decreases 999999 - c,
        {
            if !self.check_if_bank_account_id_exists(c) {
                return c;
            }
            proof {
                let f = choose|f: u32| c <= f < 999999 && !self.has_owner(f);
                assert(f != c);
            }
            c = c + 1;
        }
    }

    /// Creates an owner account: draws identifiers until one is free,
    /// builds the account with no ledger accounts yet, and stores it. The
    /// caller has already rejected a duplicate username, so creation
    /// always succeeds; the identifier is returned.
    pub fn make_new_bank_account(
        &mut self,
        name: String,
        dob: Date,
        userid: String,
        password: String,
    ) -> (r: u32)
        requires
            old(self).wf(),
            !old(self).has_username(userid@),
            old(self).owners().len() < 999999,
        ensures
            final(self).wf(),
            !old(self).has_owner(r),
            r < 999999,
            final(self).ledger_index() == old(self).ledger_index(),
            final(self).owners().len() == old(self).owners().len() + 1,
            forall|i: int|
                0 <= i < old(self).owners().len() ==> final(self).owners()[i] == old(
                    self,
                ).owners()[i],
            final(self).owners().last().id == r,
            final(self).owners().last().name == name,
            final(self).owners().last().dob == dob,
            final(self).owners().last().userid == userid,
            final(self).owners().last().password == password,
            final(self).owners().last().accounts@.len() == 0,
            final(self).owners().last().accounts_map@ == Map::<u32, usize>::empty(),
            final(self).has_owner(r),
            final(self).owner_index(r) == old(self).owners().len(),
    {
        let mut n: u32 = random_account_number();
        let mut attempts: u32 = 0;
        while attempts < 64 && self.check_if_bank_account_id_exists(n)
            invariant
                n < 999999,
                attempts <= 64,
            decreases 64 - attempts,
        {
            n = random_account_number();
            attempts = attempts + 1;
        }
        if self.check_if_bank_account_id_exists(n) {
            proof {
                self.lemma_free_owner_id_exists();
            }
            n = self.smallest_free_owner_id();
        }
        let account = BankAccount::new(n, name, dob, userid, password);
        self.bank_accounts.push(account);
        proof {
            let oldview = old(self).owners();
            let newview = self.owners();
            assert(newview.last().id == n);
            assert forall|i: int, j: int|
                #![trigger newview[i], newview[j]]
                0 <= i < j < newview.len() implies newview[i].id != newview[j].id
                && newview[i].userid@ != newview[j].userid@ by {
                if j < newview.len() - 1 {
                    assert(oldview[i].id != oldview[j].id);
                } else {
                    assert(!old(self).has_owner(n));
                    assert(!old(self).has_username(newview[j].userid@));
                }
            }
            assert forall|k: u32| #[trigger]
                self.ledger_index().contains_key(k) implies self.has_owner(self.ledger_index()[k])
                && self.spec_owner(self.ledger_index()[k]).accounts_map@.contains_key(k) by {
                let oid = old(self).ledger_index()[k];
                let oi = old(self).owner_index(oid);
                assert(old(self).has_owner(oid));
                assert(0 <= oi < oldview.len() && oldview[oi].id == oid);
                assert(newview[oi] == oldview[oi]);
                assert(self.has_owner(oid));
                let ci = self.owner_index(oid);
                assert(0 <= ci < newview.len() && newview[ci].id == oid);
                if ci != oi {
                    if ci < oi {
                        assert(newview[ci].id != newview[oi].id);
                    } else {
                        assert(newview[oi].id != newview[ci].id);
                    }
                }
                assert(self.spec_owner(oid) == oldview[oi]);
                assert(old(self).spec_owner(oid).accounts_map@.contains_key(k));
            }
            assert(self.wf());
            self.lemma_owner_index_is(n, newview.len() - 1);
        }
        n
    }

    /// Whether a ledger account with the identifier exists anywhere in the
    /// system.
    pub fn check_if_money_account_id_exists(&self, id: u32) -> (r: bool)
        ensures
            r == self.has_money_account(id),
    {
        broadcast use vstd::std_specs::hash::group_hash_axioms;

        self.money_accounts.contains_key(&id)
    }

    /// Looks a ledger account up by identifier: the global index names the
    /// owning owner account, whose local index then yields the account.
    pub fn get_money_account_with_id_u32(&self, id: u32) -> (r: Option<&MoneyAccount>)
        requires
            self.wf(),
        ensures
            match r {
                Some(m) => self.has_money_account(id) && *m == self.spec_money_account(id),
                None => !self.has_money_account(id),
            },
    {
        broadcast use vstd::std_specs::hash::group_hash_axioms;

        match self.money_accounts.get(&id) {
            Some(owner_id) => {
                proof {
                    assert(self.ledger_index().contains_key(id));
                    assert(self.has_owner(self.ledger_index()[id]));
                }
                match self.find_owner_index(*owner_id) {
                    Some(oi) => {
                        proof {
                            self.lemma_owner_index_is(*owner_id, oi as int);
                            assert(self.spec_owner(*owner_id).accounts_map@.contains_key(id));
                        }
                        self.bank_accounts[oi].get_associated_money_account(id)
                    },
                    None => {
                        proof {
                            assert(false);
                        }
                        None
                    },
                }
            },
            None => None,
        }
    }

    /// Looks a ledger account up by an identifier given as text.
    pub fn get_money_account_with_id_string(&self, id: String) -> (r: Option<&MoneyAccount>)
        requires
            self.wf(),
        ensures
            match r {
                Some(m) => {
                    &&& is_u32_numeral(id@)
                    &&& self.has_money_account(numeral_value(u32_numeral_digits(id@)) as u32)
                    &&& *m == self.spec_money_account(numeral_value(u32_numeral_digits(id@)) as u32)
                },
                None => !is_u32_numeral(id@) || !self.has_money_account(
                    numeral_value(u32_numeral_digits(id@)) as u32,
                ),
            },
    {
        match parse_u32(id.as_str()) {
            Some(n) => self.get_money_account_with_id_u32(n),
            None => None,
        }
    }

    /// Resolves a list of ledger-account identifiers, keeping order and
    /// silently skipping identifiers that resolve to nothing.
    pub fn get_money_accounts_with_ids(&self, ids: Vec<u32>) -> (r: Vec<&MoneyAccount>)
        requires
            self.wf(),
        ensures
            r@.len() == spec_money_accounts_of(*self, ids@).len(),
            forall|p: int|
                0 <= p < r@.len() ==> *r@[p] == spec_money_accounts_of(*self, ids@)[p],
    {
        let mut accs: Vec<&MoneyAccount> = Vec::new();
        let mut i: usize = 0;
        while i < ids.len()
            invariant
                self.wf(),
                i <= ids@.len(),
                accs@.len() == spec_money_accounts_of(*self, ids@.take(i as int)).len(),
                forall|p: int|
                    0 <= p < accs@.len() ==> *accs@[p] == spec_money_accounts_of(
                        *self,
                        ids@.take(i as int),
                    )[p],
            decreases ids@.len() - i,
        {
            proof {
                assert(ids@.take(i + 1).drop_last() =~= ids@.take(i as int));
                assert(ids@.take(i + 1).last() == ids@[i as int]);
            }
            if let Some(acc) = self.get_money_account_with_id_u32(ids[i]) {
                accs.push(acc);
            }
            i = i + 1;
        }
        proof {
            assert(ids@.take(ids@.len() as int) =~= ids@);
        }
        accs
    }

    /// While some identifier below the bound is free, repeated draws can
    /// find one: the ledger identifiers cannot cover the whole range.
    proof fn lemma_free_money_id_exists(self)
        requires
            self.ledger_index().dom().finite(),
            self.ledger_index().dom().len() < 999999,
        ensures
            exists|c: u32| c < 999999 && !self.has_money_account(c),
    {
        if !(exists|c: u32| c < 999999 && !self.has_money_account(c)) {
            assert forall|c: u32| c < 999999 implies self.ledger_index().dom().contains(c) by {
                assert(self.has_money_account(c));
            }
            lemma_id_range_card(999999);
            vstd::set_lib::lemma_len_subset(id_range_set(999999), self.ledger_index().dom());
            assert(false);
        }
    }

    /// Finds the smallest free ledger identifier, for the case where
    /// random draws keep colliding.
    fn smallest_free_money_id(&self) -> (r: u32)
        requires
            exists|c: u32| c < 999999 && !self.has_money_account(c),
        ensures
            r < 999999,
            !self.has_money_account(r),
    {
        let mut c: u32 = 0;
        loop
            invariant
                c < 999999,
                forall|j: u32| j < c ==> self.has_money_account(j),
                exists|f: u32| c <= f < 999999 && !self.has_money_account(f),
            decreases 999999 - c,
        {
            if !self.check_if_money_account_id_exists(c) {
                return c;
            }
            proof {
                let f = choose|f: u32| c <= f < 999999 && !self.has_money_account(f);
                assert(f != c);
            }
            c = c + 1;
        }
    }

    /// Creates a ledger account under the given owner account: draws a
    /// fresh global identifier, builds the account with balance zero and
    /// overdraft disabled, appends it to the owner's collection, and
    /// registers it in the owner's local index and the global index. The
    /// owner reference must denote a live owner account; this is caller
    /// discipline and is not re-validated here.
    pub fn make_new_money_account(
        &mut self,
        owner_id: u32,
        name: String,
        acc_type: MoneyAccountType,
    ) -> (r: u32)
        requires
            old(self).wf(),
            old(self).has_owner(owner_id),
            old(self).ledger_index().dom().len() < 999999,
        ensures
            final(self).wf(),
            r < 999999,
            !old(self).has_money_account(r),
            final(self).ledger_index() == old(self).ledger_index().insert(r, owner_id),
            final(self).owners().len() == old(self).owners().len(),
            forall|i: int|
                0 <= i < old(self).owners().len() && i != old(self).owner_index(owner_id)
                    ==> final(self).owners()[i] == old(self).owners()[i],
            ({
                let oi = old(self).owner_index(owner_id);
                let o = old(self).owners()[oi];
                let no = final(self).owners()[oi];
                &&& no.id == o.id
                &&& no.name == o.name
                &&& no.dob == o.dob
                &&& no.userid == o.userid
                &&& no.password == o.password
                &&& no.accounts@.len() == o.accounts@.len() + 1
                &&& forall|p: int| 0 <= p < o.accounts@.len() ==> no.accounts@[p] == o.accounts@[p]
                &&& no.accounts@.last().linked_bank_account == owner_id
                &&& no.accounts@.last().account_type == acc_type
                &&& no.accounts@.last().id == r
                &&& no.accounts@.last().name == name
                &&& no.accounts@.last().balance == 0
                &&& no.accounts@.last().can_overdraft == false
                &&& no.accounts_map@ == o.accounts_map@.insert(r, (o.accounts@.len() as usize))
            }),
            final(self).has_money_account(r),
            final(self).money_owner(r) == owner_id,
            final(self).owner_index(owner_id) == old(self).owner_index(owner_id),
            final(self).spec_money_account(r) == final(self).owners()[old(self).owner_index(
                owner_id,
            )].accounts@.last(),
    {
        broadcast use vstd::std_specs::hash::group_hash_axioms;

        let mut n: u32 = random_account_number();
        let mut attempts: u32 = 0;
        while attempts < 64 && self.check_if_money_account_id_exists(n)
            invariant
                n < 999999,
                attempts <= 64,
            decreases 64 - attempts,
        {
            n = random_account_number();
            attempts = attempts + 1;
        }
        if self.check_if_money_account_id_exists(n) {
            proof {
                self.lemma_free_money_id_exists();
            }
            n = self.smallest_free_money_id();
        }
        let oi: usize = match self.find_owner_index(owner_id) {
            Some(i) => i,
            None => {
                proof {
                    assert(false);
                }
                0
            },
        };
        proof {
            old(self).lemma_owner_index_is(owner_id, oi as int);
        }
        let pos: usize = self.bank_accounts[oi].accounts.len();
        let account = MoneyAccount {
            linked_bank_account: owner_id,
            account_type: acc_type,
            id: n,
            name,
            balance: 0,
            can_overdraft: false,
        };
        self.bank_accounts[oi].accounts.push(account);
        self.bank_accounts[oi].accounts_map.insert(n, pos);
        self.money_accounts.insert(n, owner_id);
        proof {
            let oldview = old(self).owners();
            let newview = self.owners();
            let owner = oldview[oi as int];
            let no = newview[oi as int];
            assert(no.accounts@ == owner.accounts@.push(account));
            assert(no.accounts_map@ == owner.accounts_map@.insert(n, pos));
            assert(!old(self).has_money_account(n));
            // Owner identifiers and usernames are untouched.
            assert forall|i: int, j: int|
                #![trigger newview[i], newview[j]]
                0 <= i < j < newview.len() implies newview[i].id != newview[j].id
                && newview[i].userid@ != newview[j].userid@ by {
                assert(oldview[i].id != oldview[j].id);
            }
            // Every owner account stays well formed.
            assert forall|i: int| 0 <= i < newview.len() implies (#[trigger] newview[i]).wf() by {
                if i != oi as int {
                    assert(newview[i] == oldview[i]);
                } else {
                    assert forall|p: int| 0 <= p < no.accounts@.len() implies {
                        &&& no.accounts_map@.contains_key(#[trigger] no.accounts@[p].id)
                        &&& no.accounts_map@[no.accounts@[p].id] as int == p
                        &&& no.accounts@[p].linked_bank_account == no.id
                    } by {
                        if p < owner.accounts@.len() {
                            assert(no.accounts@[p] == owner.accounts@[p]);
                            assert(owner.accounts_map@.contains_key(owner.accounts@[p].id));
                            assert(owner.accounts@[p].id != n);
                        }
                    }
                    assert forall|k: u32| #[trigger]
                        no.accounts_map@.contains_key(k) implies {
                        &&& no.accounts_map@[k] < no.accounts@.len()
                        &&& no.accounts@[no.accounts_map@[k] as int].id == k
                    } by {
                        if k != n {
                            assert(owner.accounts_map@.contains_key(k));
                            assert(no.accounts@[owner.accounts_map@[k] as int]
                                == owner.accounts@[owner.accounts_map@[k] as int]);
                        }
                    }
                }
            }
            // The local indices and the global index still agree.
            assert forall|i: int, k: u32|
                0 <= i < newview.len() && (#[trigger] newview[i].accounts_map@.contains_key(k))
                implies self.ledger_index().contains_key(k) && self.ledger_index()[k]
                == newview[i].id by {
                if i == oi as int && k == n {
                } else {
                    assert(oldview[i].accounts_map@.contains_key(k));
                    assert(old(self).ledger_index().contains_key(k));
                    assert(k != n);
                }
            }
            assert forall|k: u32| #[trigger]
                self.ledger_index().contains_key(k) implies self.has_owner(self.ledger_index()[k])
                && self.spec_owner(self.ledger_index()[k]).accounts_map@.contains_key(k) by {
                let oid = self.ledger_index()[k];
                let wi: int = if k == n {
                    oi as int
                } else {
                    old(self).owner_index(oid)
                };
                if k != n {
                    assert(old(self).ledger_index().contains_key(k));
                    assert(old(self).has_owner(oid));
                    assert(oldview[wi].id == oid);
                    assert(old(self).spec_owner(oid).accounts_map@.contains_key(k));
                }
                assert(newview[wi].id == oid);
                assert(self.has_owner(oid));
                let ci = self.owner_index(oid);
                assert(0 <= ci < newview.len() && newview[ci].id == oid);
                if ci != wi {
                    if ci < wi {
                        assert(newview[ci].id != newview[wi].id);
                    } else {
                        assert(newview[wi].id != newview[ci].id);
                    }
                }
                assert(self.spec_owner(oid) == newview[wi]);
            }
            assert(self.wf());
            self.lemma_owner_index_is(owner_id, oi as int);
            assert(self.spec_money_account(n) == no.accounts@.last());
        }
        n
    }
}

/// How a store changes when exactly one ledger account's balance becomes
/// `nb`: the global index, every other owner account, and every other
/// field of the touched owner and ledger account stay as they were.
pub open spec fn spec_balance_set(
    pre: DatabaseHandler,
    post: DatabaseHandler,
    id: u32,
    nb: int,
) -> bool {
    let oi = pre.owner_index(pre.money_owner(id));
    let o = pre.owners()[oi];
    let no = post.owners()[oi];
    let pos = o.accounts_map@[id] as int;
    &&& post.ledger_index() == pre.ledger_index()
    &&& post.owners().len() == pre.owners().len()
    &&& forall|i: int| 0 <= i < pre.owners().len() && i != oi ==> post.owners()[i] == pre.owners()[i]
    &&& no.id == o.id
    &&& no.name == o.name
    &&& no.dob == o.dob
    &&& no.userid == o.userid
    &&& no.password == o.password
    &&& no.accounts_map@ == o.accounts_map@
    &&& no.accounts@.len() == o.accounts@.len()
    &&& forall|p: int| 0 <= p < o.accounts@.len() && p != pos ==> no.accounts@[p] == o.accounts@[p]
    &&& no.accounts@[pos].id == o.accounts@[pos].id
    &&& no.accounts@[pos].linked_bank_account == o.accounts@[pos].linked_bank_account
    &&& no.accounts@[pos].account_type == o.accounts@[pos].account_type
    &&& no.accounts@[pos].name == o.accounts@[pos].name
    &&& no.accounts@[pos].can_overdraft == o.accounts@[pos].can_overdraft
    &&& no.accounts@[pos].balance == nb
}

/// A balance update keeps the store well formed and touches nothing but
/// that one balance.
proof fn lemma_balance_update_wf(pre: DatabaseHandler, post: DatabaseHandler, id: u32, nb: int)
    requires
        pre.wf(),
        pre.has_money_account(id),
        spec_balance_set(pre, post, id, nb),
    ensures
        post.wf(),
        post.has_money_account(id),
        post.money_owner(id) == pre.money_owner(id),
        post.spec_money_account(id).balance == nb,
        post.spec_money_account(id).id == id,
        post.spec_money_account(id).linked_bank_account == pre.spec_money_account(
            id,
        ).linked_bank_account,
        post.spec_money_account(id).account_type == pre.spec_money_account(id).account_type,
        post.spec_money_account(id).name == pre.spec_money_account(id).name,
        post.spec_money_account(id).can_overdraft == pre.spec_money_account(id).can_overdraft,
        forall|k: u32|
            k != id && pre.has_money_account(k) ==> post.spec_money_account(k)
                == pre.spec_money_account(k),
{
    let oid = pre.money_owner(id);
    let oi = pre.owner_index(oid);
    assert(pre.has_owner(oid));
    assert(0 <= oi < pre.owners().len() && pre.owners()[oi].id == oid);
    let o = pre.owners()[oi];
    let no = post.owners()[oi];
    let pos = o.accounts_map@[id] as int;
    assert(o.accounts_map@.contains_key(id));
    assert(0 <= pos < o.accounts@.len() && o.accounts@[pos].id == id);
    assert forall|i: int, j: int|
        #![trigger post.owners()[i], post.owners()[j]]
        0 <= i < j < post.owners().len() implies post.owners()[i].id != post.owners()[j].id
        && post.owners()[i].userid@ != post.owners()[j].userid@ by {
        assert(pre.owners()[i].id != pre.owners()[j].id);
        assert(pre.owners()[i].userid@ != pre.owners()[j].userid@);
    }
    assert forall|i: int| 0 <= i < post.owners().len() implies (#[trigger] post.owners()[i]).wf() by {
        if i != oi {
            assert(post.owners()[i] == pre.owners()[i]);
        } else {
            assert forall|p: int| 0 <= p < no.accounts@.len() implies {
                &&& no.accounts_map@.contains_key(#[trigger] no.accounts@[p].id)
                &&& no.accounts_map@[no.accounts@[p].id] as int == p
                &&& no.accounts@[p].linked_bank_account == no.id
            } by {
                if p != pos {
                    assert(no.accounts@[p] == o.accounts@[p]);
                }
            }
            assert forall|k: u32| #[trigger] no.accounts_map@.contains_key(k) implies {
                &&& no.accounts_map@[k] < no.accounts@.len()
                &&& no.accounts@[no.accounts_map@[k] as int].id == k
            } by {
                assert(o.accounts_map@.contains_key(k));
                let kp = o.accounts_map@[k] as int;
                if kp != pos {
                    assert(no.accounts@[kp] == o.accounts@[kp]);
                }
            }
        }
    }
    assert forall|i: int, k: u32|
        0 <= i < post.owners().len() && (#[trigger] post.owners()[i].accounts_map@.contains_key(k))
        implies post.ledger_index().contains_key(k) && post.ledger_index()[k]
        == post.owners()[i].id by {
        assert(pre.owners()[i].accounts_map@.contains_key(k));
    }
    assert forall|k: u32| #[trigger]
        post.ledger_index().contains_key(k) implies post.has_owner(post.ledger_index()[k])
        && post.spec_owner(post.ledger_index()[k]).accounts_map@.contains_key(k) by {
        let okd = post.ledger_index()[k];
        let wi = pre.owner_index(okd);
        assert(pre.has_owner(okd));
        assert(pre.owners()[wi].id == okd);
        assert(pre.spec_owner(okd).accounts_map@.contains_key(k));
        assert(post.owners()[wi].id == okd);
        assert(post.has_owner(okd));
        let ci = post.owner_index(okd);
        assert(0 <= ci < post.owners().len() && post.owners()[ci].id == okd);
        if ci != wi {
            if ci < wi {
                assert(post.owners()[ci].id != post.owners()[wi].id);
            } else {
                assert(post.owners()[wi].id != post.owners()[ci].id);
            }
        }
        assert(post.spec_owner(okd) == post.owners()[wi]);
        assert(post.owners()[wi].accounts_map@ == pre.owners()[wi].accounts_map@);
    }
    assert(post.wf());
    post.lemma_owner_index_is(oid, oi);
    assert(post.spec_money_account(id) == no.accounts@[pos]);
    assert forall|k: u32|
        k != id && pre.has_money_account(k) implies post.spec_money_account(k)
        == pre.spec_money_account(k) by {
        let okd = pre.money_owner(k);
        let wi = pre.owner_index(okd);
        assert(pre.has_owner(okd));
        assert(pre.owners()[wi].id == okd);
        assert(pre.spec_owner(okd).accounts_map@.contains_key(k));
        post.lemma_owner_index_is(okd, wi);
        if wi != oi {
            assert(post.owners()[wi] == pre.owners()[wi]);
        } else {
            let pos2 = o.accounts_map@[k] as int;
            assert(o.accounts@[pos2].id == k);
            assert(pos2 != pos);
            assert(no.accounts@[pos2] == o.accounts@[pos2]);
        }
    }
}

impl DatabaseHandler {
    /// Finds the table position and in-owner position of a ledger account.
    fn locate_money_account(&self, id: u32) -> (r: (usize, usize))
        requires
            self.wf(),
            self.has_money_account(id),
        ensures
            ({
                let oi = self.owner_index(self.money_owner(id));
                let o = self.owners()[oi];
                &&& r.0 as int == oi
                &&& r.1 as int == o.accounts_map@[id] as int
                &&& r.0 < self.owners().len()
                &&& r.1 < o.accounts@.len()
                &&& o.accounts@[r.1 as int] == self.spec_money_account(id)
                &&& o.accounts@[r.1 as int].id == id
            }),
    {
        broadcast use vstd::std_specs::hash::group_hash_axioms;

        let owner_id: u32 = *self.money_accounts.get(&id).unwrap();
        proof {
            assert(self.has_owner(owner_id));
        }
        let oi: usize = match self.find_owner_index(owner_id) {
            Some(i) => i,
            None => {
                proof {
                    assert(false);
                }
                0
            },
        };
        proof {
            self.lemma_owner_index_is(owner_id, oi as int);
            assert(self.spec_owner(owner_id).accounts_map@.contains_key(id));
        }
        let pos: usize = *self.bank_accounts[oi].accounts_map.get(&id).unwrap();
        (oi, pos)
    }

    /// Overwrites one ledger account's balance, through the direct-set
    /// path that bypasses the overdraft policy: any value goes through,
    /// negative ones included, whatever the policy flag says.
    pub fn set_account_balance(&mut self, id: u32, new_balance: i32) -> (r: Result<
        i32,
        BalanceError,
    >)
        requires
            old(self).wf(),
            old(self).has_money_account(id),
        ensures
            final(self).wf(),
            r == Ok::<i32, BalanceError>(new_balance),
            spec_balance_set(*old(self), *final(self), id, new_balance as int),
            final(self).has_money_account(id),
            final(self).spec_money_account(id).balance == new_balance,
            forall|k: u32|
                k != id && old(self).has_money_account(k) ==> final(self).spec_money_account(k)
                    == old(self).spec_money_account(k),
    {
        let (oi, pos) = self.locate_money_account(id);
        let result = self.bank_accounts[oi].accounts[pos].set_balance(new_balance);
        proof {
            lemma_balance_update_wf(*old(self), *self, id, new_balance as int);
        }
        result
    }

    /// Deposits into one ledger account: unconditional addition.
    pub fn deposit_to_account(&mut self, id: u32, amount: i32) -> (r: Result<i32, BalanceError>)
        requires
            old(self).wf(),
            old(self).has_money_account(id),
            i32::MIN <= old(self).spec_money_account(id).balance + amount <= i32::MAX,
        ensures
            final(self).wf(),
            r == Ok::<i32, BalanceError>(
                (old(self).spec_money_account(id).balance + amount) as i32,
            ),
            spec_balance_set(
                *old(self),
                *final(self),
                id,
                crate::account::spec_deposit(
                    old(self).spec_money_account(id).balance as int,
                    amount as int,
                ),
            ),
            final(self).has_money_account(id),
            final(self).spec_money_account(id).balance == old(self).spec_money_account(id).balance
                + amount,
            forall|k: u32|
                k != id && old(self).has_money_account(k) ==> final(self).spec_money_account(k)
                    == old(self).spec_money_account(k),
    {
        let (oi, pos) = self.locate_money_account(id);
        let result = self.bank_accounts[oi].accounts[pos].add_balance(amount);
        proof {
            lemma_balance_update_wf(
                *old(self),
                *self,
                id,
                old(self).spec_money_account(id).balance + amount,
            );
        }
        result
    }

    /// Withdraws from one ledger account, under the overdraft policy: a
    /// withdrawal that would drive the balance negative on an
    /// overdraft-disabled account leaves the balance unchanged and fails
    /// with `NotEnough`.
    pub fn withdraw_from_account(&mut self, id: u32, amount: i32) -> (r: Result<i32, BalanceError>)
        requires
            old(self).wf(),
            old(self).has_money_account(id),
            i32::MIN <= old(self).spec_money_account(id).balance - amount <= i32::MAX,
        ensures
            final(self).wf(),
            spec_balance_set(
                *old(self),
                *final(self),
                id,
                crate::account::spec_withdraw(
                    old(self).spec_money_account(id).balance as int,
                    old(self).spec_money_account(id).can_overdraft,
                    amount as int,
                ),
            ),
            crate::account::spec_withdraw_blocked(
                old(self).spec_money_account(id).balance as int,
                old(self).spec_money_account(id).can_overdraft,
                amount as int,
            ) ==> r == Err::<i32, BalanceError>(BalanceError::NotEnough)
                && final(self).spec_money_account(id).balance == old(self).spec_money_account(
                id,
            ).balance,
            !crate::account::spec_withdraw_blocked(
                old(self).spec_money_account(id).balance as int,
                old(self).spec_money_account(id).can_overdraft,
                amount as int,
            ) ==> r == Ok::<i32, BalanceError>(
                (old(self).spec_money_account(id).balance - amount) as i32,
            ) && final(self).spec_money_account(id).balance == old(self).spec_money_account(
                id,
            ).balance - amount,
            final(self).has_money_account(id),
            final(self).spec_money_account(id).can_overdraft == old(self).spec_money_account(
                id,
            ).can_overdraft,
            forall|k: u32|
                k != id && old(self).has_money_account(k) ==> final(self).spec_money_account(k)
                    == old(self).spec_money_account(k),
    {
        let (oi, pos) = self.locate_money_account(id);
        let result = self.bank_accounts[oi].accounts[pos].subtract_balance(amount);
        proof {
            lemma_balance_update_wf(
                *old(self),
                *self,
                id,
                crate::account::spec_withdraw(
                    old(self).spec_money_account(id).balance as int,
                    old(self).spec_money_account(id).can_overdraft,
                    amount as int,
                ),
            );
        }
        result
    }
}

/// The ledger accounts that a list of identifiers resolves to, in order,
/// skipping identifiers that resolve to nothing.
pub open spec fn spec_money_accounts_of(db: DatabaseHandler, ids: Seq<u32>) -> Seq<MoneyAccount>
    decreases ids.len(),
{
    if ids.len() == 0 {
        Seq::empty()
    } else {
        let prefix = spec_money_accounts_of(db, ids.drop_last());
        if db.has_money_account(ids.last()) {
            prefix.push(db.spec_money_account(ids.last()))
        } else {
            prefix
        }
    }
}

} // verus!
