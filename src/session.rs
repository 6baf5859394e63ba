//! The session store: at most one current session record per account.
use vstd::prelude::*;
use std::collections::HashMap;

verus! {

broadcast use vstd::std_specs::hash::group_hash_axioms;

/// The server-side record of an account's current session.
#[derive(Debug, Clone, PartialEq, Eq)]
pub struct SessionRecord {
    pub account_id: i32,
    /// The currently recognised token; an empty token counts as no session.
    pub token: String,
    /// Unix seconds of the last activity seen on this session.
    pub last_activity: i64,
    /// Device label captured when the session was opened.
    pub device: String,
    /// Network address captured when the session was opened.
    pub ip_address: String,
    /// Calling application captured when the session was opened.
    pub app_name: String,
}

pub struct RecordView {
    pub account_id: i32,
    pub token: Seq<char>,
    pub last_activity: i64,
    pub device: Seq<char>,
    pub ip_address: Seq<char>,
    pub app_name: Seq<char>,
}

impl View for SessionRecord {
    type V = RecordView;

    open spec fn view(&self) -> RecordView {
        RecordView {
            account_id: self.account_id,
            token: self.token@,
            last_activity: self.last_activity,
            device: self.device@,
            ip_address: self.ip_address@,
            app_name: self.app_name@,
        }
    }
}

impl SessionRecord {
    pub fn clone_record(&self) -> (r: SessionRecord)
        ensures
            r@ == self@,
    {
        SessionRecord {
            account_id: self.account_id,
            token: self.token.clone(),
            last_activity: self.last_activity,
            device: self.device.clone(),
            ip_address: self.ip_address.clone(),
            app_name: self.app_name.clone(),
        }
    }
}

/// `r` with its last activity moved to `now`.
pub open spec fn touched(r: RecordView, now: i64) -> RecordView {
    RecordView { last_activity: now, ..r }
}

/// In-memory session store keyed by account id.
pub struct SessionStore {
    records: HashMap<i32, SessionRecord>,
}

impl View for SessionStore {
    type V = Map<i32, RecordView>;

    closed spec fn view(&self) -> Map<i32, RecordView> {
        self.records@.map_values(|r: SessionRecord| r@)
    }
}

impl SessionStore {
    /// Every record sits under its own account id.
    pub closed spec fn wf(&self) -> bool {
        forall|k: i32| #[trigger] self.records@.contains_key(k) ==> self.records@[k].account_id == k
    }

    pub fn new() -> (r: SessionStore)
        ensures
            r.wf(),
            r@ == Map::<i32, RecordView>::empty(),
    {
        let r = SessionStore { records: HashMap::new() };
        assert(r@ =~= Map::<i32, RecordView>::empty());
        r
    }

    /// The record of `account_id`, if any.
    pub fn find(&self, account_id: i32) -> (r: Option<SessionRecord>)
        requires
            self.wf(),
        ensures
            match r {
                Some(rec) => self@.contains_key(account_id) && rec@ == self@[account_id]
                    && rec.account_id == account_id,
                None => !self@.contains_key(account_id),
            },
    {
        match self.records.get(&account_id) {
            Some(rec) => Some(rec.clone_record()),
            None => None,
        }
    }

    /// Stores `rec` as the record of its account, replacing any earlier one.
    pub fn upsert(&mut self, rec: SessionRecord)
        requires
            old(self).wf(),
        ensures
            final(self).wf(),
            final(self)@ == old(self)@.insert(rec.account_id, rec@),
    {
        let ghost v = rec@;
        self.records.insert(rec.account_id, rec);
        assert(self@ =~= old(self)@.insert(v.account_id, v));
    }

    /// Removes the record of `account_id`; nothing happens when there is none.
    pub fn delete(&mut self, account_id: i32)
        requires
            old(self).wf(),
        ensures
            final(self).wf(),
            final(self)@ == old(self)@.remove(account_id),
    {
        self.records.remove(&account_id);
        assert(self@ =~= old(self)@.remove(account_id));
    }

    /// Moves the last activity of `account_id`'s record to `now`, keeping its
    /// token; nothing happens when there is no record.
    pub fn touch(&mut self, account_id: i32, now: i64)
        requires
            old(self).wf(),
        ensures
            final(self).wf(),
            old(self)@.contains_key(account_id) ==> final(self)@ == old(self)@.insert(
                account_id,
                touched(old(self)@[account_id], now),
            ),
            !old(self)@.contains_key(account_id) ==> final(self)@ == old(self)@,
    {
        match self.records.get(&account_id) {
            Some(rec) => {
                let mut r = rec.clone_record();
                r.last_activity = now;
                let ghost v = r@;
                self.records.insert(account_id, r);
                assert(self@ =~= old(self)@.insert(account_id, v));
            },
            None => {},
        }
    }
}

} // verus!
